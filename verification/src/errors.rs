//! Error types for argument handling, pattern compilation and matching.

use vstd::prelude::*;
use vstd::string::StringSliceAdditionalSpecFns;

verus! {

/// Any failure that ends a command-line invocation early.
#[derive(Clone, Debug, PartialEq, Eq, Hash)]
pub enum CliError {
    Help,
    Usage(UsageError),
    Pattern(PatternError),
}

/// A problem with the command line itself, before any pattern is compiled.
#[derive(Clone, Copy, Debug, PartialEq, Eq, Hash, Structural)]
pub enum UsageError {
    NoArguments,
    UnknownFlag { flag: u8 },
    NoPattern,
}

/// A pattern that failed to compile: the failure kind, the source bytes of
/// the pattern, and the source offset just past the byte where compilation
/// stopped.
#[derive(Clone, Debug, PartialEq, Eq, Hash)]
pub struct PatternError {
    pub kind: PatternErrorKind,
    pub source: Vec<u8>,
    pub offset: usize,
}

/// The ways pattern compilation can fail.
///
/// `EmptyClass` is kept although no pattern can reach it: the stored class
/// length counts the length byte itself, so it is never zero.
#[derive(Clone, Copy, Debug, PartialEq, Eq, Hash, Structural)]
pub enum PatternErrorKind {
    IllegalOccurrence,
    UnknownColonType,
    NoColonType,
    UnterminatedClass,
    BackslashUnterminatedClass,
    LargeClass,
    EmptyClass,
    ComplexPattern,
}

/// A failure while interpreting compiled bytecode: an unknown opcode tag, a
/// read past the end of the bytecode, or a read past the defined terminator
/// of the line.
#[derive(Clone, Copy, Debug, PartialEq, Eq, Hash, Structural)]
pub enum MatchError {
    BadOpcode { op: u8 },
    PatternOverrun,
    LineOverrun,
}

/// The byte of each character of an ASCII string.
pub open spec fn ascii_bytes(s: Seq<char>) -> Seq<u8> {
    Seq::new(s.len(), |i: int| s[i] as u8)
}

/// The decimal digits of a non-negative number, most significant first.
pub open spec fn dec_bytes(n: int) -> Seq<u8>
    decreases n,
{
    if n < 0 {
        Seq::empty()
    } else if n < 10 {
        seq![(('0' as u8) + n) as u8]
    } else {
        dec_bytes(n / 10).push((('0' as u8) + n % 10) as u8)
    }
}

/// The octal digits of a non-negative number, most significant first.
pub open spec fn oct_bytes(n: int) -> Seq<u8>
    decreases n,
{
    if n < 0 {
        Seq::empty()
    } else if n < 8 {
        seq![(('0' as u8) + n) as u8]
    } else {
        oct_bytes(n / 8).push((('0' as u8) + n % 8) as u8)
    }
}

/// Appends a byte slice to the output.
pub(crate) fn push_bytes(out: &mut Vec<u8>, s: &[u8])
    ensures
        final(out)@ == old(out)@ + s@,
{
    let ghost out0 = out@;
    let mut i: usize = 0;
    while i < s.len()
        invariant
            i <= s@.len(),
            out@ == out0 + s@.subrange(0, i as int),
        decreases s@.len() - i,
    {
        out.push(s[i]);
        i = i + 1;
        proof {
            assert(out@ =~= out0 + s@.subrange(0, i as int));
        }
    }
    proof {
        assert(out@ =~= out0 + s@);
    }
}

/// Appends the bytes of an ASCII string to the output.
pub(crate) fn push_ascii(out: &mut Vec<u8>, s: &str)
    requires
        vstd::utf8::is_ascii_chars(s@),
    ensures
        final(out)@ == old(out)@ + ascii_bytes(s@),
{
    proof {
        vstd::string::is_ascii_spec_bytes(s);
        assert(s.spec_bytes() =~= ascii_bytes(s@));
    }
    push_bytes(out, s.as_bytes());
}

/// Appends the decimal rendering of a number to the output.
pub(crate) fn push_decimal(out: &mut Vec<u8>, n: usize)
    ensures
        final(out)@ == old(out)@ + dec_bytes(n as int),
    decreases n,
{
    if n >= 10 {
        push_decimal(out, n / 10);
    }
    out.push(('0' as u8) + (n % 10) as u8);
}

/// Appends the octal rendering of a number to the output.
pub(crate) fn push_octal(out: &mut Vec<u8>, n: usize)
    ensures
        final(out)@ == old(out)@ + oct_bytes(n as int),
    decreases n,
{
    if n >= 8 {
        push_octal(out, n / 8);
    }
    out.push(('0' as u8) + (n % 8) as u8);
}

/// The three-digit, zero-padded octal rendering of a byte.
pub open spec fn oct3_bytes(c: u8) -> Seq<u8> {
    seq![
        (('0' as u8) + c / 64) as u8,
        (('0' as u8) + (c / 8) % 8) as u8,
        (('0' as u8) + c % 8) as u8,
    ]
}

/// One byte rendered with C escapes: the named escapes for quote,
/// backslash and the common control characters; other control and
/// non-ASCII bytes as a backslash and octal digits, zero-padded to three
/// digits when an ASCII digit follows (so the escape cannot swallow it);
/// every other byte as itself.
pub open spec fn escaped_byte(c: u8, digit_follows: bool) -> Seq<u8> {
    if c == ('"' as u8) {
        seq![('\\' as u8), ('"' as u8)]
    } else if c == ('\\' as u8) {
        seq![('\\' as u8), ('\\' as u8)]
    } else if c == 7 {
        seq![('\\' as u8), ('a' as u8)]
    } else if c == 8 {
        seq![('\\' as u8), ('b' as u8)]
    } else if c == 12 {
        seq![('\\' as u8), ('f' as u8)]
    } else if c == ('\n' as u8) {
        seq![('\\' as u8), ('n' as u8)]
    } else if c == ('\r' as u8) {
        seq![('\\' as u8), ('r' as u8)]
    } else if c == ('\t' as u8) {
        seq![('\\' as u8), ('t' as u8)]
    } else if c == 11 {
        seq![('\\' as u8), ('v' as u8)]
    } else if c <= 0x1f || c >= 0x7f {
        if digit_follows {
            seq![('\\' as u8)] + oct3_bytes(c)
        } else {
            seq![('\\' as u8)] + oct_bytes(c as int)
        }
    } else {
        seq![c]
    }
}

/// Whether a byte is an ASCII decimal digit; the padding rule of
/// `escaped_byte` turns on it.
pub open spec fn digit_byte(c: u8) -> bool {
    ('0' as u8) <= c && c <= ('9' as u8)
}

/// The C-escaped rendering of the first `i` bytes of a byte string.
pub open spec fn escaped_prefix(s: Seq<u8>, i: int) -> Seq<u8>
    decreases i,
{
    if i <= 0 {
        Seq::empty()
    } else {
        escaped_prefix(s, i - 1) + escaped_byte(
            s[i - 1],
            i < s.len() && digit_byte(s[i]),
        )
    }
}

/// Renders a byte string with C escapes, as the historical diagnostics
/// did: named escapes where they exist, octal for the other control and
/// non-ASCII bytes, padded to three digits only when a digit follows.
#[verifier::loop_isolation(false)]
pub fn debug_bytes(s: &[u8]) -> (r: Vec<u8>)
    ensures
        r@ == escaped_prefix(s@, s@.len() as int),
{
    let mut out: Vec<u8> = Vec::new();
    let mut i: usize = 0;
    while i < s.len()
        invariant
            i <= s@.len(),
            out@ == escaped_prefix(s@, i as int),
        decreases s@.len() - i,
    {
        let c = s[i];
        let digit_follows = i + 1 < s.len() && s[i + 1] >= ('0' as u8) && s[i + 1] <= ('9' as u8);
        if c == ('"' as u8) {
            out.push('\\' as u8);
            out.push('"' as u8);
        } else if c == ('\\' as u8) {
            out.push('\\' as u8);
            out.push('\\' as u8);
        } else if c == 7 {
            out.push('\\' as u8);
            out.push('a' as u8);
        } else if c == 8 {
            out.push('\\' as u8);
            out.push('b' as u8);
        } else if c == 12 {
            out.push('\\' as u8);
            out.push('f' as u8);
        } else if c == ('\n' as u8) {
            out.push('\\' as u8);
            out.push('n' as u8);
        } else if c == ('\r' as u8) {
            out.push('\\' as u8);
            out.push('r' as u8);
        } else if c == ('\t' as u8) {
            out.push('\\' as u8);
            out.push('t' as u8);
        } else if c == 11 {
            out.push('\\' as u8);
            out.push('v' as u8);
        } else if c <= 0x1f || c >= 0x7f {
            out.push('\\' as u8);
            if digit_follows {
                out.push(('0' as u8) + c / 64);
                out.push(('0' as u8) + (c / 8) % 8);
                out.push(('0' as u8) + c % 8);
            } else {
                push_octal(&mut out, c as usize);
            }
        } else {
            out.push(c);
        }
        i = i + 1;
        proof {
            assert(out@ =~= escaped_prefix(s@, i as int));
        }
    }
    out
}

impl UsageError {
    /// The error message of this usage error, as the historical tool
    /// spelled it.
    pub open spec fn message_spec(&self) -> Seq<char> {
        match self {
            UsageError::NoArguments => "No arguments"@,
            UsageError::UnknownFlag { .. } => "Unknown flag"@,
            UsageError::NoPattern => "No pattern"@,
        }
    }

    /// Returns the error message of this usage error.
    pub fn message(&self) -> (r: &'static str)
        ensures
            r@ == self.message_spec(),
    {
        match self {
            UsageError::NoArguments => "No arguments",
            UsageError::UnknownFlag { .. } => "Unknown flag",
            UsageError::NoPattern => "No pattern",
        }
    }

    /// The exact diagnostic text for this usage error: the message line and
    /// the fixed usage line.
    pub open spec fn dump_spec(&self) -> Seq<u8> {
        ascii_bytes("?GREP-E-"@) + ascii_bytes(self.message_spec()) + seq![('\n' as u8)] + ascii_bytes(
            "Usage: grep [-cfnv] pattern [file ...].  grep ? for help"@,
        ) + seq![('\n' as u8)]
    }

    /// Renders the diagnostic text for this usage error, byte for byte as
    /// the historical tool printed it.
    pub fn dump(&self) -> (r: Vec<u8>)
        ensures
            r@ == self.dump_spec(),
    {
        let mut out: Vec<u8> = Vec::new();
        proof {
            reveal_strlit("?GREP-E-");
            reveal_strlit("No arguments");
            reveal_strlit("Unknown flag");
            reveal_strlit("No pattern");
            reveal_strlit("Usage: grep [-cfnv] pattern [file ...].  grep ? for help");
        }
        push_ascii(&mut out, "?GREP-E-");
        push_ascii(&mut out, self.message());
        out.push('\n' as u8);
        push_ascii(&mut out, "Usage: grep [-cfnv] pattern [file ...].  grep ? for help");
        out.push('\n' as u8);
        out
    }
}

impl PatternErrorKind {
    /// The error message of this failure kind, as the historical tool
    /// spelled it, misspelling included.
    pub open spec fn message_spec(&self) -> Seq<char> {
        match self {
            PatternErrorKind::IllegalOccurrence => "Illegal occurrance op."@,
            PatternErrorKind::UnknownColonType => "Unknown : type"@,
            PatternErrorKind::NoColonType => "No : type"@,
            PatternErrorKind::UnterminatedClass => "Unterminated class"@,
            PatternErrorKind::BackslashUnterminatedClass => "Class terminates badly"@,
            PatternErrorKind::LargeClass => "Class too large"@,
            PatternErrorKind::EmptyClass => "Empty class"@,
            PatternErrorKind::ComplexPattern => "Pattern too complex"@,
        }
    }

    /// Returns the error message of this failure kind.
    pub fn message(&self) -> (r: &'static str)
        ensures
            r@ == self.message_spec(),
    {
        match self {
            PatternErrorKind::IllegalOccurrence => "Illegal occurrance op.",
            PatternErrorKind::UnknownColonType => "Unknown : type",
            PatternErrorKind::NoColonType => "No : type",
            PatternErrorKind::UnterminatedClass => "Unterminated class",
            PatternErrorKind::BackslashUnterminatedClass => "Class terminates badly",
            PatternErrorKind::LargeClass => "Class too large",
            PatternErrorKind::EmptyClass => "Empty class",
            PatternErrorKind::ComplexPattern => "Pattern too complex",
        }
    }
}

impl PatternError {
    /// The exact diagnostic text for this pattern error. A capacity failure
    /// is a bare message line; any other failure quotes the source pattern
    /// (with no space before the quote, a preserved historical defect) and
    /// names the offset and the byte where compilation stopped.
    pub open spec fn dump_spec(&self) -> Seq<u8> {
        if self.kind == PatternErrorKind::ComplexPattern {
            ascii_bytes(self.kind.message_spec()) + seq![('\n' as u8)]
        } else {
            ascii_bytes("-GREP-E-"@) + ascii_bytes(self.kind.message_spec()) + ascii_bytes(
                ", pattern is\""@,
            ) + self.source@ + seq![('"' as u8), ('\n' as u8)] + ascii_bytes("-GREP-E-Stopped at byte "@)
                + dec_bytes(self.offset as int) + ascii_bytes(", '"@) + seq![
                self.source@[self.offset - 1],
            ] + seq![('\'' as u8), ('\n' as u8)] + ascii_bytes("?GREP-E-Bad pattern"@) + seq![('\n' as u8)]
        }
    }

    /// Renders the diagnostic text for this pattern error, byte for byte as
    /// the historical tool printed it.
    pub fn dump(&self) -> (r: Vec<u8>)
        requires
            self.kind == PatternErrorKind::ComplexPattern || 0 < self.offset
                <= self.source@.len(),
        ensures
            r@ == self.dump_spec(),
    {
        let mut out: Vec<u8> = Vec::new();
        proof {
            reveal_strlit("-GREP-E-");
            reveal_strlit(", pattern is\"");
            reveal_strlit("-GREP-E-Stopped at byte ");
            reveal_strlit(", '");
            reveal_strlit("?GREP-E-Bad pattern");
            reveal_strlit("Illegal occurrance op.");
            reveal_strlit("Unknown : type");
            reveal_strlit("No : type");
            reveal_strlit("Unterminated class");
            reveal_strlit("Class terminates badly");
            reveal_strlit("Class too large");
            reveal_strlit("Empty class");
            reveal_strlit("Pattern too complex");
        }
        if matches!(self.kind, PatternErrorKind::ComplexPattern) {
            push_ascii(&mut out, self.kind.message());
            out.push('\n' as u8);
        } else {
            push_ascii(&mut out, "-GREP-E-");
            push_ascii(&mut out, self.kind.message());
            push_ascii(&mut out, ", pattern is\"");
            push_bytes(&mut out, self.source.as_slice());
            out.push('"' as u8);
            out.push('\n' as u8);
            push_ascii(&mut out, "-GREP-E-Stopped at byte ");
            push_decimal(&mut out, self.offset);
            push_ascii(&mut out, ", '");
            out.push(self.source[self.offset - 1]);
            out.push('\'' as u8);
            out.push('\n' as u8);
            push_ascii(&mut out, "?GREP-E-Bad pattern");
            out.push('\n' as u8);
        }
        out
    }
}

impl From<UsageError> for CliError {
    /// Wraps a usage error.
    fn from(err: UsageError) -> (r: CliError) {
        CliError::Usage(err)
    }
}

impl vstd::std_specs::convert::FromSpecImpl<UsageError> for CliError {
    open spec fn obeys_from_spec() -> bool {
        true
    }

    open spec fn from_spec(err: UsageError) -> Self {
        CliError::Usage(err)
    }
}

impl From<PatternError> for CliError {
    /// Wraps a pattern error.
    fn from(err: PatternError) -> (r: CliError) {
        CliError::Pattern(err)
    }
}

impl vstd::std_specs::convert::FromSpecImpl<PatternError> for CliError {
    open spec fn obeys_from_spec() -> bool {
        true
    }

    open spec fn from_spec(err: PatternError) -> Self {
        CliError::Pattern(err)
    }
}

} // verus!
