//! Behavior of the compiler and matcher on ordinary patterns: exact
//! bytecode layouts, determinism, the capacity limit, quantifier
//! greediness, anchors, case folding, every compile error, and every match
//! error.

use decus_grep::grep::ANY;
use decus_grep::grep::BOL;
use decus_grep::grep::CHAR;
use decus_grep::grep::CLASS;
use decus_grep::grep::DIGIT;
use decus_grep::grep::ENDPAT;
use decus_grep::grep::EOL;
use decus_grep::grep::MINUS;
use decus_grep::grep::PLUS;
use decus_grep::grep::RANGE;
use decus_grep::grep::STAR;
use decus_grep::MatchError;
use decus_grep::OverrunBuffer;
use decus_grep::Pattern;
use decus_grep::PatternErrorKind;
use decus_grep::UsageError;

fn compile(pattern: &[u8]) -> Pattern {
    Pattern::compile(pattern.to_vec(), Pattern::DEFAULT_LIMIT).unwrap()
}

fn kind_of(pattern: &[u8], limit: usize) -> (PatternErrorKind, usize) {
    let e = Pattern::compile(pattern.to_vec(), limit).unwrap_err();
    (e.kind, e.offset)
}

#[test]
fn compile_is_deterministic() {
    let a = Pattern::compile(b"^fo*[a-z]$".to_vec(), Pattern::DEFAULT_LIMIT).unwrap();
    let b = Pattern::compile(b"^fo*[a-z]$".to_vec(), Pattern::DEFAULT_LIMIT).unwrap();
    assert_eq!(a.as_bytes(), b.as_bytes());
    assert_eq!(a, b);
}

#[test]
fn compile_exact_bytecode() {
    assert_eq!(compile(b"ab").as_bytes(), &[CHAR, b'a', CHAR, b'b', ENDPAT, 0]);
    // Upper case folds to lower case.
    assert_eq!(compile(b"AbC").as_bytes(), &[CHAR, b'a', CHAR, b'b', CHAR, b'c', ENDPAT, 0]);
    // Anchors and the wildcard.
    assert_eq!(compile(b"^.$").as_bytes(), &[BOL, ANY, EOL, ENDPAT, 0]);
    // A backslash escapes the next byte; a trailing one stands for itself.
    assert_eq!(compile(b"\\$").as_bytes(), &[CHAR, b'$', ENDPAT, 0]);
    assert_eq!(compile(b"\\").as_bytes(), &[CHAR, b'\\', ENDPAT, 0]);
    // Colon shorthands.
    assert_eq!(compile(b":d:N").as_bytes(), &[DIGIT, decus_grep::grep::NALPHA, ENDPAT, 0]);
    // Repetitions wrap the previous atom.
    assert_eq!(compile(b"fo*").as_bytes(), &[
        CHAR, b'f', STAR, CHAR, b'o', ENDPAT, ENDPAT, 0,
    ]);
    assert_eq!(compile(b"a-").as_bytes(), &[MINUS, CHAR, b'a', ENDPAT, ENDPAT, 0]);
    // A class with a range: the length byte counts itself.
    assert_eq!(compile(b"[a-c]").as_bytes(), &[CLASS, 4, RANGE, b'a', b'c', ENDPAT, 0]);
    assert_eq!(compile(b"[xy]").as_bytes(), &[CLASS, 3, b'x', b'y', ENDPAT, 0]);
}

#[test]
fn range_followed_by_dash_misparses() {
    // The second `-` pops the high bound of the range before it, a
    // preserved historical defect.
    assert_eq!(compile(b"[a-b-d]").as_bytes(), &[
        CLASS, 6, RANGE, b'a', RANGE, b'b', b'd', ENDPAT, 0,
    ]);
    // A leading or trailing `-` is an ordinary class entry.
    assert_eq!(compile(b"[-a-]").as_bytes(), &[CLASS, 4, b'-', b'a', b'-', ENDPAT, 0]);
}

#[test]
fn double_star_nests() {
    // After one repetition the buffer ends with `ENDPAT`, which the
    // byte-based legality check does not refuse, so the second `*` wraps
    // the whole first repetition.
    assert_eq!(compile(b"a**").as_bytes(), &[
        STAR, STAR, CHAR, b'a', ENDPAT, ENDPAT, ENDPAT, 0,
    ]);
    assert_eq!(compile(b"a**").is_match(b"aa"), Ok(true));
    // A repetition can match zero occurrences, so any non-empty line
    // matches; only a blank line does not.
    assert_eq!(compile(b"a**").is_match(b"b"), Ok(true));
    assert_eq!(compile(b"a**").is_match(b""), Ok(false));
}

#[test]
fn capacity_limit_is_enforced() {
    // `abcde` needs 12 bytecode bytes.
    assert_eq!(compile(b"abcde").as_bytes().len(), 12);
    assert_eq!(Pattern::compile(b"abcde".to_vec(), 0).unwrap().as_bytes().len(), 12);
    assert_eq!(kind_of(b"abcde", 11).0, PatternErrorKind::ComplexPattern);
    assert_eq!(kind_of(b"abcde", 5).0, PatternErrorKind::ComplexPattern);
    assert!(Pattern::compile(b"abcde".to_vec(), 12).is_ok());
}

#[test]
fn quantifier_greediness() {
    let star = compile(b"fo*");
    assert_eq!(star.is_match(b"f"), Ok(true));
    assert_eq!(star.is_match(b"fo"), Ok(true));
    assert_eq!(star.is_match(b"foo"), Ok(true));
    assert_eq!(star.is_match(b"g"), Ok(false));
    let plus = compile(b"fo+");
    assert_eq!(plus.is_match(b"f"), Ok(false));
    assert_eq!(plus.is_match(b"fo"), Ok(true));
    assert_eq!(plus.is_match(b"foo"), Ok(true));
    // The optional operator takes zero or one occurrence.
    let opt = compile(b"fo-");
    assert_eq!(opt.is_match(b"f"), Ok(true));
    assert_eq!(opt.is_match(b"fo"), Ok(true));
    assert_eq!(opt.is_match(b"g"), Ok(false));
    // It adopts its sub-match without backtracking, so a following `o`
    // no longer finds one in `"fo"`.
    let opt2 = compile(b"fo-o");
    assert_eq!(opt2.is_match(b"foo"), Ok(true));
    assert_eq!(opt2.is_match(b"fo"), Ok(false));
    // Greedy with backtracking: `o*o` must give one `o` back.
    assert_eq!(compile(b"o*o").is_match(b"ooo"), Ok(true));
    assert_eq!(compile(b"o*o").is_match(b"f"), Ok(false));
}

#[test]
fn anchors() {
    let bol = compile(b"^x");
    assert_eq!(bol.is_match(b"xyz"), Ok(true));
    assert_eq!(bol.is_match(b"yxz"), Ok(false));
    assert_eq!(bol.is_match(b""), Ok(false));
    let eol = compile(b"x$");
    assert_eq!(eol.is_match(b"zx"), Ok(true));
    assert_eq!(eol.is_match(b"x"), Ok(true));
    assert_eq!(eol.is_match(b"xz"), Ok(false));
    assert_eq!(eol.is_match(b""), Ok(false));
}

#[test]
fn matching_folds_case() {
    let p = compile(b"GrEp");
    assert_eq!(p.is_match(b"grep"), Ok(true));
    assert_eq!(p.is_match(b"GREP"), Ok(true));
    assert_eq!(p.is_match(b"say Grep!"), Ok(true));
    assert_eq!(p.is_match(b"grip"), Ok(false));
    let cls = compile(b"[A-Z]");
    assert_eq!(cls.is_match(b"q"), Ok(true));
    assert_eq!(cls.is_match(b"Q"), Ok(true));
    assert_eq!(cls.is_match(b"7"), Ok(false));
}

#[test]
fn shorthand_classes() {
    let p = compile(b":a:d");
    assert_eq!(p.is_match(b"x1"), Ok(true));
    assert_eq!(p.is_match(b"11"), Ok(false));
    let n = compile(b":n");
    assert_eq!(n.is_match(b"-%7-"), Ok(true));
    assert_eq!(n.is_match(b"-%-"), Ok(false));
    // `: ` accepts bytes up to the space character, the line's own NUL
    // terminator excluded.
    let sp = compile(b"a: ");
    assert_eq!(sp.is_match(b"a b"), Ok(true));
    assert_eq!(sp.is_match(b"a\tb"), Ok(true));
    assert_eq!(sp.is_match(b"ab"), Ok(false));
    assert_eq!(sp.is_match(b"a"), Ok(false));
}

#[test]
fn negated_class_matches_complement() {
    let p = compile(b"[^xyz]");
    assert_eq!(p.is_match(b"abc"), Ok(true));
    assert_eq!(p.is_match(b"xzy"), Ok(false));
    assert_eq!(p.is_match(b""), Ok(false));
}

#[test]
fn reversed_range_never_matches() {
    let p = compile(b"[z-a]");
    assert_eq!(p.is_match(b"m"), Ok(false));
    assert_eq!(p.is_match(b"z"), Ok(false));
}

#[test]
fn match_offsets() {
    let p = compile(b"bc");
    assert_eq!(p.is_match_anchored(b"abc", 0), Ok(false));
    assert_eq!(p.is_match_anchored(b"abc", 1), Ok(true));
    assert_eq!(p.is_match_at(b"abc", 2), Ok(false));
    assert_eq!(p.is_match_at(b"abc", 1), Ok(true));
    // The `^` anchor only matches at offset 0, not at a later start.
    let bol = compile(b"^b");
    assert_eq!(bol.is_match_anchored(b"ab", 1), Ok(false));
    assert_eq!(bol.is_match_at(b"ab", 1), Ok(false));
}

#[test]
fn compile_errors() {
    assert_eq!(kind_of(b"*", Pattern::DEFAULT_LIMIT), (PatternErrorKind::IllegalOccurrence, 1));
    assert_eq!(kind_of(b"^*", Pattern::DEFAULT_LIMIT), (PatternErrorKind::IllegalOccurrence, 2));
    assert_eq!(kind_of(b"a$+", Pattern::DEFAULT_LIMIT), (PatternErrorKind::IllegalOccurrence, 3));
    // The legality check reads the last byte, so a literal whose operand
    // byte is a repetition opcode value also trips it.
    assert_eq!(kind_of(b"\\\x02*", Pattern::DEFAULT_LIMIT), (PatternErrorKind::IllegalOccurrence, 3));
    assert_eq!(kind_of(b":q", Pattern::DEFAULT_LIMIT), (PatternErrorKind::UnknownColonType, 2));
    assert_eq!(kind_of(b"a:", Pattern::DEFAULT_LIMIT), (PatternErrorKind::NoColonType, 2));
    assert_eq!(kind_of(b"[ab", Pattern::DEFAULT_LIMIT), (PatternErrorKind::UnterminatedClass, 3));
    assert_eq!(kind_of(b"[a\\", Pattern::DEFAULT_LIMIT), (PatternErrorKind::BackslashUnterminatedClass, 3));
    let mut big = b"[".to_vec();
    big.extend(std::iter::repeat(b'a').take(260));
    big.push(b']');
    let e = Pattern::compile(big, 0).unwrap_err();
    assert_eq!(e.kind, PatternErrorKind::LargeClass);
    assert_eq!(e.offset, 262);
}

#[test]
fn class_escape_keeps_bracket() {
    // An escaped `]` is an ordinary class entry and does not end the class.
    let p = compile(b"[\\]]");
    assert_eq!(p.as_bytes(), &[CLASS, 2, b']', ENDPAT, 0]);
    assert_eq!(p.is_match(b"]"), Ok(true));
    assert_eq!(p.is_match(b"x"), Ok(false));
}

#[test]
fn class_size_boundary() {
    // The stored length byte counts itself, so 254 entries give a length
    // of 255, the largest that fits; one more entry overflows it.
    let mut ok = b"[".to_vec();
    ok.extend(std::iter::repeat(b'a').take(254));
    ok.push(b']');
    assert!(Pattern::compile(ok, 0).is_ok());
    let mut big = b"[".to_vec();
    big.extend(std::iter::repeat(b'a').take(255));
    big.push(b']');
    assert_eq!(Pattern::compile(big, 0).unwrap_err().kind, PatternErrorKind::LargeClass);
}

#[test]
fn match_errors() {
    // A literal NUL in the pattern can match the line's terminator, and a
    // second one then reads past it.
    let p = compile(b"a\x00\x00");
    assert_eq!(p.is_match(b"a"), Err(MatchError::LineOverrun));
    // Bad opcodes and pattern overruns come from the malformed-class
    // quirks.
    assert_eq!(compile(b"[^]x").is_match(b"q"), Err(MatchError::BadOpcode { op: b'x' }));
    assert_eq!(compile(b"[^\x0e]").is_match(b"q"), Err(MatchError::PatternOverrun));
}

#[test]
fn pattern_accessors() {
    let p = compile(b"Ab");
    assert_eq!(p.source(), b"Ab");
    assert_eq!(p.as_bytes(), &[CHAR, b'a', CHAR, b'b', ENDPAT, 0]);
    assert_eq!(p.clone().into_bytes(), vec![CHAR, b'a', CHAR, b'b', ENDPAT, 0]);
}

#[test]
fn debug_rendering() {
    // Control bytes are octal behind a backslash; printable bytes are raw;
    // a space follows each byte and a newline closes the line.
    assert_eq!(compile(b"a").debug(), b"\\1 a \\17 \\0 \n".to_vec());
    assert_eq!(compile(b"[a-c]").debug(), b"\\5 \\4 \\16 a c \\17 \\0 \n".to_vec());
}

#[test]
fn error_dump_rendering() {
    let e = Pattern::compile(b"*".to_vec(), Pattern::DEFAULT_LIMIT).unwrap_err();
    assert_eq!(
        e.dump(),
        b"-GREP-E-Illegal occurrance op., pattern is\"*\"\n-GREP-E-Stopped at byte 1, '*'\n?GREP-E-Bad pattern\n".to_vec(),
    );
    let e = Pattern::compile(b"abcde".to_vec(), 3).unwrap_err();
    assert_eq!(e.dump(), b"Pattern too complex\n".to_vec());
    let e = Pattern::compile(b"ab:x".to_vec(), Pattern::DEFAULT_LIMIT).unwrap_err();
    assert_eq!(
        e.dump(),
        b"-GREP-E-Unknown : type, pattern is\"ab:x\"\n-GREP-E-Stopped at byte 4, 'x'\n?GREP-E-Bad pattern\n".to_vec(),
    );
}

#[test]
fn byte_escape_rendering() {
    // Named escapes, raw printables, and octal for the rest; the octal is
    // zero-padded to three digits only when a digit follows it.
    assert_eq!(decus_grep::errors::debug_bytes(b"a\"b\\c"), b"a\\\"b\\\\c".to_vec());
    assert_eq!(decus_grep::errors::debug_bytes(b"\x07\x08\x0c\n\r\t\x0b"), b"\\a\\b\\f\\n\\r\\t\\v".to_vec());
    assert_eq!(decus_grep::errors::debug_bytes(b"\x01x"), b"\\1x".to_vec());
    assert_eq!(decus_grep::errors::debug_bytes(b"\x014"), b"\\0014".to_vec());
    assert_eq!(decus_grep::errors::debug_bytes(b"\x9b9"), b"\\2339".to_vec());
}

#[test]
fn usage_error_rendering() {
    assert_eq!(UsageError::NoArguments.message(), "No arguments");
    assert_eq!(UsageError::UnknownFlag { flag: b'z' }.message(), "Unknown flag");
    assert_eq!(UsageError::NoPattern.message(), "No pattern");
    assert_eq!(
        UsageError::NoPattern.dump(),
        b"?GREP-E-No pattern\nUsage: grep [-cfnv] pattern [file ...].  grep ? for help\n".to_vec(),
    );
}

#[test]
fn overrun_buffer() {
    let b = OverrunBuffer::with_line(b"abc".to_vec());
    assert_eq!(b.into_vec(), b"abc\x00".to_vec());
    let b = OverrunBuffer::with_overrun(b"ab\x00xyz".to_vec(), 3);
    assert_eq!(b.into_vec(), b"ab\x00xyz".to_vec());
}

#[test]
fn round_trip_semantics() {
    // A compiled pattern drives the matcher exactly as the opcode table
    // says: a concatenation of a literal, a class, a shorthand and an
    // optional atom, scanned at every start offset.
    let p = compile(b"x[0-9]:a!-");
    assert_eq!(p.as_bytes(), &[
        CHAR, b'x', CLASS, 4, RANGE, b'0', b'9', decus_grep::grep::ALPHA, MINUS, CHAR, b'!',
        ENDPAT, ENDPAT, 0,
    ]);
    assert_eq!(p.is_match(b"zzx4q!zz"), Ok(true));
    assert_eq!(p.is_match(b"zzx4qzz"), Ok(true));
    assert_eq!(p.is_match(b"x4!"), Ok(false));
    assert_eq!(p.is_match(b"x44q"), Ok(false));
    assert_eq!(p.is_match(b"X9Z"), Ok(true));
}
