//! Pattern compilation: a single left-to-right pass turns pattern text into
//! bytecode, with repetition operators wrapped around the previous atom and
//! an optional cap on the compiled size.
//!
//! The spec functions `compile_spec`, `cclass_spec` and `cclass_loop` are the
//! mathematical model of the compiler; `Pattern::compile` is proved to return
//! exactly what the model says, so compilation is a function of the source
//! bytes and the limit alone.

use vstd::pervasive::VecAdditionalExecFns;
use vstd::prelude::*;

use crate::buffer::LineCursor;
use crate::buffer::PatternCursor;
use crate::errors::oct_bytes;
use crate::errors::push_octal;
use crate::errors::MatchError;
use crate::errors::PatternError;
use crate::errors::PatternErrorKind;
use crate::matcher::anchored_match_spec;
use crate::matcher::pmatch;
use crate::matcher::scan_match_spec;

verus! {

/// Literal character (case-insensitive), followed by one operand byte.
pub const CHAR: u8 = 1;
/// `^`: beginning of line.
pub const BOL: u8 = 2;
/// `$`: end of line.
pub const EOL: u8 = 3;
/// `.`: any character but the terminator.
pub const ANY: u8 = 4;
/// `[`: character class start, followed by a length byte and entries.
pub const CLASS: u8 = 5;
/// `[^`: negated character class start.
pub const NCLASS: u8 = 6;
/// `*`: zero or more repetitions of the wrapped sub-pattern.
pub const STAR: u8 = 7;
/// `+`: one or more repetitions of the wrapped sub-pattern.
pub const PLUS: u8 = 8;
/// `-`: zero or one repetitions of the wrapped sub-pattern.
pub const MINUS: u8 = 9;
/// `:a` or `:A`: any ASCII letter.
pub const ALPHA: u8 = 10;
/// `:d` or `:D`: any ASCII digit.
pub const DIGIT: u8 = 11;
/// `:n` or `:N`: any ASCII letter or digit.
pub const NALPHA: u8 = 12;
/// `: `: any byte no greater than the space character, except NUL.
pub const PUNCT: u8 = 13;
/// An inclusive two-byte range inside a class.
pub const RANGE: u8 = 14;
/// End of the pattern or of a repetition sub-pattern.
pub const ENDPAT: u8 = 15;


/// ASCII upper-case letters fold to lower case; every other byte is itself.
pub open spec fn fold_byte(c: u8) -> u8 {
    if ('A' as u8) <= c && c <= ('Z' as u8) {
        (c + 32) as u8
    } else {
        c
    }
}

/// Case-folds one byte, as `u8::to_ascii_lowercase` does.
pub fn fold(c: u8) -> (r: u8)
    ensures
        r == fold_byte(c),
{
    if c >= ('A' as u8) && c <= ('Z' as u8) {
        c + 32
    } else {
        c
    }
}

/// One rendered bytecode byte: bytes below the space character as `\`
/// followed by their octal digits, every other byte as itself.
pub open spec fn debug_byte(c: u8) -> Seq<u8> {
    if c < (' ' as u8) {
        seq![('\\' as u8)] + oct_bytes(c as int)
    } else {
        seq![c]
    }
}

/// The rendering of the first `i` bytecode bytes, one space after each.
pub open spec fn debug_prefix(b: Seq<u8>, i: int) -> Seq<u8>
    decreases i,
{
    if i <= 0 {
        Seq::empty()
    } else {
        debug_prefix(b, i - 1) + debug_byte(b[i - 1]) + seq![(' ' as u8)]
    }
}

/// The full debug rendering of bytecode: each byte then a space, closed by
/// a newline.
pub open spec fn debug_spec(b: Seq<u8>) -> Seq<u8> {
    debug_prefix(b, b.len() as int) + seq![('\n' as u8)]
}

/// What compiling a whole pattern yields: the finished bytecode, or the
/// failure kind together with the source offset where compilation stopped.
pub enum CompileOutcome {
    Done(Seq<u8>),
    Fail(PatternErrorKind, int),
}

/// What compiling a character class yields: the buffer with the finished
/// class appended and the source offset just past the closing `]`, or a
/// failure kind with its offset.
pub enum ClassOutcome {
    Done(Seq<u8>, int),
    Fail(PatternErrorKind, int),
}

/// Whether `extra` more bytes fit under the size limit (0 means unbounded).
/// Appending one byte to a buffer of length `n` succeeds exactly when
/// `can_store(buf, limit, 1)`, that is `n < limit`, as the historical fixed
/// buffer did.
pub open spec fn can_store(buf: Seq<u8>, limit: int, extra: int) -> bool {
    limit == 0 || buf.len() + extra <= limit
}

/// A repetition operator may not follow nothing, and may not follow a buffer
/// whose last byte is one of these opcode values. The check looks at the raw
/// last byte, so a literal whose operand byte happens to equal one of these
/// values also trips it; that historical quirk is preserved.
pub open spec fn rep_illegal_after(b: u8) -> bool {
    b == BOL || b == EOL || b == STAR || b == PLUS || b == MINUS
}

/// The buffer after wrapping the atom that starts at `pat_start` in a
/// repetition: the repetition opcode is written at the atom's old start, the
/// atom moves one slot right, and an `ENDPAT` closes the sub-pattern.
pub open spec fn wrap_rep(buf: Seq<u8>, pat_start: int, rep: u8) -> Seq<u8> {
    buf.subrange(0, pat_start) + seq![rep] + buf.subrange(pat_start, buf.len() as int) + seq![
        ENDPAT,
    ]
}

/// One step of class compilation, from just past the class opcode and the
/// placeholder length byte: consumes source bytes until an unescaped `]`,
/// then patches the length byte (which counts itself) in place.
pub open spec fn cclass_loop(
    src: Seq<u8>,
    off: int,
    buf: Seq<u8>,
    class_start: int,
    limit: int,
) -> ClassOutcome
    decreases src.len() - off, 0int,
{
    if off < 0 || off >= src.len() {
        ClassOutcome::Fail(PatternErrorKind::UnterminatedClass, off)
    } else {
        let c = src[off];
        let o1 = off + 1;
        if c == (']' as u8) {
            let n = buf.len() - class_start;
            if n >= 256 {
                ClassOutcome::Fail(PatternErrorKind::LargeClass, o1)
            } else if n == 0 {
                ClassOutcome::Fail(PatternErrorKind::EmptyClass, o1)
            } else {
                ClassOutcome::Done(buf.update(class_start, n as u8), o1)
            }
        } else if c == ('\\' as u8) {
            if o1 >= src.len() {
                ClassOutcome::Fail(PatternErrorKind::BackslashUnterminatedClass, o1)
            } else if !can_store(buf, limit, 1) {
                ClassOutcome::Fail(PatternErrorKind::ComplexPattern, o1 + 1)
            } else {
                cclass_loop(src, o1 + 1, buf.push(fold_byte(src[o1])), class_start, limit)
            }
        } else if c == ('-' as u8) && buf.len() - class_start > 1 && o1 < src.len() && src[o1]
            != (']' as u8) {
            // `-` after at least one entry and not right before `]`: a range.
            // The low bound is popped off the buffer, so a range that follows
            // another range misparses; that historical quirk is preserved.
            let low = buf.last();
            let b1 = buf.drop_last();
            if !can_store(b1, limit, 1) {
                ClassOutcome::Fail(PatternErrorKind::ComplexPattern, o1)
            } else if !can_store(b1, limit, 2) {
                ClassOutcome::Fail(PatternErrorKind::ComplexPattern, o1)
            } else if !can_store(b1, limit, 3) {
                ClassOutcome::Fail(PatternErrorKind::ComplexPattern, o1 + 1)
            } else {
                cclass_loop(
                    src,
                    o1 + 1,
                    b1 + seq![RANGE, low, fold_byte(src[o1])],
                    class_start,
                    limit,
                )
            }
        } else {
            if !can_store(buf, limit, 1) {
                ClassOutcome::Fail(PatternErrorKind::ComplexPattern, o1)
            } else {
                cclass_loop(src, o1, buf.push(fold_byte(c)), class_start, limit)
            }
        }
    }
}

/// Class compilation from just past the `[`: an optional leading `^` picks
/// the negated opcode, then the opcode and a placeholder length byte are
/// appended and the entry loop runs.
pub open spec fn cclass_spec(src: Seq<u8>, off: int, buf: Seq<u8>, limit: int) -> ClassOutcome
    decreases src.len() - off + 1, 1int,
{
    let negate = 0 <= off < src.len() && src[off] == ('^' as u8);
    let cls: u8 = if negate {
        NCLASS
    } else {
        CLASS
    };
    let o1 = if negate {
        off + 1
    } else {
        off
    };
    if !can_store(buf, limit, 1) {
        ClassOutcome::Fail(PatternErrorKind::ComplexPattern, o1)
    } else if !can_store(buf, limit, 2) {
        ClassOutcome::Fail(PatternErrorKind::ComplexPattern, o1)
    } else {
        cclass_loop(src, o1, buf + seq![cls, 0u8], buf.len() as int + 1, limit)
    }
}

/// A successful class compilation consumes at least the closing `]` and
/// never runs past the end of the source.
pub proof fn lemma_cclass_loop_advances(
    src: Seq<u8>,
    off: int,
    buf: Seq<u8>,
    class_start: int,
    limit: int,
)
    requires
        0 <= class_start <= buf.len(),
    ensures
        cclass_loop(src, off, buf, class_start, limit) matches ClassOutcome::Done(b2, o2)
            ==> off < o2 <= src.len() && b2.len() >= buf.len(),
    decreases src.len() - off,
{
    if 0 <= off < src.len() {
        let c = src[off];
        let o1 = off + 1;
        if c == (']' as u8) {
        } else if c == ('\\' as u8) {
            if o1 < src.len() && can_store(buf, limit, 1) {
                lemma_cclass_loop_advances(
                    src,
                    o1 + 1,
                    buf.push(fold_byte(src[o1])),
                    class_start,
                    limit,
                );
            }
        } else if c == ('-' as u8) && buf.len() - class_start > 1 && o1 < src.len() && src[o1]
            != (']' as u8) {
            let low = buf.last();
            let b1 = buf.drop_last();
            if can_store(b1, limit, 3) {
                lemma_cclass_loop_advances(
                    src,
                    o1 + 1,
                    b1 + seq![RANGE, low, fold_byte(src[o1])],
                    class_start,
                    limit,
                );
            }
        } else {
            if can_store(buf, limit, 1) {
                lemma_cclass_loop_advances(src, o1, buf.push(fold_byte(c)), class_start, limit);
            }
        }
    }
}

/// One step of top-level compilation: each source byte either extends the
/// bytecode with an atom, wraps the previous atom in a repetition, or fails;
/// an exhausted source appends the final `ENDPAT` and the trailing zero.
pub open spec fn compile_loop(
    src: Seq<u8>,
    off: int,
    buf: Seq<u8>,
    pat_start: int,
    limit: int,
) -> CompileOutcome
    decreases src.len() - off + 1, 2int,
{
    if off < 0 || off >= src.len() {
        if !can_store(buf, limit, 1) {
            CompileOutcome::Fail(PatternErrorKind::ComplexPattern, off)
        } else if !can_store(buf, limit, 2) {
            CompileOutcome::Fail(PatternErrorKind::ComplexPattern, off)
        } else {
            CompileOutcome::Done(buf + seq![ENDPAT, 0u8])
        }
    } else {
        let c = src[off];
        let o1 = off + 1;
        if c == ('*' as u8) || c == ('+' as u8) || c == ('-' as u8) {
            if buf.len() == 0 || rep_illegal_after(buf.last()) {
                CompileOutcome::Fail(PatternErrorKind::IllegalOccurrence, o1)
            } else if !can_store(buf, limit, 1) {
                CompileOutcome::Fail(PatternErrorKind::ComplexPattern, o1)
            } else if !can_store(buf, limit, 2) {
                CompileOutcome::Fail(PatternErrorKind::ComplexPattern, o1)
            } else {
                let rep: u8 = if c == ('*' as u8) {
                    STAR
                } else if c == ('-' as u8) {
                    MINUS
                } else {
                    PLUS
                };
                compile_loop(src, o1, wrap_rep(buf, pat_start, rep), pat_start, limit)
            }
        } else if c == ('^' as u8) {
            if !can_store(buf, limit, 1) {
                CompileOutcome::Fail(PatternErrorKind::ComplexPattern, o1)
            } else {
                compile_loop(src, o1, buf.push(BOL), buf.len() as int, limit)
            }
        } else if c == ('$' as u8) {
            if !can_store(buf, limit, 1) {
                CompileOutcome::Fail(PatternErrorKind::ComplexPattern, o1)
            } else {
                compile_loop(src, o1, buf.push(EOL), buf.len() as int, limit)
            }
        } else if c == ('.' as u8) {
            if !can_store(buf, limit, 1) {
                CompileOutcome::Fail(PatternErrorKind::ComplexPattern, o1)
            } else {
                compile_loop(src, o1, buf.push(ANY), buf.len() as int, limit)
            }
        } else if c == ('[' as u8) {
            match cclass_spec(src, o1, buf, limit) {
                ClassOutcome::Done(b2, o2) => {
                    proof {
                        lemma_cclass_spec_advances(src, o1, buf, limit);
                    }
                    compile_loop(src, o2, b2, buf.len() as int, limit)
                },
                ClassOutcome::Fail(k, e) => CompileOutcome::Fail(k, e),
            }
        } else if c == (':' as u8) {
            if o1 >= src.len() {
                CompileOutcome::Fail(PatternErrorKind::NoColonType, o1)
            } else {
                let c2 = src[o1];
                let o2 = o1 + 1;
                let op: u8 = if c2 == ('a' as u8) || c2 == ('A' as u8) {
                    ALPHA
                } else if c2 == ('d' as u8) || c2 == ('D' as u8) {
                    DIGIT
                } else if c2 == ('n' as u8) || c2 == ('N' as u8) {
                    NALPHA
                } else if c2 == (' ' as u8) {
                    PUNCT
                } else {
                    0
                };
                if op == 0 {
                    CompileOutcome::Fail(PatternErrorKind::UnknownColonType, o2)
                } else if !can_store(buf, limit, 1) {
                    CompileOutcome::Fail(PatternErrorKind::ComplexPattern, o2)
                } else {
                    compile_loop(src, o2, buf.push(op), buf.len() as int, limit)
                }
            }
        } else {
            // A literal, possibly escaped; a trailing lone `\` is itself the
            // literal.
            let ch: u8 = if c == ('\\' as u8) && o1 < src.len() {
                src[o1]
            } else {
                c
            };
            let o2 = if c == ('\\' as u8) && o1 < src.len() {
                o1 + 1
            } else {
                o1
            };
            if !can_store(buf, limit, 1) {
                CompileOutcome::Fail(PatternErrorKind::ComplexPattern, o2)
            } else if !can_store(buf, limit, 2) {
                CompileOutcome::Fail(PatternErrorKind::ComplexPattern, o2)
            } else {
                compile_loop(src, o2, buf + seq![CHAR, fold_byte(ch)], buf.len() as int, limit)
            }
        }
    }
}

/// A successful class compilation, `^` handling included, moves the source
/// offset strictly forward and never past the end.
pub proof fn lemma_cclass_spec_advances(src: Seq<u8>, off: int, buf: Seq<u8>, limit: int)
    ensures
        cclass_spec(src, off, buf, limit) matches ClassOutcome::Done(b2, o2) ==> off < o2
            <= src.len() && b2.len() >= buf.len() + 2,
{
    let negate = 0 <= off < src.len() && src[off] == ('^' as u8);
    let o1 = if negate {
        off + 1
    } else {
        off
    };
    let cls: u8 = if negate {
        NCLASS
    } else {
        CLASS
    };
    lemma_cclass_loop_advances(src, o1, buf + seq![cls, 0u8], buf.len() as int + 1, limit);
}

/// What compiling `src` under `limit` yields, as a function of the inputs
/// alone: compilation is deterministic by construction.
pub open spec fn compile_spec(src: Seq<u8>, limit: int) -> CompileOutcome {
    compile_loop(src, 0, Seq::empty(), 0, limit)
}

/// Transient state of one compilation: the source being read, the read
/// offset, the bytecode built so far, and the size limit (0 for unbounded).
pub(crate) struct Compiler<'s> {
    pub(crate) source: &'s [u8],
    pub(crate) offset: usize,
    pub(crate) pbuf: Vec<u8>,
    pub(crate) pmax: usize,
}

impl<'s> Compiler<'s> {
    pub(crate) fn new(source: &'s [u8], limit: usize) -> (r: Self)
        ensures
            r.source@ == source@,
            r.offset == 0,
            r.pbuf@ == Seq::<u8>::empty(),
            r.pmax == limit,
    {
        Compiler { source, offset: 0, pbuf: Vec::new(), pmax: limit }
    }

    /// Appends one byte to the bytecode if the limit allows it.
    pub(crate) fn store(&mut self, op: u8) -> (r: Result<(), PatternErrorKind>)
        ensures
            final(self).source@ == old(self).source@,
            final(self).offset == old(self).offset,
            final(self).pmax == old(self).pmax,
            if can_store(old(self).pbuf@, old(self).pmax as int, 1) {
                r == Ok::<(), PatternErrorKind>(()) && final(self).pbuf@ == old(self).pbuf@.push(
                    op,
                )
            } else {
                r == Err::<(), PatternErrorKind>(PatternErrorKind::ComplexPattern)
                    && final(self).pbuf@ == old(self).pbuf@
            },
    {
        if self.pbuf.len() >= self.pmax && self.pmax != 0 {
            return Err(PatternErrorKind::ComplexPattern);
        }
        self.pbuf.push(op);
        Ok(())
    }

    /// Reads the next source byte, if any, and moves past it.
    pub(crate) fn bump(&mut self) -> (r: Option<u8>)
        ensures
            final(self).source@ == old(self).source@,
            final(self).pbuf@ == old(self).pbuf@,
            final(self).pmax == old(self).pmax,
            if old(self).offset < old(self).source@.len() {
                r == Some(old(self).source@[old(self).offset as int])
                    && final(self).offset == old(self).offset + 1
            } else {
                r == None::<u8> && final(self).offset == old(self).offset
            },
    {
        if self.offset < self.source.len() {
            let c = self.source[self.offset];
            self.offset = self.offset + 1;
            Some(c)
        } else {
            None
        }
    }

    /// Reads the next source byte, if any, without moving.
    pub(crate) fn peek(&self) -> (r: Option<u8>)
        ensures
            r == if self.offset < self.source@.len() {
                Some(self.source@[self.offset as int])
            } else {
                None::<u8>
            },
    {
        if self.offset < self.source.len() {
            Some(self.source[self.offset])
        } else {
            None
        }
    }

    /// Compiles one character class, entered just past the `[`. On success
    /// the finished class stands at the end of the bytecode and the offset
    /// is just past the closing `]`.
    #[verifier::loop_isolation(false)]
    pub(crate) fn cclass(&mut self) -> (r: Result<(), PatternErrorKind>)
        requires
            old(self).offset <= old(self).source@.len(),
        ensures
            final(self).source@ == old(self).source@,
            final(self).pmax == old(self).pmax,
            final(self).offset <= old(self).source@.len(),
            ({
                let o = cclass_spec(
                    old(self).source@,
                    old(self).offset as int,
                    old(self).pbuf@,
                    old(self).pmax as int,
                );
                match r {
                    Ok(()) => o matches ClassOutcome::Done(b2, o2) && final(self).pbuf@ == b2
                        && final(self).offset == o2,
                    Err(k) => o matches ClassOutcome::Fail(k2, e) && k == k2 && final(self).offset
                        == e,
                }
            }),
    {
        let ghost src = self.source@;
        let ghost lim = self.pmax as int;
        let ghost buf0 = self.pbuf@;
        let ghost target = cclass_spec(src, self.offset as int, buf0, lim);

        let negate = match self.peek() {
            Some(c) => c == ('^' as u8),
            None => false,
        };
        let cls: u8 = if negate {
            self.bump();
            NCLASS
        } else {
            CLASS
        };
        match self.store(cls) {
            Err(k) => {
                return Err(k);
            },
            Ok(()) => {},
        }
        let class_start = self.pbuf.len();
        match self.store(0u8) {
            Err(k) => {
                return Err(k);
            },
            Ok(()) => {},
        }
        proof {
            assert(self.pbuf@ =~= buf0 + seq![cls, 0u8]);
        }

        loop
            invariant
                self.offset <= src.len(),
                class_start as int == buf0.len() + 1,
                class_start < self.pbuf@.len(),
                self.source@ == src,
                self.pmax as int == lim,
                cclass_loop(src, self.offset as int, self.pbuf@, class_start as int, lim)
                    == target,
            decreases src.len() - self.offset,
        {
            match self.bump() {
                None => {
                    return Err(PatternErrorKind::UnterminatedClass);
                },
                Some(c) => {
                    if c == (']' as u8) {
                        let n = self.pbuf.len() - class_start;
                        if n >= 256 {
                            return Err(PatternErrorKind::LargeClass);
                        }
                        if n == 0 {
                            return Err(PatternErrorKind::EmptyClass);
                        }
                        self.pbuf.set(class_start, n as u8);
                        return Ok(());
                    }
                    if c == ('\\' as u8) {
                        match self.bump() {
                            None => {
                                return Err(PatternErrorKind::BackslashUnterminatedClass);
                            },
                            Some(c2) => {
                                match self.store(fold(c2)) {
                                    Err(k) => {
                                        return Err(k);
                                    },
                                    Ok(()) => {},
                                }
                            },
                        }
                    } else {
                        let more = self.pbuf.len() - class_start > 1;
                        let not_bracket = match self.peek() {
                            Some(c2) => c2 != (']' as u8),
                            None => false,
                        };
                        if c == ('-' as u8) && more && not_bracket {
                            let ghost it_buf = self.pbuf@;
                            let low = self.pbuf.pop().unwrap();
                            match self.store(RANGE) {
                                Err(k) => {
                                    return Err(k);
                                },
                                Ok(()) => {},
                            }
                            match self.store(low) {
                                Err(k) => {
                                    return Err(k);
                                },
                                Ok(()) => {},
                            }
                            let c2 = self.bump().unwrap();
                            match self.store(fold(c2)) {
                                Err(k) => {
                                    return Err(k);
                                },
                                Ok(()) => {},
                            }
                            proof {
                                assert(self.pbuf@ =~= it_buf.drop_last() + seq![
                                    RANGE,
                                    low,
                                    fold_byte(c2),
                                ]);
                            }
                        } else {
                            match self.store(fold(c)) {
                                Err(k) => {
                                    return Err(k);
                                },
                                Ok(()) => {},
                            }
                        }
                    }
                },
            }
        }
    }

    /// Runs the whole compilation pass: consumes the source and builds the
    /// bytecode, or stops at the first failure, leaving the offset where the
    /// failure model says it stopped.
    #[verifier::loop_isolation(false)]
    #[verifier::rlimit(50)]
    pub(crate) fn compile(&mut self) -> (r: Result<(), PatternErrorKind>)
        requires
            old(self).offset == 0,
            old(self).pbuf@.len() == 0,
        ensures
            final(self).source@ == old(self).source@,
            final(self).pmax == old(self).pmax,
            ({
                let o = compile_spec(old(self).source@, old(self).pmax as int);
                match r {
                    Ok(()) => o matches CompileOutcome::Done(b) && final(self).pbuf@ == b,
                    Err(k) => o matches CompileOutcome::Fail(k2, e) && k == k2
                        && final(self).offset == e,
                }
            }),
    {
        let ghost src = self.source@;
        let ghost lim = self.pmax as int;
        let ghost target = compile_spec(src, lim);
        let mut pat_start: usize = 0;

        proof {
            assert(self.pbuf@ =~= Seq::<u8>::empty());
        }

        loop
            invariant
                self.offset <= src.len(),
                pat_start as int <= self.pbuf@.len(),
                self.source@ == src,
                self.pmax as int == lim,
                compile_loop(src, self.offset as int, self.pbuf@, pat_start as int, lim)
                    == target,
            decreases src.len() - self.offset,
        {
            let ghost it_off = self.offset as int;
            let ghost it_buf = self.pbuf@;
            match self.bump() {
                None => {
                    // The source is exhausted: the final terminator and the
                    // trailing zero byte.
                    match self.store(ENDPAT) {
                        Err(k) => {
                            return Err(k);
                        },
                        Ok(()) => {},
                    }
                    match self.store(0u8) {
                        Err(k) => {
                            return Err(k);
                        },
                        Ok(()) => {},
                    }
                    proof {
                        assert(self.pbuf@ =~= it_buf + seq![ENDPAT, 0u8]);
                    }
                    return Ok(());
                },
                Some(c) => {
                    if c == ('*' as u8) || c == ('+' as u8) || c == ('-' as u8) {
                        // `*`, `+`, `-`: wrap the previous atom in a
                        // repetition.
                        let illegal = if self.pbuf.len() == 0 {
                            true
                        } else {
                            let last = self.pbuf[self.pbuf.len() - 1];
                            last == BOL || last == EOL || last == STAR || last == PLUS || last
                                == MINUS
                        };
                        if illegal {
                            return Err(PatternErrorKind::IllegalOccurrence);
                        }
                        let pat_end = self.pbuf.len();
                        match self.store(ENDPAT) {
                            Err(k) => {
                                return Err(k);
                            },
                            Ok(()) => {},
                        }
                        match self.store(ENDPAT) {
                            Err(k) => {
                                return Err(k);
                            },
                            Ok(()) => {},
                        }
                        // Shift the atom one slot to the right.
                        let mut i: usize = pat_end;
                        while i > pat_start
                            invariant
                                self.source@ == src,
                                self.pmax as int == lim,
                                self.offset as int == it_off + 1,
                                pat_start <= i <= pat_end,
                                pat_end == it_buf.len(),
                                self.pbuf@.len() == pat_end + 2,
                                forall|j: int|
                                    0 <= j <= i && j < pat_end ==> self.pbuf@[j] == it_buf[j],
                                i == pat_end ==> self.pbuf@[pat_end as int] == ENDPAT,
                                forall|j: int|
                                    i < j <= pat_end ==> self.pbuf@[j] == it_buf[j - 1],
                                self.pbuf@[pat_end + 1] == ENDPAT,
                            decreases i,
                        {
                            i = i - 1;
                            let b = self.pbuf[i];
                            self.pbuf.set(i + 1, b);
                        }
                        // Write the repetition opcode at the atom's old
                        // start.
                        let rep: u8 = if c == ('*' as u8) {
                            STAR
                        } else if c == ('-' as u8) {
                            MINUS
                        } else {
                            PLUS
                        };
                        self.pbuf.set(pat_start, rep);
                        proof {
                            assert(self.pbuf@ =~= wrap_rep(it_buf, pat_start as int, rep));
                        }
                    } else {
                        pat_start = self.pbuf.len();
                        if c == ('^' as u8) {
                            match self.store(BOL) {
                                Err(k) => {
                                    return Err(k);
                                },
                                Ok(()) => {},
                            }
                        } else if c == ('$' as u8) {
                            match self.store(EOL) {
                                Err(k) => {
                                    return Err(k);
                                },
                                Ok(()) => {},
                            }
                        } else if c == ('.' as u8) {
                            match self.store(ANY) {
                                Err(k) => {
                                    return Err(k);
                                },
                                Ok(()) => {},
                            }
                        } else if c == ('[' as u8) {
                            let ghost cls_off = self.offset as int;
                            let ghost cls_buf = self.pbuf@;
                            match self.cclass() {
                                Err(k) => {
                                    return Err(k);
                                },
                                Ok(()) => {
                                    proof {
                                        lemma_cclass_spec_advances(src, cls_off, cls_buf, lim);
                                    }
                                },
                            }
                        } else if c == (':' as u8) {
                            match self.bump() {
                                None => {
                                    return Err(PatternErrorKind::NoColonType);
                                },
                                Some(c2) => {
                                    let op: u8 = if c2 == ('a' as u8) || c2 == ('A' as u8) {
                                        ALPHA
                                    } else if c2 == ('d' as u8) || c2 == ('D' as u8) {
                                        DIGIT
                                    } else if c2 == ('n' as u8) || c2 == ('N' as u8) {
                                        NALPHA
                                    } else if c2 == (' ' as u8) {
                                        PUNCT
                                    } else {
                                        0
                                    };
                                    if op == 0 {
                                        return Err(PatternErrorKind::UnknownColonType);
                                    }
                                    match self.store(op) {
                                        Err(k) => {
                                            return Err(k);
                                        },
                                        Ok(()) => {},
                                    }
                                },
                            }
                        } else {
                            let mut ch = c;
                            if c == ('\\' as u8) {
                                match self.bump() {
                                    None => {},
                                    Some(c2) => {
                                        ch = c2;
                                    },
                                }
                            }
                            match self.store(CHAR) {
                                Err(k) => {
                                    return Err(k);
                                },
                                Ok(()) => {},
                            }
                            match self.store(fold(ch)) {
                                Err(k) => {
                                    return Err(k);
                                },
                                Ok(()) => {},
                            }
                            proof {
                                assert(self.pbuf@ =~= it_buf + seq![CHAR, fold_byte(ch)]);
                            }
                        }
                    }
                },
            }
        }
    }

    /// Gives up the compiler state: the bytecode built and the final offset.
    pub(crate) fn finish(self) -> (r: (Vec<u8>, usize))
        ensures
            r.0@ == self.pbuf@,
            r.1 == self.offset,
    {
        (self.pbuf, self.offset)
    }
}

/// A compiled pattern: the source text it came from and the bytecode the
/// matcher interprets. Created by `compile` and never changed afterwards.
#[derive(Clone, Debug, PartialEq, Eq, Hash)]
pub struct Pattern {
    source: Vec<u8>,
    pbuf: Vec<u8>,
}

/// Output options for a line-searching driver: count only, print file
/// names, number lines, select non-matching lines, and a debug level.
#[derive(Clone, Copy, Debug, PartialEq, Eq, Hash, Structural)]
pub struct Flags {
    pub cflag: bool,
    pub fflag: u32,
    pub nflag: bool,
    pub vflag: bool,
    pub debug: u32,
}

impl Pattern {
    /// The historical default cap on compiled pattern size, in bytes.
    pub const DEFAULT_LIMIT: usize = 256;

    /// The source bytes this pattern was compiled from.
    pub closed spec fn source_spec(&self) -> Seq<u8> {
        self.source@
    }

    /// The compiled bytecode.
    pub closed spec fn bytecode(&self) -> Seq<u8> {
        self.pbuf@
    }

    /// Compiles a pattern to bytecode, capping the compiled size at `limit`
    /// bytes; a `limit` of 0 means unbounded. The historical cap is
    /// `DEFAULT_LIMIT`.
    ///
    /// The result is exactly what `compile_spec` says for these inputs, so
    /// compiling the same source with the same limit always yields the same
    /// bytecode or the same error.
    pub fn compile(source: Vec<u8>, limit: usize) -> (r: Result<Pattern, PatternError>)
        ensures
            ({
                let o = compile_spec(source@, limit as int);
                match r {
                    Ok(p) => o matches CompileOutcome::Done(b) && p.bytecode() == b
                        && p.source_spec() == source@,
                    Err(e) => o matches CompileOutcome::Fail(k, eo) && e.kind == k && e.offset
                        == eo && e.source@ == source@,
                }
            }),
    {
        let mut compiler = Compiler::new(source.as_slice(), limit);
        let res = compiler.compile();
        let (pbuf, offset) = compiler.finish();
        match res {
            Ok(()) => Ok(Pattern { source, pbuf }),
            Err(kind) => Err(PatternError { kind, source, offset }),
        }
    }

    /// Searches the line against the pattern and returns whether the
    /// bytecode matches starting at any offset before the line's end; blank
    /// lines never match. A fatal interpreter error ends the search.
    pub fn is_match(&self, line: &[u8]) -> (r: Result<bool, MatchError>)
        requires
            line@.len() < usize::MAX,
        ensures
            r == scan_match_spec(line@, 0, self.bytecode()),
    {
        self.is_match_at(line, 0)
    }

    /// Searches the line starting at an offset: the match must begin at
    /// `start` or later, and before the line's end.
    #[verifier::loop_isolation(false)]
    pub fn is_match_at(&self, line: &[u8], start: usize) -> (r: Result<bool, MatchError>)
        requires
            line@.len() < usize::MAX,
        ensures
            r == scan_match_spec(line@, start as int, self.bytecode()),
    {
        let ghost target = scan_match_spec(line@, start as int, self.bytecode());
        let mut i = start;
        loop
            invariant
                start <= i,
                scan_match_spec(line@, i as int, self.bytecode()) == target,
            decreases line@.len() - i,
        {
            if i >= line.len() {
                return Ok(false);
            }
            match self.is_match_anchored(line, i) {
                Err(e) => {
                    return Err(e);
                },
                Ok(true) => {
                    return Ok(true);
                },
                Ok(false) => {},
            }
            i = i + 1;
        }
    }

    /// Searches the line anchored at an offset: the match must begin
    /// exactly at `offset`. The beginning-of-line anchor still only matches
    /// at offset 0, so this differs from slicing the line.
    pub fn is_match_anchored(&self, line: &[u8], offset: usize) -> (r: Result<bool, MatchError>)
        requires
            line@.len() < usize::MAX,
        ensures
            r == anchored_match_spec(line@, offset as int, self.bytecode()),
    {
        match pmatch(LineCursor::new(line, offset), PatternCursor::new(self.pbuf.as_slice())) {
            Ok(Some(_)) => Ok(true),
            Ok(None) => Ok(false),
            Err(e) => Err(e),
        }
    }

    /// The source bytes this pattern was compiled from.
    pub fn source(&self) -> (r: &[u8])
        ensures
            r@ == self.source_spec(),
    {
        self.source.as_slice()
    }

    /// The compiled bytecode, borrowed.
    pub fn as_bytes(&self) -> (r: &[u8])
        ensures
            r@ == self.bytecode(),
    {
        self.pbuf.as_slice()
    }

    /// Renders the bytecode for inspection: control bytes in octal behind
    /// a backslash, other bytes raw, a space after each, and a final
    /// newline.
    #[verifier::loop_isolation(false)]
    pub fn debug(&self) -> (r: Vec<u8>)
        ensures
            r@ == debug_spec(self.bytecode()),
    {
        let mut out: Vec<u8> = Vec::new();
        let mut i: usize = 0;
        while i < self.pbuf.len()
            invariant
                i <= self.pbuf@.len(),
                out@ == debug_prefix(self.pbuf@, i as int),
            decreases self.pbuf@.len() - i,
        {
            let c = self.pbuf[i];
            if c < (' ' as u8) {
                out.push('\\' as u8);
                push_octal(&mut out, c as usize);
            } else {
                out.push(c);
            }
            out.push(' ' as u8);
            i = i + 1;
            proof {
                assert(out@ =~= debug_prefix(self.pbuf@, i as int));
            }
        }
        out.push('\n' as u8);
        out
    }

    /// The compiled bytecode, owned.
    pub fn into_bytes(self) -> (r: Vec<u8>)
        ensures
            r@ == self.bytecode(),
    {
        self.pbuf
    }
}

} // verus!
