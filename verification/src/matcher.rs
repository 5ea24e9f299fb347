//! Bytecode matching: a recursive, greedy-with-backtracking interpreter
//! that walks a line cursor and a pattern cursor together.
//!
//! The spec functions `pmatch_spec`, `star_greedy`, `star_back`, `skip_sub`
//! and `class_scan` are the mathematical model of the interpreter, one per
//! loop of the historical algorithm; the executable functions are proved to
//! return exactly what the model says. Reads use the cursor semantics of
//! `line_read` and `pattern_read`, so the model also fixes precisely when a
//! malformed class or a skipped opcode turns into an overrun or bad-opcode
//! error rather than a plain mismatch.

use vstd::prelude::*;

use crate::buffer::line_read;
use crate::buffer::pattern_read;
use crate::buffer::LineCursor;
use crate::buffer::PatternCursor;
use crate::errors::MatchError;
use crate::grep::fold;
use crate::grep::fold_byte;
use crate::grep::ALPHA;
use crate::grep::ANY;
use crate::grep::BOL;
use crate::grep::CHAR;
use crate::grep::CLASS;
use crate::grep::DIGIT;
use crate::grep::ENDPAT;
use crate::grep::EOL;
use crate::grep::MINUS;
use crate::grep::NALPHA;
use crate::grep::NCLASS;
use crate::grep::PLUS;
use crate::grep::PUNCT;
use crate::grep::RANGE;
use crate::grep::STAR;

verus! {

/// Whether a byte is an ASCII decimal digit.
pub open spec fn is_digit_byte(c: u8) -> bool {
    ('0' as u8) <= c && c <= ('9' as u8)
}

/// Whether a byte is an ASCII letter.
pub open spec fn is_alpha_byte(c: u8) -> bool {
    (('A' as u8) <= c && c <= ('Z' as u8)) || (('a' as u8) <= c && c <= ('z' as u8))
}

/// Whether a byte is an ASCII letter or digit.
pub open spec fn is_alnum_byte(c: u8) -> bool {
    is_alpha_byte(c) || is_digit_byte(c)
}

/// What interpreting bytecode at one position yields: a fatal error, a
/// local mismatch, or a match ending at the given line offset.
pub enum MatchOutcome {
    Fail(MatchError),
    Miss,
    Hit(int),
}

/// How a class-entry scan ends: a fatal error, or a stop with the remaining
/// entry count and the pattern offset where the scan stopped.
pub enum ScanOutcome {
    Fail(MatchError),
    Stop(int, int),
}

/// How much bytecode is left after `poff`; never negative.
pub open spec fn pat_rem(pat: Seq<u8>, poff: int) -> int {
    if poff <= pat.len() {
        pat.len() - poff
    } else {
        0
    }
}

/// How much line, terminator included, is left after `loff`; never
/// negative.
pub open spec fn line_rem(line: Seq<u8>, loff: int) -> int {
    if loff <= line.len() + 2 {
        line.len() + 2 - loff
    } else {
        0
    }
}

/// How many backtracking candidates remain from `loff` down to `floor`;
/// never negative.
pub open spec fn back_rem(loff: int, floor: int) -> int {
    if loff >= floor {
        loff - floor + 1
    } else {
        0
    }
}

/// The pattern offset just past the next `ENDPAT`, or the overrun hit while
/// looking for it.
pub open spec fn skip_sub(pat: Seq<u8>, poff: int) -> Result<int, MatchError>
    decreases pat_rem(pat, poff), 0int, 0int,
{
    match pattern_read(pat, poff) {
        Err(e) => Err(e),
        Ok(op) => if op == ENDPAT {
            Ok(poff + 1)
        } else {
            skip_sub(pat, poff + 1)
        },
    }
}

/// Skipping a sub-pattern moves strictly forward and stops inside the
/// bytecode.
pub proof fn lemma_skip_sub(pat: Seq<u8>, poff: int)
    ensures
        skip_sub(pat, poff) matches Ok(r) ==> poff < r <= pat.len(),
    decreases pat_rem(pat, poff),
{
    match pattern_read(pat, poff) {
        Ok(op) => {
            if op != ENDPAT {
                lemma_skip_sub(pat, poff + 1);
            }
        },
        Err(_) => {},
    }
}

/// The scan over class entries for a folded line byte `c`, counting down
/// from the stored length `n`: a literal entry stops the scan on equality,
/// a `RANGE` entry stops it on inclusion, and the scan also stops once the
/// count falls to one or below. The count may be a lie (the bytecode may be
/// malformed), so reads can overrun.
pub open spec fn class_scan(pat: Seq<u8>, poff: int, n: int, c: u8) -> ScanOutcome
    decreases pat_rem(pat, poff), 0int, 0int,
{
    match pattern_read(pat, poff) {
        Err(e) => ScanOutcome::Fail(e),
        Ok(op) => if op == RANGE {
            match pattern_read(pat, poff + 1) {
                Err(e) => ScanOutcome::Fail(e),
                Ok(low) => match pattern_read(pat, poff + 2) {
                    Err(e) => ScanOutcome::Fail(e),
                    Ok(high) => if low <= c && c <= high {
                        ScanOutcome::Stop(n - 2, poff + 3)
                    } else if n - 3 <= 1 {
                        ScanOutcome::Stop(n - 3, poff + 3)
                    } else {
                        class_scan(pat, poff + 3, n - 3, c)
                    },
                },
            }
        } else if op == c {
            ScanOutcome::Stop(n, poff + 1)
        } else if n - 1 <= 1 {
            ScanOutcome::Stop(n - 1, poff + 1)
        } else {
            class_scan(pat, poff + 1, n - 1, c)
        },
    }
}

/// A class-entry scan moves strictly forward and stops inside the bytecode.
pub proof fn lemma_class_scan(pat: Seq<u8>, poff: int, n: int, c: u8)
    ensures
        class_scan(pat, poff, n, c) matches ScanOutcome::Stop(nf, pf) ==> poff < pf <= pat.len(),
    decreases pat_rem(pat, poff),
{
    match pattern_read(pat, poff) {
        Ok(op) => {
            if op == RANGE {
                if pattern_read(pat, poff + 1) is Ok && pattern_read(pat, poff + 2) is Ok {
                    lemma_class_scan(pat, poff + 3, n - 3, c);
                }
            } else if op != c {
                lemma_class_scan(pat, poff + 1, n - 1, c);
            }
        },
        Err(_) => {},
    }
}

/// One opcode step of the interpreter, written exactly as the historical
/// matcher behaves, quirks included: `ENDPAT` succeeds at the current line
/// offset; consuming opcodes read the line through the terminator
/// convention; classes go through `class_scan` and a positive class skips
/// its unread entries; `MINUS` tries its sub-pattern and keeps the longer
/// end; `STAR` and `PLUS` match greedily and then backtrack through the
/// rest of the pattern; anything else is a `BadOpcode` error.
pub open spec fn pmatch_spec(line: Seq<u8>, loff: int, pat: Seq<u8>, poff: int) -> MatchOutcome
    decreases pat_rem(pat, poff), 1int, 0int,
{
    match pattern_read(pat, poff) {
        Err(e) => MatchOutcome::Fail(e),
        Ok(op) => {
            let p1 = poff + 1;
            if op == ENDPAT {
                MatchOutcome::Hit(loff)
            } else if op == CHAR {
                match line_read(line, loff) {
                    Err(e) => MatchOutcome::Fail(e),
                    Ok(lc) => match pattern_read(pat, p1) {
                        Err(e) => MatchOutcome::Fail(e),
                        Ok(pc) => if fold_byte(lc) != pc {
                            MatchOutcome::Miss
                        } else {
                            pmatch_spec(line, loff + 1, pat, poff + 2)
                        },
                    },
                }
            } else if op == BOL {
                if loff != 0 {
                    MatchOutcome::Miss
                } else {
                    pmatch_spec(line, loff, pat, p1)
                }
            } else if op == EOL {
                if loff != line.len() {
                    MatchOutcome::Miss
                } else {
                    pmatch_spec(line, loff, pat, p1)
                }
            } else if op == ANY {
                match line_read(line, loff) {
                    Err(e) => MatchOutcome::Fail(e),
                    Ok(lc) => if lc == 0 {
                        MatchOutcome::Miss
                    } else {
                        pmatch_spec(line, loff + 1, pat, p1)
                    },
                }
            } else if op == DIGIT {
                match line_read(line, loff) {
                    Err(e) => MatchOutcome::Fail(e),
                    Ok(lc) => if !is_digit_byte(lc) {
                        MatchOutcome::Miss
                    } else {
                        pmatch_spec(line, loff + 1, pat, p1)
                    },
                }
            } else if op == ALPHA {
                match line_read(line, loff) {
                    Err(e) => MatchOutcome::Fail(e),
                    Ok(lc) => if !is_alpha_byte(lc) {
                        MatchOutcome::Miss
                    } else {
                        pmatch_spec(line, loff + 1, pat, p1)
                    },
                }
            } else if op == NALPHA {
                match line_read(line, loff) {
                    Err(e) => MatchOutcome::Fail(e),
                    Ok(lc) => if !is_alnum_byte(lc) {
                        MatchOutcome::Miss
                    } else {
                        pmatch_spec(line, loff + 1, pat, p1)
                    },
                }
            } else if op == PUNCT {
                match line_read(line, loff) {
                    Err(e) => MatchOutcome::Fail(e),
                    Ok(lc) => if lc == 0 || lc > (' ' as u8) {
                        MatchOutcome::Miss
                    } else {
                        pmatch_spec(line, loff + 1, pat, p1)
                    },
                }
            } else if op == CLASS || op == NCLASS {
                match line_read(line, loff) {
                    Err(e) => MatchOutcome::Fail(e),
                    Ok(lc0) => {
                        let lc = fold_byte(lc0);
                        match pattern_read(pat, p1) {
                            Err(e) => MatchOutcome::Fail(e),
                            Ok(nb) => match class_scan(pat, poff + 2, nb as int, lc) {
                                ScanOutcome::Fail(e) => MatchOutcome::Fail(e),
                                ScanOutcome::Stop(nf, pf) => {
                                    proof {
                                        lemma_class_scan(pat, poff + 2, nb as int, lc);
                                    }
                                    if (op == CLASS) == (nf <= 1) {
                                        MatchOutcome::Miss
                                    } else if op == CLASS {
                                        pmatch_spec(line, loff + 1, pat, pf + nf - 2)
                                    } else {
                                        pmatch_spec(line, loff + 1, pat, pf)
                                    }
                                },
                            },
                        }
                    },
                }
            } else if op == MINUS {
                match pmatch_spec(line, loff, pat, p1) {
                    MatchOutcome::Fail(e) => MatchOutcome::Fail(e),
                    sub => {
                        let l1 = match sub {
                            MatchOutcome::Hit(end) => end,
                            _ => loff,
                        };
                        match skip_sub(pat, p1) {
                            Err(e) => MatchOutcome::Fail(e),
                            Ok(p2) => {
                                proof {
                                    lemma_skip_sub(pat, p1);
                                }
                                pmatch_spec(line, l1, pat, p2)
                            },
                        }
                    },
                }
            } else if op == PLUS {
                match pmatch_spec(line, loff, pat, p1) {
                    MatchOutcome::Fail(e) => MatchOutcome::Fail(e),
                    MatchOutcome::Miss => MatchOutcome::Miss,
                    MatchOutcome::Hit(l1) => star_rest(line, l1, pat, p1),
                }
            } else if op == STAR {
                star_rest(line, loff, pat, p1)
            } else {
                MatchOutcome::Fail(MatchError::BadOpcode { op })
            }
        },
    }
}

/// The repetition tail shared by `STAR` and `PLUS`: repeat the sub-pattern
/// greedily from `start`, skip past its `ENDPAT`, then backtrack from the
/// greedy end down to `start` looking for an offset where the rest of the
/// pattern matches.
pub open spec fn star_rest(line: Seq<u8>, start: int, pat: Seq<u8>, sub: int) -> MatchOutcome
    decreases pat_rem(pat, sub), 3int, 0int,
{
    match star_greedy(line, start, pat, sub) {
        Err(e) => MatchOutcome::Fail(e),
        Ok(gend) => match skip_sub(pat, sub) {
            Err(e) => MatchOutcome::Fail(e),
            Ok(p2) => {
                proof {
                    lemma_skip_sub(pat, sub);
                }
                star_back(line, gend, pat, p2, start)
            },
        },
    }
}

/// The greedy phase of a repetition: as long as the line is not at its
/// terminator and the sub-pattern matches while consuming at least one
/// byte, move to the end of that match. A sub-pattern match that consumes
/// nothing can make no further progress, so the repetition stops there.
pub open spec fn star_greedy(line: Seq<u8>, loff: int, pat: Seq<u8>, sub: int) -> Result<
    int,
    MatchError,
>
    decreases pat_rem(pat, sub), 2int, line_rem(line, loff),
{
    match line_read(line, loff) {
        Err(e) => Err(e),
        Ok(lc) => if lc == 0 {
            Ok(loff)
        } else {
            match pmatch_spec(line, loff, pat, sub) {
                MatchOutcome::Fail(e) => Err(e),
                MatchOutcome::Miss => Ok(loff),
                MatchOutcome::Hit(end) => if end > loff {
                    star_greedy(line, end, pat, sub)
                } else {
                    Ok(end)
                },
            }
        },
    }
}

/// The backtracking phase of a repetition: try the rest of the pattern at
/// `cur`, then at `cur - 1`, and so on down to `floor`; the first (longest)
/// offset where the rest matches wins.
pub open spec fn star_back(
    line: Seq<u8>,
    cur: int,
    pat: Seq<u8>,
    p2: int,
    floor: int,
) -> MatchOutcome
    decreases pat_rem(pat, p2), 2int, back_rem(cur, floor),
{
    if cur < floor {
        MatchOutcome::Miss
    } else {
        match pmatch_spec(line, cur, pat, p2) {
            MatchOutcome::Fail(e) => MatchOutcome::Fail(e),
            MatchOutcome::Hit(end) => MatchOutcome::Hit(end),
            MatchOutcome::Miss => star_back(line, cur - 1, pat, p2, floor),
        }
    }
}

/// Tests a byte for the `DIGIT` shorthand.
fn is_digit(c: u8) -> (r: bool)
    ensures
        r == is_digit_byte(c),
{
    c >= ('0' as u8) && c <= ('9' as u8)
}

/// Tests a byte for the `ALPHA` shorthand.
fn is_alpha(c: u8) -> (r: bool)
    ensures
        r == is_alpha_byte(c),
{
    (c >= ('A' as u8) && c <= ('Z' as u8)) || (c >= ('a' as u8) && c <= ('z' as u8))
}

/// Tests a byte for the `NALPHA` shorthand.
fn is_alnum(c: u8) -> (r: bool)
    ensures
        r == is_alnum_byte(c),
{
    is_alpha(c) || is_digit(c)
}

/// Runs the class-entry scan on the pattern cursor, as `class_scan` says.
#[verifier::loop_isolation(false)]
fn class_scan_exec(pattern: &mut PatternCursor<'_>, n0: i32, c: u8) -> (r: Result<
    i32,
    MatchError,
>)
    requires
        0 <= n0 <= 255,
    ensures
        final(pattern).pattern@ == old(pattern).pattern@,
        ({
            let o = class_scan(old(pattern).pattern@, old(pattern).offset as int, n0 as int, c);
            match r {
                Ok(nf) => o == ScanOutcome::Stop(nf as int, final(pattern).offset as int) && -3
                    <= nf <= 255 && final(pattern).offset <= final(pattern).pattern@.len(),
                Err(e) => o == ScanOutcome::Fail(e),
            }
        }),
{
    let ghost pb = pattern.pattern@;
    let ghost target = class_scan(pb, pattern.offset as int, n0 as int, c);
    let mut n: i32 = n0;
    loop
        invariant
            pattern.pattern@ == pb,
            0 <= n <= 255,
            class_scan(pb, pattern.offset as int, n as int, c) == target,
        decreases n,
    {
        let op = match pattern.next() {
            Ok(op) => op,
            Err(e) => return Err(e),
        };
        if op == RANGE {
            let low = match pattern.next() {
                Ok(b) => b,
                Err(e) => return Err(e),
            };
            let high = match pattern.next() {
                Ok(b) => b,
                Err(e) => return Err(e),
            };
            n = n - 2;
            if low <= c && c <= high {
                return Ok(n);
            }
        } else if op == c {
            return Ok(n);
        }
        n = n - 1;
        if n <= 1 {
            return Ok(n);
        }
    }
}

/// Moves the pattern cursor just past the next `ENDPAT`, as `skip_sub`
/// says.
#[verifier::loop_isolation(false)]
fn skip_sub_exec(pattern: &mut PatternCursor<'_>) -> (r: Result<(), MatchError>)
    ensures
        final(pattern).pattern@ == old(pattern).pattern@,
        ({
            let o = skip_sub(old(pattern).pattern@, old(pattern).offset as int);
            match r {
                Ok(()) => o == Ok::<int, MatchError>(final(pattern).offset as int),
                Err(e) => o == Err::<int, MatchError>(e),
            }
        }),
{
    let ghost pb = pattern.pattern@;
    let ghost target = skip_sub(pb, pattern.offset as int);
    loop
        invariant
            pattern.pattern@ == pb,
            skip_sub(pb, pattern.offset as int) == target,
        decreases pat_rem(pb, pattern.offset as int),
    {
        match pattern.next() {
            Err(e) => {
                return Err(e);
            },
            Ok(op) => {
                if op == ENDPAT {
                    return Ok(());
                }
            },
        }
    }
}

/// Runs the greedy phase of a repetition, as `star_greedy` says: the line
/// cursor starts at the repetition's start; the pattern cursor stands at
/// the sub-pattern and is not moved.
#[verifier::loop_isolation(false)]
fn star_greedy_exec(line: LineCursor<'_>, pattern: PatternCursor<'_>) -> (r: Result<
    usize,
    MatchError,
>)
    requires
        line.line@.len() < usize::MAX,
    ensures
        ({
            let o = star_greedy(
                line.line@,
                line.offset as int,
                pattern.pattern@,
                pattern.offset as int,
            );
            match r {
                Ok(end) => o == Ok::<int, MatchError>(end as int),
                Err(e) => o == Err::<int, MatchError>(e),
            }
        }),
    decreases pat_rem(pattern.pattern@, pattern.offset as int), 2int,
{
    let ghost lb = line.line@;
    let ghost pb = pattern.pattern@;
    let ghost target = star_greedy(lb, line.offset as int, pb, pattern.offset as int);
    let mut line = line;
    loop
        invariant
            line.line@ == lb,
            star_greedy(lb, line.offset as int, pb, pattern.offset as int) == target,
        decreases line_rem(lb, line.offset as int),
    {
        let lc = match line.peek() {
            Err(e) => return Err(e),
            Ok(c) => c,
        };
        if lc == 0 {
            return Ok(line.offset());
        }
        match pmatch(line, pattern) {
            Err(e) => {
                return Err(e);
            },
            Ok(None) => {
                return Ok(line.offset());
            },
            Ok(Some(end)) => {
                if end > line.offset() {
                    line.set_offset(end);
                } else {
                    return Ok(end);
                }
            },
        }
    }
}

/// Interprets the bytecode at the pattern cursor against the line at the
/// line cursor, returning exactly what `pmatch_spec` says: the line offset
/// just past a match, `None` on a mismatch, or the fatal error.
#[verifier::loop_isolation(false)]
#[verifier::rlimit(60)]
pub(crate) fn pmatch(line: LineCursor<'_>, pattern: PatternCursor<'_>) -> (r: Result<
    Option<usize>,
    MatchError,
>)
    requires
        line.line@.len() < usize::MAX,
    ensures
        ({
            let o = pmatch_spec(
                line.line@,
                line.offset as int,
                pattern.pattern@,
                pattern.offset as int,
            );
            match r {
                Ok(Some(end)) => o == MatchOutcome::Hit(end as int),
                Ok(None) => o == MatchOutcome::Miss,
                Err(e) => o == MatchOutcome::Fail(e),
            }
        }),
    decreases pat_rem(pattern.pattern@, pattern.offset as int), 1int,
{
    let ghost lb = line.line@;
    let ghost pb = pattern.pattern@;
    let ghost p0 = pattern.offset as int;
    let ghost target = pmatch_spec(lb, line.offset as int, pb, p0);
    let mut line = line;
    let mut pattern = pattern;
    loop
        invariant
            line.line@ == lb,
            pattern.pattern@ == pb,
            pattern.offset >= p0,
            pmatch_spec(lb, line.offset as int, pb, pattern.offset as int) == target,
        decreases pat_rem(pb, pattern.offset as int),
    {
        let ghost it_l = line.offset as int;
        let ghost it_p = pattern.offset as int;
        let op = match pattern.next() {
            Ok(op) => op,
            Err(e) => return Err(e),
        };
        if op == ENDPAT {
            return Ok(Some(line.offset()));
        } else if op == CHAR {
            let lc = match line.next() {
                Ok(c) => c,
                Err(e) => return Err(e),
            };
            let pc = match pattern.next() {
                Ok(c) => c,
                Err(e) => return Err(e),
            };
            if fold(lc) != pc {
                return Ok(None);
            }
        } else if op == BOL {
            if !line.at_start() {
                return Ok(None);
            }
        } else if op == EOL {
            if !line.at_end() {
                return Ok(None);
            }
        } else if op == ANY {
            let lc = match line.next() {
                Ok(c) => c,
                Err(e) => return Err(e),
            };
            if lc == 0 {
                return Ok(None);
            }
        } else if op == DIGIT {
            let lc = match line.next() {
                Ok(c) => c,
                Err(e) => return Err(e),
            };
            if !is_digit(lc) {
                return Ok(None);
            }
        } else if op == ALPHA {
            let lc = match line.next() {
                Ok(c) => c,
                Err(e) => return Err(e),
            };
            if !is_alpha(lc) {
                return Ok(None);
            }
        } else if op == NALPHA {
            let lc = match line.next() {
                Ok(c) => c,
                Err(e) => return Err(e),
            };
            if !is_alnum(lc) {
                return Ok(None);
            }
        } else if op == PUNCT {
            let lc = match line.next() {
                Ok(c) => c,
                Err(e) => return Err(e),
            };
            if lc == 0 || lc > (' ' as u8) {
                return Ok(None);
            }
        } else if op == CLASS || op == NCLASS {
            let lc0 = match line.next() {
                Ok(c) => c,
                Err(e) => return Err(e),
            };
            let lc = fold(lc0);
            let nb = match pattern.next() {
                Ok(b) => b,
                Err(e) => return Err(e),
            };
            let nf = match class_scan_exec(&mut pattern, nb as i32, lc) {
                Err(e) => return Err(e),
                Ok(nf) => nf,
            };
            proof {
                lemma_class_scan(pb, it_p + 2, nb as int, lc);
            }
            if (op == CLASS) == (nf <= 1) {
                return Ok(None);
            }
            if op == CLASS {
                // Here nf >= 2: skip the entries the early exit left
                // unread. If the lying length would carry the cursor past
                // the end of the bytecode, the read there could only
                // overrun.
                let adv = (nf - 2) as usize;
                let rem = pattern.pattern.len() - pattern.offset;
                if adv > rem {
                    proof {
                        assert(pmatch_spec(lb, it_l + 1, pb, pattern.offset as int + (nf - 2))
                            == MatchOutcome::Fail(MatchError::PatternOverrun));
                    }
                    return Err(MatchError::PatternOverrun);
                }
                pattern.bump(adv);
            }
        } else if op == MINUS {
            match pmatch(line, pattern) {
                Err(e) => return Err(e),
                Ok(Some(end)) => {
                    line.set_offset(end);
                },
                Ok(None) => {},
            }
            match skip_sub_exec(&mut pattern) {
                Err(e) => return Err(e),
                Ok(()) => {},
            }
            proof {
                lemma_skip_sub(pb, it_p + 1);
            }
        } else if op == PLUS || op == STAR {
            if op == PLUS {
                // The sub-pattern must match at least once.
                match pmatch(line, pattern) {
                    Err(e) => return Err(e),
                    Ok(None) => return Ok(None),
                    Ok(Some(end)) => {
                        line.set_offset(end);
                    },
                }
            }
            let start = line.offset();
            proof {
                assert(target == star_rest(lb, start as int, pb, it_p + 1));
            }
            let gend = match star_greedy_exec(line, pattern) {
                Err(e) => return Err(e),
                Ok(g) => g,
            };
            match skip_sub_exec(&mut pattern) {
                Err(e) => return Err(e),
                Ok(()) => {},
            }
            proof {
                lemma_skip_sub(pb, it_p + 1);
                assert(target == star_back(
                    lb,
                    gend as int,
                    pb,
                    pattern.offset as int,
                    start as int,
                ));
            }
            let mut cur = gend;
            loop
                invariant
                    line.line@ == lb,
                    pattern.pattern@ == pb,
                    it_p + 1 < pattern.offset as int <= pb.len(),
                    star_back(lb, cur as int, pb, pattern.offset as int, start as int)
                        == target,
                decreases cur,
            {
                if cur < start {
                    return Ok(None);
                }
                line.set_offset(cur);
                match pmatch(line, pattern) {
                    Err(e) => return Err(e),
                    Ok(Some(end)) => return Ok(Some(end)),
                    Ok(None) => {},
                }
                if cur == start {
                    proof {
                        assert(star_back(
                            lb,
                            cur as int - 1,
                            pb,
                            pattern.offset as int,
                            start as int,
                        ) == MatchOutcome::Miss);
                    }
                    return Ok(None);
                }
                cur = cur - 1;
            }
        } else {
            return Err(MatchError::BadOpcode { op });
        }
    }
}

/// Whether the bytecode matches the line exactly at `offset`: the
/// interpreter's outcome collapsed to a boolean, errors kept.
pub open spec fn anchored_match_spec(line: Seq<u8>, offset: int, pat: Seq<u8>) -> Result<
    bool,
    MatchError,
> {
    match pmatch_spec(line, offset, pat, 0) {
        MatchOutcome::Fail(e) => Err(e),
        MatchOutcome::Miss => Ok(false),
        MatchOutcome::Hit(_) => Ok(true),
    }
}

/// Whether the bytecode matches starting at any offset from `start` up to,
/// but not including, the line length: the first anchored hit wins, a
/// fatal error ends the scan, and an exhausted line (so in particular a
/// blank line) never matches.
pub open spec fn scan_match_spec(line: Seq<u8>, start: int, pat: Seq<u8>) -> Result<
    bool,
    MatchError,
>
    decreases line.len() - start,
{
    if start < 0 || start >= line.len() {
        Ok(false)
    } else {
        match pmatch_spec(line, start, pat, 0) {
            MatchOutcome::Fail(e) => Err(e),
            MatchOutcome::Hit(_) => Ok(true),
            MatchOutcome::Miss => scan_match_spec(line, start + 1, pat),
        }
    }
}

} // verus!
