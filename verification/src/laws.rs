//! Properties of the engine that go beyond single calls: the size limit
//! enforces capacity exactly, and anchored patterns match exactly where the
//! anchors say.

use vstd::prelude::*;

use crate::errors::MatchError;
use crate::errors::PatternErrorKind;
use crate::grep::can_store;
use crate::grep::cclass_loop;
use crate::grep::cclass_spec;
use crate::grep::compile_loop;
use crate::grep::compile_spec;
use crate::grep::fold_byte;
use crate::grep::rep_illegal_after;
use crate::grep::lemma_cclass_loop_advances;
use crate::grep::lemma_cclass_spec_advances;
use crate::grep::wrap_rep;
use crate::grep::ClassOutcome;
use crate::grep::Pattern;
use crate::grep::CompileOutcome;
use crate::grep::BOL;
use crate::grep::CHAR;
use crate::grep::ENDPAT;
use crate::grep::EOL;
use crate::matcher::pmatch_spec;
use crate::matcher::scan_match_spec;
use crate::matcher::skip_sub;
use crate::matcher::star_back;
use crate::matcher::star_greedy;
use crate::matcher::star_rest;
use crate::matcher::MatchOutcome;

verus! {

/// An unbounded compilation only ever grows the buffer, and always appends
/// at least the final terminator and the trailing zero.
proof fn lemma_compile_loop_min_len(src: Seq<u8>, off: int, buf: Seq<u8>, pat_start: int)
    requires
        0 <= pat_start <= buf.len(),
    ensures
        compile_loop(src, off, buf, pat_start, 0) matches CompileOutcome::Done(f) ==> f.len()
            >= buf.len() + 2,
    decreases src.len() - off + 1, 2int,
{
    if 0 <= off < src.len() {
        let c = src[off];
        let o1 = off + 1;
        if c == ('*' as u8) || c == ('+' as u8) || c == ('-' as u8) {
            if buf.len() != 0 {
                lemma_compile_loop_min_len(src, o1, wrap_rep(buf, pat_start, c_rep(c)), pat_start);
            }
        } else if c == ('^' as u8) {
            lemma_compile_loop_min_len(src, o1, buf.push(BOL), buf.len() as int);
        } else if c == ('$' as u8) {
            lemma_compile_loop_min_len(src, o1, buf.push(crate::grep::EOL), buf.len() as int);
        } else if c == ('.' as u8) {
            lemma_compile_loop_min_len(src, o1, buf.push(crate::grep::ANY), buf.len() as int);
        } else if c == ('[' as u8) {
            lemma_cclass_spec_advances(src, o1, buf, 0);
            match cclass_spec(src, o1, buf, 0) {
                ClassOutcome::Done(b2, o2) => {
                    lemma_compile_loop_min_len(src, o2, b2, buf.len() as int);
                },
                ClassOutcome::Fail(_, _) => {},
            }
        } else if c == (':' as u8) {
            if o1 < src.len() {
                let c2 = src[o1];
                let o2 = o1 + 1;
                let op: u8 = if c2 == ('a' as u8) || c2 == ('A' as u8) {
                    crate::grep::ALPHA
                } else if c2 == ('d' as u8) || c2 == ('D' as u8) {
                    crate::grep::DIGIT
                } else if c2 == ('n' as u8) || c2 == ('N' as u8) {
                    crate::grep::NALPHA
                } else if c2 == (' ' as u8) {
                    crate::grep::PUNCT
                } else {
                    0
                };
                if op != 0 {
                    lemma_compile_loop_min_len(src, o2, buf.push(op), buf.len() as int);
                }
            }
        } else {
            let ch: u8 = if c == ('\\' as u8) && o1 < src.len() {
                src[o1]
            } else {
                c
            };
            let o2 = if c == ('\\' as u8) && o1 < src.len() {
                o1 + 1
            } else {
                o1
            };
            lemma_compile_loop_min_len(src, o2, buf + seq![CHAR, fold_byte(ch)], buf.len() as int);
        }
    }
}

/// The repetition opcode a repetition character maps to.
spec fn c_rep(c: u8) -> u8 {
    if c == ('*' as u8) {
        crate::grep::STAR
    } else if c == ('-' as u8) {
        crate::grep::MINUS
    } else {
        crate::grep::PLUS
    }
}

/// Capacity enforcement inside a class: from a state a successful unbounded
/// class run passes through, the bounded run yields the same class when the
/// result fits the limit, and fails with `ComplexPattern` when it does not.
proof fn lemma_cclass_loop_limit(
    src: Seq<u8>,
    off: int,
    buf: Seq<u8>,
    class_start: int,
    limit: int,
)
    requires
        limit > 0,
        buf.len() <= limit,
        0 <= class_start <= buf.len(),
        cclass_loop(src, off, buf, class_start, 0) is Done,
    ensures
        ({
            let done = cclass_loop(src, off, buf, class_start, 0);
            let b2 = done->Done_0;
            &&& (b2.len() <= limit ==> cclass_loop(src, off, buf, class_start, limit) == done)
            &&& (b2.len() > limit ==> (cclass_loop(src, off, buf, class_start, limit)
                matches ClassOutcome::Fail(k, _) && k == PatternErrorKind::ComplexPattern))
        }),
    decreases src.len() - off,
{
    lemma_cclass_loop_advances(src, off, buf, class_start, 0);
    if 0 <= off < src.len() {
        let c = src[off];
        let o1 = off + 1;
        if c == (']' as u8) {
        } else if c == ('\\' as u8) {
            if o1 < src.len() {
                let nbuf = buf.push(fold_byte(src[o1]));
                lemma_cclass_loop_advances(src, o1 + 1, nbuf, class_start, 0);
                if nbuf.len() <= limit {
                    lemma_cclass_loop_limit(src, o1 + 1, nbuf, class_start, limit);
                }
            }
        } else if c == ('-' as u8) && buf.len() - class_start > 1 && o1 < src.len() && src[o1]
            != (']' as u8) {
            let low = buf.last();
            let b1 = buf.drop_last();
            let nbuf = b1 + seq![crate::grep::RANGE, low, fold_byte(src[o1])];
            lemma_cclass_loop_advances(src, o1 + 1, nbuf, class_start, 0);
            if nbuf.len() <= limit {
                lemma_cclass_loop_limit(src, o1 + 1, nbuf, class_start, limit);
            }
        } else {
            let nbuf = buf.push(fold_byte(c));
            lemma_cclass_loop_advances(src, o1, nbuf, class_start, 0);
            if nbuf.len() <= limit {
                lemma_cclass_loop_limit(src, o1, nbuf, class_start, limit);
            }
        }
    }
}

/// Capacity enforcement for a whole class, the leading opcode and length
/// byte included.
proof fn lemma_cclass_spec_limit(src: Seq<u8>, off: int, buf: Seq<u8>, limit: int)
    requires
        limit > 0,
        buf.len() <= limit,
        cclass_spec(src, off, buf, 0) is Done,
    ensures
        ({
            let done = cclass_spec(src, off, buf, 0);
            let b2 = done->Done_0;
            &&& (b2.len() <= limit ==> cclass_spec(src, off, buf, limit) == done)
            &&& (b2.len() > limit ==> (cclass_spec(src, off, buf, limit)
                matches ClassOutcome::Fail(k, _) && k == PatternErrorKind::ComplexPattern))
        }),
{
    let negate = 0 <= off < src.len() && src[off] == ('^' as u8);
    let cls: u8 = if negate {
        crate::grep::NCLASS
    } else {
        crate::grep::CLASS
    };
    let o1 = if negate {
        off + 1
    } else {
        off
    };
    let nbuf = buf + seq![cls, 0u8];
    lemma_cclass_loop_advances(src, o1, nbuf, buf.len() as int + 1, 0);
    if can_store(buf, limit, 2) {
        lemma_cclass_loop_limit(src, o1, nbuf, buf.len() as int + 1, limit);
    }
}

/// Capacity enforcement from any state a successful unbounded compilation
/// passes through: under a positive limit the run either reproduces the
/// unbounded bytecode (when it fits) or fails with `ComplexPattern` (when
/// it does not).
proof fn lemma_compile_loop_limit(src: Seq<u8>, off: int, buf: Seq<u8>, pat_start: int, limit: int)
    requires
        limit > 0,
        buf.len() <= limit,
        0 <= pat_start <= buf.len(),
        compile_loop(src, off, buf, pat_start, 0) is Done,
    ensures
        ({
            let done = compile_loop(src, off, buf, pat_start, 0);
            let f = done->Done_0;
            &&& (f.len() <= limit ==> compile_loop(src, off, buf, pat_start, limit) == done)
            &&& (f.len() > limit ==> (compile_loop(src, off, buf, pat_start, limit)
                matches CompileOutcome::Fail(k, _) && k == PatternErrorKind::ComplexPattern))
        }),
    decreases src.len() - off + 1, 2int,
{
    lemma_compile_loop_min_len(src, off, buf, pat_start);
    if 0 <= off < src.len() {
        let c = src[off];
        let o1 = off + 1;
        if c == ('*' as u8) || c == ('+' as u8) || c == ('-' as u8) {
            let nbuf = wrap_rep(buf, pat_start, c_rep(c));
            if buf.len() != 0 {
                lemma_compile_loop_min_len(src, o1, nbuf, pat_start);
            }
            if nbuf.len() <= limit {
                lemma_compile_loop_limit(src, o1, nbuf, pat_start, limit);
            }
        } else if c == 94 || c == 36 || c == 46 {
            let op: u8 = if c == 94 {
                BOL
            } else if c == ('$' as u8) {
                EOL
            } else {
                crate::grep::ANY
            };
            let nbuf = buf.push(op);
            lemma_compile_loop_min_len(src, o1, nbuf, buf.len() as int);
            if nbuf.len() <= limit {
                lemma_compile_loop_limit(src, o1, nbuf, buf.len() as int, limit);
            }
        } else if c == ('[' as u8) {
            lemma_cclass_spec_advances(src, o1, buf, 0);
            lemma_cclass_spec_limit(src, o1, buf, limit);
            match cclass_spec(src, o1, buf, 0) {
                ClassOutcome::Done(b2, o2) => {
                    lemma_compile_loop_min_len(src, o2, b2, buf.len() as int);
                    if b2.len() <= limit {
                        lemma_compile_loop_limit(src, o2, b2, buf.len() as int, limit);
                    }
                },
                ClassOutcome::Fail(_, _) => {},
            }
        } else if c == (':' as u8) {
            if o1 < src.len() {
                let c2 = src[o1];
                let o2 = o1 + 1;
                let op: u8 = if c2 == ('a' as u8) || c2 == ('A' as u8) {
                    crate::grep::ALPHA
                } else if c2 == ('d' as u8) || c2 == ('D' as u8) {
                    crate::grep::DIGIT
                } else if c2 == ('n' as u8) || c2 == ('N' as u8) {
                    crate::grep::NALPHA
                } else if c2 == (' ' as u8) {
                    crate::grep::PUNCT
                } else {
                    0
                };
                if op != 0 {
                    let nbuf = buf.push(op);
                    lemma_compile_loop_min_len(src, o2, nbuf, buf.len() as int);
                    if nbuf.len() <= limit {
                        lemma_compile_loop_limit(src, o2, nbuf, buf.len() as int, limit);
                    }
                }
            }
        } else {
            let ch: u8 = if c == ('\\' as u8) && o1 < src.len() {
                src[o1]
            } else {
                c
            };
            let o2 = if c == ('\\' as u8) && o1 < src.len() {
                o1 + 1
            } else {
                o1
            };
            let nbuf = buf + seq![CHAR, fold_byte(ch)];
            lemma_compile_loop_min_len(src, o2, nbuf, buf.len() as int);
            if nbuf.len() <= limit {
                lemma_compile_loop_limit(src, o2, nbuf, buf.len() as int, limit);
            }
        }
    }
}

/// Capacity enforcement: a pattern that compiles unbounded compiles to the
/// very same bytecode under any positive limit it fits in, and fails with
/// `ComplexPattern` under any positive limit it exceeds.
pub proof fn lemma_capacity_enforcement(src: Seq<u8>, limit: int)
    requires
        limit > 0,
        compile_spec(src, 0) is Done,
    ensures
        ({
            let b = compile_spec(src, 0)->Done_0;
            &&& (b.len() <= limit ==> compile_spec(src, limit) == compile_spec(src, 0))
            &&& (b.len() > limit ==> (compile_spec(src, limit) matches CompileOutcome::Fail(k, _)
                && k == PatternErrorKind::ComplexPattern))
        }),
{
    lemma_compile_loop_limit(src, 0, Seq::empty(), 0, limit);
}

/// A class-compilation failure other than a capacity failure stops just
/// past a consumed source byte.
proof fn lemma_cclass_loop_fail_offset(
    src: Seq<u8>,
    off: int,
    buf: Seq<u8>,
    class_start: int,
    limit: int,
)
    requires
        1 <= off <= src.len(),
    ensures
        cclass_loop(src, off, buf, class_start, limit) matches ClassOutcome::Fail(k, o) ==> (k
            == PatternErrorKind::ComplexPattern || (0 < o <= src.len())),
    decreases src.len() - off,
{
    if 0 <= off < src.len() {
        let c = src[off];
        let o1 = off + 1;
        if c == (']' as u8) {
        } else if c == ('\\' as u8) {
            if o1 < src.len() && can_store(buf, limit, 1) {
                lemma_cclass_loop_fail_offset(
                    src,
                    o1 + 1,
                    buf.push(fold_byte(src[o1])),
                    class_start,
                    limit,
                );
            }
        } else if c == ('-' as u8) && buf.len() - class_start > 1 && o1 < src.len() && src[o1]
            != (']' as u8) {
            let low = buf.last();
            let b1 = buf.drop_last();
            if can_store(b1, limit, 3) {
                lemma_cclass_loop_fail_offset(
                    src,
                    o1 + 1,
                    b1 + seq![crate::grep::RANGE, low, fold_byte(src[o1])],
                    class_start,
                    limit,
                );
            }
        } else {
            if can_store(buf, limit, 1) {
                lemma_cclass_loop_fail_offset(src, o1, buf.push(fold_byte(c)), class_start, limit);
            }
        }
    }
}

/// A failing class compilation, `^` handling included, stops just past a
/// consumed source byte.
proof fn lemma_cclass_spec_fail_offset(src: Seq<u8>, off: int, buf: Seq<u8>, limit: int)
    requires
        1 <= off <= src.len(),
    ensures
        cclass_spec(src, off, buf, limit) matches ClassOutcome::Fail(k, o) ==> (k
            == PatternErrorKind::ComplexPattern || (0 < o <= src.len())),
{
    let negate = 0 <= off < src.len() && src[off] == ('^' as u8);
    let cls: u8 = if negate {
        crate::grep::NCLASS
    } else {
        crate::grep::CLASS
    };
    let o1 = if negate {
        off + 1
    } else {
        off
    };
    if can_store(buf, limit, 2) {
        lemma_cclass_loop_fail_offset(src, o1, buf + seq![cls, 0u8], buf.len() as int + 1, limit);
    }
}

/// A failing compilation step other than a capacity failure stops just
/// past a consumed source byte.
proof fn lemma_compile_loop_fail_offset(
    src: Seq<u8>,
    off: int,
    buf: Seq<u8>,
    pat_start: int,
    limit: int,
)
    requires
        0 <= off <= src.len(),
    ensures
        compile_loop(src, off, buf, pat_start, limit) matches CompileOutcome::Fail(k, o) ==> (k
            == PatternErrorKind::ComplexPattern || (0 < o <= src.len())),
    decreases src.len() - off,
{
    if 0 <= off < src.len() {
        let c = src[off];
        let o1 = off + 1;
        if c == ('*' as u8) || c == ('+' as u8) || c == ('-' as u8) {
            if buf.len() != 0 && !rep_illegal_after(buf.last()) && can_store(buf, limit, 2) {
                lemma_compile_loop_fail_offset(
                    src,
                    o1,
                    wrap_rep(buf, pat_start, c_rep(c)),
                    pat_start,
                    limit,
                );
            }
        } else if c == ('^' as u8) || c == ('$' as u8) || c == ('.' as u8) {
            let op: u8 = if c == ('^' as u8) {
                BOL
            } else if c == ('$' as u8) {
                EOL
            } else {
                crate::grep::ANY
            };
            if can_store(buf, limit, 1) {
                lemma_compile_loop_fail_offset(src, o1, buf.push(op), buf.len() as int, limit);
            }
        } else if c == ('[' as u8) {
            lemma_cclass_spec_advances(src, o1, buf, limit);
            lemma_cclass_spec_fail_offset(src, o1, buf, limit);
            match cclass_spec(src, o1, buf, limit) {
                ClassOutcome::Done(b2, o2) => {
                    lemma_compile_loop_fail_offset(src, o2, b2, buf.len() as int, limit);
                },
                ClassOutcome::Fail(_, _) => {},
            }
        } else if c == (':' as u8) {
            if o1 < src.len() {
                let c2 = src[o1];
                let o2 = o1 + 1;
                let op: u8 = if c2 == ('a' as u8) || c2 == ('A' as u8) {
                    crate::grep::ALPHA
                } else if c2 == ('d' as u8) || c2 == ('D' as u8) {
                    crate::grep::DIGIT
                } else if c2 == ('n' as u8) || c2 == ('N' as u8) {
                    crate::grep::NALPHA
                } else if c2 == (' ' as u8) {
                    crate::grep::PUNCT
                } else {
                    0
                };
                if op != 0 && can_store(buf, limit, 1) {
                    lemma_compile_loop_fail_offset(src, o2, buf.push(op), buf.len() as int, limit);
                }
            }
        } else {
            let ch: u8 = if c == ('\\' as u8) && o1 < src.len() {
                src[o1]
            } else {
                c
            };
            let o2 = if c == ('\\' as u8) && o1 < src.len() {
                o1 + 1
            } else {
                o1
            };
            if can_store(buf, limit, 2) {
                lemma_compile_loop_fail_offset(
                    src,
                    o2,
                    buf + seq![CHAR, fold_byte(ch)],
                    buf.len() as int,
                    limit,
                );
            }
        }
    }
}

/// Every compilation failure other than a capacity failure stops just past
/// a byte of the source: its offset is positive and at most the source
/// length, so the diagnostic renderer can always quote the byte before it.
pub proof fn lemma_fail_offset_in_source(src: Seq<u8>, limit: int)
    ensures
        compile_spec(src, limit) matches CompileOutcome::Fail(k, o) ==> (k
            == PatternErrorKind::ComplexPattern || (0 < o <= src.len())),
{
    lemma_compile_loop_fail_offset(src, 0, Seq::empty(), 0, limit);
}

/// Compilation determinism: compilation is a function of the source bytes
/// and the limit alone, so two patterns compiled from the same source
/// under the same limit hold identical bytecode. Each holds exactly what
/// `compile_spec` yields, which mentions nothing else.
pub proof fn lemma_compile_deterministic(a: Pattern, b: Pattern, src: Seq<u8>, limit: int)
    requires
        compile_spec(src, limit) is Done,
        a.bytecode() == compile_spec(src, limit)->Done_0,
        b.bytecode() == compile_spec(src, limit)->Done_0,
    ensures
        a.bytecode() == b.bytecode(),
{
}

/// Past offset 0, a pattern that begins with a beginning-of-line anchor
/// can only miss.
proof fn lemma_bol_scan_tail(line: Seq<u8>, i: int, x: u8)
    requires
        i >= 1,
    ensures
        scan_match_spec(line, i, seq![BOL, CHAR, x, ENDPAT, 0u8]) == Ok::<bool, MatchError>(false),
    decreases line.len() - i,
{
    reveal_with_fuel(pmatch_spec, 3);
    if i < line.len() {
        lemma_bol_scan_tail(line, i + 1, x);
    }
}

/// A beginning-of-line anchor admits a match only at the start of the
/// line: bytecode of the form `BOL CHAR x ENDPAT 0` matches a line exactly
/// when the line is not empty and its first byte case-folds to `x`.
pub proof fn lemma_bol_anchor(line: Seq<u8>, x: u8)
    ensures
        scan_match_spec(line, 0, seq![BOL, CHAR, x, ENDPAT, 0u8]) == Ok::<bool, MatchError>(
            line.len() > 0 && fold_byte(line[0]) == x,
        ),
{
    reveal_with_fuel(pmatch_spec, 5);
    if line.len() > 0 && fold_byte(line[0]) != x {
        lemma_bol_scan_tail(line, 1, x);
    }
}

/// From any start offset, bytecode of the form `CHAR x EOL ENDPAT 0`
/// matches exactly when some byte at or past that offset is the line's
/// last byte and case-folds to `x`.
proof fn lemma_eol_scan(line: Seq<u8>, i: int, x: u8)
    requires
        i >= 0,
    ensures
        scan_match_spec(line, i, seq![CHAR, x, EOL, ENDPAT, 0u8]) == Ok::<bool, MatchError>(
            i < line.len() && fold_byte(line[line.len() - 1]) == x,
        ),
    decreases line.len() - i,
{
    reveal_with_fuel(pmatch_spec, 5);
    if i < line.len() {
        lemma_eol_scan(line, i + 1, x);
    }
}

/// An end-of-line anchor admits a match only at the end of the line:
/// bytecode of the form `CHAR x EOL ENDPAT 0` matches a line exactly when
/// the line is not empty and its final byte case-folds to `x`.
pub proof fn lemma_eol_anchor(line: Seq<u8>, x: u8)
    ensures
        scan_match_spec(line, 0, seq![CHAR, x, EOL, ENDPAT, 0u8]) == Ok::<bool, MatchError>(
            line.len() > 0 && fold_byte(line[line.len() - 1]) == x,
        ),
{
    lemma_eol_scan(line, 0, x);
}

/// The bytecode of a literal followed by a zero-or-more repetition of a
/// second literal, as `fo*` compiles.
pub open spec fn star_pat(f: u8, o: u8) -> Seq<u8> {
    seq![CHAR, f, crate::grep::STAR, CHAR, o, ENDPAT, ENDPAT, 0u8]
}

/// The bytecode of a literal followed by a one-or-more repetition of a
/// second literal, as `fo+` compiles.
pub open spec fn plus_pat(f: u8, o: u8) -> Seq<u8> {
    seq![CHAR, f, crate::grep::PLUS, CHAR, o, ENDPAT, ENDPAT, 0u8]
}

/// Greedily repeating a single-literal sub-pattern never fails and never
/// leaves the line: it stops at the first byte that does not fold to the
/// literal, or at the terminator.
proof fn lemma_greedy_single_literal(line: Seq<u8>, loff: int, f: u8, o: u8, pat: Seq<u8>)
    requires
        0 <= loff <= line.len(),
        pat == star_pat(f, o) || pat == plus_pat(f, o),
    ensures
        star_greedy(line, loff, pat, 3) matches Ok(g) && loff <= g <= line.len(),
    decreases line.len() - loff,
{
    reveal_with_fuel(pmatch_spec, 2);
    assert(pat[3] == CHAR && pat[4] == o && pat[5] == ENDPAT);
    if loff < line.len() && line[loff] != 0 {
        if fold_byte(line[loff]) == o {
            assert(pmatch_spec(line, loff, pat, 3) == MatchOutcome::Hit(loff + 1));
            lemma_greedy_single_literal(line, loff + 1, f, o, pat);
        } else {
            assert(pmatch_spec(line, loff, pat, 3) == MatchOutcome::Miss);
        }
    }
}

/// The remainder of a single-literal repetition pattern begins at its
/// closing terminator, so the backtracking phase succeeds at once.
proof fn lemma_star_rest_single_literal(line: Seq<u8>, start: int, f: u8, o: u8, pat: Seq<u8>)
    requires
        0 <= start <= line.len(),
        pat == star_pat(f, o) || pat == plus_pat(f, o),
    ensures
        star_rest(line, start, pat, 3) is Hit,
{
    reveal_with_fuel(pmatch_spec, 2);
    reveal_with_fuel(skip_sub, 4);
    reveal_with_fuel(star_back, 2);
    lemma_greedy_single_literal(line, start, f, o, pat);
}

/// At one line offset, `fo*` matches exactly when the byte there folds to
/// `f`: the repetition takes whatever run of `o`s follows, the empty run
/// included.
proof fn lemma_star_at(line: Seq<u8>, j: int, f: u8, o: u8)
    requires
        0 <= j < line.len(),
    ensures
        fold_byte(line[j]) == f ==> pmatch_spec(line, j, star_pat(f, o), 0) is Hit,
        fold_byte(line[j]) != f ==> pmatch_spec(line, j, star_pat(f, o), 0)
            == MatchOutcome::Miss,
{
    reveal_with_fuel(pmatch_spec, 3);
    if fold_byte(line[j]) == f {
        lemma_star_rest_single_literal(line, j + 1, f, o, star_pat(f, o));
    }
}

/// At one line offset, `fo+` matches exactly when the byte there folds to
/// `f` and the next byte exists and folds to `o`.
proof fn lemma_plus_at(line: Seq<u8>, j: int, f: u8, o: u8)
    requires
        0 <= j < line.len(),
        o != 0,
    ensures
        (fold_byte(line[j]) == f && j + 1 < line.len() && fold_byte(line[j + 1]) == o)
            ==> pmatch_spec(line, j, plus_pat(f, o), 0) is Hit,
        !(fold_byte(line[j]) == f && j + 1 < line.len() && fold_byte(line[j + 1]) == o)
            ==> pmatch_spec(line, j, plus_pat(f, o), 0) == MatchOutcome::Miss,
{
    reveal_with_fuel(pmatch_spec, 3);
    if fold_byte(line[j]) == f && j + 1 < line.len() && fold_byte(line[j + 1]) == o {
        lemma_star_rest_single_literal(line, j + 2, f, o, plus_pat(f, o));
    }
}

/// The scan for `fo*` from any start offset.
proof fn lemma_star_scan(line: Seq<u8>, i: int, f: u8, o: u8)
    requires
        0 <= i,
    ensures
        scan_match_spec(line, i, star_pat(f, o)) == Ok::<bool, MatchError>(
            exists|j: int| i <= j < line.len() && fold_byte(line[j]) == f,
        ),
    decreases line.len() - i,
{
    if i < line.len() {
        lemma_star_at(line, i, f, o);
        lemma_star_scan(line, i + 1, f, o);
        if fold_byte(line[i]) == f {
            assert(exists|j: int| i <= j < line.len() && fold_byte(line[j]) == f);
        }
    }
}

/// Quantifier greediness, the zero-or-more side: a pattern of the shape
/// `fo*` matches a line exactly when some byte of the line folds to `f`;
/// the repetition admits any run of `o`s after it, the empty run included,
/// so `fo*` matches `f`, `fo` and `foo` alike.
pub proof fn lemma_star_zero_or_more(line: Seq<u8>, f: u8, o: u8)
    ensures
        scan_match_spec(line, 0, star_pat(f, o)) == Ok::<bool, MatchError>(
            exists|j: int| 0 <= j < line.len() && fold_byte(line[j]) == f,
        ),
{
    lemma_star_scan(line, 0, f, o);
}

/// The scan for `fo+` from any start offset.
proof fn lemma_plus_scan(line: Seq<u8>, i: int, f: u8, o: u8)
    requires
        0 <= i,
        o != 0,
    ensures
        scan_match_spec(line, i, plus_pat(f, o)) == Ok::<bool, MatchError>(
            exists|j: int|
                i <= j && j + 1 < line.len() && #[trigger] fold_byte(line[j]) == f && fold_byte(
                    line[j + 1],
                ) == o,
        ),
    decreases line.len() - i,
{
    if i < line.len() {
        lemma_plus_at(line, i, f, o);
        lemma_plus_scan(line, i + 1, f, o);
        if fold_byte(line[i]) == f && i + 1 < line.len() && fold_byte(line[i + 1]) == o {
            assert(exists|j: int|
                i <= j && j + 1 < line.len() && #[trigger] fold_byte(line[j]) == f && fold_byte(
                    line[j + 1],
                ) == o);
        }
    }
}

/// Quantifier greediness, the one-or-more side: a pattern of the shape
/// `fo+` (with a non-NUL `o`) matches a line exactly when some byte of the
/// line folds to `f` with a byte folding to `o` right after it, so `fo+`
/// matches `fo` and `foo` but not `f`.
pub proof fn lemma_plus_one_or_more(line: Seq<u8>, f: u8, o: u8)
    requires
        o != 0,
    ensures
        scan_match_spec(line, 0, plus_pat(f, o)) == Ok::<bool, MatchError>(
            exists|j: int|
                0 <= j && j + 1 < line.len() && #[trigger] fold_byte(line[j]) == f && fold_byte(
                    line[j + 1],
                ) == o,
        ),
{
    lemma_plus_scan(line, 0, f, o);
}

} // verus!
