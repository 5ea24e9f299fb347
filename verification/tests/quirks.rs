//! The historical edge-case behaviors of empty and malformed classes: each
//! compiles to a pinned byte sequence and drives the matcher into pinned
//! outcomes, overruns and bad opcodes included.

use decus_grep::grep::ALPHA;
use decus_grep::grep::ANY;
use decus_grep::grep::BOL;
use decus_grep::grep::CHAR;
use decus_grep::grep::CLASS;
use decus_grep::grep::DIGIT;
use decus_grep::grep::ENDPAT;
use decus_grep::grep::EOL;
use decus_grep::grep::MINUS;
use decus_grep::grep::NALPHA;
use decus_grep::grep::NCLASS;
use decus_grep::grep::PLUS;
use decus_grep::grep::PUNCT;
use decus_grep::grep::STAR;
use decus_grep::MatchError;
use decus_grep::Pattern;

fn compiled(pattern: &[u8], expected: &[u8]) -> Pattern {
    let p = Pattern::compile(pattern.to_vec(), Pattern::DEFAULT_LIMIT).unwrap();
    assert_eq!(p.as_bytes(), expected, "bytecode of {:?}", pattern);
    p
}

fn check(p: &Pattern, text: &[u8], expected: Result<bool, MatchError>) {
    assert_eq!(p.is_match(text), expected, "matching {:?} against {:?}", p.source(), text);
}

#[test]
fn empty_class_oversteps() {
    // Matching `[]` interprets the byte following it as a char in the class.
    // Even if the text is at that char, the class never matches (the length
    // byte of 1 makes `(op == CLASS) == (n <= 1)` always false and it returns
    // false). It does not continue matching.
    let p = compiled(b"[]", &[CLASS, 1, ENDPAT, 0]);
    check(&p, b"abc\x0f\n", Ok(false));
}

#[test]
fn empty_nclass_oversteps() {
    // Matching `[^]` interprets the byte following it as a char in the class.
    // Even if the text is at that char or at NUL, the class always matches
    // (the length byte of 1 makes `(op == CLASS) == (n <= 1)` always true).
    // It then continues matching at the second byte following it.

    // Overruns `ENDPAT`.
    let p = compiled(b"[^]", &[NCLASS, 1, ENDPAT, 0]);
    check(&p, b"abc\n", Err(MatchError::BadOpcode { op: 0 }));

    // Skips single-byte opcodes.
    let p = compiled(b"[^]^", &[NCLASS, 1, BOL, ENDPAT, 0]);
    check(&p, b"abc\n", Ok(true));
    check(&p, b"\x02", Ok(true));

    let p = compiled(b"[^]$", &[NCLASS, 1, EOL, ENDPAT, 0]);
    check(&p, b"abc\n", Ok(true));
    check(&p, b"\x03", Ok(true));

    let p = compiled(b"[^].", &[NCLASS, 1, ANY, ENDPAT, 0]);
    check(&p, b"abc\n", Ok(true));
    check(&p, b"\x04", Ok(true));

    let p = compiled(b"[^]:a", &[NCLASS, 1, ALPHA, ENDPAT, 0]);
    check(&p, b"abc\n", Ok(true));
    check(&p, b"\x0a", Ok(true));

    let p = compiled(b"[^]:d", &[NCLASS, 1, DIGIT, ENDPAT, 0]);
    check(&p, b"abc\n", Ok(true));
    check(&p, b"\x0b", Ok(true));

    let p = compiled(b"[^]:n", &[NCLASS, 1, NALPHA, ENDPAT, 0]);
    check(&p, b"abc\n", Ok(true));
    check(&p, b"\x0c", Ok(true));

    let p = compiled(b"[^]: ", &[NCLASS, 1, PUNCT, ENDPAT, 0]);
    check(&p, b"abc\n", Ok(true));
    check(&p, b"\x0d", Ok(true));

    // Skips the `CHAR` opcode and executes its value, 'x'.
    let p = compiled(b"[^]x", &[NCLASS, 1, CHAR, b'x', ENDPAT, 0]);
    check(&p, b"abc\n", Err(MatchError::BadOpcode { op: b'x' }));
    check(&p, b"\x01", Err(MatchError::BadOpcode { op: b'x' }));

    // Skips the `CLASS` or `NCLASS` opcode and executes its length.
    let p = compiled(b"[^][]", &[NCLASS, 1, CLASS, 1, ENDPAT, 0]);
    check(&p, b"abc\n", Ok(false));
    check(&p, b"a\x0f", Err(MatchError::BadOpcode { op: 0 }));

    let p = compiled(b"[^][^]", &[NCLASS, 1, NCLASS, 1, ENDPAT, 0]);
    check(&p, b"abc\n", Ok(false));
    check(&p, b"a\x0f", Err(MatchError::BadOpcode { op: 0 }));

    // Skips the `STAR`, `PLUS`, or `MINUS` opcode and executes its
    // sub-pattern.
    let p = compiled(b"[^]x*", &[NCLASS, 1, STAR, CHAR, b'x', ENDPAT, ENDPAT, 0]);
    check(&p, b"abc\n", Ok(false));
    check(&p, b"ax", Ok(true));

    let p = compiled(b"[^]x+", &[NCLASS, 1, PLUS, CHAR, b'x', ENDPAT, ENDPAT, 0]);
    check(&p, b"abc\n", Ok(false));
    check(&p, b"ax", Ok(true));

    let p = compiled(b"[^]x-", &[NCLASS, 1, MINUS, CHAR, b'x', ENDPAT, ENDPAT, 0]);
    check(&p, b"abc\n", Ok(false));
    check(&p, b"ax", Ok(true));
}

#[test]
fn class_range_confusion() {
    // `[\x0e]` is interpreted like `[\x0f-\x00]` and never matches, so it
    // does not overrun the pattern.
    let p = compiled(b"[\x0e]", &[CLASS, 2, b'\x0e', ENDPAT, 0]);
    check(&p, b"abc\n", Ok(false));
    check(&p, b"\x0e", Ok(false));
}

#[test]
fn nclass_range_confusion() {
    // `[^\x0e]` is interpreted as a `RANGE` with the following two bytes.
    // Since the length byte is 2 and testing a range subtracts 2, the class
    // always matches.

    // Overruns `ENDPAT` and NUL.
    let p = compiled(b"[^\x0e]", &[NCLASS, 2, b'\x0e', ENDPAT, 0]); // Like `[^\x0f-\x00]`.
    check(&p, b"abc\n", Err(MatchError::PatternOverrun));

    // Overruns `ENDPAT`.
    let p = compiled(b"[^\x0e]^", &[NCLASS, 2, b'\x0e', BOL, ENDPAT, 0]); // Like `[^\x02-\x0f]`.
    check(&p, b"abc\n", Err(MatchError::BadOpcode { op: 0 }));
    check(&p, b"\x02", Err(MatchError::BadOpcode { op: 0 }));

    let p = compiled(b"[^\x0e]$", &[NCLASS, 2, b'\x0e', EOL, ENDPAT, 0]); // Like `[^\x03-\x0f]`.
    check(&p, b"abc\n", Err(MatchError::BadOpcode { op: 0 }));
    check(&p, b"\x03", Err(MatchError::BadOpcode { op: 0 }));

    let p = compiled(b"[^\x0e].", &[NCLASS, 2, b'\x0e', ANY, ENDPAT, 0]); // Like `[^\x04-\x0f]`.
    check(&p, b"abc\n", Err(MatchError::BadOpcode { op: 0 }));
    check(&p, b"\x04", Err(MatchError::BadOpcode { op: 0 }));

    let p = compiled(b"[^\x0e]:a", &[NCLASS, 2, b'\x0e', ALPHA, ENDPAT, 0]); // Like `[^\x0a-\x0f]`.
    check(&p, b"abc\n", Err(MatchError::BadOpcode { op: 0 }));
    check(&p, b"\x0a", Err(MatchError::BadOpcode { op: 0 }));

    let p = compiled(b"[^\x0e]:d", &[NCLASS, 2, b'\x0e', DIGIT, ENDPAT, 0]); // Like `[^\x0b-\x0f]`.
    check(&p, b"abc\n", Err(MatchError::BadOpcode { op: 0 }));
    check(&p, b"\x0b", Err(MatchError::BadOpcode { op: 0 }));

    let p = compiled(b"[^\x0e]:n", &[NCLASS, 2, b'\x0e', NALPHA, ENDPAT, 0]); // Like `[^\x0c-\x0f]`.
    check(&p, b"abc\n", Err(MatchError::BadOpcode { op: 0 }));
    check(&p, b"\x0c", Err(MatchError::BadOpcode { op: 0 }));

    let p = compiled(b"[^\x0e]: ", &[NCLASS, 2, b'\x0e', PUNCT, ENDPAT, 0]); // Like `[^\x0d-\x0f]`.
    check(&p, b"abc\n", Err(MatchError::BadOpcode { op: 0 }));
    check(&p, b"\x0d", Err(MatchError::BadOpcode { op: 0 }));

    // Skips the following `CHAR` or empty `CLASS`/`NCLASS`.
    let p = compiled(b"[^\x0e]x", &[NCLASS, 2, b'\x0e', CHAR, b'x', ENDPAT, 0]); // Like `[^\x01-x]`
    check(&p, b"abc\n", Ok(true));
    check(&p, b"z", Ok(true));

    let p = compiled(b"[^\x0e][]", &[NCLASS, 2, b'\x0e', CLASS, 1, ENDPAT, 0]); // Like `[^\x05-\x01]`
    check(&p, b"abc\n", Ok(true));

    let p = compiled(b"[^\x0e][^]", &[NCLASS, 2, b'\x0e', NCLASS, 1, ENDPAT, 0]); // Like `[^\x06-\x01]`
    check(&p, b"abc\n", Ok(true));

    // Skips the `CLASS` opcode and its length and executes at its chars,
    // which are reinterpreted as a 255-long class.
    let p = compiled(
        b"[^\x0e][\x05\xff]",
        &[NCLASS, 2, b'\x0e', CLASS, 3, b'\x05', b'\xff', ENDPAT, 0],
    ); // Like `[^\x05-\x01]`
    check(&p, b"abc\n", Err(MatchError::PatternOverrun));

    let p = compiled(
        b"[^\x0e][^\x05\xff]",
        &[NCLASS, 2, b'\x0e', NCLASS, 3, b'\x05', b'\xff', ENDPAT, 0],
    ); // Like `[^\x06-\x01]`
    check(&p, b"abc\n", Err(MatchError::PatternOverrun));

    // Skips the `STAR`, `PLUS`, or `MINUS` opcode and executes one byte
    // into its sub-pattern.
    let p = compiled(b"[^\x0e]x*", &[NCLASS, 2, b'\x0e', STAR, CHAR, b'x', ENDPAT, ENDPAT, 0]); // Like `[^\x07-\x01]`
    check(&p, b"abc\n", Err(MatchError::BadOpcode { op: b'x' }));

    let p = compiled(b"[^\x0e]x+", &[NCLASS, 2, b'\x0e', PLUS, CHAR, b'x', ENDPAT, ENDPAT, 0]); // Like `[^\x08-\x01]`
    check(&p, b"abc\n", Err(MatchError::BadOpcode { op: b'x' }));

    let p = compiled(b"[^\x0e]x-", &[NCLASS, 2, b'\x0e', MINUS, CHAR, b'x', ENDPAT, ENDPAT, 0]); // Like `[^\x09-\x01]`
    check(&p, b"abc\n", Err(MatchError::BadOpcode { op: b'x' }));
}
