//! Bounds-tracked cursors over a line and over compiled bytecode, and a
//! buffer type that models memory with a defined out-of-bounds region.
//!
//! A `LineCursor` read at an offset equal to the line length yields the
//! defined terminator byte 0; only reads strictly beyond that are overruns.
//! A `PatternCursor` has no such terminator: any read past the end of the
//! bytecode is an overrun.

use vstd::prelude::*;

use crate::errors::MatchError;

verus! {

/// What a line read yields at a given offset: the byte itself in bounds, the
/// terminator byte 0 exactly at the line length, and an overrun beyond.
pub open spec fn line_read(line: Seq<u8>, offset: int) -> Result<u8, MatchError> {
    if 0 <= offset < line.len() {
        Ok(line[offset])
    } else if offset == line.len() {
        Ok(0u8)
    } else {
        Err(MatchError::LineOverrun)
    }
}

/// What a bytecode read yields at a given offset: the byte in bounds, and an
/// overrun at or beyond the end.
pub open spec fn pattern_read(pattern: Seq<u8>, offset: int) -> Result<u8, MatchError> {
    if 0 <= offset < pattern.len() {
        Ok(pattern[offset])
    } else {
        Err(MatchError::PatternOverrun)
    }
}

/// A length-tracking buffer which safely stands in for a NUL-terminated
/// buffer with a defined out-of-bounds region: bytes below `allowed_len` are
/// in bounds, bytes from `allowed_len` up to the end of `buf` are defined
/// but out of bounds, and anything beyond `buf` cannot be read at all.
pub struct OverrunBuffer {
    buf: Vec<u8>,
    allowed_len: usize,
}

impl OverrunBuffer {
    /// The whole backing store, including the defined out-of-bounds bytes.
    pub closed spec fn bytes(&self) -> Seq<u8> {
        self.buf@
    }

    /// How many leading bytes of the backing store are in bounds.
    pub closed spec fn allowed(&self) -> int {
        self.allowed_len as int
    }

    /// Every `OverrunBuffer` keeps its in-bounds region inside its store.
    pub open spec fn wf(&self) -> bool {
        self.allowed() <= self.bytes().len()
    }

    /// Creates an `OverrunBuffer` with no out-of-bounds memory defined: the
    /// line is terminated with a NUL byte and everything up to and including
    /// that byte is in bounds.
    pub fn with_line(line: Vec<u8>) -> (r: OverrunBuffer)
        ensures
            r.bytes() == line@.push(0u8),
            r.allowed() == line@.len() + 1,
            r.wf(),
    {
        let mut buf = line;
        buf.push(0u8);
        let allowed_len = buf.len();
        OverrunBuffer { buf, allowed_len }
    }

    /// Creates an `OverrunBuffer` with some out-of-bounds memory defined:
    /// bytes from `allowed_len` to the end of `buf` can still be read but
    /// count as out of bounds.
    ///
    /// The byte at `buf[allowed_len - 1]` should usually be NUL, unless an
    /// unterminated string is being simulated.
    pub fn with_overrun(buf: Vec<u8>, allowed_len: usize) -> (r: OverrunBuffer)
        requires
            allowed_len <= buf@.len(),
        ensures
            r.bytes() == buf@,
            r.allowed() == allowed_len as int,
            r.wf(),
    {
        OverrunBuffer { buf, allowed_len }
    }

    /// Gives the backing store back, defined out-of-bounds bytes included.
    pub fn into_vec(self) -> (r: Vec<u8>)
        ensures
            r@ == self.bytes(),
    {
        self.buf
    }
}

/// A cursor over a borrowed line of bytes. Reading exactly at the line
/// length yields the defined terminator byte 0; reading beyond it is a
/// `LineOverrun` error.
#[derive(Clone, Copy)]
pub(crate) struct LineCursor<'a> {
    pub(crate) line: &'a [u8],
    pub(crate) offset: usize,
}

impl<'a> LineCursor<'a> {
    pub(crate) fn new(line: &'a [u8], offset: usize) -> (r: Self)
        ensures
            r.line@ == line@,
            r.offset == offset,
    {
        LineCursor { line, offset }
    }

    /// The byte under the cursor, without advancing.
    pub(crate) fn peek(&self) -> (r: Result<u8, MatchError>)
        ensures
            r == line_read(self.line@, self.offset as int),
            self.line@.len() <= usize::MAX,
    {
        if self.offset < self.line.len() {
            Ok(self.line[self.offset])
        } else if self.offset == self.line.len() {
            Ok(0u8)
        } else {
            Err(MatchError::LineOverrun)
        }
    }

    /// The byte under the cursor; a successful read advances past it.
    pub(crate) fn next(&mut self) -> (r: Result<u8, MatchError>)
        requires
            old(self).line@.len() < usize::MAX,
        ensures
            r == line_read(old(self).line@, old(self).offset as int),
            final(self).line@ == old(self).line@,
            final(self).offset == if r is Ok {
                old(self).offset + 1
            } else {
                old(self).offset as int
            },
    {
        let c = self.peek();
        if c.is_ok() {
            self.offset = self.offset + 1;
        }
        c
    }

    /// Moves the cursor by a relative amount.
    pub(crate) fn bump(&mut self, amount: isize)
        requires
            amount > isize::MIN,
            old(self).line@.len() < usize::MAX,
            0 <= old(self).offset + amount <= old(self).line@.len() + 1,
        ensures
            final(self).line@ == old(self).line@,
            final(self).offset == old(self).offset + amount,
    {
        if amount >= 0 {
            self.offset = self.offset + (amount as usize);
        } else {
            self.offset = self.offset - ((-amount) as usize);
        }
    }

    pub(crate) fn offset(&self) -> (r: usize)
        ensures
            r == self.offset,
    {
        self.offset
    }

    pub(crate) fn set_offset(&mut self, offset: usize)
        ensures
            final(self).line@ == old(self).line@,
            final(self).offset == offset,
    {
        self.offset = offset;
    }

    pub(crate) fn at_start(&self) -> (r: bool)
        ensures
            r == (self.offset == 0),
    {
        self.offset == 0
    }

    pub(crate) fn at_end(&self) -> (r: bool)
        ensures
            r == (self.offset == self.line@.len()),
    {
        self.offset == self.line.len()
    }
}

/// A cursor over borrowed compiled bytecode. There is no defined terminator:
/// any read at or past the end is a `PatternOverrun` error.
#[derive(Clone, Copy)]
pub(crate) struct PatternCursor<'a> {
    pub(crate) pattern: &'a [u8],
    pub(crate) offset: usize,
}

impl<'a> PatternCursor<'a> {
    pub(crate) fn new(pattern: &'a [u8]) -> (r: Self)
        ensures
            r.pattern@ == pattern@,
            r.offset == 0,
    {
        PatternCursor { pattern, offset: 0 }
    }

    /// The byte under the cursor, without advancing.
    pub(crate) fn peek(&self) -> (r: Result<u8, MatchError>)
        ensures
            r == pattern_read(self.pattern@, self.offset as int),
            self.pattern@.len() <= usize::MAX,
    {
        if self.offset < self.pattern.len() {
            Ok(self.pattern[self.offset])
        } else {
            Err(MatchError::PatternOverrun)
        }
    }

    /// The byte under the cursor; a successful read advances past it.
    pub(crate) fn next(&mut self) -> (r: Result<u8, MatchError>)
        ensures
            r == pattern_read(old(self).pattern@, old(self).offset as int),
            final(self).pattern@ == old(self).pattern@,
            final(self).offset == if r is Ok {
                old(self).offset + 1
            } else {
                old(self).offset as int
            },
    {
        let c = self.peek();
        if c.is_ok() {
            self.offset = self.offset + 1;
        }
        c
    }

    /// Moves the cursor forward by a relative amount.
    pub(crate) fn bump(&mut self, amount: usize)
        requires
            old(self).offset + amount <= usize::MAX,
        ensures
            final(self).pattern@ == old(self).pattern@,
            final(self).offset == old(self).offset + amount,
    {
        self.offset = self.offset + amount;
    }
}

} // verus!
