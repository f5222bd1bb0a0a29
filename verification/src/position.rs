//! Source locations: which file a token came from and where it sits.

use vstd::prelude::*;

verus! {

/// Dense identifier of a loaded source file.
pub type FileId = u16;

/// A span of source text: file, character offset, 1-based line number of the
/// span's first character, and character length.
#[derive(Debug, Clone, Copy, PartialEq, Eq, Structural)]
pub struct Position {
    pub file: FileId,
    pub offset: usize,
    pub line: usize,
    pub length: usize,
}

/// Clamps a mathematical length into the `usize` range.
pub open spec fn sat_usize(i: int) -> usize {
    if i < 0 {
        0
    } else if i > usize::MAX {
        usize::MAX
    } else {
        i as usize
    }
}

impl Position {
    /// The zero-length span at the very start of a file.
    pub fn top_of(file: FileId) -> (p: Position)
        ensures
            p == Position::top_of_spec(file),
    {
        Position { file, offset: 0, line: 1, length: 0 }
    }

    pub open spec fn top_of_spec(file: FileId) -> Position {
        Position { file, offset: 0, line: 1, length: 0 }
    }

    /// The character offset just past the end of the span.
    pub open spec fn end(self) -> int {
        self.offset + self.length
    }

    /// A span covering `self` and everything up to the end of `other`.
    /// Assumes both spans sit in the same file with `other` not before
    /// `self`; a caller breaking that assumption is a bug, which the
    /// preconditions make unrepresentable here.
    pub fn extend_to(self, other: Position) -> (p: Position)
        requires
            self.file == other.file,
            self.offset <= other.offset,
            other.end() <= usize::MAX,
        ensures
            p == self.span_to(other),
    {
        Position {
            file: self.file,
            offset: self.offset,
            line: self.line,
            length: other.offset - self.offset + other.length,
        }
    }

    /// Like [`Position::extend_to`], but total: out-of-range spans clamp.
    pub open spec fn span_to(self, other: Position) -> Position {
        Position {
            file: self.file,
            offset: self.offset,
            line: self.line,
            length: sat_usize(sat_usize(other.end()) - self.offset),
        }
    }

    /// A span covering `self` and `length` characters before it, assumed to
    /// lie on the same line.
    pub fn extend_back_same_line(self, length: usize) -> (p: Position)
        requires
            length <= self.offset,
            self.length + length <= usize::MAX,
        ensures
            p == self.extend_back_spec(length),
    {
        Position {
            file: self.file,
            offset: self.offset - length,
            line: self.line,
            length: self.length + length,
        }
    }

    pub open spec fn extend_back_spec(self, length: usize) -> Position {
        Position {
            file: self.file,
            offset: sat_usize(self.offset - length),
            line: self.line,
            length: sat_usize(self.length + length),
        }
    }

    /// The single-character span of the `pos`-th character inside `self`.
    pub fn char_inline(self, pos: usize) -> (p: Position)
        requires
            pos < self.length,
            self.offset + pos <= usize::MAX,
        ensures
            p == self.char_inline_spec(pos),
    {
        Position { file: self.file, offset: self.offset + pos, line: self.line, length: 1 }
    }

    pub open spec fn char_inline_spec(self, pos: usize) -> Position {
        Position {
            file: self.file,
            offset: sat_usize(self.offset + pos),
            line: self.line,
            length: 1,
        }
    }

    /// Pairs a value with this position.
    pub fn position<T>(self, object: T) -> (r: Positioned<T>)
        ensures
            r.object == object,
            r.position == self,
    {
        Positioned { object, position: self }
    }
}

/// Saturating addition, matching [`sat_usize`] of the mathematical sum.
pub fn sat_add(a: usize, b: usize) -> (r: usize)
    ensures
        r == sat_usize(a + b),
{
    if a <= usize::MAX - b {
        a + b
    } else {
        usize::MAX
    }
}

/// Saturating subtraction, matching [`sat_usize`] of the mathematical
/// difference.
pub fn sat_sub(a: usize, b: usize) -> (r: usize)
    ensures
        r == sat_usize(a - b),
{
    if a >= b {
        a - b
    } else {
        0
    }
}

impl Position {
    /// Total form of [`Position::extend_to`]: the length clamps instead of
    /// assuming well-ordered spans.
    pub fn span_to_clamped(self, other: Position) -> (p: Position)
        ensures
            p == self.span_to(other),
    {
        let end = sat_add(other.offset, other.length);
        let length = sat_sub(end, self.offset);
        Position { file: self.file, offset: self.offset, line: self.line, length }
    }

    /// Total form of [`Position::extend_back_same_line`]: offset and length
    /// clamp instead of assuming the span fits.
    pub fn extend_back_clamped(self, length: usize) -> (p: Position)
        ensures
            p == self.extend_back_spec(length),
    {
        Position {
            file: self.file,
            offset: sat_sub(self.offset, length),
            line: self.line,
            length: sat_add(self.length, length),
        }
    }
}

/// A value paired with the source span it came from.
///
/// Syntax-tree equality deliberately ignores positions, so this type does
/// not compare at all; containers holding it define their own equality over
/// the payloads.
#[derive(Debug, Clone)]
pub struct Positioned<T> {
    pub object: T,
    pub position: Position,
}

} // verus!
