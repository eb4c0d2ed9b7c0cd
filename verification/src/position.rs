//! Source positions carried by every node for diagnostics.

use vstd::prelude::*;

verus! {

/// A half-open range of byte offsets into the source text.
#[derive(Clone, Copy, Debug, PartialEq, Eq, Structural)]
pub struct FilePosition {
    pub start: usize,
    pub end: usize,
}

impl FilePosition {
    /// The range from `start` to `end`.
    pub fn from_bounds(start: usize, end: usize) -> (r: FilePosition)
        ensures
            r.start == start,
            r.end == end,
    {
        FilePosition { start, end }
    }

    /// The position of nodes that the engine itself creates: the empty range at offset zero.
    pub fn placeholder() -> (r: FilePosition)
        ensures
            r == Self::spec_placeholder(),
    {
        FilePosition { start: 0, end: 0 }
    }

    pub open spec fn spec_placeholder() -> FilePosition {
        FilePosition { start: 0, end: 0 }
    }

    /// The smallest range that covers both `self` and `other`.
    pub open spec fn union(self, other: FilePosition) -> FilePosition {
        FilePosition {
            start: if other.start < self.start { other.start } else { self.start },
            end: if other.end > self.end { other.end } else { self.end },
        }
    }

    /// Widens this range until it covers `other` as well.
    pub fn include_other(&mut self, other: &FilePosition)
        ensures
            *final(self) == old(self).union(*other),
    {
        if other.start < self.start {
            self.start = other.start;
        }
        if other.end > self.end {
            self.end = other.end;
        }
    }

    pub fn get_start(&self) -> (r: usize)
        ensures
            r == self.start,
    {
        self.start
    }

    pub fn get_end(&self) -> (r: usize)
        ensures
            r == self.end,
    {
        self.end
    }
}

} // verus!
