use vstd::prelude::*;

verus! {

/// A half-open byte range `[start, end)` into the original source text,
/// or the distinguished empty span, which refers to no position at all.
///
/// The empty span is represented with `start > end`, so that joining an
/// empty span with any other span yields the other span.
#[derive(Clone, Copy, PartialEq, Eq, Structural, Debug)]
pub struct Span {
    pub start: usize,
    pub end: usize,
}

impl Span {
    /// True for the distinguished empty span.
    pub open spec fn spec_is_empty(self) -> bool {
        self.start > self.end
    }

    /// A span covering the byte range `[start, end)`.
    pub fn new(start: usize, end: usize) -> (r: Span)
        ensures
            r.start == start,
            r.end == end,
    {
        Span { start, end }
    }

    /// The span that refers to no position.
    pub fn empty() -> (r: Span)
        ensures
            r.spec_is_empty(),
            r.start == usize::MAX,
            r.end == 0,
    {
        Span { start: usize::MAX, end: 0 }
    }

    /// True for the distinguished empty span.
    pub fn is_empty(&self) -> (r: bool)
        ensures
            r == self.spec_is_empty(),
    {
        self.start > self.end
    }

    /// The byte range of this span, or `None` for the empty span.
    pub fn range(&self) -> (r: Option<(usize, usize)>)
        ensures
            self.spec_is_empty() ==> r is None,
            !self.spec_is_empty() ==> r == Some((self.start, self.end)),
    {
        if self.start > self.end {
            None
        } else {
            Some((self.start, self.end))
        }
    }

    /// The byte range of this span, whether or not it is empty.
    pub fn range_unchecked(&self) -> (r: (usize, usize))
        ensures
            r == (self.start, self.end),
    {
        (self.start, self.end)
    }

    /// The smallest span covering both `self` and `other`.
    /// Joining with the empty span yields the other span unchanged.
    pub fn join(self, other: Span) -> (r: Span)
        ensures
            r.start == if self.start <= other.start {
                self.start
            } else {
                other.start
            },
            r.end == if self.end >= other.end {
                self.end
            } else {
                other.end
            },
    {
        Span {
            start: if self.start <= other.start {
                self.start
            } else {
                other.start
            },
            end: if self.end >= other.end {
                self.end
            } else {
                other.end
            },
        }
    }
}

} // verus!
