//! Half-open byte-offset ranges over the source text.

use vstd::prelude::*;

verus! {

/// A half-open range `[lo, hi)` of byte offsets into the source text.
#[derive(Debug, Copy, Clone, PartialEq, Eq, Structural)]
pub struct Span {
    pub lo: usize,
    pub hi: usize,
}

/// The smallest range enclosing both `a` and `b`: the least of the two low
/// ends together with the greatest of the two high ends.
pub open spec fn spec_merge(a: Span, b: Span) -> Span {
    Span {
        lo: if a.lo <= b.lo {
            a.lo
        } else {
            b.lo
        },
        hi: if a.hi >= b.hi {
            a.hi
        } else {
            b.hi
        },
    }
}

impl Span {
    pub fn new(lo: usize, hi: usize) -> (s: Span)
        ensures
            s.lo == lo,
            s.hi == hi,
    {
        Span { lo, hi }
    }

    /// The placeholder span `[0, 0)`, used where no source position exists yet.
    pub fn dummy() -> (s: Span)
        ensures
            s.lo == 0,
            s.hi == 0,
    {
        Span::new(0, 0)
    }

    /// The smallest range enclosing both `self` and `other`: its low end is
    /// the least of the two low ends, its high end the greatest of the two
    /// high ends, whatever the two spans are.
    pub fn to(&self, other: Span) -> (s: Span)
        ensures
            s == spec_merge(*self, other),
            s.lo == if self.lo <= other.lo { self.lo } else { other.lo },
            s.hi == if self.hi >= other.hi { self.hi } else { other.hi },
    {
        Span {
            lo: if self.lo <= other.lo { self.lo } else { other.lo },
            hi: if self.hi >= other.hi { self.hi } else { other.hi },
        }
    }
}

} // verus!
