use vstd::prelude::*;

use crate::bound::Bound;
use crate::order::{at_least, greater_than, spec_ge, spec_gt, Ordered};

verus! {

/// Every value from `start` to `end`, both included: `[start..end]`
#[derive(Clone, Copy, Debug, PartialEq, Eq, Hash)]
pub struct ContinuousRangeInclusive<Idx> {
    /// The lower bound of the range
    pub start: Idx,

    /// The upper bound of the range
    pub end: Idx,
}

impl<Idx: Ordered> ContinuousRangeInclusive<Idx> {
    /// Whether the range holds no value: its start lies after its end.
    pub fn is_empty(&self) -> (r: bool)
        ensures
            r == spec_gt(self.start, self.end),
    {
        greater_than(&self.start, &self.end)
    }

    /// The start bound.
    pub fn start_bound(&self) -> (r: Bound<Idx>)
        ensures
            r == Bound::Included(self.start),
    {
        Bound::Included(self.start)
    }

    /// The end bound.
    pub fn end_bound(&self) -> (r: Bound<Idx>)
        ensures
            r == Bound::Included(self.end),
    {
        Bound::Included(self.end)
    }
}

/// Every value between `start` and `end`, both excluded: `(start..end)`
#[derive(Clone, Copy, Debug, PartialEq, Eq, Hash)]
pub struct ContinuousRangeExclusive<Idx> {
    /// The lower bound of the range
    pub start: Idx,

    /// The upper bound of the range
    pub end: Idx,
}

impl<Idx: Ordered> ContinuousRangeExclusive<Idx> {
    /// Whether the range holds no value: its start does not lie before
    /// its end.
    pub fn is_empty(&self) -> (r: bool)
        ensures
            r == spec_ge(self.start, self.end),
    {
        at_least(&self.start, &self.end)
    }

    /// The start bound.
    pub fn start_bound(&self) -> (r: Bound<Idx>)
        ensures
            r == Bound::Excluded(self.start),
    {
        Bound::Excluded(self.start)
    }

    /// The end bound.
    pub fn end_bound(&self) -> (r: Bound<Idx>)
        ensures
            r == Bound::Excluded(self.end),
    {
        Bound::Excluded(self.end)
    }
}

/// Every value from `start` included to `end` excluded: `[start..end)`
#[derive(Clone, Copy, Debug, PartialEq, Eq, Hash)]
pub struct ContinuousRangeEndExclusive<Idx> {
    /// The lower bound of the range
    pub start: Idx,

    /// The upper bound of the range
    pub end: Idx,
}

impl<Idx: Ordered> ContinuousRangeEndExclusive<Idx> {
    /// Whether the range holds no value: its start does not lie before
    /// its end.
    pub fn is_empty(&self) -> (r: bool)
        ensures
            r == spec_ge(self.start, self.end),
    {
        at_least(&self.start, &self.end)
    }

    /// The start bound.
    pub fn start_bound(&self) -> (r: Bound<Idx>)
        ensures
            r == Bound::Included(self.start),
    {
        Bound::Included(self.start)
    }

    /// The end bound.
    pub fn end_bound(&self) -> (r: Bound<Idx>)
        ensures
            r == Bound::Excluded(self.end),
    {
        Bound::Excluded(self.end)
    }
}

/// Every value from `start` excluded to `end` included: `(start..end]`
#[derive(Clone, Copy, Debug, PartialEq, Eq, Hash)]
pub struct ContinuousRangeStartExclusive<Idx> {
    /// The lower bound of the range
    pub start: Idx,

    /// The upper bound of the range
    pub end: Idx,
}

impl<Idx: Ordered> ContinuousRangeStartExclusive<Idx> {
    /// Whether the range holds no value: its start does not lie before
    /// its end.
    pub fn is_empty(&self) -> (r: bool)
        ensures
            r == spec_ge(self.start, self.end),
    {
        at_least(&self.start, &self.end)
    }

    /// The start bound.
    pub fn start_bound(&self) -> (r: Bound<Idx>)
        ensures
            r == Bound::Excluded(self.start),
    {
        Bound::Excluded(self.start)
    }

    /// The end bound.
    pub fn end_bound(&self) -> (r: Bound<Idx>)
        ensures
            r == Bound::Included(self.end),
    {
        Bound::Included(self.end)
    }
}

/// Every value from `start` on, `start` included: `[start..)`
#[derive(Clone, Copy, Debug, PartialEq, Eq, Hash)]
pub struct ContinuousRangeFromInclusive<Idx> {
    /// The lower bound of the range
    pub start: Idx,
}

impl<Idx: Ordered> ContinuousRangeFromInclusive<Idx> {
    /// A range with an unbounded side is never empty.
    pub fn is_empty(&self) -> (r: bool)
        ensures
            r == false,
    {
        false
    }

    /// The start bound.
    pub fn start_bound(&self) -> (r: Bound<Idx>)
        ensures
            r == Bound::Included(self.start),
    {
        Bound::Included(self.start)
    }

    /// The end bound.
    pub fn end_bound(&self) -> (r: Bound<Idx>)
        ensures
            r == Bound::<Idx>::Unbounded,
    {
        Bound::Unbounded
    }
}

/// Every value after `start`: `(start..)`
#[derive(Clone, Copy, Debug, PartialEq, Eq, Hash)]
pub struct ContinuousRangeFromExclusive<Idx> {
    /// The lower bound of the range
    pub start: Idx,
}

impl<Idx: Ordered> ContinuousRangeFromExclusive<Idx> {
    /// A range with an unbounded side is never empty.
    pub fn is_empty(&self) -> (r: bool)
        ensures
            r == false,
    {
        false
    }

    /// The start bound.
    pub fn start_bound(&self) -> (r: Bound<Idx>)
        ensures
            r == Bound::Excluded(self.start),
    {
        Bound::Excluded(self.start)
    }

    /// The end bound.
    pub fn end_bound(&self) -> (r: Bound<Idx>)
        ensures
            r == Bound::<Idx>::Unbounded,
    {
        Bound::Unbounded
    }
}

/// Every value up to `end`, `end` included: `(..end]`
#[derive(Clone, Copy, Debug, PartialEq, Eq, Hash)]
pub struct ContinuousRangeToInclusive<Idx> {
    /// The upper bound of the range
    pub end: Idx,
}

impl<Idx: Ordered> ContinuousRangeToInclusive<Idx> {
    /// A range with an unbounded side is never empty.
    pub fn is_empty(&self) -> (r: bool)
        ensures
            r == false,
    {
        false
    }

    /// The start bound.
    pub fn start_bound(&self) -> (r: Bound<Idx>)
        ensures
            r == Bound::<Idx>::Unbounded,
    {
        Bound::Unbounded
    }

    /// The end bound.
    pub fn end_bound(&self) -> (r: Bound<Idx>)
        ensures
            r == Bound::Included(self.end),
    {
        Bound::Included(self.end)
    }
}

/// Every value before `end`: `(..end)`
#[derive(Clone, Copy, Debug, PartialEq, Eq, Hash)]
pub struct ContinuousRangeToExclusive<Idx> {
    /// The upper bound of the range
    pub end: Idx,
}

impl<Idx: Ordered> ContinuousRangeToExclusive<Idx> {
    /// A range with an unbounded side is never empty.
    pub fn is_empty(&self) -> (r: bool)
        ensures
            r == false,
    {
        false
    }

    /// The start bound.
    pub fn start_bound(&self) -> (r: Bound<Idx>)
        ensures
            r == Bound::<Idx>::Unbounded,
    {
        Bound::Unbounded
    }

    /// The end bound.
    pub fn end_bound(&self) -> (r: Bound<Idx>)
        ensures
            r == Bound::Excluded(self.end),
    {
        Bound::Excluded(self.end)
    }
}

} // verus!
