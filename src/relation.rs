use vstd::prelude::*;

verus! {

/// How two intervals lie relative to each other: the thirteen relations of
/// Allen's interval algebra. `A` is the first interval, `B` the second.
#[derive(Clone, Copy, Hash, PartialEq, Eq, Debug, Structural)]
pub enum RangesRelation {
    /// `A` ends before `B` starts, with no common point.
    ///
    /// ```text
    /// [ A ]
    ///       [ B ]
    /// ```
    StrictlyBefore,
    /// `A` starts after `B` ends, with no common point.
    ///
    /// ```text
    ///       [ A ]
    /// [ B ]
    /// ```
    StrictlyAfter,
    /// `A` ends exactly where `B` starts.
    ///
    /// ```text
    /// [ A ]
    ///     [ B ]
    /// ```
    Meets,
    /// `B` ends exactly where `A` starts.
    ///
    /// ```text
    ///     [ A ]
    /// [ B ]
    /// ```
    IsMet,
    /// `A` starts first and ends inside `B`.
    ///
    /// ```text
    /// [ A ]
    ///   [ B ]
    /// ```
    Overlaps,
    /// `B` starts first and ends inside `A`.
    ///
    /// ```text
    ///   [ A ]
    /// [ B ]
    /// ```
    IsOverlapped,
    /// Both start together and `A` ends first.
    ///
    /// ```text
    /// [ A ]
    /// [   B   ]
    /// ```
    Starts,
    /// Both start together and `B` ends first.
    ///
    /// ```text
    /// [   A   ]
    /// [ B ]
    /// ```
    IsStarted,
    /// `B` lies inside `A`, away from both of its ends.
    ///
    /// ```text
    /// [   A   ]
    ///   [ B ]
    /// ```
    StrictlyContains,
    /// `A` lies inside `B`, away from both of its ends.
    ///
    /// ```text
    ///   [ A ]
    /// [   B   ]
    /// ```
    IsStrictlyContained,
    /// Both end together and `A` starts last.
    ///
    /// ```text
    ///     [ A ]
    /// [   B   ]
    /// ```
    Finishes,
    /// Both end together and `B` starts last.
    ///
    /// ```text
    /// [   A   ]
    ///     [ B ]
    /// ```
    IsFinished,
    /// Both start and end together.
    ///
    /// ```text
    /// [ A ]
    /// [ B ]
    /// ```
    Equal,
}

impl RangesRelation {
    /// The relation seen from the second interval.
    pub open spec fn mirror(self) -> RangesRelation {
        match self {
            RangesRelation::StrictlyBefore => RangesRelation::StrictlyAfter,
            RangesRelation::StrictlyAfter => RangesRelation::StrictlyBefore,
            RangesRelation::Meets => RangesRelation::IsMet,
            RangesRelation::IsMet => RangesRelation::Meets,
            RangesRelation::Overlaps => RangesRelation::IsOverlapped,
            RangesRelation::IsOverlapped => RangesRelation::Overlaps,
            RangesRelation::Starts => RangesRelation::IsStarted,
            RangesRelation::IsStarted => RangesRelation::Starts,
            RangesRelation::StrictlyContains => RangesRelation::IsStrictlyContained,
            RangesRelation::IsStrictlyContained => RangesRelation::StrictlyContains,
            RangesRelation::Finishes => RangesRelation::IsFinished,
            RangesRelation::IsFinished => RangesRelation::Finishes,
            RangesRelation::Equal => RangesRelation::Equal,
        }
    }

    /// The two intervals touch or overlap: every relation but
    /// `StrictlyBefore` and `StrictlyAfter`.
    pub open spec fn spec_intersects(self) -> bool {
        !(self is StrictlyBefore || self is StrictlyAfter)
    }

    /// The first interval covers the second.
    pub open spec fn spec_contains(self) -> bool {
        self is Equal || self is StrictlyContains || self is IsStarted || self is IsFinished
    }

    /// Returns true if there is any type of overlap between the two ranges.
    ///
    /// This holds of all the relations except
    /// [`RangesRelation::StrictlyBefore`] and [`RangesRelation::StrictlyAfter`].
    pub fn intersects(&self) -> (r: bool)
        ensures
            r == self.spec_intersects(),
    {
        match self {
            RangesRelation::StrictlyBefore | RangesRelation::StrictlyAfter => false,
            RangesRelation::Overlaps
            | RangesRelation::IsOverlapped
            | RangesRelation::Meets
            | RangesRelation::IsMet
            | RangesRelation::Starts
            | RangesRelation::IsStarted
            | RangesRelation::StrictlyContains
            | RangesRelation::IsStrictlyContained
            | RangesRelation::Finishes
            | RangesRelation::IsFinished
            | RangesRelation::Equal => true,
        }
    }

    /// Returns true if the ranges are completely disjoint.
    ///
    /// This holds of [`RangesRelation::StrictlyBefore`] and
    /// [`RangesRelation::StrictlyAfter`] only.
    pub fn disjoint(&self) -> (r: bool)
        ensures
            r == !self.spec_intersects(),
            r <==> (*self is StrictlyBefore || *self is StrictlyAfter),
    {
        !self.intersects()
    }

    /// Returns true if the first range contains the second one.
    ///
    /// This holds of [`RangesRelation::Equal`],
    /// [`RangesRelation::StrictlyContains`], [`RangesRelation::IsStarted`] and
    /// [`RangesRelation::IsFinished`].
    pub fn contains(&self) -> (r: bool)
        ensures
            r == self.spec_contains(),
    {
        match self {
            RangesRelation::Equal
            | RangesRelation::StrictlyContains
            | RangesRelation::IsFinished
            | RangesRelation::IsStarted => true,
            RangesRelation::StrictlyBefore
            | RangesRelation::StrictlyAfter
            | RangesRelation::Overlaps
            | RangesRelation::IsOverlapped
            | RangesRelation::Meets
            | RangesRelation::IsMet
            | RangesRelation::Starts
            | RangesRelation::IsStrictlyContained
            | RangesRelation::Finishes => false,
        }
    }
}

} // verus!
