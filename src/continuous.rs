use vstd::prelude::*;

use core::cmp::Ordering;

use crate::bound::{partial_cmp_bounds, spec_cmp_bounds, Bound, BoundSide, ContinuousBound};
use crate::order::{at_least, at_most, greater_than, is_le, less_than, Ordered};
use crate::relation::RangesRelation;

verus! {

/// One contiguous interval of values.
///
/// The constructors normalise (an inverted interval becomes `Empty`, a closed
/// interval of one value becomes `Single`), but the variants can also be
/// built directly; every query therefore derives emptiness from the stored
/// values rather than from the variant alone.
#[derive(Clone, Copy, Debug, PartialEq, Eq, Hash)]
pub enum ContinuousRange<Idx> {
    /// A range containing no value: `[]`
    Empty,
    /// A range containing a single value
    Single(Idx),
    /// A range between `start` (inclusive) and `end` (inclusive): `[start..end]`
    Inclusive(Idx, Idx),
    /// A range between `start` (exclusive) and `end` (exclusive): `(start..end)`
    Exclusive(Idx, Idx),
    /// A range between `start` (exclusive) and `end` (inclusive): `(start..end]`
    StartExclusive(Idx, Idx),
    /// A range between `start` (inclusive) and `end` (exclusive): `[start..end)`
    EndExclusive(Idx, Idx),
    /// A range starting from `start` (inclusive): `[start..)`
    From(Idx),
    /// A range starting from `start` (exclusive): `(start..)`
    FromExclusive(Idx),
    /// A range ending with `end` (inclusive): `(..end]`
    To(Idx),
    /// A range ending with `end` (exclusive): `(..end)`
    ToExclusive(Idx),
    /// A range containing all values: `(..)`
    Full,
}

impl<Idx> Default for ContinuousRange<Idx> {
    fn default() -> (r: Self)
        ensures
            r == ContinuousRange::<Idx>::Empty,
    {
        ContinuousRange::Empty
    }
}

/// The relation of two non-empty ranges that neither lie apart nor touch,
/// from the comparisons of their starts, their ends, the first one's end
/// with the second one's start and the first one's start with the second
/// one's end. `None` for a combination that no order can produce.
pub open spec fn classify(
    start_start: Ordering,
    end_end: Ordering,
    end_start: Ordering,
    start_end: Ordering,
) -> Option<RangesRelation> {
    if start_start == Ordering::Less && end_start == Ordering::Greater && end_end == Ordering::Less {
        Some(RangesRelation::Overlaps)
    } else if start_start == Ordering::Greater && start_end == Ordering::Less && end_end
        == Ordering::Greater {
        Some(RangesRelation::IsOverlapped)
    } else if start_start == Ordering::Equal && end_end == Ordering::Less {
        Some(RangesRelation::Starts)
    } else if start_start == Ordering::Equal && end_end == Ordering::Greater {
        Some(RangesRelation::IsStarted)
    } else if start_start == Ordering::Greater && end_end == Ordering::Equal {
        Some(RangesRelation::Finishes)
    } else if start_start == Ordering::Less && end_end == Ordering::Equal {
        Some(RangesRelation::IsFinished)
    } else if start_start == Ordering::Less && end_end == Ordering::Greater {
        Some(RangesRelation::StrictlyContains)
    } else if start_start == Ordering::Greater && end_end == Ordering::Less {
        Some(RangesRelation::IsStrictlyContained)
    } else if start_start == Ordering::Equal && end_end == Ordering::Equal {
        Some(RangesRelation::Equal)
    } else {
        None
    }
}

fn classify_exec(
    start_start: Ordering,
    end_end: Ordering,
    end_start: Ordering,
    start_end: Ordering,
) -> (r: Option<RangesRelation>)
    ensures
        r == classify(start_start, end_end, end_start, start_end),
{
    match (start_start, end_end) {
        (Ordering::Less, Ordering::Less) => match end_start {
            Ordering::Greater => Some(RangesRelation::Overlaps),
            _ => None,
        },
        (Ordering::Greater, Ordering::Greater) => match start_end {
            Ordering::Less => Some(RangesRelation::IsOverlapped),
            _ => None,
        },
        (Ordering::Equal, Ordering::Less) => Some(RangesRelation::Starts),
        (Ordering::Equal, Ordering::Greater) => Some(RangesRelation::IsStarted),
        (Ordering::Greater, Ordering::Equal) => Some(RangesRelation::Finishes),
        (Ordering::Less, Ordering::Equal) => Some(RangesRelation::IsFinished),
        (Ordering::Less, Ordering::Greater) => Some(RangesRelation::StrictlyContains),
        (Ordering::Greater, Ordering::Less) => Some(RangesRelation::IsStrictlyContained),
        (Ordering::Equal, Ordering::Equal) => Some(RangesRelation::Equal),
    }
}

impl<Idx> From<()> for ContinuousRange<Idx> {
    fn from(_unit: ()) -> (r: Self) {
        ContinuousRange::Empty
    }
}

impl<Idx> vstd::std_specs::convert::FromSpecImpl<()> for ContinuousRange<Idx> {
    open spec fn obeys_from_spec() -> bool {
        true
    }

    open spec fn from_spec(_unit: ()) -> Self {
        ContinuousRange::Empty
    }
}

impl<Idx> ContinuousRange<Idx> {
    /// The start bound (meaningless for `Empty`).
    pub open spec fn lower(self) -> Bound<Idx> {
        match self {
            ContinuousRange::Single(v) => Bound::Included(v),
            ContinuousRange::Inclusive(s, _) => Bound::Included(s),
            ContinuousRange::Exclusive(s, _) => Bound::Excluded(s),
            ContinuousRange::StartExclusive(s, _) => Bound::Excluded(s),
            ContinuousRange::EndExclusive(s, _) => Bound::Included(s),
            ContinuousRange::From(s) => Bound::Included(s),
            ContinuousRange::FromExclusive(s) => Bound::Excluded(s),
            _ => Bound::Unbounded,
        }
    }

    /// The end bound (meaningless for `Empty`).
    pub open spec fn upper(self) -> Bound<Idx> {
        match self {
            ContinuousRange::Single(v) => Bound::Included(v),
            ContinuousRange::Inclusive(_, e) => Bound::Included(e),
            ContinuousRange::Exclusive(_, e) => Bound::Excluded(e),
            ContinuousRange::StartExclusive(_, e) => Bound::Included(e),
            ContinuousRange::EndExclusive(_, e) => Bound::Excluded(e),
            ContinuousRange::To(e) => Bound::Included(e),
            ContinuousRange::ToExclusive(e) => Bound::Excluded(e),
            _ => Bound::Unbounded,
        }
    }

    /// Both bounds, `None` for `Empty` only.
    pub open spec fn spec_range_bounds(self) -> Option<(Bound<Idx>, Bound<Idx>)> {
        if self is Empty {
            None
        } else {
            Some((self.lower(), self.upper()))
        }
    }

    /// The start bound, `None` for `Empty` only.
    pub open spec fn spec_start(self) -> Option<Bound<Idx>> {
        if self is Empty {
            None
        } else {
            Some(self.lower())
        }
    }

    /// The end bound, `None` for `Empty` only.
    pub open spec fn spec_end(self) -> Option<Bound<Idx>> {
        if self is Empty {
            None
        } else {
            Some(self.upper())
        }
    }
}

impl<Idx: Ordered> ContinuousRange<Idx> {
    /// `[start..end]`, normalised.
    pub open spec fn spec_inclusive(start: Idx, end: Idx) -> Self {
        match start.spec_partial_cmp(&end) {
            Some(Ordering::Equal) => ContinuousRange::Single(start),
            Some(Ordering::Greater) => ContinuousRange::Empty,
            _ => ContinuousRange::Inclusive(start, end),
        }
    }

    /// `(start..end)`, normalised.
    pub open spec fn spec_exclusive(start: Idx, end: Idx) -> Self {
        match start.spec_partial_cmp(&end) {
            Some(Ordering::Equal) | Some(Ordering::Greater) => ContinuousRange::Empty,
            _ => ContinuousRange::Exclusive(start, end),
        }
    }

    /// `(start..end]`, normalised.
    pub open spec fn spec_start_exclusive(start: Idx, end: Idx) -> Self {
        match start.spec_partial_cmp(&end) {
            Some(Ordering::Equal) | Some(Ordering::Greater) => ContinuousRange::Empty,
            _ => ContinuousRange::StartExclusive(start, end),
        }
    }

    /// `[start..end)`, normalised.
    pub open spec fn spec_end_exclusive(start: Idx, end: Idx) -> Self {
        match start.spec_partial_cmp(&end) {
            Some(Ordering::Equal) | Some(Ordering::Greater) => ContinuousRange::Empty,
            _ => ContinuousRange::EndExclusive(start, end),
        }
    }

    /// The normalised range with the given bounds.
    pub open spec fn spec_from_bounds(bounds: (Bound<Idx>, Bound<Idx>)) -> Self {
        match bounds {
            (Bound::Unbounded, Bound::Unbounded) => ContinuousRange::Full,
            (Bound::Included(s), Bound::Included(e)) => Self::spec_inclusive(s, e),
            (Bound::Included(s), Bound::Excluded(e)) => Self::spec_end_exclusive(s, e),
            (Bound::Included(s), Bound::Unbounded) => ContinuousRange::From(s),
            (Bound::Excluded(s), Bound::Included(e)) => Self::spec_start_exclusive(s, e),
            (Bound::Excluded(s), Bound::Excluded(e)) => Self::spec_exclusive(s, e),
            (Bound::Excluded(s), Bound::Unbounded) => ContinuousRange::FromExclusive(s),
            (Bound::Unbounded, Bound::Included(e)) => ContinuousRange::To(e),
            (Bound::Unbounded, Bound::Excluded(e)) => ContinuousRange::ToExclusive(e),
        }
    }

    /// The range with the constructors' normalisation applied again.
    pub open spec fn spec_simplify(self) -> Self {
        match self {
            ContinuousRange::Inclusive(s, e) => Self::spec_inclusive(s, e),
            ContinuousRange::Exclusive(s, e) => Self::spec_exclusive(s, e),
            ContinuousRange::StartExclusive(s, e) => Self::spec_start_exclusive(s, e),
            ContinuousRange::EndExclusive(s, e) => Self::spec_end_exclusive(s, e),
            other => other,
        }
    }

    /// The range holds no value: it is `Empty`, or a bounded range whose
    /// start lies after its end (or on it, where an end is excluded).
    pub open spec fn spec_is_empty(self) -> bool {
        match self {
            ContinuousRange::Empty => true,
            ContinuousRange::Inclusive(s, e) => s.spec_partial_cmp(&e) == Some(Ordering::Greater),
            ContinuousRange::Exclusive(s, e) => s.spec_partial_cmp(&e) matches Some(
                Ordering::Greater | Ordering::Equal,
            ),
            ContinuousRange::StartExclusive(s, e) => s.spec_partial_cmp(&e) matches Some(
                Ordering::Greater | Ordering::Equal,
            ),
            ContinuousRange::EndExclusive(s, e) => s.spec_partial_cmp(&e) matches Some(
                Ordering::Greater | Ordering::Equal,
            ),
            _ => false,
        }
    }

    /// The range is empty, or its start lies at or before its end. Every
    /// range over a totally ordered element type is so; over a partial order
    /// a range whose two ends are unordered is not.
    pub open spec fn ends_ordered(self) -> bool {
        self.spec_is_empty() || is_le(
            spec_cmp_bounds(self.lower(), BoundSide::Start, self.upper(), BoundSide::End),
        )
    }

    /// `v` lies at or after the start bound and at or before the end bound.
    pub open spec fn spec_contains(self, v: Idx) -> bool {
        !(self is Empty) && is_le(
            spec_cmp_bounds(self.lower(), BoundSide::Start, Bound::Included(v), BoundSide::Start),
        ) && is_le(spec_cmp_bounds(Bound::Included(v), BoundSide::End, self.upper(), BoundSide::End))
    }

    /// A range containing no value: `[]`
    pub fn empty() -> (r: ContinuousRange<Idx>)
        ensures
            r == ContinuousRange::<Idx>::Empty,
    {
        ContinuousRange::Empty
    }

    /// A range containing a single value
    pub fn single(value: Idx) -> (r: ContinuousRange<Idx>)
        ensures
            r == ContinuousRange::Single(value),
    {
        ContinuousRange::Single(value)
    }

    /// A range between `start` (inclusive) and `end` (inclusive): `[start..end]`
    ///
    /// Equal ends give `Single`, inverted ones `Empty`.
    pub fn inclusive(start: Idx, end: Idx) -> (r: ContinuousRange<Idx>)
        ensures
            r == Self::spec_inclusive(start, end),
    {
        match start.partial_cmp_to(&end) {
            Some(Ordering::Equal) => ContinuousRange::Single(start),
            Some(Ordering::Greater) => ContinuousRange::Empty,
            _ => ContinuousRange::Inclusive(start, end),
        }
    }

    /// A range between `start` (exclusive) and `end` (exclusive): `(start..end)`
    ///
    /// Gives `Empty` unless `start < end`.
    pub fn exclusive(start: Idx, end: Idx) -> (r: ContinuousRange<Idx>)
        ensures
            r == Self::spec_exclusive(start, end),
    {
        if at_least(&start, &end) {
            ContinuousRange::Empty
        } else {
            ContinuousRange::Exclusive(start, end)
        }
    }

    /// A range between `start` (exclusive) and `end` (inclusive): `(start..end]`
    ///
    /// Gives `Empty` unless `start < end`.
    pub fn start_exclusive(start: Idx, end: Idx) -> (r: ContinuousRange<Idx>)
        ensures
            r == Self::spec_start_exclusive(start, end),
    {
        if at_least(&start, &end) {
            ContinuousRange::Empty
        } else {
            ContinuousRange::StartExclusive(start, end)
        }
    }

    /// A range between `start` (inclusive) and `end` (exclusive): `[start..end)`
    ///
    /// Gives `Empty` unless `start < end`.
    pub fn end_exclusive(start: Idx, end: Idx) -> (r: ContinuousRange<Idx>)
        ensures
            r == Self::spec_end_exclusive(start, end),
    {
        if at_least(&start, &end) {
            ContinuousRange::Empty
        } else {
            ContinuousRange::EndExclusive(start, end)
        }
    }

    /// A range starting from `start` (inclusive): `[start..)`
    pub fn from(start: Idx) -> (r: ContinuousRange<Idx>)
        ensures
            r == ContinuousRange::From(start),
    {
        ContinuousRange::From(start)
    }

    /// A range starting from `start` (exclusive): `(start..)`
    pub fn from_exclusive(start: Idx) -> (r: ContinuousRange<Idx>)
        ensures
            r == ContinuousRange::FromExclusive(start),
    {
        ContinuousRange::FromExclusive(start)
    }

    /// A range ending with `end` (inclusive): `(..end]`
    pub fn to(end: Idx) -> (r: ContinuousRange<Idx>)
        ensures
            r == ContinuousRange::To(end),
    {
        ContinuousRange::To(end)
    }

    /// A range ending with `end` (exclusive): `(..end)`
    pub fn to_exclusive(end: Idx) -> (r: ContinuousRange<Idx>)
        ensures
            r == ContinuousRange::ToExclusive(end),
    {
        ContinuousRange::ToExclusive(end)
    }

    /// A range containing all values: `(..)`
    pub fn full() -> (r: ContinuousRange<Idx>)
        ensures
            r == ContinuousRange::<Idx>::Full,
    {
        ContinuousRange::Full
    }

    /// Create a new range from the specified bounds, through the constructor
    /// of the matching shape.
    pub fn from_bounds(bounds: (Bound<Idx>, Bound<Idx>)) -> (r: Self)
        ensures
            r == Self::spec_from_bounds(bounds),
    {
        match bounds {
            (Bound::Unbounded, Bound::Unbounded) => Self::full(),
            (Bound::Included(start), Bound::Included(end)) => Self::inclusive(start, end),
            (Bound::Included(start), Bound::Excluded(end)) => Self::end_exclusive(start, end),
            (Bound::Included(start), Bound::Unbounded) => Self::from(start),
            (Bound::Excluded(start), Bound::Included(end)) => Self::start_exclusive(start, end),
            (Bound::Excluded(start), Bound::Excluded(end)) => Self::exclusive(start, end),
            (Bound::Excluded(start), Bound::Unbounded) => Self::from_exclusive(start),
            (Bound::Unbounded, Bound::Included(end)) => Self::to(end),
            (Bound::Unbounded, Bound::Excluded(end)) => Self::to_exclusive(end),
        }
    }

    /// Get the bounds of the range or `None` if it is `Empty`.
    pub fn range_bounds(&self) -> (r: Option<(Bound<Idx>, Bound<Idx>)>)
        ensures
            r == self.spec_range_bounds(),
    {
        match *self {
            Self::Empty => None,
            Self::Single(value) => Some((Bound::Included(value), Bound::Included(value))),
            Self::Inclusive(start, end) => Some((Bound::Included(start), Bound::Included(end))),
            Self::Exclusive(start, end) => Some((Bound::Excluded(start), Bound::Excluded(end))),
            Self::StartExclusive(start, end) => Some(
                (Bound::Excluded(start), Bound::Included(end)),
            ),
            Self::EndExclusive(start, end) => Some((Bound::Included(start), Bound::Excluded(end))),
            Self::From(start) => Some((Bound::Included(start), Bound::Unbounded)),
            Self::FromExclusive(start) => Some((Bound::Excluded(start), Bound::Unbounded)),
            Self::To(end) => Some((Bound::Unbounded, Bound::Included(end))),
            Self::ToExclusive(end) => Some((Bound::Unbounded, Bound::Excluded(end))),
            Self::Full => Some((Bound::Unbounded, Bound::Unbounded)),
        }
    }

    /// The start bound, absent for `Empty`.
    pub fn start(&self) -> (r: ContinuousBound<Idx>)
        ensures
            r@ == self.spec_start(),
    {
        ContinuousBound::new(
            match *self {
                Self::Empty => None,
                Self::Single(value) => Some(Bound::Included(value)),
                Self::Inclusive(start, _) => Some(Bound::Included(start)),
                Self::Exclusive(start, _) => Some(Bound::Excluded(start)),
                Self::StartExclusive(start, _) => Some(Bound::Excluded(start)),
                Self::EndExclusive(start, _) => Some(Bound::Included(start)),
                Self::From(start) => Some(Bound::Included(start)),
                Self::FromExclusive(start) => Some(Bound::Excluded(start)),
                Self::To(_) | Self::ToExclusive(_) | Self::Full => Some(Bound::Unbounded),
            },
        )
    }

    /// The end bound, absent for `Empty`.
    pub fn end(&self) -> (r: ContinuousBound<Idx>)
        ensures
            r@ == self.spec_end(),
    {
        ContinuousBound::new(
            match *self {
                Self::Empty => None,
                Self::Single(value) => Some(Bound::Included(value)),
                Self::Inclusive(_, end) => Some(Bound::Included(end)),
                Self::Exclusive(_, end) => Some(Bound::Excluded(end)),
                Self::StartExclusive(_, end) => Some(Bound::Included(end)),
                Self::EndExclusive(_, end) => Some(Bound::Excluded(end)),
                Self::To(end) => Some(Bound::Included(end)),
                Self::ToExclusive(end) => Some(Bound::Excluded(end)),
                Self::From(_) | Self::FromExclusive(_) | Self::Full => Some(Bound::Unbounded),
            },
        )
    }

    /// Check if the range contains the provided value.
    pub fn contains(&self, value: Idx) -> (r: bool)
        ensures
            r == self.spec_contains(value),
    {
        proof {
            Idx::lemma_order_laws(value, self.lower().spec_value(), self.upper().spec_value());
            Idx::lemma_order_laws(self.lower().spec_value(), value, self.upper().spec_value());
            Idx::lemma_order_laws(value, self.upper().spec_value(), self.lower().spec_value());
        }
        match self {
            Self::Empty => false,
            Self::Single(single_value) => {
                match single_value.partial_cmp_to(&value) {
                    Some(Ordering::Equal) => true,
                    _ => false,
                }
            },
            Self::Inclusive(start, end) => at_least(&value, start) && at_most(&value, end),
            Self::Exclusive(start, end) => greater_than(&value, start) && less_than(&value, end),
            Self::StartExclusive(start, end) => greater_than(&value, start) && at_most(
                &value,
                end,
            ),
            Self::EndExclusive(start, end) => at_least(&value, start) && less_than(&value, end),
            Self::From(start) => at_least(&value, start),
            Self::FromExclusive(start) => greater_than(&value, start),
            Self::To(end) => at_most(&value, end),
            Self::ToExclusive(end) => less_than(&value, end),
            Self::Full => true,
        }
    }

    /// Re-applies the constructors' normalisation in place: an inverted
    /// bounded range becomes `Empty`, `Inclusive(v, v)` becomes `Single(v)`.
    pub fn simplify_mut(&mut self)
        ensures
            *final(self) == old(self).spec_simplify(),
    {
        match *self {
            ContinuousRange::Inclusive(start, end) => {
                *self = Self::inclusive(start, end);
            },
            ContinuousRange::Exclusive(start, end) => {
                *self = Self::exclusive(start, end);
            },
            ContinuousRange::StartExclusive(start, end) => {
                *self = Self::start_exclusive(start, end);
            },
            ContinuousRange::EndExclusive(start, end) => {
                *self = Self::end_exclusive(start, end);
            },
            ContinuousRange::Empty
            | ContinuousRange::Single(_)
            | ContinuousRange::From(_)
            | ContinuousRange::FromExclusive(_)
            | ContinuousRange::To(_)
            | ContinuousRange::ToExclusive(_)
            | ContinuousRange::Full => {},
        }
    }

    /// A normalised copy of the range.
    pub fn simplify(&self) -> (r: Self)
        ensures
            r == self.spec_simplify(),
    {
        let mut copy = *self;
        copy.simplify_mut();
        copy
    }

    /// Whether the range holds no value, derived from the stored bounds.
    pub fn is_empty(&self) -> (r: bool)
        ensures
            r == self.spec_is_empty(),
    {
        match self {
            Self::Empty => true,
            Self::Inclusive(start, end) => greater_than(start, end),
            Self::Exclusive(start, end)
            | Self::StartExclusive(start, end)
            | Self::EndExclusive(start, end) => at_least(start, end),
            Self::Single(_)
            | Self::From(_)
            | Self::FromExclusive(_)
            | Self::To(_)
            | Self::ToExclusive(_)
            | Self::Full => false,
        }
    }

    /// Whether the range is `Full`.
    pub fn is_full(&self) -> (r: bool)
        ensures
            r == (*self is Full),
    {
        match self {
            Self::Full => true,
            _ => false,
        }
    }

    /// The Allen relation between two ranges.
    ///
    /// Two empty ranges are `Equal`; an empty range is in no relation with a
    /// non-empty one. Otherwise the bounds are compared in this order:
    /// `self`'s end with `other`'s start (`StrictlyBefore` if before),
    /// `self`'s start with `other`'s end (`StrictlyAfter` if after), each
    /// range's start with its own end, where the ranges touch and neither is
    /// a single point `Meets` or `IsMet`, and at last the two starts and the
    /// two ends, which [`classify`] turns into a relation. A comparison that
    /// finds two values unordered gives `None`.
    pub open spec fn spec_compare(self, other: Self) -> Option<RangesRelation> {
        if self.spec_is_empty() {
            if other.spec_is_empty() {
                Some(RangesRelation::Equal)
            } else {
                None
            }
        } else if other.spec_is_empty() {
            None
        } else {
            let end_start = spec_cmp_bounds(
                self.upper(),
                BoundSide::End,
                other.lower(),
                BoundSide::Start,
            );
            let start_end = spec_cmp_bounds(
                self.lower(),
                BoundSide::Start,
                other.upper(),
                BoundSide::End,
            );
            let self_span = spec_cmp_bounds(
                self.lower(),
                BoundSide::Start,
                self.upper(),
                BoundSide::End,
            );
            let other_span = spec_cmp_bounds(
                other.lower(),
                BoundSide::Start,
                other.upper(),
                BoundSide::End,
            );
            let start_start = spec_cmp_bounds(
                self.lower(),
                BoundSide::Start,
                other.lower(),
                BoundSide::Start,
            );
            let end_end = spec_cmp_bounds(
                self.upper(),
                BoundSide::End,
                other.upper(),
                BoundSide::End,
            );
            if end_start is None {
                None
            } else if end_start == Some(Ordering::Less) {
                Some(RangesRelation::StrictlyBefore)
            } else if start_end is None {
                None
            } else if start_end == Some(Ordering::Greater) {
                Some(RangesRelation::StrictlyAfter)
            } else if self_span is None || other_span is None {
                None
            } else if end_start == Some(Ordering::Equal) && self_span != Some(Ordering::Equal)
                && other_span != Some(Ordering::Equal) {
                Some(RangesRelation::Meets)
            } else if start_end == Some(Ordering::Equal) && self_span != Some(Ordering::Equal)
                && other_span != Some(Ordering::Equal) {
                Some(RangesRelation::IsMet)
            } else if start_start is None || end_end is None {
                None
            } else {
                classify(
                    start_start.unwrap(),
                    end_end.unwrap(),
                    end_start.unwrap(),
                    start_end.unwrap(),
                )
            }
        }
    }

    /// Compare the bounds of two ranges: their relation in Allen's interval
    /// algebra, `None` where one of them is empty and the other is not, or
    /// where two of their values are unordered.
    pub fn compare(&self, other: &ContinuousRange<Idx>) -> (r: Option<RangesRelation>)
        ensures
            r == self.spec_compare(*other),
    {
        // Empty ranges don't have bounds so they are handled first.
        if self.is_empty() {
            return if other.is_empty() {
                Some(RangesRelation::Equal)
            } else {
                None
            };
        } else if other.is_empty() {
            return None;
        }
        let (self_start, self_end) = match self.range_bounds() {
            Some(bounds) => bounds,
            None => return None,
        };
        let (other_start, other_end) = match other.range_bounds() {
            Some(bounds) => bounds,
            None => return None,
        };
        let cmp_end_start = match partial_cmp_bounds(
            &self_end,
            BoundSide::End,
            &other_start,
            BoundSide::Start,
        ) {
            Some(o) => o,
            None => return None,
        };
        if matches!(cmp_end_start, Ordering::Less) {
            return Some(RangesRelation::StrictlyBefore);
        }
        let cmp_start_end = match partial_cmp_bounds(
            &self_start,
            BoundSide::Start,
            &other_end,
            BoundSide::End,
        ) {
            Some(o) => o,
            None => return None,
        };
        if matches!(cmp_start_end, Ordering::Greater) {
            return Some(RangesRelation::StrictlyAfter);
        }
        let self_cmp = match partial_cmp_bounds(
            &self_start,
            BoundSide::Start,
            &self_end,
            BoundSide::End,
        ) {
            Some(o) => o,
            None => return None,
        };
        let other_cmp = match partial_cmp_bounds(
            &other_start,
            BoundSide::Start,
            &other_end,
            BoundSide::End,
        ) {
            Some(o) => o,
            None => return None,
        };
        let self_single = matches!(self_cmp, Ordering::Equal);
        let other_single = matches!(other_cmp, Ordering::Equal);
        if matches!(cmp_end_start, Ordering::Equal) && !self_single && !other_single {
            return Some(RangesRelation::Meets);
        }
        if matches!(cmp_start_end, Ordering::Equal) && !self_single && !other_single {
            return Some(RangesRelation::IsMet);
        }
        let cmp_start_start = match partial_cmp_bounds(
            &self_start,
            BoundSide::Start,
            &other_start,
            BoundSide::Start,
        ) {
            Some(o) => o,
            None => return None,
        };
        let cmp_end_end = match partial_cmp_bounds(
            &self_end,
            BoundSide::End,
            &other_end,
            BoundSide::End,
        ) {
            Some(o) => o,
            None => return None,
        };
        classify_exec(cmp_start_start, cmp_end_end, cmp_end_start, cmp_start_end)
    }

    /// The smallest single range covering both operands, where one exists.
    ///
    /// An empty operand (by its bounds, whatever its variant) gives the other
    /// one, and a `Full` operand gives `Full`. Otherwise: `None` where the
    /// ranges lie apart or where two of their values are unordered;
    /// where they touch or overlap, the range from the first one's start to
    /// the last one's end; where one covers the other, that one.
    pub open spec fn spec_union(self, other: Self) -> Option<Self> {
        if other.spec_is_empty() {
            Some(self)
        } else if self.spec_is_empty() {
            Some(other)
        } else if self is Full || other is Full {
            Some(ContinuousRange::Full)
        } else {
            match self.spec_compare(other) {
                None => None,
                Some(RangesRelation::StrictlyBefore) => None,
                Some(RangesRelation::StrictlyAfter) => None,
                Some(RangesRelation::Meets) => Some(
                    Self::spec_from_bounds((self.lower(), other.upper())),
                ),
                Some(RangesRelation::Overlaps) => Some(
                    Self::spec_from_bounds((self.lower(), other.upper())),
                ),
                Some(RangesRelation::IsMet) => Some(
                    Self::spec_from_bounds((other.lower(), self.upper())),
                ),
                Some(RangesRelation::IsOverlapped) => Some(
                    Self::spec_from_bounds((other.lower(), self.upper())),
                ),
                Some(RangesRelation::Starts) => Some(other),
                Some(RangesRelation::IsStrictlyContained) => Some(other),
                Some(RangesRelation::Finishes) => Some(other),
                Some(RangesRelation::IsStarted) => Some(self),
                Some(RangesRelation::StrictlyContains) => Some(self),
                Some(RangesRelation::IsFinished) => Some(self),
                Some(RangesRelation::Equal) => Some(self),
            }
        }
    }

    /// The values that both operands hold, as one range.
    ///
    /// An `Empty` operand gives `Empty`, a `Full` operand gives the other one.
    /// Otherwise: `Empty` where the ranges lie apart or are in no relation;
    /// the touching point where they meet; from the later start to the
    /// earlier end where they overlap; where one covers the other, the
    /// covered one.
    pub open spec fn spec_intersection(self, other: Self) -> Self {
        if self is Empty || other is Empty {
            ContinuousRange::Empty
        } else if self is Full {
            other
        } else if other is Full {
            self
        } else {
            match self.spec_compare(other) {
                None => ContinuousRange::Empty,
                Some(RangesRelation::StrictlyBefore) => ContinuousRange::Empty,
                Some(RangesRelation::StrictlyAfter) => ContinuousRange::Empty,
                Some(RangesRelation::Meets) => ContinuousRange::Single(self.upper().spec_value()),
                Some(RangesRelation::IsMet) => ContinuousRange::Single(self.lower().spec_value()),
                Some(RangesRelation::Overlaps) => Self::spec_from_bounds(
                    (other.lower(), self.upper()),
                ),
                Some(RangesRelation::IsOverlapped) => Self::spec_from_bounds(
                    (self.lower(), other.upper()),
                ),
                Some(RangesRelation::Starts) => self,
                Some(RangesRelation::IsStrictlyContained) => self,
                Some(RangesRelation::Finishes) => self,
                Some(RangesRelation::Equal) => self,
                Some(RangesRelation::IsStarted) => other,
                Some(RangesRelation::StrictlyContains) => other,
                Some(RangesRelation::IsFinished) => other,
            }
        }
    }

    /// The values of `self` outside `other`, where they form one range.
    ///
    /// An empty first operand (by its bounds, whatever its variant) gives
    /// `Empty`, an empty second operand gives `self`. Otherwise: `self` where
    /// the ranges lie apart; `Empty` where `other` covers `self`; `None` where
    /// `other` lies strictly inside `self` and splits it in two, or where two
    /// of their values are unordered; elsewhere `self` cut where `other` begins or ends, with the
    /// cut bound's inclusion reversed.
    pub open spec fn spec_difference(self, other: Self) -> Option<Self> {
        if self.spec_is_empty() {
            Some(ContinuousRange::Empty)
        } else if other.spec_is_empty() {
            Some(self)
        } else {
            match self.spec_compare(other) {
                None => None,
                Some(RangesRelation::StrictlyBefore) => Some(self),
                Some(RangesRelation::StrictlyAfter) => Some(self),
                Some(RangesRelation::Equal) => Some(ContinuousRange::Empty),
                Some(RangesRelation::IsStrictlyContained) => Some(ContinuousRange::Empty),
                Some(RangesRelation::Starts) => Some(ContinuousRange::Empty),
                Some(RangesRelation::Finishes) => Some(ContinuousRange::Empty),
                Some(RangesRelation::StrictlyContains) => None,
                Some(RangesRelation::Meets) => Some(
                    Self::spec_from_bounds((self.lower(), self.upper().reversed())),
                ),
                Some(RangesRelation::IsMet) => Some(
                    Self::spec_from_bounds((self.lower().reversed(), self.upper())),
                ),
                Some(RangesRelation::Overlaps) => Some(
                    Self::spec_from_bounds((self.lower(), other.lower().reversed())),
                ),
                Some(RangesRelation::IsFinished) => Some(
                    Self::spec_from_bounds((self.lower(), other.lower().reversed())),
                ),
                Some(RangesRelation::IsOverlapped) => Some(
                    Self::spec_from_bounds((other.upper().reversed(), self.upper())),
                ),
                Some(RangesRelation::IsStarted) => Some(
                    Self::spec_from_bounds((other.upper().reversed(), self.upper())),
                ),
            }
        }
    }

    /// The two ranges touch or overlap by their bounds: they are not both
    /// empty, and are in a relation other than `StrictlyBefore` and
    /// `StrictlyAfter`. (Over a type with a greatest value `m`, `(m..)`
    /// intersects itself while holding no value.)
    pub open spec fn spec_intersects(self, other: Self) -> bool {
        !(self.spec_is_empty() && other.spec_is_empty()) && match self.spec_compare(other) {
            Some(relation) => relation.spec_intersects(),
            None => false,
        }
    }

    /// The union of two ranges; `None` where it is not a single range.
    pub fn union(&self, other: &ContinuousRange<Idx>) -> (r: Option<ContinuousRange<Idx>>)
        ensures
            r == self.spec_union(*other),
    {
        if other.is_empty() {
            return Some(*self);
        }
        if self.is_empty() {
            return Some(*other);
        }
        match (self, other) {
            (ContinuousRange::Full, _) | (_, ContinuousRange::Full) => Some(ContinuousRange::Full),
            _ => match self.compare(other) {
                Some(cmp) => match cmp {
                    RangesRelation::StrictlyBefore => None,
                    RangesRelation::StrictlyAfter => None,
                    RangesRelation::Meets => {
                        let start = self.start().expect("Self meets without bounds");
                        let end = other.end().expect("Other meets without bounds");
                        Some(ContinuousRange::from_bounds((start, end)))
                    },
                    RangesRelation::IsMet => {
                        let end = self.end().expect("Self meets without bounds");
                        let start = other.start().expect("Other meets without bounds");
                        Some(ContinuousRange::from_bounds((start, end)))
                    },
                    RangesRelation::Overlaps => {
                        let start = self.start().expect("Self meets without bounds");
                        let end = other.end().expect("Other meets without bounds");
                        Some(ContinuousRange::from_bounds((start, end)))
                    },
                    RangesRelation::IsOverlapped => {
                        let end = self.end().expect("Self meets without bounds");
                        let start = other.start().expect("Other meets without bounds");
                        Some(ContinuousRange::from_bounds((start, end)))
                    },
                    RangesRelation::Starts => Some(*other),
                    RangesRelation::IsStarted => Some(*self),
                    RangesRelation::StrictlyContains => Some(*self),
                    RangesRelation::IsStrictlyContained => Some(*other),
                    RangesRelation::Finishes => Some(*other),
                    RangesRelation::IsFinished => Some(*self),
                    RangesRelation::Equal => Some(*self),
                },
                None => None,
            },
        }
    }

    /// The intersection of two ranges.
    pub fn intersection(&self, other: &ContinuousRange<Idx>) -> (r: ContinuousRange<Idx>)
        ensures
            r == self.spec_intersection(*other),
    {
        match (self, other) {
            (ContinuousRange::Empty, _) | (_, ContinuousRange::Empty) => ContinuousRange::Empty,
            (ContinuousRange::Full, r) | (r, ContinuousRange::Full) => *r,
            _ => match self.compare(other) {
                Some(cmp) => match cmp {
                    RangesRelation::StrictlyBefore => ContinuousRange::Empty,
                    RangesRelation::StrictlyAfter => ContinuousRange::Empty,
                    RangesRelation::Meets => {
                        let end = self.end().value().expect("Self meets without end bound");
                        ContinuousRange::single(end)
                    },
                    RangesRelation::IsMet => {
                        let start = self.start().value().expect(
                            "Self is met without start bound",
                        );
                        ContinuousRange::single(start)
                    },
                    RangesRelation::Overlaps => {
                        let (_, end) = self.range_bounds().expect("Self overlaps without bounds");
                        let (start, _) = other.range_bounds().expect(
                            "Other is overlapped without bounds",
                        );
                        ContinuousRange::from_bounds((start, end))
                    },
                    RangesRelation::IsOverlapped => {
                        let (start, _) = self.range_bounds().expect(
                            "Self is overlapped without bounds",
                        );
                        let (_, end) = other.range_bounds().expect(
                            "Other overlaps without bounds",
                        );
                        ContinuousRange::from_bounds((start, end))
                    },
                    RangesRelation::Starts => *self,
                    RangesRelation::IsStarted => *other,
                    RangesRelation::StrictlyContains => *other,
                    RangesRelation::IsStrictlyContained => *self,
                    RangesRelation::Finishes => *self,
                    RangesRelation::IsFinished => *other,
                    RangesRelation::Equal => *self,
                },
                None => ContinuousRange::Empty,
            },
        }
    }

    /// The difference of two ranges; `None` where it is not a single range.
    pub fn difference(&self, other: &ContinuousRange<Idx>) -> (r: Option<ContinuousRange<Idx>>)
        ensures
            r == self.spec_difference(*other),
    {
        if self.is_empty() {
            return Some(ContinuousRange::Empty);
        }
        if other.is_empty() {
            return Some(*self);
        }
        match self.compare(other) {
            Some(cmp) => match cmp {
                RangesRelation::StrictlyBefore => Some(*self),
                RangesRelation::StrictlyAfter => Some(*self),
                RangesRelation::Equal => Some(ContinuousRange::Empty),
                RangesRelation::IsStrictlyContained => Some(ContinuousRange::Empty),
                RangesRelation::StrictlyContains => None,
                RangesRelation::Meets => {
                    let (start, end) = self.range_bounds().expect("Self meets without bounds");
                    Some(ContinuousRange::from_bounds((start, end.reverse())))
                },
                RangesRelation::IsMet => {
                    let (start, end) = self.range_bounds().expect(
                        "Self is met without bounds",
                    );
                    Some(ContinuousRange::from_bounds((start.reverse(), end)))
                },
                RangesRelation::Overlaps => {
                    let start = self.start().expect("Self overlaps without bounds");
                    let end = other.start().expect("Other is overlapped without bounds");
                    Some(ContinuousRange::from_bounds((start, end.reverse())))
                },
                RangesRelation::IsOverlapped => {
                    let end = self.end().expect("Self is overlapped without bounds");
                    let start = other.end().expect("Other overlaps without bounds");
                    Some(ContinuousRange::from_bounds((start.reverse(), end)))
                },
                RangesRelation::Starts => Some(ContinuousRange::Empty),
                RangesRelation::IsStarted => {
                    let end = self.end().expect("Self is overlapped without bounds");
                    let start = other.end().expect("Other overlaps without bounds");
                    Some(ContinuousRange::from_bounds((start.reverse(), end)))
                },
                RangesRelation::Finishes => Some(ContinuousRange::Empty),
                RangesRelation::IsFinished => {
                    let start = self.start().expect("Self overlaps without bounds");
                    let end = other.start().expect("Other is overlapped without bounds");
                    Some(ContinuousRange::from_bounds((start, end.reverse())))
                },
            },
            None => None,
        }
    }

    /// Whether the two ranges touch or overlap by their bounds. Two empty
    /// ranges compare `Equal` but do not intersect.
    pub fn intersects(&self, other: &ContinuousRange<Idx>) -> (r: bool)
        ensures
            r == self.spec_intersects(*other),
    {
        if self.is_empty() && other.is_empty() {
            false
        } else {
            match self.compare(other) {
                Some(relation) => relation.intersects(),
                None => false,
            }
        }
    }
}

} // verus!
