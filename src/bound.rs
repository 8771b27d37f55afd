use vstd::prelude::*;

use core::cmp::Ordering;

use crate::order::{flip, int_cmp, Ordered};

verus! {

/// One end of an interval: a value that belongs to it, a value that does
/// not, or no limit at all.
#[derive(Clone, Copy, Debug, PartialEq, Eq, Hash)]
pub enum Bound<T> {
    Included(T),
    Excluded(T),
    Unbounded,
}

/// Whether an endpoint opens or closes its interval.
#[derive(Clone, Copy, Debug, PartialEq, Eq, Hash, Structural)]
pub enum BoundSide {
    Start,
    End,
}

/// An endpoint of a continuous range, absent for an empty range.
pub struct ContinuousBound<T>(pub Option<Bound<T>>);

impl<T> View for ContinuousBound<T> {
    type V = Option<Bound<T>>;

    open spec fn view(&self) -> Option<Bound<T>> {
        self.0
    }
}

impl<T> ContinuousBound<T> {
    /// Create a new bound
    pub fn new(bound: Option<Bound<T>>) -> (r: Self)
        ensures
            r@ == bound,
    {
        ContinuousBound(bound)
    }

    /// Get the bound
    pub fn bound(&self) -> (r: Option<Bound<T>>)
        where
            T: Copy,
        ensures
            r == self@,
    {
        self.0
    }

    /// Take the bound out
    pub fn into_inner(self) -> (r: Option<Bound<T>>)
        ensures
            r == self@,
    {
        self.0
    }

    /// The value of an included or excluded bound
    pub fn value(&self) -> (r: Option<T>)
        where
            T: Copy,
        ensures
            r == (match self@ {
                Some(Bound::Included(x)) => Some(x),
                Some(Bound::Excluded(x)) => Some(x),
                _ => None,
            }),
    {
        match self.0 {
            Some(Bound::Included(x)) | Some(Bound::Excluded(x)) => Some(x),
            _ => None,
        }
    }

    /// The bound, which must be present
    pub fn unwrap(self) -> (r: Bound<T>)
        requires
            self@ is Some,
        ensures
            self@ == Some(r),
    {
        self.0.unwrap()
    }

    /// The bound, which must be present; `msg` describes the caller's
    /// expectation
    pub fn expect(self, msg: &str) -> (r: Bound<T>)
        requires
            self@ is Some,
        ensures
            self@ == Some(r),
    {
        self.0.expect(msg)
    }
}

impl<T> From<ContinuousBound<T>> for Option<Bound<T>> {
    fn from(bound: ContinuousBound<T>) -> (r: Self) {
        bound.0
    }
}

impl<T> vstd::std_specs::convert::FromSpecImpl<ContinuousBound<T>> for Option<Bound<T>> {
    open spec fn obeys_from_spec() -> bool {
        true
    }

    open spec fn from_spec(bound: ContinuousBound<T>) -> Self {
        bound@
    }
}

impl<T> From<Option<Bound<T>>> for ContinuousBound<T> {
    fn from(bound: Option<Bound<T>>) -> (r: Self) {
        ContinuousBound(bound)
    }
}

impl<T> vstd::std_specs::convert::FromSpecImpl<Option<Bound<T>>> for ContinuousBound<T> {
    open spec fn obeys_from_spec() -> bool {
        true
    }

    open spec fn from_spec(bound: Option<Bound<T>>) -> Self {
        ContinuousBound(bound)
    }
}

impl<T> From<Bound<T>> for ContinuousBound<T> {
    fn from(bound: Bound<T>) -> (r: Self) {
        ContinuousBound(Some(bound))
    }
}

impl<T> vstd::std_specs::convert::FromSpecImpl<Bound<T>> for ContinuousBound<T> {
    open spec fn obeys_from_spec() -> bool {
        true
    }

    open spec fn from_spec(bound: Bound<T>) -> Self {
        ContinuousBound(Some(bound))
    }
}

impl<T> TryFrom<ContinuousBound<T>> for Bound<T> {
    type Error = ();

    fn try_from(bound: ContinuousBound<T>) -> (r: Result<Self, Self::Error>) {
        match bound.0 {
            Some(val) => Ok(val),
            None => Err(()),
        }
    }
}

impl<T> vstd::std_specs::convert::TryFromSpecImpl<ContinuousBound<T>> for Bound<T> {
    open spec fn obeys_try_from_spec() -> bool {
        true
    }

    open spec fn try_from_spec(bound: ContinuousBound<T>) -> Result<Self, ()> {
        match bound@ {
            Some(val) => Ok(val),
            None => Err(()),
        }
    }
}

impl<T> Bound<T> {
    /// The value that an included or excluded endpoint carries.
    pub open spec fn spec_value(self) -> T
        recommends
            !(self is Unbounded),
    {
        match self {
            Bound::Included(v) => v,
            Bound::Excluded(v) => v,
            Bound::Unbounded => arbitrary(),
        }
    }
}

impl<T: Copy> Bound<T> {
    /// The bound with its inclusion reversed: included becomes excluded and
    /// excluded becomes included; unbounded stays.
    pub open spec fn reversed(self) -> Bound<T> {
        match self {
            Bound::Included(v) => Bound::Excluded(v),
            Bound::Excluded(v) => Bound::Included(v),
            Bound::Unbounded => Bound::Unbounded,
        }
    }

    /// Reverse a bound between `Included` and `Excluded`; `Unbounded` is
    /// kept as-is.
    pub fn reverse(self) -> (r: Bound<T>)
        ensures
            r == self.reversed(),
    {
        match self {
            Bound::Included(v) => Bound::Excluded(v),
            Bound::Excluded(v) => Bound::Included(v),
            Bound::Unbounded => Bound::Unbounded,
        }
    }
}

/// Where an endpoint lies next to its own value: an excluded start lies
/// just after it, an excluded end just before it, an included endpoint on it.
pub open spec fn offset<T>(b: Bound<T>, side: BoundSide) -> int {
    match b {
        Bound::Excluded(_) => if side == BoundSide::Start {
            1
        } else {
            -1
        },
        _ => 0,
    }
}

/// How two endpoints are ordered along the line of values.
///
/// An unbounded start lies before everything and an unbounded end after
/// everything. Two bounded endpoints are ordered by their values first and,
/// on equal values, by their offsets. `None` where the values are unordered.
pub open spec fn spec_cmp_bounds<T: Ordered>(
    this: Bound<T>,
    this_side: BoundSide,
    other: Bound<T>,
    other_side: BoundSide,
) -> Option<Ordering> {
    if this is Unbounded && other is Unbounded {
        if this_side == other_side {
            Some(Ordering::Equal)
        } else if this_side == BoundSide::Start {
            Some(Ordering::Less)
        } else {
            Some(Ordering::Greater)
        }
    } else if this is Unbounded {
        if this_side == BoundSide::Start {
            Some(Ordering::Less)
        } else {
            Some(Ordering::Greater)
        }
    } else if other is Unbounded {
        if other_side == BoundSide::Start {
            Some(Ordering::Greater)
        } else {
            Some(Ordering::Less)
        }
    } else {
        match this.spec_value().spec_partial_cmp(&other.spec_value()) {
            Some(Ordering::Equal) => Some(
                int_cmp(offset(this, this_side), offset(other, other_side)),
            ),
            o => o,
        }
    }
}

/// Compares two endpoints, each with its side.
pub fn partial_cmp_bounds<T: Ordered>(
    this: &Bound<T>,
    this_side: BoundSide,
    other: &Bound<T>,
    other_side: BoundSide,
) -> (r: Option<Ordering>)
    ensures
        r == spec_cmp_bounds(*this, this_side, *other, other_side),
{
    match this {
        Bound::Included(this_value) => match other {
            Bound::Included(other_value) => this_value.partial_cmp_to(other_value),
            Bound::Excluded(other_value) => match this_value.partial_cmp_to(other_value) {
                Some(Ordering::Equal) => match (this_side, other_side) {
                    (BoundSide::Start, BoundSide::Start) => Some(Ordering::Less),
                    (BoundSide::End, BoundSide::End) => Some(Ordering::Greater),
                    (BoundSide::Start, BoundSide::End) => Some(Ordering::Greater),
                    (BoundSide::End, BoundSide::Start) => Some(Ordering::Less),
                },
                o => o,
            },
            Bound::Unbounded => match other_side {
                BoundSide::Start => Some(Ordering::Greater),
                BoundSide::End => Some(Ordering::Less),
            },
        },
        Bound::Excluded(this_value) => match other {
            Bound::Included(other_value) => match this_value.partial_cmp_to(other_value) {
                Some(Ordering::Equal) => match (this_side, other_side) {
                    (BoundSide::Start, BoundSide::Start) => Some(Ordering::Greater),
                    (BoundSide::End, BoundSide::End) => Some(Ordering::Less),
                    (BoundSide::Start, BoundSide::End) => Some(Ordering::Greater),
                    (BoundSide::End, BoundSide::Start) => Some(Ordering::Less),
                },
                o => o,
            },
            Bound::Excluded(other_value) => match this_value.partial_cmp_to(other_value) {
                Some(Ordering::Equal) => match (this_side, other_side) {
                    (BoundSide::Start, BoundSide::Start) => Some(Ordering::Equal),
                    (BoundSide::End, BoundSide::End) => Some(Ordering::Equal),
                    (BoundSide::Start, BoundSide::End) => Some(Ordering::Greater),
                    (BoundSide::End, BoundSide::Start) => Some(Ordering::Less),
                },
                o => o,
            },
            Bound::Unbounded => match other_side {
                BoundSide::Start => Some(Ordering::Greater),
                BoundSide::End => Some(Ordering::Less),
            },
        },
        Bound::Unbounded => match other {
            Bound::Included(_) | Bound::Excluded(_) => match this_side {
                BoundSide::Start => Some(Ordering::Less),
                BoundSide::End => Some(Ordering::Greater),
            },
            Bound::Unbounded => match (this_side, other_side) {
                (BoundSide::Start, BoundSide::Start) => Some(Ordering::Equal),
                (BoundSide::End, BoundSide::End) => Some(Ordering::Equal),
                (BoundSide::Start, BoundSide::End) => Some(Ordering::Less),
                (BoundSide::End, BoundSide::Start) => Some(Ordering::Greater),
            },
        },
    }
}

/// Swapping two endpoints flips their comparison.
pub proof fn lemma_cmp_bounds_flip<T: Ordered>(a: Bound<T>, sa: BoundSide, b: Bound<T>, sb: BoundSide)
    ensures
        spec_cmp_bounds(b, sb, a, sa) == flip(spec_cmp_bounds(a, sa, b, sb)),
{
    if !(a is Unbounded) && !(b is Unbounded) {
        T::lemma_order_laws(a.spec_value(), b.spec_value(), b.spec_value());
    }
}

/// Two endpoints that compare `Equal` lie at the same place: each compares
/// to any third endpoint as the other does.
pub proof fn lemma_cmp_bounds_equal<T: Ordered>(
    a: Bound<T>,
    sa: BoundSide,
    b: Bound<T>,
    sb: BoundSide,
    c: Bound<T>,
    sc: BoundSide,
)
    requires
        spec_cmp_bounds(a, sa, b, sb) == Some(Ordering::Equal),
    ensures
        spec_cmp_bounds(a, sa, c, sc) == spec_cmp_bounds(b, sb, c, sc),
        spec_cmp_bounds(c, sc, a, sa) == spec_cmp_bounds(c, sc, b, sb),
{
    if !(a is Unbounded) && !(b is Unbounded) {
        T::lemma_order_laws(a.spec_value(), b.spec_value(), b.spec_value());
        if !(c is Unbounded) {
            T::lemma_order_laws(a.spec_value(), c.spec_value(), c.spec_value());
            T::lemma_order_laws(b.spec_value(), c.spec_value(), c.spec_value());
        }
    }
}

/// An endpoint lies at its own place.
pub proof fn lemma_cmp_bounds_refl<T: Ordered>(a: Bound<T>, sa: BoundSide)
    ensures
        spec_cmp_bounds(a, sa, a, sa) == Some(Ordering::Equal),
{
    if !(a is Unbounded) {
        T::lemma_order_laws(a.spec_value(), a.spec_value(), a.spec_value());
    }
}

/// `Less` between endpoints is transitive.
pub proof fn lemma_cmp_bounds_trans<T: Ordered>(
    a: Bound<T>,
    sa: BoundSide,
    b: Bound<T>,
    sb: BoundSide,
    c: Bound<T>,
    sc: BoundSide,
)
    requires
        spec_cmp_bounds(a, sa, b, sb) == Some(Ordering::Less),
        spec_cmp_bounds(b, sb, c, sc) == Some(Ordering::Less),
    ensures
        spec_cmp_bounds(a, sa, c, sc) == Some(Ordering::Less),
{
    if !(a is Unbounded) && !(b is Unbounded) && !(c is Unbounded) {
        let (x, y, z) = (a.spec_value(), b.spec_value(), c.spec_value());
        T::lemma_order_laws(x, y, z);
        T::lemma_order_laws(x, z, y);
        T::lemma_order_laws(y, z, x);
        T::lemma_order_laws(x, y, y);
        T::lemma_order_laws(y, z, z);
    }
}

} // verus!
