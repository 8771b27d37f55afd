use vstd::prelude::*;

use core::cmp::Ordering;

use crate::bound::{
    lemma_cmp_bounds_equal, lemma_cmp_bounds_flip, lemma_cmp_bounds_refl, lemma_cmp_bounds_trans,
    spec_cmp_bounds, Bound, BoundSide,
};
use crate::continuous::ContinuousRange;
use crate::order::{is_le, Ordered};
use crate::relation::RangesRelation;

verus! {

/// `a <= b <= c` between endpoints gives `a <= c`, and `a < c` as soon as
/// one of the two steps is strict.
proof fn lemma_bounds_chain<T: Ordered>(
    a: Bound<T>,
    sa: BoundSide,
    b: Bound<T>,
    sb: BoundSide,
    c: Bound<T>,
    sc: BoundSide,
)
    requires
        is_le(spec_cmp_bounds(a, sa, b, sb)),
        is_le(spec_cmp_bounds(b, sb, c, sc)),
    ensures
        is_le(spec_cmp_bounds(a, sa, c, sc)),
        spec_cmp_bounds(a, sa, b, sb) == Some(Ordering::Less) ==> spec_cmp_bounds(a, sa, c, sc)
            == Some(Ordering::Less),
        spec_cmp_bounds(b, sb, c, sc) == Some(Ordering::Less) ==> spec_cmp_bounds(a, sa, c, sc)
            == Some(Ordering::Less),
{
    if spec_cmp_bounds(a, sa, b, sb) == Some(Ordering::Equal) {
        lemma_cmp_bounds_equal(a, sa, b, sb, c, sc);
    } else if spec_cmp_bounds(b, sb, c, sc) == Some(Ordering::Equal) {
        lemma_cmp_bounds_flip(b, sb, c, sc);
        lemma_cmp_bounds_equal(c, sc, b, sb, a, sa);
    } else {
        lemma_cmp_bounds_trans(a, sa, b, sb, c, sc);
    }
}

/// Over a total order every range has its ends in order.
pub proof fn lemma_total_order_ends_ordered<Idx: Ordered>(r: ContinuousRange<Idx>)
    requires
        forall|x: Idx, y: Idx| (#[trigger] x.spec_partial_cmp(&y)) is Some,
    ensures
        r.ends_ordered(),
{
    if !r.spec_is_empty() {
        let (s, e) = (r.lower().spec_value(), r.upper().spec_value());
        Idx::lemma_order_laws(s, e, e);
        Idx::lemma_order_laws(e, s, s);
        assert(s.spec_partial_cmp(&e) is Some);
    }
}

/// On two non-empty ranges whose bounds can all be compared, `compare`
/// always names a relation: no combination of bound comparisons is left
/// without one.
pub proof fn lemma_compare_defined<Idx: Ordered>(a: ContinuousRange<Idx>, b: ContinuousRange<Idx>)
    requires
        !a.spec_is_empty(),
        !b.spec_is_empty(),
        spec_cmp_bounds(a.upper(), BoundSide::End, b.lower(), BoundSide::Start) is Some,
        spec_cmp_bounds(a.lower(), BoundSide::Start, b.upper(), BoundSide::End) is Some,
        spec_cmp_bounds(a.lower(), BoundSide::Start, a.upper(), BoundSide::End) is Some,
        spec_cmp_bounds(b.lower(), BoundSide::Start, b.upper(), BoundSide::End) is Some,
        spec_cmp_bounds(a.lower(), BoundSide::Start, b.lower(), BoundSide::Start) is Some,
        spec_cmp_bounds(a.upper(), BoundSide::End, b.upper(), BoundSide::End) is Some,
    ensures
        a.spec_compare(b) is Some,
{
    let (al, au, bl, bu) = (a.lower(), a.upper(), b.lower(), b.upper());
    let (s, e) = (BoundSide::Start, BoundSide::End);
    if spec_cmp_bounds(al, s, au, e) == Some(Ordering::Equal) {
        lemma_cmp_bounds_equal(al, s, au, e, bl, s);
        lemma_cmp_bounds_equal(al, s, au, e, bu, e);
    }
    if spec_cmp_bounds(bl, s, bu, e) == Some(Ordering::Equal) {
        lemma_cmp_bounds_equal(bl, s, bu, e, au, e);
        lemma_cmp_bounds_equal(bl, s, bu, e, al, s);
    }
}

/// `compare` seen from the other operand: swapping the two ranges turns
/// each relation into its mirror image (`StrictlyBefore` and
/// `StrictlyAfter`, `Meets` and `IsMet`, `Overlaps` and `IsOverlapped`,
/// `Starts` and `IsStarted`, `Finishes` and `IsFinished`, `StrictlyContains`
/// and `IsStrictlyContained`; `Equal` stays), and no relation stays none.
/// Holds of every pair of ranges whose ends are in order.
pub proof fn lemma_compare_symmetric<Idx: Ordered>(
    a: ContinuousRange<Idx>,
    b: ContinuousRange<Idx>,
)
    requires
        a.ends_ordered(),
        b.ends_ordered(),
    ensures
        b.spec_compare(a) == match a.spec_compare(b) {
            Some(relation) => Some(relation.mirror()),
            None => None,
        },
{
    let (al, au, bl, bu) = (a.lower(), a.upper(), b.lower(), b.upper());
    let (s, e) = (BoundSide::Start, BoundSide::End);
    lemma_cmp_bounds_flip(au, e, bl, s);
    lemma_cmp_bounds_flip(al, s, bu, e);
    lemma_cmp_bounds_flip(al, s, bl, s);
    lemma_cmp_bounds_flip(au, e, bu, e);
    if !a.spec_is_empty() && !b.spec_is_empty() {
        let es = spec_cmp_bounds(au, e, bl, s);
        let se = spec_cmp_bounds(al, s, bu, e);
        if es == Some(Ordering::Less) {
            lemma_bounds_chain(al, s, au, e, bl, s);
            lemma_bounds_chain(al, s, bl, s, bu, e);
        }
        if se == Some(Ordering::Greater) {
            lemma_bounds_chain(bl, s, bu, e, al, s);
            lemma_bounds_chain(bl, s, al, s, au, e);
        }
        if es == Some(Ordering::Equal) && se == Some(Ordering::Equal) {
            lemma_cmp_bounds_equal(au, e, bl, s, al, s);
            lemma_cmp_bounds_equal(al, s, bu, e, bl, s);
            lemma_cmp_bounds_flip(bl, s, bu, e);
        }
    }
}

/// Value containment agrees with relation containment: a range contains a
/// value exactly when `compare` puts it in a relation that covers the single
/// point of that value.
pub proof fn lemma_contains_agrees_with_compare<Idx: Ordered>(a: ContinuousRange<Idx>, v: Idx)
    ensures
        a.spec_contains(v) <==> match a.spec_compare(ContinuousRange::Single(v)) {
            Some(relation) => relation.spec_contains(),
            None => false,
        },
{
    let (al, au, pv) = (a.lower(), a.upper(), Bound::Included(v));
    let (s, e) = (BoundSide::Start, BoundSide::End);
    lemma_cmp_bounds_refl(pv, s);
    lemma_cmp_bounds_flip(pv, s, pv, e);
    Idx::lemma_order_laws(v, v, v);
    lemma_cmp_bounds_equal(pv, s, pv, e, al, s);
    lemma_cmp_bounds_equal(pv, s, pv, e, au, e);
    lemma_cmp_bounds_flip(al, s, pv, e);
    lemma_cmp_bounds_flip(au, e, pv, s);
    lemma_chain_when(al, s, pv, s, au, e);
    if a.spec_is_empty() {
        lemma_empty_holds_nothing(a, v);
    }
}

/// Normalising twice is normalising once.
pub proof fn lemma_simplify_idempotent<Idx: Ordered>(x: ContinuousRange<Idx>)
    ensures
        x.spec_simplify().spec_simplify() == x.spec_simplify(),
{
}

/// `Full` absorbs in a union and is neutral in an intersection; `Empty` is
/// neutral in a union and absorbs in an intersection.
pub proof fn lemma_absorbing<Idx: Ordered>(x: ContinuousRange<Idx>)
    ensures
        x.spec_union(ContinuousRange::Full) == Some(ContinuousRange::<Idx>::Full),
        x.spec_union(ContinuousRange::Empty) == Some(x),
        x.spec_intersection(ContinuousRange::Empty) == ContinuousRange::<Idx>::Empty,
        x.spec_intersection(ContinuousRange::Full) == x,
{
}

/// Building a range from a pair of bounds and reading its bounds back gives
/// the same pair, whenever the range built is not empty.
pub proof fn lemma_from_bounds_round_trip<Idx: Ordered>(bounds: (Bound<Idx>, Bound<Idx>))
    ensures
        !(ContinuousRange::spec_from_bounds(bounds) is Empty) ==> ContinuousRange::spec_from_bounds(
            bounds,
        ).spec_range_bounds() == Some(bounds),
{
    if bounds.0 is Included && bounds.1 is Included {
        let (x, y) = (bounds.0.spec_value(), bounds.1.spec_value());
        Idx::lemma_order_laws(x, y, y);
    }
}

/// Reading the bounds of a non-empty normalised range and building a range
/// from them gives the same range back.
pub proof fn lemma_range_bounds_round_trip<Idx: Ordered>(x: ContinuousRange<Idx>)
    requires
        !(x is Empty),
        x.spec_simplify() == x,
    ensures
        ContinuousRange::spec_from_bounds((x.lower(), x.upper())) == x,
{
    if x is Single {
        let v = x.lower().spec_value();
        Idx::lemma_order_laws(v, v, v);
    }
}

/// `v` lies at or after the start bound `s` and at or before the end
/// bound `e`.
pub open spec fn between_bounds<Idx: Ordered>(s: Bound<Idx>, e: Bound<Idx>, v: Idx) -> bool {
    is_le(spec_cmp_bounds(s, BoundSide::Start, Bound::Included(v), BoundSide::Start)) && is_le(
        spec_cmp_bounds(Bound::Included(v), BoundSide::End, e, BoundSide::End),
    )
}

/// The range built from two bounds holds exactly the values between them.
proof fn lemma_from_bounds_contains<Idx: Ordered>(s: Bound<Idx>, e: Bound<Idx>, v: Idx)
    ensures
        ContinuousRange::spec_from_bounds((s, e)).spec_contains(v) <==> between_bounds(s, e, v),
{
    let r = ContinuousRange::spec_from_bounds((s, e));
    let pv = Bound::Included(v);
    let (st, en) = (BoundSide::Start, BoundSide::End);
    lemma_cmp_bounds_refl(pv, st);
    if !(s is Unbounded) && !(e is Unbounded) {
        let (x, y) = (s.spec_value(), e.spec_value());
        Idx::lemma_order_laws(x, y, v);
        Idx::lemma_order_laws(x, v, y);
        Idx::lemma_order_laws(v, y, x);
        if between_bounds(s, e, v) {
            lemma_cmp_bounds_flip(pv, st, pv, en);
            lemma_cmp_bounds_equal(pv, st, pv, en, e, en);
            lemma_bounds_chain(s, st, pv, st, e, en);
            lemma_cmp_bounds_flip(s, st, e, en);
        }
        if r is Single {
            Idx::lemma_order_laws(x, x, x);
        }
    }
}

/// `lemma_bounds_chain` where its premises hold.
proof fn lemma_chain_when<T: Ordered>(
    a: Bound<T>,
    sa: BoundSide,
    b: Bound<T>,
    sb: BoundSide,
    c: Bound<T>,
    sc: BoundSide,
)
    ensures
        is_le(spec_cmp_bounds(a, sa, b, sb)) && is_le(spec_cmp_bounds(b, sb, c, sc)) ==> is_le(
            spec_cmp_bounds(a, sa, c, sc),
        ) && (spec_cmp_bounds(a, sa, b, sb) == Some(Ordering::Less) || spec_cmp_bounds(b, sb, c, sc)
            == Some(Ordering::Less) ==> spec_cmp_bounds(a, sa, c, sc) == Some(Ordering::Less)),
{
    if is_le(spec_cmp_bounds(a, sa, b, sb)) && is_le(spec_cmp_bounds(b, sb, c, sc)) {
        lemma_bounds_chain(a, sa, b, sb, c, sc);
    }
}

/// `lemma_cmp_bounds_equal` where its premise holds.
proof fn lemma_equal_when<T: Ordered>(
    a: Bound<T>,
    sa: BoundSide,
    b: Bound<T>,
    sb: BoundSide,
    c: Bound<T>,
    sc: BoundSide,
)
    ensures
        spec_cmp_bounds(a, sa, b, sb) == Some(Ordering::Equal) ==> spec_cmp_bounds(a, sa, c, sc)
            == spec_cmp_bounds(b, sb, c, sc) && spec_cmp_bounds(c, sc, a, sa) == spec_cmp_bounds(
            c,
            sc,
            b,
            sb,
        ),
{
    if spec_cmp_bounds(a, sa, b, sb) == Some(Ordering::Equal) {
        lemma_cmp_bounds_equal(a, sa, b, sb, c, sc);
    }
}

/// Over a total order any two endpoints are ordered.
proof fn lemma_bounds_total<T: Ordered>(a: Bound<T>, sa: BoundSide, b: Bound<T>, sb: BoundSide)
    requires
        forall|x: T, y: T| (#[trigger] x.spec_partial_cmp(&y)) is Some,
    ensures
        spec_cmp_bounds(a, sa, b, sb) is Some,
{
    if !(a is Unbounded) && !(b is Unbounded) {
        assert(a.spec_value().spec_partial_cmp(&b.spec_value()) is Some);
    }
}

/// A range that is empty holds no value.
pub proof fn lemma_empty_holds_nothing<Idx: Ordered>(a: ContinuousRange<Idx>, v: Idx)
    requires
        a.spec_is_empty(),
    ensures
        !a.spec_contains(v),
{
    let (al, au, pv) = (a.lower(), a.upper(), Bound::Included(v));
    let (s, e) = (BoundSide::Start, BoundSide::End);
    if a.spec_contains(v) {
        lemma_cmp_bounds_refl(pv, s);
        lemma_cmp_bounds_flip(pv, s, pv, e);
        lemma_cmp_bounds_equal(pv, s, pv, e, au, e);
        lemma_bounds_chain(al, s, pv, s, au, e);
        lemma_cmp_bounds_flip(al, s, au, e);
        let (x, y) = (al.spec_value(), au.spec_value());
        Idx::lemma_order_laws(x, y, y);
    }
}

/// Over a total order, the intersection of two ranges holds exactly the
/// values that both of them hold.
pub proof fn lemma_intersection_contains<Idx: Ordered>(
    a: ContinuousRange<Idx>,
    b: ContinuousRange<Idx>,
    v: Idx,
)
    requires
        forall|x: Idx, y: Idx| (#[trigger] x.spec_partial_cmp(&y)) is Some,
    ensures
        a.spec_intersection(b).spec_contains(v) <==> (a.spec_contains(v) && b.spec_contains(v)),
{
    let (al, au, bl, bu, pv) = (a.lower(), a.upper(), b.lower(), b.upper(), Bound::Included(v));
    let (s, e) = (BoundSide::Start, BoundSide::End);
    lemma_total_order_ends_ordered(a);
    lemma_total_order_ends_ordered(b);
    lemma_cmp_bounds_refl(pv, s);
    lemma_cmp_bounds_flip(pv, s, pv, e);
    lemma_cmp_bounds_equal(pv, s, pv, e, al, s);
    lemma_cmp_bounds_equal(pv, s, pv, e, au, e);
    lemma_cmp_bounds_equal(pv, s, pv, e, bl, s);
    lemma_cmp_bounds_equal(pv, s, pv, e, bu, e);
    lemma_cmp_bounds_flip(au, e, bl, s);
    lemma_cmp_bounds_flip(al, s, bu, e);
    lemma_cmp_bounds_flip(al, s, bl, s);
    lemma_cmp_bounds_flip(au, e, bu, e);
    lemma_cmp_bounds_flip(al, s, pv, s);
    lemma_cmp_bounds_flip(bl, s, pv, s);
    lemma_cmp_bounds_flip(pv, e, au, e);
    lemma_cmp_bounds_flip(pv, e, bu, e);
    if a.spec_is_empty() {
        lemma_empty_holds_nothing(a, v);
    }
    if b.spec_is_empty() {
        lemma_empty_holds_nothing(b, v);
    }
    if a.spec_is_empty() && b.spec_is_empty() && !(a is Empty) && !(b is Empty) {
        lemma_empty_holds_nothing(a.spec_intersection(b), v);
    }
    if !a.spec_is_empty() && !b.spec_is_empty() && !(a is Full) && !(b is Full) {
        lemma_bounds_total(au, e, bl, s);
        lemma_bounds_total(al, s, bu, e);
        lemma_bounds_total(al, s, bl, s);
        lemma_bounds_total(au, e, bu, e);
        lemma_chain_when(pv, e, au, e, bl, s);
        lemma_chain_when(pv, e, bu, e, al, s);
        lemma_chain_when(al, s, bl, s, pv, s);
        lemma_chain_when(bl, s, al, s, pv, s);
        lemma_chain_when(pv, e, au, e, bu, e);
        lemma_chain_when(pv, e, bu, e, au, e);
        lemma_chain_when(al, s, pv, s, au, e);
        lemma_chain_when(bl, s, pv, s, bu, e);
        lemma_equal_when(al, s, bl, s, pv, s);
        lemma_equal_when(au, e, bu, e, pv, e);
        lemma_equal_when(au, e, bl, s, pv, s);
        lemma_equal_when(al, s, bu, e, pv, s);
        lemma_from_bounds_contains(bl, au, v);
        lemma_from_bounds_contains(al, bu, v);
        match a.spec_compare(b) {
            Some(RangesRelation::Meets) => {
                let u = au.spec_value();
                Idx::lemma_order_laws(u, v, v);
                Idx::lemma_order_laws(v, u, u);
                lemma_cmp_bounds_refl(au, e);
                lemma_cmp_bounds_flip(au, e, bl, s);
                lemma_chain_when(bl, s, au, e, bu, e);
                assert(au is Included);
                lemma_equal_when(pv, e, au, e, al, s);
                lemma_equal_when(pv, e, au, e, bu, e);
                lemma_equal_when(pv, e, au, e, bl, s);
                lemma_cmp_bounds_flip(pv, e, au, e);
                lemma_equal_when(au, e, bl, s, bu, e);
            },
            Some(RangesRelation::IsMet) => {
                let u = al.spec_value();
                Idx::lemma_order_laws(u, v, v);
                Idx::lemma_order_laws(v, u, u);
                lemma_cmp_bounds_refl(al, s);
                lemma_cmp_bounds_flip(al, s, bu, e);
                lemma_chain_when(bl, s, al, s, bu, e);
                lemma_chain_when(bl, s, bu, e, al, s);
                assert(al is Included);
                lemma_equal_when(pv, s, al, s, au, e);
                lemma_equal_when(pv, s, al, s, bu, e);
                lemma_equal_when(pv, s, al, s, bl, s);
                lemma_cmp_bounds_flip(pv, s, al, s);
                lemma_equal_when(al, s, bu, e, bl, s);
            },
            _ => {},
        }
    }
}

/// Over a total order, where two ranges have a single range as their
/// union, it holds exactly the values that either of them holds.
pub proof fn lemma_union_contains<Idx: Ordered>(
    a: ContinuousRange<Idx>,
    b: ContinuousRange<Idx>,
    v: Idx,
)
    requires
        forall|x: Idx, y: Idx| (#[trigger] x.spec_partial_cmp(&y)) is Some,
    ensures
        a.spec_union(b) matches Some(r) ==> (r.spec_contains(v) <==> (a.spec_contains(v)
            || b.spec_contains(v))),
{
    let (al, au, bl, bu, pv) = (a.lower(), a.upper(), b.lower(), b.upper(), Bound::Included(v));
    let (s, e) = (BoundSide::Start, BoundSide::End);
    lemma_total_order_ends_ordered(a);
    lemma_total_order_ends_ordered(b);
    lemma_cmp_bounds_refl(pv, s);
    lemma_cmp_bounds_flip(pv, s, pv, e);
    lemma_cmp_bounds_equal(pv, s, pv, e, al, s);
    lemma_cmp_bounds_equal(pv, s, pv, e, au, e);
    lemma_cmp_bounds_equal(pv, s, pv, e, bl, s);
    lemma_cmp_bounds_equal(pv, s, pv, e, bu, e);
    lemma_cmp_bounds_flip(au, e, bl, s);
    lemma_cmp_bounds_flip(al, s, bu, e);
    lemma_cmp_bounds_flip(al, s, bl, s);
    lemma_cmp_bounds_flip(au, e, bu, e);
    lemma_cmp_bounds_flip(al, s, pv, s);
    lemma_cmp_bounds_flip(bl, s, pv, s);
    lemma_cmp_bounds_flip(pv, e, au, e);
    lemma_cmp_bounds_flip(pv, e, bu, e);
    if a.spec_is_empty() {
        lemma_empty_holds_nothing(a, v);
    }
    if b.spec_is_empty() {
        lemma_empty_holds_nothing(b, v);
    }
    if !a.spec_is_empty() && !b.spec_is_empty() && !(a is Full) && !(b is Full) {
        lemma_bounds_total(au, e, bl, s);
        lemma_bounds_total(al, s, bu, e);
        lemma_bounds_total(al, s, bl, s);
        lemma_bounds_total(au, e, bu, e);
        lemma_bounds_total(pv, e, au, e);
        lemma_bounds_total(pv, e, bu, e);
        lemma_bounds_total(al, s, pv, s);
        lemma_bounds_total(bl, s, pv, s);
        lemma_from_bounds_contains(al, bu, v);
        lemma_from_bounds_contains(bl, au, v);
        lemma_chain_when(al, s, au, e, bl, s);
        lemma_chain_when(au, e, bl, s, bu, e);
        lemma_chain_when(pv, e, au, e, bu, e);
        lemma_chain_when(al, s, bl, s, pv, s);
        lemma_chain_when(bl, s, au, e, pv, e);
        lemma_chain_when(bl, s, bu, e, al, s);
        lemma_chain_when(bu, e, al, s, au, e);
        lemma_chain_when(pv, e, bu, e, au, e);
        lemma_chain_when(bl, s, al, s, pv, s);
        lemma_chain_when(al, s, bu, e, pv, e);
        lemma_equal_when(au, e, bl, s, pv, s);
        lemma_equal_when(au, e, bl, s, bu, e);
        lemma_equal_when(au, e, bl, s, al, s);
        lemma_equal_when(al, s, bu, e, pv, s);
        lemma_equal_when(al, s, bu, e, bl, s);
        lemma_equal_when(al, s, bu, e, au, e);
        lemma_equal_when(al, s, bl, s, pv, s);
        lemma_equal_when(au, e, bu, e, pv, e);
    }
}

/// Over a total order, a value lies at or before the reversed bound `x`
/// taken as an end exactly when it does not lie at or after `x` taken as a
/// start, and at or after reversed `x` taken as a start exactly when it does
/// not lie at or before `x` taken as an end.
proof fn lemma_reversed_bound<Idx: Ordered>(x: Bound<Idx>, v: Idx)
    requires
        forall|p: Idx, q: Idx| (#[trigger] p.spec_partial_cmp(&q)) is Some,
        !(x is Unbounded),
    ensures
        is_le(spec_cmp_bounds(Bound::Included(v), BoundSide::End, x.reversed(), BoundSide::End))
            <==> !is_le(spec_cmp_bounds(x, BoundSide::Start, Bound::Included(v), BoundSide::Start)),
        is_le(spec_cmp_bounds(x.reversed(), BoundSide::Start, Bound::Included(v), BoundSide::Start))
            <==> !is_le(spec_cmp_bounds(Bound::Included(v), BoundSide::End, x, BoundSide::End)),
{
    let w = x.spec_value();
    Idx::lemma_order_laws(v, w, w);
    Idx::lemma_order_laws(w, v, v);
    assert(v.spec_partial_cmp(&w) is Some);
}

/// Over a total order, where the difference of two ranges is a single
/// range, it holds exactly the values of the first range that the second
/// one does not hold.
pub proof fn lemma_difference_contains<Idx: Ordered>(
    a: ContinuousRange<Idx>,
    b: ContinuousRange<Idx>,
    v: Idx,
)
    requires
        forall|x: Idx, y: Idx| (#[trigger] x.spec_partial_cmp(&y)) is Some,
    ensures
        a.spec_difference(b) matches Some(r) ==> (r.spec_contains(v) <==> (a.spec_contains(v)
            && !b.spec_contains(v))),
{
    let (al, au, bl, bu, pv) = (a.lower(), a.upper(), b.lower(), b.upper(), Bound::Included(v));
    let (s, e) = (BoundSide::Start, BoundSide::End);
    lemma_total_order_ends_ordered(a);
    lemma_total_order_ends_ordered(b);
    lemma_cmp_bounds_refl(pv, s);
    lemma_cmp_bounds_flip(pv, s, pv, e);
    lemma_cmp_bounds_equal(pv, s, pv, e, al, s);
    lemma_cmp_bounds_equal(pv, s, pv, e, au, e);
    lemma_cmp_bounds_equal(pv, s, pv, e, bl, s);
    lemma_cmp_bounds_equal(pv, s, pv, e, bu, e);
    lemma_cmp_bounds_flip(au, e, bl, s);
    lemma_cmp_bounds_flip(al, s, bu, e);
    lemma_cmp_bounds_flip(al, s, bl, s);
    lemma_cmp_bounds_flip(au, e, bu, e);
    lemma_cmp_bounds_flip(al, s, pv, s);
    lemma_cmp_bounds_flip(bl, s, pv, s);
    lemma_cmp_bounds_flip(pv, e, au, e);
    lemma_cmp_bounds_flip(pv, e, bu, e);
    if a.spec_is_empty() {
        lemma_empty_holds_nothing(a, v);
    }
    if b.spec_is_empty() {
        lemma_empty_holds_nothing(b, v);
    }
    if !a.spec_is_empty() && !b.spec_is_empty() {
        lemma_bounds_total(au, e, bl, s);
        lemma_bounds_total(al, s, bu, e);
        lemma_bounds_total(al, s, bl, s);
        lemma_bounds_total(au, e, bu, e);
        lemma_bounds_total(pv, e, au, e);
        lemma_bounds_total(pv, e, bu, e);
        lemma_bounds_total(al, s, pv, s);
        lemma_bounds_total(bl, s, pv, s);
        lemma_chain_when(pv, e, au, e, bl, s);
        lemma_chain_when(pv, e, bu, e, al, s);
        lemma_chain_when(al, s, bl, s, pv, s);
        lemma_chain_when(bl, s, al, s, pv, s);
        lemma_chain_when(pv, e, au, e, bu, e);
        lemma_chain_when(pv, e, bu, e, au, e);
        lemma_chain_when(bl, s, pv, s, au, e);
        lemma_chain_when(al, s, pv, s, bu, e);
        lemma_equal_when(al, s, bl, s, pv, s);
        lemma_equal_when(au, e, bu, e, pv, e);
        lemma_equal_when(au, e, bl, s, pv, s);
        lemma_equal_when(al, s, bu, e, pv, s);
        lemma_equal_when(au, e, bl, s, bu, e);
        lemma_equal_when(al, s, bu, e, bl, s);
        match a.spec_compare(b) {
            Some(RangesRelation::Meets) => {
                Idx::lemma_order_laws(au.spec_value(), bl.spec_value(), bl.spec_value());
                assert(au == bl);
                lemma_reversed_bound(bl, v);
                lemma_from_bounds_contains(al, au.reversed(), v);
            },
            Some(RangesRelation::IsMet) => {
                Idx::lemma_order_laws(al.spec_value(), bu.spec_value(), bu.spec_value());
                assert(al == bu);
                lemma_reversed_bound(bu, v);
                lemma_from_bounds_contains(al.reversed(), au, v);
            },
            Some(RangesRelation::Overlaps) | Some(RangesRelation::IsFinished) => {
                lemma_reversed_bound(bl, v);
                lemma_from_bounds_contains(al, bl.reversed(), v);
                lemma_chain_when(pv, e, bl, s, au, e);
            },
            Some(RangesRelation::IsOverlapped) | Some(RangesRelation::IsStarted) => {
                lemma_reversed_bound(bu, v);
                lemma_from_bounds_contains(bu.reversed(), au, v);
                lemma_chain_when(al, s, bu, e, pv, e);
            },
            _ => {},
        }
    }
}

/// Over a total order, two non-empty ranges name a relation, so
/// `difference` gives no range exactly when the second range lies strictly
/// inside the first, and `union` gives none exactly when the ranges lie
/// apart.
pub proof fn lemma_none_only_when_split_or_apart<Idx: Ordered>(
    a: ContinuousRange<Idx>,
    b: ContinuousRange<Idx>,
)
    requires
        forall|x: Idx, y: Idx| (#[trigger] x.spec_partial_cmp(&y)) is Some,
    ensures
        a.spec_difference(b) is None <==> (!a.spec_is_empty() && !b.spec_is_empty()
            && a.spec_compare(b) == Some(RangesRelation::StrictlyContains)),
        a.spec_union(b) is None <==> (!a.spec_is_empty() && !b.spec_is_empty() && (a.spec_compare(
            b,
        ) == Some(RangesRelation::StrictlyBefore) || a.spec_compare(b) == Some(
            RangesRelation::StrictlyAfter,
        ))),
{
    if !a.spec_is_empty() && !b.spec_is_empty() {
        let (al, au, bl, bu) = (a.lower(), a.upper(), b.lower(), b.upper());
        let (s, e) = (BoundSide::Start, BoundSide::End);
        lemma_bounds_total(au, e, bl, s);
        lemma_bounds_total(al, s, bu, e);
        lemma_bounds_total(al, s, au, e);
        lemma_bounds_total(bl, s, bu, e);
        lemma_bounds_total(al, s, bl, s);
        lemma_bounds_total(au, e, bu, e);
        lemma_compare_defined(a, b);
    }
}

} // verus!
