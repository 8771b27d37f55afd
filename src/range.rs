use vstd::prelude::*;

use crate::bound::Bound;
use crate::continuous::ContinuousRange;
use crate::order::Ordered;

verus! {

/// A range of values made of one or more continuous ranges.
#[derive(Clone, Debug, PartialEq, Eq, Hash)]
pub enum Range<Idx> {
    /// A single continuous range
    Continuous(ContinuousRange<Idx>),
    /// The union of several continuous ranges
    Composite(Vec<ContinuousRange<Idx>>),
}

impl<Idx> Range<Idx> {
    /// The continuous ranges that make up this one.
    pub open spec fn parts(&self) -> Seq<ContinuousRange<Idx>> {
        match self {
            Range::Continuous(r) => seq![*r],
            Range::Composite(v) => v@,
        }
    }

    /// The continuous range `Empty` itself.
    pub open spec fn is_empty_variant(&self) -> bool {
        *self == Range::Continuous(ContinuousRange::<Idx>::Empty)
    }

    /// The continuous range `Full` itself.
    pub open spec fn is_full_variant(&self) -> bool {
        *self == Range::Continuous(ContinuousRange::<Idx>::Full)
    }

    /// Same variant and same parts.
    pub open spec fn same_as(&self, other: &Range<Idx>) -> bool {
        (*self is Composite) == (*other is Composite) && self.parts() == other.parts()
    }
}

impl<Idx> Default for Range<Idx> {
    fn default() -> (r: Self)
        ensures
            r == Range::Continuous(ContinuousRange::<Idx>::Empty),
    {
        Range::Continuous(ContinuousRange::Empty)
    }
}

impl<Idx> From<ContinuousRange<Idx>> for Range<Idx> {
    fn from(r: ContinuousRange<Idx>) -> (res: Self) {
        Range::Continuous(r)
    }
}

impl<Idx> vstd::std_specs::convert::FromSpecImpl<ContinuousRange<Idx>> for Range<Idx> {
    open spec fn obeys_from_spec() -> bool {
        true
    }

    open spec fn from_spec(r: ContinuousRange<Idx>) -> Self {
        Range::Continuous(r)
    }
}

/// The parts of the non-empty items, in order.
pub open spec fn gathered<Idx: Ordered>(items: Seq<Range<Idx>>) -> Seq<ContinuousRange<Idx>>
    decreases items.len(),
{
    if items.len() == 0 {
        seq![]
    } else if items.last().spec_is_empty() {
        gathered(items.drop_last())
    } else {
        gathered(items.drop_last()) + items.last().parts()
    }
}

/// The index of the first item that is full and not empty, if any.
pub open spec fn first_full<Idx: Ordered>(items: Seq<Range<Idx>>) -> Option<int>
    decreases items.len(),
{
    if items.len() == 0 {
        None
    } else {
        match first_full(items.drop_last()) {
            Some(i) => Some(i),
            None => if !items.last().spec_is_empty() && items.last().spec_is_full() {
                Some(items.len() - 1)
            } else {
                None
            },
        }
    }
}

/// The range made of the given parts: `Empty` for none, the part itself for
/// one, a composite range for more.
pub open spec fn assembled<Idx>(parts: Seq<ContinuousRange<Idx>>, r: Range<Idx>) -> bool {
    if parts.len() == 0 {
        r == Range::Continuous(ContinuousRange::<Idx>::Empty)
    } else if parts.len() == 1 {
        r == Range::Continuous(parts[0])
    } else {
        r is Composite && r.parts() == parts
    }
}

fn copy_parts<Idx: Copy>(v: &Vec<ContinuousRange<Idx>>) -> (r: Vec<ContinuousRange<Idx>>)
    ensures
        r@ == v@,
{
    let mut r: Vec<ContinuousRange<Idx>> = Vec::new();
    let mut i: usize = 0;
    while i < v.len()
        invariant
            i <= v.len(),
            r@ == v@.subrange(0, i as int),
        decreases v.len() - i,
    {
        r.push(v[i]);
        i = i + 1;
    }
    assert(r@ =~= v@);
    r
}

impl<Idx: Ordered> Range<Idx> {
    /// Every part is empty.
    pub open spec fn spec_is_empty(&self) -> bool {
        forall|i: int| 0 <= i < self.parts().len() ==> (#[trigger] self.parts()[i]).spec_is_empty()
    }

    /// Some part is `Full`.
    pub open spec fn spec_is_full(&self) -> bool {
        exists|i: int| 0 <= i < self.parts().len() && (#[trigger] self.parts()[i]) is Full
    }

    /// Some part contains `v`.
    pub open spec fn spec_contains(&self, v: Idx) -> bool {
        exists|i: int|
            0 <= i < self.parts().len() && (#[trigger] self.parts()[i]).spec_contains(v)
    }

    /// A copy of the range.
    fn duplicate(&self) -> (r: Self)
        ensures
            r.same_as(self),
    {
        match self {
            Range::Continuous(r) => Range::Continuous(*r),
            Range::Composite(v) => Range::Composite(copy_parts(v)),
        }
    }

    /// A range containing no value: `[]`
    pub fn empty() -> (r: Self)
        ensures
            r == Range::Continuous(ContinuousRange::<Idx>::Empty),
    {
        Range::Continuous(ContinuousRange::empty())
    }

    /// A range containing a single value
    pub fn single(value: Idx) -> (r: Range<Idx>)
        ensures
            r == Range::Continuous(ContinuousRange::Single(value)),
    {
        Range::Continuous(ContinuousRange::single(value))
    }

    /// A range between `start` (inclusive) and `end` (inclusive): `[start..end]`
    pub fn continuous(start: Idx, end: Idx) -> (r: Self)
        ensures
            r == Range::Continuous(ContinuousRange::spec_inclusive(start, end)),
    {
        Range::Continuous(ContinuousRange::inclusive(start, end))
    }

    /// A range between `start` (exclusive) and `end` (exclusive): `(start..end)`
    pub fn continuous_exclusive(start: Idx, end: Idx) -> (r: Self)
        ensures
            r == Range::Continuous(ContinuousRange::spec_exclusive(start, end)),
    {
        Range::Continuous(ContinuousRange::exclusive(start, end))
    }

    /// A range between `start` (exclusive) and `end` (inclusive): `(start..end]`
    pub fn continuous_start_exclusive(start: Idx, end: Idx) -> (r: Range<Idx>)
        ensures
            r == Range::Continuous(ContinuousRange::spec_start_exclusive(start, end)),
    {
        Range::Continuous(ContinuousRange::start_exclusive(start, end))
    }

    /// A range between `start` (inclusive) and `end` (exclusive): `[start..end)`
    pub fn continuous_end_exclusive(start: Idx, end: Idx) -> (r: Range<Idx>)
        ensures
            r == Range::Continuous(ContinuousRange::spec_end_exclusive(start, end)),
    {
        Range::Continuous(ContinuousRange::end_exclusive(start, end))
    }

    /// A range starting from `start` (inclusive): `[start..)`
    pub fn from(start: Idx) -> (r: Self)
        ensures
            r == Range::Continuous(ContinuousRange::From(start)),
    {
        Self::Continuous(ContinuousRange::from(start))
    }

    /// A range starting from `start` (exclusive): `(start..)`
    pub fn from_exclusive(start: Idx) -> (r: Self)
        ensures
            r == Range::Continuous(ContinuousRange::FromExclusive(start)),
    {
        Self::Continuous(ContinuousRange::from_exclusive(start))
    }

    /// A range ending with `end` (inclusive): `(..end]`
    pub fn to(end: Idx) -> (r: Self)
        ensures
            r == Range::Continuous(ContinuousRange::To(end)),
    {
        Self::Continuous(ContinuousRange::to(end))
    }

    /// A range ending with `end` (exclusive): `(..end)`
    pub fn to_exclusive(end: Idx) -> (r: Self)
        ensures
            r == Range::Continuous(ContinuousRange::ToExclusive(end)),
    {
        Self::Continuous(ContinuousRange::to_exclusive(end))
    }

    /// A range containing all values: `(..)`
    pub fn full() -> (r: Range<Idx>)
        ensures
            r == Range::Continuous(ContinuousRange::<Idx>::Full),
    {
        Self::Continuous(ContinuousRange::full())
    }

    /// The union of the given ranges as one range.
    ///
    /// No item gives `Empty` and a single item is kept as it is. Of more
    /// items, empty ones are dropped and the first full one is the result;
    /// without a full one the parts of the others are gathered in order,
    /// into `Empty`, one continuous range or a composite range.
    pub fn composite(items: Vec<Range<Idx>>) -> (r: Range<Idx>)
        ensures
            items@.len() == 0 ==> r == Range::Continuous(ContinuousRange::<Idx>::Empty),
            items@.len() == 1 ==> r.same_as(&items@[0]),
            items@.len() >= 2 ==> match first_full(items@) {
                Some(i) => r.same_as(&items@[i]),
                None => assembled(gathered(items@), r),
            },
    {
        if items.len() == 0 {
            return Self::empty();
        }
        if items.len() == 1 {
            let mut items = items;
            return items.pop().unwrap();
        }
        let mut new_items: Vec<ContinuousRange<Idx>> = Vec::new();
        let mut i: usize = 0;
        while i < items.len()
            invariant
                i <= items.len(),
                items.len() >= 2,
                first_full(items@.subrange(0, i as int)) is None,
                new_items@ == gathered(items@.subrange(0, i as int)),
            decreases items.len() - i,
        {
            let item = &items[i];
            proof {
                assert(items@.subrange(0, i + 1).drop_last() =~= items@.subrange(0, i as int));
            }
            if item.is_empty() {
            } else if item.is_full() {
                proof {
                    lemma_first_full_prefix(items@, i as int);
                }
                return item.duplicate();
            } else {
                match item {
                    Self::Composite(v) => {
                        let mut j: usize = 0;
                        let ghost before = new_items@;
                        while j < v.len()
                            invariant
                                j <= v.len(),
                                new_items@ == before + v@.subrange(0, j as int),
                            decreases v.len() - j,
                        {
                            new_items.push(v[j]);
                            j = j + 1;
                            proof {
                                assert(before + v@.subrange(0, j as int) =~= (before
                                    + v@.subrange(0, j - 1)).push(v@[j - 1]));
                            }
                        }
                        proof {
                            assert(v@.subrange(0, j as int) =~= v@);
                        }
                    },
                    Self::Continuous(r) => new_items.push(*r),
                }
            }
            i = i + 1;
        }
        proof {
            assert(items@.subrange(0, i as int) =~= items@);
        }
        if new_items.len() == 0 {
            Self::empty()
        } else if new_items.len() == 1 {
            Self::Continuous(new_items[0])
        } else {
            Self::Composite(new_items)
        }
    }

    /// The bounds of a continuous range; `None` for an empty or a
    /// composite one.
    pub fn range_bounds(&self) -> (r: Option<(Bound<Idx>, Bound<Idx>)>)
        ensures
            r == match self {
                Range::Continuous(c) => c.spec_range_bounds(),
                Range::Composite(_) => None,
            },
    {
        match self {
            Self::Continuous(r) => r.range_bounds(),
            Self::Composite(_) => None,
        }
    }

    /// Whether one of the parts contains the value.
    pub fn contains(&self, value: Idx) -> (r: bool)
        ensures
            r == self.spec_contains(value),
    {
        match self {
            Self::Continuous(r) => {
                let res = r.contains(value);
                proof {
                    if res {
                        assert(self.parts()[0].spec_contains(value));
                    }
                }
                res
            },
            Self::Composite(v) => {
                assert(self.parts() == v@);
                let mut i: usize = 0;
                while i < v.len()
                    invariant
                        i <= v.len(),
                        self.parts() == v@,
                        forall|k: int| 0 <= k < i ==> !(#[trigger] v@[k]).spec_contains(value),
                    decreases v.len() - i,
                {
                    if v[i].contains(value) {
                        assert(self.parts()[i as int].spec_contains(value));
                        return true;
                    }
                    i = i + 1;
                }
                false
            },
        }
    }

    /// The union of two ranges: an empty continuous operand gives the other
    /// one, a full continuous operand gives `Full`, and otherwise the
    /// composite of both.
    pub fn union(&self, other: &Range<Idx>) -> (r: Range<Idx>)
        ensures
            self.is_empty_variant() ==> r.same_as(other),
            !self.is_empty_variant() && other.is_empty_variant() ==> r.same_as(self),
            !self.is_empty_variant() && !other.is_empty_variant() && (self.is_full_variant()
                || other.is_full_variant()) ==> r == Range::Continuous(ContinuousRange::<Idx>::Full),
            !self.is_empty_variant() && !other.is_empty_variant() && !self.is_full_variant()
                && !other.is_full_variant() ==> match first_full(seq![*self, *other]) {
                Some(i) => r.same_as(&seq![*self, *other][i]),
                None => assembled(gathered(seq![*self, *other]), r),
            },
    {
        match (self, other) {
            (Self::Continuous(ContinuousRange::Empty), r) => r.duplicate(),
            (r, Self::Continuous(ContinuousRange::Empty)) => r.duplicate(),
            (Self::Continuous(ContinuousRange::Full), _)
            | (_, Self::Continuous(ContinuousRange::Full)) => Self::full(),
            (r1, r2) => {
                let mut items: Vec<Range<Idx>> = Vec::new();
                items.push(r1.duplicate());
                items.push(r2.duplicate());
                let ghost both = seq![*self, *other];
                let ghost given = items@;
                proof {
                    lemma_same_items(given, both);
                }
                let r = Range::composite(items);
                proof {
                    lemma_first_full_in_bounds(both);
                    if let Some(i) = first_full(both) {
                        assert(given[i].same_as(&both[i]));
                    }
                }
                r
            },
        }
    }

    /// Normalises every part in place.
    pub fn simplify_mut(&mut self)
        ensures
            (*final(self) is Composite) == (*old(self) is Composite),
            final(self).parts() == old(self).parts().map_values(
                |c: ContinuousRange<Idx>| c.spec_simplify(),
            ),
    {
        match self {
            Self::Continuous(r) => {
                r.simplify_mut();
                proof {
                    assert(seq![*r] =~= seq![old(self).parts()[0]].map_values(
                        |c: ContinuousRange<Idx>| c.spec_simplify(),
                    ));
                }
            },
            Self::Composite(v) => {
                let ghost start = v@;
                let mut i: usize = 0;
                while i < v.len()
                    invariant
                        i <= v.len(),
                        v@.len() == start.len(),
                        forall|k: int|
                            0 <= k < i ==> (#[trigger] v@[k]) == start[k].spec_simplify(),
                        forall|k: int| i <= k < v@.len() ==> (#[trigger] v@[k]) == start[k],
                    decreases v.len() - i,
                {
                    let item = v[i].simplify();
                    v.set(i, item);
                    i = i + 1;
                }
                proof {
                    assert(v@ =~= start.map_values(|c: ContinuousRange<Idx>| c.spec_simplify()));
                }
            },
        }
    }

    /// A copy of the range with every part normalised.
    pub fn simplify(&self) -> (r: Self)
        ensures
            (r is Composite) == (*self is Composite),
            r.parts() == self.parts().map_values(|c: ContinuousRange<Idx>| c.spec_simplify()),
    {
        let mut copy = self.duplicate();
        copy.simplify_mut();
        copy
    }

    /// Whether every part is empty.
    pub fn is_empty(&self) -> (r: bool)
        ensures
            r == self.spec_is_empty(),
    {
        match self {
            Self::Continuous(r) => {
                let res = r.is_empty();
                proof {
                    if !res {
                        assert(!self.parts()[0].spec_is_empty());
                    }
                }
                res
            },
            Self::Composite(v) => {
                assert(self.parts() == v@);
                let mut i: usize = 0;
                while i < v.len()
                    invariant
                        i <= v.len(),
                        self.parts() == v@,
                        forall|k: int| 0 <= k < i ==> (#[trigger] v@[k]).spec_is_empty(),
                    decreases v.len() - i,
                {
                    if !v[i].is_empty() {
                        assert(!self.parts()[i as int].spec_is_empty());
                        return false;
                    }
                    i = i + 1;
                }
                true
            },
        }
    }

    /// Whether some part, once normalised, is `Full`.
    pub fn is_full(&self) -> (r: bool)
        ensures
            r == self.spec_is_full(),
    {
        let simplified = self.simplify();
        match &simplified {
            Self::Continuous(r) => {
                let res = r.is_full();
                proof {
                    assert(simplified.parts()[0] == self.parts()[0].spec_simplify());
                    if res {
                        assert(self.parts()[0] is Full);
                    } else {
                        assert(!(self.parts()[0] is Full));
                    }
                }
                res
            },
            Self::Composite(v) => {
                let mut i: usize = 0;
                while i < v.len()
                    invariant
                        i <= v.len(),
                        v@ == self.parts().map_values(
                            |c: ContinuousRange<Idx>| c.spec_simplify(),
                        ),
                        forall|k: int| 0 <= k < i ==> !(#[trigger] self.parts()[k] is Full),
                    decreases v.len() - i,
                {
                    assert(v@[i as int] == self.parts()[i as int].spec_simplify());
                    if v[i].is_full() {
                        assert(v@[i as int] == self.parts()[i as int].spec_simplify());
                        assert(self.parts()[i as int] is Full);
                        return true;
                    }
                    i = i + 1;
                }
                false
            },
        }
    }
}

proof fn lemma_first_full_prefix<Idx: Ordered>(items: Seq<Range<Idx>>, i: int)
    requires
        0 <= i < items.len(),
        first_full(items.subrange(0, i)) is None,
        !items[i].spec_is_empty(),
        items[i].spec_is_full(),
    ensures
        first_full(items) == Some(i),
    decreases items.len(),
{
    if i < items.len() - 1 {
        assert(items.drop_last().subrange(0, i) =~= items.subrange(0, i));
        lemma_first_full_prefix(items.drop_last(), i);
    } else {
        assert(items.drop_last() =~= items.subrange(0, i));
    }
}

impl<'a, Idx: Ordered> core::ops::Add<&'a Range<Idx>> for Range<Idx> {
    type Output = Range<Idx>;

    /// `a + b` is [`Range::union`] of the two ranges.
    fn add(self, other: &'a Range<Idx>) -> (r: Range<Idx>)
        ensures
            self.is_empty_variant() ==> r.same_as(other),
            !self.is_empty_variant() && other.is_empty_variant() ==> r.same_as(&self),
            !self.is_empty_variant() && !other.is_empty_variant() && (self.is_full_variant()
                || other.is_full_variant()) ==> r == Range::Continuous(ContinuousRange::<Idx>::Full),
            !self.is_empty_variant() && !other.is_empty_variant() && !self.is_full_variant()
                && !other.is_full_variant() ==> match first_full(seq![self, *other]) {
                Some(i) => r.same_as(&seq![self, *other][i]),
                None => assembled(gathered(seq![self, *other]), r),
            },
    {
        self.union(other)
    }
}

/// The union of a `Range` holds parts in a `Vec`, which no spec function
/// can build, so `+` is specified by the `ensures` of its impl alone.
impl<'a, Idx: Ordered> vstd::std_specs::ops::AddSpecImpl<&'a Range<Idx>> for Range<Idx> {
    open spec fn obeys_add_spec() -> bool {
        false
    }

    open spec fn add_req(self, other: &'a Range<Idx>) -> bool {
        true
    }

    open spec fn add_spec(self, other: &'a Range<Idx>) -> Range<Idx> {
        self
    }
}

proof fn lemma_first_full_in_bounds<Idx: Ordered>(items: Seq<Range<Idx>>)
    ensures
        first_full(items) matches Some(i) ==> 0 <= i < items.len(),
    decreases items.len(),
{
    if items.len() > 0 {
        lemma_first_full_in_bounds(items.drop_last());
    }
}

proof fn lemma_same_items<Idx: Ordered>(a: Seq<Range<Idx>>, b: Seq<Range<Idx>>)
    requires
        a.len() == b.len(),
        forall|k: int| 0 <= k < a.len() ==> (#[trigger] a[k]).same_as(&b[k]),
    ensures
        first_full(a) == first_full(b),
        gathered(a) == gathered(b),
    decreases a.len(),
{
    if a.len() > 0 {
        lemma_same_items(a.drop_last(), b.drop_last());
        assert(a.last().same_as(&b.last()));
        assert(a.last().spec_is_empty() == b.last().spec_is_empty());
        assert(a.last().spec_is_full() == b.last().spec_is_full());
    }
}

} // verus!
