use vstd::prelude::*;

use core::cmp::Ordering;

verus! {

/// The ordering of two mathematical integers.
pub open spec fn int_cmp(x: int, y: int) -> Ordering {
    if x < y {
        Ordering::Less
    } else if x > y {
        Ordering::Greater
    } else {
        Ordering::Equal
    }
}

/// The same comparison seen from the other operand.
pub open spec fn flip(o: Option<Ordering>) -> Option<Ordering> {
    match o {
        Some(Ordering::Less) => Some(Ordering::Greater),
        Some(Ordering::Greater) => Some(Ordering::Less),
        other => other,
    }
}

/// The comparison found the first operand at or before the second.
pub open spec fn is_le(o: Option<Ordering>) -> bool {
    o == Some(Ordering::Less) || o == Some(Ordering::Equal)
}

/// Element types that intervals can be built over.
///
/// The order may be partial: two values may be unordered, in which case
/// `spec_partial_cmp` is `None`. Where it orders them it must behave as an
/// order: two values compare `Equal` exactly when they are the same value,
/// swapping the operands flips the result, and `Less` is transitive.
pub trait Ordered: Copy + Sized {
    /// How `self` compares to `other`, `None` where they are unordered.
    spec fn spec_partial_cmp(&self, other: &Self) -> Option<Ordering>;

    /// Compares two values.
    fn partial_cmp_to(&self, other: &Self) -> (r: Option<Ordering>)
        ensures
            r == self.spec_partial_cmp(other),
    ;

    /// Equality, antisymmetry and transitivity of the order.
    proof fn lemma_order_laws(a: Self, b: Self, c: Self)
        ensures
            a.spec_partial_cmp(&b) == Some(Ordering::Equal) <==> a == b,
            b.spec_partial_cmp(&a) == flip(a.spec_partial_cmp(&b)),
            a.spec_partial_cmp(&b) == Some(Ordering::Less) && b.spec_partial_cmp(&c) == Some(
                Ordering::Less,
            ) ==> a.spec_partial_cmp(&c) == Some(Ordering::Less),
    ;
}

impl Ordered for i8 {
    open spec fn spec_partial_cmp(&self, other: &i8) -> Option<Ordering> {
        Some(int_cmp(*self as int, *other as int))
    }

    fn partial_cmp_to(&self, other: &i8) -> (r: Option<Ordering>) {
        if *self < *other {
            Some(Ordering::Less)
        } else if *self > *other {
            Some(Ordering::Greater)
        } else {
            Some(Ordering::Equal)
        }
    }

    proof fn lemma_order_laws(a: i8, b: i8, c: i8) {
    }
}

impl Ordered for i16 {
    open spec fn spec_partial_cmp(&self, other: &i16) -> Option<Ordering> {
        Some(int_cmp(*self as int, *other as int))
    }

    fn partial_cmp_to(&self, other: &i16) -> (r: Option<Ordering>) {
        if *self < *other {
            Some(Ordering::Less)
        } else if *self > *other {
            Some(Ordering::Greater)
        } else {
            Some(Ordering::Equal)
        }
    }

    proof fn lemma_order_laws(a: i16, b: i16, c: i16) {
    }
}

impl Ordered for i32 {
    open spec fn spec_partial_cmp(&self, other: &i32) -> Option<Ordering> {
        Some(int_cmp(*self as int, *other as int))
    }

    fn partial_cmp_to(&self, other: &i32) -> (r: Option<Ordering>) {
        if *self < *other {
            Some(Ordering::Less)
        } else if *self > *other {
            Some(Ordering::Greater)
        } else {
            Some(Ordering::Equal)
        }
    }

    proof fn lemma_order_laws(a: i32, b: i32, c: i32) {
    }
}

impl Ordered for i64 {
    open spec fn spec_partial_cmp(&self, other: &i64) -> Option<Ordering> {
        Some(int_cmp(*self as int, *other as int))
    }

    fn partial_cmp_to(&self, other: &i64) -> (r: Option<Ordering>) {
        if *self < *other {
            Some(Ordering::Less)
        } else if *self > *other {
            Some(Ordering::Greater)
        } else {
            Some(Ordering::Equal)
        }
    }

    proof fn lemma_order_laws(a: i64, b: i64, c: i64) {
    }
}

impl Ordered for isize {
    open spec fn spec_partial_cmp(&self, other: &isize) -> Option<Ordering> {
        Some(int_cmp(*self as int, *other as int))
    }

    fn partial_cmp_to(&self, other: &isize) -> (r: Option<Ordering>) {
        if *self < *other {
            Some(Ordering::Less)
        } else if *self > *other {
            Some(Ordering::Greater)
        } else {
            Some(Ordering::Equal)
        }
    }

    proof fn lemma_order_laws(a: isize, b: isize, c: isize) {
    }
}

impl Ordered for u8 {
    open spec fn spec_partial_cmp(&self, other: &u8) -> Option<Ordering> {
        Some(int_cmp(*self as int, *other as int))
    }

    fn partial_cmp_to(&self, other: &u8) -> (r: Option<Ordering>) {
        if *self < *other {
            Some(Ordering::Less)
        } else if *self > *other {
            Some(Ordering::Greater)
        } else {
            Some(Ordering::Equal)
        }
    }

    proof fn lemma_order_laws(a: u8, b: u8, c: u8) {
    }
}

impl Ordered for u16 {
    open spec fn spec_partial_cmp(&self, other: &u16) -> Option<Ordering> {
        Some(int_cmp(*self as int, *other as int))
    }

    fn partial_cmp_to(&self, other: &u16) -> (r: Option<Ordering>) {
        if *self < *other {
            Some(Ordering::Less)
        } else if *self > *other {
            Some(Ordering::Greater)
        } else {
            Some(Ordering::Equal)
        }
    }

    proof fn lemma_order_laws(a: u16, b: u16, c: u16) {
    }
}

impl Ordered for u32 {
    open spec fn spec_partial_cmp(&self, other: &u32) -> Option<Ordering> {
        Some(int_cmp(*self as int, *other as int))
    }

    fn partial_cmp_to(&self, other: &u32) -> (r: Option<Ordering>) {
        if *self < *other {
            Some(Ordering::Less)
        } else if *self > *other {
            Some(Ordering::Greater)
        } else {
            Some(Ordering::Equal)
        }
    }

    proof fn lemma_order_laws(a: u32, b: u32, c: u32) {
    }
}

impl Ordered for u64 {
    open spec fn spec_partial_cmp(&self, other: &u64) -> Option<Ordering> {
        Some(int_cmp(*self as int, *other as int))
    }

    fn partial_cmp_to(&self, other: &u64) -> (r: Option<Ordering>) {
        if *self < *other {
            Some(Ordering::Less)
        } else if *self > *other {
            Some(Ordering::Greater)
        } else {
            Some(Ordering::Equal)
        }
    }

    proof fn lemma_order_laws(a: u64, b: u64, c: u64) {
    }
}

impl Ordered for usize {
    open spec fn spec_partial_cmp(&self, other: &usize) -> Option<Ordering> {
        Some(int_cmp(*self as int, *other as int))
    }

    fn partial_cmp_to(&self, other: &usize) -> (r: Option<Ordering>) {
        if *self < *other {
            Some(Ordering::Less)
        } else if *self > *other {
            Some(Ordering::Greater)
        } else {
            Some(Ordering::Equal)
        }
    }

    proof fn lemma_order_laws(a: usize, b: usize, c: usize) {
    }
}

/// `a < b`
pub open spec fn spec_lt<T: Ordered>(a: T, b: T) -> bool {
    a.spec_partial_cmp(&b) == Some(Ordering::Less)
}

/// `a <= b`
pub open spec fn spec_le<T: Ordered>(a: T, b: T) -> bool {
    a.spec_partial_cmp(&b) == Some(Ordering::Less) || a.spec_partial_cmp(&b) == Some(
        Ordering::Equal,
    )
}

/// `a > b`
pub open spec fn spec_gt<T: Ordered>(a: T, b: T) -> bool {
    a.spec_partial_cmp(&b) == Some(Ordering::Greater)
}

/// `a >= b`
pub open spec fn spec_ge<T: Ordered>(a: T, b: T) -> bool {
    a.spec_partial_cmp(&b) == Some(Ordering::Greater) || a.spec_partial_cmp(&b) == Some(
        Ordering::Equal,
    )
}

/// Whether `a < b`.
pub fn less_than<T: Ordered>(a: &T, b: &T) -> (r: bool)
    ensures
        r == spec_lt(*a, *b),
{
    match a.partial_cmp_to(b) {
        Some(Ordering::Less) => true,
        _ => false,
    }
}

/// Whether `a <= b`.
pub fn at_most<T: Ordered>(a: &T, b: &T) -> (r: bool)
    ensures
        r == spec_le(*a, *b),
{
    match a.partial_cmp_to(b) {
        Some(Ordering::Less) | Some(Ordering::Equal) => true,
        _ => false,
    }
}

/// Whether `a > b`.
pub fn greater_than<T: Ordered>(a: &T, b: &T) -> (r: bool)
    ensures
        r == spec_gt(*a, *b),
{
    match a.partial_cmp_to(b) {
        Some(Ordering::Greater) => true,
        _ => false,
    }
}

/// Whether `a >= b`.
pub fn at_least<T: Ordered>(a: &T, b: &T) -> (r: bool)
    ensures
        r == spec_ge(*a, *b),
{
    match a.partial_cmp_to(b) {
        Some(Ordering::Greater) | Some(Ordering::Equal) => true,
        _ => false,
    }
}

} // verus!
