use range_ranger::{ContinuousRange, Range};

const MAX_I32: i32 = 2_147_483_647i32;

#[test]
fn tests_empty() {
    let r: Range<i32> = Range::empty();
    assert_eq!(r.contains(-500), false);
    assert_eq!(r.contains(0), false);
    assert_eq!(r.contains(42), false);
    assert_eq!(r.contains(MAX_I32), false);
}

#[test]
fn tests_continuous() {
    let r: Range<_> = Range::continuous(1, 5);
    assert_eq!(r.contains(0), false);
    assert_eq!(r.contains(1), true);
    assert_eq!(r.contains(3), true);
    assert_eq!(r.contains(5), true);
    assert_eq!(r.contains(42), false);
}

#[test]
fn tests_continuous_inverted() {
    let r: Range<_> = Range::continuous(5, 1);
    assert_eq!(r.contains(0), false);
    assert_eq!(r.contains(1), false);
    assert_eq!(r.contains(3), false);
    assert_eq!(r.contains(5), false);
    assert_eq!(r.contains(42), false);
}

#[test]
fn tests_continuous_exclusive() {
    let r: Range<_> = Range::continuous_exclusive(1, 5);
    assert_eq!(r.contains(0), false);
    assert_eq!(r.contains(1), false);
    assert_eq!(r.contains(3), true);
    assert_eq!(r.contains(5), false);
    assert_eq!(r.contains(42), false);
}

#[test]
fn tests_continuous_exclusive_inverted() {
    let r: Range<_> = Range::continuous_exclusive(5, 1);
    assert_eq!(r.contains(0), false);
    assert_eq!(r.contains(1), false);
    assert_eq!(r.contains(3), false);
    assert_eq!(r.contains(5), false);
    assert_eq!(r.contains(42), false);
}

#[test]
fn tests_continuous_start_exclusive() {
    let r: Range<_> = Range::continuous_start_exclusive(1, 5);
    assert_eq!(r.contains(0), false);
    assert_eq!(r.contains(1), false);
    assert_eq!(r.contains(3), true);
    assert_eq!(r.contains(5), true);
    assert_eq!(r.contains(42), false);
}

#[test]
fn tests_continuous_start_exclusive_inverted() {
    let r: Range<_> = Range::continuous_start_exclusive(5, 1);
    assert_eq!(r.contains(0), false);
    assert_eq!(r.contains(1), false);
    assert_eq!(r.contains(3), false);
    assert_eq!(r.contains(5), false);
    assert_eq!(r.contains(42), false);
}

#[test]
fn tests_continuous_end_exclusive() {
    let r: Range<_> = Range::continuous_end_exclusive(1, 5);
    assert_eq!(r.contains(0), false);
    assert_eq!(r.contains(1), true);
    assert_eq!(r.contains(3), true);
    assert_eq!(r.contains(5), false);
    assert_eq!(r.contains(42), false);
}

#[test]
fn tests_continuous_end_exclusive_inverted() {
    let r: Range<_> = Range::continuous_end_exclusive(5, 1);
    assert_eq!(r.contains(0), false);
    assert_eq!(r.contains(1), false);
    assert_eq!(r.contains(3), false);
    assert_eq!(r.contains(5), false);
    assert_eq!(r.contains(42), false);
}

#[test]
fn tests_full() {
    let r: Range<i32> = Range::full();
    assert_eq!(r.contains(-500), true);
    assert_eq!(r.contains(0), true);
    assert_eq!(r.contains(42), true);
    assert_eq!(r.contains(MAX_I32), true);
}

#[test]
fn tests_composite_empty() {
    let r: Range<u32> = Range::composite(vec![]);
    assert_eq!(r.contains(0), false);
    assert_eq!(r.contains(1), false);
    assert_eq!(r.contains(3), false);
    assert_eq!(r.contains(5), false);
    assert_eq!(r.contains(42), false);
}

#[test]
fn tests_composite_simple() {
    let r: Range<_> = Range::composite(vec![Range::continuous(1, 5)]);
    assert_eq!(r.contains(0), false);
    assert_eq!(r.contains(1), true);
    assert_eq!(r.contains(3), true);
    assert_eq!(r.contains(5), true);
    assert_eq!(r.contains(42), false);
}

#[test]
fn tests_composite_complex() {
    let r: Range<_> = Range::composite(vec![Range::continuous_end_exclusive(1, 3), Range::from(5)]);
    assert_eq!(r.contains(0), false);
    assert_eq!(r.contains(1), true);
    assert_eq!(r.contains(3), false);
    assert_eq!(r.contains(5), true);
    assert_eq!(r.contains(42), true);
    assert_eq!(r.contains(MAX_I32), true);
}

#[test]
fn range_is_empty_empty() {
    let r: Range<i32> = Range::empty();
    assert_eq!(r.is_empty(), true);
}

#[test]
fn continuous() {
    let r: Range<_> = Range::continuous(1, 5);
    assert_eq!(r.is_empty(), false);
}

#[test]
fn continuous_inverted() {
    let r: Range<_> = Range::continuous(5, 1);
    assert_eq!(r.is_empty(), true);
}

#[test]
fn continuous_exclusive() {
    let r: Range<_> = Range::continuous_exclusive(1, 5);
    assert_eq!(r.is_empty(), false);
}

#[test]
fn continuous_exclusive_inverted() {
    let r: Range<_> = Range::continuous_exclusive(5, 1);
    assert_eq!(r.is_empty(), true);
}

#[test]
fn continuous_start_exclusive() {
    let r: Range<_> = Range::continuous_start_exclusive(1, 5);
    assert_eq!(r.is_empty(), false);
}

#[test]
fn continuous_start_exclusive_inverted() {
    let r: Range<_> = Range::continuous_start_exclusive(5, 1);
    assert_eq!(r.is_empty(), true);
}

#[test]
fn continuous_end_exclusive() {
    let r: Range<_> = Range::continuous_end_exclusive(1, 5);
    assert_eq!(r.is_empty(), false);
}

#[test]
fn continuous_end_exclusive_inverted() {
    let r: Range<_> = Range::continuous_end_exclusive(5, 1);
    assert_eq!(r.is_empty(), true);
}

#[test]
fn range_is_empty_full() {
    let r: Range<i32> = Range::full();
    assert_eq!(r.is_empty(), false);
}

#[test]
fn composite_empty() {
    let r: Range<u32> = Range::composite(vec![]);
    assert_eq!(r.is_empty(), true);
}

#[test]
fn composite_simple() {
    let r: Range<_> = Range::composite(vec![Range::continuous(1, 5)]);
    assert_eq!(r.is_empty(), false);
}

#[test]
fn composite_simple_empty() {
    let r: Range<u32> = Range::composite(vec![Range::empty()]);
    assert_eq!(r.is_empty(), true);
}

#[test]
fn composite_complex() {
    let r: Range<_> = Range::composite(vec![Range::continuous_end_exclusive(1, 3), Range::from(5)]);
    assert_eq!(r.is_empty(), false);
}

#[test]
fn composite_complex_empty() {
    let r: Range<u32> = Range::composite(vec![Range::empty(), Range::empty(), Range::empty()]);
    assert_eq!(r.is_empty(), true);
}

#[test]
fn range_is_full_empty() {
    let r: Range<i32> = Range::empty();
    assert_eq!(r.is_full(), false);
}

#[test]
fn range_is_full_continuous() {
    let r: Range<_> = Range::continuous(1, 5);
    assert_eq!(r.is_full(), false);
}

#[test]
fn range_is_full_continuous_inverted() {
    let r: Range<_> = Range::continuous(5, 1);
    assert_eq!(r.is_full(), false);
}

#[test]
fn range_is_full_continuous_exclusive() {
    let r: Range<_> = Range::continuous_exclusive(1, 5);
    assert_eq!(r.is_full(), false);
}

#[test]
fn range_is_full_continuous_exclusive_inverted() {
    let r: Range<_> = Range::continuous_exclusive(5, 1);
    assert_eq!(r.is_full(), false);
}

#[test]
fn range_is_full_continuous_start_exclusive() {
    let r: Range<_> = Range::continuous_start_exclusive(1, 5);
    assert_eq!(r.is_full(), false);
}

#[test]
fn range_is_full_continuous_start_exclusive_inverted() {
    let r: Range<_> = Range::continuous_start_exclusive(5, 1);
    assert_eq!(r.is_full(), false);
}

#[test]
fn range_is_full_continuous_end_exclusive() {
    let r: Range<_> = Range::continuous_end_exclusive(1, 5);
    assert_eq!(r.is_full(), false);
}

#[test]
fn range_is_full_continuous_end_exclusive_inverted() {
    let r: Range<_> = Range::continuous_end_exclusive(5, 1);
    assert_eq!(r.is_full(), false);
}

#[test]
fn range_is_full_full() {
    let r: Range<i32> = Range::full();
    assert_eq!(r.is_full(), true);
}

#[test]
fn range_is_full_composite_empty() {
    let r: Range<u32> = Range::composite(vec![]);
    assert_eq!(r.is_full(), false);
}

#[test]
fn range_is_full_composite_simple() {
    let r: Range<_> = Range::composite(vec![Range::continuous(1, 5)]);
    assert_eq!(r.is_empty(), false);
}

#[test]
fn composite_simple_full() {
    let r: Range<u32> = Range::composite(vec![Range::full()]);
    assert_eq!(r.is_full(), true);
}

#[test]
fn range_is_full_composite_complex() {
    let r: Range<_> = Range::composite(vec![Range::continuous_end_exclusive(1, 3), Range::from(5)]);
    assert_eq!(r.is_full(), false);
}

#[test]
fn composite_complex_full() {
    let r: Range<u32> = Range::composite(vec![Range::continuous_end_exclusive(1, 3), Range::from(5), Range::full()]);
    assert_eq!(r.is_full(), true);
}

#[test]
fn composite_empty_list() {
    let r: Range<i32> = Range::composite(vec![]);
    assert!(matches!(r, Range::Continuous(ContinuousRange::Empty)));
}

#[test]
fn composite_single_empty() {
    let r: Range<i32> = Range::composite(vec![Range::empty()]);
    assert!(matches!(r, Range::Continuous(ContinuousRange::Empty)));
}

#[test]
fn composite_multiple_empty() {
    let r: Range<i32> = Range::composite(vec![Range::empty(), Range::empty(), Range::empty()]);
    assert!(matches!(r, Range::Continuous(ContinuousRange::Empty)));
}

#[test]
fn composite_single_range() {
    let r: Range<i32> = Range::composite(vec![Range::continuous(1, 5)]);
    assert!(matches!(r, Range::Continuous(ContinuousRange::Inclusive(1, 5))));
}

#[test]
fn range_debug_empty() {
    let r = Range::<i32>::empty();
    assert_eq!(r.notation(), "[]");
}

#[test]
fn range_debug_continuous() {
    let r: Range<_> = Range::continuous(1, 5);
    assert_eq!(r.notation(), "[1..5]");
}

#[test]
fn continuous_equal() {
    let r: Range<_> = Range::continuous(1, 1);
    assert_eq!(r.notation(), "1");
}

#[test]
fn range_debug_continuous_inverted() {
    let r: Range<_> = Range::continuous(5, 1);
    assert_eq!(r.notation(), "[]");
}

#[test]
fn range_debug_continuous_exclusive() {
    let r: Range<_> = Range::continuous_exclusive(1, 5);
    assert_eq!(r.notation(), "(1..5)");
}

#[test]
fn continuous_exclusive_equal() {
    let r: Range<_> = Range::continuous_exclusive(1, 1);
    assert_eq!(r.notation(), "[]");
}

#[test]
fn range_debug_continuous_exclusive_inverted() {
    let r: Range<_> = Range::continuous_exclusive(5, 1);
    assert_eq!(r.notation(), "[]");
}

#[test]
fn range_debug_continuous_start_exclusive() {
    let r: Range<_> = Range::continuous_start_exclusive(1, 5);
    assert_eq!(r.notation(), "(1..5]");
}

#[test]
fn continuous_start_exclusive_equal() {
    let r: Range<_> = Range::continuous_start_exclusive(1, 1);
    assert_eq!(r.notation(), "[]");
}

#[test]
fn range_debug_continuous_start_exclusive_inverted() {
    let r: Range<_> = Range::continuous_start_exclusive(5, 1);
    assert_eq!(r.notation(), "[]");
}

#[test]
fn range_debug_continuous_end_exclusive() {
    let r: Range<_> = Range::continuous_end_exclusive(1, 5);
    assert_eq!(r.notation(), "[1..5)");
}

#[test]
fn continuous_end_exclusive_equal() {
    let r: Range<_> = Range::continuous_end_exclusive(1, 1);
    assert_eq!(r.notation(), "[]");
}

#[test]
fn range_debug_continuous_end_exclusive_inverted() {
    let r: Range<_> = Range::continuous_end_exclusive(5, 1);
    assert_eq!(r.notation(), "[]");
}

#[test]
fn range_debug_full() {
    let r: Range<u32> = Range::full();
    assert_eq!(r.notation(), "(..)");
}

#[test]
fn tests_from() {
    let r: Range<_> = Range::from(1);
    assert_eq!(r.notation(), "[1..)");
}

#[test]
fn tests_from_exclusive() {
    let r: Range<_> = Range::from_exclusive(1);
    assert_eq!(r.notation(), "(1..)");
}

#[test]
fn tests_to() {
    let r: Range<_> = Range::to(5);
    assert_eq!(r.notation(), "(..5]");
}

#[test]
fn tests_to_exclusive() {
    let r: Range<_> = Range::to_exclusive(5);
    assert_eq!(r.notation(), "(..5)");
}

#[test]
fn range_debug_composite_empty() {
    let r: Range<u32> = Range::composite(vec![]);
    assert_eq!(r.notation(), "[]");
}

#[test]
fn range_debug_composite_simple() {
    let r: Range<_> = Range::composite(vec![Range::continuous(1, 5)]);
    assert_eq!(r.notation(), "[1..5]");
}

#[test]
fn range_debug_composite_complex() {
    let r: Range<_> = Range::composite(vec![Range::continuous_end_exclusive(1, 3), Range::from(5)]);
    assert_eq!(r.notation(), "{[1..3); [5..)}");
}
