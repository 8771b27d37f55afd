mod bound;
mod continuous;
pub mod laws;
mod notation;
mod order;
mod range;
mod range_structs;
mod relation;

pub use bound::{Bound, BoundSide, ContinuousBound};
pub use continuous::ContinuousRange;
pub use order::Ordered;
pub use range::Range;
pub use range_structs::{
    ContinuousRangeEndExclusive, ContinuousRangeExclusive, ContinuousRangeFromExclusive,
    ContinuousRangeFromInclusive, ContinuousRangeInclusive, ContinuousRangeStartExclusive,
    ContinuousRangeToExclusive, ContinuousRangeToInclusive,
};
pub use relation::RangesRelation;
