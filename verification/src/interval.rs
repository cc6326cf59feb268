//! Ranges of scalars.
use crate::scalar::Scalar;
use vstd::prelude::*;

verus! {

/// A range of scalars, from `min` to `max`.
///
/// Nothing enforces `min <= max`: a range whose ends are out of order, or a
/// NaN, surrounds nothing.
#[derive(Clone, Copy, Debug, PartialEq, Eq, Structural)]
pub struct Interval {
    pub min: Scalar,
    pub max: Scalar,
}

impl Interval {
    /// `x` lies strictly between the two ends.
    pub open spec fn spec_surrounds(&self, x: Scalar) -> bool {
        self.min.spec_lt(x) && x.spec_lt(self.max)
    }

    /// `x`, saturated to the range: `min` below it, `max` above it, and `x`
    /// itself otherwise. A NaN is neither below nor above, and stays.
    pub open spec fn spec_clamp(&self, x: Scalar) -> Scalar {
        if x.spec_lt(self.min) {
            self.min
        } else if x.spec_gt(self.max) {
            self.max
        } else {
            x
        }
    }

    /// The range from `min` to `max`.
    pub fn new(min: Scalar, max: Scalar) -> (r: Interval)
        ensures
            r.min == min,
            r.max == max,
    {
        Interval { min, max }
    }

    /// Whether `x` lies strictly inside the range: both ends are excluded.
    #[verifier::when_used_as_spec(spec_surrounds)]
    pub fn surrounds(&self, x: Scalar) -> (r: bool)
        ensures
            r == self.spec_surrounds(x),
    {
        self.min.lt(x) && x.lt(self.max)
    }

    /// Saturates `x` to the range.
    #[verifier::when_used_as_spec(spec_clamp)]
    pub fn clamp(&self, x: Scalar) -> (r: Scalar)
        ensures
            r == self.spec_clamp(x),
    {
        if x.lt(self.min) {
            self.min
        } else if x.gt(self.max) {
            self.max
        } else {
            x
        }
    }
}

/// A clamped number lies in the range: for ends in order and a number `x`,
/// `min <= clamp(x) <= max`, and `clamp(x)` is `x` itself exactly when `x`
/// was in the range already.
pub proof fn lemma_clamp_in_range(range: Interval, x: Scalar)
    requires
        range.min.spec_le(range.max),
        !x.is_nan_spec(),
    ensures
        range.min.spec_le(range.spec_clamp(x)),
        range.spec_clamp(x).spec_le(range.max),
        range.spec_clamp(x) == x <==> range.min.spec_le(x) && x.spec_le(range.max),
{
}

/// Clamping twice is clamping once.
pub proof fn lemma_clamp_idempotent(range: Interval, x: Scalar)
    requires
        range.min.spec_le(range.max),
    ensures
        range.spec_clamp(range.spec_clamp(x)) == range.spec_clamp(x),
{
}

} // verus!
