//! Triples of scalars.
use crate::scalar::Scalar;
use vstd::prelude::*;

verus! {

/// The pattern of `1e-8`, below which a component counts as zero.
pub const NEAR_ZERO_BITS: u64 = 0x3E45_798E_E230_8C3A;

/// The pattern of `1e-160`, the least squared length that can be normalised
/// without blowing up.
pub const TINY_LENGTH_SQUARED_BITS: u64 = 0x1EB6_7E9C_127B_6E74;

/// Three scalars: a direction or an offset in space.
#[derive(Clone, Copy, Debug, PartialEq, Eq, Structural)]
pub struct Vec3 {
    pub x: Scalar,
    pub y: Scalar,
    pub z: Scalar,
}

impl Vec3 {
    /// Each component negated.
    pub open spec fn spec_neg(self) -> Vec3 {
        Vec3 { x: self.x.spec_neg(), y: self.y.spec_neg(), z: self.z.spec_neg() }
    }

    /// Every component is smaller than `1e-8` in absolute value.
    pub open spec fn spec_near_zero(&self) -> bool {
        let epsilon = Scalar { bits: NEAR_ZERO_BITS };
        self.x.spec_abs().spec_lt(epsilon) && self.y.spec_abs().spec_lt(epsilon)
            && self.z.spec_abs().spec_lt(epsilon)
    }

    /// A squared length from which a sample of the cube may be normalised:
    /// above `1e-160` and at most 1.
    pub open spec fn in_unit_ball(length_squared: Scalar) -> bool {
        length_squared.spec_gt(Scalar { bits: TINY_LENGTH_SQUARED_BITS })
            && length_squared.spec_le(Scalar { bits: crate::scalar::ONE_BITS })
    }

    /// The unit vector that a sample of the cube gives, if any.
    pub open spec fn spec_random_unit_vector(normalized: Vec3, length_squared: Scalar) -> Option<
        Vec3,
    > {
        if Self::in_unit_ball(length_squared) {
            Some(normalized)
        } else {
            None
        }
    }

    /// The point of the unit disk that a sample of the square gives, if any:
    /// the sample itself, where its squared length is below 1.
    pub open spec fn spec_random_in_unit_disk(p: Vec3, length_squared: Scalar) -> Option<Vec3> {
        if length_squared.spec_lt(Scalar { bits: crate::scalar::ONE_BITS }) {
            Some(p)
        } else {
            None
        }
    }

    /// `v` where it makes an acute angle with the normal, else `-v`.
    pub open spec fn spec_on_hemisphere(v: Vec3, facing: Scalar) -> Vec3 {
        if facing.spec_gt(Scalar { bits: crate::scalar::ZERO_BITS }) {
            v
        } else {
            v.spec_neg()
        }
    }

    pub fn new(e0: Scalar, e1: Scalar, e2: Scalar) -> (r: Vec3)
        ensures
            r == (Vec3 { x: e0, y: e1, z: e2 }),
    {
        Vec3 { x: e0, y: e1, z: e2 }
    }

    pub fn x(&self) -> (r: Scalar)
        ensures
            r == self.x,
    {
        self.x
    }

    pub fn y(&self) -> (r: Scalar)
        ensures
            r == self.y,
    {
        self.y
    }

    pub fn z(&self) -> (r: Scalar)
        ensures
            r == self.z,
    {
        self.z
    }

    /// The opposite vector. Exact: only sign bits change.
    #[verifier::when_used_as_spec(spec_neg)]
    pub fn neg(self) -> (r: Vec3)
        ensures
            r == self.spec_neg(),
    {
        Vec3 { x: self.x.neg(), y: self.y.neg(), z: self.z.neg() }
    }

    /// Whether the vector is close to zero in every dimension.
    #[verifier::when_used_as_spec(spec_near_zero)]
    pub fn near_zero(&self) -> (r: bool)
        ensures
            r == self.spec_near_zero(),
    {
        let epsilon = Scalar::from_bits(NEAR_ZERO_BITS);
        self.x.abs().lt(epsilon) && self.y.abs().lt(epsilon) && self.z.abs().lt(epsilon)
    }

    /// One round of rejection sampling for a random unit vector. A point is
    /// drawn from the cube `[-1, 1]^3`; `length_squared` is its squared
    /// length and `normalized` the point divided by its length.
    ///
    /// The point is accepted, and `normalized` returned, exactly when the
    /// squared length is above `1e-160` and at most 1: the point lies in the
    /// unit ball, and not so close to its centre that dividing would blow
    /// up. Otherwise the result is `None`, and another point is to be drawn.
    #[verifier::when_used_as_spec(spec_random_unit_vector)]
    pub fn random_unit_vector(normalized: Vec3, length_squared: Scalar) -> (r: Option<Vec3>)
        ensures
            r == Self::spec_random_unit_vector(normalized, length_squared),
    {
        if length_squared.gt(Scalar::from_bits(TINY_LENGTH_SQUARED_BITS)) && length_squared.le(
            Scalar::one(),
        ) {
            Some(normalized)
        } else {
            None
        }
    }

    /// One round of rejection sampling for a random point of the unit disk.
    /// `p` is a point drawn from the square `[-1, 1]^2` in the plane
    /// `z = 0`, and `length_squared` its squared length.
    ///
    /// The point is accepted, and returned, exactly when its squared length
    /// is below 1. Otherwise the result is `None`, and another point is to
    /// be drawn. A squared length that is a NaN accepts nothing.
    #[verifier::when_used_as_spec(spec_random_in_unit_disk)]
    pub fn random_in_unit_disk(p: Vec3, length_squared: Scalar) -> (r: Option<Vec3>)
        ensures
            r == Self::spec_random_in_unit_disk(p, length_squared),
    {
        if length_squared.lt(Scalar::one()) {
            Some(p)
        } else {
            None
        }
    }

    /// Turns a unit vector into the hemisphere of a surface normal, given
    /// `facing`, its dot product with the normal: the vector is kept where
    /// `facing > 0` and reversed otherwise.
    #[verifier::when_used_as_spec(spec_on_hemisphere)]
    pub fn random_on_hemisphere(on_unit_sphere: Vec3, facing: Scalar) -> (r: Vec3)
        ensures
            r == Self::spec_on_hemisphere(on_unit_sphere, facing),
    {
        if facing.gt(Scalar::zero()) {
            on_unit_sphere
        } else {
            on_unit_sphere.neg()
        }
    }
}

impl Default for Vec3 {
    /// The zero vector.
    fn default() -> (r: Vec3)
        ensures
            r == (Vec3 {
                x: Scalar { bits: 0 },
                y: Scalar { bits: 0 },
                z: Scalar { bits: 0 },
            }),
    {
        Vec3 { x: Scalar::zero(), y: Scalar::zero(), z: Scalar::zero() }
    }
}

} // verus!
