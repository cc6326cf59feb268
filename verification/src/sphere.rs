//! Spheres.
use crate::hittable::{HitRecord, Probe};
use crate::interval::Interval;
use crate::material::Material;
use crate::point::Point3;
use crate::scalar::Scalar;
use vstd::prelude::*;

verus! {

/// A sphere of some material. Its radius is never negative and never a NaN.
#[derive(Clone, Copy, Debug, PartialEq, Eq, Structural)]
pub struct Sphere {
    center: Point3,
    radius: Scalar,
    mat: Material,
}

impl Sphere {
    #[verifier::type_invariant]
    spec fn radius_not_negative(self) -> bool {
        (Scalar { bits: crate::scalar::ZERO_BITS }).spec_le(self.radius)
    }

    pub closed spec fn spec_center(&self) -> Point3 {
        self.center
    }

    pub closed spec fn spec_radius(&self) -> Scalar {
        self.radius
    }

    pub closed spec fn spec_material(&self) -> Material {
        self.mat
    }

    /// The hit of a ray on this sphere within `ray_t`: the record of the
    /// crossing that the probe selects, with this sphere's material.
    pub open spec fn spec_hit(&self, probe: &Probe, ray_t: Interval) -> Option<HitRecord> {
        match probe.crossing(ray_t) {
            Some(crossing) => Some(crossing.record(self.spec_material())),
            None => None,
        }
    }

    /// A sphere around `center`. A negative radius, or a NaN, counts as 0.
    pub fn new(center: Point3, radius: Scalar, mat: Material) -> (r: Sphere)
        ensures
            r.spec_center() == center,
            r.spec_radius() == radius.spec_max(Scalar { bits: crate::scalar::ZERO_BITS }),
            r.spec_material() == mat,
    {
        Sphere { center, radius: radius.max(Scalar::zero()), mat }
    }

    #[verifier::when_used_as_spec(spec_center)]
    pub fn center(&self) -> (r: Point3)
        ensures
            r == self.spec_center(),
    {
        self.center
    }

    /// The radius: a number, and at least 0.
    #[verifier::when_used_as_spec(spec_radius)]
    pub fn radius(&self) -> (r: Scalar)
        ensures
            r == self.spec_radius(),
            (Scalar { bits: crate::scalar::ZERO_BITS }).spec_le(r),
    {
        proof {
            use_type_invariant(self);
        }
        self.radius
    }

    #[verifier::when_used_as_spec(spec_material)]
    pub fn material(&self) -> (r: Material)
        ensures
            r == self.spec_material(),
    {
        self.mat
    }

    /// Tests a ray against the sphere, given what the ray measured of it.
    ///
    /// There is no hit where the discriminant is negative: the ray's line
    /// misses the sphere. Otherwise the ray hits at the near root if `ray_t`
    /// surrounds it, else at the far root if `ray_t` surrounds that, else not
    /// at all. Both ends of `ray_t` are excluded.
    ///
    /// The record of a hit holds the parameter and the point of the crossing,
    /// this sphere's material, and the normal turned against the ray: see
    /// [`HitRecord::set_face_normal`].
    #[verifier::when_used_as_spec(spec_hit)]
    pub fn hit(&self, probe: &Probe, ray_t: Interval) -> (r: Option<HitRecord>)
        ensures
            r == self.spec_hit(probe, ray_t),
            probe.discriminant.spec_lt(Scalar { bits: crate::scalar::ZERO_BITS }) ==> r is None,
            r matches Some(rec) ==> ray_t.spec_surrounds(rec.t),
    {
        if probe.discriminant.lt(Scalar::zero()) {
            return None;
        }
        let crossing = if ray_t.surrounds(probe.near.t) {
            probe.near
        } else if ray_t.surrounds(probe.far.t) {
            probe.far
        } else {
            return None;
        };
        let mut rec = HitRecord {
            p: crossing.point,
            normal: crossing.outward_normal,
            mat: self.mat,
            t: crossing.t,
            front_face: false,
        };
        rec.set_face_normal(crossing.facing, crossing.outward_normal);
        Some(rec)
    }
}

} // verus!
