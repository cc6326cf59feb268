//! The intersection protocol: what a ray measures of a surface, and the
//! record of a hit.
use crate::color::Color;
use crate::interval::Interval;
use crate::material::{Material, Metal};
use crate::point::Point3;
use crate::scalar::Scalar;
use crate::sphere::Sphere;
use crate::vec::Vec3;
use vstd::prelude::*;

verus! {

/// The record of a hit.
#[derive(Clone, Copy, Debug, PartialEq, Eq, Structural)]
pub struct HitRecord {
    /// The point of intersection.
    pub p: Point3,
    /// The surface normal at `p`, turned against the incoming ray.
    pub normal: Vec3,
    /// The material of the surface.
    pub mat: Material,
    /// The ray parameter of the intersection.
    pub t: Scalar,
    /// Whether the ray came from outside the surface.
    pub front_face: bool,
}

/// One place where a ray's line crosses a surface.
#[derive(Clone, Copy, Debug, PartialEq, Eq, Structural)]
pub struct Crossing {
    /// The ray parameter of the crossing.
    pub t: Scalar,
    /// The point of the ray at `t`.
    pub point: Point3,
    /// The unit normal of the surface at `point`, pointing outward.
    pub outward_normal: Vec3,
    /// The dot product of the ray's direction with `outward_normal`.
    pub facing: Scalar,
}

/// What a ray measures of a sphere: the discriminant of the quadratic for the
/// ray parameter, and the crossings at its two roots, `near` at
/// `(h - sqrt(d)) / a` and `far` at `(h + sqrt(d)) / a`.
#[derive(Clone, Copy, Debug, PartialEq, Eq, Structural)]
pub struct Probe {
    pub discriminant: Scalar,
    pub near: Crossing,
    pub far: Crossing,
}

/// The closed set of surfaces.
#[derive(Clone, Copy, Debug, PartialEq, Eq, Structural)]
pub enum Hittable {
    Sphere(Sphere),
}

impl HitRecord {
    /// The record with its normal set from an outward normal: the ray comes
    /// from outside where it runs against the outward normal, and the stored
    /// normal always opposes the ray.
    pub open spec fn with_face_normal(self, facing: Scalar, outward_normal: Vec3) -> HitRecord {
        let front_face = facing.spec_lt(Scalar { bits: crate::scalar::ZERO_BITS });
        HitRecord {
            front_face,
            normal: if front_face {
                outward_normal
            } else {
                outward_normal.spec_neg()
            },
            ..self
        }
    }

    /// Sets `front_face` and `normal` from the outward normal of the surface
    /// and `facing`, the dot product of the ray's direction with it.
    ///
    /// The hit is on a front face exactly when `facing < 0`. The normal
    /// stored is the outward one on a front face and its opposite otherwise.
    /// Nothing else changes.
    pub fn set_face_normal(&mut self, facing: Scalar, outward_normal: Vec3)
        ensures
            *final(self) == old(self).with_face_normal(facing, outward_normal),
    {
        self.front_face = facing.lt(Scalar::zero());
        self.normal = if self.front_face {
            outward_normal
        } else {
            outward_normal.neg()
        };
    }
}

impl Default for HitRecord {
    /// A record at the origin, at parameter 0, on a black mirror.
    fn default() -> (r: HitRecord)
        ensures
            r.p == Point3(
                Vec3 { x: Scalar { bits: 0 }, y: Scalar { bits: 0 }, z: Scalar { bits: 0 } },
            ),
            r.normal == (Vec3 {
                x: Scalar { bits: 0 },
                y: Scalar { bits: 0 },
                z: Scalar { bits: 0 },
            }),
            r.mat matches Material::Metal(metal) && metal.spec_albedo() == Color::spec_black()
                && metal.spec_fuzz() == (Scalar { bits: 0 }),
            r.t == (Scalar { bits: 0 }),
            !r.front_face,
    {
        HitRecord {
            p: Point3::default(),
            normal: Vec3::default(),
            mat: Material::Metal(Metal::default()),
            t: Scalar::zero(),
            front_face: false,
        }
    }
}

impl Crossing {
    /// The record of a hit at this crossing, on a surface of material `mat`.
    pub open spec fn record(self, mat: Material) -> HitRecord {
        (HitRecord {
            p: self.point,
            normal: self.outward_normal,
            mat,
            t: self.t,
            front_face: false,
        }).with_face_normal(self.facing, self.outward_normal)
    }
}

impl Probe {
    /// The roots are in order: `far` is not below `near`. The roots of a
    /// quadratic computed as `(h - s) / a` and `(h + s) / a`, with `s` and
    /// `a` not negative, always are, whatever was rounded.
    pub open spec fn ordered(self) -> bool {
        !self.far.t.spec_lt(self.near.t)
    }

    /// The crossing at which a ray hits within `ray_t`: none where the
    /// discriminant is negative; else the near one if `ray_t` surrounds its
    /// parameter; else the far one if `ray_t` surrounds that.
    pub open spec fn crossing(self, ray_t: Interval) -> Option<Crossing> {
        if self.discriminant.spec_lt(Scalar { bits: crate::scalar::ZERO_BITS }) {
            None
        } else if ray_t.spec_surrounds(self.near.t) {
            Some(self.near)
        } else if ray_t.spec_surrounds(self.far.t) {
            Some(self.far)
        } else {
            None
        }
    }
}

impl Hittable {
    /// The hit of a ray on this surface within `ray_t`.
    pub open spec fn spec_hit(&self, probe: &Probe, ray_t: Interval) -> Option<HitRecord> {
        match self {
            Hittable::Sphere(sphere) => sphere.spec_hit(probe, ray_t),
        }
    }

    /// Tests a ray against this surface, given what the ray measured of it.
    #[verifier::when_used_as_spec(spec_hit)]
    pub fn hit(&self, probe: &Probe, ray_t: Interval) -> (r: Option<HitRecord>)
        ensures
            r == self.spec_hit(probe, ray_t),
    {
        match self {
            Hittable::Sphere(sphere) => sphere.hit(probe, ray_t),
        }
    }
}

} // verus!
