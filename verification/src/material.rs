//! Materials, and what each decides when a ray meets it.
//!
//! A material turns an incoming ray into a scattered ray and an attenuation,
//! or absorbs it. The directions involved are sums and products of rounded
//! scalars, which the caller forms; the material chooses among them.
use crate::color::Color;
use crate::hittable::HitRecord;
use crate::interval::Interval;
use crate::ray::Ray;
use crate::scalar::Scalar;
use crate::vec::Vec3;
use vstd::prelude::*;

verus! {

/// What a surface sends on: the scattered ray, and the colour by which the
/// light it carries is multiplied, channel by channel.
#[derive(Clone, Copy, Debug, PartialEq, Eq, Structural)]
pub struct Scatter {
    pub attenuation: Color,
    pub scattered: Ray,
}

/// A matte surface: it scatters every ray, around the normal.
#[derive(Clone, Copy, Debug, PartialEq, Eq, Structural)]
pub struct Lambertian {
    pub albedo: Color,
}

/// A mirror, more or less polished: `fuzz` is the radius of the sphere within
/// which a reflected direction is perturbed.
///
/// `fuzz` is kept between 0 and 1, unless it is a NaN.
#[derive(Clone, Copy, Debug, PartialEq, Eq, Structural)]
pub struct Metal {
    albedo: Color,
    fuzz: Scalar,
}

/// A clear medium, such as glass: it bends a ray or, past the critical
/// angle, reflects it.
#[derive(Clone, Copy, Debug, PartialEq, Eq, Structural)]
pub struct Dielectric {
    pub refraction_index: Scalar,
}

/// The closed set of materials.
#[derive(Clone, Copy, Debug, PartialEq, Eq, Structural)]
pub enum Material {
    Lambertian(Lambertian),
    Metal(Metal),
    Dielectric(Dielectric),
}

/// What a ray proposes to the material that it hits: the directions among
/// which the material chooses, and the numbers by which it chooses. Each kind
/// of material asks for candidates of its own kind.
#[derive(Clone, Copy, Debug, PartialEq, Eq, Structural)]
pub enum Candidates {
    /// For a matte surface. `diffuse` is the surface normal plus a random
    /// unit vector.
    Diffuse { diffuse: Vec3 },
    /// For a mirror. `fuzzed` is the unit vector of the mirrored incoming
    /// direction, plus the mirror's fuzz times a random unit vector;
    /// `facing` is the dot product of `fuzzed` with the surface normal.
    Mirrored { fuzzed: Vec3, facing: Scalar },
    /// For a clear medium. `sine_ratio` is the refraction ratio times the
    /// sine of the angle of incidence; `reflected` and `refracted` are the
    /// unit incoming direction, mirrored at the normal and bent by Snell's
    /// law.
    Bent { sine_ratio: Scalar, reflected: Vec3, refracted: Vec3 },
}

/// The range `[0, 1]`.
pub open spec fn unit_range() -> Interval {
    Interval {
        min: Scalar { bits: crate::scalar::ZERO_BITS },
        max: Scalar { bits: crate::scalar::ONE_BITS },
    }
}

impl Lambertian {
    /// The ray scattered for a candidate direction `diffuse`: along `diffuse`,
    /// or along the normal where `diffuse` is degenerate.
    pub open spec fn spec_scatter(&self, rec: &HitRecord, diffuse: Vec3) -> Option<Scatter> {
        Some(
            Scatter {
                attenuation: self.albedo,
                scattered: Ray {
                    origin: rec.p,
                    direction: if diffuse.spec_near_zero() {
                        rec.normal
                    } else {
                        diffuse
                    },
                },
            },
        )
    }

    pub fn new(albedo: Color) -> (r: Lambertian)
        ensures
            r.albedo == albedo,
    {
        Lambertian { albedo }
    }

    /// Scatters a ray that hit at `rec`. `diffuse` is the sum of the surface
    /// normal and a random unit vector.
    ///
    /// A matte surface never absorbs: the result is always `Some`, its
    /// attenuation is the albedo, and its ray leaves the hit point along
    /// `diffuse`. Where the random vector all but cancels the normal, so that
    /// `diffuse` is near zero in every component, the ray leaves along the
    /// normal instead.
    #[verifier::when_used_as_spec(spec_scatter)]
    pub fn scatter(&self, rec: &HitRecord, diffuse: Vec3) -> (r: Option<Scatter>)
        ensures
            r == self.spec_scatter(rec, diffuse),
            r is Some,
            r->Some_0.attenuation == self.albedo,
    {
        let direction = if diffuse.near_zero() {
            rec.normal
        } else {
            diffuse
        };
        Some(Scatter { attenuation: self.albedo, scattered: Ray::new(rec.p, direction) })
    }
}

impl Metal {
    #[verifier::type_invariant]
    spec fn fuzz_in_range(self) -> bool {
        self.fuzz == unit_range().spec_clamp(self.fuzz)
    }

    /// The colour that the mirror gives to what it reflects.
    pub closed spec fn spec_albedo(&self) -> Color {
        self.albedo
    }

    /// The fuzz in effect.
    pub closed spec fn spec_fuzz(&self) -> Scalar {
        self.fuzz
    }

    /// The ray reflected along `fuzzed`, provided that `fuzzed` leaves the
    /// surface.
    pub open spec fn spec_scatter(&self, rec: &HitRecord, fuzzed: Vec3, facing: Scalar) -> Option<
        Scatter,
    > {
        if facing.spec_gt(Scalar { bits: crate::scalar::ZERO_BITS }) {
            Some(
                Scatter {
                    attenuation: self.spec_albedo(),
                    scattered: Ray { origin: rec.p, direction: fuzzed },
                },
            )
        } else {
            None
        }
    }

    /// A mirror of the given colour. The fuzz is saturated to `[0, 1]`: a
    /// larger one becomes 1, a negative one 0.
    pub fn new(albedo: Color, fuzz: Scalar) -> (r: Metal)
        ensures
            r.spec_albedo() == albedo,
            r.spec_fuzz() == unit_range().spec_clamp(fuzz),
    {
        let range = Interval::new(Scalar::zero(), Scalar::one());
        Metal { albedo, fuzz: range.clamp(fuzz) }
    }

    #[verifier::when_used_as_spec(spec_albedo)]
    pub fn albedo(&self) -> (r: Color)
        ensures
            r == self.spec_albedo(),
    {
        self.albedo
    }

    /// The fuzz in effect: between 0 and 1, or the NaN that was given.
    #[verifier::when_used_as_spec(spec_fuzz)]
    pub fn fuzz(&self) -> (r: Scalar)
        ensures
            r == self.spec_fuzz(),
            r == unit_range().spec_clamp(r),
            !r.is_nan_spec() ==> unit_range().min.spec_le(r) && r.spec_le(unit_range().max),
    {
        proof {
            use_type_invariant(self);
        }
        self.fuzz
    }

    /// Scatters a ray that hit at `rec`. `fuzzed` is the unit vector of the
    /// mirrored incoming direction, plus `fuzz` times a random unit vector;
    /// `facing` is the dot product of `fuzzed` with the surface normal.
    ///
    /// The ray is reflected along `fuzzed`, tinted by the albedo, exactly
    /// when `facing > 0`. Otherwise the perturbed direction points into the
    /// surface, and the ray is absorbed.
    #[verifier::when_used_as_spec(spec_scatter)]
    pub fn scatter(&self, rec: &HitRecord, fuzzed: Vec3, facing: Scalar) -> (r: Option<Scatter>)
        ensures
            r == self.spec_scatter(rec, fuzzed, facing),
    {
        if facing.gt(Scalar::zero()) {
            Some(Scatter { attenuation: self.albedo, scattered: Ray::new(rec.p, fuzzed) })
        } else {
            None
        }
    }
}

impl Default for Metal {
    /// A black mirror without fuzz.
    fn default() -> (r: Metal)
        ensures
            r.spec_albedo() == Color::spec_black(),
            r.spec_fuzz() == (Scalar { bits: 0 }),
    {
        Metal { albedo: Color::black(), fuzz: Scalar::zero() }
    }
}

impl Dielectric {
    /// The ratio of refractive indices that a ray meets: the reciprocal of
    /// the medium's index on the way in, the index itself on the way out.
    pub open spec fn spec_refraction_ratio(&self, rec: &HitRecord, reciprocal: Scalar) -> Scalar {
        if rec.front_face {
            reciprocal
        } else {
            self.refraction_index
        }
    }

    /// Whether no refracted ray exists: the sine that Snell's law asks for
    /// would exceed 1.
    pub open spec fn spec_must_reflect(sine_ratio: Scalar) -> bool {
        sine_ratio.spec_gt(Scalar { bits: crate::scalar::ONE_BITS })
    }

    /// The ray sent on: reflected under total internal reflection, refracted
    /// otherwise.
    pub open spec fn spec_scatter(
        &self,
        rec: &HitRecord,
        sine_ratio: Scalar,
        reflected: Vec3,
        refracted: Vec3,
    ) -> Option<Scatter> {
        Some(
            Scatter {
                attenuation: Color::spec_white(),
                scattered: Ray {
                    origin: rec.p,
                    direction: if Self::spec_must_reflect(sine_ratio) {
                        reflected
                    } else {
                        refracted
                    },
                },
            },
        )
    }

    pub fn new(refraction_index: Scalar) -> (r: Dielectric)
        ensures
            r.refraction_index == refraction_index,
    {
        Dielectric { refraction_index }
    }

    /// The refraction ratio for a hit, given `reciprocal`, which is 1 divided
    /// by the refraction index: the reciprocal where the ray enters the
    /// medium through a front face, the index where it leaves.
    #[verifier::when_used_as_spec(spec_refraction_ratio)]
    pub fn refraction_ratio(&self, rec: &HitRecord, reciprocal: Scalar) -> (r: Scalar)
        ensures
            r == self.spec_refraction_ratio(rec, reciprocal),
    {
        if rec.front_face {
            reciprocal
        } else {
            self.refraction_index
        }
    }

    /// Scatters a ray that hit at `rec`. `sine_ratio` is the refraction ratio
    /// times the sine of the angle of incidence; `reflected` and `refracted`
    /// are the unit incoming direction mirrored at the normal, and bent by
    /// Snell's law.
    ///
    /// A clear medium never absorbs and never tints: the result is always
    /// `Some`, with white attenuation. Where `sine_ratio > 1` the light is
    /// totally reflected, and the ray leaves along `reflected`; otherwise it
    /// leaves along `refracted`.
    #[verifier::when_used_as_spec(spec_scatter)]
    pub fn scatter(
        &self,
        rec: &HitRecord,
        sine_ratio: Scalar,
        reflected: Vec3,
        refracted: Vec3,
    ) -> (r: Option<Scatter>)
        ensures
            r == self.spec_scatter(rec, sine_ratio, reflected, refracted),
            r is Some,
            Self::spec_must_reflect(sine_ratio) ==> r->Some_0.scattered.direction == reflected,
            !Self::spec_must_reflect(sine_ratio) ==> r->Some_0.scattered.direction == refracted,
    {
        let direction = if sine_ratio.gt(Scalar::one()) {
            reflected
        } else {
            refracted
        };
        Some(Scatter { attenuation: Color::white(), scattered: Ray::new(rec.p, direction) })
    }
}

impl Material {
    /// What the material sends on, given what the ray proposes: what the
    /// matte surface, the mirror or the clear medium makes of candidates of
    /// its own kind, and nothing of candidates of another kind.
    pub open spec fn spec_scatter(&self, rec: &HitRecord, candidates: &Candidates) -> Option<
        Scatter,
    > {
        match *self {
            Material::Lambertian(matte) => match *candidates {
                Candidates::Diffuse { diffuse } => matte.spec_scatter(rec, diffuse),
                _ => None,
            },
            Material::Metal(metal) => match *candidates {
                Candidates::Mirrored { fuzzed, facing } => metal.spec_scatter(rec, fuzzed, facing),
                _ => None,
            },
            Material::Dielectric(glass) => match *candidates {
                Candidates::Bent { sine_ratio, reflected, refracted } => glass.spec_scatter(
                    rec,
                    sine_ratio,
                    reflected,
                    refracted,
                ),
                _ => None,
            },
        }
    }

    /// Scatters a ray that hit at `rec`, whatever the material is.
    ///
    /// A matte surface answers to [`Candidates::Diffuse`] as
    /// [`Lambertian::scatter`] says, a mirror to [`Candidates::Mirrored`] as
    /// [`Metal::scatter`] says, and a clear medium to [`Candidates::Bent`]
    /// as [`Dielectric::scatter`] says. Given candidates of another kind, a
    /// material has nothing to send on, and the ray is absorbed.
    #[verifier::when_used_as_spec(spec_scatter)]
    pub fn scatter(&self, rec: &HitRecord, candidates: &Candidates) -> (r: Option<Scatter>)
        ensures
            r == self.spec_scatter(rec, candidates),
    {
        match self {
            Material::Lambertian(matte) => match candidates {
                Candidates::Diffuse { diffuse } => matte.scatter(rec, *diffuse),
                _ => None,
            },
            Material::Metal(metal) => match candidates {
                Candidates::Mirrored { fuzzed, facing } => metal.scatter(rec, *fuzzed, *facing),
                _ => None,
            },
            Material::Dielectric(glass) => match candidates {
                Candidates::Bent { sine_ratio, reflected, refracted } => glass.scatter(
                    rec,
                    *sine_ratio,
                    *reflected,
                    *refracted,
                ),
                _ => None,
            },
        }
    }
}

} // verus!
