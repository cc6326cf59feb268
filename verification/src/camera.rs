//! The camera: its configuration, the rules of a traced path, and the image
//! that it writes.
use crate::color::Color;
use crate::hittable::{HitRecord, Probe};
use crate::hittable_list::HittableList;
use crate::interval::Interval;
use crate::material::{Candidates, Scatter};
use crate::point::Point3;
use crate::ppm::{header, is_image_text, lemma_header_and_line_are_text, push_header};
use crate::ray::Ray;
use crate::scalar::Scalar;
use crate::vec::Vec3;
use vstd::arithmetic::div_mod::lemma_fundamental_div_mod;
use vstd::prelude::*;

verus! {

/// The pattern of `0.001`: how far along a scattered ray a hit must lie, so
/// that the ray does not hit the surface that it leaves.
pub const SHADOW_ACNE_BITS: u64 = 0x3F50_624D_D2F1_A9FC;

/// The configuration of a camera.
#[derive(Clone, Copy, Debug, PartialEq, Eq, Structural)]
pub struct Camera {
    /// Ratio of image width to image height.
    pub aspect_ratio: Scalar,
    /// Rendered image width, in pixels.
    pub image_width: usize,
    /// Count of random samples for each pixel.
    pub samples_per_pixel: usize,
    /// Largest number of bounces of a ray into the scene.
    pub max_depth: usize,
    /// Vertical field of view, in degrees.
    pub vfov: Scalar,
    /// The point that the camera looks from.
    pub lookfrom: Point3,
    /// The point that the camera looks at.
    pub lookat: Point3,
    /// The direction that is up for the camera.
    pub vup: Vec3,
    /// The angle of the cone of rays through each pixel, in degrees.
    pub defocus_angle: Scalar,
    /// The distance from `lookfrom` to the plane in perfect focus.
    pub focus_dist: Scalar,
}

/// What a traced ray met.
#[derive(Clone, Copy, Debug, PartialEq, Eq, Structural)]
pub enum Encounter {
    /// The ray hit nothing.
    Miss,
    /// The ray hit a surface, and the material absorbed it.
    Absorbed,
    /// The ray hit a surface, and the material scattered it.
    Scattered(Scatter),
}

/// What a traced ray is worth.
#[derive(Clone, Copy, Debug, PartialEq, Eq, Structural)]
pub enum Trace {
    /// No light: black.
    Black,
    /// The light of the background in the ray's direction.
    Background,
    /// The light of the scattered ray, traced with `depth` bounces left and
    /// multiplied by `attenuation`, channel by channel.
    Bounce { attenuation: Color, scattered: Ray, depth: usize },
}

/// How a traced path ends.
#[derive(Clone, Copy, Debug, PartialEq, Eq, Structural)]
pub enum PathEnd {
    /// In the dark: the last ray was absorbed, or no bounce was left for it.
    Black,
    /// In the background: `ray` hit nothing.
    Background { ray: Ray },
}

/// A traced path: the attenuations of its bounces, from the first to the
/// last, and its end. The light that the path gathers is the light of its end,
/// multiplied by the attenuations from the last back to the first.
#[derive(Debug)]
pub struct Path {
    pub attenuations: Vec<Color>,
    pub end: PathEnd,
}

/// The lines of an image, one for each pixel, in order.
pub open spec fn pixel_lines(pixels: Seq<Color>) -> Seq<u8>
    decreases pixels.len(),
{
    if pixels.len() == 0 {
        Seq::empty()
    } else {
        pixel_lines(pixels.drop_last()) + pixels.last().line()
    }
}

/// What is shown of pixels that are given as linear colours with the square
/// roots of their channels: the gamma transform of each.
pub open spec fn shown(pixels: Seq<(Color, Color)>) -> Seq<Color> {
    Seq::new(pixels.len(), |i: int| pixels[i].0.spec_gamma(pixels[i].1))
}

/// What a ray met, given what the material of the surface that it hit sent
/// on.
pub open spec fn encounter_of(sent_on: Option<Scatter>) -> Encounter {
    match sent_on {
        Some(scatter) => Encounter::Scattered(scatter),
        None => Encounter::Absorbed,
    }
}

impl Camera {
    /// The height of an image, given the ratio of its width to the aspect
    /// ratio: the ratio cut to an integer, and at least 1.
    pub open spec fn spec_image_height(ratio: Scalar) -> usize {
        if ratio.spec_to_usize() < 1 {
            1
        } else {
            ratio.spec_to_usize()
        }
    }

    /// The parameters at which a traced ray may hit: above `0.001`, without
    /// an upper end.
    pub open spec fn spec_ray_interval() -> Interval {
        Interval {
            min: Scalar { bits: SHADOW_ACNE_BITS },
            max: Scalar { bits: crate::scalar::INFINITY_BITS },
        }
    }

    /// `image` is an image that this camera may render from `pixel`: its
    /// header, and the lines of what is shown of the colours that `pixel`
    /// gave in raster order.
    pub open spec fn renders<F: Fn(usize, usize) -> (Color, Color)>(
        &self,
        ratio: Scalar,
        pixel: F,
        image: Seq<u8>,
    ) -> bool {
        exists|pixels: Seq<(Color, Color)>|
            #[trigger] Self::in_raster_order(
                pixel,
                self.image_width,
                Self::spec_image_height(ratio),
                pixels,
            ) && image == self.spec_encode(Self::spec_image_height(ratio), shown(pixels))
    }

    /// What `meet` may answer: the relation between a ray and what it met.
    pub open spec fn asked<F: Fn(Ray) -> Encounter>(meet: F) -> spec_fn(Ray, Encounter) -> bool {
        |ray: Ray, met: Encounter| call_ensures(meet, (ray,), met)
    }

    /// `met` relates each ray to one encounter at most.
    pub open spec fn single_valued(met: spec_fn(Ray, Encounter) -> bool) -> bool {
        forall|ray: Ray, x: Encounter, y: Encounter| #[trigger]
            met(ray, x) && #[trigger] met(ray, y) ==> x == y
    }

    /// What a ray may meet in a scene: where `measure` gives the probes of
    /// the ray and `propose` the candidates at a hit, `met` is a miss if the
    /// scene is not hit within [`Camera::ray_interval`], and else what the
    /// material of the nearest hit makes of the candidates.
    pub open spec fn meets<P: Fn(Ray) -> Vec<Probe>, C: Fn(Ray, HitRecord) -> Candidates>(
        world: &HittableList,
        ray: Ray,
        measure: P,
        propose: C,
        met: Encounter,
    ) -> bool {
        exists|probes: Vec<Probe>| #[trigger]
            call_ensures(measure, (ray,), probes) && match world.spec_hit(
                probes@,
                Self::spec_ray_interval(),
            ) {
                None => met == Encounter::Miss,
                Some(rec) => exists|candidates: Candidates| #[trigger]
                    call_ensures(propose, (ray, rec), candidates) && met == encounter_of(
                        rec.mat.spec_scatter(&rec, &candidates),
                    ),
            }
    }

    /// The relation between a ray and what it may meet in a scene.
    pub open spec fn met_in<P: Fn(Ray) -> Vec<Probe>, C: Fn(Ray, HitRecord) -> Candidates>(
        world: &HittableList,
        measure: P,
        propose: C,
    ) -> spec_fn(Ray, Encounter) -> bool {
        |ray: Ray, met: Encounter| Self::meets(world, ray, measure, propose, met)
    }

    /// `pixel` gives one colour for each place, however often it is asked.
    pub open spec fn repeatable<F: Fn(usize, usize) -> (Color, Color)>(pixel: F) -> bool {
        forall|i: usize, j: usize, x: (Color, Color), y: (Color, Color)|
            call_ensures(pixel, (i, j), x) && call_ensures(pixel, (i, j), y) ==> x == y
    }

    /// Whether rays start on the defocus disk.
    pub open spec fn spec_has_defocus(&self) -> bool {
        self.defocus_angle.spec_gt(Scalar { bits: crate::scalar::ZERO_BITS })
    }

    /// What a ray with `depth` bounces left is worth, given what it met.
    pub open spec fn spec_ray_color(depth: usize, met: Encounter) -> Trace {
        if depth == 0 {
            Trace::Black
        } else {
            match met {
                Encounter::Miss => Trace::Background,
                Encounter::Absorbed => Trace::Black,
                Encounter::Scattered(scatter) => Trace::Bounce {
                    attenuation: scatter.attenuation,
                    scattered: scatter.scattered,
                    depth: (depth - 1) as usize,
                },
            }
        }
    }

    /// A path that starts with `ray` and `depth` bounces left, where `met`
    /// relates each ray to what it may meet, may have the given attenuations
    /// and end.
    ///
    /// With no attenuation the path ends with `ray`: in the dark if no bounce
    /// is left or the ray is absorbed, in the background if the ray hits
    /// nothing. Otherwise a bounce is left, the ray is scattered with the
    /// first attenuation, and the path goes on from the scattered ray with
    /// one bounce less.
    pub open spec fn follows_by(
        met: spec_fn(Ray, Encounter) -> bool,
        ray: Ray,
        depth: nat,
        attenuations: Seq<Color>,
        end: PathEnd,
    ) -> bool
        decreases attenuations.len(),
    {
        if attenuations.len() == 0 {
            ||| depth == 0 && end == PathEnd::Black
            ||| depth > 0 && met(ray, Encounter::Absorbed) && end == PathEnd::Black
            ||| depth > 0 && met(ray, Encounter::Miss) && end == (PathEnd::Background { ray })
        } else {
            depth > 0 && exists|scatter: Scatter|
                {
                    &&& #[trigger] met(ray, Encounter::Scattered(scatter))
                    &&& scatter.attenuation == attenuations[0]
                    &&& Self::follows_by(
                        met,
                        scatter.scattered,
                        (depth - 1) as nat,
                        attenuations.skip(1),
                        end,
                    )
                }
        }
    }

    /// A path that starts with `ray` and `depth` bounces left, where the
    /// function `meet` says what each ray meets, may have the given
    /// attenuations and end.
    pub open spec fn follows<F: Fn(Ray) -> Encounter>(
        meet: F,
        ray: Ray,
        depth: nat,
        attenuations: Seq<Color>,
        end: PathEnd,
    ) -> bool {
        Self::follows_by(Self::asked(meet), ray, depth, attenuations, end)
    }

    /// The image of this camera's width, `image_height` high, with the given
    /// pixels: the header and the pixels' lines.
    pub open spec fn spec_encode(&self, image_height: usize, pixels: Seq<Color>) -> Seq<u8> {
        header(self.image_width as nat, image_height as nat) + pixel_lines(pixels)
    }

    /// `pixels` are the colours that `pixel` gave for the places of an image
    /// `width` wide and `height` high, row by row from the top, and from left
    /// to right in each row.
    pub open spec fn in_raster_order<F: Fn(usize, usize) -> (Color, Color)>(
        pixel: F,
        width: usize,
        height: usize,
        pixels: Seq<(Color, Color)>,
    ) -> bool {
        &&& pixels.len() == height * width
        &&& forall|i: usize, j: usize|
            i < width && j < height ==> call_ensures(pixel, (i, j), #[trigger] pixels[j * width + i])
    }

    /// The height of the image in pixels. `ratio` is the image width divided
    /// by the aspect ratio.
    ///
    /// The height is `ratio` cut to an integer, and never less than 1: a
    /// ratio below 1, a negative one and a NaN all give height 1.
    #[verifier::when_used_as_spec(spec_image_height)]
    pub fn image_height(ratio: Scalar) -> (r: usize)
        ensures
            r == Self::spec_image_height(ratio),
            r >= 1,
    {
        let height: usize = ratio.to_usize();
        if height < 1 {
            1
        } else {
            height
        }
    }

    /// The range of parameters within which a traced ray is tested against
    /// the scene: from `0.001`, so that a scattered ray does not hit the
    /// point that it starts from, to infinity. Both ends are excluded.
    #[verifier::when_used_as_spec(spec_ray_interval)]
    pub fn ray_interval() -> (r: Interval)
        ensures
            r == Self::spec_ray_interval(),
    {
        Interval::new(Scalar::from_bits(SHADOW_ACNE_BITS), Scalar::infinity())
    }

    /// Whether a ray starts at a random point of the defocus disk: it does
    /// where the defocus angle is above 0, and at the camera's centre
    /// otherwise.
    #[verifier::when_used_as_spec(spec_has_defocus)]
    pub fn has_defocus(&self) -> (r: bool)
        ensures
            r == self.spec_has_defocus(),
    {
        self.defocus_angle.gt(Scalar::zero())
    }

    /// One level of a traced path: what a ray with `depth` bounces left is
    /// worth, given what it met.
    ///
    /// With no bounce left the ray is black, whatever it met. Else a ray that
    /// missed the scene is worth the background; one that was absorbed is
    /// black; one that was scattered is worth the attenuation times the
    /// scattered ray, which is traced with one bounce less.
    #[verifier::when_used_as_spec(spec_ray_color)]
    pub fn ray_color(depth: usize, met: Encounter) -> (r: Trace)
        ensures
            r == Self::spec_ray_color(depth, met),
            r matches Trace::Bounce { depth: left, .. } ==> left < depth,
    {
        if depth == 0 {
            return Trace::Black;
        }
        match met {
            Encounter::Miss => Trace::Background,
            Encounter::Absorbed => Trace::Black,
            Encounter::Scattered(scatter) => Trace::Bounce {
                attenuation: scatter.attenuation,
                scattered: scatter.scattered,
                depth: depth - 1,
            },
        }
    }

    /// Finds what a ray meets in a scene. `measure` gives what the ray
    /// measures of each surface of the scene, in the order of the surfaces,
    /// and `propose` gives, for a hit, what the ray proposes to the material.
    ///
    /// The scene is tested within [`Camera::ray_interval`], as by
    /// [`HittableList::hit`]. A ray that hits nothing is a miss, and
    /// `propose` is not asked. Else the material of the nearest hit decides,
    /// as by [`Material::scatter`](crate::material::Material::scatter): the
    /// ray is scattered with what the material sends on, or absorbed.
    pub fn meet<P: Fn(Ray) -> Vec<Probe>, C: Fn(Ray, HitRecord) -> Candidates>(
        world: &HittableList,
        ray: Ray,
        measure: &P,
        propose: &C,
    ) -> (r: Encounter)
        requires
            call_requires(*measure, (ray,)),
            forall|rec: HitRecord| call_requires(*propose, (ray, rec)),
        ensures
            Self::meets(world, ray, *measure, *propose, r),
    {
        let probes = measure(ray);
        match world.hit(&probes, Self::ray_interval()) {
            None => Encounter::Miss,
            Some(rec) => {
                let candidates = propose(ray, rec);
                match rec.mat.scatter(&rec, &candidates) {
                    Some(scatter) => Encounter::Scattered(scatter),
                    None => Encounter::Absorbed,
                }
            },
        }
    }

    /// Traces a path: follows a ray from bounce to bounce until it ends.
    /// `meet` says what a ray meets in the scene.
    ///
    /// Each level is decided as by [`Camera::ray_color`]. A ray with no bounce
    /// left ends the path in the dark, and is not traced. Else `meet` is asked
    /// once: a ray that hit nothing ends the path in the background, an
    /// absorbed one in the dark, and a scattered one adds its attenuation to
    /// the path, which goes on with the scattered ray and one bounce less.
    /// So the path has at most `depth` bounces.
    pub fn trace<F: Fn(Ray) -> Encounter>(ray: Ray, depth: usize, meet: F) -> (r: Path)
        requires
            forall|any: Ray| call_requires(meet, (any,)),
        ensures
            r.attenuations@.len() <= depth,
            Self::follows(meet, ray, depth as nat, r.attenuations@, r.end),
    {
        let mut attenuations: Vec<Color> = Vec::new();
        let mut current = ray;
        let mut left: usize = depth;
        loop
            invariant
                forall|any: Ray| call_requires(meet, (any,)),
                attenuations@.len() + left == depth,
                forall|rest: Seq<Color>, end: PathEnd| #[trigger]
                    Self::follows(meet, current, left as nat, rest, end) ==> Self::follows(
                        meet,
                        ray,
                        depth as nat,
                        attenuations@ + rest,
                        end,
                    ),
            decreases left,
        {
            if left == 0 {
                assert(Self::follows(meet, current, 0, Seq::empty(), PathEnd::Black));
                assert(attenuations@ + Seq::empty() =~= attenuations@);
                return Path { attenuations, end: PathEnd::Black };
            }
            let met = meet(current);
            match Self::ray_color(left, met) {
                Trace::Black => {
                    assert(Self::follows(meet, current, left as nat, Seq::empty(), PathEnd::Black));
                    assert(attenuations@ + Seq::empty() =~= attenuations@);
                    return Path { attenuations, end: PathEnd::Black };
                },
                Trace::Background => {
                    let end = PathEnd::Background { ray: current };
                    assert(Self::follows(meet, current, left as nat, Seq::empty(), end));
                    assert(attenuations@ + Seq::empty() =~= attenuations@);
                    return Path { attenuations, end };
                },
                Trace::Bounce { attenuation, scattered, depth: next } => {
                    proof {
                        let scatter = Scatter { attenuation, scattered };
                        assert(met == Encounter::Scattered(scatter));
                        assert(next == left - 1);
                        assert forall|rest: Seq<Color>, end: PathEnd| #[trigger]
                            Self::follows(meet, scattered, next as nat, rest, end) implies Self::follows(
                            meet,
                            ray,
                            depth as nat,
                            attenuations@.push(attenuation) + rest,
                            end,
                        ) by {
                            let longer = seq![attenuation] + rest;
                            assert(longer.skip(1) =~= rest);
                            assert(longer.len() > 0 && longer[0] == scatter.attenuation);
                            let met = Self::asked(meet);
                            assert(met(current, Encounter::Scattered(scatter)));
                            assert(Self::follows_by(
                                met,
                                scatter.scattered,
                                (left - 1) as nat,
                                longer.skip(1),
                                end,
                            ));
                            assert(Self::follows_by(met, current, left as nat, longer, end));
                            assert(Self::follows(meet, current, left as nat, longer, end));
                            assert(attenuations@.push(attenuation) + rest =~= attenuations@
                                + longer);
                        }
                    }
                    attenuations.push(attenuation);
                    current = scattered;
                    left = next;
                },
            }
        }
    }

    /// Traces a path through a scene: as [`Camera::trace`], where what a ray
    /// meets is found as by [`Camera::meet`].
    pub fn trace_scene<P: Fn(Ray) -> Vec<Probe>, C: Fn(Ray, HitRecord) -> Candidates>(
        world: &HittableList,
        ray: Ray,
        depth: usize,
        measure: &P,
        propose: &C,
    ) -> (r: Path)
        requires
            forall|any: Ray| call_requires(*measure, (any,)),
            forall|any: Ray, rec: HitRecord| call_requires(*propose, (any, rec)),
        ensures
            r.attenuations@.len() <= depth,
            Self::follows_by(
                Self::met_in(world, *measure, *propose),
                ray,
                depth as nat,
                r.attenuations@,
                r.end,
            ),
    {
        let meet = |any: Ray| -> (met: Encounter)
            ensures
                Self::meets(world, any, *measure, *propose, met),
            { Self::meet(world, any, measure, propose) };
        let path = Self::trace(ray, depth, meet);
        proof {
            lemma_follows_by_wider(
                Self::asked(meet),
                Self::met_in(world, *measure, *propose),
                ray,
                depth as nat,
                path.attenuations@,
                path.end,
            );
        }
        path
    }

    /// Renders an image as plain-text PPM. `ratio` is the image width divided
    /// by the aspect ratio, and `pixel(i, j)` gives the pixel in column `i` of
    /// row `j`: its linear colour, and with it the square roots of the three
    /// channels.
    ///
    /// The image is as wide as the camera says and as high as
    /// [`Camera::image_height`] makes of `ratio`. `pixel` is asked once for
    /// each place, row by row from the top and from left to right. What comes
    /// back is written as by [`Color::write_color`]: gamma transform, then
    /// saturation to `[0, 0.9999]`, then the byte. The image is the header
    /// and one line for each pixel, width times height of them.
    pub fn render<F: Fn(usize, usize) -> (Color, Color)>(&self, ratio: Scalar, pixel: F) -> (r:
        Vec<u8>)
        requires
            forall|i: usize, j: usize|
                i < self.image_width && j < Self::spec_image_height(ratio) ==> call_requires(
                    pixel,
                    (i, j),
                ),
        ensures
            self.renders(ratio, pixel, r@),
    {
        let width: usize = self.image_width;
        let height: usize = Self::image_height(ratio);
        let mut output: Vec<u8> = Vec::new();
        push_header(&mut output, width, height);
        let ghost mut pixels: Seq<(Color, Color)> = Seq::empty();
        proof {
            assert(shown(pixels) =~= Seq::<Color>::empty());
        }
        let mut j: usize = 0;
        while j < height
            invariant
                j <= height,
                width == self.image_width,
                height == Self::spec_image_height(ratio),
                forall|i: usize, j: usize| i < width && j < height ==> call_requires(pixel, (i, j)),
                Self::in_raster_order(pixel, width, j, pixels),
                output@ == self.spec_encode(height, shown(pixels)),
            decreases height - j,
        {
            let mut i: usize = 0;
            while i < width
                invariant
                    i <= width,
                    j < height,
                    width == self.image_width,
                    forall|i: usize, j: usize|
                        i < width && j < height ==> call_requires(pixel, (i, j)),
                    pixels.len() == j * width + i,
                    forall|a: usize, b: usize|
                        (b < j && a < width) || (b == j && a < i) ==> call_ensures(
                            pixel,
                            (a, b),
                            #[trigger] pixels[b * width + a],
                        ),
                    output@ == self.spec_encode(height, shown(pixels)),
                decreases width - i,
            {
                let (color, roots) = pixel(i, j);
                Color::write_color(&mut output, color, roots);
                proof {
                    let before = pixels;
                    pixels = pixels.push((color, roots));
                    assert(shown(pixels).drop_last() =~= shown(before));
                    assert(shown(pixels).last() == color.spec_gamma(roots));
                    assert forall|a: usize, b: usize|
                        (b < j && a < width) || (b == j && a < i + 1) implies call_ensures(
                        pixel,
                        (a, b),
                        #[trigger] pixels[b * width + a],
                    ) by {
                        lemma_raster_index(width as int, a as int, b as int, i as int, j as int);
                    }
                }
                i += 1;
            }
            proof {
                assert((j + 1) * width == j * width + width) by (nonlinear_arith);
                assert forall|a: usize, b: usize| a < width && b < j + 1 implies call_ensures(
                    pixel,
                    (a, b),
                    #[trigger] pixels[b * width + a],
                ) by {}
            }
            j += 1;
        }
        proof {
            assert(0 * width == 0) by (nonlinear_arith);
            assert(Self::in_raster_order(pixel, width, height, pixels));
        }
        output
    }

    /// Writes an image as plain-text PPM: the header for this camera's width
    /// and the given height, then one line for each pixel, in the order
    /// given, which is row by row from the top. The colours are taken as they
    /// are to be shown, and written as by [`Color::write_encoded`]: no gamma
    /// transform is applied.
    pub fn encode(&self, image_height: usize, pixels: &Vec<Color>) -> (r: Vec<u8>)
        ensures
            r@ == self.spec_encode(image_height, pixels@),
    {
        let mut output: Vec<u8> = Vec::new();
        push_header(&mut output, self.image_width, image_height);
        let mut i: usize = 0;
        while i < pixels.len()
            invariant
                i <= pixels.len(),
                output@ == header(self.image_width as nat, image_height as nat) + pixel_lines(
                    pixels@.take(i as int),
                ),
            decreases pixels.len() - i,
        {
            assert(pixels@.take(i + 1).drop_last() =~= pixels@.take(i as int));
            Color::write_encoded(&mut output, pixels[i]);
            i += 1;
        }
        assert(pixels@.take(i as int) =~= pixels@);
        output
    }
}

impl Default for Camera {
    /// A square image 100 pixels wide, 10 samples for each pixel and at most
    /// 10 bounces; a view of 90 degrees from the origin towards `(0, 0, -1)`,
    /// with `(0, 1, 0)` up; no defocus, and focus at distance 10.
    fn default() -> (r: Camera)
        ensures
            r.aspect_ratio.bits == crate::scalar::ONE_BITS,
            r.image_width == 100,
            r.samples_per_pixel == 10,
            r.max_depth == 10,
            r.vfov.bits == 0x4056_8000_0000_0000,
            r.lookfrom == Point3(
                Vec3 { x: Scalar { bits: 0 }, y: Scalar { bits: 0 }, z: Scalar { bits: 0 } },
            ),
            r.lookat == Point3(
                Vec3 {
                    x: Scalar { bits: 0 },
                    y: Scalar { bits: 0 },
                    z: Scalar { bits: 0xBFF0_0000_0000_0000 },
                },
            ),
            r.vup == (Vec3 {
                x: Scalar { bits: 0 },
                y: Scalar { bits: crate::scalar::ONE_BITS },
                z: Scalar { bits: 0 },
            }),
            r.defocus_angle.bits == 0,
            r.focus_dist.bits == 0x4024_0000_0000_0000,
    {
        Camera {
            aspect_ratio: Scalar::one(),
            image_width: 100,
            samples_per_pixel: 10,
            max_depth: 10,
            vfov: Scalar::from_bits(0x4056_8000_0000_0000),
            lookfrom: Point3::new(Scalar::zero(), Scalar::zero(), Scalar::zero()),
            lookat: Point3::new(Scalar::zero(), Scalar::zero(), Scalar::one().neg()),
            vup: Vec3::new(Scalar::zero(), Scalar::one(), Scalar::zero()),
            defocus_angle: Scalar::zero(),
            focus_dist: Scalar::from_bits(0x4024_0000_0000_0000),
        }
    }
}

/// Places in raster order have indices in raster order: a place in an earlier
/// row, or earlier in the same row, has the smaller index.
proof fn lemma_raster_index(width: int, a: int, b: int, i: int, j: int)
    requires
        0 <= a < width,
        0 <= b,
        0 <= i < width,
        (b < j) || (b == j && a <= i),
    ensures
        0 <= b * width + a <= j * width + i,
        b * width + a == j * width + i <==> b == j && a == i,
{
    assert(b * width >= 0) by (nonlinear_arith)
        requires
            b >= 0,
            width > 0,
    ;
    if b < j {
        assert((b + 1) * width <= j * width) by (nonlinear_arith)
            requires
                b + 1 <= j,
                width > 0,
        ;
        assert((b + 1) * width == b * width + width) by (nonlinear_arith);
    }
}

/// An image is determined by its size and by the bytes of its pixels: two
/// lists of pixels of the same length whose colours stand for the same bytes,
/// one by one, give the same lines. So rendering the same pixels again gives
/// the same image, byte for byte.
pub proof fn lemma_lines_depend_on_bytes(a: Seq<Color>, b: Seq<Color>)
    requires
        a.len() == b.len(),
        forall|i: int| 0 <= i < a.len() ==> (#[trigger] a[i]).spec_to_bytes() == b[i].spec_to_bytes(),
    ensures
        pixel_lines(a) == pixel_lines(b),
    decreases a.len(),
{
    if a.len() > 0 {
        lemma_lines_depend_on_bytes(a.drop_last(), b.drop_last());
        assert(a.last().spec_to_bytes() == b.last().spec_to_bytes());
    }
}

/// An image is text: it holds no byte but digits, spaces, newlines and the
/// letter `P`, all of them ASCII.
pub proof fn lemma_image_is_text(camera: Camera, image_height: usize, pixels: Seq<Color>)
    ensures
        is_image_text(camera.spec_encode(image_height, pixels)),
        is_image_text(pixel_lines(pixels)),
    decreases pixels.len(),
{
    lemma_header_and_line_are_text(camera.image_width as nat, image_height as nat, 0, 0, 0);
    if pixels.len() > 0 {
        lemma_image_is_text(camera, image_height, pixels.drop_last());
        let (r, g, b) = pixels.last().spec_to_bytes();
        lemma_header_and_line_are_text(0, 0, r, g, b);
    }
}

/// Rendering is repeatable: where the source of the pixels gives one colour
/// for each place, however often it is asked, two renders by the same camera
/// give the same image, byte for byte.
pub proof fn lemma_render_repeatable<F: Fn(usize, usize) -> (Color, Color)>(
    camera: Camera,
    ratio: Scalar,
    pixel: F,
    first: Seq<u8>,
    second: Seq<u8>,
)
    requires
        Camera::repeatable(pixel),
        camera.renders(ratio, pixel, first),
        camera.renders(ratio, pixel, second),
    ensures
        first == second,
{
    let width = camera.image_width;
    let height = Camera::spec_image_height(ratio);
    let a = choose|pixels: Seq<(Color, Color)>|
        #[trigger] Camera::in_raster_order(pixel, width, height, pixels) && first
            == camera.spec_encode(height, shown(pixels));
    let b = choose|pixels: Seq<(Color, Color)>|
        #[trigger] Camera::in_raster_order(pixel, width, height, pixels) && second
            == camera.spec_encode(height, shown(pixels));
    assert forall|k: int| 0 <= k < a.len() implies a[k] == b[k] by {
        assert(width > 0) by (nonlinear_arith)
            requires
                0 <= k < height * width,
        ;
        let i = k % (width as int);
        let j = k / (width as int);
        lemma_fundamental_div_mod(k, width as int);
        assert(0 <= j < height) by (nonlinear_arith)
            requires
                0 <= k < height * width,
                k == width * j + i,
                0 <= i < width,
        ;
        assert(j * width + i == k) by (nonlinear_arith)
            requires
                k == width * j + i,
        ;
        let iu = i as usize;
        let ju = j as usize;
        assert(call_ensures(pixel, (iu, ju), a[ju * width + iu]));
        assert(call_ensures(pixel, (iu, ju), b[ju * width + iu]));
    }
    assert(a =~= b);
}

/// A path under a relation is a path under every wider relation: where
/// whatever `narrow` relates a ray to, `wide` relates it to as well.
pub proof fn lemma_follows_by_wider(
    narrow: spec_fn(Ray, Encounter) -> bool,
    wide: spec_fn(Ray, Encounter) -> bool,
    ray: Ray,
    depth: nat,
    attenuations: Seq<Color>,
    end: PathEnd,
)
    requires
        forall|any: Ray, met: Encounter| #[trigger] narrow(any, met) ==> wide(any, met),
        Camera::follows_by(narrow, ray, depth, attenuations, end),
    ensures
        Camera::follows_by(wide, ray, depth, attenuations, end),
    decreases attenuations.len(),
{
    if attenuations.len() > 0 {
        let scatter = choose|scatter: Scatter|
            {
                &&& #[trigger] narrow(ray, Encounter::Scattered(scatter))
                &&& scatter.attenuation == attenuations[0]
                &&& Camera::follows_by(
                    narrow,
                    scatter.scattered,
                    (depth - 1) as nat,
                    attenuations.skip(1),
                    end,
                )
            };
        lemma_follows_by_wider(
            narrow,
            wide,
            scatter.scattered,
            (depth - 1) as nat,
            attenuations.skip(1),
            end,
        );
        assert(wide(ray, Encounter::Scattered(scatter)));
    }
}

/// A path is determined by what its rays meet: where each ray meets one
/// thing only, a ray and a number of bounces have one path only.
pub proof fn lemma_path_is_unique(
    met: spec_fn(Ray, Encounter) -> bool,
    ray: Ray,
    depth: nat,
    first: Seq<Color>,
    first_end: PathEnd,
    second: Seq<Color>,
    second_end: PathEnd,
)
    requires
        Camera::single_valued(met),
        Camera::follows_by(met, ray, depth, first, first_end),
        Camera::follows_by(met, ray, depth, second, second_end),
    ensures
        first == second,
        first_end == second_end,
    decreases first.len(),
{
    if first.len() > 0 {
        let one = choose|scatter: Scatter|
            {
                &&& #[trigger] met(ray, Encounter::Scattered(scatter))
                &&& scatter.attenuation == first[0]
                &&& Camera::follows_by(
                    met,
                    scatter.scattered,
                    (depth - 1) as nat,
                    first.skip(1),
                    first_end,
                )
            };
        if second.len() == 0 {
            assert(met(ray, Encounter::Absorbed) || met(ray, Encounter::Miss));
            assert(Encounter::Scattered(one) != Encounter::Absorbed);
            assert(Encounter::Scattered(one) != Encounter::Miss);
        }
        let two = choose|scatter: Scatter|
            {
                &&& #[trigger] met(ray, Encounter::Scattered(scatter))
                &&& scatter.attenuation == second[0]
                &&& Camera::follows_by(
                    met,
                    scatter.scattered,
                    (depth - 1) as nat,
                    second.skip(1),
                    second_end,
                )
            };
        assert(Encounter::Scattered(one) == Encounter::Scattered(two));
        lemma_path_is_unique(
            met,
            one.scattered,
            (depth - 1) as nat,
            first.skip(1),
            first_end,
            second.skip(1),
            second_end,
        );
        assert(first =~= seq![first[0]] + first.skip(1));
        assert(second =~= seq![second[0]] + second.skip(1));
    } else {
        if second.len() > 0 {
            let two = choose|scatter: Scatter|
                {
                    &&& #[trigger] met(ray, Encounter::Scattered(scatter))
                    &&& scatter.attenuation == second[0]
                    &&& Camera::follows_by(
                        met,
                        scatter.scattered,
                        (depth - 1) as nat,
                        second.skip(1),
                        second_end,
                    )
                };
            assert(Encounter::Scattered(two) != Encounter::Absorbed);
            assert(Encounter::Scattered(two) != Encounter::Miss);
        }
        assert(Encounter::Absorbed != Encounter::Miss);
        assert(first =~= second);
    }
}

} // verus!
