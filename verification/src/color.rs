//! Colours.
use crate::interval::Interval;
use crate::ppm::{pixel_line, push_pixel};
use crate::scalar::{lemma_to_byte_monotonic, Scalar};
use crate::vec::Vec3;
use vstd::prelude::*;

verus! {

/// The pattern of `0.9999`, the largest intensity that is written out.
pub const INTENSITY_MAX_BITS: u64 = 0x3FEF_FF2E_48E8_A71E;

/// The range of intensities that are written out: from 0 to `0.9999`.
pub open spec fn intensity() -> Interval {
    Interval {
        min: Scalar { bits: crate::scalar::ZERO_BITS },
        max: Scalar { bits: INTENSITY_MAX_BITS },
    }
}

/// The byte that stands for an intensity: the intensity is saturated to
/// `[0, 0.9999]`, multiplied by 256 and cut to an integer.
pub open spec fn channel_byte(x: Scalar) -> u8 {
    intensity().spec_clamp(x).spec_to_byte()
}

/// A colour: red, green and blue, each meant to lie between 0 and 1.
#[derive(Clone, Copy, Debug, PartialEq, Eq, Structural)]
pub struct Color(pub Vec3);

impl Color {
    /// White: `(1, 1, 1)`.
    pub open spec fn spec_white() -> Color {
        Color(
            Vec3 {
                x: Scalar { bits: crate::scalar::ONE_BITS },
                y: Scalar { bits: crate::scalar::ONE_BITS },
                z: Scalar { bits: crate::scalar::ONE_BITS },
            },
        )
    }

    /// The blue of the sky: `(0.5, 0.7, 1)`.
    pub open spec fn spec_sky_blue() -> Color {
        Color(
            Vec3 {
                x: Scalar { bits: 0x3FE0_0000_0000_0000 },
                y: Scalar { bits: 0x3FE6_6666_6666_6666 },
                z: Scalar { bits: crate::scalar::ONE_BITS },
            },
        )
    }

    /// Black: `(0, 0, 0)`.
    pub open spec fn spec_black() -> Color {
        Color(Vec3 { x: Scalar { bits: 0 }, y: Scalar { bits: 0 }, z: Scalar { bits: 0 } })
    }

    /// The gamma transform of a linear intensity, given its square root: the
    /// root for a positive intensity, and 0 for any other.
    pub open spec fn spec_linear_to_gamma(linear_component: Scalar, square_root: Scalar) -> Scalar {
        if linear_component.spec_gt(Scalar { bits: crate::scalar::ZERO_BITS }) {
            square_root
        } else {
            Scalar { bits: crate::scalar::ZERO_BITS }
        }
    }

    /// The colour as it is shown, given the square roots of its channels:
    /// the gamma transform of each channel.
    pub open spec fn spec_gamma(&self, roots: Color) -> Color {
        Color(
            Vec3 {
                x: Self::spec_linear_to_gamma(self.0.x, roots.0.x),
                y: Self::spec_linear_to_gamma(self.0.y, roots.0.y),
                z: Self::spec_linear_to_gamma(self.0.z, roots.0.z),
            },
        )
    }

    /// The three bytes that stand for the colour.
    pub open spec fn spec_to_bytes(&self) -> (u8, u8, u8) {
        (channel_byte(self.0.x), channel_byte(self.0.y), channel_byte(self.0.z))
    }

    /// The line of text that stands for the colour in an image.
    pub open spec fn line(&self) -> Seq<u8> {
        pixel_line(channel_byte(self.0.x), channel_byte(self.0.y), channel_byte(self.0.z))
    }

    pub fn new(e0: Scalar, e1: Scalar, e2: Scalar) -> (r: Color)
        ensures
            r == Color(Vec3 { x: e0, y: e1, z: e2 }),
    {
        Color(Vec3::new(e0, e1, e2))
    }

    pub fn r(&self) -> (r: Scalar)
        ensures
            r == self.0.x,
    {
        self.0.x()
    }

    pub fn g(&self) -> (r: Scalar)
        ensures
            r == self.0.y,
    {
        self.0.y()
    }

    pub fn b(&self) -> (r: Scalar)
        ensures
            r == self.0.z,
    {
        self.0.z()
    }

    /// The "gamma 2" transform of a linear intensity, as it is to be shown.
    /// `square_root` is the square root of `linear_component`.
    ///
    /// A positive intensity is shown as its square root. Zero, a negative
    /// intensity and a NaN are shown as 0, whatever `square_root` holds.
    #[verifier::when_used_as_spec(spec_linear_to_gamma)]
    pub fn linear_to_gamma(linear_component: Scalar, square_root: Scalar) -> (r: Scalar)
        ensures
            r == Self::spec_linear_to_gamma(linear_component, square_root),
    {
        if linear_component.gt(Scalar::zero()) {
            square_root
        } else {
            Scalar::zero()
        }
    }

    /// The bytes of the three channels. Each intensity is saturated to
    /// `[0, 0.9999]`, multiplied by 256 and cut to an integer, so that the
    /// bytes run from 0 to 255.
    #[verifier::when_used_as_spec(spec_to_bytes)]
    pub fn to_bytes(&self) -> (r: (u8, u8, u8))
        ensures
            r == self.spec_to_bytes(),
    {
        let range = Interval::new(Scalar::zero(), Scalar::from_bits(INTENSITY_MAX_BITS));
        (
            range.clamp(self.0.x).to_byte(),
            range.clamp(self.0.y).to_byte(),
            range.clamp(self.0.z).to_byte(),
        )
    }

    /// The "gamma 2" transform of a linear colour, channel by channel.
    /// `roots` holds the square roots of the three channels.
    #[verifier::when_used_as_spec(spec_gamma)]
    pub fn gamma(&self, roots: Color) -> (r: Color)
        ensures
            r == self.spec_gamma(roots),
    {
        Color::new(
            Self::linear_to_gamma(self.0.x, roots.0.x),
            Self::linear_to_gamma(self.0.y, roots.0.y),
            Self::linear_to_gamma(self.0.z, roots.0.z),
        )
    }

    /// Appends the line of one pixel to an image. `color` is linear, and
    /// `roots` holds the square roots of its three channels.
    ///
    /// Each channel goes through the gamma transform first: a positive one
    /// is shown as its square root, any other as 0. What is shown is then
    /// saturated to `[0, 0.9999]`, multiplied by 256 and cut to a byte. The
    /// line holds the three bytes in decimal, a space between them, and a
    /// newline. What the output held before stays.
    pub fn write_color(output: &mut Vec<u8>, color: Color, roots: Color)
        ensures
            final(output)@ == old(output)@ + color.spec_gamma(roots).line(),
    {
        Self::write_encoded(output, color.gamma(roots));
    }

    /// Appends the line of one pixel to an image, for a colour that is
    /// given as it is to be shown: no gamma transform is applied. Each
    /// channel is saturated to `[0, 0.9999]`, multiplied by 256 and cut to a
    /// byte; the line holds the three bytes in decimal, a space between
    /// them, and a newline.
    pub fn write_encoded(output: &mut Vec<u8>, color: Color)
        ensures
            final(output)@ == old(output)@ + color.line(),
    {
        let (r, g, b) = color.to_bytes();
        push_pixel(output, r, g, b);
    }

    /// The blue of the sky, `(0.5, 0.7, 1)`: the colour of the background
    /// straight above. The background runs from white, straight below, to
    /// this blue.
    #[verifier::when_used_as_spec(spec_sky_blue)]
    pub fn sky_blue() -> (r: Color)
        ensures
            r == Self::spec_sky_blue(),
    {
        Color::new(
            Scalar::from_bits(0x3FE0_0000_0000_0000),
            Scalar::from_bits(0x3FE6_6666_6666_6666),
            Scalar::one(),
        )
    }

    /// White, the colour that tints nothing, and the colour of the
    /// background straight below.
    #[verifier::when_used_as_spec(spec_white)]
    pub fn white() -> (r: Color)
        ensures
            r == Self::spec_white(),
    {
        Color::new(Scalar::one(), Scalar::one(), Scalar::one())
    }

    /// Black, the colour of a ray that gathers no light.
    #[verifier::when_used_as_spec(spec_black)]
    pub fn black() -> (r: Color)
        ensures
            r == Self::spec_black(),
    {
        Color::new(Scalar::zero(), Scalar::zero(), Scalar::zero())
    }
}

impl Default for Color {
    /// Black.
    fn default() -> (r: Color)
        ensures
            r == Color::spec_black(),
    {
        Color::black()
    }
}

/// A brighter channel never gets a smaller byte.
pub proof fn lemma_channel_byte_monotonic(a: Scalar, b: Scalar)
    requires
        a.spec_le(b),
    ensures
        channel_byte(a) <= channel_byte(b),
{
    lemma_to_byte_monotonic(intensity().spec_clamp(a), intensity().spec_clamp(b));
}

} // verus!
