//! Scalars: IEEE 754 binary64 values, held by their bit patterns.
//!
//! The layout is the standard one: bit 63 is the sign, bits 52 to 62 the
//! biased exponent, bits 0 to 51 the fraction. Everything in this module is
//! exact: it reads or rewrites bits and never rounds.
use vstd::arithmetic::div_mod::{
    lemma_basic_div, lemma_div_by_multiple, lemma_div_denominator, lemma_div_is_ordered,
};
use vstd::arithmetic::mul::lemma_mul_is_associative;
use vstd::arithmetic::power2::{
    lemma2_to64, lemma2_to64_rest, lemma_pow2_adds, lemma_pow2_pos, lemma_pow2_strictly_increases,
    lemma_pow2_unfold, pow2,
};
use vstd::bits::{lemma_u64_shl_is_mul, lemma_u64_shr_is_div};
use vstd::prelude::*;

verus! {

/// The sign bit of a scalar.
pub const SIGN_BIT: u64 = 0x8000_0000_0000_0000;

/// The pattern of positive infinity; every larger magnitude is a NaN.
pub const INFINITY_BITS: u64 = 0x7FF0_0000_0000_0000;

/// The weight of the exponent field, `2^52`: also the bit that a normal
/// significand holds above its fraction.
pub const HIDDEN_BIT: u64 = 0x10_0000_0000_0000;

/// The pattern of `0.0`.
pub const ZERO_BITS: u64 = 0;

/// The pattern of `1.0`.
pub const ONE_BITS: u64 = 0x3FF0_0000_0000_0000;

/// A binary64 value, identified by its 64 bits.
///
/// `==` on scalars compares bit patterns. It is finer than numeric equality:
/// the two zeros differ, and a NaN equals itself. Numeric comparisons are the
/// methods [`Scalar::lt`], [`Scalar::le`], [`Scalar::gt`], [`Scalar::ge`] and
/// [`Scalar::equals`].
#[derive(Clone, Copy, Debug, PartialEq, Eq, Structural)]
pub struct Scalar {
    pub bits: u64,
}

impl Scalar {
    /// The pattern without its sign bit.
    pub open spec fn magnitude(self) -> int {
        if self.bits >= SIGN_BIT {
            self.bits - SIGN_BIT
        } else {
            self.bits as int
        }
    }

    /// The sign bit is set. This holds of `-0.0` too.
    pub open spec fn sign(self) -> bool {
        self.bits >= SIGN_BIT
    }

    /// The value is a NaN: it compares with nothing.
    pub open spec fn is_nan_spec(self) -> bool {
        self.magnitude() > INFINITY_BITS
    }

    /// The integer that orders scalars as their values are ordered: the
    /// magnitude, negated under a set sign bit. Both zeros have key 0.
    pub open spec fn key(self) -> int {
        if self.sign() {
            -self.magnitude()
        } else {
            self.magnitude()
        }
    }

    /// Numeric `<`: false as soon as one side is a NaN.
    pub open spec fn spec_lt(self, other: Scalar) -> bool {
        !self.is_nan_spec() && !other.is_nan_spec() && self.key() < other.key()
    }

    /// Numeric `<=`: false as soon as one side is a NaN.
    pub open spec fn spec_le(self, other: Scalar) -> bool {
        !self.is_nan_spec() && !other.is_nan_spec() && self.key() <= other.key()
    }

    /// Numeric `==`: false as soon as one side is a NaN, true of the two
    /// zeros.
    pub open spec fn spec_equals(self, other: Scalar) -> bool {
        !self.is_nan_spec() && !other.is_nan_spec() && self.key() == other.key()
    }

    /// Numeric `>`.
    pub open spec fn spec_gt(self, other: Scalar) -> bool {
        other.spec_lt(self)
    }

    /// Numeric `>=`.
    pub open spec fn spec_ge(self, other: Scalar) -> bool {
        other.spec_le(self)
    }

    /// The same value with the opposite sign bit.
    pub open spec fn spec_neg(self) -> Scalar {
        if self.bits >= SIGN_BIT {
            Scalar { bits: (self.bits - SIGN_BIT) as u64 }
        } else {
            Scalar { bits: (self.bits + SIGN_BIT) as u64 }
        }
    }

    /// The same value with a clear sign bit.
    pub open spec fn spec_abs(self) -> Scalar {
        Scalar { bits: self.magnitude() as u64 }
    }

    /// The larger of two scalars; a NaN loses against anything.
    pub open spec fn spec_max(self, other: Scalar) -> Scalar {
        if self.is_nan_spec() || self.spec_lt(other) {
            other
        } else {
            self
        }
    }

    /// The biased exponent: bits 52 to 62.
    pub open spec fn exponent_field(self) -> int {
        self.magnitude() / (HIDDEN_BIT as int)
    }

    /// The significand, as an integer: the fraction, and above it the hidden
    /// bit unless the exponent field is 0.
    pub open spec fn significand(self) -> nat {
        let fraction = self.magnitude() % (HIDDEN_BIT as int);
        if self.exponent_field() == 0 {
            fraction as nat
        } else {
            (HIDDEN_BIT + fraction) as nat
        }
    }

    /// The power of two by which the significand is scaled: the absolute
    /// value of a finite scalar is `significand() * 2^exponent()`.
    pub open spec fn exponent(self) -> int {
        if self.exponent_field() == 0 {
            -1074
        } else {
            self.exponent_field() - 1075
        }
    }

    /// The absolute value times `2^1074`. This is an integer, since no
    /// exponent is below -1074. For an infinity it is `2^2098`, above every
    /// finite value.
    pub open spec fn scaled_magnitude(self) -> nat {
        self.significand() * pow2((self.exponent() + 1074) as nat)
    }

    /// The value times `2^1074`, as an integer.
    pub open spec fn scaled_value(self) -> int {
        if self.sign() {
            -(self.scaled_magnitude() as int)
        } else {
            self.scaled_magnitude() as int
        }
    }

    /// The absolute value times `2^k`, rounded down to an integer.
    pub open spec fn floor_scaled(self, k: nat) -> nat {
        let e = self.exponent() + k;
        if e >= 0 {
            self.significand() * pow2(e as nat)
        } else {
            self.significand() / pow2((-e) as nat)
        }
    }

    /// 256 times the value, cut to an integer and saturated to a byte: 0 for
    /// a NaN and for anything negative, 255 from 1 on.
    pub open spec fn spec_to_byte(self) -> u8 {
        if self.is_nan_spec() || self.sign() {
            0
        } else if self.floor_scaled(8) <= 255 {
            self.floor_scaled(8) as u8
        } else {
            255
        }
    }

    /// The value cut to an integer and saturated to a `usize`: 0 for a NaN
    /// and for anything negative.
    pub open spec fn spec_to_usize(self) -> usize {
        if self.is_nan_spec() || self.sign() {
            0
        } else if self.floor_scaled(0) <= usize::MAX {
            self.floor_scaled(0) as usize
        } else {
            usize::MAX
        }
    }

    /// The scalar with the given bit pattern.
    pub fn from_bits(bits: u64) -> (r: Scalar)
        ensures
            r.bits == bits,
    {
        Scalar { bits }
    }

    /// The bit pattern of the scalar.
    pub fn to_bits(self) -> (r: u64)
        ensures
            r == self.bits,
    {
        self.bits
    }

    /// `0.0`.
    pub fn zero() -> (r: Scalar)
        ensures
            r.bits == ZERO_BITS,
    {
        Scalar { bits: ZERO_BITS }
    }

    /// `1.0`.
    pub fn one() -> (r: Scalar)
        ensures
            r.bits == ONE_BITS,
    {
        Scalar { bits: ONE_BITS }
    }

    /// Positive infinity.
    pub fn infinity() -> (r: Scalar)
        ensures
            r.bits == INFINITY_BITS,
    {
        Scalar { bits: INFINITY_BITS }
    }

    fn magnitude_bits(self) -> (r: u64)
        ensures
            r == self.magnitude(),
            r < SIGN_BIT,
    {
        if self.bits >= SIGN_BIT {
            self.bits - SIGN_BIT
        } else {
            self.bits
        }
    }

    /// Whether the sign bit is set.
    pub fn is_sign_negative(self) -> (r: bool)
        ensures
            r == self.sign(),
    {
        self.bits >= SIGN_BIT
    }

    /// Whether the value is a NaN.
    #[verifier::when_used_as_spec(is_nan_spec)]
    pub fn is_nan(self) -> (r: bool)
        ensures
            r == self.is_nan_spec(),
    {
        self.magnitude_bits() > INFINITY_BITS
    }

    /// Numeric `self < other`.
    #[verifier::when_used_as_spec(spec_lt)]
    pub fn lt(self, other: Scalar) -> (r: bool)
        ensures
            r == self.spec_lt(other),
    {
        let a: u64 = self.magnitude_bits();
        let b: u64 = other.magnitude_bits();
        if a > INFINITY_BITS || b > INFINITY_BITS {
            false
        } else if self.bits >= SIGN_BIT {
            if other.bits >= SIGN_BIT {
                b < a
            } else {
                a > 0 || b > 0
            }
        } else {
            other.bits < SIGN_BIT && a < b
        }
    }

    /// Numeric `self <= other`.
    #[verifier::when_used_as_spec(spec_le)]
    pub fn le(self, other: Scalar) -> (r: bool)
        ensures
            r == self.spec_le(other),
    {
        let a: u64 = self.magnitude_bits();
        let b: u64 = other.magnitude_bits();
        if a > INFINITY_BITS || b > INFINITY_BITS {
            false
        } else if self.bits >= SIGN_BIT {
            other.bits < SIGN_BIT || b <= a
        } else if other.bits >= SIGN_BIT {
            a == 0 && b == 0
        } else {
            a <= b
        }
    }

    /// Numeric `self == other`.
    #[verifier::when_used_as_spec(spec_equals)]
    pub fn equals(self, other: Scalar) -> (r: bool)
        ensures
            r == self.spec_equals(other),
    {
        self.le(other) && other.le(self)
    }

    /// Numeric `self > other`.
    #[verifier::when_used_as_spec(spec_gt)]
    pub fn gt(self, other: Scalar) -> (r: bool)
        ensures
            r == self.spec_gt(other),
    {
        other.lt(self)
    }

    /// Numeric `self >= other`.
    #[verifier::when_used_as_spec(spec_ge)]
    pub fn ge(self, other: Scalar) -> (r: bool)
        ensures
            r == self.spec_ge(other),
    {
        other.le(self)
    }

    /// The negation: the sign bit is flipped, nothing is rounded.
    #[verifier::when_used_as_spec(spec_neg)]
    pub fn neg(self) -> (r: Scalar)
        ensures
            r == self.spec_neg(),
    {
        if self.bits >= SIGN_BIT {
            Scalar { bits: self.bits - SIGN_BIT }
        } else {
            Scalar { bits: self.bits + SIGN_BIT }
        }
    }

    /// The absolute value: the sign bit is cleared.
    #[verifier::when_used_as_spec(spec_abs)]
    pub fn abs(self) -> (r: Scalar)
        ensures
            r == self.spec_abs(),
    {
        Scalar { bits: self.magnitude_bits() }
    }

    /// The larger of the two; where one is a NaN, the other. Of two zeros, or
    /// of two equal values, `self`.
    #[verifier::when_used_as_spec(spec_max)]
    pub fn max(self, other: Scalar) -> (r: Scalar)
        ensures
            r == self.spec_max(other),
    {
        if self.is_nan() || self.lt(other) {
            other
        } else {
            self
        }
    }

    /// `floor_scaled(k)`, saturated to `limit`.
    fn floor_scaled_up_to(self, k: u64, limit: u64) -> (r: u64)
        requires
            !self.is_nan_spec(),
            !self.sign(),
            k <= 64,
        ensures
            r == if self.floor_scaled(k as nat) <= limit {
                self.floor_scaled(k as nat)
            } else {
                limit as nat
            },
    {
        let field: u64 = self.bits / HIDDEN_BIT;
        let fraction: u64 = self.bits % HIDDEN_BIT;
        let significand: u64 = if field == 0 {
            fraction
        } else {
            fraction + HIDDEN_BIT
        };
        let biased: u64 = if field == 0 {
            1
        } else {
            field
        };
        assert(significand == self.significand());
        assert(biased - 1075 == self.exponent());
        proof {
            lemma2_to64();
            lemma2_to64_rest();
        }
        let floor: u64 = if biased + k < 1075 {
            let shift: u64 = 1075 - (biased + k);
            if shift >= 64 {
                proof {
                    if shift > 64 {
                        lemma_pow2_strictly_increases(64, shift as nat);
                    }
                    lemma_basic_div(significand as int, pow2(shift as nat) as int);
                }
                0
            } else {
                proof {
                    lemma_u64_shr_is_div(significand, shift);
                }
                significand >> shift
            }
        } else {
            let shift: u64 = biased + k - 1075;
            if shift >= 12 {
                proof {
                    if shift > 12 {
                        lemma_pow2_strictly_increases(12, shift as nat);
                    }
                    let p = pow2(shift as nat);
                    assert(significand * p >= 0x1_0000_0000_0000_0000) by (nonlinear_arith)
                        requires
                            significand >= 0x10_0000_0000_0000,
                            p >= 0x1000,
                    ;
                }
                return limit;
            }
            proof {
                if shift < 11 {
                    lemma_pow2_strictly_increases(shift as nat, 11);
                }
                let p = pow2(shift as nat);
                assert(significand * p <= 0xFFFF_FFFF_FFFF_FFFF) by (nonlinear_arith)
                    requires
                        significand < 0x20_0000_0000_0000,
                        p <= 0x800,
                ;
                lemma_u64_shl_is_mul(significand, shift);
            }
            significand << shift
        };
        if floor <= limit {
            floor
        } else {
            limit
        }
    }

    /// Quantises an intensity to a byte: 256 times the value, cut to an
    /// integer, and saturated. Exact: multiplying by 256 rounds nothing.
    ///
    /// A NaN and every negative value give 0; every value from 1 on gives
    /// 255; `0.5` gives 128.
    #[verifier::when_used_as_spec(spec_to_byte)]
    pub fn to_byte(self) -> (r: u8)
        ensures
            r == self.spec_to_byte(),
    {
        if self.bits >= SIGN_BIT || self.bits > INFINITY_BITS {
            0
        } else {
            self.floor_scaled_up_to(8, 255) as u8
        }
    }

    /// Cuts the value to an integer, towards zero, and saturates it to a
    /// `usize`. A NaN and every negative value give 0.
    #[verifier::when_used_as_spec(spec_to_usize)]
    pub fn to_usize(self) -> (r: usize)
        ensures
            r == self.spec_to_usize(),
    {
        if self.bits >= SIGN_BIT || self.bits > INFINITY_BITS {
            0
        } else {
            self.floor_scaled_up_to(0, usize::MAX as u64) as usize
        }
    }
}

/// A larger magnitude stands for a larger absolute value.
proof fn lemma_magnitude_orders(a: Scalar, b: Scalar)
    requires
        a.magnitude() < b.magnitude() <= INFINITY_BITS,
    ensures
        a.scaled_magnitude() < b.scaled_magnitude(),
{
    let ea = (a.exponent() + 1074) as nat;
    let eb = (b.exponent() + 1074) as nat;
    let sa = a.significand();
    let sb = b.significand();
    let pa = pow2(ea);
    let pb = pow2(eb);
    lemma_pow2_pos(ea);
    assert(a.exponent_field() <= b.exponent_field());
    if ea == eb {
        // The same power of two: the fields are equal, or 0 and 1.
        assert(sa < sb);
        assert(sa * pa < sb * pa) by (nonlinear_arith)
            requires
                sa < sb,
                pa > 0,
        ;
    } else {
        lemma_pow2_unfold((ea + 1) as nat);
        if ea + 1 < eb {
            lemma_pow2_strictly_increases((ea + 1) as nat, eb);
        }
        assert(sa * pa < sb * pb) by (nonlinear_arith)
            requires
                sa < 0x20_0000_0000_0000,
                sb >= 0x10_0000_0000_0000,
                pa > 0,
                pb >= 2 * pa,
        ;
    }
}

/// The key orders scalars as their values are ordered: of two scalars that
/// are not NaNs, the one with the smaller key has the smaller value, and
/// equal keys stand for equal values.
pub proof fn lemma_key_orders_values(a: Scalar, b: Scalar)
    requires
        !a.is_nan_spec(),
        !b.is_nan_spec(),
    ensures
        a.key() < b.key() <==> a.scaled_value() < b.scaled_value(),
        a.key() == b.key() <==> a.scaled_value() == b.scaled_value(),
{
    let zero = Scalar { bits: 0 };
    assert(zero.scaled_magnitude() == 0) by {
        assert(zero.significand() == 0);
        assert(zero.significand() * pow2((zero.exponent() + 1074) as nat) == 0) by (nonlinear_arith)
            requires
                zero.significand() == 0,
        ;
    }
    let ma = a.spec_abs();
    let mb = b.spec_abs();
    assert(ma.scaled_magnitude() == a.scaled_magnitude());
    assert(mb.scaled_magnitude() == b.scaled_magnitude());
    if ma.magnitude() < mb.magnitude() {
        lemma_magnitude_orders(ma, mb);
    }
    if mb.magnitude() < ma.magnitude() {
        lemma_magnitude_orders(mb, ma);
    }
    if 0 < ma.magnitude() {
        lemma_magnitude_orders(zero, ma);
    }
    if 0 < mb.magnitude() {
        lemma_magnitude_orders(zero, mb);
    }
}

/// Negation and absolute value are exact: the negation of a scalar has the
/// opposite value, its absolute value has the absolute value, and either is
/// a NaN only if the scalar is one.
pub proof fn lemma_neg_and_abs(x: Scalar)
    ensures
        x.spec_neg().scaled_value() == -x.scaled_value(),
        x.spec_abs().scaled_value() == if x.scaled_value() < 0 {
            -x.scaled_value()
        } else {
            x.scaled_value()
        },
        x.spec_neg().is_nan_spec() == x.is_nan_spec(),
        x.spec_abs().is_nan_spec() == x.is_nan_spec(),
        x.spec_neg().spec_neg() == x,
{
    assert(x.spec_neg().scaled_magnitude() == x.scaled_magnitude());
    assert(x.spec_abs().scaled_magnitude() == x.scaled_magnitude());
}

/// `floor_scaled` is what its name says: the absolute value, which is
/// `scaled_magnitude() / 2^1074`, times `2^k`, rounded down.
pub proof fn lemma_floor_scaled(x: Scalar, k: nat)
    ensures
        x.floor_scaled(k) == (x.scaled_magnitude() * pow2(k)) / pow2(1074),
{
    let sig = x.significand() as int;
    let up = (x.exponent() + 1074) as nat;
    lemma_pow2_adds(up, k);
    lemma_mul_is_associative(sig, pow2(up) as int, pow2(k) as int);
    assert(x.scaled_magnitude() * pow2(k) == sig * pow2(up + k));
    if x.exponent() + k >= 0 {
        let e = (x.exponent() + k) as nat;
        lemma_pow2_adds(e, 1074);
        lemma_pow2_pos(1074);
        lemma_pow2_pos(e);
        lemma_mul_is_associative(sig, pow2(e) as int, pow2(1074) as int);
        assert(sig * pow2(e) >= 0) by (nonlinear_arith)
            requires
                sig >= 0,
                pow2(e) > 0,
        ;
        lemma_div_by_multiple(sig * pow2(e), pow2(1074) as int);
    } else {
        let d = (-(x.exponent() + k)) as nat;
        lemma_pow2_adds(up + k, d);
        lemma_pow2_pos(up + k);
        lemma_pow2_pos(d);
        let low = pow2(up + k) as int;
        assert(sig * low >= 0) by (nonlinear_arith)
            requires
                sig >= 0,
                low > 0,
        ;
        lemma_div_denominator(sig * low, low, pow2(d) as int);
        lemma_div_by_multiple(sig, low);
    }
}

/// A larger value never gives a smaller byte.
pub proof fn lemma_to_byte_monotonic(a: Scalar, b: Scalar)
    requires
        a.spec_le(b),
    ensures
        a.spec_to_byte() <= b.spec_to_byte(),
{
    if !a.sign() && !b.sign() {
        lemma_floor_scaled(a, 8);
        lemma_floor_scaled(b, 8);
        if a.magnitude() < b.magnitude() {
            lemma_magnitude_orders(a, b);
        }
        lemma_pow2_pos(8);
        lemma_pow2_pos(1074);
        let p = pow2(8);
        assert(a.scaled_magnitude() * p <= b.scaled_magnitude() * p) by (nonlinear_arith)
            requires
                a.scaled_magnitude() <= b.scaled_magnitude(),
                p > 0,
        ;
        lemma_div_is_ordered(
            (a.scaled_magnitude() * p) as int,
            (b.scaled_magnitude() * p) as int,
            pow2(1074) as int,
        );
    } else if !a.sign() {
        // `b` is the negative zero, and so `a` is the positive one.
        assert(a.significand() == 0);
        lemma_pow2_pos(1066);
        lemma_basic_div(0, pow2(1066) as int);
    }
}

} // verus!
