//! IEEE-754 binary32 numbers, held by their bit patterns.
//!
//! Every operation here is integer arithmetic on the 32 bits of a number, and
//! its contract says what the operation means for the number those bits
//! denote.

use vstd::arithmetic::power2::{
    lemma2_to64, lemma_pow2_adds, lemma_pow2_pos, lemma_pow2_strictly_increases, pow2,
};
use vstd::bits::{lemma_u64_shl_is_mul, lemma_u64_shr_is_div};
use vstd::prelude::*;

verus! {

/// The implicit leading bit of a normal significand, `2^23`.
pub const HIDDEN_BIT: u32 = 0x80_0000;

/// The sign bit, `2^31`.
pub const SIGN_BIT: u32 = 0x8000_0000;

/// The exponent field of a number whose significand counts units of one.
pub const UNIT_EXPONENT: u32 = 150;

/// A binary32 number as its bit pattern: one sign bit, eight exponent bits and
/// twenty-three fraction bits, most significant first.
///
/// Equality is equality of bit patterns: a NaN equals itself, and the two
/// zeros differ.
#[derive(Clone, Copy, Debug, PartialEq, Eq, Structural)]
pub struct Float {
    pub bits: u32,
}

/// The gap between neighbouring binary32 numbers at the whole number `v`: one
/// below `2^24`, and doubling with each further doubling of `v`.
pub open spec fn spacing(v: nat) -> nat
    decreases v,
{
    if v < 0x100_0000 {
        1
    } else {
        2 * spacing(v / 2)
    }
}

/// The multiple of `q` nearest to `v`; halfway between two multiples, the even
/// one.
pub open spec fn round_half_even(v: nat, q: nat) -> nat {
    let below = v / q;
    let rest = v % q;
    if 2 * rest < q || (2 * rest == q && below % 2 == 0) {
        below * q
    } else {
        (below + 1) * q
    }
}

/// The whole number that a binary32 number can hold and that is nearest to
/// `v`, ties going to the even significand.
pub open spec fn nearest_representable(v: nat) -> nat {
    round_half_even(v, spacing(v))
}

impl Float {
    /// The sign bit is set.
    pub open spec fn is_negative(self) -> bool {
        self.bits >= 0x8000_0000
    }

    /// The biased exponent field, `0..=255`.
    pub open spec fn exponent(self) -> nat {
        ((self.bits / 0x80_0000) % 256) as nat
    }

    /// The fraction field, below `2^23`.
    pub open spec fn fraction(self) -> nat {
        (self.bits % 0x80_0000) as nat
    }

    pub open spec fn is_nan(self) -> bool {
        self.exponent() == 255 && self.fraction() != 0
    }

    pub open spec fn is_infinite(self) -> bool {
        self.exponent() == 255 && self.fraction() == 0
    }

    /// Zero, subnormal or normal.
    pub open spec fn is_finite(self) -> bool {
        self.exponent() < 255
    }

    /// The significand as an integer: the fraction, with the hidden bit unless
    /// the number is zero or subnormal.
    pub open spec fn significand(self) -> nat {
        if self.exponent() == 0 {
            self.fraction()
        } else {
            0x80_0000 + self.fraction()
        }
    }

    /// The power of two that scales the significand, plus 150: the magnitude
    /// of the number is `significand * 2^(scale - 150)`.
    pub open spec fn scale(self) -> nat {
        if self.exponent() == 0 {
            1
        } else {
            self.exponent()
        }
    }

    /// The magnitude rounded down to an integer. Infinities and NaNs count as
    /// the (huge) number that their fields would denote.
    pub open spec fn magnitude_floor(self) -> nat {
        if self.scale() >= 150 {
            self.significand() * pow2((self.scale() - 150) as nat)
        } else {
            self.significand() / pow2((150 - self.scale()) as nat)
        }
    }

    /// The number is finite and has no fractional part.
    pub open spec fn is_integral(self) -> bool {
        self.is_finite() && (self.scale() >= 150 || self.significand() % pow2(
            (150 - self.scale()) as nat,
        ) == 0)
    }

    /// The number is the whole number `whole`, negated if `negative` is set.
    /// At most one bit pattern is: see [`lemma_whole_unique`].
    pub open spec fn is_whole(self, negative: bool, whole: nat) -> bool {
        &&& self.is_negative() == negative
        &&& self.is_integral()
        &&& self.magnitude_floor() == whole
    }

    /// The number that is the whole number `whole`, negated if `negative` is
    /// set. It is the only one, where there is one: see
    /// [`lemma_whole_unique`].
    pub open spec fn whole(negative: bool, whole: nat) -> Float {
        choose|f: Float| f.is_whole(negative, whole)
    }

    /// An unsigned word as a binary32 number: the nearest number that
    /// binary32 holds, ties going to the even significand.
    pub open spec fn spec_from_u32(v: u32) -> Float {
        Self::whole(false, nearest_representable(v as nat))
    }

    /// A signed word as a binary32 number: its sign, and the nearest
    /// magnitude that binary32 holds.
    pub open spec fn spec_from_i32(v: i32) -> Float {
        Self::whole(v < 0, nearest_representable(vstd::math::abs(v as int) as nat))
    }

    /// The number truncated toward zero and clamped to the range of `i32`;
    /// zero for a NaN.
    pub open spec fn truncated(self) -> int {
        if self.is_nan() {
            0
        } else if self.is_negative() {
            if self.magnitude_floor() >= 0x8000_0000 {
                i32::MIN as int
            } else {
                -(self.magnitude_floor() as int)
            }
        } else {
            if self.magnitude_floor() >= 0x8000_0000 {
                i32::MAX as int
            } else {
                self.magnitude_floor() as int
            }
        }
    }

    /// The number with the given bit pattern.
    pub fn from_bits(bits: u32) -> (r: Float)
        ensures
            r.bits == bits,
    {
        Float { bits }
    }

    /// The bit pattern of the number.
    pub fn to_bits(self) -> (r: u32)
        ensures
            r == self.bits,
    {
        self.bits
    }

    /// Whether the number is zero, subnormal or normal.
    pub fn finite(&self) -> (r: bool)
        ensures
            r == self.is_finite(),
    {
        (self.bits / HIDDEN_BIT) % 256 != 255
    }

    /// Positive zero.
    pub fn zero() -> (r: Float)
        ensures
            r.bits == 0,
    {
        Float { bits: 0 }
    }

    /// The number one.
    pub fn one() -> (r: Float)
        ensures
            r.bits == 0x3f80_0000,
    {
        Float { bits: 0x3f80_0000 }
    }

    /// Converts to a signed word as a numeric cast does: the fractional part
    /// is dropped, a number out of range goes to the nearest bound, and a NaN
    /// goes to zero.
    pub fn to_i32(self) -> (r: i32)
        ensures
            r == self.truncated(),
    {
        let negative = self.bits >= SIGN_BIT;
        let exponent: u32 = (self.bits / HIDDEN_BIT) % 256;
        let fraction: u32 = self.bits % HIDDEN_BIT;
        if exponent == 255 && fraction != 0 {
            return 0;
        }
        if exponent < 127 {
            proof {
                let k = (150 - self.scale()) as nat;
                lemma2_to64();
                if k > 24 {
                    lemma_pow2_strictly_increases(24, k);
                }
                vstd::arithmetic::div_mod::lemma_basic_div(
                    self.significand() as int,
                    pow2(k) as int,
                );
            }
            return 0;
        }
        let significand: u64 = (HIDDEN_BIT + fraction) as u64;
        if exponent >= 158 {
            proof {
                let k = (self.scale() - 150) as nat;
                lemma2_to64();
                if k > 8 {
                    lemma_pow2_strictly_increases(8, k);
                }
                assert(pow2(k) >= 256);
                assert(self.significand() * pow2(k) >= 0x80_0000 * 256) by (nonlinear_arith)
                    requires
                        self.significand() >= 0x80_0000,
                        pow2(k) >= 256,
                ;
            }
            return if negative {
                i32::MIN
            } else {
                i32::MAX
            };
        }
        let magnitude: u64 = if exponent >= UNIT_EXPONENT {
            let k: u64 = (exponent - UNIT_EXPONENT) as u64;
            proof {
                lemma2_to64();
                lemma_pow2_strictly_increases(k as nat, 8);
                assert(significand * pow2(k as nat) < 0x100_0000 * 256) by (nonlinear_arith)
                    requires
                        significand < 0x100_0000,
                        pow2(k as nat) < 256,
                ;
                lemma_u64_shl_is_mul(significand, k);
            }
            significand << k
        } else {
            let k: u64 = (UNIT_EXPONENT - exponent) as u64;
            proof {
                lemma_u64_shr_is_div(significand, k);
            }
            significand >> k
        };
        assert(magnitude == self.magnitude_floor());
        proof {
            // Below exponent 158 the magnitude is under 2^31.
            if exponent >= UNIT_EXPONENT {
                let k = (exponent - 150) as nat;
                lemma2_to64();
                lemma_pow2_strictly_increases(k, 8);
                assert(pow2(k) <= 128) by {
                    if k < 7 {
                        lemma_pow2_strictly_increases(k, 7);
                    }
                }
                assert(significand * pow2(k) < 0x100_0000 * 128) by (nonlinear_arith)
                    requires
                        significand < 0x100_0000,
                        pow2(k) <= 128,
                ;
            } else {
                lemma_pow2_pos((150 - exponent) as nat);
                vstd::arithmetic::div_mod::lemma_div_nonincreasing(
                    significand as int,
                    pow2((150 - exponent) as nat) as int,
                );
            }
        }
        if negative {
            -(magnitude as i32)
        } else {
            magnitude as i32
        }
    }
}

/// The magnitude of a number in units of `2^-149`, the smallest positive
/// binary32 number: a whole number for every bit pattern.
pub open spec fn scaled(f: Float) -> nat {
    f.significand() * pow2((f.scale() - 1) as nat)
}

/// A number without fractional part is `2^149` times its whole magnitude,
/// in units of `2^-149`.
pub proof fn lemma_scaled_of_integral(f: Float)
    requires
        f.is_integral(),
    ensures
        scaled(f) == f.magnitude_floor() * pow2(149),
{
    let sig = f.significand();
    let e = f.scale();
    if e >= 150 {
        let k = (e - 150) as nat;
        lemma_pow2_adds(k, 149);
        assert(sig * (pow2(k) * pow2(149)) == (sig * pow2(k)) * pow2(149)) by (nonlinear_arith);
    } else {
        let k = (150 - e) as nat;
        let p = pow2(k);
        lemma_pow2_pos(k);
        lemma_pow2_adds(k, (e - 1) as nat);
        vstd::arithmetic::div_mod::lemma_fundamental_div_mod(sig as int, p as int);
        let whole = sig / p;
        assert(sig == p * whole);
        assert((p * whole) * pow2((e - 1) as nat) == whole * (p * pow2((e - 1) as nat)))
            by (nonlinear_arith);
    }
}

/// Two finite numbers of one sign and one magnitude have one bit pattern.
pub proof fn lemma_scaled_injective(a: Float, b: Float)
    requires
        a.is_finite(),
        b.is_finite(),
        a.is_negative() == b.is_negative(),
        scaled(a) == scaled(b),
    ensures
        a == b,
{
    let sa = a.significand();
    let sb = b.significand();
    let ea = a.scale();
    let eb = b.scale();
    if ea < eb {
        lemma_scaled_ordered(a, b);
    } else if eb < ea {
        lemma_scaled_ordered(b, a);
    } else {
        let p = pow2((ea - 1) as nat);
        lemma_pow2_pos((ea - 1) as nat);
        assert(sa == sb) by (nonlinear_arith)
            requires
                sa * p == sb * p,
                p > 0,
        ;
        assert(a.exponent() == b.exponent());
        assert(a.fraction() == b.fraction());
        assert(a.bits == b.bits);
    }
}

/// A finite number on a lower scale than another is smaller in magnitude.
proof fn lemma_scaled_ordered(a: Float, b: Float)
    requires
        a.is_finite(),
        b.is_finite(),
        a.scale() < b.scale(),
    ensures
        scaled(a) < scaled(b),
{
    let sa = a.significand();
    let sb = b.significand();
    let ea = a.scale();
    let eb = b.scale();
    let pa = pow2((ea - 1) as nat);
    let pb = pow2((eb - 1) as nat);
    lemma_pow2_pos((ea - 1) as nat);
    lemma_pow2_adds((ea - 1) as nat, (eb - ea) as nat);
    lemma_pow2_pos((eb - ea) as nat);
    lemma2_to64();
    if eb - ea > 1 {
        lemma_pow2_strictly_increases(1, (eb - ea) as nat);
    }
    let r = pow2((eb - ea) as nat);
    assert(r >= 2);
    assert(pb == pa * r);
    assert(sb >= 0x80_0000);
    assert(sa < 0x100_0000);
    assert(sa * pa < sb * (pa * r)) by (nonlinear_arith)
        requires
            sa < 0x100_0000,
            sb >= 0x80_0000,
            r >= 2,
            pa > 0,
    ;
}

/// At most one bit pattern is a given whole number with a given sign.
pub proof fn lemma_whole_unique(a: Float, b: Float, negative: bool, whole: nat)
    requires
        a.is_whole(negative, whole),
        b.is_whole(negative, whole),
    ensures
        a == b,
{
    lemma_scaled_of_integral(a);
    lemma_scaled_of_integral(b);
    lemma_scaled_injective(a, b);
}

/// A whole number below `2^24` is held exactly.
pub proof fn lemma_small_whole_exact(v: nat)
    requires
        v < 0x100_0000,
    ensures
        nearest_representable(v) == v,
{
}

/// Converting a whole number to binary32 and truncating it back gives the
/// nearest representable number, clamped to the signed range.
pub proof fn lemma_truncated_of_whole(f: Float, negative: bool, whole: nat)
    requires
        f.is_whole(negative, whole),
    ensures
        f.truncated() == if negative {
            if whole >= 0x8000_0000 {
                i32::MIN as int
            } else {
                -(whole as int)
            }
        } else {
            if whole >= 0x8000_0000 {
                i32::MAX as int
            } else {
                whole as int
            }
        },
{
}

} // verus!
