//! The operations on binary32 bit patterns that round: conversions from
//! integers, and sums with one. All round as IEEE-754 does by default: to the
//! nearest number, ties to the even significand.

use crate::float::{nearest_representable, round_half_even, scaled, spacing, Float};
use vstd::arithmetic::div_mod::{
    lemma_fundamental_div_mod, lemma_fundamental_div_mod_converse, lemma_mod_multiples_basic,
};
use vstd::arithmetic::power2::{
    lemma2_to64, lemma_pow2_adds, lemma_pow2_pos, lemma_pow2_strictly_increases,
    lemma_pow2_unfold, pow2,
};
use vstd::prelude::*;

verus! {

/// Between `2^(23+k)` and `2^(24+k)` neighbouring numbers are `2^k` apart.
pub proof fn lemma_spacing(v: nat, k: nat)
    requires
        v < pow2(24 + k),
        k == 0 || v >= pow2(23 + k),
    ensures
        spacing(v) == pow2(k),
    decreases k,
{
    lemma2_to64();
    if k == 0 {
    } else {
        lemma_pow2_unfold(24 + k);
        lemma_pow2_unfold(23 + k);
        lemma_pow2_unfold(k);
        if k > 1 {
            lemma_pow2_strictly_increases(24, 23 + k);
        }
        assert(v >= 0x100_0000);
        assert(v / 2 < pow2((24 + k - 1) as nat));
        assert(v / 2 >= pow2((23 + k - 1) as nat));
        assert(23 + (k - 1) as nat == 23 + k - 1);
        assert(24 + (k - 1) as nat == 24 + k - 1);
        lemma_spacing(v / 2, (k - 1) as nat);
    }
}

/// A significand times a power of two is held exactly: it is a multiple of
/// the spacing around it.
pub proof fn lemma_exact(m: nat, u: nat)
    requires
        m < 0x100_0000,
    ensures
        spacing(m * pow2(u)) > 0,
        (m * pow2(u)) % spacing(m * pow2(u)) == 0,
        nearest_representable(m * pow2(u)) == m * pow2(u),
    decreases u,
{
    let v = m * pow2(u);
    lemma2_to64();
    if v < 0x100_0000 {
        assert(spacing(v) == 1);
    } else {
        if u == 0 {
            assert(m * pow2(0) == m) by (nonlinear_arith)
                requires
                    pow2(0) == 1,
            ;
        }
        assert(u > 0);
        lemma_pow2_unfold(u);
        let w = m * pow2((u - 1) as nat);
        assert(v == 2 * w) by (nonlinear_arith)
            requires
                v == m * pow2(u),
                pow2(u) == 2 * pow2((u - 1) as nat),
                w == m * pow2((u - 1) as nat),
        ;
        assert(v / 2 == w);
        lemma_exact(m, (u - 1) as nat);
        let s = spacing(w);
        assert(spacing(v) == 2 * s);
        lemma_fundamental_div_mod(w as int, s as int);
        let k = w / s;
        assert(w == s * k);
        assert(v == (2 * s) * k) by (nonlinear_arith)
            requires
                v == 2 * w,
                w == s * k,
        ;
        lemma_mod_multiples_basic(k as int, (2 * s) as int);
        assert((k * (2 * s)) % (2 * s) == 0);
        assert(k * (2 * s) == (2 * s) * k) by (nonlinear_arith);
    }
    let s = spacing(v);
    lemma_fundamental_div_mod(v as int, s as int);
    assert(v == s * (v / s));
    assert((v / s) * s == v) by (nonlinear_arith)
        requires
            v == s * (v / s),
    ;
}

/// Above `2^24` the spacing scales with the number.
pub proof fn lemma_spacing_scales(m: nat, u: nat)
    requires
        m >= 0x100_0000,
    ensures
        spacing(m * pow2(u)) == spacing(m) * pow2(u),
    decreases u,
{
    lemma2_to64();
    if u == 0 {
        assert(m * pow2(0) == m) by (nonlinear_arith)
            requires
                pow2(0) == 1,
        ;
        assert(spacing(m) * pow2(0) == spacing(m)) by (nonlinear_arith)
            requires
                pow2(0) == 1,
        ;
    } else {
        lemma_pow2_unfold(u);
        lemma_pow2_pos((u - 1) as nat);
        let w = m * pow2((u - 1) as nat);
        let v = m * pow2(u);
        assert(v == 2 * w) by (nonlinear_arith)
            requires
                v == m * pow2(u),
                pow2(u) == 2 * pow2((u - 1) as nat),
                w == m * pow2((u - 1) as nat),
        ;
        assert(w >= m) by (nonlinear_arith)
            requires
                w == m * pow2((u - 1) as nat),
                pow2((u - 1) as nat) >= 1,
        ;
        assert(v >= 0x100_0000);
        assert(v / 2 == w);
        assert(spacing(v) == 2 * spacing(w));
        lemma_spacing_scales(m, (u - 1) as nat);
        assert(2 * (spacing(m) * pow2((u - 1) as nat)) == spacing(m) * (2 * pow2((u - 1) as nat)))
            by (nonlinear_arith);
    }
}

/// Rounding to a multiple scales with the number and the multiple.
pub proof fn lemma_round_scales(m: nat, q: nat, p: nat)
    requires
        q > 0,
        p > 0,
    ensures
        round_half_even(m * p, q * p) == round_half_even(m, q) * p,
{
    let below = m / q;
    let rest = m % q;
    lemma_fundamental_div_mod(m as int, q as int);
    assert(m * p == below * (q * p) + rest * p) by (nonlinear_arith)
        requires
            m == q * below + rest,
    ;
    assert(q * p > 0) by (nonlinear_arith)
        requires
            q > 0,
            p > 0,
    ;
    assert(0 <= rest * p < q * p) by (nonlinear_arith)
        requires
            0 <= rest < q,
            p > 0,
    ;
    lemma_fundamental_div_mod_converse(
        (m * p) as int,
        (q * p) as int,
        below as int,
        (rest * p) as int,
    );
    assert((m * p) / (q * p) == below);
    assert((m * p) % (q * p) == rest * p);
    assert((2 * (rest * p) < q * p) == (2 * rest < q)) by (nonlinear_arith)
        requires
            p > 0,
    ;
    assert((2 * (rest * p) == q * p) == (2 * rest == q)) by (nonlinear_arith)
        requires
            p > 0,
    ;
    assert(below * (q * p) == (below * q) * p) by (nonlinear_arith);
    assert((below + 1) * (q * p) == ((below + 1) * q) * p) by (nonlinear_arith);
}

/// Above `2^24`, rounding a number times a power of two is rounding the
/// number, times that power.
pub proof fn lemma_nearest_scales(m: nat, u: nat)
    requires
        m >= 0x100_0000,
    ensures
        nearest_representable(m * pow2(u)) == nearest_representable(m) * pow2(u),
{
    lemma_spacing_scales(m, u);
    lemma_pow2_pos(u);
    assert(spacing(m) > 0) by {
        lemma_spacing_positive(m);
    }
    lemma_round_scales(m, spacing(m), pow2(u));
}

/// The spacing is never zero.
pub proof fn lemma_spacing_positive(v: nat)
    ensures
        spacing(v) > 0,
    decreases v,
{
    if v >= 0x100_0000 {
        lemma_spacing_positive(v / 2);
    }
}

/// Assembles a normal number from its parts.
fn assemble(negative: bool, exponent: u32, significand: u32) -> (r: Float)
    requires
        1 <= exponent <= 254,
        0x80_0000 <= significand < 0x100_0000,
    ensures
        r.is_finite(),
        r.is_negative() == negative,
        r.exponent() == exponent,
        r.significand() == significand,
        r.scale() == exponent,
        scaled(r) == significand * pow2((exponent - 1) as nat),
{
    let magnitude: u32 = exponent * 0x80_0000 + (significand - 0x80_0000);
    let r = Float { bits: if negative {
        magnitude + 0x8000_0000
    } else {
        magnitude
    } };
    assert(magnitude < 0x8000_0000);
    assert(r.bits / 0x80_0000 == if negative {
        exponent + 256
    } else {
        exponent as int
    });
    assert(r.exponent() == exponent);
    assert(r.fraction() == significand - 0x80_0000);
    r
}

/// The finite number with the given sign whose magnitude is nearest to
/// `m * 2^unit`, in units of `2^-149`.
fn from_fixed(negative: bool, m: u128, unit: u32) -> (r: Float)
    requires
        0 < m < 0x10_0000_0000_0000_0000_0000_0000,
        23 <= unit <= 150,
    ensures
        r.is_finite(),
        r.is_negative() == negative,
        scaled(r) == nearest_representable((m * pow2(unit as nat)) as nat),
{
    if m < 0x100_0000 {
        from_fixed_exact(negative, m as u32, unit)
    } else {
        from_fixed_rounded(negative, m, unit)
    }
}

fn from_fixed_exact(negative: bool, m: u32, unit: u32) -> (r: Float)
    requires
        0 < m < 0x100_0000,
        23 <= unit <= 150,
    ensures
        r.is_finite(),
        r.is_negative() == negative,
        scaled(r) == nearest_representable((m * pow2(unit as nat)) as nat),
{
    let mut significand: u32 = m;
    let mut e: u32 = unit + 1;
    proof {
        lemma2_to64();
        assert(m == m * pow2(0)) by (nonlinear_arith)
            requires
                pow2(0) == 1,
        ;
    }
    while significand < 0x80_0000
        invariant
            0 < m,
            23 <= unit <= 150,
            unit - 22 <= e <= unit + 1,
            0 < significand < 0x100_0000,
            significand == m * pow2((unit + 1 - e) as nat),
        decreases e,
    {
        proof {
            let k = (unit + 1 - e) as nat;
            lemma2_to64();
            if k >= 23 {
                if k > 23 {
                    lemma_pow2_strictly_increases(23, k);
                }
                assert(significand >= pow2(k)) by (nonlinear_arith)
                    requires
                        significand == m * pow2(k),
                        m >= 1,
                ;
            }
            assert(k < 23);
            lemma_pow2_unfold(k + 1);
            assert((m * pow2(k)) * 2 == m * (2 * pow2(k))) by (nonlinear_arith);
        }
        significand = significand * 2;
        e = e - 1;
    }
    let r = assemble(negative, e, significand);
    proof {
        let k = (unit + 1 - e) as nat;
        lemma_pow2_adds(k, (e - 1) as nat);
        assert((m * pow2(k)) * pow2((e - 1) as nat) == m * (pow2(k) * pow2((e - 1) as nat)))
            by (nonlinear_arith);
        lemma_exact(m as nat, unit as nat);
    }
    r
}

fn from_fixed_rounded(negative: bool, m: u128, unit: u32) -> (r: Float)
    requires
        0x100_0000 <= m < 0x10_0000_0000_0000_0000_0000_0000,
        23 <= unit <= 150,
    ensures
        r.is_finite(),
        r.is_negative() == negative,
        scaled(r) == nearest_representable((m * pow2(unit as nat)) as nat),
{
    let mut q: u128 = 1;
    let mut sh: u32 = 0;
    proof {
        lemma2_to64();
    }
    while m / q >= 0x100_0000
        invariant
            m < 0x10_0000_0000_0000_0000_0000_0000,
            sh <= 76,
            q == pow2(sh as nat),
            1 <= q <= 0x1_0000_0000_0000_0000_000,
            spacing(m as nat) == q * spacing((m / q) as nat),
            m / q >= 0x80_0000,
        decreases 76 - sh,
    {
        proof {
            lemma2_to64();
            lemma_pow2_adds(64, 12);
            lemma_pow2_unfold((sh + 1) as nat);
            vstd::arithmetic::div_mod::lemma_div_denominator(m as int, q as int, 2);
            lemma_fundamental_div_mod(m as int, q as int);
            assert(q * (2 * spacing(((m / q) / 2) as nat)) == (q * 2) * spacing(
                ((m / q) / 2) as nat,
            )) by (nonlinear_arith);
            assert(q < 0x1_0000_0000_0000_0000_000) by (nonlinear_arith)
                requires
                    m / q >= 0x100_0000,
                    m < 0x10_0000_0000_0000_0000_0000_0000,
                    q >= 1,
                    m == q * (m / q) + m % q,
                    m % q >= 0,
            ;
            assert(pow2(76) == 0x1_0000_0000_0000_0000_000);
            if sh >= 76 {
                assert(false);
            }
            if sh + 1 < 76 {
                lemma_pow2_strictly_increases((sh + 1) as nat, 76);
            }
        }
        q = q * 2;
        sh = sh + 1;
    }
    let below: u128 = m / q;
    let rest: u128 = m % q;
    let round_up = 2 * rest > q || (2 * rest == q && below % 2 == 1);
    let mut significand: u32 = if round_up {
        (below + 1) as u32
    } else {
        below as u32
    };
    let ghost whole = nearest_representable(m as nat);
    proof {
        assert(spacing((m / q) as nat) == 1);
        assert(spacing(m as nat) == q) by (nonlinear_arith)
            requires
                spacing(m as nat) == q * spacing((m / q) as nat),
                spacing((m / q) as nat) == 1,
        ;
        assert(significand * q == whole);
    }
    if significand == 0x100_0000 {
        proof {
            lemma_pow2_unfold((sh + 1) as nat);
            assert(0x100_0000 * q == 0x80_0000 * (2 * q)) by (nonlinear_arith);
        }
        significand = 0x80_0000;
        sh = sh + 1;
    }
    assert(significand * pow2(sh as nat) == whole);
    let r = assemble(negative, unit + 1 + sh, significand);
    proof {
        lemma_pow2_adds(sh as nat, unit as nat);
        assert(significand * (pow2(sh as nat) * pow2(unit as nat)) == (significand * pow2(
            sh as nat,
        )) * pow2(unit as nat)) by (nonlinear_arith);
        lemma_nearest_scales(m as nat, unit as nat);
        assert((unit + 1 + sh - 1) as nat == sh as nat + unit as nat);
    }
    r
}

/// The value of a finite number in units of `2^-149`, with its sign.
pub open spec fn signed_scaled(f: Float) -> int {
    if f.is_negative() {
        -(scaled(f) as int)
    } else {
        scaled(f) as int
    }
}

/// `r` is `x + 1`, or `x - 1` if `down` is set, as IEEE-754 rounds it:
/// - a NaN gives a NaN, and an infinity gives itself;
/// - a finite number gives the finite number nearest to the exact sum, ties
///   going to the even significand, with the sign of the exact sum; an exact
///   sum of zero gives positive zero.
pub open spec fn is_sum_with_one(x: Float, down: bool, r: Float) -> bool {
    if x.is_nan() {
        r.is_nan()
    } else if x.is_infinite() {
        r == x
    } else {
        let sum = signed_scaled(x) + if down {
            -(pow2(149) as int)
        } else {
            pow2(149) as int
        };
        &&& r.is_finite()
        &&& scaled(r) == nearest_representable(vstd::math::abs(sum) as nat)
        &&& r.is_negative() == (sum < 0)
    }
}

/// A number of magnitude `2^25` or more absorbs one.
proof fn lemma_absorbed_large(sig: nat, e: nat, plus: bool)
    requires
        0x80_0000 <= sig < 0x100_0000,
        152 <= e,
    ensures
        sig * pow2((e - 1) as nat) > pow2(149),
        plus ==> nearest_representable(sig * pow2((e - 1) as nat) + pow2(149)) == sig * pow2(
            (e - 1) as nat,
        ),
        !plus ==> nearest_representable((sig * pow2((e - 1) as nat) - pow2(149)) as nat) == sig
            * pow2((e - 1) as nat),
{
    let p = pow2((e - 1) as nat);
    let one = pow2(149);
    let ratio = pow2((e - 150) as nat);
    lemma2_to64();
    lemma_pow2_pos(149);
    lemma_pow2_adds(149, (e - 150) as nat);
    if e - 150 > 2 {
        lemma_pow2_strictly_increases(2, (e - 150) as nat);
    }
    assert(ratio >= 4);
    assert(p == one * ratio);
    assert(p >= 4 * one) by (nonlinear_arith)
        requires
            p == one * ratio,
            ratio >= 4,
            one > 0,
    ;
    let s = sig * p;
    assert(s >= 0x80_0000 * p) by (nonlinear_arith)
        requires
            s == sig * p,
            sig >= 0x80_0000,
            p > 0,
    ;
    assert(s + p <= 0x100_0000 * p) by (nonlinear_arith)
        requires
            s == sig * p,
            sig < 0x100_0000,
            p > 0,
    ;
    lemma_pow2_adds(23, (e - 1) as nat);
    lemma_pow2_adds(24, (e - 1) as nat);
    if plus {
        let v = s + one;
        lemma_spacing(v, (e - 1) as nat);
        assert(v == sig * p + one);
        lemma_fundamental_div_mod_converse(v as int, p as int, sig as int, one as int);
    } else if sig > 0x80_0000 {
        let v = (s - one) as nat;
        assert(s >= 0x80_0001 * p) by (nonlinear_arith)
            requires
                s == sig * p,
                sig >= 0x80_0001,
                p > 0,
        ;
        lemma_spacing(v, (e - 1) as nat);
        assert(v == (sig - 1) * p + (p - one)) by (nonlinear_arith)
            requires
                v == sig * p - one,
        ;
        lemma_fundamental_div_mod_converse(v as int, p as int, sig - 1, p - one);
        assert((sig - 1 + 1) * p == s);
    } else {
        let h = pow2((e - 2) as nat);
        lemma_pow2_unfold((e - 1) as nat);
        assert(p == 2 * h);
        lemma_pow2_adds(23, (e - 2) as nat);
        lemma_pow2_adds(24, (e - 2) as nat);
        let v = (s - one) as nat;
        assert(s == 0x100_0000 * h) by (nonlinear_arith)
            requires
                s == sig * p,
                sig == 0x80_0000,
                p == 2 * h,
        ;
        lemma_spacing(v, (e - 2) as nat);
        assert(v == 0xff_ffff * h + (h - one)) by (nonlinear_arith)
            requires
                v == 0x100_0000 * h - one,
        ;
        lemma_fundamental_div_mod_converse(v as int, h as int, 0xff_ffff, h - one);
        assert((0xff_ffff + 1) * h == s) by (nonlinear_arith)
            requires
                s == 0x100_0000 * h,
        ;
    }
}

/// One absorbs a number of magnitude below `2^-25`.
proof fn lemma_absorbed_small(s: nat, plus: bool)
    requires
        s < pow2(124),
    ensures
        s < pow2(149),
        plus ==> nearest_representable(pow2(149) + s) == pow2(149),
        !plus ==> nearest_representable((pow2(149) - s) as nat) == pow2(149),
{
    let one = pow2(149);
    let q = pow2(126);
    let half = pow2(125);
    let quarter = pow2(124);
    lemma2_to64();
    lemma_pow2_pos(124);
    lemma_pow2_unfold(125);
    lemma_pow2_unfold(126);
    lemma_pow2_adds(23, 126);
    lemma_pow2_adds(24, 126);
    lemma_pow2_adds(23, 125);
    lemma_pow2_adds(24, 125);
    assert(q == 4 * quarter);
    assert(half == 2 * quarter);
    assert(one == 0x80_0000 * q);
    assert(one == 0x100_0000 * half) by (nonlinear_arith)
        requires
            one == 0x80_0000 * q,
            q == 2 * half,
    ;
    if plus || s == 0 {
        let v = one + s;
        lemma_spacing(v, 126);
        lemma_fundamental_div_mod_converse(v as int, q as int, 0x80_0000, s as int);
    } else {
        let v = (one - s) as nat;
        lemma_spacing(v, 125);
        assert(v == 0xff_ffff * half + (half - s)) by (nonlinear_arith)
            requires
                v == 0x100_0000 * half - s,
        ;
        lemma_fundamental_div_mod_converse(v as int, half as int, 0xff_ffff, half - s);
        assert((0xff_ffff + 1) * half == one);
    }
}

impl Float {
    /// The number plus one, rounded to the nearest binary32 number.
    pub fn add_one(self) -> (r: Float)
        ensures
            is_sum_with_one(self, false, r),
    {
        self.add_unit(false)
    }

    /// The number minus one, rounded to the nearest binary32 number.
    pub fn sub_one(self) -> (r: Float)
        ensures
            is_sum_with_one(self, true, r),
    {
        self.add_unit(true)
    }

    /// The number plus one, or minus one if `down` is set.
    fn add_unit(self, down: bool) -> (r: Float)
        ensures
            is_sum_with_one(self, down, r),
    {
        let negative = self.bits >= 0x8000_0000;
        let exponent: u32 = (self.bits / 0x80_0000) % 256;
        let fraction: u32 = self.bits % 0x80_0000;
        if exponent == 255 {
            if fraction != 0 && fraction < 0x40_0000 {
                // A signalling NaN comes out quiet.
                let r = Float { bits: self.bits + 0x40_0000 };
                assert(r.exponent() == 255);
                assert(r.fraction() == fraction + 0x40_0000);
                return r;
            }
            return self;
        }
        let scale: u32 = if exponent == 0 {
            1
        } else {
            exponent
        };
        let significand: u32 = if exponent == 0 {
            fraction
        } else {
            0x80_0000 + fraction
        };
        let ghost one = pow2(149);
        let ghost s = scaled(self);
        let same_direction = negative == down;
        if scale >= 152 {
            proof {
                lemma_absorbed_large(significand as nat, scale as nat, same_direction);
            }
            return self;
        }
        if scale <= 101 {
            proof {
                lemma2_to64();
                lemma_pow2_adds(24, 100);
                lemma_pow2_adds(23, 126);
                lemma_pow2_pos((scale - 1) as nat);
                if scale - 1 < 100 {
                    lemma_pow2_strictly_increases((scale - 1) as nat, 100);
                }
                assert(s < 0x100_0000 * pow2(100)) by (nonlinear_arith)
                    requires
                        s == significand * pow2((scale - 1) as nat),
                        significand < 0x100_0000,
                        0 < pow2((scale - 1) as nat) <= pow2(100),
                ;
                lemma_absorbed_small(s, same_direction);
            }
            let r = Float { bits: if down {
                0xbf80_0000
            } else {
                0x3f80_0000
            } };
            assert(r.exponent() == 127);
            assert(r.fraction() == 0);
            return r;
        }
        // Between: exact arithmetic in units of 2^-48.
        let mut shifted: u128 = significand as u128;
        let mut i: u32 = 0;
        proof {
            lemma2_to64();
            assert(shifted == significand * pow2(0)) by (nonlinear_arith)
                requires
                    shifted == significand,
                    pow2(0) == 1,
            ;
        }
        while i < scale - 102
            invariant
                102 <= scale <= 151,
                i <= scale - 102,
                significand < 0x100_0000,
                shifted == significand * pow2(i as nat),
                shifted < 0x100_0000 * pow2(i as nat),
                pow2(i as nat) <= 0x2_0000_0000_0000,
            decreases scale - 102 - i,
        {
            proof {
                lemma2_to64();
                vstd::arithmetic::power2::lemma2_to64_rest();
                lemma_pow2_unfold((i + 1) as nat);
                if i + 1 < 49 {
                    lemma_pow2_strictly_increases((i + 1) as nat, 49);
                }
                assert((significand * pow2(i as nat)) * 2 == significand * (2 * pow2(i as nat)))
                    by (nonlinear_arith);
                assert(shifted * 2 < 0x100_0000 * (2 * pow2(i as nat))) by (nonlinear_arith)
                    requires
                        shifted < 0x100_0000 * pow2(i as nat),
                ;
                assert(0x100_0000 * pow2(i as nat) <= 0x100_0000 * 0x2_0000_0000_0000)
                    by (nonlinear_arith)
                    requires
                        pow2(i as nat) <= 0x2_0000_0000_0000,
                ;
            }
            shifted = shifted * 2;
            i = i + 1;
        }
        let unit_one: u128 = 0x1_0000_0000_0000;
        proof {
            let u = pow2(101);
            lemma2_to64();
            vstd::arithmetic::power2::lemma2_to64_rest();
            lemma_pow2_adds((scale - 102) as nat, 101);
            lemma_pow2_adds(48, 101);
            assert(s == shifted * u) by (nonlinear_arith)
                requires
                    s == significand * pow2((scale - 1) as nat),
                    pow2((scale - 1) as nat) == pow2((scale - 102) as nat) * u,
                    shifted == significand * pow2((scale - 102) as nat),
            ;
            assert(one == unit_one * u);
            assert(0x100_0000 * pow2((scale - 102) as nat) <= 0x100_0000 * 0x2_0000_0000_0000)
                by (nonlinear_arith)
                requires
                    pow2((scale - 102) as nat) <= 0x2_0000_0000_0000,
            ;
        }
        let (result_negative, m): (bool, u128) = if same_direction {
            (negative, shifted + unit_one)
        } else if shifted > unit_one {
            (negative, shifted - unit_one)
        } else {
            (!negative, unit_one - shifted)
        };
        proof {
            let u = pow2(101);
            let sum = signed_scaled(self) + if down {
                -(one as int)
            } else {
                one as int
            };
            lemma_pow2_pos(101);
            assert(vstd::math::abs(sum) == m * u) by (nonlinear_arith)
                requires
                    s == shifted * u,
                    one == unit_one * u,
                    sum == (if negative {
                        -(s as int)
                    } else {
                        s as int
                    }) + (if down {
                        -(one as int)
                    } else {
                        one as int
                    }),
                    m == (if negative == down {
                        shifted + unit_one
                    } else if shifted > unit_one {
                        shifted - unit_one
                    } else {
                        unit_one - shifted
                    }),
                    u > 0,
            ;
            assert((sum < 0) == (m != 0 && result_negative)) by (nonlinear_arith)
                requires
                    s == shifted * u,
                    one == unit_one * u,
                    sum == (if negative {
                        -(s as int)
                    } else {
                        s as int
                    }) + (if down {
                        -(one as int)
                    } else {
                        one as int
                    }),
                    m == (if negative == down {
                        shifted + unit_one
                    } else if shifted > unit_one {
                        shifted - unit_one
                    } else {
                        unit_one - shifted
                    }),
                    result_negative == (if negative == down {
                        negative
                    } else if shifted > unit_one {
                        negative
                    } else {
                        !negative
                    }),
                    unit_one > 0,
                    u > 0,
            ;
        }
        if m == 0 {
            let r = Float { bits: 0 };
            assert(scaled(r) == 0) by (nonlinear_arith)
                requires
                    scaled(r) == 0 * pow2(0),
            ;
            assert(nearest_representable(0) == 0);
            return r;
        }
        from_fixed(result_negative, m, 101)
    }
}

/// A finite number whose magnitude is `2^149` times a whole number, in units
/// of `2^-149`, is that whole number.
pub proof fn lemma_whole_of_scaled(f: Float, whole: nat)
    requires
        f.is_finite(),
        scaled(f) == whole * pow2(149),
    ensures
        f.is_whole(f.is_negative(), whole),
{
    let sig = f.significand();
    let e = f.scale();
    lemma_pow2_pos(149);
    if e >= 150 {
        let k = (e - 150) as nat;
        lemma_pow2_adds(k, 149);
        assert(sig * pow2(k) == whole) by (nonlinear_arith)
            requires
                sig * (pow2(k) * pow2(149)) == whole * pow2(149),
                pow2(149) > 0,
        ;
    } else {
        let k = (150 - e) as nat;
        let p = pow2(k);
        lemma_pow2_pos(k);
        lemma_pow2_pos((e - 1) as nat);
        lemma_pow2_adds(k, (e - 1) as nat);
        assert(sig == whole * p) by (nonlinear_arith)
            requires
                sig * pow2((e - 1) as nat) == whole * (p * pow2((e - 1) as nat)),
                pow2((e - 1) as nat) > 0,
        ;
        vstd::arithmetic::div_mod::lemma_div_by_multiple(whole as int, p as int);
        lemma_mod_multiples_basic(whole as int, p as int);
    }
}

impl Float {
    /// A count as a binary32 number: the nearest number that binary32 holds.
    pub open spec fn spec_from_u64(v: u64) -> Float {
        Self::whole(false, nearest_representable(v as nat))
    }

    /// The number with the given sign whose magnitude is the whole number
    /// nearest to `m` that binary32 holds.
    fn from_magnitude(negative: bool, m: u64) -> (r: Float)
        requires
            negative ==> m > 0,
        ensures
            r == Self::whole(negative, nearest_representable(m as nat)),
            r.is_whole(negative, nearest_representable(m as nat)),
            m == 0 ==> r.bits == 0,
    {
        let ghost whole = nearest_representable(m as nat);
        let r = if m == 0 {
            proof {
                lemma_pow2_pos(149);
                vstd::arithmetic::div_mod::lemma_small_mod(0, pow2(149));
                vstd::arithmetic::div_mod::lemma_basic_div(0, pow2(149) as int);
            }
            Float { bits: 0 }
        } else {
            let r = from_fixed(negative, m as u128, 149);
            proof {
                if m < 0x100_0000 {
                    lemma_exact(m as nat, 149);
                } else {
                    lemma_nearest_scales(m as nat, 149);
                }
                lemma_whole_of_scaled(r, whole);
            }
            r
        };
        proof {
            assert(r.is_whole(negative, whole));
            assert(Self::whole(negative, whole).is_whole(negative, whole));
            crate::float::lemma_whole_unique(r, Self::whole(negative, whole), negative, whole);
        }
        r
    }

    /// Converts an unsigned word as a numeric cast does: to the nearest
    /// number that binary32 holds, ties going to the even significand.
    pub fn from_u32(v: u32) -> (r: Float)
        ensures
            r == Self::spec_from_u32(v),
            r.is_whole(false, nearest_representable(v as nat)),
            v == 0 ==> r.bits == 0,
    {
        Self::from_magnitude(false, v as u64)
    }

    /// Converts a count as a numeric cast does: to the nearest number that
    /// binary32 holds, ties going to the even significand.
    pub fn from_u64(v: u64) -> (r: Float)
        ensures
            r == Self::spec_from_u64(v),
            r.is_whole(false, nearest_representable(v as nat)),
    {
        Self::from_magnitude(false, v)
    }

    /// Converts a signed word as a numeric cast does: the sign is kept and
    /// the magnitude goes to the nearest number that binary32 holds.
    pub fn from_i32(v: i32) -> (r: Float)
        ensures
            r == Self::spec_from_i32(v),
            r.is_whole(v < 0, nearest_representable(vstd::math::abs(v as int) as nat)),
            v == 0 ==> r.bits == 0,
    {
        let magnitude: u64 = if v >= 0 {
            v as u64
        } else {
            (-(v as i64)) as u64
        };
        Self::from_magnitude(v < 0, magnitude)
    }
}

/// A sum with one has one result, but for a NaN, of which only its being a
/// NaN is fixed.
pub proof fn lemma_sum_determined(x: Float, down: bool, a: Float, b: Float)
    requires
        !x.is_nan(),
        is_sum_with_one(x, down, a),
        is_sum_with_one(x, down, b),
    ensures
        a == b,
{
    if x.is_finite() {
        crate::float::lemma_scaled_injective(a, b);
    }
}

} // verus!
