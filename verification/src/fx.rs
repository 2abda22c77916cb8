//! Fixed-point scalar arithmetic.
//!
//! A [`Fx`] holds a signed quantity in units of `1 / SCALE`: the
//! represented value is `raw / SCALE`. All operations truncate toward
//! zero where they divide, and clamp to the `i64` range where they would
//! overflow (the fixed-point analogue of floating-point saturation).
//! Every operation is pinned to an exact specification function, so whole
//! simulations built from these operations are reproducible bit for bit.

use vstd::prelude::*;

verus! {

/// Number of raw units per whole unit: values carry six decimal places.
pub const SCALE: i64 = 1_000_000;

/// A fixed-point scalar: the represented value is `raw / SCALE`.
#[derive(Clone, Copy, Debug, PartialEq, Eq, Structural)]
pub struct Fx {
    pub raw: i64,
}

impl View for Fx {
    type V = int;

    open spec fn view(&self) -> int {
        self.raw as int
    }
}

/// Magnitude of an integer.
pub open spec fn iabs(x: int) -> int {
    if x < 0 {
        -x
    } else {
        x
    }
}

/// Clamp an unbounded integer into the `i64` range.
pub open spec fn clamp_raw(x: int) -> int {
    if x > i64::MAX as int {
        i64::MAX as int
    } else if x < i64::MIN as int {
        i64::MIN as int
    } else {
        x
    }
}

/// Division truncating toward zero (the rounding of Rust's `/` on signed
/// integers), made total: division by zero yields zero.
pub open spec fn sdiv(a: int, b: int) -> int {
    if b == 0 {
        0
    } else {
        let q = iabs(a) / iabs(b);
        if (a < 0) == (b < 0) {
            q
        } else {
            -q
        }
    }
}

proof fn lemma_mul_i64_in_range(a: int, b: int)
    requires
        i64::MIN <= a <= i64::MAX,
        i64::MIN <= b <= i64::MAX,
    ensures
        -0x4000_0000_0000_0000_0000_0000_0000_0000 <= a * b
            <= 0x4000_0000_0000_0000_0000_0000_0000_0000,
{
    assert(-0x4000_0000_0000_0000_0000_0000_0000_0000 <= a * b
        <= 0x4000_0000_0000_0000_0000_0000_0000_0000) by (nonlinear_arith)
        requires
            -0x8000_0000_0000_0000 <= a <= 0x7fff_ffff_ffff_ffff,
            -0x8000_0000_0000_0000 <= b <= 0x7fff_ffff_ffff_ffff,
    ;
}

/// Widening product of two `i64` values; never overflows `i128`.
pub(crate) fn mul_wide(a: i64, b: i64) -> (r: i128)
    ensures
        r as int == a as int * b as int,
        -0x4000_0000_0000_0000_0000_0000_0000_0000 <= r as int
            <= 0x4000_0000_0000_0000_0000_0000_0000_0000,
{
    proof {
        lemma_mul_i64_in_range(a as int, b as int);
    }
    (a as i128) * (b as i128)
}

/// Clamp a wide intermediate back into the `i64` range.
pub(crate) fn clamp_i128(x: i128) -> (r: i64)
    ensures
        r as int == clamp_raw(x as int),
{
    if x > i64::MAX as i128 {
        i64::MAX
    } else if x < i64::MIN as i128 {
        i64::MIN
    } else {
        x as i64
    }
}

/// Truncating division on wide intermediates, total in the divisor.
pub(crate) fn div_trunc(a: i128, b: i128) -> (r: i128)
    requires
        a != i128::MIN,
        b != i128::MIN,
    ensures
        r as int == sdiv(a as int, b as int),
        iabs(r as int) <= iabs(a as int),
{
    if b == 0 {
        0
    } else {
        let an: u128 = if a >= 0 {
            a as u128
        } else {
            (-a) as u128
        };
        let bn: u128 = if b >= 0 {
            b as u128
        } else {
            (-b) as u128
        };
        let q: u128 = an / bn;
        proof {
            assert(an as int == iabs(a as int));
            assert(bn as int == iabs(b as int));
            vstd::arithmetic::div_mod::lemma_div_nonincreasing(an as int, bn as int);
            vstd::arithmetic::div_mod::lemma_div_pos_is_pos(an as int, bn as int);
        }
        if (a < 0) == (b < 0) {
            q as i128
        } else {
            -(q as i128)
        }
    }
}

impl Fx {
    /// The scalar holding exactly `raw` raw units.
    pub fn from_raw(raw: i64) -> (r: Fx)
        ensures
            r@ == raw as int,
    {
        Fx { raw }
    }

    /// The scalar with whole-unit value `v` (clamped at the representable range).
    pub fn from_int(v: i64) -> (r: Fx)
        ensures
            r@ == clamp_raw(v as int * SCALE as int),
    {
        Fx { raw: clamp_i128(mul_wide(v, SCALE)) }
    }

    /// The zero scalar.
    pub fn zero() -> (r: Fx)
        ensures
            r@ == 0,
    {
        Fx { raw: 0 }
    }

    /// Saturating addition.
    pub fn fx_add(self, other: Fx) -> (r: Fx)
        ensures
            r@ == fx_add_s(self@, other@),
    {
        Fx { raw: clamp_i128(self.raw as i128 + other.raw as i128) }
    }

    /// Saturating subtraction.
    pub fn fx_sub(self, other: Fx) -> (r: Fx)
        ensures
            r@ == fx_sub_s(self@, other@),
    {
        Fx { raw: clamp_i128(self.raw as i128 - other.raw as i128) }
    }

    /// Saturating negation.
    pub fn fx_neg(self) -> (r: Fx)
        ensures
            r@ == fx_neg_s(self@),
    {
        Fx { raw: clamp_i128(-(self.raw as i128)) }
    }

    /// Fixed-point product: `(a * b) / SCALE`, truncated, then clamped.
    pub fn fx_mul(self, other: Fx) -> (r: Fx)
        ensures
            r@ == fx_mul_s(self@, other@),
    {
        Fx { raw: clamp_i128(div_trunc(mul_wide(self.raw, other.raw), SCALE as i128)) }
    }

    /// Fixed-point quotient: `(a * SCALE) / b`, truncated, then clamped.
    /// A zero divisor yields zero.
    pub fn fx_div(self, other: Fx) -> (r: Fx)
        ensures
            r@ == fx_div_s(self@, other@),
    {
        Fx { raw: clamp_i128(div_trunc(mul_wide(self.raw, SCALE), other.raw as i128)) }
    }
}

pub open spec fn fx_add_s(a: int, b: int) -> int {
    clamp_raw(a + b)
}

pub open spec fn fx_sub_s(a: int, b: int) -> int {
    clamp_raw(a - b)
}

pub open spec fn fx_neg_s(a: int) -> int {
    clamp_raw(-a)
}

pub open spec fn fx_mul_s(a: int, b: int) -> int {
    clamp_raw(sdiv(a * b, SCALE as int))
}

pub open spec fn fx_div_s(a: int, b: int) -> int {
    clamp_raw(sdiv(a * SCALE as int, b))
}

/// For a positive divisor, the magnitude of a truncating quotient is the
/// Euclidean quotient of the magnitude.
pub proof fn lemma_sdiv_mag(a: int, b: int)
    requires
        b > 0,
    ensures
        iabs(sdiv(a, b)) == iabs(a) / b,
        a >= 0 ==> sdiv(a, b) == a / b,
{
    vstd::arithmetic::div_mod::lemma_div_pos_is_pos(iabs(a), b);
}

/// Scaling a value in `[0, 1]` by a nonnegative factor stays within the factor.
pub proof fn lemma_fx_mul_unit_bound(u: int, m: int)
    requires
        0 <= u <= SCALE as int,
        0 <= m <= i64::MAX as int,
    ensures
        0 <= fx_mul_s(u, m) <= m,
        0 <= sdiv(u * m, SCALE as int) <= m,
{
    assert(0 <= u * m <= SCALE as int * m) by (nonlinear_arith)
        requires
            0 <= u <= SCALE as int,
            0 <= m,
    ;
    lemma_sdiv_mag(u * m, SCALE as int);
    vstd::arithmetic::div_mod::lemma_div_is_ordered(u * m, SCALE as int * m, SCALE as int);
    vstd::arithmetic::div_mod::lemma_div_multiples_vanish(m, SCALE as int);
    vstd::arithmetic::div_mod::lemma_div_pos_is_pos(u * m, SCALE as int);
}

/// Scaling a value in `[-1, 1]` by a nonnegative factor stays within the factor.
pub proof fn lemma_fx_mul_signed_bound(u: int, m: int)
    requires
        -(SCALE as int) <= u <= SCALE as int,
        0 <= m <= i64::MAX as int,
    ensures
        -m <= fx_mul_s(u, m) <= m,
{
    if u >= 0 {
        lemma_fx_mul_unit_bound(u, m);
    } else {
        lemma_fx_mul_unit_bound(-u, m);
        assert(u * m == -((-u) * m)) by (nonlinear_arith);
        assert(sdiv(u * m, SCALE as int) == -sdiv((-u) * m, SCALE as int));
    }
}

/// The remainder a truncating division leaves is smaller than the divisor.
pub proof fn lemma_sdiv_remainder(a: int, b: int)
    requires
        b > 0,
    ensures
        iabs(a - sdiv(a, b) * b) < b,
{
    let m = iabs(a);
    let q = m / b;
    vstd::arithmetic::div_mod::lemma_fundamental_div_mod(m, b);
    vstd::arithmetic::div_mod::lemma_mod_division_less_than_divisor(m, b);
    vstd::arithmetic::div_mod::lemma_div_pos_is_pos(m, b);
    if a >= 0 {
        assert(a - q * b == m - q * b);
    } else {
        assert(sdiv(a, b) == -q);
        assert(a - (-q) * b == -(m - q * b)) by (nonlinear_arith)
            requires
                a == -m,
        ;
    }
}

/// Dividing an exact multiple truncates nothing: `(m * v) / m == v`.
pub proof fn lemma_sdiv_exact_multiple(m: int, v: int)
    requires
        m > 0,
    ensures
        sdiv(m * v, m) == v,
{
    vstd::arithmetic::div_mod::lemma_div_multiples_vanish(iabs(v), m);
    if v >= 0 {
        assert(iabs(m * v) == m * iabs(v)) by (nonlinear_arith)
            requires
                m > 0,
                v >= 0,
        ;
    } else {
        assert(iabs(m * v) == m * iabs(v)) by (nonlinear_arith)
            requires
                m > 0,
                v < 0,
        ;
        assert(m * v < 0) by (nonlinear_arith)
            requires
                m > 0,
                v < 0,
        ;
    }
}

/// `r` is the integer square root of `x`, rounded down.
pub open spec fn is_sqrt_floor(x: int, r: int) -> bool {
    0 <= r && r * r <= x && x < (r + 1) * (r + 1)
}

/// The integer square root of `x`, rounded down (meaningful for `x >= 0`).
pub closed spec fn sqrt_floor(x: int) -> int {
    choose|r: int| is_sqrt_floor(x, r)
}

/// `r` is the integer cube root of `x`, rounded down.
pub open spec fn is_cbrt_floor(x: int, r: int) -> bool {
    0 <= r && r * r * r <= x && x < (r + 1) * (r + 1) * (r + 1)
}

/// The integer cube root of `x`, rounded down (meaningful for `x >= 0`).
pub closed spec fn cbrt_floor(x: int) -> int {
    choose|r: int| is_cbrt_floor(x, r)
}

proof fn lemma_square_monotone(a: int, b: int)
    requires
        0 <= a <= b,
    ensures
        a * a <= b * b,
{
    assert(a * a <= b * b) by (nonlinear_arith)
        requires
            0 <= a <= b,
    ;
}

proof fn lemma_sqrt_floor_unique(x: int, r: int)
    requires
        is_sqrt_floor(x, r),
    ensures
        sqrt_floor(x) == r,
{
    assert(exists|s: int| is_sqrt_floor(x, s)) by {
        assert(is_sqrt_floor(x, r));
    }
    let s = sqrt_floor(x);
    assert(is_sqrt_floor(x, s));
    if s < r {
        lemma_square_monotone(s + 1, r);
        assert(false);
    }
    if r < s {
        lemma_square_monotone(r + 1, s);
        assert(false);
    }
}

proof fn lemma_cube_monotone(a: int, b: int)
    requires
        0 <= a <= b,
    ensures
        a * a * a <= b * b * b,
{
    assert(a * a * a <= b * b * b) by (nonlinear_arith)
        requires
            0 <= a <= b,
    ;
}

proof fn lemma_cbrt_floor_unique(x: int, r: int)
    requires
        is_cbrt_floor(x, r),
    ensures
        cbrt_floor(x) == r,
{
    assert(exists|s: int| is_cbrt_floor(x, s)) by {
        assert(is_cbrt_floor(x, r));
    }
    let s = cbrt_floor(x);
    assert(is_cbrt_floor(x, s));
    if s < r {
        lemma_cube_monotone(s + 1, r);
        assert(false);
    }
    if r < s {
        lemma_cube_monotone(r + 1, s);
        assert(false);
    }
}

proof fn lemma_cbrt_exists(x: nat)
    ensures
        exists|r: int| is_cbrt_floor(x as int, r),
    decreases x,
{
    if x == 0 {
        assert(is_cbrt_floor(0, 0));
    } else {
        lemma_cbrt_exists((x - 1) as nat);
        let r0 = cbrt_floor(x as int - 1);
        assert(is_cbrt_floor(x as int - 1, r0));
        if (r0 + 1) * (r0 + 1) * (r0 + 1) <= x as int {
            assert((r0 + 2) * (r0 + 2) * (r0 + 2) > (r0 + 1) * (r0 + 1) * (r0 + 1))
                by (nonlinear_arith)
                requires
                    r0 >= 0,
            ;
            assert(is_cbrt_floor(x as int, r0 + 1));
        } else {
            assert(is_cbrt_floor(x as int, r0));
        }
    }
}

/// The floor cube root of a positive number is positive.
pub proof fn lemma_cbrt_floor_pos(x: int)
    requires
        x >= 1,
    ensures
        cbrt_floor(x) >= 1,
{
    lemma_cbrt_exists(x as nat);
    let r = cbrt_floor(x);
    assert(is_cbrt_floor(x, r));
    if r == 0 {
        assert(false);
    }
}

/// Fixed-point pi, rounded to the nearest raw unit.
pub const PI_RAW: i64 = 3_141_593;

/// Fixed-point 2*pi, rounded to the nearest raw unit.
pub const TWO_PI_RAW: i64 = 6_283_185;

/// Fixed-point pi/2, rounded to the nearest raw unit.
pub const HALF_PI_RAW: i64 = 1_570_796;

/// Fixed-point 5*pi*pi, rounded to the nearest raw unit.
pub const FIVE_PI_SQ_RAW: i64 = 49_348_022;

/// Clamp into the fixed-point unit interval `[-1, 1]`.
pub open spec fn clamp_unit(x: int) -> int {
    if x > SCALE as int {
        SCALE as int
    } else if x < -(SCALE as int) {
        -(SCALE as int)
    } else {
        x
    }
}

fn fx_clamp_unit(x: Fx) -> (r: Fx)
    ensures
        r@ == clamp_unit(x@),
{
    if x.raw > SCALE {
        Fx { raw: SCALE }
    } else if x.raw < -SCALE {
        Fx { raw: -SCALE }
    } else {
        x
    }
}

/// The rational sine approximation on `[0, pi]`:
/// `16x(pi - x) / (5 pi^2 - 4x(pi - x))`, in fixed point, clamped to `[-1, 1]`.
pub open spec fn sin_half_s(x: int) -> int {
    let t = fx_mul_s(x, PI_RAW as int - x);
    let num = fx_mul_s(16 * SCALE as int, t);
    let den = fx_sub_s(FIVE_PI_SQ_RAW as int, fx_mul_s(4 * SCALE as int, t));
    clamp_unit(fx_div_s(num, den))
}

/// Fixed-point sine on `[0, 2 pi]`, clamped to `[-1, 1]`.
pub open spec fn sin_s(x: int) -> int {
    if x <= PI_RAW as int {
        sin_half_s(x)
    } else {
        fx_neg_s(sin_half_s(x - PI_RAW as int))
    }
}

/// Fixed-point cosine on `[0, 2 pi]`, clamped to `[-1, 1]`.
pub open spec fn cos_s(x: int) -> int {
    if x + HALF_PI_RAW as int > TWO_PI_RAW as int {
        sin_s(x + HALF_PI_RAW as int - TWO_PI_RAW as int)
    } else {
        sin_s(x + HALF_PI_RAW as int)
    }
}

fn sin_half(x: Fx) -> (r: Fx)
    requires
        0 <= x@ <= PI_RAW as int,
    ensures
        r@ == sin_half_s(x@),
        -(SCALE as int) <= r@ <= SCALE as int,
{
    let pmx = Fx { raw: PI_RAW - x.raw };
    let t = x.fx_mul(pmx);
    let num = Fx { raw: 16 * SCALE }.fx_mul(t);
    let den = Fx { raw: FIVE_PI_SQ_RAW }.fx_sub(Fx { raw: 4 * SCALE }.fx_mul(t));
    fx_clamp_unit(num.fx_div(den))
}

/// Fixed-point sine of an angle in `[0, 2 pi]`.
pub fn sin_fx(x: Fx) -> (r: Fx)
    requires
        0 <= x@ <= TWO_PI_RAW as int,
    ensures
        r@ == sin_s(x@),
        -(SCALE as int) <= r@ <= SCALE as int,
{
    if x.raw <= PI_RAW {
        sin_half(x)
    } else {
        sin_half(Fx { raw: x.raw - PI_RAW }).fx_neg()
    }
}

/// Fixed-point cosine of an angle in `[0, 2 pi]`.
pub fn cos_fx(x: Fx) -> (r: Fx)
    requires
        0 <= x@ <= TWO_PI_RAW as int,
    ensures
        r@ == cos_s(x@),
        -(SCALE as int) <= r@ <= SCALE as int,
{
    if x.raw + HALF_PI_RAW > TWO_PI_RAW {
        sin_fx(Fx { raw: x.raw + HALF_PI_RAW - TWO_PI_RAW })
    } else {
        sin_fx(Fx { raw: x.raw + HALF_PI_RAW })
    }
}

/// Iterated fixed-point product: `u^k`, with `u^0 == 1`.
pub open spec fn fx_pow_s(u: int, k: nat) -> int
    decreases k,
{
    if k == 0 {
        SCALE as int
    } else {
        fx_mul_s(fx_pow_s(u, (k - 1) as nat), u)
    }
}

/// A fixed-point power of a value in `[0, 1]` stays in `[0, 1]`.
pub proof fn lemma_fx_pow_unit(u: int, k: nat)
    requires
        0 <= u <= SCALE as int,
    ensures
        0 <= fx_pow_s(u, k) <= SCALE as int,
    decreases k,
{
    if k > 0 {
        lemma_fx_pow_unit(u, (k - 1) as nat);
        lemma_fx_mul_unit_bound(fx_pow_s(u, (k - 1) as nat), u);
    }
}

impl Fx {
    /// Fixed-point power with a natural exponent.
    pub fn fx_pow(self, k: u32) -> (r: Fx)
        ensures
            r@ == fx_pow_s(self@, k as nat),
    {
        let mut acc = Fx { raw: SCALE };
        let mut i: u32 = 0;
        while i < k
            invariant
                i <= k,
                acc@ == fx_pow_s(self@, i as nat),
            decreases k - i,
        {
            acc = acc.fx_mul(self);
            i = i + 1;
        }
        acc
    }
}

/// Fixed-point cube root: nonpositive inputs yield zero.
pub open spec fn fx_cbrt_s(a: int) -> int {
    if a <= 0 {
        0
    } else {
        cbrt_floor(a * SCALE as int * SCALE as int)
    }
}

impl Fx {
    /// Fixed-point cube root, rounded toward zero. Nonpositive inputs yield zero.
    pub fn fx_cbrt(self) -> (r: Fx)
        ensures
            r@ == fx_cbrt_s(self@),
    {
        if self.raw <= 0 {
            Fx { raw: 0 }
        } else {
            let wide: u128 = (self.raw as u128) * (SCALE as u128) * (SCALE as u128);
            let root = icbrt(wide);
            Fx { raw: root as i64 }
        }
    }
}

/// Integer square root of a wide intermediate, rounded down.
pub(crate) fn isqrt(x: u128) -> (r: u64)
    ensures
        r as int == sqrt_floor(x as int),
        is_sqrt_floor(x as int, r as int),
{
    let mut lo: u128 = 0;
    let mut hi: u128 = 0x1_0000_0000_0000_0000;
    proof {
        assert((0x1_0000_0000_0000_0000 as int) * (0x1_0000_0000_0000_0000 as int)
            == 0x1_0000_0000_0000_0000_0000_0000_0000_0000);
    }
    while lo + 1 < hi
        invariant
            lo < hi,
            hi <= 0x1_0000_0000_0000_0000,
            lo * lo <= x as int,
            (x as int) < hi * hi,
        decreases hi - lo,
    {
        let mid = lo + (hi - lo) / 2;
        proof {
            lemma_square_monotone(mid as int, 0xffff_ffff_ffff_ffff);
        }
        let sq = mid * mid;
        if sq <= x {
            lo = mid;
        } else {
            hi = mid;
        }
    }
    proof {
        lemma_sqrt_floor_unique(x as int, lo as int);
    }
    lo as u64
}

/// Integer cube root of a wide intermediate, rounded down.
pub(crate) fn icbrt(x: u128) -> (r: u64)
    requires
        x < 0x1000_0000_0000_0000_0000_0000_0000,
    ensures
        r as int == cbrt_floor(x as int),
        is_cbrt_floor(x as int, r as int),
        r < 0x10_0000_0000,
{
    let mut lo: u128 = 0;
    let mut hi: u128 = 0x10_0000_0000;
    proof {
        assert((0x10_0000_0000 as int) * (0x10_0000_0000 as int) * (0x10_0000_0000 as int)
            == 0x1000_0000_0000_0000_0000_0000_0000);
    }
    while lo + 1 < hi
        invariant
            lo < hi,
            hi <= 0x10_0000_0000,
            lo * lo * lo <= x as int,
            (x as int) < hi * hi * hi,
        decreases hi - lo,
    {
        let mid = lo + (hi - lo) / 2;
        proof {
            lemma_square_monotone(mid as int, 0xf_ffff_ffff);
            lemma_cube_monotone(mid as int, 0xf_ffff_ffff);
        }
        let cube = mid * mid * mid;
        if cube <= x {
            lo = mid;
        } else {
            hi = mid;
        }
    }
    proof {
        lemma_cbrt_floor_unique(x as int, lo as int);
    }
    lo as u64
}

} // verus!
