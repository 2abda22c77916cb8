//! 2D fixed-point vectors: the positions, velocities and forces of the
//! simulation. Every operation is pinned to an exact specification
//! function over the unbounded raw components.

use vstd::prelude::*;
use crate::fx::{Fx, SCALE, clamp_raw, sdiv, fx_add_s, fx_sub_s, fx_neg_s, fx_mul_s, fx_div_s, mul_wide,
    clamp_i128, div_trunc, sqrt_floor, isqrt, is_sqrt_floor};

verus! {

/// A 2D fixed-point vector (also used as a point in world space).
#[derive(Clone, Copy, Debug, PartialEq, Eq, Structural)]
pub struct V2 {
    pub x: Fx,
    pub y: Fx,
}

/// The mathematical image of a [`V2`]: its raw components, unbounded.
pub struct Sv2 {
    pub x: int,
    pub y: int,
}

impl View for V2 {
    type V = Sv2;

    open spec fn view(&self) -> Sv2 {
        Sv2 { x: self.x@, y: self.y@ }
    }
}

pub open spec fn v2_zero_s() -> Sv2 {
    Sv2 { x: 0, y: 0 }
}

pub open spec fn v2_add_s(a: Sv2, b: Sv2) -> Sv2 {
    Sv2 { x: fx_add_s(a.x, b.x), y: fx_add_s(a.y, b.y) }
}

pub open spec fn v2_sub_s(a: Sv2, b: Sv2) -> Sv2 {
    Sv2 { x: fx_sub_s(a.x, b.x), y: fx_sub_s(a.y, b.y) }
}

pub open spec fn v2_neg_s(a: Sv2) -> Sv2 {
    Sv2 { x: fx_neg_s(a.x), y: fx_neg_s(a.y) }
}

/// Componentwise scaling by a fixed-point factor.
pub open spec fn v2_scale_s(a: Sv2, k: int) -> Sv2 {
    Sv2 { x: fx_mul_s(a.x, k), y: fx_mul_s(a.y, k) }
}

/// Componentwise division by a fixed-point scalar.
pub open spec fn v2_div_scalar_s(a: Sv2, k: int) -> Sv2 {
    Sv2 { x: fx_div_s(a.x, k), y: fx_div_s(a.y, k) }
}

/// Fixed-point dot product, truncated per component.
pub open spec fn v2_dot_s(a: Sv2, b: Sv2) -> int {
    fx_add_s(fx_mul_s(a.x, b.x), fx_mul_s(a.y, b.y))
}

/// Squared length in raw units of the squared scale (exact, unbounded).
pub open spec fn v2_len_sq_wide(a: Sv2) -> int {
    a.x * a.x + a.y * a.y
}

/// Fixed-point squared length: the exact wide square sum, rescaled once.
pub open spec fn v2_norm_sq_s(a: Sv2) -> int {
    clamp_raw(v2_len_sq_wide(a) / SCALE as int)
}

/// Length of the raw component vector (a fixed-point length in raw units).
pub open spec fn v2_norm_s(a: Sv2) -> int {
    clamp_raw(sqrt_floor(v2_len_sq_wide(a)))
}

/// The unit vector in the direction of `a`; the zero vector if `a` is zero.
pub open spec fn v2_normalize_s(a: Sv2) -> Sv2 {
    let n = sqrt_floor(v2_len_sq_wide(a));
    Sv2 { x: clamp_raw(sdiv(a.x * SCALE as int, n)), y: clamp_raw(sdiv(a.y * SCALE as int, n)) }
}

/// The square of an `i64`, widened so it cannot overflow.
fn sq_u128(a: i64) -> (r: u128)
    ensures
        r as int == a as int * a as int,
        r <= 0x4000_0000_0000_0000_0000_0000_0000_0000,
{
    let w = mul_wide(a, a);
    proof {
        assert(a as int * a as int >= 0) by (nonlinear_arith);
    }
    w as u128
}

impl V2 {
    /// The zero vector.
    pub fn zero() -> (r: V2)
        ensures
            r@ == v2_zero_s(),
    {
        V2 { x: Fx { raw: 0 }, y: Fx { raw: 0 } }
    }

    /// Build a vector from two fixed-point components.
    pub fn new(x: Fx, y: Fx) -> (r: V2)
        ensures
            r@ == (Sv2 { x: x@, y: y@ }),
    {
        V2 { x, y }
    }

    /// Saturating componentwise addition.
    pub fn add(self, other: V2) -> (r: V2)
        ensures
            r@ == v2_add_s(self@, other@),
    {
        V2 { x: self.x.fx_add(other.x), y: self.y.fx_add(other.y) }
    }

    /// Saturating componentwise subtraction.
    pub fn sub(self, other: V2) -> (r: V2)
        ensures
            r@ == v2_sub_s(self@, other@),
    {
        V2 { x: self.x.fx_sub(other.x), y: self.y.fx_sub(other.y) }
    }

    /// Saturating componentwise negation.
    pub fn neg(self) -> (r: V2)
        ensures
            r@ == v2_neg_s(self@),
    {
        V2 { x: self.x.fx_neg(), y: self.y.fx_neg() }
    }

    /// Scale by a fixed-point factor.
    pub fn scale(self, k: Fx) -> (r: V2)
        ensures
            r@ == v2_scale_s(self@, k@),
    {
        V2 { x: self.x.fx_mul(k), y: self.y.fx_mul(k) }
    }

    /// Divide each component by a fixed-point scalar.
    pub fn div_scalar(self, k: Fx) -> (r: V2)
        ensures
            r@ == v2_div_scalar_s(self@, k@),
    {
        V2 { x: self.x.fx_div(k), y: self.y.fx_div(k) }
    }

    /// Fixed-point dot product.
    pub fn dot(self, other: V2) -> (r: Fx)
        ensures
            r@ == v2_dot_s(self@, other@),
    {
        self.x.fx_mul(other.x).fx_add(self.y.fx_mul(other.y))
    }

    /// Fixed-point squared length.
    pub fn norm_sq(self) -> (r: Fx)
        ensures
            r@ == v2_norm_sq_s(self@),
    {
        let s: u128 = sq_u128(self.x.raw) + sq_u128(self.y.raw);
        let q: u128 = s / (SCALE as u128);
        if q > i64::MAX as u128 {
            Fx { raw: i64::MAX }
        } else {
            Fx { raw: q as i64 }
        }
    }

    /// Fixed-point length.
    pub fn norm(self) -> (r: Fx)
        ensures
            r@ == v2_norm_s(self@),
    {
        let s: u128 = sq_u128(self.x.raw) + sq_u128(self.y.raw);
        let n: u64 = isqrt(s);
        if n > i64::MAX as u64 {
            Fx { raw: i64::MAX }
        } else {
            Fx { raw: n as i64 }
        }
    }

    /// The unit vector pointing the same way; the zero vector stays zero.
    pub fn normalize(self) -> (r: V2)
        ensures
            r@ == v2_normalize_s(self@),
    {
        let s: u128 = sq_u128(self.x.raw) + sq_u128(self.y.raw);
        let n: u64 = isqrt(s);
        let nx = clamp_i128(div_trunc(mul_wide(self.x.raw, SCALE), n as i128));
        let ny = clamp_i128(div_trunc(mul_wide(self.y.raw, SCALE), n as i128));
        V2 { x: Fx { raw: nx }, y: Fx { raw: ny } }
    }
}

/// The displacement from one point to another.
pub open spec fn v2_from_points_s(from: Sv2, to: Sv2) -> Sv2 {
    v2_sub_s(to, from)
}

/// The displacement from one point to another.
pub fn vec_from_points(from: V2, to: V2) -> (r: V2)
    ensures
        r@ == v2_from_points_s(from@, to@),
{
    to.sub(from)
}

} // verus!
