//! Fixed-point 2-D and 3-D vectors and their arithmetic.
//!
//! Every component is a real value times `fixed::ONE`. The spec functions
//! mirror the executable arithmetic exactly, truncating division included.

use vstd::prelude::*;
use crate::fixed::ONE;
use crate::fixed::tdiv;
use crate::fixed::sqrt_floor;
use crate::fixed::mul_i64;
use crate::fixed::div_i64;
use crate::fixed::isqrt;
use crate::fixed::lemma_mul_abs_bound;
use crate::fixed::lemma_tdiv_bound;
use crate::fixed::lemma_sqrt_floor_monotone;
use crate::fixed::lemma_sqrt_floor_unique;

verus! {

/// A 2-D fixed-point vector (a projected screen position).
#[derive(Clone, Copy, Debug, PartialEq, Eq, Structural)]
pub struct Vec2 {
    pub x: i64,
    pub y: i64,
}

/// A 3-D fixed-point vector (a world position or direction).
#[derive(Clone, Copy, Debug, PartialEq, Eq, Structural)]
pub struct Vec3 {
    pub x: i64,
    pub y: i64,
    pub z: i64,
}

/// Every component of `v` lies in `[-b, b]`.
pub open spec fn in_bounds3(v: Vec3, b: int) -> bool {
    &&& -b <= v.x <= b
    &&& -b <= v.y <= b
    &&& -b <= v.z <= b
}

/// Both components of `v` lie in `[-b, b]`.
pub open spec fn in_bounds2(v: Vec2, b: int) -> bool {
    &&& -b <= v.x <= b
    &&& -b <= v.y <= b
}

/// The components of `v` as unbounded integers.
pub open spec fn v3(v: Vec3) -> (int, int, int) {
    (v.x as int, v.y as int, v.z as int)
}

/// Raw squared norm of a 3-D integer vector (scale `ONE * ONE`).
pub open spec fn nsq3_s(v: (int, int, int)) -> int {
    v.0 * v.0 + v.1 * v.1 + v.2 * v.2
}

/// Fixed-point dot product of two 3-D integer vectors.
pub open spec fn dot3_s(a: (int, int, int), b: (int, int, int)) -> int {
    tdiv(a.0 * b.0 + a.1 * b.1 + a.2 * b.2, ONE as int)
}

/// Fixed-point cross product of two 3-D integer vectors.
pub open spec fn cross3_s(a: (int, int, int), b: (int, int, int)) -> (int, int, int) {
    (
        tdiv(a.1 * b.2 - a.2 * b.1, ONE as int),
        tdiv(a.2 * b.0 - a.0 * b.2, ONE as int),
        tdiv(a.0 * b.1 - a.1 * b.0, ONE as int),
    )
}

/// Fixed-point direction of a 3-D integer vector: the vector scaled to
/// norm `ONE`, or the zero vector when the input is zero (the documented
/// degenerate rule; real division by a zero norm is left undefined by the
/// floating-point original).
pub open spec fn unit3_s(v: (int, int, int)) -> (int, int, int) {
    let n = sqrt_floor(nsq3_s(v) as nat) as int;
    if n == 0 {
        (0, 0, 0)
    } else {
        (tdiv(v.0 * ONE as int, n), tdiv(v.1 * ONE as int, n), tdiv(v.2 * ONE as int, n))
    }
}

/// Each component of a normalized vector lies in `[-ONE, ONE]`.
pub proof fn lemma_unit3_bounds(v: (int, int, int))
    ensures
        -(ONE as int) <= unit3_s(v).0 <= ONE as int,
        -(ONE as int) <= unit3_s(v).1 <= ONE as int,
        -(ONE as int) <= unit3_s(v).2 <= ONE as int,
{
    let nsq = nsq3_s(v);
    assert(v.0 * v.0 >= 0 && v.1 * v.1 >= 0 && v.2 * v.2 >= 0) by (nonlinear_arith);
    let n = sqrt_floor(nsq as nat) as int;
    if n != 0 {
        lemma_unit3_component(v.0, nsq);
        lemma_unit3_component(v.1, nsq);
        lemma_unit3_component(v.2, nsq);
    }
}

/// One component of a vector is bounded by the norm of the whole vector,
/// so the normalized component is bounded by `ONE`.
proof fn lemma_unit3_component(c: int, nsq: int)
    requires
        c * c <= nsq,
        sqrt_floor(nsq as nat) > 0,
    ensures
        -(ONE as int) <= tdiv(c * ONE as int, sqrt_floor(nsq as nat) as int) <= ONE as int,
{
    let n = sqrt_floor(nsq as nat) as int;
    let a = if c >= 0 { c } else { -c };
    assert(a * a == c * c) by (nonlinear_arith)
        requires
            a == c || a == -c,
    ;
    assert(a * a < (a + 1) * (a + 1)) by (nonlinear_arith)
        requires
            a >= 0,
    ;
    lemma_sqrt_floor_unique((a * a) as nat, a as nat);
    lemma_sqrt_floor_monotone((a * a) as nat, nsq as nat);
    assert(a <= n);
    assert(-(n * ONE as int) <= c * ONE as int <= n * ONE as int) by (nonlinear_arith)
        requires
            -a <= c <= a,
            a <= n,
            0 < n,
    ;
    lemma_tdiv_bound(c * ONE as int, n, ONE as int);
}

impl Vec3 {
    /// Componentwise difference.
    pub fn sub(&self, o: &Vec3) -> (r: Vec3)
        requires
            in_bounds3(*self, 0x4000_0000_0000),
            in_bounds3(*o, 0x4000_0000_0000),
        ensures
            r.x == self.x - o.x,
            r.y == self.y - o.y,
            r.z == self.z - o.z,
    {
        Vec3 { x: self.x - o.x, y: self.y - o.y, z: self.z - o.z }
    }

    /// Componentwise sum.
    pub fn add(&self, o: &Vec3) -> (r: Vec3)
        requires
            in_bounds3(*self, 0x4000_0000_0000),
            in_bounds3(*o, 0x4000_0000_0000),
        ensures
            r.x == self.x + o.x,
            r.y == self.y + o.y,
            r.z == self.z + o.z,
    {
        Vec3 { x: self.x + o.x, y: self.y + o.y, z: self.z + o.z }
    }

    /// Scale by a fixed-point factor.
    pub fn scale(&self, k: i64) -> (r: Vec3)
        requires
            in_bounds3(*self, 0x4000_0000),
            -0x4000_0000 <= k <= 0x4000_0000,
        ensures
            r.x == tdiv(self.x * k, ONE as int),
            r.y == tdiv(self.y * k, ONE as int),
            r.z == tdiv(self.z * k, ONE as int),
    {
        proof {
            lemma_mul_abs_bound(self.x as int, k as int, 0x4000_0000, 0x4000_0000);
            lemma_mul_abs_bound(self.y as int, k as int, 0x4000_0000, 0x4000_0000);
            lemma_mul_abs_bound(self.z as int, k as int, 0x4000_0000, 0x4000_0000);
        }
        Vec3 {
            x: div_i64(mul_i64(self.x, k), ONE),
            y: div_i64(mul_i64(self.y, k), ONE),
            z: div_i64(mul_i64(self.z, k), ONE),
        }
    }

    /// Fixed-point dot product.
    pub fn dot(&self, o: &Vec3) -> (r: i64)
        requires
            in_bounds3(*self, 0x4000_0000),
            in_bounds3(*o, 0x4000_0000),
        ensures
            r == dot3_s(v3(*self), v3(*o)),
    {
        proof {
            lemma_mul_abs_bound(self.x as int, o.x as int, 0x4000_0000, 0x4000_0000);
            lemma_mul_abs_bound(self.y as int, o.y as int, 0x4000_0000, 0x4000_0000);
            lemma_mul_abs_bound(self.z as int, o.z as int, 0x4000_0000, 0x4000_0000);
        }
        let s: i64 = mul_i64(self.x, o.x) + mul_i64(self.y, o.y) + mul_i64(self.z, o.z);
        div_i64(s, ONE)
    }

    /// Fixed-point cross product.
    pub fn cross(&self, o: &Vec3) -> (r: Vec3)
        requires
            in_bounds3(*self, 0x4000_0000),
            in_bounds3(*o, 0x4000_0000),
        ensures
            (r.x as int, r.y as int, r.z as int) == cross3_s(v3(*self), v3(*o)),
    {
        proof {
            lemma_mul_abs_bound(self.y as int, o.z as int, 0x4000_0000, 0x4000_0000);
            lemma_mul_abs_bound(self.z as int, o.y as int, 0x4000_0000, 0x4000_0000);
            lemma_mul_abs_bound(self.z as int, o.x as int, 0x4000_0000, 0x4000_0000);
            lemma_mul_abs_bound(self.x as int, o.z as int, 0x4000_0000, 0x4000_0000);
            lemma_mul_abs_bound(self.x as int, o.y as int, 0x4000_0000, 0x4000_0000);
            lemma_mul_abs_bound(self.y as int, o.x as int, 0x4000_0000, 0x4000_0000);
        }
        Vec3 {
            x: div_i64(mul_i64(self.y, o.z) - mul_i64(self.z, o.y), ONE),
            y: div_i64(mul_i64(self.z, o.x) - mul_i64(self.x, o.z), ONE),
            z: div_i64(mul_i64(self.x, o.y) - mul_i64(self.y, o.x), ONE),
        }
    }

    /// Scale to norm `ONE`; a zero vector stays zero.
    pub fn normalize(&self) -> (r: Vec3)
        requires
            in_bounds3(*self, 0x2000_0000),
        ensures
            (r.x as int, r.y as int, r.z as int) == unit3_s(v3(*self)),
            in_bounds3(r, ONE as int),
    {
        proof {
            lemma_mul_abs_bound(self.x as int, self.x as int, 0x2000_0000, 0x2000_0000);
            lemma_mul_abs_bound(self.y as int, self.y as int, 0x2000_0000, 0x2000_0000);
            lemma_mul_abs_bound(self.z as int, self.z as int, 0x2000_0000, 0x2000_0000);
            assert(self.x * self.x >= 0 && self.y * self.y >= 0 && self.z * self.z >= 0)
                by (nonlinear_arith);
        }
        let nsq: i64 = mul_i64(self.x, self.x) + mul_i64(self.y, self.y) + mul_i64(self.z, self.z);
        let n: u64 = isqrt(nsq as u64);
        proof {
            lemma_unit3_bounds(v3(*self));
        }
        if n == 0 {
            Vec3 { x: 0, y: 0, z: 0 }
        } else {
            proof {
                assert(n * n <= nsq);
                assert(n <= 0x1_0000_0000) by (nonlinear_arith)
                    requires
                        0 <= n,
                        n * n <= 0x4000_0000_0000_0000,
                ;
                lemma_mul_abs_bound(self.x as int, ONE as int, 0x2000_0000, ONE as int);
                lemma_mul_abs_bound(self.y as int, ONE as int, 0x2000_0000, ONE as int);
                lemma_mul_abs_bound(self.z as int, ONE as int, 0x2000_0000, ONE as int);
            }
            Vec3 {
                x: div_i64(mul_i64(self.x, ONE), n as i64),
                y: div_i64(mul_i64(self.y, ONE), n as i64),
                z: div_i64(mul_i64(self.z, ONE), n as i64),
            }
        }
    }
}

} // verus!
