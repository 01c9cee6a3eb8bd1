//! Scene objects: RGBA colors with additive-then-clamp compositing, and
//! triangles over a parametrized vertex type.

use vstd::prelude::*;
use crate::fixed::ONE;
use crate::fixed::tdiv;
use crate::fixed::clamp_s;
use crate::fixed::mul_i64;
use crate::fixed::div_i64;
use crate::fixed::clamp_i64;
use crate::fixed::lemma_mul_abs_bound;
use crate::fixed::lemma_tdiv_bound;
use crate::vectors::Vec3;
use crate::vectors::in_bounds3;
use crate::camera::Camera;
use crate::camera::ProjectedVec;
use crate::camera::POS_LIMIT;
use crate::camera::pv_is;
use crate::camera::pv_ok;

verus! {

/// Largest magnitude of a color channel the operations accept. Channels are
/// conceptually in `[0, ONE]` but are not clamped at construction.
pub const CHANNEL_LIMIT: i64 = 0x4000_0000;

/// An RGBA color; each fixed-point channel is conceptually in `[0, 1]`
/// (times `ONE`) but is only clamped where an operation's contract says so.
#[derive(Clone, Copy, Debug, PartialEq, Eq, Structural)]
pub struct Color {
    pub r: i64,
    pub g: i64,
    pub b: i64,
    pub a: i64,
}

/// Channels small enough for compositing and encoding arithmetic.
pub open spec fn color_ok(c: Color) -> bool {
    &&& -CHANNEL_LIMIT <= c.r <= CHANNEL_LIMIT
    &&& -CHANNEL_LIMIT <= c.g <= CHANNEL_LIMIT
    &&& -CHANNEL_LIMIT <= c.b <= CHANNEL_LIMIT
    &&& -CHANNEL_LIMIT <= c.a <= CHANNEL_LIMIT
}

/// One channel of the additive-then-clamp blend: `clamp(a + b * amount, 0, 1)`.
/// This deviates from standard "over" compositing on purpose; it determines
/// the visual output and is kept exactly.
pub open spec fn combine_channel_s(a: int, b: int, amount: int) -> int {
    clamp_s(a + tdiv(b * amount, ONE as int), 0, ONE as int)
}

impl Color {
    pub fn new(r: i64, g: i64, b: i64, a: i64) -> (c: Color)
        ensures
            c == (Color { r, g, b, a }),
    {
        Color { r, g, b, a }
    }

    /// A fully opaque color.
    pub fn opaque(r: i64, g: i64, b: i64) -> (c: Color)
        ensures
            c == (Color { r, g, b, a: ONE }),
    {
        Color::new(r, g, b, ONE)
    }

    /// Scale the opacity by a fixed-point factor; the color channels stay.
    pub fn mul(&self, rhs: i64) -> (c: Color)
        requires
            color_ok(*self),
            -CHANNEL_LIMIT <= rhs <= CHANNEL_LIMIT,
        ensures
            c.r == self.r,
            c.g == self.g,
            c.b == self.b,
            c.a == tdiv(self.a * rhs, ONE as int),
    {
        proof {
            lemma_mul_abs_bound(self.a as int, rhs as int, CHANNEL_LIMIT as int, CHANNEL_LIMIT as int);
        }
        Color { r: self.r, g: self.g, b: self.b, a: div_i64(mul_i64(self.a, rhs), ONE) }
    }

    /// Blend `other` onto `self`, channel by channel, weighting `other` by
    /// its own opacity and clamping each sum into `[0, ONE]`.
    pub fn combine(&mut self, other: Color)
        requires
            color_ok(*old(self)),
            color_ok(other),
        ensures
            final(self).r == combine_channel_s(old(self).r as int, other.r as int, other.a as int),
            final(self).g == combine_channel_s(old(self).g as int, other.g as int, other.a as int),
            final(self).b == combine_channel_s(old(self).b as int, other.b as int, other.a as int),
            final(self).a == combine_channel_s(old(self).a as int, other.a as int, other.a as int),
    {
        self.r = combine_channel(self.r, other.r, other.a);
        self.g = combine_channel(self.g, other.g, other.a);
        self.b = combine_channel(self.b, other.b, other.a);
        self.a = combine_channel(self.a, other.a, other.a);
    }
}

/// One clamped blend step.
fn combine_channel(a: i64, b: i64, amount: i64) -> (r: i64)
    requires
        -CHANNEL_LIMIT <= a <= CHANNEL_LIMIT,
        -CHANNEL_LIMIT <= b <= CHANNEL_LIMIT,
        -CHANNEL_LIMIT <= amount <= CHANNEL_LIMIT,
    ensures
        r == combine_channel_s(a as int, b as int, amount as int),
{
    proof {
        lemma_mul_abs_bound(b as int, amount as int, CHANNEL_LIMIT as int, CHANNEL_LIMIT as int);
        lemma_tdiv_bound(b * amount, ONE as int, 0x4000_0000_0000);
    }
    let scaled: i64 = div_i64(mul_i64(b, amount), ONE);
    clamp_i64(a + scaled, 0, ONE)
}

/// A triangle: exactly three vertices of a world-space or projected type.
#[derive(Clone, Copy, Debug)]
pub struct Tri<T> {
    pub vertices: [T; 3],
}

impl<T> Tri<T> {
    pub fn new(vertices: [T; 3]) -> (t: Tri<T>)
        ensures
            t.vertices == vertices,
    {
        Tri { vertices }
    }
}

/// All three world vertices are within the representable world box.
pub open spec fn tri_in_bounds(t: Tri<Vec3>) -> bool {
    &&& in_bounds3(t.vertices[0], POS_LIMIT as int)
    &&& in_bounds3(t.vertices[1], POS_LIMIT as int)
    &&& in_bounds3(t.vertices[2], POS_LIMIT as int)
}

/// All three projected vertices are within the rasterizer's range.
pub open spec fn tri_p_ok(t: Tri<ProjectedVec>) -> bool {
    &&& pv_ok(t.vertices[0])
    &&& pv_ok(t.vertices[1])
    &&& pv_ok(t.vertices[2])
}

impl Tri<Vec3> {
    /// Project each vertex independently through the camera.
    pub fn projection(&self, camera: &Camera) -> (r: Tri<ProjectedVec>)
        requires
            camera.wf(),
            tri_in_bounds(*self),
        ensures
            pv_is(r.vertices[0], camera.project_s(self.vertices[0])),
            pv_is(r.vertices[1], camera.project_s(self.vertices[1])),
            pv_is(r.vertices[2], camera.project_s(self.vertices[2])),
            tri_p_ok(r),
    {
        let v0 = camera.project(self.vertices[0]);
        let v1 = camera.project(self.vertices[1]);
        let v2 = camera.project(self.vertices[2]);
        Tri { vertices: [v0, v1, v2] }
    }
}

} // verus!
