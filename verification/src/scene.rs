//! The scene: a viewport, a camera, and the triangles added so far, with
//! the full render pipeline from world triangles to encoded rows.

use vstd::prelude::*;
use crate::fixed::ONE;
use crate::vectors::Vec3;
use crate::camera::Camera;
use crate::camera::ProjectedVec;
use crate::camera::pv_is;
use crate::objects::Color;
use crate::objects::Tri;
use crate::objects::tri_in_bounds;
use crate::objects::tri_p_ok;
use crate::renderer::render_buffer;
use crate::renderer::pixel_color_s;
use crate::renderer::frac_s;
use crate::renderer::tris_ok;
use crate::encode::encode_row;
use crate::encode::row_encode_s;

verus! {

/// Largest viewport extent in cells.
pub const VIEW_LIMIT: usize = 0x10_0000;

/// The output grid size in cell units.
#[derive(Clone, Copy, Debug, PartialEq, Eq, Structural)]
pub struct Viewport {
    pub width: usize,
    pub height: usize,
}

impl Viewport {
    /// Both extents are positive and small enough for pixel arithmetic.
    pub open spec fn wf(self) -> bool {
        &&& 0 < self.width <= VIEW_LIMIT
        &&& 0 < self.height <= VIEW_LIMIT
    }

    pub fn new(width: usize, height: usize) -> (r: Viewport)
        requires
            0 < width <= VIEW_LIMIT,
            0 < height <= VIEW_LIMIT,
        ensures
            r.width == width,
            r.height == height,
            r.wf(),
    {
        Viewport { width, height }
    }
}

/// The fixed background color every render starts from.
pub open spec fn background_s() -> Color {
    Color { r: 6554, g: 0, b: 0, a: ONE }
}

/// `pt` is exactly the projection of the world triangles `world` through
/// `cam`, vertex by vertex.
pub open spec fn projected_matches(
    world: Seq<Tri<Vec3>>,
    cam: Camera,
    pt: Seq<Tri<ProjectedVec>>,
) -> bool {
    &&& pt.len() == world.len()
    &&& forall|i: int|
        0 <= i < world.len() ==> {
            &&& pv_is((#[trigger] pt[i]).vertices[0], cam.project_s(world[i].vertices[0]))
            &&& pv_is(pt[i].vertices[1], cam.project_s(world[i].vertices[1]))
            &&& pv_is(pt[i].vertices[2], cam.project_s(world[i].vertices[2]))
        }
}

/// Two projected lists that both match the same world list are equal:
/// the projection pins every field.
proof fn lemma_matches_unique(
    world: Seq<Tri<Vec3>>,
    cam: Camera,
    a: Seq<Tri<ProjectedVec>>,
    b: Seq<Tri<ProjectedVec>>,
)
    requires
        projected_matches(world, cam, a),
        projected_matches(world, cam, b),
    ensures
        a == b,
{
    broadcast use vstd::array::group_array_axioms;

    assert forall|i: int| 0 <= i < a.len() implies a[i] == b[i] by {
        assert(a[i].vertices[0] == b[i].vertices[0]);
        assert(a[i].vertices[1] == b[i].vertices[1]);
        assert(a[i].vertices[2] == b[i].vertices[2]);
        assert(a[i].vertices =~= b[i].vertices);
    }
    assert(a =~= b);
}

/// A collection of world triangles that can be added to a scene.
pub trait IntoTris: Sized {
    /// The triangles this value stands for.
    spec fn tris_s(&self) -> Seq<Tri<Vec3>>;

    /// Hand the triangles over.
    fn tris(self) -> (r: Vec<Tri<Vec3>>)
        ensures
            r@ == self.tris_s(),
    ;
}

impl IntoTris for Tri<Vec3> {
    open spec fn tris_s(&self) -> Seq<Tri<Vec3>> {
        seq![*self]
    }

    fn tris(self) -> (r: Vec<Tri<Vec3>>)
    {
        let mut v: Vec<Tri<Vec3>> = Vec::new();
        v.push(self);
        proof {
            assert(v@ =~= seq![self]);
        }
        v
    }
}

impl IntoTris for Vec<Tri<Vec3>> {
    open spec fn tris_s(&self) -> Seq<Tri<Vec3>> {
        self@
    }

    fn tris(self) -> (r: Vec<Tri<Vec3>>)
    {
        self
    }
}

/// A scene: the triangles accumulate over its lifetime; the camera may be
/// moved between renders; the viewport is fixed at construction.
#[derive(Debug)]
pub struct Scene {
    pub tris: Vec<Tri<Vec3>>,
    pub viewport: Viewport,
    pub camera: Camera,
}

impl Scene {
    /// Camera and viewport usable, every triangle within the world box.
    pub open spec fn wf(self) -> bool {
        &&& self.camera.wf()
        &&& self.viewport.wf()
        &&& forall|i: int| 0 <= i < self.tris@.len() ==> tri_in_bounds(#[trigger] self.tris@[i])
    }

    pub fn new(camera: Camera, viewport: Viewport) -> (r: Scene)
        requires
            camera.wf(),
            viewport.wf(),
        ensures
            r.tris@ == Seq::<Tri<Vec3>>::empty(),
            r.viewport == viewport,
            r.camera == camera,
            r.wf(),
    {
        let s = Scene { tris: Vec::new(), viewport, camera };
        proof {
            assert(s.tris@ =~= Seq::<Tri<Vec3>>::empty());
        }
        s
    }

    /// Append a shape's triangles; builder style, as the original callers
    /// chain it.
    pub fn add_shape<T: IntoTris>(self, shape: T) -> (r: Scene)
        ensures
            r.tris@ == self.tris@ + shape.tris_s(),
            r.viewport == self.viewport,
            r.camera == self.camera,
    {
        let mut new_tris = shape.tris();
        let mut s = self;
        s.tris.append(&mut new_tris);
        s
    }

    /// Render the scene: project every triangle, rasterize the viewport
    /// against the projected list in insertion order over the fixed
    /// background, and encode each buffer row as ANSI-colored glyphs.
    /// Row 0 of the result is buffer row 0 (the visual bottom row).
    pub fn render(&self) -> (out: Vec<String>)
        requires
            self.wf(),
        ensures
            out@.len() == self.viewport.height,
            forall|pt: Seq<Tri<ProjectedVec>>, y: int|
                #![trigger projected_matches(self.tris@, self.camera, pt), out@[y]]
                projected_matches(self.tris@, self.camera, pt) && 0 <= y < self.viewport.height
                    ==> out@[y]@ == row_encode_s(
                    Seq::new(
                        self.viewport.width as nat,
                        |x: int|
                            pixel_color_s(
                                pt,
                                background_s(),
                                frac_s(x, self.viewport.width as int),
                                frac_s(y, self.viewport.height as int),
                            ),
                    ),
                ),
    {
        let mut projected: Vec<Tri<ProjectedVec>> = Vec::new();
        let mut i: usize = 0;
        while i < self.tris.len()
            invariant
                self.wf(),
                i <= self.tris@.len(),
                projected@.len() == i,
                tris_ok(projected@),
                projected_matches(self.tris@.take(i as int), self.camera, projected@),
            decreases self.tris@.len() - i,
        {
            let t = self.tris[i];
            let p = t.projection(&self.camera);
            projected.push(p);
            proof {
                let w = self.tris@.take(i as int + 1);
                assert(w.len() == i + 1);
                assert forall|j: int| 0 <= j < w.len() implies {
                    &&& pv_is(
                        (#[trigger] projected@[j]).vertices[0],
                        self.camera.project_s(w[j].vertices[0]),
                    )
                    &&& pv_is(projected@[j].vertices[1], self.camera.project_s(w[j].vertices[1]))
                    &&& pv_is(projected@[j].vertices[2], self.camera.project_s(w[j].vertices[2]))
                } by {
                    assert(w[j] == self.tris@[j]);
                    if j < i {
                        assert(self.tris@.take(i as int)[j] == self.tris@[j]);
                    }
                }
                assert(forall|j: int|
                    0 <= j < projected@.len() ==> tri_p_ok(#[trigger] projected@[j]));
            }
            i = i + 1;
        }
        proof {
            assert(self.tris@.take(self.tris@.len() as int) =~= self.tris@);
        }
        let background = Color::opaque(6554, 0, 0);
        let buffer = render_buffer(&projected, background, &self.viewport);
        let ghost width = self.viewport.width as int;
        let ghost height = self.viewport.height as int;
        let mut out: Vec<String> = Vec::new();
        let mut y: usize = 0;
        while y < self.viewport.height
            invariant
                self.wf(),
                y <= height,
                width == self.viewport.width as int,
                height == self.viewport.height as int,
                background == background_s(),
                buffer@.len() == height,
                forall|j: int| 0 <= j < height ==> (#[trigger] buffer@[j])@.len() == width,
                forall|j: int, x: int|
                    0 <= j < height && 0 <= x < width ==> #[trigger] (buffer@[j]@[x])
                        == pixel_color_s(
                        projected@,
                        background_s(),
                        frac_s(x, width),
                        frac_s(j, height),
                    ),
                out@.len() == y,
                forall|j: int|
                    0 <= j < y ==> (#[trigger] out@[j])@ == row_encode_s(
                        Seq::new(
                            self.viewport.width as nat,
                            |x: int|
                                pixel_color_s(
                                    projected@,
                                    background_s(),
                                    frac_s(x, width),
                                    frac_s(j, height),
                                ),
                        ),
                    ),
            decreases height - y,
        {
            let row_str = encode_row(&buffer[y]);
            proof {
                assert(buffer@[y as int]@ =~= Seq::new(
                    self.viewport.width as nat,
                    |x: int|
                        pixel_color_s(
                            projected@,
                            background_s(),
                            frac_s(x, width),
                            frac_s(y as int, height),
                        ),
                ));
            }
            out.push(row_str);
            y = y + 1;
        }
        proof {
            assert forall|pt: Seq<Tri<ProjectedVec>>, yy: int|
                #![trigger projected_matches(self.tris@, self.camera, pt), out@[yy]]
                projected_matches(self.tris@, self.camera, pt) && 0 <= yy < height implies out@[yy]@
                == row_encode_s(
                Seq::new(
                    self.viewport.width as nat,
                    |x: int|
                        pixel_color_s(
                            pt,
                            background_s(),
                            frac_s(x, width),
                            frac_s(yy, height),
                        ),
                ),
            ) by {
                lemma_matches_unique(self.tris@, self.camera, pt, projected@);
            }
        }
        out
    }
}

} // verus!
