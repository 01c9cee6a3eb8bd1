use claras_renderer::{
    encode_row, render_buffer, shape, Camera, Color, ProjectedVec, Scene, Tri, Vec2, Vec3,
    Viewport, ONE,
};

fn v3(x: i64, y: i64, z: i64) -> Vec3 {
    Vec3 { x, y, z }
}

fn pv(x: i64, y: i64, distance: i64) -> ProjectedVec {
    ProjectedVec {
        position: Vec2 { x, y },
        distance,
    }
}

fn background() -> Color {
    Color::opaque(6554, 0, 0)
}

fn background_unit() -> String {
    background().to_ansi()
}

/// The unit right triangle in screen space, all depths one.
fn unit_tri() -> Tri<ProjectedVec> {
    Tri::new([pv(0, 0, ONE), pv(ONE, 0, ONE), pv(0, ONE, ONE)])
}

#[test]
fn signed_distance_inside_is_negative() {
    let t = unit_tri();
    let p = Vec2 { x: 16384, y: 16384 };
    assert_eq!(t.signed_distance(p), -16384);
}

#[test]
fn signed_distance_outside_is_positive() {
    let t = unit_tri();
    let p = Vec2 { x: 2 * ONE, y: 0 };
    assert_eq!(t.signed_distance(p), ONE);
}

#[test]
fn signed_distance_on_edge_is_zero() {
    let t = unit_tri();
    let p = Vec2 { x: ONE / 2, y: 0 };
    assert_eq!(t.signed_distance(p), 0);
}

#[test]
fn signed_distance_grows_with_distance() {
    let t = unit_tri();
    let near = t.signed_distance(Vec2 { x: 2 * ONE, y: 0 });
    let far = t.signed_distance(Vec2 { x: 3 * ONE, y: 0 });
    assert!(near > 0 && far > near);
}

#[test]
fn signed_distance_winding_invariant() {
    let t = unit_tri();
    let rev = Tri::new([t.vertices[2], t.vertices[1], t.vertices[0]]);
    for p in [
        Vec2 { x: 16384, y: 16384 },
        Vec2 { x: 2 * ONE, y: 0 },
        Vec2 { x: ONE / 2, y: 0 },
        Vec2 { x: -ONE, y: -ONE },
        Vec2 { x: 3000, y: 50000 },
    ] {
        assert_eq!(t.signed_distance(p), rev.signed_distance(p));
    }
}

#[test]
fn projection_distance_equal_weights_is_mean() {
    let t = Tri::new([pv(ONE, 0, 30000), pv(-ONE, 0, 40000), pv(0, ONE, 50000)]);
    let p = Vec2 { x: 0, y: 0 };
    // The point is one unit from every vertex, so the depth is the mean.
    assert_eq!(t.projection_distance(p), 40000);
}

#[test]
fn projection_distance_negative_behind_camera() {
    let t = Tri::new([pv(ONE, 0, -100), pv(-ONE, 0, -100), pv(0, ONE, -100)]);
    let p = Vec2 { x: 0, y: 0 };
    assert_eq!(t.projection_distance(p), -100);
}

#[test]
fn render_buffer_empty_scene_is_background() {
    let tris: Vec<Tri<ProjectedVec>> = Vec::new();
    let viewport = Viewport::new(7, 5);
    let buffer = render_buffer(&tris, background(), &viewport);
    assert_eq!(buffer.len(), 5);
    for row in &buffer {
        assert_eq!(row.len(), 7);
        for cell in row {
            assert_eq!(*cell, background());
        }
    }
}

#[test]
fn render_buffer_later_triangle_wins() {
    // Both triangles cover the screen center; their depths differ, so their
    // shades differ through the blue channel.
    let t1 = Tri::new([pv(-2 * ONE, -2 * ONE, ONE), pv(3 * ONE, -2 * ONE, ONE), pv(
        -2 * ONE,
        3 * ONE,
        ONE,
    )]);
    let t2 = Tri::new([pv(-2 * ONE, -2 * ONE, ONE / 2), pv(3 * ONE, -2 * ONE, ONE / 2), pv(
        -2 * ONE,
        3 * ONE,
        ONE / 2,
    )]);
    let viewport = Viewport::new(2, 2);
    // Pixel (1, 1) maps to the screen center (0, 0).
    let center = Vec2 { x: 0, y: 0 };
    let sd1 = t1.signed_distance(center);
    let pd1 = t1.projection_distance(center);
    let sd2 = t2.signed_distance(center);
    let pd2 = t2.projection_distance(center);
    assert!(sd1 < 0 && pd1 >= 0 && sd2 < 0 && pd2 >= 0);
    let shade1 = Color::opaque(sd1 * 5, ONE, pd1);
    let shade2 = Color::opaque(sd2 * 5, ONE, pd2);
    assert_ne!(shade1, shade2);

    let buffer12 = render_buffer(&vec![t1, t2], background(), &viewport);
    assert_eq!(buffer12[1][1], shade2);
    let buffer21 = render_buffer(&vec![t2, t1], background(), &viewport);
    assert_eq!(buffer21[1][1], shade1);
}

#[test]
fn to_ansi_full_red_opaque() {
    let c = Color::opaque(ONE, 0, 0);
    assert_eq!(c.to_ansi(), "\u{1b}[38;2;255;0;0m█");
}

#[test]
fn to_ansi_background() {
    assert_eq!(background_unit(), "\u{1b}[38;2;26;0;0m█");
}

#[test]
fn to_ansi_zero_alpha_gives_dimmest_glyph() {
    let c = Color::new(0, 0, 0, 0);
    assert_eq!(c.to_ansi(), "\u{1b}[38;2;0;0;0m.");
}

#[test]
fn to_ansi_half_alpha_glyph() {
    let c = Color::new(ONE, ONE, ONE, ONE / 2);
    // round(0.5 * 69) = 35, the 36th ramp glyph.
    assert_eq!(c.to_ansi(), "\u{1b}[38;2;255;255;255mu");
}

#[test]
fn to_ansi_clamps_out_of_range_channels() {
    let c = Color::opaque(2 * ONE, -ONE, ONE / 2);
    assert_eq!(c.to_ansi(), "\u{1b}[38;2;255;0;128m█");
}

#[test]
fn encode_row_length_is_deterministic() {
    let row = vec![background(), background(), background()];
    let s = encode_row(&row);
    // Each unit: 7-character prefix, "26", ';', '0', ';', '0', 'm', glyph.
    assert_eq!(s.chars().count(), 3 * 15);
    // Two rows of the same colors encode to the same text.
    assert_eq!(s, encode_row(&vec![background(); 3]));
}

#[test]
fn color_combine_is_additive_then_clamp() {
    let mut base = Color::new(0, 0, ONE, ONE);
    base.combine(Color::new(ONE, 0, ONE, ONE / 2));
    assert_eq!(base, Color::new(ONE / 2, 0, ONE, ONE));
}

#[test]
fn color_mul_scales_alpha_only() {
    let c = Color::new(1, 2, 3, ONE).mul(ONE / 2);
    assert_eq!(c, Color::new(1, 2, 3, ONE / 2));
}

#[test]
fn camera_projects_forward_point_to_center() {
    let camera = Camera::upright(v3(0, 0, ONE), v3(0, 0, -ONE));
    let p = camera.project(v3(0, 0, 0));
    assert_eq!(p.position, Vec2 { x: 0, y: 0 });
    assert_eq!(p.distance, ONE);
}

#[test]
fn camera_projection_is_direction_only() {
    // Two points on one ray from the camera land on the same screen spot.
    let camera = Camera::upright(v3(0, 0, ONE), v3(0, 0, -ONE));
    let a = camera.project(v3(ONE, ONE, 0));
    let b = camera.project(v3(2 * ONE, 2 * ONE, -ONE));
    assert_eq!(a.position, b.position);
}

#[test]
fn camera_translate_moves_position() {
    let mut camera = Camera::upright(v3(0, 0, ONE), v3(0, 0, -ONE));
    camera.translate(v3(100, -50, 7));
    assert_eq!(camera.position, v3(100, -50, ONE + 7));
    assert_eq!(camera.normal, v3(0, 0, -ONE));
}

#[test]
fn camera_plane_translate_moves_along_normal_and_side() {
    let mut camera = Camera::upright(v3(0, 0, ONE), v3(0, 0, -ONE));
    // side = normalize(normal x up) = (1, 0, 0) here.
    camera.plane_translate(Vec2 { x: ONE, y: ONE });
    assert_eq!(camera.position, v3(ONE, 0, 0));
}

#[test]
fn camera_rotate_quarter_turn_about_up() {
    let mut camera = Camera::upright(v3(0, 0, ONE), v3(0, 0, -ONE));
    camera.rotate(0, ONE);
    assert_eq!(camera.normal, v3(-ONE, 0, 0));
    assert_eq!(camera.up, v3(0, ONE, 0));
    assert_eq!(camera.position, v3(0, 0, ONE));
}

#[test]
fn scene_accumulates_shapes() {
    let camera = Camera::upright(v3(0, 0, ONE), v3(0, 0, -ONE));
    let viewport = Viewport::new(4, 4);
    let t = Tri::new([v3(0, 0, 0), v3(ONE, 0, 0), v3(0, ONE, 0)]);
    let scene = Scene::new(camera, viewport).add_shape(t).add_shape(vec![t, t]);
    assert_eq!(scene.tris.len(), 3);
}

#[test]
fn render_empty_scene_rows_are_background() {
    let camera = Camera::upright(v3(0, 0, ONE), v3(0, 0, -ONE));
    let viewport = Viewport::new(4, 3);
    let scene = Scene::new(camera, viewport);
    let rows = scene.render();
    assert_eq!(rows.len(), 3);
    let expected = background_unit().repeat(4);
    for row in rows {
        assert_eq!(row, expected);
    }
}

#[test]
fn render_edge_on_triangle_leaves_corners_background() {
    // Camera at (0,0,1) looking toward -z with up +y; the triangle lies in
    // the x = 0 plane, which also contains the camera, so it is seen edge-on
    // as a zero-width sliver and no corner pixel is covered.
    let camera = Camera::upright(v3(0, 0, ONE), v3(0, 0, -ONE));
    let viewport = Viewport::new(10, 10);
    let t = Tri::new([v3(0, 0, 0), v3(0, 0, ONE), v3(0, ONE, 0)]);
    let projected: Vec<_> = vec![t.projection(&camera)];
    let buffer = render_buffer(&projected, background(), &viewport);
    for (y, x) in [(0, 0), (0, 9), (9, 0), (9, 9)] {
        assert_eq!(buffer[y][x], background());
    }
}

#[test]
fn render_facing_triangle_covers_center_not_corners() {
    // A triangle in the z = 0 plane, facing the camera: pixels near the
    // screen center are covered and differ from the background; the corners
    // stay background.
    let camera = Camera::upright(v3(0, 0, ONE), v3(0, 0, -ONE));
    let viewport = Viewport::new(10, 10);
    let t = Tri::new([v3(0, 0, 0), v3(ONE, 0, 0), v3(0, ONE, 0)]);
    let projected: Vec<_> = vec![t.projection(&camera)];
    let buffer = render_buffer(&projected, background(), &viewport);
    assert_ne!(buffer[6][6], background());
    for (y, x) in [(0, 0), (0, 9), (9, 0), (9, 9)] {
        assert_eq!(buffer[y][x], background());
    }
}

#[test]
fn equilateral_triangle_vertices() {
    let t = shape::equilateral_triangle(v3(0, 0, 0), v3(ONE, 0, 0));
    assert_eq!(t.vertices[0], v3(0, -ONE, 56755));
    assert_eq!(t.vertices[1], v3(0, -ONE, -56755));
    assert_eq!(t.vertices[2], v3(0, ONE, 0));
}

#[test]
fn square_is_two_triangles() {
    let ts = shape::square(v3(0, 0, 0), v3(0, 0, ONE), v3(0, ONE, 0));
    assert_eq!(ts.len(), 2);
    let c0 = v3(-ONE, ONE, 0);
    let c1 = v3(-ONE, -ONE, 0);
    let c2 = v3(ONE, -ONE, 0);
    let c3 = v3(ONE, ONE, 0);
    assert_eq!(ts[0].vertices, [c0, c1, c2]);
    assert_eq!(ts[1].vertices, [c0, c2, c3]);
}
