//! Geometry pipeline tests: vectors, matrices, projection, and the
//! end-to-end scenarios.

use raster3d::fixed::{fx_div, fx_mul, FX_HALF, FX_ONE};
use raster3d::matrix::mat4x4;
use raster3d::model::{cube, triangle};
use raster3d::vector::{vec2f, vec3f};

fn fx(v: f64) -> i64 {
    (v * 65536.0).round() as i64
}

fn sin_fx(theta: f64) -> i64 {
    fx(theta.sin())
}

fn cos_fx(theta: f64) -> i64 {
    fx(theta.cos())
}

#[test]
fn fx_mul_exact_product() {
    assert_eq!(fx_mul(3 * FX_ONE, 2 * FX_ONE), 6 * FX_ONE);
    assert_eq!(fx_mul(-3 * FX_ONE, 2 * FX_ONE), -6 * FX_ONE);
}

#[test]
fn fx_div_truncates_toward_zero() {
    assert_eq!(fx_div(FX_ONE, 2 * FX_ONE), FX_HALF);
    assert_eq!(fx_div(-FX_ONE, 3 * FX_ONE), -21845);
    assert_eq!(fx_div(FX_ONE, 3 * FX_ONE), 21845);
}

#[test]
fn vec2f_add_sub_translate() {
    let a = vec2f { x: 3 * FX_ONE, y: 4 * FX_ONE };
    let b = vec2f { x: FX_ONE, y: -2 * FX_ONE };
    let s = a.add(&b);
    assert_eq!(s.x, 4 * FX_ONE);
    assert_eq!(s.y, 2 * FX_ONE);
    let d = a.sub(&b);
    assert_eq!(d.x, 2 * FX_ONE);
    assert_eq!(d.y, 6 * FX_ONE);
    let t = a.translate(b);
    assert_eq!(t.x, 4 * FX_ONE);
    assert_eq!(t.y, 2 * FX_ONE);
}

#[test]
fn vec2f_scale_exact() {
    let a = vec2f { x: 3 * FX_ONE, y: -4 * FX_ONE };
    let r = a.scale(FX_HALF);
    assert_eq!(r.x, 3 * FX_ONE / 2);
    assert_eq!(r.y, -2 * FX_ONE);
}

#[test]
fn vec3f_scale_add() {
    let a = vec3f { x: FX_ONE, y: 2 * FX_ONE, z: -FX_ONE };
    let r = a.scale(10 * FX_ONE);
    assert_eq!((r.x, r.y, r.z), (10 * FX_ONE, 20 * FX_ONE, -10 * FX_ONE));
    let s = r.add(&vec3f { x: FX_ONE, y: FX_ONE, z: FX_ONE });
    assert_eq!((s.x, s.y, s.z), (11 * FX_ONE, 21 * FX_ONE, -9 * FX_ONE));
}

#[test]
fn rotate_zero_is_identity() {
    let p = vec2f { x: 123 * FX_ONE + 17, y: -55 * FX_ONE + 3 };
    let r = p.rotate(0, FX_ONE);
    assert_eq!(r.x, p.x);
    assert_eq!(r.y, p.y);
}

#[test]
fn rotate_quarter_turn() {
    let p = vec2f { x: FX_ONE, y: 0 };
    let theta = std::f64::consts::FRAC_PI_2;
    let r = p.rotate(sin_fx(theta), cos_fx(theta));
    assert!(r.x.abs() <= 4, "x was {}", r.x);
    assert!((r.y - FX_ONE).abs() <= 4, "y was {}", r.y);
}

#[test]
fn rotate_quarter_round_trip_exact() {
    let p = vec2f { x: 123 * FX_ONE + 45, y: -67 * FX_ONE + 89 };
    let back = p.rotate(FX_ONE, 0).rotate(-FX_ONE, 0);
    assert_eq!(back.x, p.x);
    assert_eq!(back.y, p.y);
}

#[test]
fn rotate_round_trip() {
    let p = vec2f { x: 10 * FX_ONE, y: -5 * FX_ONE };
    let theta = 0.7355;
    let there = p.rotate(sin_fx(theta), cos_fx(theta));
    let back = there.rotate(sin_fx(-theta), cos_fx(-theta));
    assert!((back.x - p.x).abs() <= 64, "x drifted by {}", back.x - p.x);
    assert!((back.y - p.y).abs() <= 64, "y drifted by {}", back.y - p.y);
}

#[test]
fn rotation_matrices_at_zero_are_identity() {
    let id = mat4x4::new();
    let rx = mat4x4::new_rot_x(0, FX_ONE);
    let ry = mat4x4::new_rot_y(0, FX_ONE);
    let rz = mat4x4::new_rot_z(0, FX_ONE);
    assert_eq!(rx.data, id.data);
    assert_eq!(ry.data, id.data);
    assert_eq!(rz.data, id.data);
}

#[test]
fn multiply_identity_returns_matrix() {
    let theta = 0.9_f64;
    let m = mat4x4::new_rot_z(sin_fx(theta), cos_fx(theta));
    let prod = m.multiply(&mat4x4::new());
    assert_eq!(prod.data, m.data);
}

#[test]
fn apply_identity_returns_vector() {
    let v = vec3f { x: 7 * FX_ONE + 11, y: -3 * FX_ONE, z: 12345 };
    let r = mat4x4::new().apply(&v);
    assert_eq!((r.x, r.y, r.z), (v.x, v.y, v.z));
}

#[test]
fn apply_translation_column() {
    let mut m = mat4x4::new();
    m.data[3][0] = 5 * FX_ONE;
    let r = m.apply(&vec3f { x: FX_ONE, y: 2 * FX_ONE, z: 3 * FX_ONE });
    assert_eq!((r.x, r.y, r.z), (6 * FX_ONE, 2 * FX_ONE, 3 * FX_ONE));
}

#[test]
fn apply_perspective_divide() {
    let mut m = mat4x4::new();
    m.data[2][3] = -FX_ONE;
    m.data[3][3] = 0;
    let r = m.apply(&vec3f { x: FX_ONE, y: FX_ONE, z: -2 * FX_ONE });
    assert_eq!(r.x, FX_HALF);
    assert_eq!(r.y, FX_HALF);
}

#[test]
fn projection_matrix_entries() {
    let scale = fx(1.0 / (45.0_f64.to_radians()).tan());
    let m = mat4x4::new_projection(scale, fx(0.1), fx(100.0));
    assert_eq!(m.data[0][0], scale);
    assert_eq!(m.data[1][1], scale);
    assert_eq!(m.data[2][3], -FX_ONE);
    assert_eq!(m.data[3][3], 0);
    assert!(m.data[2][2] < -FX_ONE + 256 && m.data[2][2] > -FX_ONE - 256);
    assert_eq!(m.data[0][1], 0);
}

#[test]
fn triangle_constructors() {
    let t = triangle::new();
    assert_eq!(t.points[0].x, 10 * FX_ONE);
    assert_eq!(t.points[0].y, -5 * FX_ONE);
    assert_eq!(t.points[1].x, 0);
    assert_eq!(t.points[1].y, 5 * FX_ONE);
    assert_eq!(t.points[2].x, -10 * FX_ONE);
    assert_eq!(t.points[2].y, -5 * FX_ONE);
    let u = triangle::from(&t.points[2], &t.points[0], &t.points[1]);
    assert_eq!(u.points[0].x, -10 * FX_ONE);
    assert_eq!(u.points[1].x, 10 * FX_ONE);
    assert_eq!(u.points[2].y, 5 * FX_ONE);
}

#[test]
fn triangle_transforms() {
    let t = triangle::new();
    let moved = t.translate(vec2f { x: FX_ONE, y: FX_ONE });
    assert_eq!(moved.points[1].x, FX_ONE);
    assert_eq!(moved.points[1].y, 6 * FX_ONE);
    let grown = t.scale(2 * FX_ONE);
    assert_eq!(grown.points[0].x, 20 * FX_ONE);
    assert_eq!(grown.points[0].y, -10 * FX_ONE);
    let spun = t.rotate(0, FX_ONE);
    assert_eq!(spun.points[2].x, t.points[2].x);
    assert_eq!(spun.points[2].y, t.points[2].y);
}

#[test]
fn cube_unit_corners() {
    let c = cube::new();
    assert_eq!((c.points[0].x, c.points[0].y, c.points[0].z), (FX_ONE, FX_ONE, FX_ONE));
    assert_eq!((c.points[6].x, c.points[6].y, c.points[6].z), (-FX_ONE, -FX_ONE, -FX_ONE));
    let s = c.scale(10 * FX_ONE);
    assert_eq!(s.points[0].x, 10 * FX_ONE);
    let t = s.translate(vec3f { x: 0, y: 0, z: -40 * FX_ONE });
    assert_eq!(t.points[0].z, -30 * FX_ONE);
}

#[test]
fn projected_cube_vertex_lands_on_screen() {
    let width = 320usize;
    let height = 240usize;
    let scale = fx(1.0 / (45.0_f64.to_radians()).tan());
    let projection = mat4x4::new_projection(scale, fx(0.1), fx(100.0));
    let mvp = projection.multiply(&mat4x4::new());
    let c = cube::new();
    let out = c.project(&mvp, width, height, &vec2f { x: 0, y: 0 });
    let px = out[0].x / FX_ONE;
    let py = out[0].y / FX_ONE;
    assert!(px >= 0 && px < width as i64, "x pixel {}", px);
    assert!(py >= 0 && py < height as i64, "y pixel {}", py);
}

#[test]
fn full_turn_reprojects_to_same_pixels() {
    let width = 320usize;
    let height = 240usize;
    let scale = fx(1.0 / (45.0_f64.to_radians()).tan());
    let projection = mat4x4::new_projection(scale, fx(0.1), fx(100.0));
    let mut view = mat4x4::new();
    view.data[3][2] = -40 * FX_ONE;
    let c = cube::new().scale(10 * FX_ONE);
    let theta = 0.35_f64;
    let tau = std::f64::consts::TAU;
    for (a, b) in [(theta, theta + tau)] {
        let rot_a = mat4x4::new_rot_y(sin_fx(a), cos_fx(a));
        let rot_b = mat4x4::new_rot_y(sin_fx(b), cos_fx(b));
        let mvp_a = projection.multiply(&view.multiply(&rot_a));
        let mvp_b = projection.multiply(&view.multiply(&rot_b));
        let out_a = c.project(&mvp_a, width, height, &vec2f { x: 0, y: 0 });
        let out_b = c.project(&mvp_b, width, height, &vec2f { x: 0, y: 0 });
        for j in 0..8 {
            assert!(
                (out_a[j].x - out_b[j].x).abs() <= 256,
                "vertex {} x drifted by {}",
                j,
                out_a[j].x - out_b[j].x
            );
            assert!(
                (out_a[j].y - out_b[j].y).abs() <= 256,
                "vertex {} y drifted by {}",
                j,
                out_a[j].y - out_b[j].y
            );
        }
    }
}
