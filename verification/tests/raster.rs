//! Rasterizer tests: pixel clipping, lines, spans, triangle fill, and
//! the cube renderers.

use raster3d::fixed::FX_ONE;
use raster3d::framebuffer::{
    clear, draw_array, draw_iter, draw_line, draw_line_horizontal, draw_line_vertex, draw_pixel,
    draw_vertex,
};
use raster3d::matrix::mat4x4;
use raster3d::model::{cube, triangle};
use raster3d::vector::vec2f;

fn buf(width: usize, height: usize) -> Vec<u8> {
    vec![0u8; width * height]
}

fn at(b: &[u8], width: usize, x: usize, y: usize) -> u8 {
    b[y * width + x]
}

#[test]
fn pixel_write_in_bounds() {
    let mut fb = buf(16, 16);
    draw_pixel(&mut fb, 16, 16, 3, 4, 9);
    assert_eq!(at(&fb, 16, 3, 4), 9);
    assert_eq!(fb.iter().filter(|&&v| v != 0).count(), 1);
}

#[test]
fn pixel_out_of_bounds_is_dropped() {
    let mut fb = buf(16, 16);
    draw_pixel(&mut fb, 16, 16, 16, 0, 9);
    draw_pixel(&mut fb, 16, 16, 0, 16, 9);
    draw_pixel(&mut fb, 16, 16, -1, 5, 9);
    draw_pixel(&mut fb, 16, 16, 5, -1, 9);
    draw_pixel(&mut fb, 16, 16, 1000, 1000, 9);
    assert!(fb.iter().all(|&v| v == 0));
}

#[test]
fn clear_resets_every_byte() {
    let mut fb: Vec<u8> = (0..=255u8).cycle().take(16 * 16).collect();
    clear(&mut fb);
    assert_eq!(fb.len(), 256);
    assert!(fb.iter().all(|&v| v == 0));
}

#[test]
fn horizontal_line_sets_exact_pixels() {
    let mut fb = buf(24, 24);
    let begin = vec2f { x: 0, y: 0 };
    let end = vec2f { x: 10 * FX_ONE, y: 0 };
    draw_line(&mut fb, 24, 24, &begin, &end, 5);
    for x in 0..24 {
        let expected = if x <= 10 { 5 } else { 0 };
        assert_eq!(at(&fb, 24, x, 0), expected, "column {}", x);
    }
    for y in 1..24 {
        for x in 0..24 {
            assert_eq!(at(&fb, 24, x, y), 0, "pixel ({}, {})", x, y);
        }
    }
}

#[test]
fn zero_length_line_draws_one_pixel() {
    let mut fb = buf(16, 16);
    let p = vec2f { x: 7 * FX_ONE, y: 9 * FX_ONE };
    draw_line(&mut fb, 16, 16, &p, &p, 4);
    assert_eq!(at(&fb, 16, 7, 9), 4);
    assert_eq!(fb.iter().filter(|&&v| v != 0).count(), 1);
}

#[test]
fn steep_line_walks_rows() {
    let mut fb = buf(16, 16);
    let begin = vec2f { x: 2 * FX_ONE, y: 1 * FX_ONE };
    let end = vec2f { x: 2 * FX_ONE, y: 6 * FX_ONE };
    draw_line(&mut fb, 16, 16, &begin, &end, 8);
    for y in 1..=6 {
        assert_eq!(at(&fb, 16, 2, y), 8, "row {}", y);
    }
    assert_eq!(fb.iter().filter(|&&v| v != 0).count(), 6);
}

#[test]
fn diagonal_line_touches_endpoints() {
    let mut fb = buf(32, 32);
    let begin = vec2f { x: 1 * FX_ONE, y: 1 * FX_ONE };
    let end = vec2f { x: 9 * FX_ONE, y: 5 * FX_ONE };
    draw_line_vertex(&mut fb, 32, 32, &begin, &end, 6);
    assert_eq!(at(&fb, 32, 1, 1), 6);
    assert_eq!(at(&fb, 32, 9, 5), 6);
}

#[test]
fn line_clips_at_buffer_border() {
    let mut fb = buf(8, 8);
    let begin = vec2f { x: -4 * FX_ONE, y: 2 * FX_ONE };
    let end = vec2f { x: 12 * FX_ONE, y: 2 * FX_ONE };
    draw_line(&mut fb, 8, 8, &begin, &end, 7);
    for x in 0..8 {
        assert_eq!(at(&fb, 8, x, 2), 7, "column {}", x);
    }
    assert_eq!(fb.iter().filter(|&&v| v != 0).count(), 8);
}

#[test]
fn vertex_pixel_under_point() {
    let mut fb = buf(16, 16);
    draw_vertex(&mut fb, 16, 16, &vec2f { x: 3 * FX_ONE + FX_ONE / 2, y: 2 * FX_ONE }, 2);
    assert_eq!(at(&fb, 16, 3, 2), 2);
    assert_eq!(fb.iter().filter(|&&v| v != 0).count(), 1);
}

#[test]
fn span_fills_between_columns() {
    let mut fb = buf(16, 16);
    draw_line_horizontal(&mut fb, 16, 16, 3 * FX_ONE, 2 * FX_ONE, 6 * FX_ONE, 9);
    for x in 2..6 {
        assert_eq!(at(&fb, 16, x, 3), 9, "column {}", x);
    }
    assert_eq!(fb.iter().filter(|&&v| v != 0).count(), 4);
}

#[test]
fn span_accepts_swapped_bounds() {
    let mut fb = buf(16, 16);
    draw_line_horizontal(&mut fb, 16, 16, 3 * FX_ONE, 6 * FX_ONE, 2 * FX_ONE, 9);
    for x in 2..6 {
        assert_eq!(at(&fb, 16, x, 3), 9, "column {}", x);
    }
    assert_eq!(fb.iter().filter(|&&v| v != 0).count(), 4);
}

#[test]
fn triangle_fill_scenario() {
    let mut fb = buf(24, 24);
    clear(&mut fb);
    let t = triangle::from(
        &vec2f { x: 10 * FX_ONE, y: 0 },
        &vec2f { x: 0, y: 10 * FX_ONE },
        &vec2f { x: 20 * FX_ONE, y: 10 * FX_ONE },
    );
    t.draw(&mut fb, 24, 24, 7);
    assert_eq!(at(&fb, 24, 10, 10), 7);
    assert_eq!(at(&fb, 24, 0, 0), 0);
}

#[test]
fn flat_triangle_paints_nothing() {
    let mut fb = buf(24, 24);
    let t = triangle::from(
        &vec2f { x: 2 * FX_ONE, y: 5 * FX_ONE },
        &vec2f { x: 9 * FX_ONE, y: 5 * FX_ONE },
        &vec2f { x: 17 * FX_ONE, y: 5 * FX_ONE },
    );
    t.draw(&mut fb, 24, 24, 7);
    assert!(fb.iter().all(|&v| v == 0));
}

#[test]
fn triangle_interior_filled() {
    let mut fb = buf(32, 32);
    let t = triangle::from(
        &vec2f { x: 4 * FX_ONE, y: 4 * FX_ONE },
        &vec2f { x: 24 * FX_ONE, y: 4 * FX_ONE },
        &vec2f { x: 14 * FX_ONE, y: 24 * FX_ONE },
    );
    t.draw(&mut fb, 32, 32, 3);
    assert_eq!(at(&fb, 32, 14, 14), 3);
    assert_eq!(at(&fb, 32, 0, 0), 0);
    assert_eq!(at(&fb, 32, 31, 31), 0);
    assert!(fb.iter().all(|&v| v == 0 || v == 3));
}

#[test]
fn wireframe_draws_edges_only_in_color() {
    let mut fb = buf(320, 240);
    let mut view = mat4x4::new();
    view.data[3][2] = -40 * FX_ONE;
    let proj = mat4x4::new_projection(FX_ONE, 6554, 100 * FX_ONE);
    let mvp = proj.multiply(&view);
    let c = cube::new().scale(10 * FX_ONE);
    c.rasterize_wireframe(&mut fb, 320, 240, &mvp, &vec2f { x: 0, y: 0 }, 255);
    assert!(fb.iter().any(|&v| v == 255));
    assert!(fb.iter().all(|&v| v == 0 || v == 255));
}

#[test]
fn solid_cube_fills_faces() {
    let mut fb = buf(320, 240);
    let mut view = mat4x4::new();
    view.data[3][2] = -40 * FX_ONE;
    let proj = mat4x4::new_projection(FX_ONE, 6554, 100 * FX_ONE);
    let mvp = proj.multiply(&view);
    let c = cube::new().scale(10 * FX_ONE);
    c.rasterize(&mut fb, 320, 240, &mvp, &vec2f { x: 0, y: 0 }, 133);
    let lit = fb.iter().filter(|&&v| v == 133).count();
    assert!(lit > 100, "only {} pixels lit", lit);
    assert!(fb.iter().all(|&v| v == 0 || v == 133));
}

#[test]
fn iter_streams_columns() {
    let mut fb = buf(8, 8);
    let pixels = vec![1u8, 2, 3, 4, 5];
    draw_iter(&mut fb, 8, 8, 1, 1, 3, 3, &pixels);
    assert_eq!(at(&fb, 8, 1, 1), 1);
    assert_eq!(at(&fb, 8, 1, 2), 2);
    assert_eq!(at(&fb, 8, 2, 1), 3);
    assert_eq!(at(&fb, 8, 2, 2), 4);
    assert_eq!(fb.iter().filter(|&&v| v != 0).count(), 4);
}

#[test]
fn array_blits_rows_with_clipping() {
    let mut fb = buf(8, 8);
    let pixels = vec![1u8, 2, 3, 4, 5, 6];
    draw_array(&mut fb, 8, 8, 6, 0, &pixels, 3);
    assert_eq!(at(&fb, 8, 6, 0), 1);
    assert_eq!(at(&fb, 8, 7, 0), 2);
    assert_eq!(at(&fb, 8, 6, 1), 4);
    assert_eq!(at(&fb, 8, 7, 1), 5);
    assert_eq!(fb.iter().filter(|&&v| v != 0).count(), 4);
}
