//! A software 3D rendering pipeline for a byte-indexed framebuffer.
//!
//! Real-valued coordinates are carried as Q16.16 fixed-point integers
//! (`fixed::FX_ONE` units per 1.0), so every transform and rasterization
//! step is plain integer arithmetic. Trigonometric values (sine, cosine,
//! and the projection's reciprocal half-angle tangent) are supplied by
//! the caller in the same fixed-point scale; the pipeline itself never
//! computes them.
//!
//! The modules, leaves first: `fixed` holds the scalar arithmetic,
//! `vector` and `matrix` the linear algebra, `framebuffer` the pixel,
//! span and line primitives, `model` the triangle scan-converter and the
//! cube renderers, `pixel_ops` the color format conversions, and
//! `display` the display controller's command set.

pub mod display;
pub mod fixed;
pub mod framebuffer;
pub mod matrix;
pub mod model;
pub mod pixel_ops;
pub mod vector;
