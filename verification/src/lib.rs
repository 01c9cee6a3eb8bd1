//! A software 3-D renderer over fixed-point arithmetic.
//!
//! World geometry is projected through a pinhole-style camera onto a
//! normalized viewport, rasterized with a signed-distance coverage test,
//! and encoded as ANSI-colored glyph rows. All coordinates are fixed-point
//! numbers: an `i64` holds the real value times `fixed::ONE`.

mod camera;
mod encode;
mod fixed;
mod objects;
mod renderer;
mod scene;
pub mod shape;
mod vectors;

pub use camera::Camera;
pub use camera::ProjectedVec;
pub use fixed::ONE;
pub use objects::Color;
pub use objects::Tri;
pub use encode::encode_row;
pub use renderer::render_buffer;
pub use renderer::render_row;
pub use scene::IntoTris;
pub use scene::Scene;
pub use scene::Viewport;
pub use vectors::Vec2;
pub use vectors::Vec3;
