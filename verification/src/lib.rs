//! The logic of a vector-graphics scene viewer: turning the styled paths of an
//! SVG document into a layered scene, planning the GPU primitives and the
//! tessellations that render it, and interpreting the viewer's input events.
//!
//! Everything that touches floating point, files, windows or the GPU lives in
//! the application around this crate; the crate decides and the application
//! carries out.

pub mod paint;
pub mod scene;
pub mod layering;
pub mod input;
