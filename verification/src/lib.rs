//! Core of a freehand note-taking document engine: integer-unit geometry,
//! an owned pixel-image model, bitmap-image strokes with viewport-based
//! rasterization, PDF page import planning, and export preference handling.

pub mod export;
pub mod geometry;
pub mod render;
pub mod import;
pub mod stroke;
pub mod svg;

pub use geometry::{Aabb, Rectangle, Transform, Vec2};
pub use render::Image;
pub use stroke::{BitmapImage, GeneratedStrokeImages};
