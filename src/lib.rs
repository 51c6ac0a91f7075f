//! Procedural wallpaper generation: circular icon badges placed on distinct
//! grid cells of a solid-coloured canvas.

pub mod badge;
pub mod canvas;
pub mod color;
pub mod config;
pub mod error;
pub mod glyph;
pub mod placement;
pub mod random;
pub mod raster;
