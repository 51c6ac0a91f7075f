use vstd::prelude::*;

verus! {

/// The ways in which producing a glyph, a badge or a canvas can fail.
#[derive(Debug, Clone, Copy, PartialEq, Eq, Structural)]
pub enum BadgeError {
    /// The text laid out to no glyph, or to a glyph without a pixel box.
    GlyphLayout,
    /// The canvas is not larger than one badge in both directions.
    InvalidCanvasSize,
    /// More badges were requested than there are free grid cells.
    PlacementExhausted,
    /// No icon was supplied to choose from.
    EmptyIconSet,
}

} // verus!
