use crate::color::Color;
use crate::raster::{in_bounds, over_pixel, overlay, raster_height, raster_pixel, raster_width, Raster};
use vstd::prelude::*;

verus! {

/// Side length in pixels of every badge.
pub const BADGE_SIZE: u32 = 64;

/// Where an image of length `len` starts so that it is centred on a badge:
/// `BADGE_SIZE / 2 - len / 2`, negative where it is wider than the badge.
pub open spec fn centred_offset(len: int) -> int {
    BADGE_SIZE / 2 - len / 2
}

pub fn centre_offset(len: u32) -> (r: i64)
    ensures
        r == centred_offset(len as int),
{
    (BADGE_SIZE / 2) as i64 - (len / 2) as i64
}

/// The pixel at `(x, y)` of a badge of colour `background` with `glyph`
/// centred on it.
pub open spec fn badge_pixel(background: Color, glyph: Raster, x: int, y: int) -> Color {
    let gx = x - centred_offset(raster_width(glyph) as int);
    let gy = y - centred_offset(raster_height(glyph) as int);
    if in_bounds(glyph, gx, gy) {
        over_pixel(background, raster_pixel(glyph, gx, gy))
    } else {
        background
    }
}

/// Draws a badge: a square of `background` with `glyph` composited over its
/// centre. A glyph larger than the badge is clipped at its edges.
pub fn draw_circle(background: Color, glyph: &Raster) -> (badge: Raster)
    ensures
        raster_width(badge) == BADGE_SIZE,
        raster_height(badge) == BADGE_SIZE,
        forall|x: int, y: int|
            in_bounds(badge, x, y) ==> #[trigger] raster_pixel(badge, x, y) == badge_pixel(
                background,
                *glyph,
                x,
                y,
            ),
{
    let mut badge = Raster::filled(BADGE_SIZE, BADGE_SIZE, background);
    let left = centre_offset(glyph.width());
    let upper = centre_offset(glyph.height());
    overlay(&mut badge, glyph, left, upper);
    badge
}

/// A badge on an opaque background whose glyph has only fully transparent
/// and fully opaque pixels is opaque all over, so overlaying it hides the
/// whole of its footprint.
pub proof fn lemma_badge_opaque(background: Color, glyph: Raster, x: int, y: int)
    requires
        background.is_opaque(),
        forall|gx: int, gy: int|
            in_bounds(glyph, gx, gy) ==> #[trigger] raster_pixel(glyph, gx, gy).a == 0 || raster_pixel(
                glyph,
                gx,
                gy,
            ).a == 255,
    ensures
        badge_pixel(background, glyph, x, y).is_opaque(),
{
    let gx = x - centred_offset(raster_width(glyph) as int);
    let gy = y - centred_offset(raster_height(glyph) as int);
    if in_bounds(glyph, gx, gy) {
        assert(raster_pixel(glyph, gx, gy).a == 0 || raster_pixel(glyph, gx, gy).a == 255);
    }
}

} // verus!
