use badgewall::badge::{centre_offset, draw_circle, BADGE_SIZE};
use badgewall::color::{default_palette, fallback_color, monokai_background, pick_color, Color};
use badgewall::error::BadgeError;
use badgewall::glyph::glyph_width;
use badgewall::raster::{fits_in_memory, overlay, Raster};

fn red() -> Color {
    Color::rgb(255, 0, 0)
}

fn blue() -> Color {
    Color::rgb(0, 0, 255)
}

#[test]
fn raster_new_is_transparent() {
    let r = Raster::new(3, 2);
    assert_eq!(r.width(), 3);
    assert_eq!(r.height(), 2);
    assert_eq!(r.pixel(2, 1), Color::rgba(0, 0, 0, 0));
}

#[test]
fn raster_fill_and_put_pixel() {
    let mut r = Raster::filled(4, 4, blue());
    r.put_pixel(1, 2, red());
    assert_eq!(r.pixel(1, 2), red());
    assert_eq!(r.pixel(2, 1), blue());
    assert_eq!(r.pixel(3, 3), blue());
}

#[test]
fn overlay_opaque_covers_and_transparent_keeps() {
    let mut bottom = Raster::filled(8, 8, blue());
    let mut top = Raster::filled(2, 2, red());
    top.put_pixel(1, 1, Color::rgba(0, 255, 0, 0));
    overlay(&mut bottom, &top, 3, 4);
    assert_eq!(bottom.pixel(3, 4), red());
    assert_eq!(bottom.pixel(4, 4), red());
    assert_eq!(bottom.pixel(3, 5), red());
    assert_eq!(bottom.pixel(4, 5), blue());
    assert_eq!(bottom.pixel(2, 4), blue());
    assert_eq!(bottom.pixel(5, 5), blue());
}

#[test]
fn overlay_clips_negative_offset() {
    let mut bottom = Raster::filled(4, 4, blue());
    let top = Raster::filled(3, 3, red());
    overlay(&mut bottom, &top, -2, -2);
    assert_eq!(bottom.pixel(0, 0), red());
    assert_eq!(bottom.pixel(1, 0), blue());
    assert_eq!(bottom.pixel(0, 1), blue());
}

#[test]
fn draw_circle_centres_glyph() {
    let mut glyph = Raster::new(10, 10);
    glyph.put_pixel(0, 0, red());
    let badge = draw_circle(blue(), &glyph);
    assert_eq!(badge.width(), 64);
    assert_eq!(badge.height(), 64);
    assert_eq!(badge.pixel(27, 27), red());
    assert_eq!(badge.pixel(28, 28), blue());
    assert_eq!(badge.pixel(0, 0), blue());
    assert_eq!(badge.pixel(63, 63), blue());
}

#[test]
fn draw_circle_large_glyph_is_clipped() {
    let glyph = Raster::filled(100, 30, red());
    let badge = draw_circle(blue(), &glyph);
    assert_eq!(badge.width(), BADGE_SIZE);
    assert_eq!(badge.height(), BADGE_SIZE);
    // offsets: 32 - 50 = -18 across, 32 - 15 = 17 down
    assert_eq!(badge.pixel(0, 17), red());
    assert_eq!(badge.pixel(63, 46), red());
    assert_eq!(badge.pixel(10, 16), blue());
    assert_eq!(badge.pixel(10, 47), blue());
}

#[test]
fn draw_circle_empty_glyph() {
    let glyph = Raster::new(0, 0);
    let badge = draw_circle(red(), &glyph);
    assert_eq!(badge.width(), 64);
    assert_eq!(badge.pixel(32, 32), red());
}

#[test]
fn centre_offset_values() {
    assert_eq!(centre_offset(10), 27);
    assert_eq!(centre_offset(11), 27);
    assert_eq!(centre_offset(64), 0);
    assert_eq!(centre_offset(100), -18);
}

#[test]
fn glyph_width_spans_first_to_last() {
    assert_eq!(glyph_width(&vec![Some((2, 10)), Some((12, 20))]), Ok(18));
    assert_eq!(glyph_width(&vec![Some((-3, 7))]), Ok(10));
    assert_eq!(glyph_width(&vec![Some((5, 5))]), Ok(0));
}

#[test]
fn glyph_width_layout_errors() {
    assert_eq!(glyph_width(&vec![]), Err(BadgeError::GlyphLayout));
    assert_eq!(glyph_width(&vec![Some((1, 5)), None]), Err(BadgeError::GlyphLayout));
    assert_eq!(glyph_width(&vec![None, Some((1, 5)), Some((6, 9))]), Err(BadgeError::GlyphLayout));
}

#[test]
fn palette_and_colors() {
    let p = default_palette();
    assert_eq!(p.len(), 6);
    assert_eq!(p[0], Color::rgb(229, 181, 103));
    assert_eq!(p[5], Color::rgb(108, 153, 187));
    assert_eq!(monokai_background(), Color::rgba(46, 46, 46, 255));
    assert_eq!(pick_color(&p, 2), Color::rgb(232, 125, 62));
    assert_eq!(pick_color(&p, 7), Color::rgb(180, 210, 115));
    assert_eq!(pick_color(&vec![], 3), fallback_color());
}

#[test]
fn fits_in_memory_counts_as_image_does() {
    assert!(fits_in_memory(64, 64));
    assert!(fits_in_memory(1920, 1080));
    assert!(fits_in_memory(0, 0));
    let wide = usize::MAX as u128 >= 4 * (u32::MAX as u128) * (u32::MAX as u128);
    assert_eq!(fits_in_memory(u32::MAX, u32::MAX), wide);
}

#[test]
fn opaque_badge_hides_canvas() {
    let mut glyph = Raster::new(10, 10);
    glyph.put_pixel(4, 4, red());
    let badge = draw_circle(blue(), &glyph);
    let mut canvas = Raster::filled(200, 200, Color::rgb(1, 2, 3));
    overlay(&mut canvas, &badge, 64, 64);
    for x in 0..64 {
        for y in 0..64 {
            assert_eq!(canvas.pixel(64 + x, 64 + y), badge.pixel(x, y));
        }
    }
    assert_eq!(canvas.pixel(63, 64), Color::rgb(1, 2, 3));
}
