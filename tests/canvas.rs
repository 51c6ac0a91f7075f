use badgewall::badge::draw_circle;
use badgewall::canvas::{compose, generate};
use badgewall::color::{monokai_background, Color};
use badgewall::error::BadgeError;
use badgewall::raster::Raster;

fn letter_glyph() -> Raster {
    // an opaque bar in the background colour, as a rasterized "A" would be
    let mut g = Raster::new(8, 12);
    for y in 0..12 {
        g.put_pixel(3, y, monokai_background());
    }
    g
}

#[test]
fn generate_end_to_end_three_badges() {
    let background = monokai_background();
    let pink = Color::rgb(176, 82, 121);
    let mut rng = fastrand::Rng::with_seed(9);
    let canvas = generate(256, 256, 3, background, &vec![pink], &vec![letter_glyph()], &mut rng).unwrap();
    assert_eq!(canvas.width(), 256);
    assert_eq!(canvas.height(), 256);
    let badge = draw_circle(pink, &letter_glyph());
    let mut regions = Vec::new();
    for cx in (0..256).step_by(64) {
        for cy in (0..256).step_by(64) {
            let mut all_badge = true;
            let mut all_background = true;
            for x in 0..64 {
                for y in 0..64 {
                    let p = canvas.pixel(cx + x, cy + y);
                    all_badge &= p == badge.pixel(x, y);
                    all_background &= p == background;
                }
            }
            assert!(all_badge || all_background);
            if all_badge {
                regions.push((cx, cy));
            }
        }
    }
    assert_eq!(regions.len(), 3);
    for (x, y) in regions {
        assert!((64..=192).contains(&x) && (64..=192).contains(&y));
    }
}

#[test]
fn generate_empty_palette_uses_fallback() {
    let background = monokai_background();
    let mut rng = fastrand::Rng::with_seed(1);
    let canvas = generate(192, 192, 1, background, &vec![], &vec![letter_glyph()], &mut rng).unwrap();
    assert_eq!(canvas.pixel(64, 64), Color::rgb(180, 210, 115));
    assert_eq!(canvas.pixel(63, 63), background);
}

#[test]
fn generate_without_icons_fails() {
    let mut rng = fastrand::Rng::with_seed(1);
    let r = generate(256, 256, 1, monokai_background(), &vec![], &vec![], &mut rng);
    assert!(matches!(r, Err(BadgeError::EmptyIconSet)));
}

#[test]
fn generate_placement_errors() {
    let mut rng = fastrand::Rng::with_seed(1);
    let r = generate(65, 65, 1, monokai_background(), &vec![], &vec![letter_glyph()], &mut rng);
    assert!(matches!(r, Err(BadgeError::PlacementExhausted)));
    let r = generate(64, 300, 1, monokai_background(), &vec![], &vec![letter_glyph()], &mut rng);
    assert!(matches!(r, Err(BadgeError::InvalidCanvasSize)));
}

#[test]
fn generate_is_deterministic_for_a_seed() {
    let palette = badgewall::color::default_palette();
    let glyphs = vec![letter_glyph(), Raster::filled(20, 20, monokai_background())];
    let mut a = fastrand::Rng::with_seed(5);
    let mut b = fastrand::Rng::with_seed(5);
    let first = generate(800, 600, 12, monokai_background(), &palette, &glyphs, &mut a).unwrap();
    let second = generate(800, 600, 12, monokai_background(), &palette, &glyphs, &mut b).unwrap();
    assert_eq!(first.image.as_raw(), second.image.as_raw());
}

#[test]
fn compose_draws_exact_badges() {
    let background = monokai_background();
    let red = Color::rgb(255, 0, 0);
    let blue = Color::rgb(0, 0, 255);
    let glyphs = vec![letter_glyph(), Raster::new(0, 0)];
    let canvas = compose(
        256,
        256,
        background,
        &vec![red, blue],
        &glyphs,
        &vec![0, 0, 0],
        &vec![0, 1, 2],
        &vec![0, 3, 5],
    )
    .unwrap();
    // cells (64, 64), (128, 64), (128, 128); colours red, blue, red; glyphs 0, 1, 1
    assert_eq!(canvas.pixel(64, 64), red);
    assert_eq!(canvas.pixel(128, 64), blue);
    assert_eq!(canvas.pixel(128, 128), red);
    assert_eq!(canvas.pixel(64, 128), background);
    assert_eq!(canvas.pixel(64 + 31, 64 + 30), background);
    assert_eq!(canvas.pixel(128 + 31, 128 + 30), red);
    assert_eq!(canvas.pixel(0, 0), background);
    assert_eq!(canvas.pixel(255, 255), background);
}

#[test]
fn compose_same_draws_same_canvas() {
    let palette = badgewall::color::default_palette();
    let glyphs = vec![letter_glyph()];
    let draws = vec![5, 1, 99, 3];
    let a = compose(640, 480, monokai_background(), &palette, &glyphs, &draws, &draws, &draws).unwrap();
    let b = compose(640, 480, monokai_background(), &palette, &glyphs, &draws, &draws, &draws).unwrap();
    assert_eq!(a.image.as_raw(), b.image.as_raw());
}

#[test]
fn compose_errors() {
    let glyphs = vec![letter_glyph()];
    let r = compose(65, 65, monokai_background(), &vec![], &glyphs, &vec![0], &vec![0], &vec![0]);
    assert!(matches!(r, Err(BadgeError::PlacementExhausted)));
    let r = compose(256, 256, monokai_background(), &vec![], &vec![], &vec![0], &vec![0], &vec![0]);
    assert!(matches!(r, Err(BadgeError::EmptyIconSet)));
}
