use crate::badge::{badge_pixel, draw_circle, BADGE_SIZE};
use crate::color::{pick_color, spec_monokai_green, spec_pick_color, Color};
use crate::error::BadgeError;
use crate::placement::{
    clear_of_edges, draw_cell_indices, free_cell_count, lemma_placement_valid, on_grid, place_cells, placement,
    placement_error,
};
use crate::random::draw_below;
use crate::raster::{fits_memory, in_bounds, over_pixel, overlay, raster_height, raster_pixel, raster_width, Raster};
use vstd::prelude::*;

verus! {

/// The pixel at `(x, y)` of a canvas of colour `background` once the first
/// `n` badges are overlaid: badge `i` has colour `colors[i]`, carries glyph
/// `glyphs[icons[i]]` and has its corner at `cells[i]`.
pub open spec fn painted(
    background: Color,
    glyphs: Seq<Raster>,
    cells: Seq<(u32, u32)>,
    colors: Seq<Color>,
    icons: Seq<int>,
    n: nat,
    x: int,
    y: int,
) -> Color
    decreases n,
{
    if n == 0 {
        background
    } else {
        let i = n - 1;
        let under = painted(background, glyphs, cells, colors, icons, (n - 1) as nat, x, y);
        let bx = x - cells[i].0;
        let by = y - cells[i].1;
        if 0 <= bx < BADGE_SIZE && 0 <= by < BADGE_SIZE {
            over_pixel(under, badge_pixel(colors[i], glyphs[icons[i]], bx, by))
        } else {
            under
        }
    }
}

/// Whether `canvas` is the `width` x `height` canvas of colour `background`
/// with one badge on each of `cells`, coloured from `palette` and carrying
/// one of `glyphs`, as `painted` describes.
pub open spec fn drawn_canvas(
    canvas: Raster,
    width: int,
    height: int,
    background: Color,
    palette: Seq<Color>,
    glyphs: Seq<Raster>,
    cells: Seq<(u32, u32)>,
    colors: Seq<Color>,
    icons: Seq<int>,
) -> bool {
    &&& raster_width(canvas) == width
    &&& raster_height(canvas) == height
    &&& cells.no_duplicates()
    &&& colors.len() == cells.len()
    &&& icons.len() == cells.len()
    &&& forall|i: int|
        0 <= i < cells.len() ==> {
            &&& on_grid(#[trigger] cells[i], width, height, BADGE_SIZE as int)
            &&& clear_of_edges(cells[i], width, height, BADGE_SIZE as int)
            &&& 0 <= icons[i] < glyphs.len()
            &&& if palette.len() > 0 {
                palette.contains(colors[i])
            } else {
                colors[i] == spec_monokai_green()
            }
        }
    &&& forall|x: int, y: int|
        in_bounds(canvas, x, y) ==> #[trigger] raster_pixel(canvas, x, y) == painted(
            background,
            glyphs,
            cells,
            colors,
            icons,
            cells.len(),
            x,
            y,
        )
}

/// Whether `canvas` is one of the canvases that `generate` may return: some
/// choice of `count` cells, colours and glyphs draws it.
pub open spec fn generated(
    canvas: Raster,
    width: int,
    height: int,
    count: int,
    background: Color,
    palette: Seq<Color>,
    glyphs: Seq<Raster>,
) -> bool {
    exists|cells: Seq<(u32, u32)>, colors: Seq<Color>, icons: Seq<int>|
        cells.len() == count && #[trigger] drawn_canvas(
            canvas,
            width,
            height,
            background,
            palette,
            glyphs,
            cells,
            colors,
            icons,
        )
}

/// The colour of each badge: the palette entry that its draw selects, or
/// the fallback colour where the palette is empty.
pub open spec fn badge_colors(palette: Seq<Color>, color_draws: Seq<u64>) -> Seq<Color> {
    color_draws.map_values(|d: u64| spec_pick_color(palette, d))
}

/// The glyph of each badge: the one that its draw selects.
pub open spec fn badge_icons(glyph_count: int, icon_draws: Seq<u64>) -> Seq<int> {
    icon_draws.map_values(|d: u64| d as int % glyph_count)
}

/// Builds the canvas that the drawn numbers describe: the cells that
/// `cell_draws` selects (see `place_cells`), and for badge `i` the colour
/// and the glyph that `color_draws[i]` and `icon_draws[i]` select, each
/// reduced below the number of choices.
pub fn compose(
    canvas_width: u32,
    canvas_height: u32,
    background: Color,
    palette: &Vec<Color>,
    glyphs: &Vec<Raster>,
    cell_draws: &Vec<u64>,
    color_draws: &Vec<u64>,
    icon_draws: &Vec<u64>,
) -> (r: Result<Raster, BadgeError>)
    requires
        fits_memory(canvas_width as int, canvas_height as int),
        color_draws.len() == cell_draws.len(),
        icon_draws.len() == cell_draws.len(),
    ensures
        glyphs.len() == 0 ==> r == Err::<Raster, BadgeError>(BadgeError::EmptyIconSet),
        glyphs.len() > 0 ==> match r {
            Ok(canvas) => {
                &&& placement_error(
                    canvas_width as int,
                    canvas_height as int,
                    BADGE_SIZE as int,
                    cell_draws.len() as int,
                ) is None
                &&& drawn_canvas(
                    canvas,
                    canvas_width as int,
                    canvas_height as int,
                    background,
                    palette@,
                    glyphs@,
                    placement(canvas_width as int, canvas_height as int, BADGE_SIZE as int, cell_draws@),
                    badge_colors(palette@, color_draws@),
                    badge_icons(glyphs.len() as int, icon_draws@),
                )
            },
            Err(e) => placement_error(
                canvas_width as int,
                canvas_height as int,
                BADGE_SIZE as int,
                cell_draws.len() as int,
            ) == Some(e),
        },
{
    if glyphs.len() == 0 {
        return Err(BadgeError::EmptyIconSet);
    }
    let cells = match place_cells(canvas_width, canvas_height, BADGE_SIZE, cell_draws) {
        Ok(cells) => cells,
        Err(e) => {
            return Err(e);
        },
    };
    proof {
        lemma_placement_valid(canvas_width, canvas_height, BADGE_SIZE, cell_draws@);
    }
    let ghost colors = badge_colors(palette@, color_draws@);
    let ghost icons = badge_icons(glyphs.len() as int, icon_draws@);
    let mut canvas = Raster::filled(canvas_width, canvas_height, background);
    let mut k: usize = 0;
    while k < cells.len()
        invariant
            k <= cells.len(),
            cells.len() == cell_draws.len(),
            color_draws.len() == cell_draws.len(),
            icon_draws.len() == cell_draws.len(),
            glyphs.len() > 0,
            colors == badge_colors(palette@, color_draws@),
            icons == badge_icons(glyphs.len() as int, icon_draws@),
            raster_width(canvas) == canvas_width,
            raster_height(canvas) == canvas_height,
            forall|x: int, y: int|
                in_bounds(canvas, x, y) ==> #[trigger] raster_pixel(canvas, x, y) == painted(
                    background,
                    glyphs@,
                    cells@,
                    colors,
                    icons,
                    k as nat,
                    x,
                    y,
                ),
        decreases cells.len() - k,
    {
        let color = pick_color(palette, color_draws[k]);
        let icon = (icon_draws[k] % glyphs.len() as u64) as usize;
        let badge = draw_circle(color, &glyphs[icon]);
        let (x, y) = cells[k];
        overlay(&mut canvas, &badge, x as i64, y as i64);
        k = k + 1;
    }
    proof {
        let n = cells.len() as int;
        assert forall|i: int| 0 <= i < n implies {
            &&& 0 <= #[trigger] icons[i] < glyphs.len()
            &&& if palette.len() > 0 {
                palette@.contains(colors[i])
            } else {
                colors[i] == spec_monokai_green()
            }
        } by {
            if palette.len() > 0 {
                let j = color_draws@[i] as int % palette.len() as int;
                assert(palette@[j] == colors[i]);
            }
        }
    }
    Ok(canvas)
}

/// A canvas is determined by what it is drawn from: two canvases drawn with
/// the same size, background, glyphs, cells, colours and icons agree on
/// every pixel.
pub proof fn lemma_canvas_deterministic(
    canvas: Raster,
    again: Raster,
    width: int,
    height: int,
    background: Color,
    palette: Seq<Color>,
    glyphs: Seq<Raster>,
    cells: Seq<(u32, u32)>,
    colors: Seq<Color>,
    icons: Seq<int>,
)
    requires
        drawn_canvas(canvas, width, height, background, palette, glyphs, cells, colors, icons),
        drawn_canvas(again, width, height, background, palette, glyphs, cells, colors, icons),
    ensures
        raster_width(canvas) == raster_width(again),
        raster_height(canvas) == raster_height(again),
        forall|x: int, y: int|
            in_bounds(canvas, x, y) ==> #[trigger] raster_pixel(canvas, x, y) == raster_pixel(again, x, y),
{
    assert forall|x: int, y: int| in_bounds(canvas, x, y) implies #[trigger] raster_pixel(canvas, x, y)
        == raster_pixel(again, x, y) by {
        assert(in_bounds(again, x, y));
    }
}

/// Generates one canvas: `background` everywhere, and `count` badges on
/// distinct grid cells, each in a colour drawn from `palette` (the fallback
/// colour where it is empty) and carrying a glyph drawn from `glyphs`. The
/// glyphs are expected to be rasterized in the background colour, which
/// makes each icon a cut-out of its badge. The numbers drawn from `rng` are
/// handed to `compose`.
pub fn generate(
    canvas_width: u32,
    canvas_height: u32,
    count: usize,
    background: Color,
    palette: &Vec<Color>,
    glyphs: &Vec<Raster>,
    rng: &mut fastrand::Rng,
) -> (r: Result<Raster, BadgeError>)
    requires
        fits_memory(canvas_width as int, canvas_height as int),
    ensures
        glyphs.len() == 0 ==> r == Err::<Raster, BadgeError>(BadgeError::EmptyIconSet),
        glyphs.len() > 0 ==> match r {
            Ok(canvas) => {
                &&& placement_error(canvas_width as int, canvas_height as int, BADGE_SIZE as int, count as int)
                    is None
                &&& generated(
                    canvas,
                    canvas_width as int,
                    canvas_height as int,
                    count as int,
                    background,
                    palette@,
                    glyphs@,
                )
            },
            Err(e) => placement_error(canvas_width as int, canvas_height as int, BADGE_SIZE as int, count as int)
                == Some(e),
        },
{
    if glyphs.len() == 0 {
        return Err(BadgeError::EmptyIconSet);
    }
    if canvas_width <= BADGE_SIZE || canvas_height <= BADGE_SIZE {
        return Err(BadgeError::InvalidCanvasSize);
    }
    let avail = free_cell_count(canvas_width, canvas_height, BADGE_SIZE);
    if count as u64 > avail {
        return Err(BadgeError::PlacementExhausted);
    }
    let cell_draws = draw_cell_indices(avail, count, rng);
    let mut color_draws: Vec<u64> = Vec::new();
    let mut icon_draws: Vec<u64> = Vec::new();
    let mut k: usize = 0;
    while k < count
        invariant
            k <= count,
            glyphs.len() > 0,
            color_draws.len() == k,
            icon_draws.len() == k,
        decreases count - k,
    {
        let c = if palette.len() > 0 {
            draw_below(rng, palette.len() as u64)
        } else {
            0
        };
        color_draws.push(c);
        icon_draws.push(draw_below(rng, glyphs.len() as u64));
        k = k + 1;
    }
    let r = compose(
        canvas_width,
        canvas_height,
        background,
        palette,
        glyphs,
        &cell_draws,
        &color_draws,
        &icon_draws,
    );
    proof {
        if r is Ok {
            let cells = placement(canvas_width as int, canvas_height as int, BADGE_SIZE as int, cell_draws@);
            lemma_placement_valid(canvas_width, canvas_height, BADGE_SIZE, cell_draws@);
            assert(drawn_canvas(
                r->Ok_0,
                canvas_width as int,
                canvas_height as int,
                background,
                palette@,
                glyphs@,
                cells,
                badge_colors(palette@, color_draws@),
                badge_icons(glyphs.len() as int, icon_draws@),
            ));
        }
    }
    r
}

} // verus!
