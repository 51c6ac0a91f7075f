use vstd::prelude::*;

verus! {

/// An RGBA colour with 8-bit channels.
#[derive(Debug, Clone, Copy, PartialEq, Eq, Structural)]
pub struct Color {
    pub r: u8,
    pub g: u8,
    pub b: u8,
    pub a: u8,
}

impl Color {
    pub open spec fn spec_rgba(r: u8, g: u8, b: u8, a: u8) -> Color {
        Color { r, g, b, a }
    }

    /// Builds a colour from its four channels.
    pub fn rgba(r: u8, g: u8, b: u8, a: u8) -> (c: Color)
        ensures
            c == Color::spec_rgba(r, g, b, a),
    {
        Color { r, g, b, a }
    }

    /// Builds a fully opaque colour.
    pub fn rgb(r: u8, g: u8, b: u8) -> (c: Color)
        ensures
            c == Color::spec_rgba(r, g, b, 255),
    {
        Color { r, g, b, a: 255 }
    }

    /// Whether the colour covers whatever lies beneath it.
    pub open spec fn is_opaque(self) -> bool {
        self.a == 255
    }
}

/// The canvas background colour used when none is configured.
pub open spec fn spec_monokai_background() -> Color {
    Color::spec_rgba(46, 46, 46, 255)
}

pub open spec fn spec_monokai_yellow() -> Color {
    Color::spec_rgba(229, 181, 103, 255)
}

/// Also the badge colour used when the palette offers none.
pub open spec fn spec_monokai_green() -> Color {
    Color::spec_rgba(180, 210, 115, 255)
}

pub open spec fn spec_monokai_orange() -> Color {
    Color::spec_rgba(232, 125, 62, 255)
}

pub open spec fn spec_monokai_purple() -> Color {
    Color::spec_rgba(158, 134, 200, 255)
}

pub open spec fn spec_monokai_pink() -> Color {
    Color::spec_rgba(176, 82, 121, 255)
}

pub open spec fn spec_monokai_blue() -> Color {
    Color::spec_rgba(108, 153, 187, 255)
}

pub fn monokai_background() -> (c: Color)
    ensures
        c == spec_monokai_background(),
{
    Color::rgb(46, 46, 46)
}

pub fn fallback_color() -> (c: Color)
    ensures
        c == spec_monokai_green(),
{
    Color::rgb(180, 210, 115)
}

pub open spec fn spec_default_palette() -> Seq<Color> {
    seq![
        spec_monokai_yellow(),
        spec_monokai_green(),
        spec_monokai_orange(),
        spec_monokai_purple(),
        spec_monokai_pink(),
        spec_monokai_blue(),
    ]
}

/// The built-in badge palette, used when the caller configures none.
pub fn default_palette() -> (p: Vec<Color>)
    ensures
        p@ == spec_default_palette(),
{
    let p = vec![
        Color::rgb(229, 181, 103),
        Color::rgb(180, 210, 115),
        Color::rgb(232, 125, 62),
        Color::rgb(158, 134, 200),
        Color::rgb(176, 82, 121),
        Color::rgb(108, 153, 187),
    ];
    assert(p@ =~= spec_default_palette());
    p
}

/// The colour a badge gets for a number drawn at random: the palette entry
/// that the number selects, reduced below the palette's length, or the
/// fallback colour where the palette is empty.
pub open spec fn spec_pick_color(palette: Seq<Color>, draw: u64) -> Color {
    if palette.len() > 0 {
        palette[draw as int % palette.len() as int]
    } else {
        spec_monokai_green()
    }
}

pub fn pick_color(palette: &Vec<Color>, draw: u64) -> (c: Color)
    ensures
        c == spec_pick_color(palette@, draw),
{
    if palette.len() > 0 {
        palette[(draw % palette.len() as u64) as usize]
    } else {
        fallback_color()
    }
}

} // verus!
