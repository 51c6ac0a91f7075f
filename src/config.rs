use vstd::prelude::*;

verus! {

/// One canvas to generate: its name and its size in pixels.
#[derive(Debug, Clone, PartialEq, Eq)]
pub struct Dimension {
    pub name: String,
    pub width: u32,
    pub height: u32,
}

/// A variation on how badges are drawn.
#[derive(Debug, Clone, Copy, PartialEq, Eq, Structural)]
pub enum Modifier {
    Square,
    Colorized,
}

/// What one run generates: the canvases, the modifiers, the font file and
/// the icon texts to choose from.
#[derive(Debug, Clone, PartialEq, Eq)]
pub struct Configuration {
    pub dimensions: Vec<Dimension>,
    pub modifiers: Vec<Modifier>,
    pub font: String,
    pub icons: Vec<String>,
}

/// Where the configuration is read from and where the images are written.
#[derive(Debug, Clone, PartialEq, Eq)]
pub struct Arguments {
    pub config: String,
    pub output: String,
}

} // verus!
