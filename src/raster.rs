use crate::color::Color;
use vstd::prelude::*;

verus! {

/// An RGBA pixel buffer. The pixels are held by an `image::RgbaImage`; the
/// library sees them through `raster_width`, `raster_height` and
/// `raster_pixel`.
#[verifier::external_body]
pub struct Raster {
    pub image: image::RgbaImage,
}

/// Width in pixels of what a raster holds.
pub uninterp spec fn raster_width(img: Raster) -> nat;

/// Height in pixels of what a raster holds.
pub uninterp spec fn raster_height(img: Raster) -> nat;

/// The pixel that a raster holds at column `x`, row `y`.
pub uninterp spec fn raster_pixel(img: Raster, x: int, y: int) -> Color;

/// What `Rgba::blend` makes of a partly transparent pixel drawn over another.
pub uninterp spec fn blended(bottom: Color, top: Color) -> Color;

/// Source-over compositing of one pixel: a transparent pixel leaves the one
/// beneath as it was, an opaque one replaces it.
pub open spec fn over_pixel(bottom: Color, top: Color) -> Color {
    if top.a == 0 {
        bottom
    } else if top.a == 255 {
        top
    } else {
        blended(bottom, top)
    }
}

pub open spec fn in_bounds(img: Raster, x: int, y: int) -> bool {
    0 <= x < raster_width(img) && 0 <= y < raster_height(img)
}

/// The pixel at `(x, y)` of `bottom` once `top` is overlaid with its corner at
/// `(left, upper)`.
pub open spec fn overlaid(bottom: Raster, top: Raster, left: int, upper: int, x: int, y: int) -> Color {
    if in_bounds(top, x - left, y - upper) {
        over_pixel(raster_pixel(bottom, x, y), raster_pixel(top, x - left, y - upper))
    } else {
        raster_pixel(bottom, x, y)
    }
}

/// Whether the byte count of a buffer of this size fits `usize`, counted as
/// `ImageBuffer::new` counts it: four bytes per pixel times the width, then
/// times the height.
pub open spec fn fits_memory(width: int, height: int) -> bool {
    &&& 4 * width <= usize::MAX
    &&& 4 * width * height <= usize::MAX
}

/// Tells whether a buffer of this size can be made, before making it.
pub fn fits_in_memory(width: u32, height: u32) -> (r: bool)
    ensures
        r == fits_memory(width as int, height as int),
{
    let row: u128 = 4 * width as u128;
    assert(row * height as u128 <= u128::MAX) by (nonlinear_arith)
        requires
            row <= 4 * u32::MAX,
            height <= u32::MAX,
    ;
    let total: u128 = row * height as u128;
    row <= usize::MAX as u128 && total <= usize::MAX as u128
}

/// Relies on ImageBuffer::new: a buffer of the given size with every pixel
/// transparent black; it panics where `4 * width`, or that times `height`,
/// overflows `usize`.
#[verifier::external_body]
fn image_new(width: u32, height: u32) -> (r: Raster)
    requires
        fits_memory(width as int, height as int),
    ensures
        raster_width(r) == width,
        raster_height(r) == height,
        forall|x: int, y: int|
            0 <= x < width && 0 <= y < height ==> #[trigger] raster_pixel(r, x, y)
                == Color::spec_rgba(0, 0, 0, 0),
{
    Raster { image: image::RgbaImage::new(width, height) }
}

/// Relies on ImageBuffer::width.
#[verifier::external_body]
fn image_width(img: &Raster) -> (r: u32)
    ensures
        r == raster_width(*img),
{
    img.image.width()
}

/// Relies on ImageBuffer::height.
#[verifier::external_body]
fn image_height(img: &Raster) -> (r: u32)
    ensures
        r == raster_height(*img),
{
    img.image.height()
}

/// Relies on ImageBuffer::get_pixel, which panics out of bounds.
#[verifier::external_body]
fn image_get_pixel(img: &Raster, x: u32, y: u32) -> (r: Color)
    requires
        in_bounds(*img, x as int, y as int),
    ensures
        r == raster_pixel(*img, x as int, y as int),
{
    let p = img.image.get_pixel(x, y);
    Color { r: p.0[0], g: p.0[1], b: p.0[2], a: p.0[3] }
}

/// Relies on ImageBuffer::put_pixel: it sets one pixel and panics out of
/// bounds.
#[verifier::external_body]
fn image_put_pixel(img: &mut Raster, x: u32, y: u32, c: Color)
    requires
        in_bounds(*old(img), x as int, y as int),
    ensures
        raster_width(*final(img)) == raster_width(*old(img)),
        raster_height(*final(img)) == raster_height(*old(img)),
        forall|i: int, j: int|
            #[trigger] raster_pixel(*final(img), i, j) == if i == x && j == y {
                c
            } else {
                raster_pixel(*old(img), i, j)
            },
{
    img.image.put_pixel(x, y, image::Rgba([c.r, c.g, c.b, c.a]))
}

/// Relies on imageops::overlay: each pixel of `bottom` under `top`, placed
/// with its corner at `(left, upper)` and clipped to `bottom`, is blended with
/// `Rgba::blend`, which keeps the pixel beneath for a transparent pixel on top
/// and takes an opaque one as it is; all other pixels stay.
#[verifier::external_body]
fn image_overlay(bottom: &mut Raster, top: &Raster, left: i64, upper: i64)
    requires
        -(u32::MAX as int) <= left <= u32::MAX,
        -(u32::MAX as int) <= upper <= u32::MAX,
    ensures
        raster_width(*final(bottom)) == raster_width(*old(bottom)),
        raster_height(*final(bottom)) == raster_height(*old(bottom)),
        forall|x: int, y: int|
            in_bounds(*old(bottom), x, y) ==> #[trigger] raster_pixel(*final(bottom), x, y)
                == if in_bounds(*top, x - left, y - upper) {
                if raster_pixel(*top, x - left, y - upper).a == 0 {
                    raster_pixel(*old(bottom), x, y)
                } else if raster_pixel(*top, x - left, y - upper).a == 255 {
                    raster_pixel(*top, x - left, y - upper)
                } else {
                    blended(raster_pixel(*old(bottom), x, y), raster_pixel(*top, x - left, y - upper))
                }
            } else {
                raster_pixel(*old(bottom), x, y)
            },
{
    image::imageops::overlay(&mut bottom.image, &top.image, left, upper)
}

impl Raster {
    /// A transparent buffer of the given size.
    pub fn new(width: u32, height: u32) -> (r: Raster)
        requires
            fits_memory(width as int, height as int),
        ensures
            raster_width(r) == width,
            raster_height(r) == height,
            forall|x: int, y: int|
                in_bounds(r, x, y) ==> #[trigger] raster_pixel(r, x, y) == Color::spec_rgba(0, 0, 0, 0),
    {
        image_new(width, height)
    }

    pub fn width(&self) -> (r: u32)
        ensures
            r == raster_width(*self),
    {
        image_width(self)
    }

    pub fn height(&self) -> (r: u32)
        ensures
            r == raster_height(*self),
    {
        image_height(self)
    }

    pub fn pixel(&self, x: u32, y: u32) -> (c: Color)
        requires
            in_bounds(*self, x as int, y as int),
        ensures
            c == raster_pixel(*self, x as int, y as int),
    {
        image_get_pixel(self, x, y)
    }

    pub fn put_pixel(&mut self, x: u32, y: u32, c: Color)
        requires
            in_bounds(*old(self), x as int, y as int),
        ensures
            raster_width(*final(self)) == raster_width(*old(self)),
            raster_height(*final(self)) == raster_height(*old(self)),
            forall|i: int, j: int|
                #[trigger] raster_pixel(*final(self), i, j) == if i == x && j == y {
                    c
                } else {
                    raster_pixel(*old(self), i, j)
                },
    {
        image_put_pixel(self, x, y, c)
    }

    /// Sets every pixel to `c`, without blending.
    pub fn fill(&mut self, c: Color)
        ensures
            raster_width(*final(self)) == raster_width(*old(self)),
            raster_height(*final(self)) == raster_height(*old(self)),
            forall|x: int, y: int| in_bounds(*final(self), x, y) ==> #[trigger] raster_pixel(*final(self), x, y) == c,
    {
        let width = self.width();
        let height = self.height();
        let mut x: u32 = 0;
        while x < width
            invariant
                x <= width,
                width == raster_width(*self),
                height == raster_height(*self),
                raster_width(*self) == raster_width(*old(self)),
                raster_height(*self) == raster_height(*old(self)),
                forall|i: int, j: int|
                    0 <= i < x && 0 <= j < height ==> #[trigger] raster_pixel(*self, i, j) == c,
            decreases width - x,
        {
            let mut y: u32 = 0;
            while y < height
                invariant
                    x < width,
                    y <= height,
                    width == raster_width(*self),
                    height == raster_height(*self),
                    raster_width(*self) == raster_width(*old(self)),
                    raster_height(*self) == raster_height(*old(self)),
                    forall|i: int, j: int|
                        (0 <= i < x && 0 <= j < height) || (i == x && 0 <= j < y) ==> #[trigger] raster_pixel(
                            *self,
                            i,
                            j,
                        ) == c,
                decreases height - y,
            {
                self.put_pixel(x, y, c);
                y = y + 1;
            }
            x = x + 1;
        }
    }

    /// A buffer of the given size with every pixel set to `c`.
    pub fn filled(width: u32, height: u32, c: Color) -> (r: Raster)
        requires
            fits_memory(width as int, height as int),
        ensures
            raster_width(r) == width,
            raster_height(r) == height,
            forall|x: int, y: int| in_bounds(r, x, y) ==> #[trigger] raster_pixel(r, x, y) == c,
    {
        let mut r = Raster::new(width, height);
        r.fill(c);
        r
    }
}

/// Draws `top` over `bottom` with its corner at `(left, upper)`, clipped to
/// `bottom`, by source-over compositing.
pub fn overlay(bottom: &mut Raster, top: &Raster, left: i64, upper: i64)
    requires
        -(u32::MAX as int) <= left <= u32::MAX,
        -(u32::MAX as int) <= upper <= u32::MAX,
    ensures
        raster_width(*final(bottom)) == raster_width(*old(bottom)),
        raster_height(*final(bottom)) == raster_height(*old(bottom)),
        forall|x: int, y: int|
            in_bounds(*old(bottom), x, y) ==> #[trigger] raster_pixel(*final(bottom), x, y) == overlaid(
                *old(bottom),
                *top,
                left as int,
                upper as int,
                x,
                y,
            ),
{
    image_overlay(bottom, top, left, upper)
}

/// Overlaying a fully opaque image hides what lay beneath it: every pixel in
/// its footprint is the overlaid image's own.
pub proof fn lemma_opaque_overlay_covers(bottom: Raster, top: Raster, left: int, upper: int, x: int, y: int)
    requires
        in_bounds(top, x - left, y - upper),
        raster_pixel(top, x - left, y - upper).is_opaque(),
    ensures
        overlaid(bottom, top, left, upper, x, y) == raster_pixel(top, x - left, y - upper),
{
}

/// A transparent pixel of the overlaid image leaves the pixel beneath it as
/// it was.
pub proof fn lemma_transparent_overlay_keeps(bottom: Raster, top: Raster, left: int, upper: int, x: int, y: int)
    requires
        in_bounds(top, x - left, y - upper) ==> raster_pixel(top, x - left, y - upper).a == 0,
    ensures
        overlaid(bottom, top, left, upper, x, y) == raster_pixel(bottom, x, y),
{
}

} // verus!
