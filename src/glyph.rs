use crate::error::BadgeError;
use vstd::prelude::*;

verus! {

/// Whether the laid-out text has glyphs, each with a pixel box.
pub open spec fn all_boxed(boxes: Seq<Option<(i32, i32)>>) -> bool {
    &&& boxes.len() > 0
    &&& forall|i: int| 0 <= i < boxes.len() ==> #[trigger] boxes[i] is Some
}

/// The width of the span from `first_min` to `last_max`, none if it is empty.
pub open spec fn span_width(first_min: int, last_max: int) -> int {
    if last_max > first_min {
        last_max - first_min
    } else {
        0
    }
}

/// The width of the buffer that a text's glyphs are drawn into, from the
/// horizontal extents `(min_x, max_x)` of the glyphs' pixel boxes in layout
/// order (`None` for a glyph without one): from the left edge of the first
/// glyph to the right edge of the last.
pub fn glyph_width(boxes: &Vec<Option<(i32, i32)>>) -> (r: Result<u32, BadgeError>)
    ensures
        match r {
            Ok(w) => all_boxed(boxes@) && w == span_width(
                boxes@[0]->Some_0.0 as int,
                boxes@.last()->Some_0.1 as int,
            ),
            Err(e) => !all_boxed(boxes@) && e == BadgeError::GlyphLayout,
        },
{
    if boxes.len() == 0 {
        return Err(BadgeError::GlyphLayout);
    }
    let mut i: usize = 0;
    while i < boxes.len()
        invariant
            i <= boxes.len(),
            forall|j: int| 0 <= j < i ==> #[trigger] boxes@[j] is Some,
        decreases boxes.len() - i,
    {
        if boxes[i].is_none() {
            return Err(BadgeError::GlyphLayout);
        }
        i = i + 1;
    }
    let first = boxes[0].unwrap().0;
    let last = boxes[boxes.len() - 1].unwrap().1;
    if last > first {
        Ok((last as i64 - first as i64) as u32)
    } else {
        Ok(0)
    }
}

} // verus!
