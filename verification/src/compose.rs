//! The compositor: from the accumulated canvas to the final picture.

use crate::canvas::{is_raster, is_uncovered, same_shape, Canvas};
use crate::overlay::is_two_coloured;
use crate::picture::Picture;
use crate::pixel::{LumaAlpha, Rgba8};
use vstd::prelude::*;

verus! {

/// The solid colour under the traces: opaque black.
pub open spec fn background() -> Rgba8 {
    Rgba8 { red: 0, green: 0, blue: 0, alpha: 255 }
}

/// One pixel of the final picture: the trace composited over the background,
/// and the overlay pixel, if there is one, composited over that.
pub open spec fn composed_pixel(trace: LumaAlpha, overlay: Option<Rgba8>) -> Rgba8 {
    let traced = background().over(Rgba8::trace(trace));
    match overlay {
        Some(mask) => traced.over(mask),
        None => traced,
    }
}

/// The pixel of an optional overlay at column `x` of row `y`.
pub open spec fn overlay_at(overlay: Option<Seq<Seq<Rgba8>>>, x: int, y: int) -> Option<Rgba8> {
    match overlay {
        Some(rows) => Some(rows[y][x]),
        None => None,
    }
}

/// The final picture for a canvas and an optional overlay of the same side.
pub open spec fn composed(traces: Seq<Seq<LumaAlpha>>, overlay: Option<Seq<Seq<Rgba8>>>) -> Seq<
    Seq<Rgba8>,
> {
    Seq::new(
        traces.len(),
        |y: int|
            Seq::new(
                traces[y].len(),
                |x: int| composed_pixel(traces[y][x], overlay_at(overlay, x, y)),
            ),
    )
}

/// The view of an optional overlay.
pub open spec fn overlay_view(overlay: Option<&Picture>) -> Option<Seq<Seq<Rgba8>>> {
    match overlay {
        Some(picture) => Some(picture@),
        None => None,
    }
}

/// The background colour.
pub fn background_colour() -> (colour: Rgba8)
    ensures
        colour == background(),
{
    Rgba8 { red: 0, green: 0, blue: 0, alpha: 255 }
}

/// Composes one pixel of the final picture.
pub fn compose_pixel(trace: LumaAlpha, overlay: Option<Rgba8>) -> (colour: Rgba8)
    ensures
        colour == composed_pixel(trace, overlay),
{
    let traced = background_colour().blend(Rgba8::from_trace(trace));
    match overlay {
        Some(mask) => traced.blend(mask),
        None => traced,
    }
}

/// Composes the final picture: the canvas as white of varying opacity over
/// the background, and the overlay over both.
pub fn to_u8_image(image: &Canvas, overlay: Option<&Picture>) -> (out: Picture)
    requires
        match overlay {
            Some(mask) => mask@.len() == image@.len(),
            None => true,
        },
    ensures
        out@ == composed(image@, overlay_view(overlay)),
        is_raster(out@),
{
    let side = image.side();
    let mut out = Picture::filled(side, background_colour());
    let mut y: u32 = 0;
    while y < side
        invariant
            y <= side,
            side == image@.len(),
            is_raster(image@),
            out@.len() == side,
            is_raster(out@),
            match overlay {
                Some(mask) => mask@.len() == side,
                None => true,
            },
            forall|r: int, c: int|
                0 <= r < y && 0 <= c < side ==> #[trigger] out@[r][c] == composed_pixel(
                    image@[r][c],
                    overlay_at(overlay_view(overlay), c, r),
                ),
        decreases side - y,
    {
        let mut x: u32 = 0;
        while x < side
            invariant
                y < side,
                x <= side,
                side == image@.len(),
                is_raster(image@),
                out@.len() == side,
                is_raster(out@),
                match overlay {
                    Some(mask) => mask@.len() == side,
                    None => true,
                },
                forall|r: int, c: int|
                    0 <= r < side && 0 <= c < side && (r < y || (r == y && c < x))
                        ==> #[trigger] out@[r][c] == composed_pixel(
                        image@[r][c],
                        overlay_at(overlay_view(overlay), c, r),
                    ),
            decreases side - x,
        {
            let trace = image.pixel(x, y).unwrap();
            let above = match overlay {
                Some(mask) => mask.pixel(x, y),
                None => None,
            };
            out.set_pixel(x, y, compose_pixel(trace, above));
            x = x + 1;
        }
        y = y + 1;
    }
    assert(out@ =~~= composed(image@, overlay_view(overlay)));
    out
}

/// Whether every pixel of the raster is the given colour.
pub open spec fn is_solid(rows: Seq<Seq<Rgba8>>, colour: Rgba8) -> bool {
    forall|y: int, x: int|
        0 <= y < rows.len() && 0 <= x < rows[y].len() ==> #[trigger] rows[y][x] == colour
}

/// Whether every pixel of the raster is fully opaque.
pub open spec fn is_opaque(rows: Seq<Seq<Rgba8>>) -> bool {
    forall|y: int, x: int|
        0 <= y < rows.len() && 0 <= x < rows[y].len() ==> (#[trigger] rows[y][x]).alpha == 255
}

/// A canvas without coverage composes to the bare background.
pub proof fn lemma_uncovered_canvas_shows_background(traces: Seq<Seq<LumaAlpha>>)
    requires
        is_uncovered(traces),
    ensures
        same_shape(composed(traces, None), traces),
        is_solid(composed(traces, None), background()),
{
}

/// A fully opaque overlay hides what lies under it: the final picture is the
/// overlay.
pub proof fn lemma_opaque_overlay_covers(traces: Seq<Seq<LumaAlpha>>, mask: Seq<Seq<Rgba8>>)
    requires
        same_shape(traces, mask),
        is_opaque(mask),
    ensures
        composed(traces, Some(mask)) == mask,
{
    assert(composed(traces, Some(mask)) =~~= mask);
}

/// An overlay of the two overlay colours is fully opaque, so the final
/// picture composed with it is the overlay itself.
pub proof fn lemma_overlay_mask_covers(traces: Seq<Seq<LumaAlpha>>, mask: Seq<Seq<Rgba8>>)
    requires
        same_shape(traces, mask),
        is_two_coloured(mask),
    ensures
        is_opaque(mask),
        composed(traces, Some(mask)) == mask,
{
    lemma_opaque_overlay_covers(traces, mask);
}

} // verus!
