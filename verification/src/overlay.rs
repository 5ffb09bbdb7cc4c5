//! The escape-time overlay: one of two opaque colours for every pixel.

use crate::canvas::is_raster;
use crate::orbit::{escapes, is_orbit};
use crate::picture::Picture;
use crate::pixel::Rgba8;
use vstd::prelude::*;

verus! {

/// The colour of a pixel whose point escapes, or of one whose point is trapped.
pub open spec fn mask_colour(escaped: bool) -> Rgba8 {
    if escaped {
        Rgba8 { red: 128, green: 0, blue: 0, alpha: 255 }
    } else {
        Rgba8 { red: 0, green: 0, blue: 0, alpha: 255 }
    }
}

/// Whether every pixel of the raster is one of the two overlay colours.
pub open spec fn is_two_coloured(rows: Seq<Seq<Rgba8>>) -> bool {
    forall|y: int, x: int|
        0 <= y < rows.len() && 0 <= x < rows[y].len() ==> (#[trigger] rows[y][x]) == mask_colour(true)
            || rows[y][x] == mask_colour(false)
}

/// The overlay colour for an escape flag.
pub fn classify(escaped: bool) -> (colour: Rgba8)
    ensures
        colour == mask_colour(escaped),
{
    if escaped {
        Rgba8 { red: 128, green: 0, blue: 0, alpha: 255 }
    } else {
        Rgba8 { red: 0, green: 0, blue: 0, alpha: 255 }
    }
}

/// `colour` is what the overlay shows at `(x, y)`: the colour for the escape
/// flag of some orbit of the point that `locate` gives for the pixel.
pub open spec fn is_mask_pixel<C, P, L: Fn(u32, u32) -> C, M: Fn(P, &C) -> P, E: Fn(&P) -> bool>(
    colour: Rgba8,
    x: u32,
    y: u32,
    origin: P,
    limit: nat,
    locate: L,
    map: M,
    beyond: E,
) -> bool {
    exists|coord: C, points: Seq<P>, escaped: bool|
        call_ensures(locate, (x, y), coord) && is_orbit(
            points,
            escaped,
            coord,
            origin,
            limit,
            map,
            beyond,
        ) && colour == mask_colour(escaped)
}

/// The overlay colour of one pixel.
pub fn mask_pixel<C, P: Copy, L: Fn(u32, u32) -> C, M: Fn(P, &C) -> P, E: Fn(&P) -> bool>(
    x: u32,
    y: u32,
    origin: P,
    limit: usize,
    locate: &L,
    map: &M,
    beyond: &E,
) -> (colour: Rgba8)
    requires
        call_requires(*locate, (x, y)),
        forall|z: P, c: C| call_ensures(*locate, (x, y), c) ==> call_requires(*map, (z, &c)),
        forall|z: P| call_requires(*beyond, (&z,)),
    ensures
        is_mask_pixel(colour, x, y, origin, limit as nat, *locate, *map, *beyond),
{
    let coord = locate(x, y);
    let escaped = escapes(&coord, origin, limit, map, beyond);
    classify(escaped)
}

/// The overlay for a picture of the given side: every pixel is located in
/// the plane, its orbit is run, and the pixel takes the colour of the outcome.
pub fn overlay_mask<C, P: Copy, L: Fn(u32, u32) -> C, M: Fn(P, &C) -> P, E: Fn(&P) -> bool>(
    side: u32,
    origin: P,
    limit: usize,
    locate: &L,
    map: &M,
    beyond: &E,
) -> (mask: Picture)
    requires
        4 * side * side <= isize::MAX,
        forall|x: u32, y: u32| x < side && y < side ==> call_requires(*locate, (x, y)),
        forall|z: P, c: C, x: u32, y: u32|
            x < side && y < side && call_ensures(*locate, (x, y), c) ==> call_requires(
                *map,
                (z, &c),
            ),
        forall|z: P| call_requires(*beyond, (&z,)),
    ensures
        mask@.len() == side,
        is_raster(mask@),
        forall|x: u32, y: u32|
            x < side && y < side ==> is_mask_pixel(
                #[trigger] mask@[y as int][x as int],
                x,
                y,
                origin,
                limit as nat,
                *locate,
                *map,
                *beyond,
            ),
        is_two_coloured(mask@),
{
    let paint = |x: u32, y: u32| -> (colour: Rgba8)
        requires
            x < side && y < side,
        ensures
            is_mask_pixel(colour, x, y, origin, limit as nat, *locate, *map, *beyond),
        { mask_pixel(x, y, origin, limit, locate, map, beyond) };
    Picture::from_fn(side, &paint)
}

} // verus!
