//! The output picture: a square raster of 8-bit colour.

use crate::canvas::{is_raster, uniform};
use crate::pixel::Rgba8;
use image::{ImageBuffer, Rgba};
use vstd::prelude::*;

verus! {

/// A square raster of 8-bit RGBA pixels, kept in an `image::ImageBuffer` of
/// equal width and height.
#[verifier::external_body]
pub struct Picture {
    buffer: ImageBuffer<Rgba<u8>, Vec<u8>>,
}

/// The pixels of a picture, row by row: `picture_rows(p)[y][x]` is the pixel
/// at column `x` of row `y`.
pub uninterp spec fn picture_rows(picture: Picture) -> Seq<Seq<Rgba8>>;

/// Calls `ImageBuffer::from_pixel` with equal width and height.  It panics
/// when the buffer would be larger than a vector can be, which the
/// precondition excludes; every pixel of the result is a copy of `pixel`.
#[verifier::external_body]
fn buffer_filled(side: u32, pixel: Rgba8) -> (picture: Picture)
    requires
        4 * side * side <= isize::MAX,
    ensures
        picture_rows(picture) == Seq::new(
            side as nat,
            |y: int| Seq::new(side as nat, |x: int| pixel),
        ),
{
    let colour = Rgba([pixel.red, pixel.green, pixel.blue, pixel.alpha]);
    Picture { buffer: ImageBuffer::from_pixel(side, side, colour) }
}

/// Calls `ImageBuffer::width`.  A picture is only ever made with equal width
/// and height, so the width is the number of rows and the length of each.
/// The buffer keeps four bytes for every pixel in one vector, and no vector
/// holds more than `isize::MAX` bytes.
#[verifier::external_body]
fn buffer_side(picture: &Picture) -> (side: u32)
    ensures
        side == picture_rows(*picture).len(),
        forall|y: int| 0 <= y < side ==> (#[trigger] picture_rows(*picture)[y]).len() == side,
        4 * side * side <= isize::MAX,
{
    picture.buffer.width()
}

/// Calls `ImageBuffer::get_pixel`, which panics outside the bounds and
/// otherwise returns the pixel at column `x` of row `y`.
#[verifier::external_body]
fn buffer_get(picture: &Picture, x: u32, y: u32) -> (pixel: Rgba8)
    requires
        y < picture_rows(*picture).len(),
        x < picture_rows(*picture)[y as int].len(),
    ensures
        pixel == picture_rows(*picture)[y as int][x as int],
{
    let found = picture.buffer.get_pixel(x, y);
    Rgba8 { red: found.0[0], green: found.0[1], blue: found.0[2], alpha: found.0[3] }
}

/// Calls `ImageBuffer::put_pixel`, which panics outside the bounds and
/// otherwise replaces the pixel at column `x` of row `y` and no other.
#[verifier::external_body]
fn buffer_put(picture: &mut Picture, x: u32, y: u32, pixel: Rgba8)
    requires
        y < picture_rows(*old(picture)).len(),
        x < picture_rows(*old(picture))[y as int].len(),
    ensures
        picture_rows(*final(picture)) == picture_rows(*old(picture)).update(
            y as int,
            picture_rows(*old(picture))[y as int].update(x as int, pixel),
        ),
{
    picture.buffer.put_pixel(x, y, Rgba([pixel.red, pixel.green, pixel.blue, pixel.alpha]));
}

impl View for Picture {
    type V = Seq<Seq<Rgba8>>;

    open spec fn view(&self) -> Seq<Seq<Rgba8>> {
        picture_rows(*self)
    }
}

impl Picture {
    /// A picture of one colour.
    pub fn filled(side: u32, colour: Rgba8) -> (picture: Picture)
        requires
            4 * side * side <= isize::MAX,
        ensures
            picture@ == uniform(side as nat, colour),
            is_raster(picture@),
    {
        buffer_filled(side, colour)
    }

    /// The number of rows, which is also the number of columns.
    pub fn side(&self) -> (side: u32)
        ensures
            side == self@.len(),
            is_raster(self@),
    {
        buffer_side(self)
    }

    /// The pixel at column `x` of row `y`, or nothing outside the picture.
    pub fn pixel(&self, x: u32, y: u32) -> (found: Option<Rgba8>)
        ensures
            is_raster(self@),
            found == (if x < self@.len() && y < self@.len() {
                Some(self@[y as int][x as int])
            } else {
                None
            }),
    {
        let side = buffer_side(self);
        if x < side && y < side {
            Some(buffer_get(self, x, y))
        } else {
            None
        }
    }

    /// Replaces the pixel at column `x` of row `y`.  A position outside the
    /// picture is ignored.
    pub fn set_pixel(&mut self, x: u32, y: u32, colour: Rgba8)
        ensures
            is_raster(final(self)@),
            final(self)@ == (if x < old(self)@.len() && y < old(self)@.len() {
                old(self)@.update(y as int, old(self)@[y as int].update(x as int, colour))
            } else {
                old(self)@
            }),
    {
        let side = buffer_side(self);
        if x < side && y < side {
            buffer_put(self, x, y, colour);
        }
    }

    /// A picture whose pixel at column `x` of row `y` is what `paint` gives
    /// for `(x, y)`.
    pub fn from_fn<F: Fn(u32, u32) -> Rgba8>(side: u32, paint: &F) -> (picture: Picture)
        requires
            4 * side * side <= isize::MAX,
            forall|x: u32, y: u32| x < side && y < side ==> call_requires(*paint, (x, y)),
        ensures
            picture@.len() == side,
            is_raster(picture@),
            forall|x: u32, y: u32|
                x < side && y < side ==> call_ensures(
                    *paint,
                    (x, y),
                    #[trigger] picture@[y as int][x as int],
                ),
    {
        let mut picture = buffer_filled(side, Rgba8 { red: 0, green: 0, blue: 0, alpha: 0 });
        let mut y: u32 = 0;
        while y < side
            invariant
                y <= side,
                picture@.len() == side,
                is_raster(picture@),
                forall|x: u32, y: u32| x < side && y < side ==> call_requires(*paint, (x, y)),
                forall|c: u32, r: u32|
                    c < side && r < y ==> call_ensures(
                        *paint,
                        (c, r),
                        #[trigger] picture@[r as int][c as int],
                    ),
            decreases side - y,
        {
            let mut x: u32 = 0;
            while x < side
                invariant
                    y < side,
                    x <= side,
                    picture@.len() == side,
                    is_raster(picture@),
                    forall|x: u32, y: u32| x < side && y < side ==> call_requires(*paint, (x, y)),
                    forall|c: u32, r: u32|
                        c < side && (r < y || (r == y && c < x)) ==> call_ensures(
                            *paint,
                            (c, r),
                            #[trigger] picture@[r as int][c as int],
                        ),
                decreases side - x,
            {
                let pixel = paint(x, y);
                buffer_put(&mut picture, x, y, pixel);
                x = x + 1;
            }
            y = y + 1;
        }
        picture
    }
}

} // verus!
