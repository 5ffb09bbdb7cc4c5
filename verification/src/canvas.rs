//! The accumulation canvas: a square raster of luminance and coverage.

use crate::pixel::LumaAlpha;
use image::{ImageBuffer, LumaA};
use vstd::prelude::*;

verus! {

/// A square raster of 16-bit luminance/coverage pixels, kept in an
/// `image::ImageBuffer` of equal width and height.
#[verifier::external_body]
pub struct Canvas {
    buffer: ImageBuffer<LumaA<u16>, Vec<u16>>,
}

/// The pixels of a canvas, row by row: `canvas_rows(c)[y][x]` is the pixel at
/// column `x` of row `y`.
pub uninterp spec fn canvas_rows(canvas: Canvas) -> Seq<Seq<LumaAlpha>>;

/// Calls `ImageBuffer::from_pixel` with equal width and height.  It panics
/// when the buffer would be larger than a vector can be, which the
/// precondition excludes; every pixel of the result is a copy of `pixel`.
#[verifier::external_body]
fn buffer_filled(side: u32, pixel: LumaAlpha) -> (canvas: Canvas)
    requires
        4 * side * side <= isize::MAX,
    ensures
        canvas_rows(canvas) == Seq::new(side as nat, |y: int| Seq::new(side as nat, |x: int| pixel)),
{
    Canvas { buffer: ImageBuffer::from_pixel(side, side, LumaA([pixel.luma, pixel.alpha])) }
}

/// Calls `ImageBuffer::width`.  A canvas is only ever made with equal width
/// and height, so the width is the number of rows and the length of each.
/// The buffer keeps two 16-bit samples for every pixel in one vector, and no vector
/// holds more than `isize::MAX` bytes.
#[verifier::external_body]
fn buffer_side(canvas: &Canvas) -> (side: u32)
    ensures
        side == canvas_rows(*canvas).len(),
        forall|y: int| 0 <= y < side ==> (#[trigger] canvas_rows(*canvas)[y]).len() == side,
        4 * side * side <= isize::MAX,
{
    canvas.buffer.width()
}

/// Calls `ImageBuffer::get_pixel`, which panics outside the bounds and
/// otherwise returns the pixel at column `x` of row `y`.
#[verifier::external_body]
fn buffer_get(canvas: &Canvas, x: u32, y: u32) -> (pixel: LumaAlpha)
    requires
        y < canvas_rows(*canvas).len(),
        x < canvas_rows(*canvas)[y as int].len(),
    ensures
        pixel == canvas_rows(*canvas)[y as int][x as int],
{
    let found = canvas.buffer.get_pixel(x, y);
    LumaAlpha { luma: found.0[0], alpha: found.0[1] }
}

/// Calls `ImageBuffer::put_pixel`, which panics outside the bounds and
/// otherwise replaces the pixel at column `x` of row `y` and no other.
#[verifier::external_body]
fn buffer_put(canvas: &mut Canvas, x: u32, y: u32, pixel: LumaAlpha)
    requires
        y < canvas_rows(*old(canvas)).len(),
        x < canvas_rows(*old(canvas))[y as int].len(),
    ensures
        canvas_rows(*final(canvas)) == canvas_rows(*old(canvas)).update(
            y as int,
            canvas_rows(*old(canvas))[y as int].update(x as int, pixel),
        ),
{
    canvas.buffer.put_pixel(x, y, LumaA([pixel.luma, pixel.alpha]));
}

/// Whether `rows` is a square raster that fits into a buffer.
pub open spec fn is_raster<T>(rows: Seq<Seq<T>>) -> bool {
    &&& rows.len() <= u32::MAX
    &&& 4 * rows.len() * rows.len() <= isize::MAX
    &&& forall|y: int| 0 <= y < rows.len() ==> (#[trigger] rows[y]).len() == rows.len()
}

/// A square raster of the given side with the same pixel everywhere.
pub open spec fn uniform<T>(side: nat, pixel: T) -> Seq<Seq<T>> {
    Seq::new(side, |y: int| Seq::new(side, |x: int| pixel))
}

/// Pixel by pixel, `top` composited over `base`.
pub open spec fn merged(base: Seq<Seq<LumaAlpha>>, top: Seq<Seq<LumaAlpha>>) -> Seq<Seq<LumaAlpha>> {
    Seq::new(
        base.len(),
        |y: int| Seq::new(base[y].len(), |x: int| base[y][x].over(top[y][x])),
    )
}

/// Two rasters have the same number of rows and the same length in each.
pub open spec fn same_shape<S, T>(a: Seq<Seq<S>>, b: Seq<Seq<T>>) -> bool {
    &&& a.len() == b.len()
    &&& forall|y: int| 0 <= y < a.len() ==> (#[trigger] a[y]).len() == b[y].len()
}

/// Whether no pixel of the raster has any coverage.
pub open spec fn is_uncovered(rows: Seq<Seq<LumaAlpha>>) -> bool {
    forall|y: int, x: int|
        0 <= y < rows.len() && 0 <= x < rows[y].len() ==> (#[trigger] rows[y][x]).alpha == 0
}

impl View for Canvas {
    type V = Seq<Seq<LumaAlpha>>;

    open spec fn view(&self) -> Seq<Seq<LumaAlpha>> {
        canvas_rows(*self)
    }
}

impl Canvas {
    /// An untouched canvas: no luminance and no coverage anywhere.
    pub fn new(side: u32) -> (canvas: Canvas)
        requires
            4 * side * side <= isize::MAX,
        ensures
            canvas@ == uniform(side as nat, LumaAlpha::clear()),
            is_raster(canvas@),
    {
        buffer_filled(side, LumaAlpha::new_clear())
    }

    /// The number of rows, which is also the number of columns.
    pub fn side(&self) -> (side: u32)
        ensures
            side == self@.len(),
            is_raster(self@),
    {
        buffer_side(self)
    }

    /// The pixel at column `x` of row `y`, or nothing outside the canvas.
    pub fn pixel(&self, x: u32, y: u32) -> (found: Option<LumaAlpha>)
        ensures
            is_raster(self@),
            found == (if x < self@.len() && y < self@.len() {
                Some(self@[y as int][x as int])
            } else {
                None
            }),
    {
        let side = buffer_side(self);
        if x < side && y < side {
            Some(buffer_get(self, x, y))
        } else {
            None
        }
    }

    /// Composites `src` over the pixel at column `x` of row `y`.  A position
    /// outside the canvas is ignored.
    pub fn blend_pixel(&mut self, x: u32, y: u32, src: LumaAlpha)
        ensures
            is_raster(final(self)@),
            final(self)@ == (if x < old(self)@.len() && y < old(self)@.len() {
                old(self)@.update(
                    y as int,
                    old(self)@[y as int].update(x as int, old(self)@[y as int][x as int].over(src)),
                )
            } else {
                old(self)@
            }),
    {
        let side = buffer_side(self);
        if x < side && y < side {
            let below = buffer_get(self, x, y);
            buffer_put(self, x, y, below.blend(src));
        }
    }

    /// A canvas whose pixel at column `x` of row `y` is what `paint` gives
    /// for `(x, y)`.
    pub fn from_fn<F: Fn(u32, u32) -> LumaAlpha>(side: u32, paint: &F) -> (canvas: Canvas)
        requires
            4 * side * side <= isize::MAX,
            forall|x: u32, y: u32| x < side && y < side ==> call_requires(*paint, (x, y)),
        ensures
            canvas@.len() == side,
            is_raster(canvas@),
            forall|x: u32, y: u32|
                x < side && y < side ==> call_ensures(
                    *paint,
                    (x, y),
                    #[trigger] canvas@[y as int][x as int],
                ),
    {
        let mut canvas = buffer_filled(side, LumaAlpha::new_clear());
        let mut y: u32 = 0;
        while y < side
            invariant
                y <= side,
                canvas@.len() == side,
                is_raster(canvas@),
                forall|x: u32, y: u32| x < side && y < side ==> call_requires(*paint, (x, y)),
                forall|c: u32, r: u32|
                    c < side && r < y ==> call_ensures(
                        *paint,
                        (c, r),
                        #[trigger] canvas@[r as int][c as int],
                    ),
            decreases side - y,
        {
            let mut x: u32 = 0;
            while x < side
                invariant
                    y < side,
                    x <= side,
                    canvas@.len() == side,
                    is_raster(canvas@),
                    forall|x: u32, y: u32| x < side && y < side ==> call_requires(*paint, (x, y)),
                    forall|c: u32, r: u32|
                        c < side && (r < y || (r == y && c < x)) ==> call_ensures(
                            *paint,
                            (c, r),
                            #[trigger] canvas@[r as int][c as int],
                        ),
                decreases side - x,
            {
                let pixel = paint(x, y);
                buffer_put(&mut canvas, x, y, pixel);
                x = x + 1;
            }
            y = y + 1;
        }
        canvas
    }

    /// Composites every pixel of `top` over the pixel of this canvas at the
    /// same place.
    pub fn merge(&mut self, top: &Canvas)
        requires
            old(self)@.len() == top@.len(),
        ensures
            final(self)@ == merged(old(self)@, top@),
            is_raster(final(self)@),
    {
        let side = buffer_side(self);
        let top_side = buffer_side(top);
        let ghost base = self@;
        let mut y: u32 = 0;
        while y < side
            invariant
                y <= side,
                side == top@.len(),
                is_raster(top@),
                base.len() == side,
                is_raster(base),
                self@.len() == side,
                is_raster(self@),
                forall|r: int, c: int|
                    0 <= r < side && 0 <= c < side ==> #[trigger] self@[r][c] == (if r < y {
                        base[r][c].over(top@[r][c])
                    } else {
                        base[r][c]
                    }),
            decreases side - y,
        {
            let mut x: u32 = 0;
            while x < side
                invariant
                    y < side,
                    x <= side,
                    side == top@.len(),
                    is_raster(top@),
                    base.len() == side,
                    is_raster(base),
                    self@.len() == side,
                    is_raster(self@),
                    forall|r: int, c: int|
                        0 <= r < side && 0 <= c < side ==> #[trigger] self@[r][c] == (if r < y || (r
                            == y && c < x) {
                            base[r][c].over(top@[r][c])
                        } else {
                            base[r][c]
                        }),
                decreases side - x,
            {
                let below = buffer_get(self, x, y);
                let above = buffer_get(top, x, y);
                buffer_put(self, x, y, below.blend(above));
                x = x + 1;
            }
            y = y + 1;
        }
        assert(self@ =~~= merged(base, top@));
    }
}

} // verus!
