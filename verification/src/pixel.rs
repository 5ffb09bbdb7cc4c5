//! Pixel values and alpha-over compositing.

use image::{LumaA, Pixel, Rgba};
use vstd::prelude::*;

verus! {

/// A canvas pixel: 16-bit luminance with 16-bit coverage.
#[derive(Clone, Copy, Debug, PartialEq, Eq, Structural)]
pub struct LumaAlpha {
    pub luma: u16,
    pub alpha: u16,
}

/// A picture pixel: 8-bit red, green, blue and opacity.
#[derive(Clone, Copy, Debug, PartialEq, Eq, Structural)]
pub struct Rgba8 {
    pub red: u8,
    pub green: u8,
    pub blue: u8,
    pub alpha: u8,
}

/// What `image` computes when it blends the 16-bit pixel `src` into `dst`.
pub uninterp spec fn luma_alpha_blend(dst: LumaAlpha, src: LumaAlpha) -> LumaAlpha;

/// What `image` computes when it blends the 8-bit pixel `src` into `dst`.
pub uninterp spec fn rgba_blend(dst: Rgba8, src: Rgba8) -> Rgba8;

/// Calls `image::Pixel::blend` on `LumaA<u16>`.  The contract only names the
/// outcome: it is a function of the two pixels and of nothing else.
#[verifier::external_body]
fn image_blend_luma(dst: LumaAlpha, src: LumaAlpha) -> (out: LumaAlpha)
    ensures
        out == luma_alpha_blend(dst, src),
{
    let mut pixel = LumaA([dst.luma, dst.alpha]);
    pixel.blend(&LumaA([src.luma, src.alpha]));
    LumaAlpha { luma: pixel.0[0], alpha: pixel.0[1] }
}

/// Calls `image::Pixel::blend` on `Rgba<u8>`.  The contract only names the
/// outcome: it is a function of the two pixels and of nothing else.
#[verifier::external_body]
fn image_blend_rgba(dst: Rgba8, src: Rgba8) -> (out: Rgba8)
    ensures
        out == rgba_blend(dst, src),
{
    let mut pixel = Rgba([dst.red, dst.green, dst.blue, dst.alpha]);
    pixel.blend(&Rgba([src.red, src.green, src.blue, src.alpha]));
    Rgba8 { red: pixel.0[0], green: pixel.0[1], blue: pixel.0[2], alpha: pixel.0[3] }
}

impl LumaAlpha {
    /// The pixel of an untouched canvas.
    pub open spec fn clear() -> LumaAlpha {
        LumaAlpha { luma: 0, alpha: 0 }
    }

    /// The colour of a line: full luminance at the given opacity.
    pub open spec fn line(opacity: u16) -> LumaAlpha {
        LumaAlpha { luma: 0xffff, alpha: opacity }
    }

    /// `src` composited over `self`.  A source without coverage leaves the
    /// pixel as it is, a pixel without coverage takes the source, and
    /// everything in between is blended.
    pub open spec fn over(self, src: LumaAlpha) -> LumaAlpha {
        if src.alpha == 0 {
            self
        } else if self.alpha == 0 {
            src
        } else {
            luma_alpha_blend(self, src)
        }
    }

    pub fn new_clear() -> (out: LumaAlpha)
        ensures
            out == LumaAlpha::clear(),
    {
        LumaAlpha { luma: 0, alpha: 0 }
    }

    pub fn new_line(opacity: u16) -> (out: LumaAlpha)
        ensures
            out == LumaAlpha::line(opacity),
    {
        LumaAlpha { luma: 0xffff, alpha: opacity }
    }

    /// Composites `src` over this pixel.
    pub fn blend(self, src: LumaAlpha) -> (out: LumaAlpha)
        ensures
            out == self.over(src),
    {
        if src.alpha == 0 {
            self
        } else if self.alpha == 0 {
            src
        } else {
            image_blend_luma(self, src)
        }
    }
}

impl Rgba8 {
    /// `src` composited over `self`.  A fully transparent source leaves the
    /// pixel as it is, a fully opaque source replaces it, and everything in
    /// between is blended.
    pub open spec fn over(self, src: Rgba8) -> Rgba8 {
        if src.alpha == 0 {
            self
        } else if src.alpha == 0xff {
            src
        } else {
            rgba_blend(self, src)
        }
    }

    /// White at the opacity given by the high byte of a canvas pixel's coverage.
    pub open spec fn trace(pixel: LumaAlpha) -> Rgba8 {
        Rgba8 { red: 0xff, green: 0xff, blue: 0xff, alpha: (pixel.alpha / 256) as u8 }
    }

    /// Composites `src` over this pixel.
    pub fn blend(self, src: Rgba8) -> (out: Rgba8)
        ensures
            out == self.over(src),
    {
        if src.alpha == 0 {
            self
        } else if src.alpha == 0xff {
            src
        } else {
            image_blend_rgba(self, src)
        }
    }

    /// The 8-bit rendering of a canvas pixel.
    pub fn from_trace(pixel: LumaAlpha) -> (out: Rgba8)
        ensures
            out == Rgba8::trace(pixel),
    {
        let high: u16 = pixel.alpha / 256;
        Rgba8 { red: 0xff, green: 0xff, blue: 0xff, alpha: high as u8 }
    }
}

} // verus!
