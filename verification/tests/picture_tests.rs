use num::complex::Complex64;
use orbit_traces::canvas::Canvas;
use orbit_traces::compose::{background_colour, compose_pixel, to_u8_image};
use orbit_traces::overlay::{classify, mask_pixel, overlay_mask};
use orbit_traces::picture::Picture;
use orbit_traces::pixel::{LumaAlpha, Rgba8};

fn luma(luma: u16, alpha: u16) -> LumaAlpha {
    LumaAlpha { luma, alpha }
}

fn rgba(red: u8, green: u8, blue: u8, alpha: u8) -> Rgba8 {
    Rgba8 { red, green, blue, alpha }
}

fn square_map(z: Complex64, c: &Complex64) -> Complex64 {
    z.powf(2.0) + *c
}

fn far(z: &Complex64) -> bool {
    z.norm_sqr() > 4.0
}

#[test]
fn filled_picture_is_of_one_colour() {
    let picture = Picture::filled(3, rgba(1, 2, 3, 4));
    assert_eq!(picture.side(), 3);
    for y in 0..3 {
        for x in 0..3 {
            assert_eq!(picture.pixel(x, y), Some(rgba(1, 2, 3, 4)));
        }
    }
    assert_eq!(picture.pixel(3, 0), None);
    assert_eq!(picture.pixel(0, 3), None);
}

#[test]
fn set_pixel_replaces_one_pixel() {
    let mut picture = Picture::filled(3, rgba(0, 0, 0, 255));
    picture.set_pixel(2, 1, rgba(9, 8, 7, 6));
    picture.set_pixel(3, 1, rgba(1, 1, 1, 1));
    picture.set_pixel(1, 3, rgba(1, 1, 1, 1));
    for y in 0..3 {
        for x in 0..3 {
            let expected = if (x, y) == (2, 1) { rgba(9, 8, 7, 6) } else { rgba(0, 0, 0, 255) };
            assert_eq!(picture.pixel(x, y), Some(expected));
        }
    }
}

#[test]
fn picture_from_fn_paints_every_pixel() {
    let paint = |x: u32, y: u32| rgba(x as u8, y as u8, (x * y) as u8, 255);
    let picture = Picture::from_fn(5, &paint);
    assert_eq!(picture.side(), 5);
    for y in 0..5 {
        for x in 0..5 {
            assert_eq!(picture.pixel(x, y), Some(paint(x, y)));
        }
    }
}

#[test]
fn overlay_colours() {
    assert_eq!(classify(true), rgba(128, 0, 0, 255));
    assert_eq!(classify(false), rgba(0, 0, 0, 255));
}

#[test]
fn overlay_classifies_the_origin_as_trapped_and_a_far_point_as_escaped() {
    let origin = Complex64::new(0.0, 0.0);
    let locate = |x: u32, _y: u32| {
        if x == 0 {
            Complex64::new(0.0, 0.0)
        } else {
            Complex64::new(3.0, 3.0)
        }
    };
    assert_eq!(mask_pixel(0, 0, origin, 100, &locate, &square_map, &far), rgba(0, 0, 0, 255));
    assert_eq!(mask_pixel(1, 0, origin, 1, &locate, &square_map, &far), rgba(128, 0, 0, 255));
    assert_eq!(mask_pixel(1, 0, origin, 100, &locate, &square_map, &far), rgba(128, 0, 0, 255));
    // without any application nothing can escape
    assert_eq!(mask_pixel(1, 0, origin, 0, &locate, &square_map, &far), rgba(0, 0, 0, 255));
}

#[test]
fn overlay_mask_has_two_colours() {
    let size = 16u32;
    let zoom = 4.0;
    let locate = |x: u32, y: u32| {
        Complex64::new(
            (x as f64 - size as f64 / 2.0) / zoom - 0.4,
            (y as f64 - size as f64 / 2.0) / zoom,
        )
    };
    let origin = Complex64::new(0.0, 0.0);
    let mask = overlay_mask(size, origin, 50, &locate, &square_map, &far);
    assert_eq!(mask.side(), size);
    let mut escaped = 0;
    let mut trapped = 0;
    for y in 0..size {
        for x in 0..size {
            let colour = mask.pixel(x, y).unwrap();
            let expected = mask_pixel(x, y, origin, 50, &locate, &square_map, &far);
            assert_eq!(colour, expected);
            if colour == rgba(128, 0, 0, 255) {
                escaped += 1;
            } else {
                assert_eq!(colour, rgba(0, 0, 0, 255));
                trapped += 1;
            }
        }
    }
    assert!(escaped > 0);
    assert!(trapped > 0);
    // the pixel that maps to -0.4 + 0i lies in the set
    assert_eq!(mask.pixel(8, 8), Some(rgba(0, 0, 0, 255)));
    // the corner maps to -2.4 - 2i
    assert_eq!(mask.pixel(0, 0), Some(rgba(128, 0, 0, 255)));
}

#[test]
fn generated_overlay_covers_the_traces() {
    let paint = |x: u32, y: u32| luma(65535, (4000 * (x + y)) as u16);
    let canvas = Canvas::from_fn(8, &paint);
    let locate = |x: u32, y: u32| Complex64::new(x as f64 / 2.0 - 2.0, y as f64 / 2.0 - 2.0);
    let mask = overlay_mask(8, Complex64::new(0.0, 0.0), 20, &locate, &square_map, &far);
    let picture = to_u8_image(&canvas, Some(&mask));
    for y in 0..8 {
        for x in 0..8 {
            assert_eq!(picture.pixel(x, y), mask.pixel(x, y));
        }
    }
}

#[test]
fn background_is_opaque_black() {
    assert_eq!(background_colour(), rgba(0, 0, 0, 255));
}

#[test]
fn compose_pixel_without_overlay() {
    assert_eq!(compose_pixel(luma(0, 0), None), rgba(0, 0, 0, 255));
    assert_eq!(compose_pixel(luma(65535, 255), None), rgba(0, 0, 0, 255));
    assert_eq!(compose_pixel(luma(65535, 0x4000), None), rgba(64, 64, 64, 255));
    assert_eq!(compose_pixel(luma(65535, 0x8000), None), rgba(128, 128, 128, 254));
    assert_eq!(compose_pixel(luma(65535, 65535), None), rgba(255, 255, 255, 255));
    // only the coverage counts
    assert_eq!(compose_pixel(luma(3, 0x4000), None), rgba(64, 64, 64, 255));
}

#[test]
fn compose_pixel_with_overlay() {
    let mask = rgba(128, 0, 0, 255);
    assert_eq!(compose_pixel(luma(0, 0), Some(mask)), mask);
    assert_eq!(compose_pixel(luma(65535, 0x8000), Some(mask)), mask);
    assert_eq!(compose_pixel(luma(65535, 65535), Some(rgba(0, 0, 0, 255))), rgba(0, 0, 0, 255));
    // an overlay pixel that is not there shows the traces
    assert_eq!(compose_pixel(luma(65535, 0x4000), Some(rgba(9, 9, 9, 0))), rgba(64, 64, 64, 255));
}

#[test]
fn clear_canvas_composes_to_the_background() {
    for side in [0u32, 1, 5] {
        let picture = to_u8_image(&Canvas::new(side), None);
        assert_eq!(picture.side(), side);
        for y in 0..side {
            for x in 0..side {
                assert_eq!(picture.pixel(x, y), Some(rgba(0, 0, 0, 255)));
            }
        }
    }
}

#[test]
fn canvas_without_coverage_composes_to_the_background() {
    let paint = |x: u32, y: u32| luma((x * 1000 + y) as u16, 0);
    let picture = to_u8_image(&Canvas::from_fn(4, &paint), None);
    for y in 0..4 {
        for x in 0..4 {
            assert_eq!(picture.pixel(x, y), Some(rgba(0, 0, 0, 255)));
        }
    }
}

#[test]
fn traces_show_as_white_over_black() {
    let paint = |x: u32, y: u32| if x == y { luma(65535, 0x4000) } else { luma(0, 0) };
    let canvas = Canvas::from_fn(3, &paint);
    let picture = to_u8_image(&canvas, None);
    assert_eq!(picture.side(), 3);
    for y in 0..3 {
        for x in 0..3 {
            let expected = if x == y { rgba(64, 64, 64, 255) } else { rgba(0, 0, 0, 255) };
            assert_eq!(picture.pixel(x, y), Some(expected));
        }
    }
}

#[test]
fn opaque_overlay_covers_the_traces() {
    let paint = |x: u32, y: u32| if x == y { luma(65535, 0x8000) } else { luma(0, 0) };
    let canvas = Canvas::from_fn(3, &paint);
    let colours = |x: u32, _y: u32| classify(x == 1);
    let mask = Picture::from_fn(3, &colours);
    let picture = to_u8_image(&canvas, Some(&mask));
    for y in 0..3 {
        for x in 0..3 {
            assert_eq!(picture.pixel(x, y), mask.pixel(x, y));
        }
    }
}
