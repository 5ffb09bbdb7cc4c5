use image::{ImageBuffer, LumaA};
use imageproc::drawing::draw_antialiased_line_segment_mut;
use num::complex::Complex64;
use orbit_traces::canvas::Canvas;
use orbit_traces::compose::to_u8_image;
use orbit_traces::grid::{chunk_count, chunk_range, grid, sample_axis};
use orbit_traces::mode::DrawMode;
use orbit_traces::pixel::{LumaAlpha, Rgba8};
use orbit_traces::render::{draw_trace, iterate_chunk};

type Buffer = ImageBuffer<LumaA<u16>, Vec<u16>>;

struct Setup {
    size: u32,
    bounds: f64,
    delta: f64,
    limit: usize,
    zoom: f64,
    re_off: f64,
    im_off: f64,
    chunk_len: usize,
    opacity: u16,
    mode: DrawMode,
    pow: f64,
}

fn to_image_coord(z: Complex64, setup: &Setup) -> (i32, i32) {
    let x = (setup.size as f64 / 2.0) + (z.re + setup.re_off) * setup.zoom;
    let y = (setup.size as f64 / 2.0) + (z.im + setup.im_off) * setup.zoom;
    (x as i32, y as i32)
}

fn blend(line: LumaA<u16>, existing: LumaA<u16>, weight: f32) -> LumaA<u16> {
    let scaled = (line.0[1] as f32 * weight) as u16;
    let below = LumaAlpha { luma: existing.0[0], alpha: existing.0[1] };
    let out = below.blend(LumaAlpha { luma: line.0[0], alpha: scaled });
    LumaA([out.luma, out.alpha])
}

fn render(setup: &Setup) -> Canvas {
    let value = |k: u32| -setup.bounds + k as f64 * setup.delta;
    let inside = |x: &f64| *x < setup.bounds;
    let coords = grid(&sample_axis(&value, &inside));
    let map = |z: Complex64, c: &(f64, f64)| z.powf(setup.pow) + Complex64::new(c.0, c.1);
    let beyond = |z: &Complex64| z.im.abs() > setup.bounds || z.re.abs() > setup.bounds;
    let line = LumaAlpha::new_line(setup.opacity);
    let draw = |mut buffer: Buffer, from: Complex64, to: Complex64| {
        draw_antialiased_line_segment_mut(
            &mut buffer,
            to_image_coord(from, setup),
            to_image_coord(to, setup),
            LumaA([line.luma, line.alpha]),
            blend,
        );
        buffer
    };
    let mut canvas = Canvas::new(setup.size);
    for index in 0..chunk_count(coords.len(), setup.chunk_len) {
        let (start, end) = chunk_range(index, coords.len(), setup.chunk_len);
        let blank = Buffer::from_pixel(setup.size, setup.size, LumaA([0, 0]));
        let drawn = iterate_chunk(
            &coords[start..end],
            blank,
            Complex64::new(0.0, 0.0),
            setup.limit,
            setup.mode,
            &map,
            &beyond,
            &draw,
        );
        let paint = |x: u32, y: u32| {
            let pixel = drawn.get_pixel(x, y);
            LumaAlpha { luma: pixel.0[0], alpha: pixel.0[1] }
        };
        canvas.merge(&Canvas::from_fn(setup.size, &paint));
    }
    canvas
}

fn small(mode: DrawMode, chunk_len: usize) -> Setup {
    Setup {
        size: 10,
        bounds: 2.0,
        delta: 2.0,
        limit: 1,
        zoom: 1.0,
        re_off: 0.0,
        im_off: 0.0,
        chunk_len,
        opacity: 64,
        mode,
        pow: 2.0,
    }
}

#[test]
fn draw_trace_draws_consecutive_pairs_in_order() {
    let draw = |mut seen: Vec<(u8, u8)>, from: u8, to: u8| {
        seen.push((from, to));
        seen
    };
    assert_eq!(draw_trace(&vec![1u8, 2, 3, 4], Vec::new(), &draw), vec![(1, 2), (2, 3), (3, 4)]);
    assert_eq!(draw_trace(&vec![1u8, 2], vec![(9, 9)], &draw), vec![(9, 9), (1, 2)]);
    assert_eq!(draw_trace(&vec![1u8], vec![(9, 9)], &draw), vec![(9, 9)]);
    assert_eq!(draw_trace(&Vec::<u8>::new(), Vec::new(), &draw), Vec::<(u8, u8)>::new());
}

#[test]
fn iterate_chunk_draws_the_kept_orbits_in_order() {
    // the map counts up from the coordinate; an orbit escapes above 5
    let map = |z: u32, c: &u32| if z == 0 { *c } else { z + 1 };
    let beyond = |z: &u32| *z > 5;
    let draw = |mut seen: Vec<(u32, u32)>, from: u32, to: u32| {
        seen.push((from, to));
        seen
    };
    let chunk = [4u32, 1, 9];
    let all = iterate_chunk(&chunk, Vec::new(), 0u32, 3, DrawMode::All, &map, &beyond, &draw);
    assert_eq!(
        all,
        vec![(0, 4), (4, 5), (5, 6), (0, 1), (1, 2), (2, 3), (0, 9)]
    );
    let escaped = iterate_chunk(&chunk, Vec::new(), 0u32, 3, DrawMode::Escaped, &map, &beyond, &draw);
    assert_eq!(escaped, vec![(0, 4), (4, 5), (5, 6), (0, 9)]);
    let trapped = iterate_chunk(&chunk, Vec::new(), 0u32, 3, DrawMode::Trapped, &map, &beyond, &draw);
    assert_eq!(trapped, vec![(0, 1), (1, 2), (2, 3)]);
    let none = iterate_chunk(&chunk[0..0], vec![(7, 7)], 0u32, 3, DrawMode::All, &map, &beyond, &draw);
    assert_eq!(none, vec![(7, 7)]);
}

#[test]
fn iterate_chunk_without_applications_draws_nothing() {
    let map = |z: u32, c: &u32| z + *c;
    let beyond = |z: &u32| *z > 5;
    let draw = |mut seen: Vec<(u32, u32)>, from: u32, to: u32| {
        seen.push((from, to));
        seen
    };
    let chunk = [4u32, 1, 9];
    let drawn = iterate_chunk(&chunk, Vec::new(), 0u32, 0, DrawMode::All, &map, &beyond, &draw);
    assert_eq!(drawn, Vec::<(u32, u32)>::new());
}

#[test]
fn small_rendering_covers_the_centre() {
    let canvas = render(&small(DrawMode::All, 50000));
    assert_eq!(canvas.side(), 10);
    let centre = canvas.pixel(5, 5).unwrap();
    assert!(centre.alpha > 0);
    assert_eq!(centre.luma, 65535);
    // four orbits start at the centre: 64, 127, 190, 253
    assert!(centre.alpha > 64);
    // the orbit of -2 - 2i ends at pixel (3, 3)
    assert!(canvas.pixel(3, 3).unwrap().alpha > 0);
    // nothing is drawn to the right of or below the centre
    assert_eq!(canvas.pixel(7, 7), Some(LumaAlpha { luma: 0, alpha: 0 }));
    assert_eq!(canvas.pixel(9, 5), Some(LumaAlpha { luma: 0, alpha: 0 }));
}

#[test]
fn small_rendering_has_no_escaped_orbit() {
    let canvas = render(&small(DrawMode::Escaped, 50000));
    for y in 0..10 {
        for x in 0..10 {
            assert_eq!(canvas.pixel(x, y), Some(LumaAlpha { luma: 0, alpha: 0 }));
        }
    }
    let all = render(&small(DrawMode::All, 50000));
    let trapped = render(&small(DrawMode::Trapped, 50000));
    for y in 0..10 {
        for x in 0..10 {
            assert_eq!(all.pixel(x, y), trapped.pixel(x, y));
        }
    }
}

#[test]
fn small_rendering_composes_to_a_picture() {
    let mut setup = small(DrawMode::All, 50000);
    setup.opacity = 0x4000;
    let canvas = render(&setup);
    let picture = to_u8_image(&canvas, None);
    assert_eq!(picture.side(), 10);
    let centre = picture.pixel(5, 5).unwrap();
    assert!(centre.red > 0);
    assert_eq!(picture.pixel(9, 9), Some(Rgba8 { red: 0, green: 0, blue: 0, alpha: 255 }));
}

#[test]
fn lines_that_leave_the_canvas_are_clipped() {
    let mut setup = small(DrawMode::All, 50000);
    setup.zoom = 100.0;
    let canvas = render(&setup);
    assert_eq!(canvas.side(), 10);
    assert!(canvas.pixel(5, 5).unwrap().alpha > 0);
}

#[test]
fn single_orbit_chunks_give_the_same_coverage_when_lines_do_not_pile_up() {
    let mut setup = small(DrawMode::All, 50000);
    setup.bounds = 1.0;
    setup.delta = 3.0;
    // one coordinate only: -1 - i, drawn from the centre to (4, 4)
    let whole = render(&setup);
    setup.chunk_len = 1;
    let split = render(&setup);
    for y in 0..10 {
        for x in 0..10 {
            assert_eq!(whole.pixel(x, y), split.pixel(x, y));
        }
    }
    assert_eq!(whole.pixel(5, 5), Some(LumaAlpha { luma: 65535, alpha: 64 }));
    assert_eq!(whole.pixel(4, 4), Some(LumaAlpha { luma: 65535, alpha: 64 }));
}
