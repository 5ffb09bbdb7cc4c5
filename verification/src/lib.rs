//! Orbit traces of a generalised Mandelbrot map, accumulated on a raster.
//!
//! The crate holds the discrete part of the renderer: which orbits are drawn,
//! how long an orbit runs, which segments a chunk of coordinates contributes,
//! how canvases are merged and how the final picture is composed.  Arithmetic
//! on real numbers is left to the caller, who hands it in as closures.

pub mod accumulate;
pub mod canvas;
pub mod compose;
pub mod grid;
pub mod mode;
pub mod orbit;
pub mod overlay;
pub mod picture;
pub mod pixel;
pub mod render;
