//! Escape-time raster engine for the Mandelbrot set.
//!
//! The engine owns a row-major buffer of packed RGBA cells. Each cell is
//! filled from the escape count of its pixel: counts below the iteration cap
//! become a blue gradient, the cap itself becomes opaque black.

mod color;
mod plot;

pub use color::{pack_rgba, pixel_color, unpack_rgba};
pub use plot::{is_positive, Plot, PlotError, PlotView, POSITIVE_INFINITY_BITS};
