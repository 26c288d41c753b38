//! The verified core of an interactive Mandelbrot-set viewer.
//!
//! The crate holds what the viewer decides and assembles: how long an orbit
//! is followed before it counts as bounded, how iteration counts become the
//! pixels of a raster, and how pointer and wheel input turn into changes of
//! the view. The arithmetic on complex numbers and the window itself belong
//! to the program that uses the crate.

pub mod buffer;
pub mod color;
pub mod escape;
pub mod interaction;
pub mod raster;
