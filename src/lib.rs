//! Escape-time rendering of the Mandelbrot set.
//!
//! The floating-point orbit of a point is computed by the caller; this library
//! decides, from the outcome of each magnitude check, how many iterations a
//! point took to escape, finds the largest escape count of a whole grid, scales
//! a base colour by it and fills an RGB image. It also reads the command-line
//! flags that configure a run.
pub mod canvas;
pub mod cli;
pub mod color;
pub mod escape;
pub mod render;
