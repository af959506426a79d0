//! Escape-time fractal rendering: iteration counts, the grid that holds them,
//! and the banded palette that turns a count into a pixel.
//!
//! The arithmetic of the plane is the caller's. The library takes it as
//! functions: a step of the map and an escape test for [`escape::escape_time`],
//! a count for each pixel for [`sampling::compute_image`]. What it decides is
//! stated over what those functions return.

pub mod canvas;
pub mod config;
pub mod escape;
pub mod palette;
pub mod sampling;
