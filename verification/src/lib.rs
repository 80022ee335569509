//! Polar-coordinate physics and collision detection for a small orbiting-bird
//! arcade game, computed in exact fixed-point arithmetic.
//!
//! State quantities (radius, angle, velocity, zoom) are integers counting
//! billionths of a unit; elapsed time is an integer number of nanoseconds,
//! which is the same scale applied to seconds. Cartesian geometry runs on a
//! coarser grid of thousandths of a pixel so that products of squared
//! distances fit in 128 bits.
pub mod bird;
pub mod color;
pub mod config;
pub mod fixed;
pub mod geometry;
pub mod polar;
pub mod spiral;
pub mod state;
pub mod zoom;
