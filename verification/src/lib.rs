//! Escape-time fields for the Mandelbrot set.
//!
//! The library computes, for each pixel of a raster grid laid over a
//! rectangle of the complex plane, how many iterations of `z <- z * z + c`
//! are needed before `|z|` exceeds 2, capped at a shared iteration budget.
//! Coordinates are the library's own dyadic fixed-point numbers, so every
//! step of the computation is exact and carries a proved contract.

pub mod escape;
pub mod field;
pub mod fixed;

pub use escape::escape_count;
pub use field::compute;
pub use field::PlaneRect;
pub use fixed::Fixed;
