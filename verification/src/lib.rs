//! The core of an interactive Mandelbrot viewer: the mapping from pixels to
//! the complex plane, the escape-time iteration, the decomposition of a frame
//! into column ranges, and the viewport state machine.
//!
//! The viewport is held in exact whole-number arithmetic. The orbit of a point
//! is computed in the number type of the caller's choice, through the product,
//! the sum and the stability test that it hands to `escape::evaluate`.
pub mod coordinate;
pub mod escape;
pub mod frame;
pub mod viewport;
