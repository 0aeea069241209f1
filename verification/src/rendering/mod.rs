//! The integer side of rendering: the raster that traces are drawn on, the
//! line and span drawing on it, and the encoding of the result.

pub mod raster;
pub mod types;
pub mod vd_renderer;
