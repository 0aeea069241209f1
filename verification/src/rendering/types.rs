//! Values that a render request and its result are made of.

use vstd::prelude::*;

verus! {

/// The part of the file to render and the size of the output.
#[derive(Debug, Clone, Copy, PartialEq, Eq, Structural)]
pub struct ViewportConfig {
    /// First trace, 0-based.
    pub start_trace: usize,
    /// Number of traces.
    pub trace_count: usize,
    /// Output width in pixels.
    pub width: u32,
    /// Output height in pixels.
    pub height: u32,
}

/// The colormaps to choose from.
#[derive(Debug, Clone, Copy, PartialEq, Eq, Structural)]
pub enum ColormapType {
    /// Red for negative, white for zero, blue for positive.
    Seismic,
    /// Black to white.
    Grayscale,
    /// White to black.
    GrayscaleInverted,
    /// Viridis.
    Viridis,
}

/// The rendering modes.
#[derive(Debug, Clone, Copy, PartialEq, Eq, Structural)]
pub enum RenderMode {
    /// Variable density only.
    VariableDensity,
    /// Wiggle traces only.
    Wiggle,
    /// Wiggle traces over variable density.
    WiggleVariableDensity,
}

/// Encoding of a rendered image.
#[derive(Debug, Clone, Copy, PartialEq, Eq, Structural)]
pub enum ImageFormat {
    /// PNG.
    Png,
}

/// A rendered and encoded image.
#[derive(Debug)]
pub struct RenderedImage {
    /// Width in pixels.
    pub width: u32,
    /// Height in pixels.
    pub height: u32,
    /// The encoded image.
    pub data: Vec<u8>,
    /// Encoding of `data`.
    pub format: ImageFormat,
}

} // verus!
