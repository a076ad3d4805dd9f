//! The ways in which a render can fail.

use vstd::prelude::*;

verus! {

/// Why a render was abandoned. Nothing is retried: the first failure ends
/// the render.
#[derive(Copy, Clone, Debug, PartialEq, Eq, Structural)]
pub enum RenderError {
    /// Padding and outline leave no room for a canvas.
    Layout,
    /// Text rasterised at a fixed size does not fit its canvas.
    TextOverflow,
    /// A raster is larger than the canvas space that is left for it.
    ImageOverflow,
    /// A pixel outside a buffer was addressed.
    BufferBounds,
}

impl RenderError {
    /// A short description of the failure.
    pub fn message(&self) -> (text: &'static str)
        ensures
            text@ == match *self {
                RenderError::Layout => "padding and outline exceed the area"@,
                RenderError::TextOverflow => "text does not fit the canvas"@,
                RenderError::ImageOverflow => "image does not fit the canvas"@,
                RenderError::BufferBounds => "pixel outside the buffer"@,
            },
    {
        match self {
            RenderError::Layout => "padding and outline exceed the area",
            RenderError::TextOverflow => "text does not fit the canvas",
            RenderError::ImageOverflow => "image does not fit the canvas",
            RenderError::BufferBounds => "pixel outside the buffer",
        }
    }
}

} // verus!
