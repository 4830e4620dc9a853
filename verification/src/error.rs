use vstd::prelude::*;

verus! {

/// Everything that can go wrong while textures are updated or a frame is
/// batched and drawn.
#[derive(Clone, Copy, Debug, PartialEq, Eq, Structural)]
pub enum PainterError {
    /// A delta or a batch names a texture that is not live.
    UnknownTexture,
    /// A primitive carries a custom rendering callback.
    UnsupportedPrimitive,
    /// An image cannot be handed to the render backend: its texels do not
    /// fill its declared size, or a dimension is beyond the backend's extent.
    RenderBackendError,
    /// A partial update does not fit inside the texture it is aimed at.
    BlitOutOfBounds,
}

} // verus!
