//! Fixed-function state that distinguishes the scene's graphics pipelines.
use vstd::prelude::*;

verus! {

/// Depth behaviour for a pipeline.
#[derive(Clone, Copy, Debug, PartialEq, Eq, Structural)]
pub enum Depth {
    /// No depth test (2D overlays such as HUD, sky, flare).
    Off,
    /// Depth test enabled with `Less`, optionally writing depth (3D geometry).
    Test { write: bool },
}

/// Color blend behaviour for the (single) color attachment.
#[derive(Clone, Copy, Debug, PartialEq, Eq, Structural)]
pub enum Blend {
    /// Opaque: no blending.
    Opaque,
    /// Standard source-alpha-over blending (HUD, dust).
    Alpha,
    /// Additive (`SrcAlpha`, `One`): rain, lights, flare.
    Additive,
}

} // verus!
