//! GPU presentation: which presentation path a window came up on, what a
//! windowless adapter probe observed, and the surface-size decisions of a
//! presenter.

use vstd::prelude::*;

verus! {

/// How a window's pixels reach the screen, decided once per window and
/// never silently downgraded: through the GPU with real per-pixel alpha
/// compositing, through the GPU opaque, or through the CPU fallback.
#[derive(Debug, Clone, Copy, PartialEq, Eq, Structural)]
pub enum PresentationCapability {
    GpuTransparent,
    GpuOpaque,
    Cpu,
}

/// Real evidence from a windowless GPU-capability probe: which adapter and
/// device actually came up.
#[derive(Debug, Clone)]
pub struct GraphicsProbe {
    pub backend: String,
    pub adapter_name: String,
    pub device_type: String,
    pub driver: String,
    pub driver_info: String,
}

/// A surface dimension as configured: never below one pixel.
pub open spec fn surface_dimension(requested: u32) -> u32 {
    if requested == 0 {
        1
    } else {
        requested
    }
}

/// The surface size a presenter reconfigures to for a requested physical
/// size, or `None` when that size (each dimension raised to at least one
/// pixel) is the one already configured, so nothing needs to change.
pub fn resize_plan(current: (u32, u32), width: u32, height: u32) -> (plan: Option<(u32, u32)>)
    ensures
        ((surface_dimension(width), surface_dimension(height)) == current) ==> plan is None,
        ((surface_dimension(width), surface_dimension(height)) != current) ==> plan == Some(
            (surface_dimension(width), surface_dimension(height)),
        ),
{
    let width = if width < 1 {
        1
    } else {
        width
    };
    let height = if height < 1 {
        1
    } else {
        height
    };
    if width == current.0 && height == current.1 {
        None
    } else {
        Some((width, height))
    }
}

} // verus!
