//! Window appearance capability contracts: what a caller can ask a real
//! window for (application-drawn decorations, a transparent surface) and
//! what the host can actually confirm happened, reported independently
//! per capability, since an OS or compositor can honor one and ignore
//! another.
//!
//! The host presents through a pixel format with no alpha channel, so a
//! transparent surface is never achieved through it: a request for one is
//! reported `Unsupported`, not merely unconfirmed.

use vstd::prelude::*;

verus! {

/// One independently-advertised window appearance capability.
#[derive(Debug, Clone, Copy, PartialEq, Eq, Hash, Structural)]
pub enum WindowCapability {
    /// Application-drawn decorations instead of the OS's own chrome.
    CustomDecorations,
    /// A window surface with a genuinely transparent alpha channel,
    /// composited by the desktop's window manager.
    TransparentSurface,
    /// A system-provided backdrop material behind transparent regions.
    SystemBackdropMaterial,
    /// Live OS-driven resizing.
    Resizing,
    /// Snapping, the system menu and other OS chrome behavior.
    SystemCaptionIntegration,
}

/// Whether a capability is available, and how confidently that is known.
#[derive(Debug, Clone, Copy, PartialEq, Eq, Structural)]
pub enum CapabilityStatus {
    /// Requested, and a real signal consistent with it was observed.
    Attempted,
    /// The OS, build or compositor visibly overrode or rejected the request.
    Unsupported,
    /// Nothing has probed this capability on this host.
    Unknown,
}

/// Whether a window's own chrome is drawn by the OS or the application.
#[derive(Debug, Clone, Copy, PartialEq, Eq, Structural)]
pub enum DecorationMode {
    /// The OS's own title bar, buttons and borders.
    System,
    /// No OS-drawn chrome: the application's components own the title bar.
    Custom,
}

impl Default for DecorationMode {
    fn default() -> (m: Self)
        ensures
            m == DecorationMode::System,
    {
        DecorationMode::System
    }
}

/// What an application asks a real window for.
#[derive(Debug, Clone, Copy, PartialEq, Eq, Structural)]
pub struct AppearanceRequest {
    pub decorations: DecorationMode,
    pub transparent: bool,
}

impl Default for AppearanceRequest {
    fn default() -> (r: Self)
        ensures
            r == (AppearanceRequest { decorations: DecorationMode::System, transparent: false }),
    {
        AppearanceRequest { decorations: DecorationMode::System, transparent: false }
    }
}

/// The status of every [`WindowCapability`], each reported on its own.
#[derive(Debug, Clone, Copy, PartialEq, Eq, Structural)]
pub struct CapabilityStatuses {
    pub custom_decorations: CapabilityStatus,
    pub transparent_surface: CapabilityStatus,
    pub system_backdrop_material: CapabilityStatus,
    pub resizing: CapabilityStatus,
    pub system_caption_integration: CapabilityStatus,
}

impl CapabilityStatuses {
    /// The status recorded for `capability`.
    pub open spec fn spec_get(self, capability: WindowCapability) -> CapabilityStatus {
        match capability {
            WindowCapability::CustomDecorations => self.custom_decorations,
            WindowCapability::TransparentSurface => self.transparent_surface,
            WindowCapability::SystemBackdropMaterial => self.system_backdrop_material,
            WindowCapability::Resizing => self.resizing,
            WindowCapability::SystemCaptionIntegration => self.system_caption_integration,
        }
    }

    /// The status recorded for `capability`.
    pub fn get(&self, capability: WindowCapability) -> (status: CapabilityStatus)
        ensures
            status == self.spec_get(capability),
    {
        match capability {
            WindowCapability::CustomDecorations => self.custom_decorations,
            WindowCapability::TransparentSurface => self.transparent_surface,
            WindowCapability::SystemBackdropMaterial => self.system_backdrop_material,
            WindowCapability::Resizing => self.resizing,
            WindowCapability::SystemCaptionIntegration => self.system_caption_integration,
        }
    }
}

/// What was requested, what a real probe actually observed, and every
/// capability's own independently-known status.
#[derive(Debug, Clone, Copy, PartialEq, Eq, Structural)]
pub struct AppearanceReport {
    pub requested: AppearanceRequest,
    pub effective: AppearanceRequest,
    pub capabilities: CapabilityStatuses,
}

/// What a real, already-created window reports back about itself.
#[derive(Debug, Clone, Copy, PartialEq, Eq, Structural)]
pub struct Observation {
    pub decorated: bool,
    pub resizable: bool,
}

/// The report a probe owes for `request` given what the window showed.
pub open spec fn spec_report(request: AppearanceRequest, observed: Observation) -> AppearanceReport {
    let effective_decorations = if observed.decorated {
        DecorationMode::System
    } else {
        DecorationMode::Custom
    };
    AppearanceReport {
        requested: request,
        effective: AppearanceRequest { decorations: effective_decorations, transparent: false },
        capabilities: CapabilityStatuses {
            custom_decorations: match request.decorations {
                DecorationMode::Custom => if observed.decorated {
                    CapabilityStatus::Unsupported
                } else {
                    CapabilityStatus::Attempted
                },
                DecorationMode::System => CapabilityStatus::Unknown,
            },
            transparent_surface: if request.transparent {
                CapabilityStatus::Unsupported
            } else {
                CapabilityStatus::Unknown
            },
            system_backdrop_material: CapabilityStatus::Unknown,
            resizing: if observed.resizable {
                CapabilityStatus::Attempted
            } else {
                CapabilityStatus::Unsupported
            },
            system_caption_integration: CapabilityStatus::Unknown,
        },
    }
}

/// Turns what a real window showed into a full [`AppearanceReport`]:
/// decorations are judged only when custom ones were requested, resizing
/// always (it is always requested), a transparent surface is reported
/// unsupported whenever requested, and the two capabilities with no probe
/// stay unknown.
pub fn report_from_observation(request: AppearanceRequest, observed: &Observation) -> (report: AppearanceReport)
    ensures
        report == spec_report(request, *observed),
{
    let effective_decorations = if observed.decorated {
        DecorationMode::System
    } else {
        DecorationMode::Custom
    };
    let custom_decorations = match (request.decorations, effective_decorations) {
        (DecorationMode::Custom, DecorationMode::Custom) => CapabilityStatus::Attempted,
        (DecorationMode::Custom, DecorationMode::System) => CapabilityStatus::Unsupported,
        (DecorationMode::System, _) => CapabilityStatus::Unknown,
    };
    let resizing = if observed.resizable {
        CapabilityStatus::Attempted
    } else {
        CapabilityStatus::Unsupported
    };
    let transparent_surface = if request.transparent {
        CapabilityStatus::Unsupported
    } else {
        CapabilityStatus::Unknown
    };
    AppearanceReport {
        requested: request,
        effective: AppearanceRequest { decorations: effective_decorations, transparent: false },
        capabilities: CapabilityStatuses {
            custom_decorations,
            transparent_surface,
            system_backdrop_material: CapabilityStatus::Unknown,
            resizing,
            system_caption_integration: CapabilityStatus::Unknown,
        },
    }
}

/// The honesty of every report: the request is preserved unchanged beside
/// the effective appearance; the effective decorations are what the OS
/// actually did; a transparent surface is never claimed; a plain
/// system-chrome request never probes custom decorations; and the
/// capabilities with no probe always report `Unknown`.
pub proof fn law_reports_are_honest(request: AppearanceRequest, observed: Observation)
    ensures
        spec_report(request, observed).requested == request,
        spec_report(request, observed).effective.decorations == (if observed.decorated {
            DecorationMode::System
        } else {
            DecorationMode::Custom
        }),
        !spec_report(request, observed).effective.transparent,
        request.decorations == DecorationMode::System ==> spec_report(
            request,
            observed,
        ).capabilities.spec_get(WindowCapability::CustomDecorations) == CapabilityStatus::Unknown,
        spec_report(request, observed).capabilities.spec_get(WindowCapability::SystemBackdropMaterial)
            == CapabilityStatus::Unknown,
        spec_report(request, observed).capabilities.spec_get(
            WindowCapability::SystemCaptionIntegration,
        ) == CapabilityStatus::Unknown,
        spec_report(request, observed).capabilities.spec_get(WindowCapability::TransparentSurface)
            != CapabilityStatus::Attempted,
        (spec_report(request, observed).capabilities.spec_get(WindowCapability::CustomDecorations)
            == CapabilityStatus::Attempted) <==> (request.decorations == DecorationMode::Custom
            && !observed.decorated),
{
}

} // verus!
