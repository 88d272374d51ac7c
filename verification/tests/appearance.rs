use florui_platform::appearance::{
    AppearanceRequest, CapabilityStatus, DecorationMode, Observation, WindowCapability,
    report_from_observation,
};

fn request(decorations: DecorationMode, transparent: bool) -> AppearanceRequest {
    AppearanceRequest {
        decorations,
        transparent,
    }
}

#[test]
fn custom_decorations_granted_reports_attempted() {
    let report = report_from_observation(
        request(DecorationMode::Custom, false),
        &Observation {
            decorated: false,
            resizable: true,
        },
    );
    assert_eq!(
        report.capabilities.get(WindowCapability::CustomDecorations),
        CapabilityStatus::Attempted
    );
    assert_eq!(report.effective.decorations, DecorationMode::Custom);
}

#[test]
fn custom_decorations_overridden_by_the_os_reports_unsupported() {
    let report = report_from_observation(
        request(DecorationMode::Custom, false),
        &Observation {
            decorated: true,
            resizable: true,
        },
    );
    assert_eq!(
        report.capabilities.get(WindowCapability::CustomDecorations),
        CapabilityStatus::Unsupported
    );
    assert_eq!(
        report.effective.decorations,
        DecorationMode::System,
        "effective must reflect what the OS actually did, not what was requested"
    );
}

#[test]
fn a_plain_system_decorations_request_never_probes_the_capability() {
    let report = report_from_observation(
        request(DecorationMode::System, false),
        &Observation {
            decorated: true,
            resizable: true,
        },
    );
    assert_eq!(
        report.capabilities.get(WindowCapability::CustomDecorations),
        CapabilityStatus::Unknown
    );
}

#[test]
fn resizing_reflects_the_real_window_state_directly() {
    let attempted = report_from_observation(
        request(DecorationMode::System, false),
        &Observation {
            decorated: true,
            resizable: true,
        },
    );
    assert_eq!(
        attempted.capabilities.get(WindowCapability::Resizing),
        CapabilityStatus::Attempted
    );

    let unsupported = report_from_observation(
        request(DecorationMode::System, false),
        &Observation {
            decorated: true,
            resizable: false,
        },
    );
    assert_eq!(
        unsupported.capabilities.get(WindowCapability::Resizing),
        CapabilityStatus::Unsupported
    );
}

#[test]
fn transparency_requested_reports_unsupported_with_real_evidence() {
    let report = report_from_observation(
        request(DecorationMode::System, true),
        &Observation {
            decorated: true,
            resizable: true,
        },
    );
    assert_eq!(
        report.capabilities.get(WindowCapability::TransparentSurface),
        CapabilityStatus::Unsupported,
        "softbuffer's own pixel format has no alpha channel at all"
    );
    assert!(
        !report.effective.transparent,
        "effective must reflect the real (negative) finding, not the request"
    );
}

#[test]
fn transparency_not_requested_reports_unknown_not_unsupported() {
    let report = report_from_observation(
        request(DecorationMode::System, false),
        &Observation {
            decorated: true,
            resizable: true,
        },
    );
    assert_eq!(
        report.capabilities.get(WindowCapability::TransparentSurface),
        CapabilityStatus::Unknown
    );
}

#[test]
fn capabilities_with_no_probe_at_all_always_report_unknown() {
    let report = report_from_observation(
        request(DecorationMode::Custom, true),
        &Observation {
            decorated: false,
            resizable: true,
        },
    );
    assert_eq!(
        report.capabilities.get(WindowCapability::SystemBackdropMaterial),
        CapabilityStatus::Unknown
    );
    assert_eq!(
        report.capabilities.get(WindowCapability::SystemCaptionIntegration),
        CapabilityStatus::Unknown
    );
}

#[test]
fn requested_is_preserved_unchanged_alongside_effective() {
    let requested = request(DecorationMode::Custom, true);
    let report = report_from_observation(
        requested,
        &Observation {
            decorated: true, // overridden by the OS
            resizable: true,
        },
    );
    assert_eq!(report.requested, requested);
    assert_ne!(
        report.requested, report.effective,
        "this fixture's own point: requested and effective can genuinely differ"
    );
}

#[test]
fn defaults_request_system_chrome_and_an_opaque_surface() {
    assert_eq!(DecorationMode::default(), DecorationMode::System);
    assert_eq!(
        AppearanceRequest::default(),
        request(DecorationMode::System, false)
    );
}

#[test]
fn every_capability_of_a_report_is_read_back_by_name() {
    let report = report_from_observation(
        request(DecorationMode::Custom, false),
        &Observation {
            decorated: false,
            resizable: false,
        },
    );
    assert_eq!(report.capabilities.custom_decorations, CapabilityStatus::Attempted);
    assert_eq!(report.capabilities.resizing, CapabilityStatus::Unsupported);
    assert_eq!(report.capabilities.transparent_surface, CapabilityStatus::Unknown);
    assert_eq!(report.effective, request(DecorationMode::Custom, false));
}
