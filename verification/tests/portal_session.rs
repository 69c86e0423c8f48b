//! Portal configuration and session negotiation behavior.

use lamco_wayland::error::PortalError;
use lamco_wayland::portal::{
    CursorMode, DeviceTypes, PersistMode, PortalConfig, PortalSessionFlow, SessionPhase,
    SourceTypes,
};
use lamco_wayland::session::{SourceType, StreamInfo};

fn monitor_stream() -> StreamInfo {
    StreamInfo {
        node_id: 42,
        position: (0, 0),
        size: (1920, 1080),
        source_type: SourceType::Monitor,
    }
}

#[test]
fn test_default_config() {
    let config = PortalConfig::default();
    assert!(matches!(config.cursor_mode, CursorMode::Metadata));
    assert!(matches!(config.persist_mode, PersistMode::DoNot));
    assert!(config.allow_multiple);
    assert!(config.restore_token.is_none());
}

#[test]
fn test_builder_with_defaults() {
    let config = PortalConfig::builder().build();
    assert!(matches!(config.cursor_mode, CursorMode::Metadata));
    assert!(matches!(config.persist_mode, PersistMode::DoNot));
}

#[test]
fn test_builder_with_custom_values() {
    let config = PortalConfig::builder()
        .cursor_mode(CursorMode::Embedded)
        .persist_mode(PersistMode::Application)
        .allow_multiple(false)
        .restore_token("test-token".to_string())
        .build();

    assert!(matches!(config.cursor_mode, CursorMode::Embedded));
    assert!(matches!(config.persist_mode, PersistMode::Application));
    assert!(!config.allow_multiple);
    assert_eq!(config.restore_token, Some("test-token".to_string()));
}

#[test]
fn test_struct_literal_with_defaults() {
    let config = PortalConfig {
        cursor_mode: CursorMode::Hidden,
        ..Default::default()
    };

    assert!(matches!(config.cursor_mode, CursorMode::Hidden));
    assert!(matches!(config.persist_mode, PersistMode::DoNot));
}

#[test]
fn test_source_and_device_sets() {
    let config = PortalConfig::builder()
        .source_type(SourceTypes { monitor: true, window: false, virtual_source: false })
        .devices(DeviceTypes { keyboard: true, pointer: false, touchscreen: false })
        .build();
    assert!(config.source_type.monitor && !config.source_type.window);
    assert!(config.devices.keyboard && !config.devices.pointer);
}

#[test]
fn test_session_negotiation_order() {
    // The portal sequence runs in its fixed order, clipboard before start.
    let mut flow = PortalSessionFlow::begin("session-1".to_string(), PortalConfig::default());
    assert_eq!(flow.phase(), SessionPhase::Created);

    // Sources cannot be selected before devices.
    assert!(flow.select_sources().is_err());

    flow.select_devices().expect("devices");
    flow.select_sources().expect("sources");
    flow.request_clipboard().expect("clipboard");
    flow.start(17, vec![monitor_stream()]).expect("start");

    assert_eq!(flow.phase(), SessionPhase::Started);
    assert_eq!(flow.pipewire_fd(), Some(17));
    assert_eq!(flow.streams().len(), 1);
    assert_eq!(flow.session_id(), "session-1");

    // Clipboard access cannot be requested after start.
    assert!(flow.request_clipboard().is_err());

    flow.close();
    assert_eq!(flow.phase(), SessionPhase::Closed);
    assert_eq!(flow.pipewire_fd(), None);
}

#[test]
fn test_session_without_streams_fails() {
    // A start response without streams fails with the authorization error.
    let mut flow = PortalSessionFlow::begin("session-2".to_string(), PortalConfig::default());
    flow.select_devices().expect("devices");
    flow.select_sources().expect("sources");
    let denied = flow.start(17, vec![]);
    assert!(matches!(denied, Err(PortalError::NoStreamsAvailable)));
    assert_ne!(flow.phase(), SessionPhase::Started);
    assert_eq!(flow.pipewire_fd(), None);
}
