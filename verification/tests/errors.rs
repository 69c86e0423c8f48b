//! Error taxonomy behavior.

use lamco_wayland::error::{PipeWireError, PortalError};

#[test]
fn test_error_helpers() {
    let err = PortalError::pipewire_failed("connection lost".to_string());
    assert!(matches!(err, PortalError::PipeWireFailed(_)));

    let err = PortalError::input_injection("invalid keycode".to_string());
    assert!(matches!(err, PortalError::InputInjectionFailed(_)));
}

#[test]
fn test_error_kind_names() {
    assert_eq!(PipeWireError::Timeout.kind_name(), "timeout");
    assert_eq!(PipeWireError::TooManyStreams(8).kind_name(), "too many streams");
    assert_eq!(PipeWireError::StreamNotFound(3).kind_name(), "stream not found");
}
