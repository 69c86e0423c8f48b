//! Message-bus clipboard fallback types.

use lamco_wayland::dbus_clipboard::{
    DbusClipboardBridgeBuilder, DbusClipboardEvent, DBUS_INTERFACE, DBUS_PATH, DBUS_SERVICE,
};

#[test]
fn test_constants() {
    assert_eq!(DBUS_SERVICE, "org.wayland_rdp.Clipboard");
    assert_eq!(DBUS_PATH, "/org/wayland_rdp/Clipboard");
    assert_eq!(DBUS_INTERFACE, "org.wayland_rdp.Clipboard");
}

#[test]
fn test_event_clone() {
    let event = DbusClipboardEvent {
        mime_types: vec!["text/plain".to_string()],
        content_hash: "abc123".to_string(),
    };
    let cloned = event.clone();
    assert_eq!(cloned.mime_types, event.mime_types);
    assert_eq!(cloned.content_hash, event.content_hash);
}

#[test]
fn test_builder_default() {
    let builder = DbusClipboardBridgeBuilder::default();
    assert_eq!(builder.channel_capacity, 64);
}

#[test]
fn test_builder_capacity() {
    let builder = DbusClipboardBridgeBuilder::new().channel_capacity(128);
    assert_eq!(builder.channel_capacity, 128);
}
