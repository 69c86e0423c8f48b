//! Message-bus clipboard fallback types.
//!
//! Some desktops do not reliably raise the portal's selection-owner-changed
//! signal; a shell extension publishes clipboard changes on a well-known bus
//! name instead.  This module carries the event type and the bridge
//! configuration; the bus connection itself lives outside this crate.

use vstd::prelude::*;
use vstd::string::StringExecFns;

verus! {

/// Well-known bus name of the clipboard extension.
pub const DBUS_SERVICE: &'static str = "org.wayland_rdp.Clipboard";

/// Object path of the clipboard interface.
pub const DBUS_PATH: &'static str = "/org/wayland_rdp/Clipboard";

/// Interface name for clipboard operations.
pub const DBUS_INTERFACE: &'static str = "org.wayland_rdp.Clipboard";

/// A clipboard change as published on the bus.
#[derive(Debug)]
pub struct DbusClipboardEvent {
    /// MIME types available in the clipboard.
    pub mime_types: Vec<String>,
    /// Hash of the clipboard content, for deduplication.
    pub content_hash: String,
}

impl Clone for DbusClipboardEvent {
    /// An exact copy of the event.
    fn clone(&self) -> (r: DbusClipboardEvent)
        ensures
            r.mime_types@.len() == self.mime_types@.len(),
            forall|i: int|
                0 <= i < r.mime_types@.len() ==> #[trigger] r.mime_types@[i]@
                    == self.mime_types@[i]@,
            r.content_hash@ == self.content_hash@,
    {
        let mut mime_types: Vec<String> = Vec::new();
        let mut i: usize = 0;
        while i < self.mime_types.len()
            invariant
                0 <= i <= self.mime_types@.len(),
                mime_types@.len() == i,
                forall|j: int|
                    0 <= j < i ==> #[trigger] mime_types@[j]@ == self.mime_types@[j]@,
            decreases self.mime_types@.len() - i,
        {
            mime_types.push(clone_string(&self.mime_types[i]));
            i = i + 1;
        }
        DbusClipboardEvent { mime_types, content_hash: clone_string(&self.content_hash) }
    }
}

/// Copy a string.
fn clone_string(s: &String) -> (r: String)
    ensures
        r@ == s@,
{
    String::from_str(s.as_str())
}

/// Configuration builder for the bus clipboard bridge.
#[derive(Debug, Clone, Copy, PartialEq, Eq, Structural)]
pub struct DbusClipboardBridgeBuilder {
    /// Capacity of the event broadcast channel.
    pub channel_capacity: usize,
}

impl Default for DbusClipboardBridgeBuilder {
    /// Same as `DbusClipboardBridgeBuilder::new`.
    fn default() -> (r: DbusClipboardBridgeBuilder)
        ensures
            r.channel_capacity == 64,
    {
        DbusClipboardBridgeBuilder::new()
    }
}

impl DbusClipboardBridgeBuilder {
    /// A builder with the default 64-event channel.
    pub fn new() -> (r: DbusClipboardBridgeBuilder)
        ensures
            r.channel_capacity == 64,
    {
        DbusClipboardBridgeBuilder { channel_capacity: 64 }
    }

    /// Set the broadcast channel capacity.
    pub fn channel_capacity(self, capacity: usize) -> (r: DbusClipboardBridgeBuilder)
        ensures
            r.channel_capacity == capacity,
    {
        DbusClipboardBridgeBuilder { channel_capacity: capacity }
    }
}

} // verus!
