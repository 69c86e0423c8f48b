//! Wayland screen-capture engine: pixel-format codec, damage tracking,
//! adaptive bitrate control, cursor extraction, capture-stream management,
//! frame dispatch and RDP bitmap conversion, portal session flow, and the
//! delayed-rendering clipboard bridge.

use vstd::prelude::*;

pub mod bitrate;
pub mod clipboard;
pub mod config;
pub mod convert;
pub mod cursor;
pub mod damage;
pub mod dbus_clipboard;
pub mod dispatcher;
pub mod error;
pub mod format;
pub mod frame;
pub mod manager;
pub mod portal;
pub mod processor;
pub mod session;
pub mod util;
pub mod yuv;

verus! {

/// Crate version string.
pub const VERSION: &'static str = "0.1.0";

} // verus!
