//! Stream descriptors delivered by the portal session.

use vstd::prelude::*;

verus! {

/// The kind of source a stream captures.
#[derive(Debug, Clone, Copy, PartialEq, Eq, Structural)]
pub enum SourceType {
    /// A physical monitor.
    Monitor,
    /// A single window.
    Window,
    /// A virtual source.
    Virtual,
}

/// A stream descriptor from the portal: the transport node that carries the
/// stream, its position on the virtual desktop, and its pixel size.
#[derive(Debug, Clone, Copy)]
pub struct StreamInfo {
    /// Transport node identifier.
    pub node_id: u32,
    /// Stream position on the virtual desktop.
    pub position: (i32, i32),
    /// Stream size in pixels.
    pub size: (u32, u32),
    /// The kind of captured source.
    pub source_type: SourceType,
}

} // verus!
