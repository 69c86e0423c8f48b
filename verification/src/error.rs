//! Error types of the capture engine and the portal session.

use vstd::prelude::*;
use vstd::string::StringExecFns;

verus! {

/// Errors of the capture engine.
#[derive(Debug)]
pub enum PipeWireError {
    /// Connecting to the media transport failed.
    ConnectionFailed(String),
    /// An operation was attempted in the wrong lifecycle state.
    InvalidState(String),
    /// The connection attempt exceeded its timeout.
    Timeout,
    /// The transport is not connected and reconnection gave up.
    NotConnected,
    /// The configured stream limit was reached; carries the limit.
    TooManyStreams(usize),
    /// No stream with the given id exists; carries the id.
    StreamNotFound(u32),
    /// The capture thread reported a stream-creation failure.
    StreamCreationFailed(String),
    /// The capture thread could not be reached.
    ThreadCommunicationFailed(String),
    /// The configuration or an argument is invalid.
    InvalidParameter(String),
    /// The frame's pixel format is not supported.
    UnsupportedFormat,
    /// A source buffer is smaller than its format requires.
    BufferTooSmall,
}

impl PipeWireError {
    /// A short description of the error kind.
    pub fn kind_name(&self) -> (r: String)
        ensures
            r@ == match *self {
                PipeWireError::ConnectionFailed(_) => "connection failed"@,
                PipeWireError::InvalidState(_) => "invalid state"@,
                PipeWireError::Timeout => "timeout"@,
                PipeWireError::NotConnected => "not connected"@,
                PipeWireError::TooManyStreams(_) => "too many streams"@,
                PipeWireError::StreamNotFound(_) => "stream not found"@,
                PipeWireError::StreamCreationFailed(_) => "stream creation failed"@,
                PipeWireError::ThreadCommunicationFailed(_) => "thread communication failed"@,
                PipeWireError::InvalidParameter(_) => "invalid parameter"@,
                PipeWireError::UnsupportedFormat => "unsupported format"@,
                PipeWireError::BufferTooSmall => "buffer too small"@,
            },
    {
        match self {
            PipeWireError::ConnectionFailed(_) => String::from_str("connection failed"),
            PipeWireError::InvalidState(_) => String::from_str("invalid state"),
            PipeWireError::Timeout => String::from_str("timeout"),
            PipeWireError::NotConnected => String::from_str("not connected"),
            PipeWireError::TooManyStreams(_) => String::from_str("too many streams"),
            PipeWireError::StreamNotFound(_) => String::from_str("stream not found"),
            PipeWireError::StreamCreationFailed(_) => String::from_str("stream creation failed"),
            PipeWireError::ThreadCommunicationFailed(_) => String::from_str(
                "thread communication failed",
            ),
            PipeWireError::InvalidParameter(_) => String::from_str("invalid parameter"),
            PipeWireError::UnsupportedFormat => String::from_str("unsupported format"),
            PipeWireError::BufferTooSmall => String::from_str("buffer too small"),
        }
    }
}

/// Errors of the portal session and the clipboard bridge.
#[derive(Debug)]
pub enum PortalError {
    /// The session message bus could not be reached.
    DbusConnection(String),
    /// A portal request failed.
    PortalRequest(String),
    /// The user denied the permission request.
    PermissionDenied,
    /// No portal host is available.
    PortalNotAvailable,
    /// Creating the portal session failed.
    SessionCreation(String),
    /// The session started but offered no streams.
    NoStreamsAvailable,
    /// The pixel-transport descriptor could not be obtained.
    PipeWireFailed(String),
    /// Injecting an input event failed.
    InputInjectionFailed(String),
    /// A clipboard operation failed.
    ClipboardFailed(String),
    /// A file or descriptor operation failed.
    IoError(String),
    /// The portal configuration is invalid.
    InvalidConfig(String),
    /// Clipboard data was not valid UTF-8 where text was required.
    InvalidUtf8,
}

impl PortalError {
    /// A session-creation error with a reason.
    pub fn session_creation(msg: String) -> (r: PortalError)
        ensures
            r is SessionCreation && r->SessionCreation_0@ == msg@,
    {
        PortalError::SessionCreation(msg)
    }

    /// A pixel-transport error with a reason.
    pub fn pipewire_failed(msg: String) -> (r: PortalError)
        ensures
            r is PipeWireFailed && r->PipeWireFailed_0@ == msg@,
    {
        PortalError::PipeWireFailed(msg)
    }

    /// An input-injection error with a reason.
    pub fn input_injection(msg: String) -> (r: PortalError)
        ensures
            r is InputInjectionFailed && r->InputInjectionFailed_0@ == msg@,
    {
        PortalError::InputInjectionFailed(msg)
    }

    /// A clipboard error with a reason.
    pub fn clipboard(msg: String) -> (r: PortalError)
        ensures
            r is ClipboardFailed && r->ClipboardFailed_0@ == msg@,
    {
        PortalError::ClipboardFailed(msg)
    }

    /// A configuration error with a reason.
    pub fn invalid_config(msg: String) -> (r: PortalError)
        ensures
            r is InvalidConfig && r->InvalidConfig_0@ == msg@,
    {
        PortalError::InvalidConfig(msg)
    }
}

} // verus!
