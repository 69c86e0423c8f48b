//! Portal session configuration and lifecycle.
//!
//! Models the options a portal session is negotiated with and the fixed
//! order of the negotiation: create the session, select input devices,
//! select screen sources, optionally request clipboard access — which the
//! portal protocol demands before the session starts — and start.  The
//! message-bus calls themselves happen outside this crate; their driver
//! advances this state machine and the machine refuses steps out of order.

use crate::error::PortalError;
use crate::session::StreamInfo;
use vstd::prelude::*;
use vstd::string::StringExecFns;

verus! {

/// How the cursor appears in the captured stream.
#[derive(Debug, Clone, Copy, PartialEq, Eq, Structural)]
pub enum CursorMode {
    /// The cursor is not captured.
    Hidden,
    /// The cursor is baked into the video.
    Embedded,
    /// The cursor position arrives as metadata.
    Metadata,
}

/// Whether the granted permission outlives the session.
#[derive(Debug, Clone, Copy, PartialEq, Eq, Structural)]
pub enum PersistMode {
    /// Ask every time.
    DoNot,
    /// Remember for this application.
    Application,
    /// Remember until explicitly revoked.
    ExplicitlyRevoked,
}

/// The source kinds a session may capture.
#[derive(Debug, Clone, Copy, PartialEq, Eq, Structural)]
pub struct SourceTypes {
    /// Physical monitors.
    pub monitor: bool,
    /// Individual windows.
    pub window: bool,
    /// Virtual sources.
    pub virtual_source: bool,
}

/// The input devices a session may inject.
#[derive(Debug, Clone, Copy, PartialEq, Eq, Structural)]
pub struct DeviceTypes {
    /// Keyboard input.
    pub keyboard: bool,
    /// Pointer input.
    pub pointer: bool,
    /// Touch input.
    pub touchscreen: bool,
}

/// Configuration of a portal session.
#[derive(Debug, Clone)]
pub struct PortalConfig {
    /// How the cursor appears in the stream.
    pub cursor_mode: CursorMode,
    /// Whether the permission is remembered.
    pub persist_mode: PersistMode,
    /// The source kinds offered for capture.
    pub source_type: SourceTypes,
    /// The input devices enabled for injection.
    pub devices: DeviceTypes,
    /// Allow selecting several sources.
    pub allow_multiple: bool,
    /// Restore token of a previous session, if any.
    pub restore_token: Option<String>,
}

/// The fields of the default portal configuration: cursor as metadata, no
/// persistence, monitors and windows, keyboard and pointer, several sources
/// allowed, no restore token.
pub open spec fn spec_default_portal_config_fields(c: PortalConfig) -> bool {
    &&& c.cursor_mode == CursorMode::Metadata
    &&& c.persist_mode == PersistMode::DoNot
    &&& c.source_type == (SourceTypes { monitor: true, window: true, virtual_source: false })
    &&& c.devices == (DeviceTypes { keyboard: true, pointer: true, touchscreen: false })
    &&& c.allow_multiple == true
    &&& c.restore_token is None
}

impl Default for PortalConfig {
    /// Cursor as metadata, permission asked every time, monitors and
    /// windows, keyboard and pointer, several sources allowed.
    fn default() -> (r: PortalConfig)
        ensures
            spec_default_portal_config_fields(r),
    {
        PortalConfig {
            cursor_mode: CursorMode::Metadata,
            persist_mode: PersistMode::DoNot,
            source_type: SourceTypes { monitor: true, window: true, virtual_source: false },
            devices: DeviceTypes { keyboard: true, pointer: true, touchscreen: false },
            allow_multiple: true,
            restore_token: None,
        }
    }
}

impl PortalConfig {
    /// Create a new builder.
    pub fn builder() -> (r: PortalConfigBuilder)
        ensures
            r == spec_empty_portal_builder(),
    {
        PortalConfigBuilder::default()
    }
}

/// Builder for `PortalConfig`.
#[derive(Debug)]
pub struct PortalConfigBuilder {
    /// Cursor mode, when set.
    pub cursor_mode: Option<CursorMode>,
    /// Persist mode, when set.
    pub persist_mode: Option<PersistMode>,
    /// Source kinds, when set.
    pub source_type: Option<SourceTypes>,
    /// Input devices, when set.
    pub devices: Option<DeviceTypes>,
    /// Multi-source selection, when set.
    pub allow_multiple: Option<bool>,
    /// Restore token, when set.
    pub restore_token: Option<String>,
}

/// A portal builder with no field set.
pub open spec fn spec_empty_portal_builder() -> PortalConfigBuilder {
    PortalConfigBuilder {
        cursor_mode: None,
        persist_mode: None,
        source_type: None,
        devices: None,
        allow_multiple: None,
        restore_token: None,
    }
}

impl Default for PortalConfigBuilder {
    /// A builder with no field set.
    fn default() -> (r: PortalConfigBuilder)
        ensures
            r == spec_empty_portal_builder(),
    {
        PortalConfigBuilder {
            cursor_mode: None,
            persist_mode: None,
            source_type: None,
            devices: None,
            allow_multiple: None,
            restore_token: None,
        }
    }
}

impl PortalConfigBuilder {
    /// Set the cursor mode.
    pub fn cursor_mode(self, mode: CursorMode) -> (r: PortalConfigBuilder)
        ensures
            r == (PortalConfigBuilder { cursor_mode: Some(mode), ..self }),
    {
        PortalConfigBuilder { cursor_mode: Some(mode), ..self }
    }

    /// Set the persist mode.
    pub fn persist_mode(self, mode: PersistMode) -> (r: PortalConfigBuilder)
        ensures
            r == (PortalConfigBuilder { persist_mode: Some(mode), ..self }),
    {
        PortalConfigBuilder { persist_mode: Some(mode), ..self }
    }

    /// Set the source kinds.
    pub fn source_type(self, types: SourceTypes) -> (r: PortalConfigBuilder)
        ensures
            r == (PortalConfigBuilder { source_type: Some(types), ..self }),
    {
        PortalConfigBuilder { source_type: Some(types), ..self }
    }

    /// Set the input devices.
    pub fn devices(self, devices: DeviceTypes) -> (r: PortalConfigBuilder)
        ensures
            r == (PortalConfigBuilder { devices: Some(devices), ..self }),
    {
        PortalConfigBuilder { devices: Some(devices), ..self }
    }

    /// Set whether several sources may be selected.
    pub fn allow_multiple(self, allow: bool) -> (r: PortalConfigBuilder)
        ensures
            r == (PortalConfigBuilder { allow_multiple: Some(allow), ..self }),
    {
        PortalConfigBuilder { allow_multiple: Some(allow), ..self }
    }

    /// Set the restore token.
    pub fn restore_token(self, token: String) -> (r: PortalConfigBuilder)
        ensures
            r == (PortalConfigBuilder { restore_token: Some(token), ..self }),
    {
        PortalConfigBuilder { restore_token: Some(token), ..self }
    }

    /// Build the configuration, with defaults for unset fields.
    pub fn build(self) -> (r: PortalConfig)
        ensures
            r.cursor_mode == if self.cursor_mode is Some {
                self.cursor_mode->0
            } else {
                CursorMode::Metadata
            },
            r.persist_mode == if self.persist_mode is Some {
                self.persist_mode->0
            } else {
                PersistMode::DoNot
            },
            r.source_type == if self.source_type is Some {
                self.source_type->0
            } else {
                SourceTypes { monitor: true, window: true, virtual_source: false }
            },
            r.devices == if self.devices is Some {
                self.devices->0
            } else {
                DeviceTypes { keyboard: true, pointer: true, touchscreen: false }
            },
            r.allow_multiple == if self.allow_multiple is Some {
                self.allow_multiple->0
            } else {
                true
            },
            r.restore_token == self.restore_token,
    {
        let defaults = PortalConfig::default();
        PortalConfig {
            cursor_mode: match self.cursor_mode {
                Some(v) => v,
                None => defaults.cursor_mode,
            },
            persist_mode: match self.persist_mode {
                Some(v) => v,
                None => defaults.persist_mode,
            },
            source_type: match self.source_type {
                Some(v) => v,
                None => defaults.source_type,
            },
            devices: match self.devices {
                Some(v) => v,
                None => defaults.devices,
            },
            allow_multiple: match self.allow_multiple {
                Some(v) => v,
                None => defaults.allow_multiple,
            },
            restore_token: match self.restore_token {
                Some(v) => Some(v),
                None => None,
            },
        }
    }
}

/// Where a portal session stands in its fixed negotiation order.
#[derive(Debug, Clone, Copy, PartialEq, Eq, Structural)]
pub enum SessionPhase {
    /// The session object exists.
    Created,
    /// Input devices have been selected.
    DevicesSelected,
    /// Screen sources have been selected.
    SourcesSelected,
    /// Clipboard access has been requested, before start as the protocol
    /// demands.
    ClipboardRequested,
    /// The session runs: the transport descriptor and streams are held.
    Started,
    /// The session was closed; its transport descriptor is released.
    Closed,
}

/// The portal session negotiation, step by step.
///
/// Each step is permitted in exactly one phase, so a driver that follows
/// this machine makes the portal calls in the protocol's order — in
/// particular, clipboard access can only be requested after source
/// selection and never after start.
pub struct PortalSessionFlow {
    session_id: String,
    config: PortalConfig,
    phase: SessionPhase,
    clipboard_requested: bool,
    transport_fd: Option<i32>,
    streams: Vec<StreamInfo>,
}

impl PortalSessionFlow {
    /// The caller-chosen session identifier.
    pub closed spec fn spec_session_id(self) -> Seq<char> {
        self.session_id@
    }

    /// The session's configuration.
    pub closed spec fn spec_config(self) -> PortalConfig {
        self.config
    }

    /// The current phase.
    pub closed spec fn spec_phase(self) -> SessionPhase {
        self.phase
    }

    /// Whether clipboard access was requested before start.
    pub closed spec fn spec_clipboard_requested(self) -> bool {
        self.clipboard_requested
    }

    /// The pixel-transport descriptor, held while the session runs.
    pub closed spec fn spec_transport_fd(self) -> Option<i32> {
        self.transport_fd
    }

    /// The stream descriptors the portal granted.
    pub closed spec fn spec_streams(self) -> Seq<StreamInfo> {
        self.streams@
    }

    /// Well-formedness: the transport descriptor is held exactly while the
    /// session runs, and a running session has at least one stream.
    pub open spec fn wf(self) -> bool {
        &&& (self.spec_transport_fd() is Some) == (self.spec_phase() == SessionPhase::Started)
        &&& self.spec_phase() == SessionPhase::Started ==> self.spec_streams().len() >= 1
    }

    /// Begin a session negotiation.
    pub fn begin(session_id: String, config: PortalConfig) -> (r: PortalSessionFlow)
        ensures
            r.wf(),
            r.spec_session_id() == session_id@,
            r.spec_config() == config,
            r.spec_phase() == SessionPhase::Created,
            !r.spec_clipboard_requested(),
            r.spec_streams().len() == 0,
    {
        PortalSessionFlow {
            session_id,
            config,
            phase: SessionPhase::Created,
            clipboard_requested: false,
            transport_fd: None,
            streams: Vec::new(),
        }
    }

    /// Record that input devices were selected; permitted only right after
    /// creation.
    pub fn select_devices(&mut self) -> (r: Result<(), PortalError>)
        requires
            old(self).wf(),
        ensures
            final(self).wf(),
            (r is Ok) == (old(self).spec_phase() == SessionPhase::Created),
            r is Ok ==> final(self).spec_phase() == SessionPhase::DevicesSelected
                && final(self).spec_config() == old(self).spec_config()
                && final(self).spec_session_id() == old(self).spec_session_id(),
            r is Err ==> r->Err_0 is SessionCreation && *final(self) == *old(self),
    {
        if !(self.phase == SessionPhase::Created) {
            return Err(
                PortalError::SessionCreation(
                    String::from_str("devices must be selected right after session creation"),
                ),
            );
        }
        self.phase = SessionPhase::DevicesSelected;
        Ok(())
    }

    /// Record that screen sources were selected; permitted only after
    /// device selection.
    pub fn select_sources(&mut self) -> (r: Result<(), PortalError>)
        requires
            old(self).wf(),
        ensures
            final(self).wf(),
            (r is Ok) == (old(self).spec_phase() == SessionPhase::DevicesSelected),
            r is Ok ==> final(self).spec_phase() == SessionPhase::SourcesSelected
                && final(self).spec_config() == old(self).spec_config()
                && final(self).spec_session_id() == old(self).spec_session_id(),
            r is Err ==> r->Err_0 is SessionCreation && *final(self) == *old(self),
    {
        if !(self.phase == SessionPhase::DevicesSelected) {
            return Err(
                PortalError::SessionCreation(
                    String::from_str("sources must be selected after devices"),
                ),
            );
        }
        self.phase = SessionPhase::SourcesSelected;
        Ok(())
    }

    /// Record that clipboard access was requested.  The portal protocol
    /// demands this before start, so it is permitted only between source
    /// selection and start.
    pub fn request_clipboard(&mut self) -> (r: Result<(), PortalError>)
        requires
            old(self).wf(),
        ensures
            final(self).wf(),
            (r is Ok) == (old(self).spec_phase() == SessionPhase::SourcesSelected),
            r is Ok ==> final(self).spec_phase() == SessionPhase::ClipboardRequested
                && final(self).spec_clipboard_requested()
                && final(self).spec_config() == old(self).spec_config()
                && final(self).spec_session_id() == old(self).spec_session_id(),
            r is Err ==> r->Err_0 is ClipboardFailed && *final(self) == *old(self),
    {
        if !(self.phase == SessionPhase::SourcesSelected) {
            return Err(
                PortalError::ClipboardFailed(
                    String::from_str("clipboard access must be requested before start"),
                ),
            );
        }
        self.phase = SessionPhase::ClipboardRequested;
        self.clipboard_requested = true;
        Ok(())
    }

    /// Record the start response: the transport descriptor and the granted
    /// streams.  Starting is permitted after source selection (with or
    /// without a clipboard request); a response without streams fails with
    /// `NoStreamsAvailable` and the session does not run.
    pub fn start(&mut self, transport_fd: i32, streams: Vec<StreamInfo>) -> (r: Result<
        (),
        PortalError,
    >)
        requires
            old(self).wf(),
        ensures
            final(self).wf(),
            ({
                let ready = old(self).spec_phase() == SessionPhase::SourcesSelected || old(
                    self,
                ).spec_phase() == SessionPhase::ClipboardRequested;
                &&& (r is Ok) == (ready && streams@.len() > 0)
                &&& (ready && streams@.len() == 0) ==> r is Err && r->Err_0 is NoStreamsAvailable
                &&& !ready ==> r is Err && r->Err_0 is SessionCreation
                &&& r is Ok ==> {
                    &&& final(self).spec_phase() == SessionPhase::Started
                    &&& final(self).spec_transport_fd() == Some(transport_fd)
                    &&& final(self).spec_streams() == streams@
                    &&& final(self).spec_config() == old(self).spec_config()
                    &&& final(self).spec_session_id() == old(self).spec_session_id()
                    &&& final(self).spec_clipboard_requested() == old(
                        self,
                    ).spec_clipboard_requested()
                }
                &&& r is Err ==> *final(self) == *old(self)
            }),
    {
        let ready = self.phase == SessionPhase::SourcesSelected || self.phase
            == SessionPhase::ClipboardRequested;
        if !ready {
            return Err(
                PortalError::SessionCreation(
                    String::from_str("start is permitted only after source selection"),
                ),
            );
        }
        if streams.len() == 0 {
            return Err(PortalError::NoStreamsAvailable);
        }
        self.phase = SessionPhase::Started;
        self.transport_fd = Some(transport_fd);
        self.streams = streams;
        Ok(())
    }

    /// The transport descriptor of a running session.
    pub fn pipewire_fd(&self) -> (r: Option<i32>)
        ensures
            r == self.spec_transport_fd(),
            (r is Some) == (self.spec_phase() == SessionPhase::Started) || !self.wf(),
    {
        self.transport_fd
    }

    /// The granted stream descriptors.
    pub fn streams(&self) -> (r: &Vec<StreamInfo>)
        ensures
            r@ == self.spec_streams(),
    {
        &self.streams
    }

    /// The session identifier.
    pub fn session_id(&self) -> (r: &String)
        ensures
            r@ == self.spec_session_id(),
    {
        &self.session_id
    }

    /// The current phase.
    pub fn phase(&self) -> (r: SessionPhase)
        ensures
            r == self.spec_phase(),
    {
        self.phase
    }

    /// Close the session: the transport descriptor is released and no
    /// further step is permitted.  Closing twice is harmless.
    pub fn close(&mut self)
        requires
            old(self).wf(),
        ensures
            final(self).wf(),
            final(self).spec_phase() == SessionPhase::Closed,
            final(self).spec_transport_fd() is None,
            final(self).spec_session_id() == old(self).spec_session_id(),
    {
        self.phase = SessionPhase::Closed;
        self.transport_fd = None;
    }
}

} // verus!
