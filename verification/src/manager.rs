//! Capture-stream management.
//!
//! The manager is the bookkeeping core of the capture engine: the connection
//! state machine, stream-id allocation, the per-stream frame channels, and
//! the stream limit.  The transport itself lives on a dedicated thread
//! outside this crate; the thread's driver consults this state machine
//! before every transport operation and reports outcomes back into it.

use crate::config::PipeWireConfig;
use crate::error::PipeWireError;
use crate::frame::{FrameChannel, PushOutcome, VideoFrame};
use crate::session::{SourceType, StreamInfo};
use crate::util::sat_inc;
use vstd::prelude::*;
use vstd::string::StringExecFns;

verus! {

/// Handle to an active stream.
#[derive(Debug, Clone, Copy)]
pub struct StreamHandle {
    /// Unique stream identifier, allocated by the manager.
    pub id: u32,
    /// Transport node id from the portal.
    pub node_id: u32,
    /// Stream position on the virtual desktop.
    pub position: (i32, i32),
    /// Stream size in pixels.
    pub size: (u32, u32),
    /// The kind of captured source.
    pub source_type: SourceType,
}

/// Lifecycle state of the manager.
#[derive(Debug, Clone, Copy, PartialEq, Eq, Structural)]
pub enum ManagerState {
    /// Created but not connected.
    Disconnected,
    /// Connecting to the transport.
    Connecting,
    /// Connected and ready.
    Connected,
    /// The transport failed unrecoverably.
    Error,
    /// Shutting down.
    ShuttingDown,
}

/// Aggregate statistics of the manager.
#[derive(Debug, Clone, Copy, PartialEq, Eq, Structural)]
pub struct ManagerStats {
    /// Streams created.
    pub streams_created: u64,
    /// Streams destroyed.
    pub streams_destroyed: u64,
    /// Frames pushed through the manager.
    pub total_frames: u64,
    /// Bytes pushed through the manager.
    pub total_bytes: u64,
    /// Connection uptime in seconds, as reported by the driver.
    pub uptime_secs: u64,
}

/// Manager statistics with all counters at zero.
pub open spec fn spec_zero_manager_stats() -> ManagerStats {
    ManagerStats {
        streams_created: 0,
        streams_destroyed: 0,
        total_frames: 0,
        total_bytes: 0,
        uptime_secs: 0,
    }
}

impl Default for ManagerStats {
    /// All counters start at zero.
    fn default() -> (r: ManagerStats)
        ensures
            r == spec_zero_manager_stats(),
    {
        ManagerStats {
            streams_created: 0,
            streams_destroyed: 0,
            total_frames: 0,
            total_bytes: 0,
            uptime_secs: 0,
        }
    }
}

/// One registered stream: its handle and its frame channel.
pub struct StreamEntry {
    /// The stream handle.
    pub handle: StreamHandle,
    /// The stream's bounded frame channel.
    pub channel: FrameChannel,
}

/// The capture manager: connection state, stream registry, and per-stream
/// frame channels.
pub struct PipeWireManager {
    config: PipeWireConfig,
    state: ManagerState,
    entries: Vec<StreamEntry>,
    next_stream_id: u32,
    portal_fd: Option<i32>,
    stats: ManagerStats,
}

impl PipeWireManager {
    /// The manager's configuration.
    pub closed spec fn spec_config(self) -> PipeWireConfig {
        self.config
    }

    /// The lifecycle state.
    pub closed spec fn spec_state(self) -> ManagerState {
        self.state
    }

    /// The registered streams, in creation order.
    pub closed spec fn spec_entries(self) -> Seq<StreamEntry> {
        self.entries@
    }

    /// The next stream id to allocate.
    pub closed spec fn spec_next_stream_id(self) -> u32 {
        self.next_stream_id
    }

    /// The transport descriptor, once connected.
    pub closed spec fn spec_portal_fd(self) -> Option<i32> {
        self.portal_fd
    }

    /// The statistics counters.
    pub closed spec fn spec_stats(self) -> ManagerStats {
        self.stats
    }

    /// Whether a stream with this id is registered.
    pub open spec fn spec_has_stream(self, id: u32) -> bool {
        exists|i: int|
            0 <= i < self.spec_entries().len() && #[trigger] self.spec_entries()[i].handle.id == id
    }

    /// Well-formedness: the configuration passed validation, stream ids are
    /// unique and below the allocation counter, and every channel is well
    /// formed with the configured capacity.
    pub open spec fn wf(self) -> bool {
        &&& crate::config::spec_config_valid(self.spec_config())
        &&& forall|i: int, j: int|
            0 <= i < j < self.spec_entries().len() ==> #[trigger] self.spec_entries()[i].handle.id
                != #[trigger] self.spec_entries()[j].handle.id
        &&& forall|i: int|
            0 <= i < self.spec_entries().len() ==> #[trigger] self.spec_entries()[i].handle.id
                < self.spec_next_stream_id()
        &&& forall|i: int|
            0 <= i < self.spec_entries().len() ==> (#[trigger] self.spec_entries()[i].channel).wf()
                && self.spec_entries()[i].channel.spec_capacity()
                == self.spec_config().frame_buffer_size
    }

    /// Create a manager with the default configuration.
    pub fn with_default() -> (r: Result<PipeWireManager, PipeWireError>)
        ensures
            r is Ok,
            r is Ok ==> r->Ok_0.wf() && r->Ok_0.spec_state() == ManagerState::Disconnected,
    {
        proof {
            reveal_strlit("lamco-pw");
        }
        Self::new(PipeWireConfig::default())
    }

    /// Create a manager; the configuration is validated first and an invalid
    /// one is rejected with `InvalidParameter`.
    pub fn new(config: PipeWireConfig) -> (r: Result<PipeWireManager, PipeWireError>)
        ensures
            (r is Ok) == crate::config::spec_config_valid(config),
            r is Ok ==> {
                &&& r->Ok_0.wf()
                &&& r->Ok_0.spec_config() == config
                &&& r->Ok_0.spec_state() == ManagerState::Disconnected
                &&& r->Ok_0.spec_entries().len() == 0
                &&& r->Ok_0.spec_next_stream_id() == 0
                &&& r->Ok_0.spec_portal_fd() is None
                &&& r->Ok_0.spec_stats() == spec_zero_manager_stats()
            },
            r is Err ==> r->Err_0 is InvalidParameter,
    {
        if config.validate().is_err() {
            return Err(
                PipeWireError::InvalidParameter(String::from_str("configuration is invalid")),
            );
        }
        Ok(
            PipeWireManager {
                config,
                state: ManagerState::Disconnected,
                entries: Vec::new(),
                next_stream_id: 0,
                portal_fd: None,
                stats: ManagerStats::default(),
            },
        )
    }

    /// Record a completed transport connection on descriptor `fd`.
    ///
    /// Connecting while already connected fails with `InvalidState` and
    /// changes nothing.
    pub fn connect(&mut self, fd: i32) -> (r: Result<(), PipeWireError>)
        requires
            old(self).wf(),
        ensures
            final(self).wf(),
            final(self).spec_config() == old(self).spec_config(),
            old(self).spec_state() == ManagerState::Connected ==> r is Err && r->Err_0
                is InvalidState && *final(self) == *old(self),
            old(self).spec_state() != ManagerState::Connected ==> {
                &&& r is Ok
                &&& final(self).spec_state() == ManagerState::Connected
                &&& final(self).spec_portal_fd() == Some(fd)
                &&& final(self).spec_entries() == old(self).spec_entries()
                &&& final(self).spec_next_stream_id() == old(self).spec_next_stream_id()
                &&& final(self).spec_stats() == old(self).spec_stats()
            },
    {
        if self.state == ManagerState::Connected {
            return Err(PipeWireError::InvalidState(String::from_str("already connected")));
        }
        self.state = ManagerState::Connected;
        self.portal_fd = Some(fd);
        Ok(())
    }

    /// Record that the transport connection was lost; the driver decides
    /// whether to reconnect.
    pub fn connection_lost(&mut self)
        requires
            old(self).wf(),
        ensures
            final(self).wf(),
            final(self).spec_state() == ManagerState::Error,
            final(self).spec_config() == old(self).spec_config(),
            final(self).spec_entries() == old(self).spec_entries(),
            final(self).spec_next_stream_id() == old(self).spec_next_stream_id(),
            final(self).spec_portal_fd() == old(self).spec_portal_fd(),
            final(self).spec_stats() == old(self).spec_stats(),
    {
        self.state = ManagerState::Error;
    }

    /// Register a stream for a portal descriptor.
    ///
    /// Fails with `InvalidState` unless connected; with `TooManyStreams`
    /// (carrying the limit) when the configured stream limit is already
    /// reached; and with `StreamCreationFailed` when the id space is
    /// exhausted.  On success the handle carries a fresh id and the
    /// descriptor's geometry, and a frame channel of the configured depth is
    /// registered for it.
    pub fn create_stream(&mut self, stream_info: &StreamInfo) -> (r: Result<
        StreamHandle,
        PipeWireError,
    >)
        requires
            old(self).wf(),
        ensures
            final(self).wf(),
            final(self).spec_config() == old(self).spec_config(),
            old(self).spec_state() != ManagerState::Connected ==> r is Err && r->Err_0
                is InvalidState && *final(self) == *old(self),
            (old(self).spec_state() == ManagerState::Connected && old(self).spec_entries().len()
                >= old(self).spec_config().max_streams) ==> r is Err && r->Err_0 is TooManyStreams
                && r->Err_0->TooManyStreams_0 == old(self).spec_config().max_streams && *final(self) == *old(self),
            (old(self).spec_state() == ManagerState::Connected && old(self).spec_entries().len()
                < old(self).spec_config().max_streams && old(self).spec_next_stream_id()
                == u32::MAX) ==> r is Err && r->Err_0 is StreamCreationFailed && *final(self)
                == *old(self),
            (old(self).spec_state() == ManagerState::Connected && old(self).spec_entries().len()
                < old(self).spec_config().max_streams && old(self).spec_next_stream_id()
                < u32::MAX) ==> {
                &&& r is Ok
                &&& r->Ok_0.id == old(self).spec_next_stream_id()
                &&& r->Ok_0.node_id == stream_info.node_id
                &&& r->Ok_0.position == stream_info.position
                &&& r->Ok_0.size == stream_info.size
                &&& r->Ok_0.source_type == stream_info.source_type
                &&& final(self).spec_next_stream_id() == old(self).spec_next_stream_id() + 1
                &&& final(self).spec_entries().len() == old(self).spec_entries().len() + 1
                &&& final(self).spec_entries().last().handle == r->Ok_0
                &&& final(self).spec_entries().last().channel.spec_queue().len() == 0
                &&& forall|i: int|
                    0 <= i < old(self).spec_entries().len() ==> #[trigger] final(self).spec_entries()[i].handle == old(self).spec_entries()[i].handle
                &&& final(self).spec_state() == old(self).spec_state()
                &&& final(self).spec_stats() == (ManagerStats {
                    streams_created: sat_inc(old(self).spec_stats().streams_created),
                    ..old(self).spec_stats()
                })
            },
    {
        if self.state != ManagerState::Connected {
            return Err(PipeWireError::InvalidState(String::from_str("not connected")));
        }
        if self.entries.len() >= self.config.max_streams {
            return Err(PipeWireError::TooManyStreams(self.config.max_streams));
        }
        if self.next_stream_id == u32::MAX {
            return Err(
                PipeWireError::StreamCreationFailed(String::from_str("stream ids exhausted")),
            );
        }
        let stream_id = self.next_stream_id;
        self.next_stream_id = self.next_stream_id + 1;
        let handle = StreamHandle {
            id: stream_id,
            node_id: stream_info.node_id,
            position: stream_info.position,
            size: stream_info.size,
            source_type: stream_info.source_type,
        };
        let channel = FrameChannel::new(self.config.frame_buffer_size);
        self.entries.push(StreamEntry { handle, channel });
        self.stats.streams_created = crate::util::counter_inc(self.stats.streams_created);
        Ok(handle)
    }

    /// Find the index of a stream by id.
    fn find_index(&self, stream_id: u32) -> (r: Option<usize>)
        ensures
            (r is Some) == self.spec_has_stream(stream_id),
            r is Some ==> 0 <= r->Some_0 < self.spec_entries().len() && self.spec_entries()[r->Some_0 as int].handle.id == stream_id,
    {
        let mut i: usize = 0;
        while i < self.entries.len()
            invariant
                0 <= i <= self.spec_entries().len(),
                forall|j: int|
                    0 <= j < i ==> #[trigger] self.spec_entries()[j].handle.id != stream_id,
            decreases self.entries.len() - i,
        {
            if self.entries[i].handle.id == stream_id {
                return Some(i);
            }
            i = i + 1;
        }
        None
    }

    /// Remove a stream by id; an unknown id fails with `StreamNotFound`
    /// carrying the id.
    pub fn remove_stream(&mut self, stream_id: u32) -> (r: Result<(), PipeWireError>)
        requires
            old(self).wf(),
        ensures
            final(self).wf(),
            final(self).spec_config() == old(self).spec_config(),
            final(self).spec_state() == old(self).spec_state(),
            !old(self).spec_has_stream(stream_id) ==> r is Err && r->Err_0 is StreamNotFound
                && r->Err_0->StreamNotFound_0 == stream_id && *final(self) == *old(self),
            old(self).spec_has_stream(stream_id) ==> {
                &&& r is Ok
                &&& !final(self).spec_has_stream(stream_id)
                &&& exists|i: int|
                    0 <= i < old(self).spec_entries().len() && #[trigger] old(
                        self,
                    ).spec_entries()[i].handle.id == stream_id && final(self).spec_entries()
                        == old(self).spec_entries().remove(i)
                &&& final(self).spec_stats() == (ManagerStats {
                    streams_destroyed: sat_inc(old(self).spec_stats().streams_destroyed),
                    ..old(self).spec_stats()
                })
            },
    {
        let found = self.find_index(stream_id);
        match found {
            None => Err(PipeWireError::StreamNotFound(stream_id)),
            Some(i) => {
                self.entries.remove(i);
                self.stats.streams_destroyed = crate::util::counter_inc(
                    self.stats.streams_destroyed,
                );
                proof {
                    let oldseq = old(self).spec_entries();
                    let newseq = self.entries@;
                    assert forall|p: int, q: int|
                        0 <= p < q < newseq.len() implies #[trigger] newseq[p].handle.id
                        != #[trigger] newseq[q].handle.id by {
                        let p0 = if p < i as int {
                            p
                        } else {
                            p + 1
                        };
                        let q0 = if q < i as int {
                            q
                        } else {
                            q + 1
                        };
                        assert(newseq[p] == oldseq[p0] && newseq[q] == oldseq[q0]);
                    }
                    assert forall|p: int|
                        0 <= p < newseq.len() implies #[trigger] newseq[p].handle.id < self.next_stream_id
                        && newseq[p].channel.wf() && newseq[p].channel.spec_capacity()
                        == self.config.frame_buffer_size by {
                        let p0 = if p < i as int {
                            p
                        } else {
                            p + 1
                        };
                        assert(newseq[p] == oldseq[p0]);
                    }
                    assert forall|p: int|
                        0 <= p < newseq.len() implies #[trigger] newseq[p].handle.id
                        != stream_id by {
                        let p0 = if p < i as int {
                            p
                        } else {
                            p + 1
                        };
                        assert(newseq[p] == oldseq[p0]);
                        assert(oldseq[i as int].handle.id == stream_id);
                    }
                }
                Ok(())
            }
        }
    }

    /// Offer a frame to a stream's channel; an unknown id fails with
    /// `StreamNotFound`, otherwise the channel's overflow policy applies.
    pub fn push_frame(&mut self, stream_id: u32, frame: VideoFrame) -> (r: Result<
        PushOutcome,
        PipeWireError,
    >)
        requires
            old(self).wf(),
        ensures
            final(self).wf(),
            final(self).spec_config() == old(self).spec_config(),
            final(self).spec_state() == old(self).spec_state(),
            (r is Ok) == old(self).spec_has_stream(stream_id),
            r is Err ==> r->Err_0 is StreamNotFound && *final(self) == *old(self),
            r is Ok ==> final(self).spec_entries().len() == old(self).spec_entries().len()
                && exists|i: int|
                0 <= i < old(self).spec_entries().len() && #[trigger] old(self).spec_entries()[i].handle.id == stream_id && r->Ok_0
                == crate::frame::spec_push_outcome(old(self).spec_entries()[i].channel, frame)
                && final(self).spec_entries()[i].channel.spec_queue()
                == crate::frame::spec_pushed_queue(old(self).spec_entries()[i].channel, frame)
                && final(self).spec_entries()[i].channel.spec_dropped()
                == crate::frame::spec_pushed_dropped(old(self).spec_entries()[i].channel, frame)
                && final(self).spec_entries()[i].handle == old(self).spec_entries()[i].handle
                && forall|j: int|
                0 <= j < old(self).spec_entries().len() && j != i ==> #[trigger] final(self).spec_entries()[j] == old(self).spec_entries()[j],
    {
        let found = self.find_index(stream_id);
        match found {
            None => Err(PipeWireError::StreamNotFound(stream_id)),
            Some(i) => {
                let ghost oldseq = self.entries@;
                let mut entry = self.entries.remove(i);
                let outcome = entry.channel.push(frame);
                self.entries.insert(i, entry);
                proof {
                    Self::lemma_entry_update(oldseq, self.entries@, i as int, self.config, self.next_stream_id);
                    assert(oldseq[i as int].handle.id == stream_id);
                    assert forall|j: int|
                        0 <= j < oldseq.len() && j != i implies #[trigger] self.entries@[j]
                        == oldseq[j] by {}
                }
                Ok(outcome)
            }
        }
    }

    /// Take the oldest queued frame of a stream; an unknown id fails with
    /// `StreamNotFound`, an empty channel yields `Ok(None)`.
    pub fn recv_frame(&mut self, stream_id: u32) -> (r: Result<
        Option<VideoFrame>,
        PipeWireError,
    >)
        requires
            old(self).wf(),
        ensures
            final(self).wf(),
            final(self).spec_config() == old(self).spec_config(),
            final(self).spec_state() == old(self).spec_state(),
            (r is Ok) == old(self).spec_has_stream(stream_id),
            r is Err ==> r->Err_0 is StreamNotFound && *final(self) == *old(self),
            r is Ok ==> exists|i: int|
                0 <= i < old(self).spec_entries().len() && #[trigger] old(self).spec_entries()[i].handle.id == stream_id && (r->Ok_0 is Some) == (old(self).spec_entries()[i].channel.spec_queue().len() > 0) && (r->Ok_0 is Some
                ==> r->Ok_0->Some_0 == old(self).spec_entries()[i].channel.spec_queue()[0]
                && final(self).spec_entries()[i].channel.spec_queue() == old(self).spec_entries()[i].channel.spec_queue().drop_first()),
    {
        let found = self.find_index(stream_id);
        match found {
            None => Err(PipeWireError::StreamNotFound(stream_id)),
            Some(i) => {
                let ghost oldseq = self.entries@;
                let mut entry = self.entries.remove(i);
                let frame = entry.channel.recv();
                self.entries.insert(i, entry);
                proof {
                    Self::lemma_entry_update(oldseq, self.entries@, i as int, self.config, self.next_stream_id);
                    assert(oldseq[i as int].handle.id == stream_id);
                }
                Ok(frame)
            }
        }
    }

    /// Attach a fresh consumer to a stream: the stream's channel is replaced
    /// with an empty one and any frames in flight are discarded.  This is
    /// deliberate: consumers must attach before heavy downstream work
    /// begins.  Returns whether the stream exists.
    pub fn frame_receiver(&mut self, stream_id: u32) -> (r: bool)
        requires
            old(self).wf(),
        ensures
            final(self).wf(),
            final(self).spec_config() == old(self).spec_config(),
            final(self).spec_state() == old(self).spec_state(),
            r == old(self).spec_has_stream(stream_id),
            !r ==> *final(self) == *old(self),
            r ==> exists|i: int|
                0 <= i < final(self).spec_entries().len() && #[trigger] final(self).spec_entries()[i].handle.id == stream_id && final(self).spec_entries()[i].channel.spec_queue().len() == 0 && final(self).spec_entries()[i].channel.spec_dropped() == 0,
    {
        let found = self.find_index(stream_id);
        match found {
            None => false,
            Some(i) => {
                let ghost oldseq = self.entries@;
                let mut entry = self.entries.remove(i);
                entry.channel = FrameChannel::new(self.config.frame_buffer_size);
                self.entries.insert(i, entry);
                proof {
                    Self::lemma_entry_update(oldseq, self.entries@, i as int, self.config, self.next_stream_id);
                }
                true
            }
        }
    }

    /// Replacing one entry's channel (same handle) preserves the registry
    /// invariants.
    proof fn lemma_entry_update(
        oldseq: Seq<StreamEntry>,
        newseq: Seq<StreamEntry>,
        i: int,
        config: PipeWireConfig,
        next_id: u32,
    )
        requires
            0 <= i < oldseq.len(),
            newseq.len() == oldseq.len(),
            newseq[i].handle == oldseq[i].handle,
            newseq[i].channel.wf(),
            newseq[i].channel.spec_capacity() == config.frame_buffer_size,
            forall|p: int| 0 <= p < oldseq.len() && p != i ==> newseq[p] == oldseq[p],
            forall|p: int, q: int|
                0 <= p < q < oldseq.len() ==> #[trigger] oldseq[p].handle.id
                    != #[trigger] oldseq[q].handle.id,
            forall|p: int|
                0 <= p < oldseq.len() ==> #[trigger] oldseq[p].handle.id < next_id,
            forall|p: int|
                0 <= p < oldseq.len() ==> (#[trigger] oldseq[p].channel).wf()
                    && oldseq[p].channel.spec_capacity() == config.frame_buffer_size,
        ensures
            forall|p: int, q: int|
                0 <= p < q < newseq.len() ==> #[trigger] newseq[p].handle.id
                    != #[trigger] newseq[q].handle.id,
            forall|p: int|
                0 <= p < newseq.len() ==> #[trigger] newseq[p].handle.id < next_id,
            forall|p: int|
                0 <= p < newseq.len() ==> (#[trigger] newseq[p].channel).wf()
                    && newseq[p].channel.spec_capacity() == config.frame_buffer_size,
    {
        assert forall|p: int, q: int|
            0 <= p < q < newseq.len() implies #[trigger] newseq[p].handle.id
            != #[trigger] newseq[q].handle.id by {
            assert(newseq[p].handle == oldseq[p].handle);
            assert(newseq[q].handle == oldseq[q].handle);
        }
        assert forall|p: int|
            0 <= p < newseq.len() implies #[trigger] newseq[p].handle.id < next_id && (
        newseq[p].channel).wf() && newseq[p].channel.spec_capacity()
            == config.frame_buffer_size by {
            assert(newseq[p].handle == oldseq[p].handle);
            if p != i {
                assert(newseq[p] == oldseq[p]);
            }
        }
    }

    /// Number of frames waiting in a stream's channel, `None` for an
    /// unknown stream.
    pub fn queued_len(&self, stream_id: u32) -> (r: Option<usize>)
        ensures
            (r is Some) == self.spec_has_stream(stream_id),
            r is Some ==> exists|i: int|
                0 <= i < self.spec_entries().len() && #[trigger] self.spec_entries()[i].handle.id
                    == stream_id && r->Some_0 == self.spec_entries()[i].channel.spec_queue().len(),
    {
        let found = self.find_index(stream_id);
        match found {
            None => None,
            Some(i) => Some(self.entries[i].channel.len()),
        }
    }

    /// All active stream handles, in creation order.
    pub fn streams(&self) -> (r: Vec<StreamHandle>)
        ensures
            r@.len() == self.spec_entries().len(),
            forall|i: int|
                0 <= i < r@.len() ==> #[trigger] r@[i] == self.spec_entries()[i].handle,
    {
        let mut r: Vec<StreamHandle> = Vec::new();
        let mut i: usize = 0;
        while i < self.entries.len()
            invariant
                0 <= i <= self.spec_entries().len(),
                r@.len() == i,
                forall|j: int|
                    0 <= j < i ==> #[trigger] r@[j] == self.spec_entries()[j].handle,
            decreases self.entries.len() - i,
        {
            r.push(self.entries[i].handle);
            i = i + 1;
        }
        r
    }

    /// The handle of a stream by id.
    pub fn stream(&self, stream_id: u32) -> (r: Option<StreamHandle>)
        ensures
            (r is Some) == self.spec_has_stream(stream_id),
            r is Some ==> exists|i: int|
                0 <= i < self.spec_entries().len() && #[trigger] self.spec_entries()[i].handle.id
                    == stream_id && r->Some_0 == self.spec_entries()[i].handle,
    {
        let found = self.find_index(stream_id);
        match found {
            None => None,
            Some(i) => Some(self.entries[i].handle),
        }
    }

    /// The current lifecycle state.
    pub fn state(&self) -> (r: ManagerState)
        ensures
            r == self.spec_state(),
    {
        self.state
    }

    /// Whether the manager is connected.
    pub fn is_connected(&self) -> (r: bool)
        ensures
            r == (self.spec_state() == ManagerState::Connected),
    {
        self.state == ManagerState::Connected
    }

    /// The manager's configuration.
    pub fn config(&self) -> (r: &PipeWireConfig)
        ensures
            *r == self.spec_config(),
    {
        &self.config
    }

    /// The statistics counters.
    pub fn stats(&self) -> (r: &ManagerStats)
        ensures
            *r == self.spec_stats(),
    {
        &self.stats
    }

    /// Shut down: every stream is dropped and the manager returns to
    /// `Disconnected`.  Safe to call repeatedly.
    pub fn shutdown(&mut self) -> (r: Result<(), PipeWireError>)
        requires
            old(self).wf(),
        ensures
            final(self).wf(),
            final(self).spec_config() == old(self).spec_config(),
            r is Ok,
            final(self).spec_state() == ManagerState::Disconnected,
            final(self).spec_entries().len() == 0,
            final(self).spec_portal_fd() is None,
    {
        self.state = ManagerState::ShuttingDown;
        self.entries.clear();
        self.portal_fd = None;
        self.state = ManagerState::Disconnected;
        Ok(())
    }

    /// The delay before reconnection attempt `attempt`: doubling from
    /// 100 ms and held at one minute once doubling would pass it.
    pub open spec fn spec_reconnect_delay_ms(attempt: int) -> int
        decreases attempt,
    {
        if attempt <= 0 {
            100
        } else if attempt > 10 {
            Self::spec_reconnect_delay_ms(10)
        } else {
            let previous = Self::spec_reconnect_delay_ms(attempt - 1);
            if previous > 30000 {
                60000
            } else {
                2 * previous
            }
        }
    }

    /// The delay before reconnection attempt `attempt`, with exponential
    /// backoff starting at 100 ms and capped at one minute.
    pub fn reconnect_delay_ms(attempt: u32) -> (r: u64)
        ensures
            r == Self::spec_reconnect_delay_ms(attempt as int),
            attempt == 0 ==> r == 100,
            attempt == 1 ==> r == 200,
            attempt == 2 ==> r == 400,
            100 <= r <= 60000,
    {
        let mut delay: u64 = 100;
        let mut i: u32 = 0;
        while i < attempt && i < 10
            invariant
                0 <= i <= 10,
                i <= attempt,
                i < attempt || i == attempt,
                attempt > 10 ==> i <= 10,
                100 <= delay <= 60000,
                delay == Self::spec_reconnect_delay_ms(i as int),
            decreases 10 - i,
        {
            delay = if delay > 30000 {
                60000
            } else {
                delay * 2
            };
            i = i + 1;
        }
        proof {
            if attempt > 10 {
                assert(i == 10);
                Self::lemma_reconnect_delay_saturates(attempt as int);
            }
            assert(Self::spec_reconnect_delay_ms(0) == 100);
            assert(Self::spec_reconnect_delay_ms(1) == 200);
            assert(Self::spec_reconnect_delay_ms(2) == 400);
        }
        delay
    }

    /// Past the tenth attempt the backoff no longer changes.
    proof fn lemma_reconnect_delay_saturates(attempt: int)
        requires
            attempt >= 10,
        ensures
            Self::spec_reconnect_delay_ms(attempt) == Self::spec_reconnect_delay_ms(10),
        decreases attempt,
    {
        if attempt > 10 {
            Self::lemma_reconnect_delay_saturates(attempt - 1);
        }
    }
}

} // verus!
