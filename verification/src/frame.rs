//! Video frames and the per-stream frame channel.
//!
//! A `FrameChannel` is the bounded queue between the capture side and one
//! consumer.  Frames are queued in capture order; a frame offered to a full
//! channel — the newest frame — is dropped and a drop counter advances, so
//! the buffered frames are never displaced.  A frame whose sequence number
//! does not advance past the last queued frame is rejected, which keeps
//! delivery strictly ordered.

use crate::damage::DamageRegion;
use crate::format::PixelFormat;
use vstd::prelude::*;

verus! {

/// One captured video frame.
#[derive(Debug)]
pub struct VideoFrame {
    /// Frame width in pixels.
    pub width: u32,
    /// Frame height in pixels.
    pub height: u32,
    /// Row stride in bytes.
    pub stride: u32,
    /// Pixel format of the data.
    pub format: PixelFormat,
    /// The pixel bytes.
    pub data: Vec<u8>,
    /// Monotonic capture timestamp in milliseconds.
    pub timestamp_ms: u64,
    /// Per-stream sequence number, strictly increasing.
    pub sequence: u64,
    /// Damaged regions since the previous frame, when the capture source
    /// reports them.
    pub damage: Option<Vec<DamageRegion>>,
}

/// Frames are in capture order: strictly increasing sequence numbers and
/// nondecreasing timestamps.
pub open spec fn spec_frames_ordered(q: Seq<VideoFrame>) -> bool {
    forall|i: int, j: int|
        #![trigger q[i], q[j]]
        0 <= i < j < q.len() ==> q[i].sequence < q[j].sequence && q[i].timestamp_ms
            <= q[j].timestamp_ms
}

/// The outcome of offering a frame to a channel.
#[derive(Debug, Clone, Copy, PartialEq, Eq, Structural)]
pub enum PushOutcome {
    /// The frame was queued.
    Queued,
    /// The channel was full: the offered frame — the newest — was dropped
    /// and the overflow counter advanced by one; the queue is unchanged.
    DroppedNewest,
    /// The frame does not advance the stream (stale sequence number or a
    /// timestamp before the newest queued frame) and was rejected.
    RejectedOutOfOrder,
}

/// Whether a frame advances the channel: a fresh channel takes anything;
/// otherwise the sequence must grow and the timestamp must not go back.
pub open spec fn spec_push_in_order(ch: FrameChannel, frame: VideoFrame) -> bool {
    match ch.spec_last_sequence() {
        Some(s) => frame.sequence > s && frame.timestamp_ms >= ch.spec_last_timestamp_ms(),
        None => true,
    }
}

/// What offering a frame does: queued, dropped because the channel is full,
/// or rejected out of order.
pub open spec fn spec_push_outcome(ch: FrameChannel, frame: VideoFrame) -> PushOutcome {
    if !spec_push_in_order(ch, frame) {
        PushOutcome::RejectedOutOfOrder
    } else if ch.spec_queue().len() < ch.spec_capacity() {
        PushOutcome::Queued
    } else {
        PushOutcome::DroppedNewest
    }
}

/// The queue after offering a frame.
pub open spec fn spec_pushed_queue(ch: FrameChannel, frame: VideoFrame) -> Seq<VideoFrame> {
    match spec_push_outcome(ch, frame) {
        PushOutcome::RejectedOutOfOrder => ch.spec_queue(),
        PushOutcome::Queued => ch.spec_queue().push(frame),
        PushOutcome::DroppedNewest => ch.spec_queue(),
    }
}

/// The overflow counter after offering a frame.
pub open spec fn spec_pushed_dropped(ch: FrameChannel, frame: VideoFrame) -> u64 {
    if spec_push_outcome(ch, frame) == PushOutcome::DroppedNewest {
        crate::util::sat_inc(ch.spec_dropped())
    } else {
        ch.spec_dropped()
    }
}

/// A bounded per-stream frame queue with newest-preserving overflow.
pub struct FrameChannel {
    queue: Vec<VideoFrame>,
    capacity: usize,
    dropped: u64,
    last_sequence: Option<u64>,
    last_timestamp_ms: u64,
}

impl FrameChannel {
    /// The queued frames, oldest first.
    pub closed spec fn spec_queue(self) -> Seq<VideoFrame> {
        self.queue@
    }

    /// The channel capacity.
    pub closed spec fn spec_capacity(self) -> usize {
        self.capacity
    }

    /// Frames dropped to overflow since creation.
    pub closed spec fn spec_dropped(self) -> u64 {
        self.dropped
    }

    /// The sequence number of the newest frame ever queued.
    pub closed spec fn spec_last_sequence(self) -> Option<u64> {
        self.last_sequence
    }

    /// The timestamp of the newest frame ever queued.
    pub closed spec fn spec_last_timestamp_ms(self) -> u64 {
        self.last_timestamp_ms
    }

    /// Well-formedness: the capacity is positive, the queue is within it and
    /// in capture order, and the newest-frame markers bound every queued
    /// frame.
    pub open spec fn wf(self) -> bool {
        &&& self.spec_capacity() >= 1
        &&& self.spec_queue().len() <= self.spec_capacity()
        &&& spec_frames_ordered(self.spec_queue())
        &&& self.spec_queue().len() > 0 ==> self.spec_last_sequence() is Some
        &&& self.spec_last_sequence() is Some ==> forall|i: int|
            0 <= i < self.spec_queue().len() ==> #[trigger] self.spec_queue()[i].sequence
                <= self.spec_last_sequence()->0 && self.spec_queue()[i].timestamp_ms
                <= self.spec_last_timestamp_ms()
    }

    /// Create a channel that can queue `capacity` frames.
    pub fn new(capacity: usize) -> (r: FrameChannel)
        requires
            capacity >= 1,
        ensures
            r.wf(),
            r.spec_queue().len() == 0,
            r.spec_capacity() == capacity,
            r.spec_dropped() == 0,
            r.spec_last_sequence() is None,
    {
        FrameChannel {
            queue: Vec::new(),
            capacity,
            dropped: 0,
            last_sequence: None,
            last_timestamp_ms: 0,
        }
    }

    /// Offer a frame.
    ///
    /// A frame in capture order is queued while there is room; offered to a
    /// full channel, the frame — the newest — is dropped, the queue is left
    /// unchanged, and the overflow counter advances by exactly one.  A
    /// frame out of capture order is rejected and nothing changes.
    pub fn push(&mut self, frame: VideoFrame) -> (r: PushOutcome)
        requires
            old(self).wf(),
        ensures
            final(self).wf(),
            final(self).spec_capacity() == old(self).spec_capacity(),
            r == spec_push_outcome(*old(self), frame),
            final(self).spec_queue() == spec_pushed_queue(*old(self), frame),
            final(self).spec_dropped() == spec_pushed_dropped(*old(self), frame),
            r == PushOutcome::RejectedOutOfOrder ==> *final(self) == *old(self),
            r == PushOutcome::DroppedNewest ==> final(self).spec_queue() == old(self).spec_queue()
                && final(self).spec_last_sequence() == old(self).spec_last_sequence(),
            r == PushOutcome::Queued ==> final(self).spec_last_sequence() == Some(frame.sequence)
                && final(self).spec_last_timestamp_ms() == frame.timestamp_ms,
    {
        let in_order = match self.last_sequence {
            Some(s) => frame.sequence > s && frame.timestamp_ms >= self.last_timestamp_ms,
            None => true,
        };
        if !in_order {
            return PushOutcome::RejectedOutOfOrder;
        }
        if self.queue.len() < self.capacity {
            self.last_sequence = Some(frame.sequence);
            self.last_timestamp_ms = frame.timestamp_ms;
            self.queue.push(frame);
            proof {
                Self::lemma_push_ordered(old(self).spec_queue(), frame);
            }
            PushOutcome::Queued
        } else {
            self.dropped = crate::util::counter_inc(self.dropped);
            PushOutcome::DroppedNewest
        }
    }

    /// Appending a frame newer than everything queued keeps capture order.
    proof fn lemma_push_ordered(q: Seq<VideoFrame>, frame: VideoFrame)
        requires
            spec_frames_ordered(q),
            forall|i: int|
                0 <= i < q.len() ==> #[trigger] q[i].sequence < frame.sequence
                    && q[i].timestamp_ms <= frame.timestamp_ms,
        ensures
            spec_frames_ordered(q.push(frame)),
    {
        assert forall|i: int, j: int|
            #![trigger q.push(frame)[i], q.push(frame)[j]]
            0 <= i < j < q.push(frame).len() implies q.push(frame)[i].sequence < q.push(
            frame,
        )[j].sequence && q.push(frame)[i].timestamp_ms <= q.push(frame)[j].timestamp_ms by {
            assert(q.push(frame)[i] == q[i]);
            if j < q.len() {
                assert(q.push(frame)[j] == q[j]);
                assert(q[i].sequence < q[j].sequence && q[i].timestamp_ms <= q[j].timestamp_ms);
            } else {
                assert(q.push(frame)[j] == frame);
                assert(q[i].sequence < frame.sequence && q[i].timestamp_ms
                    <= frame.timestamp_ms);
            }
        }
    }

    /// Take the oldest queued frame.
    pub fn recv(&mut self) -> (r: Option<VideoFrame>)
        requires
            old(self).wf(),
        ensures
            final(self).wf(),
            final(self).spec_capacity() == old(self).spec_capacity(),
            final(self).spec_dropped() == old(self).spec_dropped(),
            final(self).spec_last_sequence() == old(self).spec_last_sequence(),
            (r is Some) == (old(self).spec_queue().len() > 0),
            r is Some ==> r->Some_0 == old(self).spec_queue()[0] && final(self).spec_queue() == old(
                self,
            ).spec_queue().drop_first(),
            r is None ==> *final(self) == *old(self),
    {
        if self.queue.len() == 0 {
            return None;
        }
        let frame = self.queue.remove(0);
        proof {
            assert(old(self).spec_queue().remove(0) =~= old(self).spec_queue().drop_first());
            assert forall|i: int, j: int|
                #![trigger self.queue@[i], self.queue@[j]]
                0 <= i < j < self.queue@.len() implies self.queue@[i].sequence
                < self.queue@[j].sequence && self.queue@[i].timestamp_ms
                <= self.queue@[j].timestamp_ms by {
                assert(self.queue@[i] == old(self).spec_queue()[i + 1]);
                assert(self.queue@[j] == old(self).spec_queue()[j + 1]);
                assert(old(self).spec_queue()[i + 1].sequence < old(self).spec_queue()[j
                    + 1].sequence && old(self).spec_queue()[i + 1].timestamp_ms <= old(
                    self,
                ).spec_queue()[j + 1].timestamp_ms);
            }
            assert forall|i: int|
                0 <= i < self.queue@.len() implies #[trigger] self.queue@[i].sequence <= old(
                self,
            ).spec_last_sequence()->0 && self.queue@[i].timestamp_ms <= old(
                self,
            ).spec_last_timestamp_ms() by {
                assert(self.queue@[i] == old(self).spec_queue()[i + 1]);
            }
        }
        Some(frame)
    }

    /// Number of queued frames.
    pub fn len(&self) -> (r: usize)
        ensures
            r == self.spec_queue().len(),
    {
        self.queue.len()
    }

    /// Frames dropped to overflow since creation.
    pub fn dropped(&self) -> (r: u64)
        ensures
            r == self.spec_dropped(),
    {
        self.dropped
    }
}

/// Frames a well-formed channel delivers are in capture order: of any two
/// queued frames, the later one carries a strictly greater sequence number
/// and a timestamp at least as large.
pub proof fn lemma_delivery_order(ch: FrameChannel, i: int, j: int)
    requires
        ch.wf(),
        0 <= i < j < ch.spec_queue().len(),
    ensures
        ch.spec_queue()[j].sequence > ch.spec_queue()[i].sequence,
        ch.spec_queue()[j].timestamp_ms >= ch.spec_queue()[i].timestamp_ms,
{
    let q = ch.spec_queue();
    assert(q[i].sequence < q[j].sequence && q[i].timestamp_ms <= q[j].timestamp_ms);
}

} // verus!
