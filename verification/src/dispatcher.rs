//! Frame dispatch across capture streams.
//!
//! The dispatcher fans frames from several capture streams into one output
//! queue.  A frame older than the configured age is dropped outright; under
//! backpressure — the output queue past its high-water mark — frames of
//! normal priority are dropped until the queue drains past the low-water
//! mark.

use crate::frame::VideoFrame;
use vstd::prelude::*;

verus! {

/// Relative priority of a capture stream.
#[derive(Debug, Clone, Copy, PartialEq, Eq, Structural)]
pub enum StreamPriority {
    /// Ordinary stream.
    Normal,
    /// Preferred stream.
    High,
    /// Never dropped for backpressure.
    Critical,
}

/// The drain order of a priority: higher ranks are drained first.
pub open spec fn spec_priority_rank(p: StreamPriority) -> int {
    match p {
        StreamPriority::Normal => 0,
        StreamPriority::High => 1,
        StreamPriority::Critical => 2,
    }
}

impl StreamPriority {
    /// The drain order of this priority: higher ranks are drained first.
    pub fn rank(&self) -> (r: u8)
        ensures
            r == spec_priority_rank(*self),
    {
        match self {
            StreamPriority::Normal => 0,
            StreamPriority::High => 1,
            StreamPriority::Critical => 2,
        }
    }
}

/// Configuration of the dispatcher.  Water marks are ratios of the output
/// queue size, in thousandths.
#[derive(Debug, Clone, Copy, PartialEq, Eq, Structural)]
pub struct DispatcherConfig {
    /// Output queue depth.
    pub channel_size: usize,
    /// Drain higher-priority inputs first.
    pub priority_dispatch: bool,
    /// Drop frames older than this, in milliseconds.
    pub max_frame_age_ms: u64,
    /// Drop normal-priority frames while the output queue is congested.
    pub enable_backpressure: bool,
    /// Fill ratio that starts selective dropping, in thousandths.
    pub high_water_permille: u32,
    /// Fill ratio that ends selective dropping, in thousandths.
    pub low_water_permille: u32,
    /// Rotate between equal-priority inputs.
    pub load_balancing: bool,
}

/// The default dispatcher configuration.
pub open spec fn spec_default_dispatcher_config() -> DispatcherConfig {
    DispatcherConfig {
        channel_size: 30,
        priority_dispatch: true,
        max_frame_age_ms: 150,
        enable_backpressure: true,
        high_water_permille: 800,
        low_water_permille: 500,
        load_balancing: true,
    }
}

impl Default for DispatcherConfig {
    /// A 30-frame queue, priority dispatch, a 150 ms age limit, and
    /// backpressure between 80% and 50% fill.
    fn default() -> (r: DispatcherConfig)
        ensures
            r == spec_default_dispatcher_config(),
    {
        DispatcherConfig {
            channel_size: 30,
            priority_dispatch: true,
            max_frame_age_ms: 150,
            enable_backpressure: true,
            high_water_permille: 800,
            low_water_permille: 500,
            load_balancing: true,
        }
    }
}

/// What the dispatcher did with an offered frame.
#[derive(Debug, Clone, Copy, PartialEq, Eq, Structural)]
pub enum DispatchDecision {
    /// The frame joined the output queue.
    Forwarded,
    /// The frame was older than the age limit and was dropped.
    DroppedAged,
    /// The output queue was congested and the frame's priority did not
    /// warrant keeping it.
    DroppedBackpressure,
    /// The output queue was completely full.
    DroppedQueueFull,
}

/// Dispatch statistics.
#[derive(Debug, Clone, Copy, PartialEq, Eq, Structural)]
pub struct DispatcherStats {
    /// Frames offered.
    pub frames_received: u64,
    /// Frames forwarded to the output queue.
    pub frames_forwarded: u64,
    /// Frames dropped for age.
    pub frames_dropped_aged: u64,
    /// Frames dropped under backpressure or a full queue.
    pub frames_dropped_backpressure: u64,
}

/// Dispatcher statistics with all counters at zero.
pub open spec fn spec_zero_dispatcher_stats() -> DispatcherStats {
    DispatcherStats {
        frames_received: 0,
        frames_forwarded: 0,
        frames_dropped_aged: 0,
        frames_dropped_backpressure: 0,
    }
}

impl Default for DispatcherStats {
    /// All counters start at zero.
    fn default() -> (r: DispatcherStats)
        ensures
            r == spec_zero_dispatcher_stats(),
    {
        DispatcherStats {
            frames_received: 0,
            frames_forwarded: 0,
            frames_dropped_aged: 0,
            frames_dropped_backpressure: 0,
        }
    }
}

/// Whether a frame is older than the age limit at time `now_ms`.
pub open spec fn spec_frame_aged(frame_ts_ms: u64, now_ms: u64, max_age_ms: u64) -> bool {
    now_ms > frame_ts_ms && now_ms - frame_ts_ms > max_age_ms
}

/// Offer counters for one capture stream.
#[derive(Debug, Clone, Copy, PartialEq, Eq, Structural)]
pub struct StreamStats {
    /// The stream's id.
    pub stream_id: u32,
    /// Frames this stream offered.
    pub received: u64,
    /// Frames of this stream dropped, for age, backpressure or a full
    /// queue.
    pub dropped: u64,
}

/// Each stream appears at most once in a per-stream counter table.
pub open spec fn spec_stream_ids_unique(s: Seq<StreamStats>) -> bool {
    forall|p: int, q: int|
        0 <= p < q < s.len() ==> #[trigger] s[p].stream_id != #[trigger] s[q].stream_id
}

/// Whether a counter table has a row for the stream.
pub open spec fn spec_has_stream_stats(s: Seq<StreamStats>, id: u32) -> bool {
    exists|i: int| 0 <= i < s.len() && #[trigger] s[i].stream_id == id
}

/// How one offer from stream `id` changes the per-stream counter table:
/// the stream's row — appended at the end if it is new — advances its
/// received counter, and its dropped counter when the frame was dropped;
/// every other row is untouched.
pub open spec fn spec_offer_recorded(
    before: Seq<StreamStats>,
    after: Seq<StreamStats>,
    id: u32,
    was_dropped: bool,
) -> bool {
    if spec_has_stream_stats(before, id) {
        &&& after.len() == before.len()
        &&& exists|i: int|
            0 <= i < before.len() && #[trigger] before[i].stream_id == id && after[i].stream_id
                == id && after[i].received == crate::util::sat_inc(before[i].received)
                && after[i].dropped == (if was_dropped {
                crate::util::sat_inc(before[i].dropped)
            } else {
                before[i].dropped
            }) && (forall|p: int| 0 <= p < before.len() && p != i ==> after[p] == #[trigger] before[p])
    } else {
        after == before.push(
            StreamStats {
                stream_id: id,
                received: 1,
                dropped: if was_dropped {
                    1
                } else {
                    0
                },
            },
        )
    }
}

/// One capture input as the drain scheduler sees it: the stream, its
/// priority, and how many frames wait in its channel.
#[derive(Debug, Clone, Copy, PartialEq, Eq, Structural)]
pub struct InputStatus {
    /// The stream's id.
    pub stream_id: u32,
    /// The stream's priority.
    pub priority: StreamPriority,
    /// Frames waiting in the stream's channel.
    pub queued: usize,
}

/// The rank the drain scheduler compares inputs by: the priority rank under
/// priority dispatch, a constant otherwise.
pub open spec fn spec_sched_rank(config: DispatcherConfig, s: InputStatus) -> int {
    if config.priority_dispatch {
        spec_priority_rank(s.priority)
    } else {
        0
    }
}

/// Where a drain scan begins over `n` inputs: just past the last-served
/// input under load balancing, at the front otherwise.
pub open spec fn spec_scan_start(config: DispatcherConfig, n: int, last_served: int) -> int {
    if config.load_balancing && n > 0 {
        (last_served + 1) % n
    } else {
        0
    }
}

/// The position of input `i` in a scan that starts at `start` and wraps
/// around `n` inputs.
pub open spec fn spec_scan_pos(i: int, start: int, n: int) -> int {
    if i >= start {
        i - start
    } else {
        i - start + n
    }
}

/// Fan-in point from the capture streams to the processing stage.
pub struct FrameDispatcher {
    config: DispatcherConfig,
    output: Vec<VideoFrame>,
    backpressure_active: bool,
    stats: DispatcherStats,
    streams: Vec<StreamStats>,
}

impl FrameDispatcher {
    /// The dispatcher's configuration.
    pub closed spec fn spec_config(self) -> DispatcherConfig {
        self.config
    }

    /// The output queue, oldest first.
    pub closed spec fn spec_output(self) -> Seq<VideoFrame> {
        self.output@
    }

    /// Whether selective dropping is currently active.
    pub closed spec fn spec_backpressure_active(self) -> bool {
        self.backpressure_active
    }

    /// The statistics counters.
    pub closed spec fn spec_stats(self) -> DispatcherStats {
        self.stats
    }

    /// The per-stream counter table.
    pub closed spec fn spec_streams(self) -> Seq<StreamStats> {
        self.streams@
    }

    /// Well-formedness: a positive queue size, valid water-mark ratios in
    /// the right order, the queue within its bound, and one counter row per
    /// stream.
    pub open spec fn wf(self) -> bool {
        &&& self.spec_config().channel_size >= 1
        &&& self.spec_config().low_water_permille <= self.spec_config().high_water_permille
            <= 1000
        &&& self.spec_output().len() <= self.spec_config().channel_size
        &&& spec_stream_ids_unique(self.spec_streams())
    }

    /// Create a dispatcher.
    pub fn new(config: DispatcherConfig) -> (r: FrameDispatcher)
        requires
            config.channel_size >= 1,
            config.low_water_permille <= config.high_water_permille <= 1000,
        ensures
            r.wf(),
            r.spec_config() == config,
            r.spec_output().len() == 0,
            !r.spec_backpressure_active(),
            r.spec_stats() == spec_zero_dispatcher_stats(),
            r.spec_streams().len() == 0,
    {
        FrameDispatcher {
            config,
            output: Vec::new(),
            backpressure_active: false,
            stats: DispatcherStats::default(),
            streams: Vec::new(),
        }
    }

    /// Record one offer from a stream in the per-stream counter table.
    fn record_stream(stats: &mut Vec<StreamStats>, stream_id: u32, was_dropped: bool)
        requires
            spec_stream_ids_unique(old(stats)@),
        ensures
            spec_stream_ids_unique(final(stats)@),
            spec_offer_recorded(old(stats)@, final(stats)@, stream_id, was_dropped),
    {
        let mut i: usize = 0;
        while i < stats.len()
            invariant
                stats@ == old(stats)@,
                spec_stream_ids_unique(old(stats)@),
                0 <= i <= stats@.len(),
                forall|j: int| 0 <= j < i ==> #[trigger] stats@[j].stream_id != stream_id,
            decreases stats@.len() - i,
        {
            if stats[i].stream_id == stream_id {
                let entry = stats[i];
                stats[i] = StreamStats {
                    stream_id: entry.stream_id,
                    received: crate::util::counter_inc(entry.received),
                    dropped: if was_dropped {
                        crate::util::counter_inc(entry.dropped)
                    } else {
                        entry.dropped
                    },
                };
                proof {
                    assert(spec_has_stream_stats(old(stats)@, stream_id));
                    assert forall|p: int, q: int|
                        0 <= p < q < stats@.len() implies #[trigger] stats@[p].stream_id
                        != #[trigger] stats@[q].stream_id by {
                        assert(stats@[p].stream_id == old(stats)@[p].stream_id);
                        assert(stats@[q].stream_id == old(stats)@[q].stream_id);
                    }
                }
                return;
            }
            i = i + 1;
        }
        stats.push(
            StreamStats {
                stream_id,
                received: 1,
                dropped: if was_dropped {
                    1
                } else {
                    0
                },
            },
        );
        proof {
            assert(!spec_has_stream_stats(old(stats)@, stream_id));
            assert forall|p: int, q: int|
                0 <= p < q < stats@.len() implies #[trigger] stats@[p].stream_id
                != #[trigger] stats@[q].stream_id by {
                if q < old(stats)@.len() {
                    assert(stats@[p] == old(stats)@[p]);
                    assert(stats@[q] == old(stats)@[q]);
                } else {
                    assert(stats@[p] == old(stats)@[p]);
                    assert(stats@[q].stream_id == stream_id);
                }
            }
        }
    }

    /// The queue fill at which selective dropping starts.
    pub open spec fn spec_high_mark(self) -> int {
        self.spec_config().channel_size * self.spec_config().high_water_permille / 1000
    }

    /// The queue fill at which selective dropping ends.
    pub open spec fn spec_low_mark(self) -> int {
        self.spec_config().channel_size * self.spec_config().low_water_permille / 1000
    }

    /// Offer one frame from the stream `stream_id` of the given priority at
    /// time `now_ms`.
    ///
    /// A frame older than the age limit is dropped and the aged counter
    /// advances by exactly one.  Otherwise the water marks update the
    /// backpressure mode from the queue fill, and under backpressure a
    /// normal-priority frame is dropped; a full queue drops the frame
    /// whatever its priority.  The stream's own counters record the offer
    /// and, unless the frame was forwarded, the drop.
    pub fn offer(
        &mut self,
        stream_id: u32,
        priority: StreamPriority,
        frame: VideoFrame,
        now_ms: u64,
    ) -> (r: DispatchDecision)
        requires
            old(self).wf(),
        ensures
            final(self).wf(),
            final(self).spec_config() == old(self).spec_config(),
            final(self).spec_stats().frames_received == crate::util::sat_inc(
                old(self).spec_stats().frames_received,
            ),
            spec_offer_recorded(
                old(self).spec_streams(),
                final(self).spec_streams(),
                stream_id,
                r != DispatchDecision::Forwarded,
            ),
            spec_frame_aged(frame.timestamp_ms, now_ms, old(self).spec_config().max_frame_age_ms)
                ==> {
                &&& r == DispatchDecision::DroppedAged
                &&& final(self).spec_output() == old(self).spec_output()
                &&& final(self).spec_stats().frames_dropped_aged == crate::util::sat_inc(
                    old(self).spec_stats().frames_dropped_aged,
                )
                &&& final(self).spec_backpressure_active() == old(self).spec_backpressure_active()
            },
            !spec_frame_aged(frame.timestamp_ms, now_ms, old(self).spec_config().max_frame_age_ms)
                ==> {
                let active = if old(self).spec_config().enable_backpressure {
                    if old(self).spec_output().len() >= old(self).spec_high_mark() {
                        true
                    } else if old(self).spec_output().len() <= old(self).spec_low_mark() {
                        false
                    } else {
                        old(self).spec_backpressure_active()
                    }
                } else {
                    false
                };
                &&& final(self).spec_backpressure_active() == active
                &&& if active && priority == StreamPriority::Normal {
                    &&& r == DispatchDecision::DroppedBackpressure
                    &&& final(self).spec_output() == old(self).spec_output()
                    &&& final(self).spec_stats().frames_dropped_backpressure
                        == crate::util::sat_inc(
                        old(self).spec_stats().frames_dropped_backpressure,
                    )
                } else if old(self).spec_output().len() >= old(self).spec_config().channel_size {
                    &&& r == DispatchDecision::DroppedQueueFull
                    &&& final(self).spec_output() == old(self).spec_output()
                    &&& final(self).spec_stats().frames_dropped_backpressure
                        == crate::util::sat_inc(
                        old(self).spec_stats().frames_dropped_backpressure,
                    )
                } else {
                    &&& r == DispatchDecision::Forwarded
                    &&& final(self).spec_output() == old(self).spec_output().push(frame)
                    &&& final(self).spec_stats().frames_forwarded == crate::util::sat_inc(
                        old(self).spec_stats().frames_forwarded,
                    )
                }
            },
    {
        self.stats.frames_received = crate::util::counter_inc(self.stats.frames_received);
        if now_ms > frame.timestamp_ms && now_ms - frame.timestamp_ms
            > self.config.max_frame_age_ms {
            self.stats.frames_dropped_aged = crate::util::counter_inc(
                self.stats.frames_dropped_aged,
            );
            Self::record_stream(&mut self.streams, stream_id, true);
            return DispatchDecision::DroppedAged;
        }
        if self.config.enable_backpressure {
            proof {
                assert(self.config.channel_size * self.config.high_water_permille <= usize::MAX
                    * 1000) by (nonlinear_arith)
                    requires
                        self.config.channel_size <= usize::MAX,
                        self.config.high_water_permille <= 1000,
                ;
                assert(self.config.channel_size * self.config.low_water_permille <= usize::MAX
                    * 1000) by (nonlinear_arith)
                    requires
                        self.config.channel_size <= usize::MAX,
                        self.config.low_water_permille <= 1000,
                ;
            }
            let high_mark = ((self.config.channel_size as u128) * (self.config.high_water_permille
                as u128) / 1000) as usize;
            let low_mark = ((self.config.channel_size as u128) * (self.config.low_water_permille
                as u128) / 1000) as usize;
            if self.output.len() >= high_mark {
                self.backpressure_active = true;
            } else if self.output.len() <= low_mark {
                self.backpressure_active = false;
            }
        } else {
            self.backpressure_active = false;
        }
        if self.backpressure_active && priority == StreamPriority::Normal {
            self.stats.frames_dropped_backpressure = crate::util::counter_inc(
                self.stats.frames_dropped_backpressure,
            );
            Self::record_stream(&mut self.streams, stream_id, true);
            return DispatchDecision::DroppedBackpressure;
        }
        if self.output.len() >= self.config.channel_size {
            self.stats.frames_dropped_backpressure = crate::util::counter_inc(
                self.stats.frames_dropped_backpressure,
            );
            Self::record_stream(&mut self.streams, stream_id, true);
            return DispatchDecision::DroppedQueueFull;
        }
        self.output.push(frame);
        self.stats.frames_forwarded = crate::util::counter_inc(self.stats.frames_forwarded);
        Self::record_stream(&mut self.streams, stream_id, false);
        DispatchDecision::Forwarded
    }

    /// Pick the input to drain next.
    ///
    /// Only inputs with queued frames are candidates.  Under priority
    /// dispatch no candidate outranks the chosen one; among candidates of
    /// the chosen rank, the first in scan order wins, and under load
    /// balancing the scan starts just past `last_served`, which rotates
    /// equal-priority inputs.  Returns the index into `inputs`, or `None`
    /// when every input is empty.
    pub fn next_input(&self, inputs: &Vec<InputStatus>, last_served: usize) -> (r: Option<usize>)
        ensures
            (r is Some) == exists|i: int|
                0 <= i < inputs@.len() && #[trigger] inputs@[i].queued > 0,
            r is Some ==> {
                let c = r->Some_0 as int;
                let n = inputs@.len() as int;
                let start = spec_scan_start(self.spec_config(), n, last_served as int);
                &&& 0 <= c < n
                &&& inputs@[c].queued > 0
                &&& forall|j: int|
                    0 <= j < n && #[trigger] inputs@[j].queued > 0 ==> spec_sched_rank(
                        self.spec_config(),
                        inputs@[j],
                    ) <= spec_sched_rank(self.spec_config(), inputs@[c])
                &&& forall|j: int|
                    0 <= j < n && #[trigger] inputs@[j].queued > 0 && spec_sched_rank(
                        self.spec_config(),
                        inputs@[j],
                    ) == spec_sched_rank(self.spec_config(), inputs@[c]) ==> spec_scan_pos(
                        c,
                        start,
                        n,
                    ) <= spec_scan_pos(j, start, n)
            },
    {
        let n = inputs.len();
        if n == 0 {
            return None;
        }
        let start: usize = if self.config.load_balancing {
            if last_served < n - 1 {
                proof {
                    vstd::arithmetic::div_mod::lemma_small_mod(
                        (last_served + 1) as nat,
                        n as nat,
                    );
                }
                last_served + 1
            } else {
                // One step past the last-served input, wrapped; subtracting
                // a full turn first keeps the sum in range.
                let wrapped = (last_served - (n - 1)) % n;
                proof {
                    vstd::arithmetic::div_mod::lemma_mod_sub_multiples_vanish(
                        last_served + 1,
                        n as int,
                    );
                }
                wrapped
            }
        } else {
            0
        };
        let ghost cfg = self.config;
        let mut best: Option<usize> = None;
        let mut best_rank: u8 = 0;
        let mut k: usize = 0;
        while k < n
            invariant
                n == inputs@.len(),
                n >= 1,
                0 <= start < n,
                start == spec_scan_start(cfg, n as int, last_served as int),
                cfg == self.config,
                0 <= k <= n,
                match best {
                    None => forall|j: int|
                        0 <= j < n && spec_scan_pos(j, start as int, n as int) < k
                            ==> #[trigger] inputs@[j].queued == 0,
                    Some(b) => {
                        &&& 0 <= b < n
                        &&& inputs@[b as int].queued > 0
                        &&& spec_scan_pos(b as int, start as int, n as int) < k
                        &&& best_rank == spec_sched_rank(cfg, inputs@[b as int])
                        &&& forall|j: int|
                            0 <= j < n && spec_scan_pos(j, start as int, n as int) < k
                                && #[trigger] inputs@[j].queued > 0 ==> spec_sched_rank(
                                cfg,
                                inputs@[j],
                            ) < best_rank as int || (spec_sched_rank(cfg, inputs@[j])
                                == best_rank as int && spec_scan_pos(
                                b as int,
                                start as int,
                                n as int,
                            ) <= spec_scan_pos(j, start as int, n as int))
                    },
                },
            decreases n - k,
        {
            let idx: usize = if k < n - start {
                start + k
            } else {
                k - (n - start)
            };
            proof {
                assert(spec_scan_pos(idx as int, start as int, n as int) == k);
            }
            let status = inputs[idx];
            if status.queued > 0 {
                let rank: u8 = if self.config.priority_dispatch {
                    status.priority.rank()
                } else {
                    0
                };
                let take = match best {
                    None => true,
                    Some(_) => rank > best_rank,
                };
                if take {
                    best = Some(idx);
                    best_rank = rank;
                }
            }
            k = k + 1;
        }
        proof {
            assert forall|j: int| 0 <= j < n implies spec_scan_pos(
                j,
                start as int,
                n as int,
            ) < n as int by {}
        }
        best
    }

    /// Take the oldest frame from the output queue.
    pub fn take_output(&mut self) -> (r: Option<VideoFrame>)
        requires
            old(self).wf(),
        ensures
            final(self).wf(),
            final(self).spec_config() == old(self).spec_config(),
            final(self).spec_stats() == old(self).spec_stats(),
            final(self).spec_streams() == old(self).spec_streams(),
            final(self).spec_backpressure_active() == old(self).spec_backpressure_active(),
            (r is Some) == (old(self).spec_output().len() > 0),
            r is Some ==> r->Some_0 == old(self).spec_output()[0] && final(self).spec_output()
                == old(self).spec_output().drop_first(),
            r is None ==> final(self).spec_output() == old(self).spec_output(),
    {
        if self.output.len() == 0 {
            return None;
        }
        let frame = self.output.remove(0);
        proof {
            assert(old(self).spec_output().remove(0) =~= old(self).spec_output().drop_first());
        }
        Some(frame)
    }

    /// Number of frames waiting in the output queue.
    pub fn output_len(&self) -> (r: usize)
        ensures
            r == self.spec_output().len(),
    {
        self.output.len()
    }

    /// The statistics counters.
    pub fn stats(&self) -> (r: &DispatcherStats)
        ensures
            *r == self.spec_stats(),
    {
        &self.stats
    }

    /// The per-stream counter table, one row per stream that has offered a
    /// frame, in first-offer order.
    pub fn stream_stats(&self) -> (r: &Vec<StreamStats>)
        ensures
            r@ == self.spec_streams(),
    {
        &self.streams
    }
}

} // verus!
