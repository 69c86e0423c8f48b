//! Adaptive bitrate control.
//!
//! Tracks per-frame encoding statistics and network feedback and recommends
//! a bitrate, a quality level, and per-frame skip decisions.  Ratios are
//! carried as integers in thousandths (per mille), so every decision is
//! exact: the congestion level ranges over `0..=1000`.

use crate::config::{AdaptiveBitrateConfig, QualityPreset};
use crate::util::sat_inc;
use vstd::prelude::*;

verus! {

/// One encoded frame's timing record.
#[derive(Debug, Clone, Copy, PartialEq, Eq, Structural)]
pub struct FrameRecord {
    /// Time spent encoding the frame, in microseconds.
    pub encode_time_us: u64,
    /// Encoded frame size in bytes.
    pub frame_size: u64,
}

/// Bitrate control statistics.
#[derive(Debug, Clone, Copy, PartialEq, Eq, Structural)]
pub struct BitrateStats {
    /// Frames recorded.
    pub frames_recorded: u64,
    /// Frames dropped by the encoder.
    pub frames_dropped: u64,
    /// Frames skipped for congestion.
    pub frames_skipped: u64,
    /// Total encoded bytes, saturating.
    pub total_bytes: u64,
    /// Number of bitrate increases.
    pub bitrate_increases: u64,
    /// Number of bitrate decreases.
    pub bitrate_decreases: u64,
    /// Average encode time over the last window, in microseconds.
    pub avg_encode_time_us: u64,
    /// Average frame size over the last window, in bytes.
    pub avg_frame_size: u64,
    /// Estimated delivered bitrate in kbps, saturating.
    pub estimated_bitrate_kbps: u32,
}

/// Bitrate statistics with all fields at zero.
pub open spec fn spec_zero_bitrate_stats() -> BitrateStats {
    BitrateStats {
        frames_recorded: 0,
        frames_dropped: 0,
        frames_skipped: 0,
        total_bytes: 0,
        bitrate_increases: 0,
        bitrate_decreases: 0,
        avg_encode_time_us: 0,
        avg_frame_size: 0,
        estimated_bitrate_kbps: 0,
    }
}

impl Default for BitrateStats {
    /// All counters start at zero.
    fn default() -> (r: BitrateStats)
        ensures
            r == spec_zero_bitrate_stats(),
    {
        BitrateStats {
            frames_recorded: 0,
            frames_dropped: 0,
            frames_skipped: 0,
            total_bytes: 0,
            bitrate_increases: 0,
            bitrate_decreases: 0,
            avg_encode_time_us: 0,
            avg_frame_size: 0,
            estimated_bitrate_kbps: 0,
        }
    }
}

/// Cap a congestion value at the full-scale 1000 per mille.
pub open spec fn spec_cap1000(x: int) -> int {
    if x > 1000 {
        1000
    } else {
        x
    }
}

/// Add to a counter, saturating at `u64::MAX`.
pub open spec fn spec_sat_add(a: u64, b: u64) -> u64 {
    if a + b > u64::MAX {
        u64::MAX
    } else {
        (a + b) as u64
    }
}

/// The round-trip-time target of a preset, in milliseconds.
pub open spec fn spec_target_rtt_ms(p: QualityPreset) -> int {
    match p {
        QualityPreset::LowLatency => 50,
        QualityPreset::Balanced => 150,
        QualityPreset::HighQuality => 300,
    }
}

/// The base quality level of a preset.
pub open spec fn spec_base_quality(p: QualityPreset) -> int {
    match p {
        QualityPreset::LowLatency => 30,
        QualityPreset::Balanced => 50,
        QualityPreset::HighQuality => 80,
    }
}

/// Under congestion, every `spec_skip_threshold`-th frame is skipped.
pub open spec fn spec_skip_threshold(p: QualityPreset) -> int {
    match p {
        QualityPreset::LowLatency => 2,
        QualityPreset::Balanced => 3,
        QualityPreset::HighQuality => 4,
    }
}

/// The congestion level after one round of network feedback: packet loss
/// above 5% adds the loss ratio, a round-trip time above the preset's target
/// adds a tenth of the relative excess, and good conditions decay the level
/// by 50 per mille.
pub open spec fn spec_feedback_congestion(
    cong: int,
    loss_permille: int,
    rtt_ms: int,
    p: QualityPreset,
) -> int {
    let c1 = if loss_permille > 50 {
        spec_cap1000(cong + loss_permille)
    } else {
        cong
    };
    let target = spec_target_rtt_ms(p);
    let c2 = if rtt_ms > target {
        spec_cap1000(c1 + (rtt_ms - target) * 100 / target)
    } else {
        c1
    };
    if loss_permille < 10 && rtt_ms < target {
        if c2 >= 50 {
            c2 - 50
        } else {
            0
        }
    } else {
        c2
    }
}

/// Total encoding time of a window of records, in microseconds.
pub open spec fn spec_sum_encode(h: Seq<FrameRecord>) -> int
    decreases h.len(),
{
    if h.len() == 0 {
        0
    } else {
        spec_sum_encode(h.drop_last()) + h.last().encode_time_us
    }
}

/// Total encoded bytes of a window of records.
pub open spec fn spec_sum_bytes(h: Seq<FrameRecord>) -> int
    decreases h.len(),
{
    if h.len() == 0 {
        0
    } else {
        spec_sum_bytes(h.drop_last()) + h.last().frame_size
    }
}

/// The history after appending a record and trimming the window from the
/// front.
pub open spec fn spec_window_push(h: Seq<FrameRecord>, rec: FrameRecord, window: int) -> Seq<
    FrameRecord,
> {
    let pushed = h.push(rec);
    if pushed.len() <= window {
        pushed
    } else {
        pushed.skip(pushed.len() - window)
    }
}

/// Whether an adjustment reduces the bitrate: congestion above 30%.
pub open spec fn spec_adjust_reduces(cong: int) -> bool {
    cong > 300
}

/// Whether an adjustment raises the bitrate: encoding uses less than half
/// the frame budget and congestion is below 10%.
pub open spec fn spec_adjust_raises(cong: int, h: Seq<FrameRecord>, target_fps: int) -> bool {
    &&& !spec_adjust_reduces(cong)
    &&& 2 * (spec_sum_encode(h) / h.len() as int) < 1_000_000int / target_fps
    &&& cong < 100
}

/// Clamp a value to a closed range.
pub open spec fn spec_clamp(v: int, lo: int, hi: int) -> int {
    if v < lo {
        lo
    } else if v > hi {
        hi
    } else {
        v
    }
}

/// The bitrate after one adjustment over a non-empty window: reduced by
/// `0.2 * congestion` under congestion, raised by a tenth when encoding is
/// fast and the network is clear, and clamped to the configured range.
pub open spec fn spec_adjusted_bitrate(
    cur: u32,
    cong: int,
    h: Seq<FrameRecord>,
    cfg: AdaptiveBitrateConfig,
) -> int {
    let raw = if spec_adjust_reduces(cong) {
        cur * (5000 - cong) / 5000
    } else if spec_adjust_raises(cong, h, cfg.target_fps as int) {
        cur * 11 / 10
    } else {
        cur as int
    };
    spec_clamp(raw, cfg.min_bitrate_kbps as int, cfg.max_bitrate_kbps as int)
}

/// The estimated delivered bitrate of a non-empty window, in kbps,
/// saturating at `u32::MAX`.
pub open spec fn spec_estimated_kbps(h: Seq<FrameRecord>, target_fps: int) -> int {
    let est = (spec_sum_bytes(h) / h.len() as int) * 8 * target_fps / 1000;
    if est > u32::MAX {
        u32::MAX as int
    } else {
        est
    }
}

/// Bitrate controller for adaptive streaming.
///
/// Callers hand each operation the current monotonic time in milliseconds,
/// so the rate-limited adjustment schedule is explicit and every decision is
/// a function of its inputs.
pub struct BitrateController {
    config: AdaptiveBitrateConfig,
    current_bitrate: u32,
    frame_history: Vec<FrameRecord>,
    congestion_permille: u32,
    skip_counter: u32,
    stats: BitrateStats,
    last_adjustment_ms: u64,
    adjustment_interval_ms: u64,
}

impl BitrateController {
    /// The controller's configuration.
    pub closed spec fn spec_config(self) -> AdaptiveBitrateConfig {
        self.config
    }

    /// The current recommended bitrate in kbps.
    pub closed spec fn spec_current_bitrate(self) -> u32 {
        self.current_bitrate
    }

    /// The recorded window of frame records, oldest first.
    pub closed spec fn spec_history(self) -> Seq<FrameRecord> {
        self.frame_history@
    }

    /// The congestion level in per mille.
    pub closed spec fn spec_congestion(self) -> u32 {
        self.congestion_permille
    }

    /// The skip counter.
    pub closed spec fn spec_skip_counter(self) -> u32 {
        self.skip_counter
    }

    /// The statistics counters.
    pub closed spec fn spec_stats(self) -> BitrateStats {
        self.stats
    }

    /// The time of the last bitrate adjustment, in milliseconds.
    pub closed spec fn spec_last_adjustment_ms(self) -> u64 {
        self.last_adjustment_ms
    }

    /// The minimum time between adjustments, in milliseconds.
    pub closed spec fn spec_adjustment_interval_ms(self) -> u64 {
        self.adjustment_interval_ms
    }

    /// Well-formedness: a non-empty valid bitrate range, a target frame
    /// rate, the bitrate inside the range, the congestion level a valid per
    /// mille, and the history inside the window.
    pub open spec fn wf(self) -> bool {
        &&& self.spec_config().min_bitrate_kbps <= self.spec_config().max_bitrate_kbps
        &&& self.spec_config().target_fps >= 1
        &&& self.spec_config().min_bitrate_kbps <= self.spec_current_bitrate()
            <= self.spec_config().max_bitrate_kbps
        &&& self.spec_congestion() <= 1000
        &&& self.spec_history().len() <= self.spec_config().calculation_window
        &&& self.spec_skip_counter() <= 4
        &&& self.spec_adjustment_interval_ms() == 100
    }

    /// Create a controller.  The initial bitrate is the midpoint of the
    /// configured range.
    pub fn new(config: AdaptiveBitrateConfig) -> (r: BitrateController)
        requires
            config.min_bitrate_kbps <= config.max_bitrate_kbps,
            config.target_fps >= 1,
        ensures
            r.wf(),
            r.spec_config() == config,
            r.spec_current_bitrate() == (config.min_bitrate_kbps + config.max_bitrate_kbps) as int
                / 2,
            r.spec_congestion() == 0,
            r.spec_skip_counter() == 0,
            r.spec_history().len() == 0,
            r.spec_stats() == spec_zero_bitrate_stats(),
            r.spec_last_adjustment_ms() == 0,
    {
        let initial = ((config.min_bitrate_kbps as u64 + config.max_bitrate_kbps as u64)
            / 2) as u32;
        BitrateController {
            config,
            current_bitrate: initial,
            frame_history: Vec::new(),
            congestion_permille: 0,
            skip_counter: 0,
            stats: BitrateStats::default(),
            last_adjustment_ms: 0,
            adjustment_interval_ms: 100,
        }
    }

    /// Record one encoded frame at time `now_ms`, and adjust the bitrate
    /// when at least 100 ms have passed since the last adjustment.
    pub fn record_frame(&mut self, encode_time_us: u64, frame_size: u64, now_ms: u64)
        requires
            old(self).wf(),
        ensures
            final(self).wf(),
            final(self).spec_config() == old(self).spec_config(),
            final(self).spec_congestion() == old(self).spec_congestion(),
            final(self).spec_skip_counter() == old(self).spec_skip_counter(),
            final(self).spec_history() == spec_window_push(
                old(self).spec_history(),
                FrameRecord { encode_time_us, frame_size },
                old(self).spec_config().calculation_window as int,
            ),
            final(self).spec_stats().frames_recorded == sat_inc(
                old(self).spec_stats().frames_recorded,
            ),
            final(self).spec_stats().total_bytes == spec_sat_add(
                old(self).spec_stats().total_bytes,
                frame_size,
            ),
            final(self).spec_stats().frames_dropped == old(self).spec_stats().frames_dropped,
            final(self).spec_stats().frames_skipped == old(self).spec_stats().frames_skipped,
            if now_ms >= old(self).spec_last_adjustment_ms() + 100
                && final(self).spec_history().len() > 0 {
                &&& final(self).spec_current_bitrate() == spec_adjusted_bitrate(
                    old(self).spec_current_bitrate(),
                    old(self).spec_congestion() as int,
                    final(self).spec_history(),
                    old(self).spec_config(),
                )
                &&& final(self).spec_last_adjustment_ms() == now_ms
                &&& final(self).spec_stats().avg_encode_time_us == spec_sum_encode(
                    final(self).spec_history(),
                ) / final(self).spec_history().len() as int
                &&& final(self).spec_stats().avg_frame_size == spec_sum_bytes(
                    final(self).spec_history(),
                ) / final(self).spec_history().len() as int
                &&& final(self).spec_stats().estimated_bitrate_kbps == spec_estimated_kbps(
                    final(self).spec_history(),
                    old(self).spec_config().target_fps as int,
                )
                &&& final(self).spec_stats().bitrate_decreases == if spec_adjust_reduces(
                    old(self).spec_congestion() as int,
                ) {
                    sat_inc(old(self).spec_stats().bitrate_decreases)
                } else {
                    old(self).spec_stats().bitrate_decreases
                }
                &&& final(self).spec_stats().bitrate_increases == if spec_adjust_raises(
                    old(self).spec_congestion() as int,
                    final(self).spec_history(),
                    old(self).spec_config().target_fps as int,
                ) {
                    sat_inc(old(self).spec_stats().bitrate_increases)
                } else {
                    old(self).spec_stats().bitrate_increases
                }
            } else {
                &&& final(self).spec_current_bitrate() == old(self).spec_current_bitrate()
                &&& final(self).spec_last_adjustment_ms() == old(self).spec_last_adjustment_ms()
                &&& final(self).spec_stats().bitrate_decreases == old(
                    self,
                ).spec_stats().bitrate_decreases
                &&& final(self).spec_stats().bitrate_increases == old(
                    self,
                ).spec_stats().bitrate_increases
            },
    {
        let record = FrameRecord { encode_time_us, frame_size };
        self.frame_history.push(record);
        while self.frame_history.len() > self.config.calculation_window
            invariant
                self.frame_history@.len() <= old(self).spec_history().len() + 1,
                spec_window_push(
                    old(self).spec_history(),
                    FrameRecord { encode_time_us, frame_size },
                    self.config.calculation_window as int,
                ) == if self.frame_history@.len() <= self.config.calculation_window {
                    self.frame_history@
                } else {
                    self.frame_history@.skip(
                        self.frame_history@.len() - self.config.calculation_window,
                    )
                },
                self.config == old(self).spec_config(),
                self.current_bitrate == old(self).spec_current_bitrate(),
                self.congestion_permille == old(self).spec_congestion(),
                self.skip_counter == old(self).spec_skip_counter(),
                self.stats == old(self).spec_stats(),
                self.last_adjustment_ms == old(self).spec_last_adjustment_ms(),
                self.adjustment_interval_ms == old(self).adjustment_interval_ms,
            decreases self.frame_history.len(),
        {
            proof {
                assert(self.frame_history@.skip(1).len() == self.frame_history@.len() - 1);
                assert(self.frame_history@.remove(0) =~= self.frame_history@.skip(1));
                if self.frame_history@.len() - 1 > self.config.calculation_window {
                    assert(self.frame_history@.skip(1).skip(
                        self.frame_history@.len() - 1 - self.config.calculation_window,
                    ) =~= self.frame_history@.skip(
                        self.frame_history@.len() - self.config.calculation_window,
                    ));
                }
            }
            self.frame_history.remove(0);
        }
        self.stats.frames_recorded = crate::util::counter_inc(self.stats.frames_recorded);
        self.stats.total_bytes = if self.stats.total_bytes > u64::MAX - frame_size {
            u64::MAX
        } else {
            self.stats.total_bytes + frame_size
        };
        if now_ms >= self.last_adjustment_ms && now_ms - self.last_adjustment_ms
            >= self.adjustment_interval_ms {
            self.adjust_bitrate(now_ms);
        }
    }

    /// One rate-limited bitrate adjustment at time `now_ms`: average the
    /// window, reduce under congestion, raise when encoding is fast and the
    /// network is clear, and clamp to the configured range.
    fn adjust_bitrate(&mut self, now_ms: u64)
        requires
            old(self).wf(),
        ensures
            final(self).wf(),
            final(self).spec_config() == old(self).spec_config(),
            final(self).spec_congestion() == old(self).spec_congestion(),
            final(self).spec_skip_counter() == old(self).spec_skip_counter(),
            final(self).spec_history() == old(self).spec_history(),
            final(self).spec_stats().frames_recorded == old(self).spec_stats().frames_recorded,
            final(self).spec_stats().total_bytes == old(self).spec_stats().total_bytes,
            final(self).spec_stats().frames_dropped == old(self).spec_stats().frames_dropped,
            final(self).spec_stats().frames_skipped == old(self).spec_stats().frames_skipped,
            old(self).spec_history().len() == 0 ==> *final(self) == *old(self),
            old(self).spec_history().len() > 0 ==> {
                &&& final(self).spec_current_bitrate() == spec_adjusted_bitrate(
                    old(self).spec_current_bitrate(),
                    old(self).spec_congestion() as int,
                    old(self).spec_history(),
                    old(self).spec_config(),
                )
                &&& final(self).spec_last_adjustment_ms() == now_ms
                &&& final(self).spec_stats().avg_encode_time_us == spec_sum_encode(
                    old(self).spec_history(),
                ) / old(self).spec_history().len() as int
                &&& final(self).spec_stats().avg_frame_size == spec_sum_bytes(
                    old(self).spec_history(),
                ) / old(self).spec_history().len() as int
                &&& final(self).spec_stats().estimated_bitrate_kbps == spec_estimated_kbps(
                    old(self).spec_history(),
                    old(self).spec_config().target_fps as int,
                )
                &&& final(self).spec_stats().bitrate_decreases == if spec_adjust_reduces(
                    old(self).spec_congestion() as int,
                ) {
                    sat_inc(old(self).spec_stats().bitrate_decreases)
                } else {
                    old(self).spec_stats().bitrate_decreases
                }
                &&& final(self).spec_stats().bitrate_increases == if spec_adjust_raises(
                    old(self).spec_congestion() as int,
                    old(self).spec_history(),
                    old(self).spec_config().target_fps as int,
                ) {
                    sat_inc(old(self).spec_stats().bitrate_increases)
                } else {
                    old(self).spec_stats().bitrate_increases
                }
            },
    {
        if self.frame_history.len() == 0 {
            return ;
        }
        let count = self.frame_history.len();
        let mut total_time: u128 = 0;
        let mut total_size: u128 = 0;
        let mut i: usize = 0;
        while i < count
            invariant
                count == self.frame_history@.len(),
                0 <= i <= count,
                total_time == spec_sum_encode(self.frame_history@.take(i as int)),
                total_size == spec_sum_bytes(self.frame_history@.take(i as int)),
                total_time <= i * 0xffff_ffff_ffff_ffffu128,
                total_size <= i * 0xffff_ffff_ffff_ffffu128,
            decreases count - i,
        {
            proof {
                assert(self.frame_history@.take(i as int + 1).drop_last() =~= self.frame_history@.take(i as int));
                assert((i + 1) * 0xffff_ffff_ffff_ffffu128 == i * 0xffff_ffff_ffff_ffffu128
                    + 0xffff_ffff_ffff_ffffu128) by (nonlinear_arith);
                assert(count * 0xffff_ffff_ffff_ffffu128 <= 0xffff_ffff_ffff_ffffu128
                    * 0xffff_ffff_ffff_ffffu128) by (nonlinear_arith)
                    requires
                        count <= 0xffff_ffff_ffff_ffffu128,
                ;
            }
            let rec = self.frame_history[i];
            total_time = total_time + rec.encode_time_us as u128;
            total_size = total_size + rec.frame_size as u128;
            i = i + 1;
        }
        proof {
            assert(self.frame_history@.take(count as int) =~= self.frame_history@);
            assert(total_time / count as u128 <= 0xffff_ffff_ffff_ffffu128) by (nonlinear_arith)
                requires
                    count >= 1,
                    total_time <= count * 0xffff_ffff_ffff_ffffu128,
            ;
            assert(total_size / count as u128 <= 0xffff_ffff_ffff_ffffu128) by (nonlinear_arith)
                requires
                    count >= 1,
                    total_size <= count * 0xffff_ffff_ffff_ffffu128,
            ;
        }
        let avg_encode_us = (total_time / count as u128) as u64;
        let avg_frame_bytes = (total_size / count as u128) as u64;
        let target_frame_time_us: u64 = 1_000_000 / self.config.target_fps as u64;
        proof {
            assert((avg_frame_bytes as u128) * 8 * (self.config.target_fps as u128)
                <= 0xffff_ffff_ffff_ffffu128 * 8 * 0xffff_ffffu128) by (nonlinear_arith)
                requires
                    avg_frame_bytes <= 0xffff_ffff_ffff_ffffu128,
                    self.config.target_fps <= 0xffff_ffffu128,
            ;
        }
        let estimated: u128 = (avg_frame_bytes as u128) * 8 * (self.config.target_fps as u128)
            / 1000;
        let estimated_kbps: u32 = if estimated > u32::MAX as u128 {
            u32::MAX
        } else {
            estimated as u32
        };
        let cur = self.current_bitrate;
        let cong = self.congestion_permille;
        let mut new_bitrate: u32 = cur;
        if cong > 300 {
            let factor: u64 = 5000 - cong as u64;
            proof {
                assert((cur as int) * (factor as int) <= (cur as int) * 5000) by (nonlinear_arith)
                    requires
                        0 <= factor <= 5000 && cur >= 0,
                ;
                assert((cur as int) * 5000 <= 0xffff_ffffint * 5000) by (nonlinear_arith)
                    requires
                        0 <= cur <= 0xffff_ffffint,
                ;
                assert(0 <= (cur as int) * (factor as int) / 5000 <= cur as int)
                    by (nonlinear_arith)
                    requires
                        0 <= factor <= 5000 && cur >= 0,
                ;
            }
            new_bitrate = ((cur as u64) * factor / 5000) as u32;
            self.stats.bitrate_decreases = crate::util::counter_inc(self.stats.bitrate_decreases);
        } else if avg_encode_us < u64::MAX / 2 && 2 * avg_encode_us < target_frame_time_us && cong
            < 100 {
            proof {
                assert((cur as int) * 11 <= 0xffff_ffffint * 11) by (nonlinear_arith)
                    requires
                        0 <= cur <= 0xffff_ffffint,
                ;
            }
            new_bitrate = if (cur as u64) * 11 / 10 > u32::MAX as u64 {
                u32::MAX
            } else {
                ((cur as u64) * 11 / 10) as u32
            };
            self.stats.bitrate_increases = crate::util::counter_inc(self.stats.bitrate_increases);
        }
        proof {
            assert(target_frame_time_us <= 1_000_000);
            assert(2 * (avg_encode_us as int) < target_frame_time_us as int ==> avg_encode_us
                < u64::MAX / 2);
        }
        if new_bitrate < self.config.min_bitrate_kbps {
            new_bitrate = self.config.min_bitrate_kbps;
        }
        if new_bitrate > self.config.max_bitrate_kbps {
            new_bitrate = self.config.max_bitrate_kbps;
        }
        self.current_bitrate = new_bitrate;
        self.last_adjustment_ms = now_ms;
        self.stats.avg_encode_time_us = avg_encode_us;
        self.stats.avg_frame_size = avg_frame_bytes;
        self.stats.estimated_bitrate_kbps = estimated_kbps;
    }

    /// Record a dropped frame: congestion rises by a fifth of full scale.
    pub fn record_dropped_frame(&mut self)
        requires
            old(self).wf(),
        ensures
            final(self).wf(),
            final(self).spec_congestion() == spec_cap1000(old(self).spec_congestion() + 200),
            final(self).spec_stats() == (BitrateStats {
                frames_dropped: sat_inc(old(self).spec_stats().frames_dropped),
                ..old(self).spec_stats()
            }),
            final(self).spec_config() == old(self).spec_config(),
            final(self).spec_current_bitrate() == old(self).spec_current_bitrate(),
            final(self).spec_history() == old(self).spec_history(),
            final(self).spec_skip_counter() == old(self).spec_skip_counter(),
            final(self).spec_last_adjustment_ms() == old(self).spec_last_adjustment_ms(),
    {
        self.stats.frames_dropped = crate::util::counter_inc(self.stats.frames_dropped);
        self.congestion_permille = if self.congestion_permille + 200 > 1000 {
            1000
        } else {
            self.congestion_permille + 200
        };
    }

    /// Record network feedback: the packet-loss ratio in per mille and the
    /// measured round-trip time in milliseconds.
    pub fn record_network_feedback(&mut self, loss_permille: u32, rtt_ms: u32)
        requires
            old(self).wf(),
            loss_permille <= 1000,
        ensures
            final(self).wf(),
            final(self).spec_congestion() == spec_feedback_congestion(
                old(self).spec_congestion() as int,
                loss_permille as int,
                rtt_ms as int,
                old(self).spec_config().quality_preset,
            ),
            final(self).spec_stats() == old(self).spec_stats(),
            final(self).spec_config() == old(self).spec_config(),
            final(self).spec_current_bitrate() == old(self).spec_current_bitrate(),
            final(self).spec_history() == old(self).spec_history(),
            final(self).spec_skip_counter() == old(self).spec_skip_counter(),
            final(self).spec_last_adjustment_ms() == old(self).spec_last_adjustment_ms(),
    {
        if loss_permille > 50 {
            self.congestion_permille = if self.congestion_permille + loss_permille > 1000 {
                1000
            } else {
                self.congestion_permille + loss_permille
            };
        }
        let target_rtt: u32 = match self.config.quality_preset {
            QualityPreset::LowLatency => 50,
            QualityPreset::Balanced => 150,
            QualityPreset::HighQuality => 300,
        };
        if rtt_ms > target_rtt {
            let factor = ((rtt_ms - target_rtt) as u64) * 100 / (target_rtt as u64);
            let bumped = if (self.congestion_permille as u64) + factor > 1000 {
                1000
            } else {
                self.congestion_permille + factor as u32
            };
            self.congestion_permille = bumped;
        }
        if loss_permille < 10 && rtt_ms < target_rtt {
            self.congestion_permille = if self.congestion_permille >= 50 {
                self.congestion_permille - 50
            } else {
                0
            };
        }
    }

    /// The recommended bitrate, always inside the configured range.
    pub fn recommended_bitrate(&self) -> (r: u32)
        requires
            self.wf(),
        ensures
            r == self.spec_current_bitrate(),
            self.spec_config().min_bitrate_kbps <= r <= self.spec_config().max_bitrate_kbps,
    {
        self.current_bitrate
    }

    /// The recommended quality level: the preset's base quality scaled down
    /// by half the congestion level, held to `10..=100`.
    pub fn recommended_quality(&self) -> (r: u8)
        requires
            self.wf(),
        ensures
            r == spec_clamp(
                spec_base_quality(self.spec_config().quality_preset) * (2000
                    - self.spec_congestion()) / 2000,
                10,
                100,
            ),
            10 <= r <= 100,
    {
        let base: u32 = match self.config.quality_preset {
            QualityPreset::LowLatency => 30,
            QualityPreset::Balanced => 50,
            QualityPreset::HighQuality => 80,
        };
        let adjusted = base * (2000 - self.congestion_permille) / 2000;
        let clamped = if adjusted < 10 {
            10
        } else if adjusted > 100 {
            100
        } else {
            adjusted
        };
        clamped as u8
    }

    /// Decide whether to skip the current frame: below half-scale congestion
    /// nothing is skipped and the counter resets; above it, every
    /// `spec_skip_threshold`-th call is skipped.
    pub fn should_skip_frame(&mut self) -> (skip: bool)
        requires
            old(self).wf(),
        ensures
            final(self).wf(),
            final(self).spec_config() == old(self).spec_config(),
            final(self).spec_congestion() == old(self).spec_congestion(),
            final(self).spec_history() == old(self).spec_history(),
            final(self).spec_current_bitrate() == old(self).spec_current_bitrate(),
            old(self).spec_congestion() < 500 ==> !skip && final(self).spec_skip_counter() == 0
                && final(self).spec_stats() == old(self).spec_stats(),
            old(self).spec_congestion() >= 500 ==> {
                &&& skip == (old(self).spec_skip_counter() + 1 >= spec_skip_threshold(
                    old(self).spec_config().quality_preset,
                ))
                &&& final(self).spec_skip_counter() == if skip {
                    0int
                } else {
                    old(self).spec_skip_counter() + 1
                }
                &&& final(self).spec_stats() == if skip {
                    BitrateStats {
                        frames_skipped: sat_inc(old(self).spec_stats().frames_skipped),
                        ..old(self).spec_stats()
                    }
                } else {
                    old(self).spec_stats()
                }
            },
    {
        if self.congestion_permille < 500 {
            self.skip_counter = 0;
            return false;
        }
        let threshold: u32 = match self.config.quality_preset {
            QualityPreset::LowLatency => 2,
            QualityPreset::Balanced => 3,
            QualityPreset::HighQuality => 4,
        };
        self.skip_counter = self.skip_counter + 1;
        if self.skip_counter >= threshold {
            self.skip_counter = 0;
            self.stats.frames_skipped = crate::util::counter_inc(self.stats.frames_skipped);
            true
        } else {
            false
        }
    }

    /// The congestion level in per mille, between 0 and 1000.
    pub fn congestion_level(&self) -> (r: u32)
        requires
            self.wf(),
        ensures
            r == self.spec_congestion(),
            r <= 1000,
    {
        self.congestion_permille
    }

    /// The statistics counters.
    pub fn stats(&self) -> (r: &BitrateStats)
        ensures
            *r == self.spec_stats(),
    {
        &self.stats
    }

    /// Reset the controller to its initial state, keeping the configuration.
    pub fn reset(&mut self)
        requires
            old(self).wf(),
        ensures
            final(self).wf(),
            final(self).spec_config() == old(self).spec_config(),
            final(self).spec_current_bitrate() == (old(self).spec_config().min_bitrate_kbps + old(
                self,
            ).spec_config().max_bitrate_kbps) as int / 2,
            final(self).spec_congestion() == 0,
            final(self).spec_skip_counter() == 0,
            final(self).spec_history().len() == 0,
            final(self).spec_stats() == spec_zero_bitrate_stats(),
    {
        self.current_bitrate = ((self.config.min_bitrate_kbps as u64
            + self.config.max_bitrate_kbps as u64) / 2) as u32;
        self.frame_history = Vec::new();
        self.congestion_permille = 0;
        self.skip_counter = 0;
        self.stats = BitrateStats::default();
    }
}

} // verus!
