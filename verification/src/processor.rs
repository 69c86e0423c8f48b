//! Frame processing: rate limiting, damage aggregation, and RDP bitmap
//! emission.
//!
//! A processor accepts frames at a target rate, feeds the damage tracker
//! with the frame's damage regions (or marks the whole frame damaged when
//! none are reported), decides between a full and a per-region update, and
//! converts the chosen rectangles to RDP bitmap data.

use crate::convert::{
    convert_region, spec_rdp_pad_ok, spec_rdp_pixel_ok, BitmapData, BitmapUpdate, Rectangle,
};
use crate::damage::{
    lemma_covers_trans, lemma_merge_bounded, lemma_merge_covers_both, spec_clip,
    spec_clipped_bbox, spec_covers, spec_full_update_decision, spec_merge,
    spec_pairwise_separated, spec_region_bounded, spec_within_frame, DamageRegion, DamageTracker,
};
use crate::format::{spec_rdp_bytes_per_pixel, spec_rdp_stride, PixelFormat, ProcessingError, RdpPixelFormat};
use crate::frame::VideoFrame;
use crate::util::sat_inc;
use crate::yuv::{spec_i420_pixel_ok, spec_nv12_pixel_ok, spec_yuy2_pixel_ok, YuvConverter};
use vstd::prelude::*;

verus! {

/// Configuration of the frame processor.
#[derive(Debug, Clone, Copy, PartialEq, Eq, Structural)]
pub struct ProcessorConfig {
    /// Target frame rate.
    pub target_fps: u32,
    /// Output queue depth used by the adaptive rate limiter.
    pub max_queue_depth: usize,
    /// Relax the rate limiter when the output queue is shallow.
    pub adaptive_quality: bool,
    /// Minimum damaged share of the frame worth processing, in thousandths.
    pub damage_threshold_permille: u32,
    /// Drop frames when the output queue is full.
    pub drop_on_full_queue: bool,
}

/// The default processor configuration.
pub open spec fn spec_default_processor_config() -> ProcessorConfig {
    ProcessorConfig {
        target_fps: 60,
        max_queue_depth: 30,
        adaptive_quality: true,
        damage_threshold_permille: 50,
        drop_on_full_queue: true,
    }
}

impl Default for ProcessorConfig {
    /// 60 fps over a 30-frame queue with adaptive quality.
    fn default() -> (r: ProcessorConfig)
        ensures
            r == spec_default_processor_config(),
    {
        ProcessorConfig {
            target_fps: 60,
            max_queue_depth: 30,
            adaptive_quality: true,
            damage_threshold_permille: 50,
            drop_on_full_queue: true,
        }
    }
}

/// Processing statistics.
#[derive(Debug, Clone, Copy, PartialEq, Eq, Structural)]
pub struct ProcessingStats {
    /// Frames turned into bitmap updates.
    pub frames_processed: u64,
    /// Frames dropped by the rate limiter.
    pub frames_rate_limited: u64,
    /// Frames skipped on the bitrate controller's advice.
    pub frames_skipped_quality: u64,
}

/// Processing statistics with all counters at zero.
pub open spec fn spec_zero_processing_stats() -> ProcessingStats {
    ProcessingStats { frames_processed: 0, frames_rate_limited: 0, frames_skipped_quality: 0 }
}

impl Default for ProcessingStats {
    /// All counters start at zero.
    fn default() -> (r: ProcessingStats)
        ensures
            r == spec_zero_processing_stats(),
    {
        ProcessingStats { frames_processed: 0, frames_rate_limited: 0, frames_skipped_quality: 0 }
    }
}

/// The interval the rate limiter demands between accepted frames, in
/// microseconds: the frame period, less a slack of up to a tenth of the
/// period that shrinks linearly as the output queue fills.
pub open spec fn spec_accept_interval_us(cfg: ProcessorConfig, queue_depth: int) -> int {
    let interval = 1_000_000int / cfg.target_fps as int;
    if cfg.adaptive_quality {
        let d = if queue_depth > cfg.max_queue_depth {
            cfg.max_queue_depth as int
        } else {
            queue_depth
        };
        interval - (interval / 10) * (cfg.max_queue_depth - d) / cfg.max_queue_depth as int
    } else {
        interval
    }
}

/// Whether a frame arriving at `now_us` passes the rate limiter.
pub open spec fn spec_rate_accepts(
    cfg: ProcessorConfig,
    last_us: Option<u64>,
    now_us: u64,
    queue_depth: int,
) -> bool {
    match last_us {
        None => true,
        Some(t) => now_us >= t && now_us - t >= spec_accept_interval_us(cfg, queue_depth),
    }
}

/// Whether a frame's format, dimensions and buffer allow processing.
pub open spec fn spec_frame_checks(frame: VideoFrame) -> Result<(), ProcessingError> {
    if frame.width == 0 || frame.height == 0 || frame.width > u16::MAX || frame.height > u16::MAX {
        Err(ProcessingError::InvalidDimensions)
    } else if 4 * (frame.width * frame.height) > usize::MAX || (frame.width * 4 + 64)
        * frame.height > usize::MAX {
        Err(ProcessingError::InvalidDimensions)
    } else if frame.format == PixelFormat::RGBA || frame.format == PixelFormat::RGBx
        || frame.format == PixelFormat::RGB || frame.format == PixelFormat::BGR {
        Err(ProcessingError::UnsupportedFormat)
    } else if (frame.format == PixelFormat::NV12 || frame.format == PixelFormat::I420
        || frame.format == PixelFormat::YUY2) && (frame.width % 2 != 0 || frame.height % 2 != 0) {
        Err(ProcessingError::InvalidDimensions)
    } else if (frame.format == PixelFormat::NV12 || frame.format == PixelFormat::I420)
        && frame.data@.len() < frame.width * frame.height + frame.width * frame.height / 2 {
        Err(ProcessingError::BufferTooSmall)
    } else if frame.format == PixelFormat::YUY2 && frame.data@.len() < frame.width * frame.height
        * 2 {
        Err(ProcessingError::BufferTooSmall)
    } else if (frame.format == PixelFormat::BGRA || frame.format == PixelFormat::BGRx)
        && frame.data@.len() < 4 * (frame.width * frame.height) {
        Err(ProcessingError::BufferTooSmall)
    } else {
        Ok(())
    }
}

/// A bitmap rectangle is structurally sound for the wire: uncompressed,
/// with the format's depth, and with stride-aligned data of the advertised
/// size.
pub open spec fn spec_bitmap_sound(b: BitmapData, format: RdpPixelFormat) -> bool {
    &&& b.compressed == false
    &&& b.bits_per_pixel == 8 * spec_rdp_bytes_per_pixel(format)
    &&& b.data.len() == b.height * spec_rdp_stride(
        b.width as nat,
        spec_rdp_bytes_per_pixel(format) as nat,
    )
}

/// The whole-frame damage region of a `w` by `h` frame.
pub open spec fn spec_whole_frame(w: u32, h: u32) -> DamageRegion {
    DamageRegion { x: 0, y: 0, width: w, height: h }
}

/// The BGRA pixels a frame presents to the RDP converter: the frame's own
/// bytes for the RGB-family formats it handles, or the BT.601 conversion of
/// its planes for the YUV formats.
pub open spec fn spec_source_bgra_ok(frame: VideoFrame, bgra: Seq<u8>) -> bool {
    let w = frame.width as int;
    let h = frame.height as int;
    match frame.format {
        PixelFormat::BGRA | PixelFormat::BGRx => bgra == frame.data@,
        PixelFormat::NV12 => bgra.len() == 4 * (frame.width * frame.height) && forall|x: int, y: int|
            0 <= x < frame.width && 0 <= y < frame.height ==> #[trigger] spec_nv12_pixel_ok(
                frame.data@,
                bgra,
                w,
                h,
                x,
                y,
            ),
        PixelFormat::I420 => bgra.len() == 4 * (frame.width * frame.height) && forall|x: int, y: int|
            0 <= x < frame.width && 0 <= y < frame.height ==> #[trigger] spec_i420_pixel_ok(
                frame.data@,
                bgra,
                w,
                h,
                x,
                y,
            ),
        PixelFormat::YUY2 => bgra.len() == 4 * (frame.width * frame.height) && forall|x: int, y: int|
            0 <= x < frame.width && 0 <= y < frame.height ==> #[trigger] spec_yuy2_pixel_ok(
                frame.data@,
                bgra,
                w,
                x,
                y,
            ),
        _ => false,
    }
}

/// One update rectangle renders one damaged region of the BGRA source: the
/// geometry is the region's, the data is stride-aligned with zero padding,
/// and every pixel is the packed form of the source pixel it covers.
pub open spec fn spec_update_rect_ok(
    bgra: Seq<u8>,
    rect: BitmapData,
    region: DamageRegion,
    fw: u32,
    format: RdpPixelFormat,
) -> bool {
    let bpp = spec_rdp_bytes_per_pixel(format) as int;
    let stride = spec_rdp_stride(region.width as nat, spec_rdp_bytes_per_pixel(format) as nat) as int;
    &&& rect.rectangle == (Rectangle {
        top: region.y as u16,
        left: region.x as u16,
        right: (region.x + region.width) as u16,
        bottom: (region.y + region.height) as u16,
    })
    &&& rect.width == region.width as u16
    &&& rect.height == region.height as u16
    &&& rect.bits_per_pixel == 8 * spec_rdp_bytes_per_pixel(format)
    &&& rect.compressed == false
    &&& rect.data@.len() == region.height * stride
    &&& forall|x: int, y: int|
        0 <= x < region.width && 0 <= y < region.height ==> #[trigger] spec_rdp_pixel_ok(
            bgra,
            rect.data@,
            fw as int,
            region.x as int,
            region.y as int,
            stride,
            format,
            x,
            y,
        )
    &&& forall|y: int, k: int|
        0 <= y < region.height && region.width * spec_rdp_bytes_per_pixel(format) <= k < stride
            ==> #[trigger] spec_rdp_pad_ok(rect.data@, stride, y, k)
}

/// The rectangles of an update render one damage set `ds` of the frame's
/// BGRA source `bgra`: a full update is a single whole-frame rectangle, a
/// partial update one rectangle per damaged region, in order.  A frame
/// without damage information damages the whole frame; one with reported
/// regions yields a set inside their clipped bounding box, non-empty
/// whenever any reported region is visible (each added region also leaves a
/// covering region behind, by `DamageTracker::add_region`'s own contract).
pub open spec fn spec_update_renders(
    frame: VideoFrame,
    update: BitmapUpdate,
    ds: Seq<DamageRegion>,
    bgra: Seq<u8>,
    merge_distance: u32,
    max_regions: int,
    threshold_permille: int,
    out_format: RdpPixelFormat,
) -> bool {
    &&& spec_source_bgra_ok(frame, bgra)
    &&& forall|k: int|
        0 <= k < ds.len() ==> spec_within_frame(#[trigger] ds[k], frame.width, frame.height)
    &&& spec_pairwise_separated(ds, merge_distance)
    &&& frame.damage is None ==> ds =~= seq![spec_whole_frame(frame.width, frame.height)]
    &&& frame.damage is Some ==> match spec_clipped_bbox(
        frame.damage->0@,
        frame.width,
        frame.height,
    ) {
        Some(bb) => forall|j: int| 0 <= j < ds.len() ==> spec_covers(bb, #[trigger] ds[j]),
        None => ds.len() == 0,
    }
    &&& frame.damage is Some ==> forall|k: int|
        0 <= k < frame.damage->0@.len() && spec_clip(
            #[trigger] frame.damage->0@[k],
            frame.width,
            frame.height,
        ) is Some ==> ds.len() >= 1
    &&& if spec_full_update_decision(ds, max_regions, threshold_permille, frame.width, frame.height) {
        update.rectangles@.len() == 1 && spec_update_rect_ok(
            bgra,
            update.rectangles@[0],
            spec_whole_frame(frame.width, frame.height),
            frame.width,
            out_format,
        )
    } else {
        update.rectangles@.len() == ds.len() && forall|i: int|
            0 <= i < ds.len() ==> #[trigger] spec_update_rect_ok(
                bgra,
                update.rectangles@[i],
                ds[i],
                frame.width,
                out_format,
            )
    }
}

/// An update renders some damage set of the frame under the tracker's
/// merging discipline and full-update rule.
pub open spec fn spec_update_matches(
    frame: VideoFrame,
    update: BitmapUpdate,
    merge_distance: u32,
    max_regions: int,
    threshold_permille: int,
    out_format: RdpPixelFormat,
) -> bool {
    exists|ds: Seq<DamageRegion>, bgra: Seq<u8>|
        #[trigger] spec_update_renders(
            frame,
            update,
            ds,
            bgra,
            merge_distance,
            max_regions,
            threshold_permille,
            out_format,
        )
}

/// Rate-limits frames and turns them into RDP bitmap updates.
pub struct FrameProcessor {
    config: ProcessorConfig,
    frame_width: u32,
    frame_height: u32,
    last_accepted_us: Option<u64>,
    damage: DamageTracker,
    converter: YuvConverter,
    stats: ProcessingStats,
}

impl FrameProcessor {
    /// The processor's configuration.
    pub closed spec fn spec_config(self) -> ProcessorConfig {
        self.config
    }

    /// The frame width the processor expects.
    pub closed spec fn spec_frame_width(self) -> u32 {
        self.frame_width
    }

    /// The frame height the processor expects.
    pub closed spec fn spec_frame_height(self) -> u32 {
        self.frame_height
    }

    /// The arrival time of the last accepted frame.
    pub closed spec fn spec_last_accepted_us(self) -> Option<u64> {
        self.last_accepted_us
    }

    /// The damage tracker between frames.
    pub closed spec fn spec_damage(self) -> DamageTracker {
        self.damage
    }

    /// The statistics counters.
    pub closed spec fn spec_stats(self) -> ProcessingStats {
        self.stats
    }

    /// Well-formedness: a target rate and queue depth, and a well-formed
    /// damage tracker sized to the processor's frame, with merging on.
    pub open spec fn wf(self) -> bool {
        &&& self.spec_config().target_fps >= 1
        &&& self.spec_config().max_queue_depth >= 1
        &&& self.spec_damage().wf()
        &&& self.spec_damage().spec_frame_width() == self.spec_frame_width()
        &&& self.spec_damage().spec_frame_height() == self.spec_frame_height()
        &&& self.spec_damage().spec_merging_enabled()
        &&& self.spec_damage().spec_max_regions() >= 1
        &&& self.spec_damage().spec_regions().len() == 0
    }

    /// Create a processor for frames of the given size.
    pub fn new(config: ProcessorConfig, frame_width: u32, frame_height: u32) -> (r: FrameProcessor)
        requires
            config.target_fps >= 1,
            config.max_queue_depth >= 1,
        ensures
            r.wf(),
            r.spec_config() == config,
            r.spec_frame_width() == frame_width,
            r.spec_frame_height() == frame_height,
            r.spec_last_accepted_us() is None,
            r.spec_stats() == spec_zero_processing_stats(),
    {
        FrameProcessor {
            config,
            frame_width,
            frame_height,
            last_accepted_us: None,
            damage: DamageTracker::new(frame_width, frame_height),
            converter: YuvConverter::new(),
            stats: ProcessingStats::default(),
        }
    }

    /// Whether to accept a frame arriving at `now_us` with the output queue
    /// `queue_depth` deep; accepting records the arrival time.
    pub fn should_accept(&mut self, now_us: u64, queue_depth: usize) -> (r: bool)
        requires
            old(self).wf(),
        ensures
            final(self).wf(),
            r == spec_rate_accepts(
                old(self).spec_config(),
                old(self).spec_last_accepted_us(),
                now_us,
                queue_depth as int,
            ),
            r ==> final(self).spec_last_accepted_us() == Some(now_us),
            !r ==> *final(self) == *old(self),
            final(self).spec_config() == old(self).spec_config(),
            final(self).spec_damage() == old(self).spec_damage(),
            final(self).spec_stats() == old(self).spec_stats(),
            final(self).spec_frame_width() == old(self).spec_frame_width(),
            final(self).spec_frame_height() == old(self).spec_frame_height(),
    {
        let interval: u64 = 1_000_000 / self.config.target_fps as u64;
        let threshold: u64 = if self.config.adaptive_quality {
            let d = if queue_depth > self.config.max_queue_depth {
                self.config.max_queue_depth
            } else {
                queue_depth
            };
            let gap = self.config.max_queue_depth - d;
            proof {
                assert((interval as int / 10) * gap <= 100_000int * self.config.max_queue_depth)
                    by (nonlinear_arith)
                    requires
                        0 <= interval / 10 <= 100_000,
                        0 <= gap <= self.config.max_queue_depth,
                ;
                assert(0 <= (interval as int / 10) * gap / self.config.max_queue_depth as int
                    <= interval as int / 10) by (nonlinear_arith)
                    requires
                        0 <= interval / 10,
                        0 <= gap <= self.config.max_queue_depth,
                        self.config.max_queue_depth >= 1,
                ;
            }
            let slack = ((interval / 10) as u128 * gap as u128 / self.config.max_queue_depth
                as u128) as u64;
            interval - slack
        } else {
            interval
        };
        let accept = match self.last_accepted_us {
            None => true,
            Some(t) => now_us >= t && now_us - t >= threshold,
        };
        if accept {
            self.last_accepted_us = Some(now_us);
        }
        accept
    }

    /// Process one frame arriving at `now_us`.
    ///
    /// A frame failing the rate limiter — or skipped on the bitrate
    /// controller's advice while adaptive quality is on — yields `Ok(None)`
    /// and the matching counter advances.  A frame whose format, size or
    /// buffer is unusable yields the error that `spec_frame_checks` names.
    /// Otherwise the frame's damage (or the whole frame, when it carries
    /// none) is folded into the tracker, clipped to the frame, and the
    /// update carries either one full-frame rectangle or one rectangle per
    /// accumulated damaged region, in order, each rendering its region of
    /// the (converted) source exactly; the tracker is cleared for the next
    /// frame.
    pub fn process_frame(
        &mut self,
        frame: &VideoFrame,
        now_us: u64,
        queue_depth: usize,
        skip_hint: bool,
        out_format: RdpPixelFormat,
    ) -> (r: Result<Option<BitmapUpdate>, ProcessingError>)
        requires
            old(self).wf(),
            frame.width == old(self).spec_frame_width(),
            frame.height == old(self).spec_frame_height(),
        ensures
            final(self).wf(),
            final(self).spec_config() == old(self).spec_config(),
            final(self).spec_frame_width() == old(self).spec_frame_width(),
            final(self).spec_frame_height() == old(self).spec_frame_height(),
            !spec_rate_accepts(
                old(self).spec_config(),
                old(self).spec_last_accepted_us(),
                now_us,
                queue_depth as int,
            ) ==> r == Result::<Option<BitmapUpdate>, ProcessingError>::Ok(None) && final(self).spec_stats() == (ProcessingStats {
                frames_rate_limited: sat_inc(old(self).spec_stats().frames_rate_limited),
                ..old(self).spec_stats()
            }),
            (spec_rate_accepts(
                old(self).spec_config(),
                old(self).spec_last_accepted_us(),
                now_us,
                queue_depth as int,
            ) && old(self).spec_config().adaptive_quality && skip_hint) ==> r
                == Result::<Option<BitmapUpdate>, ProcessingError>::Ok(None) && final(self).spec_stats() == (ProcessingStats {
                frames_skipped_quality: sat_inc(old(self).spec_stats().frames_skipped_quality),
                ..old(self).spec_stats()
            }),
            (spec_rate_accepts(
                old(self).spec_config(),
                old(self).spec_last_accepted_us(),
                now_us,
                queue_depth as int,
            ) && !(old(self).spec_config().adaptive_quality && skip_hint) && spec_frame_checks(
                *frame,
            ) is Err) ==> r is Err && r->Err_0 == spec_frame_checks(*frame)->Err_0,
            (spec_rate_accepts(
                old(self).spec_config(),
                old(self).spec_last_accepted_us(),
                now_us,
                queue_depth as int,
            ) && !(old(self).spec_config().adaptive_quality && skip_hint) && spec_frame_checks(
                *frame,
            ) is Ok) ==> r is Ok && r->Ok_0 is Some,
            r is Ok && r->Ok_0 is Some ==> {
                let update = r->Ok_0->Some_0;
                &&& update.sequence == frame.sequence
                &&& update.timestamp_ms == frame.timestamp_ms
                &&& forall|i: int|
                    0 <= i < update.rectangles@.len() ==> #[trigger] spec_bitmap_sound(
                        update.rectangles@[i],
                        out_format,
                    )
                &&& final(self).spec_damage().spec_regions().len() == 0
                &&& final(self).spec_stats().frames_processed == sat_inc(
                    old(self).spec_stats().frames_processed,
                )
                &&& spec_update_matches(
                    *frame,
                    update,
                    final(self).spec_damage().spec_merge_distance(),
                    final(self).spec_damage().spec_max_regions() as int,
                    final(self).spec_damage().spec_threshold_permille() as int,
                    out_format,
                )
            },
    {
        if !self.should_accept(now_us, queue_depth) {
            self.stats.frames_rate_limited = crate::util::counter_inc(
                self.stats.frames_rate_limited,
            );
            return Ok(None);
        }
        if self.config.adaptive_quality && skip_hint {
            self.stats.frames_skipped_quality = crate::util::counter_inc(
                self.stats.frames_skipped_quality,
            );
            return Ok(None);
        }
        let w = frame.width;
        let h = frame.height;
        if w == 0 || h == 0 || w > u16::MAX as u32 || h > u16::MAX as u32 {
            return Err(ProcessingError::InvalidDimensions);
        }
        proof {
            assert(4 * ((w as int) * (h as int)) <= 4 * (0xffffint * 0xffff)) by (nonlinear_arith)
                requires
                    w <= 0xffff && h <= 0xffff,
            ;
            assert(4 * (w as int) * (h as int) == 4 * ((w as int) * (h as int)))
                by (nonlinear_arith);
            assert(((w as int) * 4 + 64) * (h as int) <= (0xffffint * 4 + 64) * 0xffff)
                by (nonlinear_arith)
                requires
                    w <= 0xffff && h <= 0xffff,
            ;
            assert(((w as int) * 4 + 64) * (h as int) >= 0) by (nonlinear_arith)
                requires
                    w >= 0 && h >= 0,
            ;
        }
        if 4 * (w as u64) * (h as u64) > usize::MAX as u64 || ((w as u64) * 4 + 64) * (h as u64)
            > usize::MAX as u64 {
            proof {
                assert(4 * ((w as u64) * (h as u64)) == 4 * (w * h)) by (nonlinear_arith);
                assert(4 * (w as u64) * (h as u64) == 4 * ((w as u64) * (h as u64)))
                    by (nonlinear_arith);
                assert(((w as u64) * 4 + 64) * (h as u64) == (w * 4 + 64) * h)
                    by (nonlinear_arith);
            }
            return Err(ProcessingError::InvalidDimensions);
        }
        proof {
            assert(4 * ((w as u64) * (h as u64)) == 4 * (w * h)) by (nonlinear_arith);
            assert(4 * (w as u64) * (h as u64) == 4 * ((w as u64) * (h as u64)))
                by (nonlinear_arith);
            assert(((w as u64) * 4 + 64) * (h as u64) == (w * 4 + 64) * h) by (nonlinear_arith);
        }
        let bgra: Vec<u8>;
        let source_is_frame: bool;
        match frame.format {
            PixelFormat::RGBA | PixelFormat::RGBx | PixelFormat::RGB | PixelFormat::BGR => {
                return Err(ProcessingError::UnsupportedFormat);
            }
            PixelFormat::NV12 | PixelFormat::I420 | PixelFormat::YUY2 => {
                if w % 2 != 0 || h % 2 != 0 {
                    return Err(ProcessingError::InvalidDimensions);
                }
                match frame.format {
                    PixelFormat::NV12 | PixelFormat::I420 => {
                        if frame.data.len() < (w as usize) * (h as usize) + (w as usize) * (h
                            as usize) / 2 {
                            proof {
                                assert((w as usize) * (h as usize) == w * h) by (nonlinear_arith);
                            }
                            return Err(ProcessingError::BufferTooSmall);
                        }
                    }
                    _ => {
                        if frame.data.len() < (w as usize) * (h as usize) * 2 {
                            proof {
                                assert((w as usize) * (h as usize) == w * h) by (nonlinear_arith);
                            }
                            return Err(ProcessingError::BufferTooSmall);
                        }
                    }
                }
                proof {
                    assert((w as usize) * (h as usize) == w * h) by (nonlinear_arith);
                }
                let converted = self.converter.convert_to_bgra(
                    frame.data.as_slice(),
                    w,
                    h,
                    frame.format,
                );
                match converted {
                    Some(buf) => {
                        bgra = buf;
                        source_is_frame = false;
                    }
                    None => {
                        return Err(ProcessingError::UnsupportedFormat);
                    }
                }
            }
            PixelFormat::BGRA | PixelFormat::BGRx => {
                if frame.data.len() < 4 * (w as usize) * (h as usize) {
                    proof {
                        assert(4 * ((w as usize) * (h as usize)) == 4 * (w * h))
                            by (nonlinear_arith);
                        assert(4 * (w as usize) * (h as usize) == 4 * ((w as usize) * (h
                            as usize))) by (nonlinear_arith);
                    }
                    return Err(ProcessingError::BufferTooSmall);
                }
                bgra = Vec::new();
                source_is_frame = true;
            }
        }
        proof {
            assert(4 * (w as usize) * (h as usize) == 4 * (w * h)) by (nonlinear_arith);
        }
        // Fold the frame's damage into the tracker; a frame without damage
        // information damages the whole frame.
        let ghost bgra_view: Seq<u8> = if source_is_frame {
            frame.data@
        } else {
            bgra@
        };
        proof {
            assert(spec_source_bgra_ok(*frame, bgra_view));
        }
        // Fold the frame's damage into the tracker, which clips each region
        // to the frame; a frame without damage information damages the
        // whole frame.
        match &frame.damage {
            Some(regions) => {
                let mut i: usize = 0;
                proof {
                    assert(regions@.take(0int) =~= Seq::<DamageRegion>::empty());
                }
                while i < regions.len()
                    invariant
                        self.damage.wf(),
                        self.config == old(self).spec_config(),
                        self.frame_width == old(self).spec_frame_width(),
                        self.frame_height == old(self).spec_frame_height(),
                        self.damage.spec_frame_width() == self.frame_width,
                        self.damage.spec_frame_height() == self.frame_height,
                        self.damage.spec_merging_enabled(),
                        self.damage.spec_max_regions() >= 1,
                        self.stats == old(self).spec_stats(),
                        self.last_accepted_us is Some,
                        w == frame.width,
                        h == frame.height,
                        w == self.frame_width,
                        h == self.frame_height,
                        0 <= i <= regions@.len(),
                        match spec_clipped_bbox(regions@.take(i as int), w, h) {
                            Some(bb) => spec_region_bounded(bb) && forall|j: int|
                                0 <= j < self.damage.spec_regions().len() ==> spec_covers(
                                    bb,
                                    #[trigger] self.damage.spec_regions()[j],
                                ),
                            None => self.damage.spec_regions().len() == 0,
                        },
                        forall|k: int|
                            0 <= k < i && spec_clip(#[trigger] regions@[k], w, h) is Some
                                ==> self.damage.spec_regions().len() >= 1,
                    decreases regions.len() - i,
                {
                    let ghost pre = self.damage.spec_regions();
                    let ghost old_bb = spec_clipped_bbox(regions@.take(i as int), w, h);
                    self.damage.add_region(regions[i]);
                    i = i + 1;
                    proof {
                        let ri = regions@[i - 1];
                        assert(regions@.take(i as int).drop_last() =~= regions@.take(i as int - 1));
                        assert(regions@.take(i as int).last() == ri);
                        let clipped = spec_clip(ri, w, h);
                        let new_bb = spec_clipped_bbox(regions@.take(i as int), w, h);
                        match clipped {
                            None => {
                                assert(new_bb == old_bb);
                            }
                            Some(c) => {
                                let bbp = match old_bb {
                                    Some(bb) => spec_merge(bb, c),
                                    None => c,
                                };
                                assert(new_bb == Some(bbp));
                                if old_bb is Some {
                                    lemma_merge_bounded(old_bb->Some_0, c);
                                    lemma_merge_covers_both(old_bb->Some_0, c);
                                }
                                assert(spec_covers(bbp, c));
                                assert forall|ii: int|
                                    0 <= ii < pre.len() implies spec_covers(
                                    bbp,
                                    #[trigger] pre[ii],
                                ) by {
                                    assert(old_bb is Some);
                                    assert(spec_covers(old_bb->Some_0, pre[ii]));
                                    lemma_covers_trans(bbp, old_bb->Some_0, pre[ii]);
                                }
                                if pre.len() < self.damage.spec_max_regions() {
                                    // The add went through; its contract
                                    // bounds the outcome by any common cover.
                                    assert(spec_covers(bbp, c));
                                    assert forall|j: int|
                                        0 <= j
                                            < self.damage.spec_regions().len() implies spec_covers(
                                        bbp,
                                        #[trigger] self.damage.spec_regions()[j],
                                    ) by {}
                                } else {
                                    assert(self.damage.spec_regions() == pre);
                                    assert forall|j: int|
                                        0 <= j
                                            < self.damage.spec_regions().len() implies spec_covers(
                                        bbp,
                                        #[trigger] self.damage.spec_regions()[j],
                                    ) by {
                                        assert(spec_covers(bbp, pre[j]));
                                    }
                                    assert(self.damage.spec_regions().len()
                                        >= self.damage.spec_max_regions());
                                }
                            }
                        }
                        assert forall|k: int|
                            0 <= k < i && spec_clip(#[trigger] regions@[k], w, h)
                                is Some implies self.damage.spec_regions().len() >= 1 by {}
                    }
                }
                proof {
                    assert(regions@.take(regions@.len() as int) =~= regions@);
                }
            }
            None => {
                self.damage.mark_full_damage(w, h);
                proof {
                    assert(self.damage.spec_regions() =~= seq![spec_whole_frame(w, h)]);
                }
            }
        }
        let ghost ds = self.damage.spec_regions();
        proof {
            assert forall|k: int|
                0 <= k < ds.len() implies spec_within_frame(#[trigger] ds[k], w, h) by {}
        }
        let full = self.damage.should_full_update((w, h));
        let mut rectangles: Vec<BitmapData> = Vec::new();
        if full {
            let whole = DamageRegion { x: 0, y: 0, width: w, height: h };
            let rect = if source_is_frame {
                convert_region(frame.data.as_slice(), w, h, whole, out_format)
            } else {
                convert_region(bgra.as_slice(), w, h, whole, out_format)
            };
            proof {
                assert(spec_update_rect_ok(bgra_view, rect, spec_whole_frame(w, h), w, out_format));
            }
            rectangles.push(rect);
        } else {
            let region_count = self.damage.region_count();
            let mut i: usize = 0;
            while i < region_count
                invariant
                    self.damage.wf(),
                    self.config == old(self).spec_config(),
                    self.frame_width == old(self).spec_frame_width(),
                    self.frame_height == old(self).spec_frame_height(),
                    self.damage.spec_frame_width() == self.frame_width,
                    self.damage.spec_frame_height() == self.frame_height,
                    self.damage.spec_merging_enabled(),
                    self.stats == old(self).spec_stats(),
                    self.last_accepted_us is Some,
                    self.damage.spec_regions() == ds,
                    region_count == ds.len(),
                    0 <= i <= region_count,
                    w == frame.width,
                    h == frame.height,
                    w == self.frame_width,
                    h == self.frame_height,
                    1 <= w <= 0xffff,
                    1 <= h <= 0xffff,
                    source_is_frame ==> bgra_view == frame.data@,
                    !source_is_frame ==> bgra_view == bgra@,
                    source_is_frame ==> frame.data@.len() >= 4 * (w * h),
                    !source_is_frame ==> bgra@.len() >= 4 * (w * h),
                    4 * (w * h) <= usize::MAX,
                    (w * 4 + 64) * h <= usize::MAX,
                    rectangles@.len() == i,
                    forall|k: int|
                        0 <= k < i ==> #[trigger] spec_update_rect_ok(
                            bgra_view,
                            rectangles@[k],
                            ds[k],
                            w,
                            out_format,
                        ),
                    forall|k: int|
                        0 <= k < rectangles@.len() ==> #[trigger] spec_bitmap_sound(
                            rectangles@[k],
                            out_format,
                        ),
                decreases region_count - i,
            {
                let regions_ref = self.damage.damaged_regions();
                let region = regions_ref[i];
                proof {
                    assert(spec_within_frame(region, w, h));
                    assert((region.width * 4 + 64) * region.height <= (w * 4 + 64) * h)
                        by (nonlinear_arith)
                        requires
                            0 < region.width <= w && 0 < region.height <= h,
                    ;
                }
                let rect = if source_is_frame {
                    convert_region(frame.data.as_slice(), w, h, region, out_format)
                } else {
                    convert_region(bgra.as_slice(), w, h, region, out_format)
                };
                proof {
                    assert(spec_update_rect_ok(bgra_view, rect, ds[i as int], w, out_format));
                }
                rectangles.push(rect);
                i = i + 1;
            }
        }
        let ghost merge_distance = self.damage.spec_merge_distance();
        let ghost max_regions = self.damage.spec_max_regions() as int;
        let ghost threshold = self.damage.spec_threshold_permille() as int;
        self.damage.clear();
        self.stats.frames_processed = crate::util::counter_inc(self.stats.frames_processed);
        let ghost update_view = BitmapUpdate {
            rectangles: rectangles,
            sequence: frame.sequence,
            timestamp_ms: frame.timestamp_ms,
        };
        proof {
            assert(spec_update_renders(
                *frame,
                update_view,
                ds,
                bgra_view,
                merge_distance,
                max_regions,
                threshold,
                out_format,
            ));
        }
        Ok(
            Some(
                BitmapUpdate {
                    rectangles,
                    sequence: frame.sequence,
                    timestamp_ms: frame.timestamp_ms,
                },
            ),
        )
    }

    /// The statistics counters.
    pub fn stats(&self) -> (r: &ProcessingStats)
        ensures
            *r == self.spec_stats(),
    {
        &self.stats
    }

}

} // verus!
