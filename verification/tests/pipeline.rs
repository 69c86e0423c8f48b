//! Dispatcher and processor behavior.

use lamco_wayland::damage::DamageRegion;
use lamco_wayland::dispatcher::{
    DispatchDecision, DispatcherConfig, FrameDispatcher, InputStatus, StreamPriority,
};
use lamco_wayland::format::{PixelFormat, RdpPixelFormat};
use lamco_wayland::frame::VideoFrame;
use lamco_wayland::processor::{FrameProcessor, ProcessorConfig};

fn bgra_frame(w: u32, h: u32, seq: u64, ts: u64, damage: Option<Vec<DamageRegion>>) -> VideoFrame {
    VideoFrame {
        width: w,
        height: h,
        stride: w * 4,
        format: PixelFormat::BGRA,
        data: vec![128u8; (w * h * 4) as usize],
        timestamp_ms: ts,
        sequence: seq,
        damage,
    }
}

#[test]
fn test_dispatcher_drops_aged_frames() {
    // A frame older than the age limit is dropped and the counter advances
    // by exactly one.
    let mut dispatcher = FrameDispatcher::new(DispatcherConfig::default());
    let stale = bgra_frame(4, 4, 1, 800, None);
    let decision = dispatcher.offer(1, StreamPriority::Normal, stale, 1000);
    assert_eq!(decision, DispatchDecision::DroppedAged);
    assert_eq!(dispatcher.stats().frames_dropped_aged, 1);
    assert_eq!(dispatcher.output_len(), 0);

    let fresh = bgra_frame(4, 4, 2, 950, None);
    let decision = dispatcher.offer(1, StreamPriority::Normal, fresh, 1000);
    assert_eq!(decision, DispatchDecision::Forwarded);
    assert_eq!(dispatcher.output_len(), 1);
}

#[test]
fn test_dispatcher_backpressure() {
    // Past the high-water mark, normal-priority frames are dropped while
    // critical ones still pass; under the low-water mark dropping stops.
    let config = DispatcherConfig {
        channel_size: 10,
        high_water_permille: 800,
        low_water_permille: 500,
        ..Default::default()
    };
    let mut dispatcher = FrameDispatcher::new(config);
    for seq in 0..8u64 {
        let d = dispatcher.offer(1, StreamPriority::Normal, bgra_frame(4, 4, seq, 100, None), 100);
        assert_eq!(d, DispatchDecision::Forwarded);
    }
    // Fill is at the high-water mark now.
    let dropped = dispatcher.offer(1, StreamPriority::Normal, bgra_frame(4, 4, 9, 100, None), 100);
    assert_eq!(dropped, DispatchDecision::DroppedBackpressure);
    let kept = dispatcher.offer(1, StreamPriority::Critical, bgra_frame(4, 4, 10, 100, None), 100);
    assert_eq!(kept, DispatchDecision::Forwarded);

    while dispatcher.output_len() > 5 {
        dispatcher.take_output().expect("queued frame");
    }
    let resumed = dispatcher.offer(1, StreamPriority::Normal, bgra_frame(4, 4, 11, 100, None), 100);
    assert_eq!(resumed, DispatchDecision::Forwarded);
}

#[test]
fn test_priority_ranks() {
    assert!(StreamPriority::Critical.rank() > StreamPriority::High.rank());
    assert!(StreamPriority::High.rank() > StreamPriority::Normal.rank());
}

#[test]
fn test_processor_two_damage_rectangles() {
    // Two separated damage regions survive merging and yield exactly two
    // rectangles per update, in insertion order, across five frames.
    let processor_config = ProcessorConfig::default();
    let mut processor = FrameProcessor::new(processor_config, 1920, 1080);
    for i in 0..5u64 {
        let damage = vec![DamageRegion::new(0, 0, 64, 64), DamageRegion::new(100, 100, 100, 100)];
        let frame = bgra_frame(1920, 1080, i, i * 20, Some(damage));
        let update = processor
            .process_frame(&frame, i * 20_000, 0, false, RdpPixelFormat::BgrX32)
            .expect("processed")
            .expect("update");
        assert_eq!(update.rectangles.len(), 2);
        assert_eq!(update.rectangles[0].rectangle.left, 0);
        assert_eq!(update.rectangles[0].rectangle.top, 0);
        assert_eq!(update.rectangles[1].rectangle.left, 100);
        assert_eq!(update.sequence, i);
        // Strides are 64-byte aligned.
        for rect in &update.rectangles {
            let stride = rect.data.len() / rect.height as usize;
            assert_eq!(stride % 64, 0);
        }
    }
    assert_eq!(processor.stats().frames_processed, 5);
    assert_eq!(processor.stats().frames_rate_limited, 0);
}

#[test]
fn test_processor_full_update() {
    // Damage past the threshold turns into a single full-frame rectangle.
    let mut processor = FrameProcessor::new(ProcessorConfig::default(), 100, 100);
    let damage = vec![DamageRegion::new(0, 0, 80, 80)];
    let frame = bgra_frame(100, 100, 0, 0, Some(damage));
    let update = processor
        .process_frame(&frame, 0, 0, false, RdpPixelFormat::BgrX32)
        .expect("processed")
        .expect("update");
    assert_eq!(update.rectangles.len(), 1);
    let rect = &update.rectangles[0].rectangle;
    assert_eq!((rect.left, rect.top, rect.right, rect.bottom), (0, 0, 100, 100));
}

#[test]
fn test_processor_rate_limits() {
    // A second frame arriving immediately is dropped by the rate limiter.
    let mut processor = FrameProcessor::new(ProcessorConfig::default(), 4, 4);
    let first = bgra_frame(4, 4, 0, 0, None);
    assert!(processor
        .process_frame(&first, 0, 0, false, RdpPixelFormat::BgrX32)
        .expect("processed")
        .is_some());
    let second = bgra_frame(4, 4, 1, 1, None);
    assert!(processor
        .process_frame(&second, 10, 0, false, RdpPixelFormat::BgrX32)
        .expect("processed")
        .is_none());
    assert_eq!(processor.stats().frames_rate_limited, 1);
}

#[test]
fn test_processor_nv12_pipeline() {
    // A two-by-two black NV12 frame converts and fills one full-frame
    // 16-bit rectangle.
    let mut processor = FrameProcessor::new(ProcessorConfig::default(), 2, 2);
    let frame = VideoFrame {
        width: 2,
        height: 2,
        stride: 2,
        format: PixelFormat::NV12,
        data: vec![16, 16, 16, 16, 128, 128],
        timestamp_ms: 0,
        sequence: 0,
        damage: None,
    };
    let update = processor
        .process_frame(&frame, 0, 0, false, RdpPixelFormat::BgrX32)
        .expect("processed")
        .expect("update");
    assert_eq!(update.rectangles.len(), 1);
    let rect = &update.rectangles[0];
    assert_eq!(rect.bits_per_pixel, 32);
    // Near-black pixels with opaque padding bytes.
    assert!(rect.data[0] < 5 && rect.data[1] < 5 && rect.data[2] < 5);
    assert_eq!(rect.data[3], 255);
}

#[test]
fn test_dispatcher_per_stream_stats() {
    // Each stream gets its own received/dropped row; drops of one stream
    // leave the other's counters alone.
    let mut dispatcher = FrameDispatcher::new(DispatcherConfig::default());
    assert_eq!(dispatcher.offer(7, StreamPriority::Normal, bgra_frame(4, 4, 1, 950, None), 1000), DispatchDecision::Forwarded);
    assert_eq!(dispatcher.offer(9, StreamPriority::Normal, bgra_frame(4, 4, 1, 100, None), 1000), DispatchDecision::DroppedAged);
    assert_eq!(dispatcher.offer(7, StreamPriority::Normal, bgra_frame(4, 4, 2, 960, None), 1000), DispatchDecision::Forwarded);
    let rows = dispatcher.stream_stats();
    assert_eq!(rows.len(), 2);
    assert_eq!((rows[0].stream_id, rows[0].received, rows[0].dropped), (7, 2, 0));
    assert_eq!((rows[1].stream_id, rows[1].received, rows[1].dropped), (9, 1, 1));
}

#[test]
fn test_next_input_priority_dispatch() {
    // Under priority dispatch the highest-ranked non-empty input wins,
    // whatever the rotation says.
    let dispatcher = FrameDispatcher::new(DispatcherConfig::default());
    let inputs = vec![
        InputStatus { stream_id: 1, priority: StreamPriority::Normal, queued: 5 },
        InputStatus { stream_id: 2, priority: StreamPriority::Critical, queued: 1 },
        InputStatus { stream_id: 3, priority: StreamPriority::High, queued: 9 },
    ];
    assert_eq!(dispatcher.next_input(&inputs, 0), Some(1));
    assert_eq!(dispatcher.next_input(&inputs, 2), Some(1));
    // An empty high-priority input is no candidate.
    let inputs = vec![
        InputStatus { stream_id: 1, priority: StreamPriority::Normal, queued: 5 },
        InputStatus { stream_id: 2, priority: StreamPriority::Critical, queued: 0 },
    ];
    assert_eq!(dispatcher.next_input(&inputs, 0), Some(0));
    // All empty: nothing to drain.
    let inputs = vec![
        InputStatus { stream_id: 1, priority: StreamPriority::Normal, queued: 0 },
    ];
    assert_eq!(dispatcher.next_input(&inputs, 0), None);
    assert_eq!(dispatcher.next_input(&Vec::new(), 0), None);
}

#[test]
fn test_next_input_load_balancing() {
    // With load balancing, equal-priority inputs rotate: the scan starts
    // just past the last-served input.
    let dispatcher = FrameDispatcher::new(DispatcherConfig::default());
    let inputs = vec![
        InputStatus { stream_id: 1, priority: StreamPriority::Normal, queued: 3 },
        InputStatus { stream_id: 2, priority: StreamPriority::Normal, queued: 3 },
        InputStatus { stream_id: 3, priority: StreamPriority::Normal, queued: 3 },
    ];
    assert_eq!(dispatcher.next_input(&inputs, 0), Some(1));
    assert_eq!(dispatcher.next_input(&inputs, 1), Some(2));
    assert_eq!(dispatcher.next_input(&inputs, 2), Some(0));

    // Without load balancing the scan always starts at the front.
    let config = DispatcherConfig { load_balancing: false, ..Default::default() };
    let fixed = FrameDispatcher::new(config);
    assert_eq!(fixed.next_input(&inputs, 0), Some(0));
    assert_eq!(fixed.next_input(&inputs, 1), Some(0));

    // Without priority dispatch, rotation ignores priorities entirely.
    let config = DispatcherConfig { priority_dispatch: false, ..Default::default() };
    let flat = FrameDispatcher::new(config);
    let mixed = vec![
        InputStatus { stream_id: 1, priority: StreamPriority::Normal, queued: 3 },
        InputStatus { stream_id: 2, priority: StreamPriority::Critical, queued: 3 },
    ];
    assert_eq!(flat.next_input(&mixed, 1), Some(0));
}
