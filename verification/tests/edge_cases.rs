//! Edge cases: error variants and boundary inputs.

use lamco_wayland::clipboard::percent_decode;
use lamco_wayland::dispatcher::{DispatchDecision, DispatcherConfig, FrameDispatcher, StreamPriority};
use lamco_wayland::format::{PixelFormat, RdpPixelFormat};
use lamco_wayland::frame::VideoFrame;
use lamco_wayland::format::ProcessingError;
use lamco_wayland::processor::{FrameProcessor, ProcessorConfig};
use lamco_wayland::yuv::nv12_to_bgra;

fn frame(w: u32, h: u32, format: PixelFormat, data: Vec<u8>) -> VideoFrame {
    VideoFrame {
        width: w,
        height: h,
        stride: w * 4,
        format,
        data,
        timestamp_ms: 0,
        sequence: 0,
        damage: None,
    }
}

#[test]
fn test_decode_keeps_invalid_escapes() {
    assert_eq!(percent_decode("a%zz"), "a%zz");
    assert_eq!(percent_decode("%"), "%");
    assert_eq!(percent_decode(""), "");
}

#[test]
fn test_zero_size_conversion() {
    let empty = nv12_to_bgra(&[], 0, 0);
    assert!(empty.is_empty());
}

#[test]
fn test_processor_rejects_zero_dimensions() {
    let mut processor = FrameProcessor::new(ProcessorConfig::default(), 0, 0);
    let bad = frame(0, 0, PixelFormat::BGRA, vec![]);
    let result = processor.process_frame(&bad, 0, 0, false, RdpPixelFormat::BgrX32);
    assert!(matches!(result, Err(ProcessingError::InvalidDimensions)));
}

#[test]
fn test_processor_rejects_odd_yuv_dimensions() {
    let mut processor = FrameProcessor::new(ProcessorConfig::default(), 3, 3);
    let bad = frame(3, 3, PixelFormat::NV12, vec![0u8; 32]);
    let result = processor.process_frame(&bad, 0, 0, false, RdpPixelFormat::BgrX32);
    assert!(matches!(result, Err(ProcessingError::InvalidDimensions)));
}

#[test]
fn test_processor_rejects_short_buffer() {
    let mut processor = FrameProcessor::new(ProcessorConfig::default(), 4, 4);
    let bad = frame(4, 4, PixelFormat::BGRA, vec![0u8; 8]);
    let result = processor.process_frame(&bad, 0, 0, false, RdpPixelFormat::BgrX32);
    assert!(matches!(result, Err(ProcessingError::BufferTooSmall)));
}

#[test]
fn test_processor_rejects_unconverted_formats() {
    let mut processor = FrameProcessor::new(ProcessorConfig::default(), 4, 4);
    let bad = frame(4, 4, PixelFormat::RGB, vec![0u8; 64]);
    let result = processor.process_frame(&bad, 0, 0, false, RdpPixelFormat::BgrX32);
    assert!(matches!(result, Err(ProcessingError::UnsupportedFormat)));
}

#[test]
fn test_processor_skip_hint() {
    let mut processor = FrameProcessor::new(ProcessorConfig::default(), 4, 4);
    let good = frame(4, 4, PixelFormat::BGRA, vec![0u8; 64]);
    let result = processor.process_frame(&good, 0, 0, true, RdpPixelFormat::BgrX32);
    assert!(result.expect("processed").is_none());
    assert_eq!(processor.stats().frames_skipped_quality, 1);
}

#[test]
fn test_dispatcher_full_queue_drops_everything() {
    let config = DispatcherConfig {
        channel_size: 2,
        enable_backpressure: false,
        ..Default::default()
    };
    let mut dispatcher = FrameDispatcher::new(config);
    for seq in 0..2u64 {
        let f = frame(4, 4, PixelFormat::BGRA, vec![0u8; 64]);
        let _ = seq;
        assert_eq!(dispatcher.offer(1, StreamPriority::Critical, f, 0), DispatchDecision::Forwarded);
    }
    let f = frame(4, 4, PixelFormat::BGRA, vec![0u8; 64]);
    assert_eq!(
        dispatcher.offer(1, StreamPriority::Critical, f, 0),
        DispatchDecision::DroppedQueueFull
    );
}

#[test]
fn test_rgb16_packing() {
    // A mid-gray BGRA pixel packs into 5:6:5 as expected.
    let mut processor = FrameProcessor::new(ProcessorConfig::default(), 2, 2);
    let data = vec![128u8; 2 * 2 * 4];
    let f = frame(2, 2, PixelFormat::BGRA, data);
    let update = processor
        .process_frame(&f, 0, 0, false, RdpPixelFormat::Rgb16)
        .expect("processed")
        .expect("update");
    let rect = &update.rectangles[0];
    assert_eq!(rect.bits_per_pixel, 16);
    // r = g = b = 128: value = 16 * 2048 + 32 * 32 + 16 = 33808.
    let value = (rect.data[0] as u16) | ((rect.data[1] as u16) << 8);
    assert_eq!(value, 33808);
}
