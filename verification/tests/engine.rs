//! Crate-level helpers: recommended sizes and the RDP stride.

use lamco_wayland::format::{
    calculate_rdp_stride, recommended_buffer_count, recommended_frame_buffer_size,
    recommended_queue_size, supported_formats, PixelFormat, RdpPixelFormat,
};
use lamco_wayland::VERSION;

#[test]
fn test_recommended_buffer_count() {
    assert_eq!(recommended_buffer_count(30), 2);
    assert_eq!(recommended_buffer_count(60), 3);
    assert_eq!(recommended_buffer_count(144), 5);
}

#[test]
fn test_recommended_frame_buffer_size() {
    assert_eq!(recommended_frame_buffer_size(30), 30);
    assert_eq!(recommended_frame_buffer_size(60), 60);
    assert_eq!(recommended_frame_buffer_size(144), 144);
    assert_eq!(recommended_frame_buffer_size(200), 144);
    assert_eq!(recommended_frame_buffer_size(10), 30);
}

#[test]
fn test_recommended_queue_size() {
    assert_eq!(recommended_queue_size(30), 15);
    assert_eq!(recommended_queue_size(60), 30);
    assert_eq!(recommended_queue_size(144), 72);
    assert_eq!(recommended_queue_size(240), 72);
}

#[test]
fn test_calculate_rdp_stride() {
    assert_eq!(calculate_rdp_stride(1920, RdpPixelFormat::BgrX32), 7680);
    assert_eq!(calculate_rdp_stride(1921, RdpPixelFormat::BgrX32), 7744);
}

#[test]
fn test_stride_is_aligned() {
    for w in [1u32, 3, 17, 100, 641, 1000] {
        for f in [
            RdpPixelFormat::BgrX32,
            RdpPixelFormat::Bgr24,
            RdpPixelFormat::Rgb16,
            RdpPixelFormat::Rgb15,
        ] {
            let stride = calculate_rdp_stride(w, f);
            assert_eq!(stride % 64, 0);
            assert!(stride >= w * f.bytes_per_pixel() as u32);
        }
    }
}

#[test]
fn test_supported_formats() {
    let formats = supported_formats();
    assert!(!formats.is_empty());
    assert_eq!(formats[0], PixelFormat::BGRx);
}

#[test]
fn lib_test_version() {
    assert!(!VERSION.is_empty());
}
