//! YUV conversion behavior.

use lamco_wayland::format::PixelFormat;
use lamco_wayland::yuv::{i420_to_bgra, nv12_to_bgra, yuv_to_rgb, yuy2_to_bgra, YuvConverter};

#[test]
fn test_yuv_to_rgb() {
    // Black: limited-range floor luma, neutral chroma.
    let (r, g, b) = yuv_to_rgb(16, 128, 128);
    assert_eq!((r, g, b), (0, 0, 0));

    // White: limited-range ceiling luma.
    let (r, g, b) = yuv_to_rgb(235, 128, 128);
    assert!(r > 250 && g > 250 && b > 250);
}

#[test]
fn test_nv12_to_bgra() {
    // A black two-by-two frame: four luma bytes and one interleaved chroma
    // pair.
    let nv12 = vec![16, 16, 16, 16, 128, 128];
    let bgra = nv12_to_bgra(&nv12, 2, 2);

    assert_eq!(bgra.len(), 16);
    assert!(bgra[0] < 5 && bgra[1] < 5 && bgra[2] < 5);
    assert_eq!(bgra[3], 255);
}

#[test]
fn test_i420_to_bgra() {
    let i420 = vec![
        16, 16, 16, 16, // luma plane
        128, // U plane
        128, // V plane
    ];
    let bgra = i420_to_bgra(&i420, 2, 2);

    assert_eq!(bgra.len(), 16);
    assert!(bgra[0] < 5 && bgra[1] < 5 && bgra[2] < 5);
}

#[test]
fn test_yuy2_to_bgra() {
    let yuy2 = vec![
        16, 128, 16, 128, // first row
        16, 128, 16, 128, // second row
    ];
    let bgra = yuy2_to_bgra(&yuy2, 2, 2);

    assert_eq!(bgra.len(), 16);
    assert!(bgra[0] < 5 && bgra[1] < 5 && bgra[2] < 5);
}

#[test]
fn test_yuv_converter() {
    let mut converter = YuvConverter::new();

    assert!(YuvConverter::needs_conversion(PixelFormat::NV12));
    assert!(YuvConverter::needs_conversion(PixelFormat::I420));
    assert!(!YuvConverter::needs_conversion(PixelFormat::BGRA));

    let nv12 = vec![16, 16, 16, 16, 128, 128];
    let result = converter.convert_to_bgra(&nv12, 2, 2, PixelFormat::NV12);
    assert!(result.is_some());
    assert_eq!(result.expect("should have result").len(), 16);
}

#[test]
fn test_white_nv12_frame() {
    // White input maps to full intensity on every channel.
    let nv12 = vec![235, 235, 235, 235, 128, 128];
    let bgra = nv12_to_bgra(&nv12, 2, 2);
    for p in 0..4 {
        assert!(bgra[4 * p] >= 250 && bgra[4 * p + 1] >= 250 && bgra[4 * p + 2] >= 250);
        assert_eq!(bgra[4 * p + 3], 255);
    }
}
