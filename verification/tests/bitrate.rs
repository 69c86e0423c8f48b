//! Adaptive bitrate controller behavior.  Ratios are integers in
//! thousandths: a congestion level of 500 means half scale.

use lamco_wayland::bitrate::BitrateController;
use lamco_wayland::config::{AdaptiveBitrateConfig, QualityPreset};

fn test_config() -> AdaptiveBitrateConfig {
    AdaptiveBitrateConfig {
        min_bitrate_kbps: 500,
        max_bitrate_kbps: 10000,
        target_fps: 30,
        quality_preset: QualityPreset::Balanced,
        calculation_window: 10,
    }
}

#[test]
fn test_controller_creation() {
    let controller = BitrateController::new(test_config());

    // Starts at the midpoint of the range.
    assert_eq!(controller.recommended_bitrate(), 5250);
    assert_eq!(controller.congestion_level(), 0);
}

#[test]
fn test_frame_recording() {
    let mut controller = BitrateController::new(test_config());

    for _ in 0..5 {
        controller.record_frame(5000, 50000, 0);
    }

    assert_eq!(controller.stats().frames_recorded, 5);
    assert!(controller.stats().total_bytes > 0);
}

#[test]
fn test_congestion_response() {
    let mut controller = BitrateController::new(test_config());

    // Ten percent packet loss at 200 ms round-trip.
    controller.record_network_feedback(100, 200);
    assert!(controller.congestion_level() > 0);

    let quality = controller.recommended_quality();
    assert!(quality < 50);
}

#[test]
fn test_frame_skipping() {
    let mut controller = BitrateController::new(test_config());

    // Low congestion: nothing is skipped.
    assert!(!controller.should_skip_frame());

    // Total packet loss drives congestion to full scale.
    controller.record_network_feedback(1000, 0);
    assert!(controller.congestion_level() >= 500);
    let mut skipped = false;
    for _ in 0..10 {
        if controller.should_skip_frame() {
            skipped = true;
            break;
        }
    }
    assert!(skipped);
}

#[test]
fn test_quality_presets() {
    let mut config = test_config();

    config.quality_preset = QualityPreset::LowLatency;
    let low_latency = BitrateController::new(config.clone());

    config.quality_preset = QualityPreset::HighQuality;
    let high_quality = BitrateController::new(config);

    assert!(low_latency.recommended_quality() < high_quality.recommended_quality());
}

#[test]
fn bitrate_test_stats() {
    let mut controller = BitrateController::new(test_config());

    controller.record_frame(5000, 50000, 0);
    controller.record_dropped_frame();

    let stats = controller.stats();
    assert_eq!(stats.frames_recorded, 1);
    assert_eq!(stats.frames_dropped, 1);
    assert_eq!(stats.total_bytes, 50000);
}

#[test]
fn test_reset() {
    let mut controller = BitrateController::new(test_config());

    controller.record_frame(5000, 50000, 0);
    controller.record_network_feedback(1000, 0);
    assert!(controller.congestion_level() > 0);

    controller.reset();

    assert_eq!(controller.congestion_level(), 0);
    assert_eq!(controller.stats().frames_recorded, 0);
}

#[test]
fn test_congestion_reduces_bitrate() {
    // Sustained congestion: feedback drives congestion past 300 per mille,
    // a later rate-limited adjustment lowers the bitrate, and under
    // half-scale congestion at least one frame is skipped.
    let mut controller = BitrateController::new(test_config());
    for i in 0..20u64 {
        controller.record_frame(2000, 30000 + i * 1000, i);
    }
    let before = controller.recommended_bitrate();
    controller.record_network_feedback(150, 300);
    controller.record_network_feedback(150, 300);
    assert!(controller.congestion_level() >= 300);

    // The next recorded frame past the adjustment interval adjusts.
    controller.record_frame(2000, 30000, 10_000);
    assert!(controller.recommended_bitrate() < before);

    controller.record_network_feedback(1000, 300);
    assert!(controller.congestion_level() >= 500);
    let mut skipped = false;
    for _ in 0..30 {
        if controller.should_skip_frame() {
            skipped = true;
        }
    }
    assert!(skipped);
}
