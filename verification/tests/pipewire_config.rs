//! Capture and bitrate configuration behavior.

use lamco_wayland::config::{AdaptiveBitrateConfig, PipeWireConfig, QualityPreset};

#[test]
fn config_test_default_config() {
    let config = PipeWireConfig::default();

    assert_eq!(config.buffer_count, 3);
    assert!(config.use_dmabuf);
    assert_eq!(config.max_streams, 8);
    assert_eq!(config.stream_name_prefix, "lamco-pw");
}

#[test]
fn test_builder_pattern() {
    let config = PipeWireConfig::builder()
        .buffer_count(5)
        .use_dmabuf(false)
        .max_streams(4)
        .stream_name_prefix("test-capture")
        .build();

    assert_eq!(config.buffer_count, 5);
    assert!(!config.use_dmabuf);
    assert_eq!(config.max_streams, 4);
    assert_eq!(config.stream_name_prefix, "test-capture");
}

#[test]
fn test_config_validation() {
    let valid_config = PipeWireConfig::default();
    assert!(valid_config.validate().is_ok());

    let invalid_config = PipeWireConfig {
        buffer_count: 0,
        ..Default::default()
    };
    assert!(invalid_config.validate().is_err());
}

#[test]
fn test_adaptive_bitrate_presets() {
    let low_latency = AdaptiveBitrateConfig::low_latency();
    assert_eq!(low_latency.quality_preset, QualityPreset::LowLatency);
    assert_eq!(low_latency.target_fps, 60);

    let high_quality = AdaptiveBitrateConfig::high_quality();
    assert_eq!(high_quality.quality_preset, QualityPreset::HighQuality);
    assert!(high_quality.max_bitrate_kbps > low_latency.max_bitrate_kbps);
}

#[test]
fn test_adaptive_bitrate_builder() {
    let config = AdaptiveBitrateConfig::builder()
        .min_bitrate_kbps(1000)
        .max_bitrate_kbps(30000)
        .target_fps(60)
        .quality_preset(QualityPreset::LowLatency)
        .build();

    assert_eq!(config.min_bitrate_kbps, 1000);
    assert_eq!(config.max_bitrate_kbps, 30000);
    assert_eq!(config.target_fps, 60);
}
