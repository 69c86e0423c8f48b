//! Capture and bitrate configuration.
//!
//! Carries the knobs of the capture engine — buffer counts, stream limits,
//! channel depths, timeouts — and of the adaptive bitrate controller, each
//! with a builder that fills unset fields from the defaults.

use crate::format::PixelFormat;
use vstd::prelude::*;
use vstd::string::StringExecFns;

verus! {

/// Quality preset for adaptive bitrate control.
#[derive(Debug, Clone, Copy, PartialEq, Eq, Structural)]
pub enum QualityPreset {
    /// Optimize for lowest latency.
    LowLatency,
    /// Balance latency against quality.
    Balanced,
    /// Optimize for highest quality.
    HighQuality,
}

impl Default for QualityPreset {
    /// The balanced preset.
    fn default() -> (r: QualityPreset)
        ensures
            r == QualityPreset::Balanced,
    {
        QualityPreset::Balanced
    }
}

/// Configuration for adaptive bitrate control.
#[derive(Debug, Clone, Copy, PartialEq, Eq, Structural)]
pub struct AdaptiveBitrateConfig {
    /// Minimum bitrate in kbps.
    pub min_bitrate_kbps: u32,
    /// Maximum bitrate in kbps.
    pub max_bitrate_kbps: u32,
    /// Target frames per second.
    pub target_fps: u32,
    /// Quality preset.
    pub quality_preset: QualityPreset,
    /// Window size for bitrate calculations, in frames.
    pub calculation_window: usize,
}

/// The default adaptive bitrate configuration.
pub open spec fn spec_default_bitrate_config() -> AdaptiveBitrateConfig {
    AdaptiveBitrateConfig {
        min_bitrate_kbps: 500,
        max_bitrate_kbps: 50000,
        target_fps: 30,
        quality_preset: QualityPreset::Balanced,
        calculation_window: 30,
    }
}

impl Default for AdaptiveBitrateConfig {
    /// 500 to 50000 kbps at 30 fps, balanced, over a 30-frame window.
    fn default() -> (r: AdaptiveBitrateConfig)
        ensures
            r == spec_default_bitrate_config(),
    {
        AdaptiveBitrateConfig {
            min_bitrate_kbps: 500,
            max_bitrate_kbps: 50000,
            target_fps: 30,
            quality_preset: QualityPreset::Balanced,
            calculation_window: 30,
        }
    }
}

impl AdaptiveBitrateConfig {
    /// Create a new builder.
    pub fn builder() -> (r: AdaptiveBitrateConfigBuilder)
        ensures
            r == spec_empty_bitrate_builder(),
    {
        AdaptiveBitrateConfigBuilder::default()
    }

    /// A configuration optimized for low latency.
    pub fn low_latency() -> (r: AdaptiveBitrateConfig)
        ensures
            r == (AdaptiveBitrateConfig {
                min_bitrate_kbps: 1000,
                max_bitrate_kbps: 20000,
                target_fps: 60,
                quality_preset: QualityPreset::LowLatency,
                calculation_window: 15,
            }),
    {
        AdaptiveBitrateConfig {
            min_bitrate_kbps: 1000,
            max_bitrate_kbps: 20000,
            target_fps: 60,
            quality_preset: QualityPreset::LowLatency,
            calculation_window: 15,
        }
    }

    /// A configuration optimized for high quality.
    pub fn high_quality() -> (r: AdaptiveBitrateConfig)
        ensures
            r == (AdaptiveBitrateConfig {
                min_bitrate_kbps: 5000,
                max_bitrate_kbps: 100000,
                target_fps: 30,
                quality_preset: QualityPreset::HighQuality,
                calculation_window: 60,
            }),
    {
        AdaptiveBitrateConfig {
            min_bitrate_kbps: 5000,
            max_bitrate_kbps: 100000,
            target_fps: 30,
            quality_preset: QualityPreset::HighQuality,
            calculation_window: 60,
        }
    }
}

/// Builder for `AdaptiveBitrateConfig`.
#[derive(Debug, Clone, Copy, PartialEq, Eq, Structural)]
pub struct AdaptiveBitrateConfigBuilder {
    /// Minimum bitrate in kbps, when set.
    pub min_bitrate_kbps: Option<u32>,
    /// Maximum bitrate in kbps, when set.
    pub max_bitrate_kbps: Option<u32>,
    /// Target frames per second, when set.
    pub target_fps: Option<u32>,
    /// Quality preset, when set.
    pub quality_preset: Option<QualityPreset>,
    /// Calculation window in frames, when set.
    pub calculation_window: Option<usize>,
}

/// A bitrate builder with no field set.
pub open spec fn spec_empty_bitrate_builder() -> AdaptiveBitrateConfigBuilder {
    AdaptiveBitrateConfigBuilder {
        min_bitrate_kbps: None,
        max_bitrate_kbps: None,
        target_fps: None,
        quality_preset: None,
        calculation_window: None,
    }
}

impl Default for AdaptiveBitrateConfigBuilder {
    /// A builder with no field set.
    fn default() -> (r: AdaptiveBitrateConfigBuilder)
        ensures
            r == spec_empty_bitrate_builder(),
    {
        AdaptiveBitrateConfigBuilder {
            min_bitrate_kbps: None,
            max_bitrate_kbps: None,
            target_fps: None,
            quality_preset: None,
            calculation_window: None,
        }
    }
}

/// The configuration a bitrate builder produces: each set field, with the
/// defaults for the rest.
pub open spec fn spec_bitrate_build(b: AdaptiveBitrateConfigBuilder) -> AdaptiveBitrateConfig {
    let d = spec_default_bitrate_config();
    AdaptiveBitrateConfig {
        min_bitrate_kbps: if b.min_bitrate_kbps is Some {
            b.min_bitrate_kbps->0
        } else {
            d.min_bitrate_kbps
        },
        max_bitrate_kbps: if b.max_bitrate_kbps is Some {
            b.max_bitrate_kbps->0
        } else {
            d.max_bitrate_kbps
        },
        target_fps: if b.target_fps is Some {
            b.target_fps->0
        } else {
            d.target_fps
        },
        quality_preset: if b.quality_preset is Some {
            b.quality_preset->0
        } else {
            d.quality_preset
        },
        calculation_window: if b.calculation_window is Some {
            b.calculation_window->0
        } else {
            d.calculation_window
        },
    }
}

impl AdaptiveBitrateConfigBuilder {
    /// Set the minimum bitrate in kbps.
    pub fn min_bitrate_kbps(self, kbps: u32) -> (r: AdaptiveBitrateConfigBuilder)
        ensures
            r == (AdaptiveBitrateConfigBuilder { min_bitrate_kbps: Some(kbps), ..self }),
    {
        AdaptiveBitrateConfigBuilder { min_bitrate_kbps: Some(kbps), ..self }
    }

    /// Set the maximum bitrate in kbps.
    pub fn max_bitrate_kbps(self, kbps: u32) -> (r: AdaptiveBitrateConfigBuilder)
        ensures
            r == (AdaptiveBitrateConfigBuilder { max_bitrate_kbps: Some(kbps), ..self }),
    {
        AdaptiveBitrateConfigBuilder { max_bitrate_kbps: Some(kbps), ..self }
    }

    /// Set the target frame rate.
    pub fn target_fps(self, fps: u32) -> (r: AdaptiveBitrateConfigBuilder)
        ensures
            r == (AdaptiveBitrateConfigBuilder { target_fps: Some(fps), ..self }),
    {
        AdaptiveBitrateConfigBuilder { target_fps: Some(fps), ..self }
    }

    /// Set the quality preset.
    pub fn quality_preset(self, preset: QualityPreset) -> (r: AdaptiveBitrateConfigBuilder)
        ensures
            r == (AdaptiveBitrateConfigBuilder { quality_preset: Some(preset), ..self }),
    {
        AdaptiveBitrateConfigBuilder { quality_preset: Some(preset), ..self }
    }

    /// Set the calculation window size, in frames.
    pub fn calculation_window(self, frames: usize) -> (r: AdaptiveBitrateConfigBuilder)
        ensures
            r == (AdaptiveBitrateConfigBuilder { calculation_window: Some(frames), ..self }),
    {
        AdaptiveBitrateConfigBuilder { calculation_window: Some(frames), ..self }
    }

    /// Build the configuration, with defaults for unset fields.
    pub fn build(self) -> (r: AdaptiveBitrateConfig)
        ensures
            r == spec_bitrate_build(self),
    {
        let defaults = AdaptiveBitrateConfig::default();
        AdaptiveBitrateConfig {
            min_bitrate_kbps: match self.min_bitrate_kbps {
                Some(v) => v,
                None => defaults.min_bitrate_kbps,
            },
            max_bitrate_kbps: match self.max_bitrate_kbps {
                Some(v) => v,
                None => defaults.max_bitrate_kbps,
            },
            target_fps: match self.target_fps {
                Some(v) => v,
                None => defaults.target_fps,
            },
            quality_preset: match self.quality_preset {
                Some(v) => v,
                None => defaults.quality_preset,
            },
            calculation_window: match self.calculation_window {
                Some(v) => v,
                None => defaults.calculation_window,
            },
        }
    }
}

/// Configuration for the capture engine.
#[derive(Debug, Clone)]
pub struct PipeWireConfig {
    /// Number of buffers to allocate per stream.
    pub buffer_count: u32,
    /// Preferred pixel format for capture.
    pub preferred_format: Option<PixelFormat>,
    /// Whether to use zero-copy buffer transfer when available.
    pub use_dmabuf: bool,
    /// Maximum number of concurrent streams.
    pub max_streams: usize,
    /// Frame channel depth per stream.
    pub frame_buffer_size: usize,
    /// Enable hardware cursor extraction.
    pub enable_cursor: bool,
    /// Enable damage-region tracking.
    pub enable_damage_tracking: bool,
    /// Adaptive bitrate configuration, when enabled.
    pub adaptive_bitrate: Option<AdaptiveBitrateConfig>,
    /// Stream name prefix; the stream id is appended.
    pub stream_name_prefix: String,
    /// Connection timeout in milliseconds.
    pub connection_timeout_ms: u64,
    /// Reconnect automatically on disconnect.
    pub auto_reconnect: bool,
    /// Maximum reconnection attempts.
    pub max_reconnect_attempts: u32,
}

/// The non-string fields of the default capture configuration.
pub open spec fn spec_default_config_fields(c: PipeWireConfig) -> bool {
    &&& c.buffer_count == 3
    &&& c.preferred_format == Some(PixelFormat::BGRA)
    &&& c.use_dmabuf == true
    &&& c.max_streams == 8
    &&& c.frame_buffer_size == 30
    &&& c.enable_cursor == false
    &&& c.enable_damage_tracking == false
    &&& c.adaptive_bitrate is None
    &&& c.stream_name_prefix@ == "lamco-pw"@
    &&& c.connection_timeout_ms == 5000
    &&& c.auto_reconnect == true
    &&& c.max_reconnect_attempts == 3
}

impl Default for PipeWireConfig {
    /// Three buffers, BGRA preferred, zero-copy on, at most eight streams, a
    /// 30-frame channel, a five-second connection timeout, and automatic
    /// reconnection with three attempts.
    fn default() -> (r: PipeWireConfig)
        ensures
            spec_default_config_fields(r),
    {
        PipeWireConfig {
            buffer_count: 3,
            preferred_format: Some(PixelFormat::BGRA),
            use_dmabuf: true,
            max_streams: 8,
            frame_buffer_size: 30,
            enable_cursor: false,
            enable_damage_tracking: false,
            adaptive_bitrate: None,
            stream_name_prefix: String::from_str("lamco-pw"),
            connection_timeout_ms: 5000,
            auto_reconnect: true,
            max_reconnect_attempts: 3,
        }
    }
}

/// How many of the validation limits a configuration violates.
pub open spec fn spec_violation_count(c: PipeWireConfig) -> int {
    (if c.buffer_count == 0 {
        1int
    } else {
        0int
    }) + (if c.buffer_count > 16 {
        1int
    } else {
        0int
    }) + (if c.max_streams == 0 {
        1int
    } else {
        0int
    }) + (if c.frame_buffer_size == 0 {
        1int
    } else {
        0int
    }) + (if c.connection_timeout_ms < 100 {
        1int
    } else {
        0int
    }) + (if c.stream_name_prefix@.len() == 0 {
        1int
    } else {
        0int
    })
}

/// Whether a capture configuration passes validation.
pub open spec fn spec_config_valid(c: PipeWireConfig) -> bool {
    &&& c.buffer_count >= 1
    &&& c.buffer_count <= 16
    &&& c.max_streams >= 1
    &&& c.frame_buffer_size >= 1
    &&& c.connection_timeout_ms >= 100
    &&& c.stream_name_prefix@.len() > 0
}

impl PipeWireConfig {
    /// Create a new configuration builder.
    pub fn builder() -> (r: PipeWireConfigBuilder)
        ensures
            r == spec_empty_config_builder(),
    {
        PipeWireConfigBuilder::default()
    }

    /// Validate the configuration: `Ok` exactly when every limit holds,
    /// else the list of issues, one message per violated limit.
    pub fn validate(&self) -> (r: Result<(), Vec<String>>)
        ensures
            (r is Ok) == spec_config_valid(*self),
            r is Err ==> r->Err_0@.len() == spec_violation_count(*self),
    {
        let mut issues: Vec<String> = Vec::new();
        if self.buffer_count == 0 {
            issues.push(String::from_str("buffer_count must be at least 1"));
        }
        if self.buffer_count > 16 {
            issues.push(String::from_str("buffer_count should not exceed 16"));
        }
        if self.max_streams == 0 {
            issues.push(String::from_str("max_streams must be at least 1"));
        }
        if self.frame_buffer_size == 0 {
            issues.push(String::from_str("frame_buffer_size must be at least 1"));
        }
        if self.connection_timeout_ms < 100 {
            issues.push(String::from_str("connection_timeout_ms should be at least 100ms"));
        }
        if self.stream_name_prefix.as_str().unicode_len() == 0 {
            issues.push(String::from_str("stream_name_prefix cannot be empty"));
        }
        if issues.len() == 0 {
            Ok(())
        } else {
            Err(issues)
        }
    }
}

/// Builder for `PipeWireConfig`.
#[derive(Debug, Clone)]
pub struct PipeWireConfigBuilder {
    /// Buffer count, when set.
    pub buffer_count: Option<u32>,
    /// Preferred pixel format, when set.
    pub preferred_format: Option<PixelFormat>,
    /// Zero-copy preference, when set.
    pub use_dmabuf: Option<bool>,
    /// Stream limit, when set.
    pub max_streams: Option<usize>,
    /// Frame channel depth, when set.
    pub frame_buffer_size: Option<usize>,
    /// Cursor extraction, when set.
    pub enable_cursor: Option<bool>,
    /// Damage tracking, when set.
    pub enable_damage_tracking: Option<bool>,
    /// Adaptive bitrate configuration, when set.
    pub adaptive_bitrate: Option<AdaptiveBitrateConfig>,
    /// Stream name prefix, when set.
    pub stream_name_prefix: Option<String>,
    /// Connection timeout in milliseconds, when set.
    pub connection_timeout_ms: Option<u64>,
    /// Automatic reconnection, when set.
    pub auto_reconnect: Option<bool>,
    /// Reconnection attempt limit, when set.
    pub max_reconnect_attempts: Option<u32>,
}

/// A capture builder with no field set.
pub open spec fn spec_empty_config_builder() -> PipeWireConfigBuilder {
    PipeWireConfigBuilder {
        buffer_count: None,
        preferred_format: None,
        use_dmabuf: None,
        max_streams: None,
        frame_buffer_size: None,
        enable_cursor: None,
        enable_damage_tracking: None,
        adaptive_bitrate: None,
        stream_name_prefix: None,
        connection_timeout_ms: None,
        auto_reconnect: None,
        max_reconnect_attempts: None,
    }
}

impl Default for PipeWireConfigBuilder {
    /// A builder with no field set.
    fn default() -> (r: PipeWireConfigBuilder)
        ensures
            r == spec_empty_config_builder(),
    {
        PipeWireConfigBuilder {
            buffer_count: None,
            preferred_format: None,
            use_dmabuf: None,
            max_streams: None,
            frame_buffer_size: None,
            enable_cursor: None,
            enable_damage_tracking: None,
            adaptive_bitrate: None,
            stream_name_prefix: None,
            connection_timeout_ms: None,
            auto_reconnect: None,
            max_reconnect_attempts: None,
        }
    }
}

impl PipeWireConfigBuilder {
    /// Set the number of buffers per stream.
    pub fn buffer_count(self, count: u32) -> (r: PipeWireConfigBuilder)
        ensures
            r == (PipeWireConfigBuilder { buffer_count: Some(count), ..self }),
    {
        PipeWireConfigBuilder { buffer_count: Some(count), ..self }
    }

    /// Set the preferred pixel format.
    pub fn preferred_format(self, format: PixelFormat) -> (r: PipeWireConfigBuilder)
        ensures
            r == (PipeWireConfigBuilder { preferred_format: Some(format), ..self }),
    {
        PipeWireConfigBuilder { preferred_format: Some(format), ..self }
    }

    /// Set whether to use zero-copy buffer transfer.
    pub fn use_dmabuf(self, enable: bool) -> (r: PipeWireConfigBuilder)
        ensures
            r == (PipeWireConfigBuilder { use_dmabuf: Some(enable), ..self }),
    {
        PipeWireConfigBuilder { use_dmabuf: Some(enable), ..self }
    }

    /// Set the maximum number of concurrent streams.
    pub fn max_streams(self, max: usize) -> (r: PipeWireConfigBuilder)
        ensures
            r == (PipeWireConfigBuilder { max_streams: Some(max), ..self }),
    {
        PipeWireConfigBuilder { max_streams: Some(max), ..self }
    }

    /// Set the frame channel depth.
    pub fn frame_buffer_size(self, size: usize) -> (r: PipeWireConfigBuilder)
        ensures
            r == (PipeWireConfigBuilder { frame_buffer_size: Some(size), ..self }),
    {
        PipeWireConfigBuilder { frame_buffer_size: Some(size), ..self }
    }

    /// Enable hardware cursor extraction.
    pub fn enable_cursor(self, enable: bool) -> (r: PipeWireConfigBuilder)
        ensures
            r == (PipeWireConfigBuilder { enable_cursor: Some(enable), ..self }),
    {
        PipeWireConfigBuilder { enable_cursor: Some(enable), ..self }
    }

    /// Enable damage-region tracking.
    pub fn enable_damage_tracking(self, enable: bool) -> (r: PipeWireConfigBuilder)
        ensures
            r == (PipeWireConfigBuilder { enable_damage_tracking: Some(enable), ..self }),
    {
        PipeWireConfigBuilder { enable_damage_tracking: Some(enable), ..self }
    }

    /// Set the adaptive bitrate configuration.
    pub fn adaptive_bitrate(self, config: AdaptiveBitrateConfig) -> (r: PipeWireConfigBuilder)
        ensures
            r == (PipeWireConfigBuilder { adaptive_bitrate: Some(config), ..self }),
    {
        PipeWireConfigBuilder { adaptive_bitrate: Some(config), ..self }
    }

    /// Set the stream name prefix.
    pub fn stream_name_prefix(self, prefix: &str) -> (r: PipeWireConfigBuilder)
        ensures
            r.stream_name_prefix is Some && r.stream_name_prefix->0@ == prefix@,
            r == (PipeWireConfigBuilder { stream_name_prefix: r.stream_name_prefix, ..self }),
    {
        PipeWireConfigBuilder { stream_name_prefix: Some(String::from_str(prefix)), ..self }
    }

    /// Set the connection timeout in milliseconds.
    pub fn connection_timeout_ms(self, timeout: u64) -> (r: PipeWireConfigBuilder)
        ensures
            r == (PipeWireConfigBuilder { connection_timeout_ms: Some(timeout), ..self }),
    {
        PipeWireConfigBuilder { connection_timeout_ms: Some(timeout), ..self }
    }

    /// Set whether to reconnect automatically on disconnect.
    pub fn auto_reconnect(self, enable: bool) -> (r: PipeWireConfigBuilder)
        ensures
            r == (PipeWireConfigBuilder { auto_reconnect: Some(enable), ..self }),
    {
        PipeWireConfigBuilder { auto_reconnect: Some(enable), ..self }
    }

    /// Set the maximum reconnection attempts.
    pub fn max_reconnect_attempts(self, attempts: u32) -> (r: PipeWireConfigBuilder)
        ensures
            r == (PipeWireConfigBuilder { max_reconnect_attempts: Some(attempts), ..self }),
    {
        PipeWireConfigBuilder { max_reconnect_attempts: Some(attempts), ..self }
    }

    /// Build the configuration, with defaults for unset fields.
    pub fn build(self) -> (r: PipeWireConfig)
        ensures
            r.buffer_count == if self.buffer_count is Some {
                self.buffer_count->0 as int
            } else {
                3int
            },
            r.preferred_format == if self.preferred_format is Some {
                self.preferred_format
            } else {
                Some(PixelFormat::BGRA)
            },
            r.use_dmabuf == if self.use_dmabuf is Some {
                self.use_dmabuf->0
            } else {
                true
            },
            r.max_streams == if self.max_streams is Some {
                self.max_streams->0 as int
            } else {
                8int
            },
            r.frame_buffer_size == if self.frame_buffer_size is Some {
                self.frame_buffer_size->0 as int
            } else {
                30int
            },
            r.enable_cursor == if self.enable_cursor is Some {
                self.enable_cursor->0
            } else {
                false
            },
            r.enable_damage_tracking == if self.enable_damage_tracking is Some {
                self.enable_damage_tracking->0
            } else {
                false
            },
            r.adaptive_bitrate == self.adaptive_bitrate,
            r.stream_name_prefix@ == if self.stream_name_prefix is Some {
                self.stream_name_prefix->0@
            } else {
                "lamco-pw"@
            },
            r.connection_timeout_ms == if self.connection_timeout_ms is Some {
                self.connection_timeout_ms->0 as int
            } else {
                5000int
            },
            r.auto_reconnect == if self.auto_reconnect is Some {
                self.auto_reconnect->0
            } else {
                true
            },
            r.max_reconnect_attempts == if self.max_reconnect_attempts is Some {
                self.max_reconnect_attempts->0 as int
            } else {
                3int
            },
    {
        let defaults = PipeWireConfig::default();
        PipeWireConfig {
            buffer_count: match self.buffer_count {
                Some(v) => v,
                None => defaults.buffer_count,
            },
            preferred_format: match self.preferred_format {
                Some(v) => Some(v),
                None => defaults.preferred_format,
            },
            use_dmabuf: match self.use_dmabuf {
                Some(v) => v,
                None => defaults.use_dmabuf,
            },
            max_streams: match self.max_streams {
                Some(v) => v,
                None => defaults.max_streams,
            },
            frame_buffer_size: match self.frame_buffer_size {
                Some(v) => v,
                None => defaults.frame_buffer_size,
            },
            enable_cursor: match self.enable_cursor {
                Some(v) => v,
                None => defaults.enable_cursor,
            },
            enable_damage_tracking: match self.enable_damage_tracking {
                Some(v) => v,
                None => defaults.enable_damage_tracking,
            },
            adaptive_bitrate: match self.adaptive_bitrate {
                Some(v) => Some(v),
                None => None,
            },
            stream_name_prefix: match self.stream_name_prefix {
                Some(v) => v,
                None => defaults.stream_name_prefix,
            },
            connection_timeout_ms: match self.connection_timeout_ms {
                Some(v) => v,
                None => defaults.connection_timeout_ms,
            },
            auto_reconnect: match self.auto_reconnect {
                Some(v) => v,
                None => defaults.auto_reconnect,
            },
            max_reconnect_attempts: match self.max_reconnect_attempts {
                Some(v) => v,
                None => defaults.max_reconnect_attempts,
            },
        }
    }
}

} // verus!
