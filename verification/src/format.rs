//! Pixel-format identification and size arithmetic.
//!
//! Names the pixel formats that the capture transport can deliver and the
//! RDP-compatible output formats, and computes the derived sizes: bytes per
//! pixel, 64-byte-aligned RDP row strides, and recommended channel depths.

use vstd::prelude::*;

verus! {

/// A pixel format as delivered by the capture transport.
///
/// The RGB-family formats are packed; `NV12` and `I420` are 4:2:0 planar and
/// have no single bytes-per-pixel figure.
#[derive(Clone, Copy, Debug, PartialEq, Eq, Structural)]
pub enum PixelFormat {
    /// 32-bit blue, green, red, alpha.
    BGRA,
    /// 32-bit blue, green, red, padding.
    BGRx,
    /// 32-bit red, green, blue, alpha.
    RGBA,
    /// 32-bit red, green, blue, padding.
    RGBx,
    /// 24-bit red, green, blue.
    RGB,
    /// 24-bit blue, green, red.
    BGR,
    /// 4:2:0 semiplanar YUV with an interleaved chroma plane.
    NV12,
    /// 4:2:0 planar YUV with separate chroma planes.
    I420,
    /// 4:2:2 packed YUV, two pixels per four bytes.
    YUY2,
}

/// Bytes per pixel of a packed format; `None` for the planar formats.
pub open spec fn spec_bytes_per_pixel(format: PixelFormat) -> Option<u8> {
    match format {
        PixelFormat::BGRA | PixelFormat::BGRx | PixelFormat::RGBA | PixelFormat::RGBx => Some(4u8),
        PixelFormat::RGB | PixelFormat::BGR => Some(3u8),
        PixelFormat::YUY2 => Some(2u8),
        PixelFormat::NV12 | PixelFormat::I420 => None,
    }
}

impl PixelFormat {
    /// Bytes per pixel for packed formats; planar formats have none.
    pub fn bytes_per_pixel(&self) -> (r: Option<u8>)
        ensures
            r == spec_bytes_per_pixel(*self),
    {
        match self {
            PixelFormat::BGRA | PixelFormat::BGRx | PixelFormat::RGBA | PixelFormat::RGBx => {
                Some(4u8)
            }
            PixelFormat::RGB | PixelFormat::BGR => Some(3u8),
            PixelFormat::YUY2 => Some(2u8),
            PixelFormat::NV12 | PixelFormat::I420 => None,
        }
    }

    /// Whether the format is one of the YUV family that the codec converts.
    pub fn is_yuv(&self) -> (r: bool)
        ensures
            r == (*self == PixelFormat::NV12 || *self == PixelFormat::I420 || *self
                == PixelFormat::YUY2),
    {
        match self {
            PixelFormat::NV12 | PixelFormat::I420 | PixelFormat::YUY2 => true,
            _ => false,
        }
    }
}

/// Why a frame could not be processed.
#[derive(Debug, Clone, Copy, PartialEq, Eq, Structural)]
pub enum ProcessingError {
    /// The frame's dimensions are zero, odd where the format forbids it, or
    /// beyond the 16-bit RDP coordinate space.
    InvalidDimensions,
    /// The frame's buffer is smaller than its format and size require.
    BufferTooSmall,
    /// The frame's pixel format is not one the processor converts.
    UnsupportedFormat,
}

/// An RDP-compatible output pixel format.
#[derive(Clone, Copy, Debug, PartialEq, Eq, Structural)]
pub enum RdpPixelFormat {
    /// 32-bit blue, green, red, padding.
    BgrX32,
    /// 24-bit blue, green, red.
    Bgr24,
    /// 16-bit red, green, blue, 5:6:5.
    Rgb16,
    /// 15-bit red, green, blue, 5:5:5.
    Rgb15,
}

/// Bytes per pixel of an RDP output format.
pub open spec fn spec_rdp_bytes_per_pixel(format: RdpPixelFormat) -> u8 {
    match format {
        RdpPixelFormat::BgrX32 => 4u8,
        RdpPixelFormat::Bgr24 => 3u8,
        RdpPixelFormat::Rgb16 => 2u8,
        RdpPixelFormat::Rgb15 => 2u8,
    }
}

impl RdpPixelFormat {
    /// Bytes per pixel of this output format.
    pub fn bytes_per_pixel(&self) -> (r: u8)
        ensures
            r == spec_rdp_bytes_per_pixel(*self),
    {
        match self {
            RdpPixelFormat::BgrX32 => 4u8,
            RdpPixelFormat::Bgr24 => 3u8,
            RdpPixelFormat::Rgb16 => 2u8,
            RdpPixelFormat::Rgb15 => 2u8,
        }
    }

    /// Bits per pixel of this output format.
    pub fn bits_per_pixel(&self) -> (r: u8)
        ensures
            r == 8 * spec_rdp_bytes_per_pixel(*self),
    {
        match self {
            RdpPixelFormat::BgrX32 => 32u8,
            RdpPixelFormat::Bgr24 => 24u8,
            RdpPixelFormat::Rgb16 => 16u8,
            RdpPixelFormat::Rgb15 => 16u8,
        }
    }
}

/// The row stride that the RDP layer uses: the row's bytes rounded up to the
/// next multiple of 64.
pub open spec fn spec_rdp_stride(width: nat, bpp: nat) -> nat {
    ((width * bpp + 63) / 64) * 64
}

/// Calculate the RDP-compatible stride for a row of `width` pixels.
///
/// Every stride this returns is a multiple of 64 bytes and covers the row.
pub fn calculate_rdp_stride(width: u32, format: RdpPixelFormat) -> (r: u32)
    requires
        width * spec_rdp_bytes_per_pixel(format) + 63 <= u32::MAX,
    ensures
        r == spec_rdp_stride(width as nat, spec_rdp_bytes_per_pixel(format) as nat),
        r % 64 == 0,
        width * spec_rdp_bytes_per_pixel(format) <= r,
        r < width * spec_rdp_bytes_per_pixel(format) + 64,
{
    let bpp = format.bytes_per_pixel() as u32;
    let row_bytes = width * bpp;
    let blocks = (row_bytes + 63) / 64;
    let r = blocks * 64;
    proof {
        let rb = row_bytes as int;
        assert(((rb + 63) / 64) * 64 % 64 == 0) by (nonlinear_arith);
        assert(rb <= ((rb + 63) / 64) * 64 < rb + 64) by (nonlinear_arith)
            requires
                rb >= 0,
        ;
    }
    r
}

/// The pixel formats the capture engine accepts, in order of preference:
/// the RGB-family formats first (no conversion needed), then the YUV
/// formats that the codec converts.
pub fn supported_formats() -> (r: Vec<PixelFormat>)
    ensures
        r@ =~= seq![
            PixelFormat::BGRx,
            PixelFormat::BGRA,
            PixelFormat::RGBx,
            PixelFormat::RGBA,
            PixelFormat::RGB,
            PixelFormat::BGR,
            PixelFormat::NV12,
            PixelFormat::YUY2,
            PixelFormat::I420,
        ],
{
    let mut r: Vec<PixelFormat> = Vec::new();
    r.push(PixelFormat::BGRx);
    r.push(PixelFormat::BGRA);
    r.push(PixelFormat::RGBx);
    r.push(PixelFormat::RGBA);
    r.push(PixelFormat::RGB);
    r.push(PixelFormat::BGR);
    r.push(PixelFormat::NV12);
    r.push(PixelFormat::YUY2);
    r.push(PixelFormat::I420);
    r
}

/// The recommended frame-queue depth for a refresh rate: half a second of
/// frames, held between 15 and 72.
pub fn recommended_queue_size(refresh_rate: u32) -> (r: usize)
    ensures
        r == if refresh_rate / 2 < 15 {
            15int
        } else if refresh_rate / 2 > 72 {
            72int
        } else {
            (refresh_rate / 2) as int
        },
{
    let half = (refresh_rate / 2) as usize;
    if half < 15 {
        15
    } else if half > 72 {
        72
    } else {
        half
    }
}

/// The recommended number of capture buffers for a refresh rate.
pub fn recommended_buffer_count(refresh_rate: u32) -> (r: u32)
    ensures
        refresh_rate <= 30 ==> r == 2,
        30 < refresh_rate <= 60 ==> r == 3,
        60 < refresh_rate <= 120 ==> r == 4,
        120 < refresh_rate ==> r == 5,
{
    if refresh_rate <= 30 {
        2
    } else if refresh_rate <= 60 {
        3
    } else if refresh_rate <= 120 {
        4
    } else {
        5
    }
}

/// The recommended frame-channel depth: about one second of frames, held
/// between 30 and 144.
pub fn recommended_frame_buffer_size(refresh_rate: u32) -> (r: usize)
    ensures
        r == if refresh_rate < 30 {
            30int
        } else if refresh_rate > 144 {
            144int
        } else {
            refresh_rate as int
        },
{
    let rate = refresh_rate as usize;
    if rate < 30 {
        30
    } else if rate > 144 {
        144
    } else {
        rate
    }
}

} // verus!
