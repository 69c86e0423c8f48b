//! BGRA to RDP bitmap conversion.
//!
//! Converts rectangles of a BGRA frame into RDP-ready bitmap data in one of
//! the wire formats, with every row padded to the 64-byte-aligned RDP
//! stride.

use crate::damage::{spec_within_frame, DamageRegion};
use crate::format::{calculate_rdp_stride, spec_rdp_bytes_per_pixel, spec_rdp_stride, RdpPixelFormat};
use vstd::prelude::*;

verus! {

/// An output rectangle in RDP coordinates.
#[derive(Debug, Clone, Copy, PartialEq, Eq, Structural)]
pub struct Rectangle {
    /// Top edge.
    pub top: u16,
    /// Left edge.
    pub left: u16,
    /// Right edge, exclusive.
    pub right: u16,
    /// Bottom edge, exclusive.
    pub bottom: u16,
}

/// One RDP bitmap rectangle: geometry, format, and stride-padded pixel
/// bytes.
#[derive(Debug)]
pub struct BitmapData {
    /// Where the rectangle lies in the frame.
    pub rectangle: Rectangle,
    /// Rectangle width in pixels.
    pub width: u16,
    /// Rectangle height in pixels.
    pub height: u16,
    /// Bits per pixel of the wire format.
    pub bits_per_pixel: u8,
    /// Whether the data is compressed; always false at this layer.
    pub compressed: bool,
    /// The pixel bytes, one stride-aligned row after another.
    pub data: Vec<u8>,
}

/// A set of bitmap rectangles for one frame.
#[derive(Debug)]
pub struct BitmapUpdate {
    /// The rectangles, in the damage set's order.
    pub rectangles: Vec<BitmapData>,
    /// Sequence number of the source frame.
    pub sequence: u64,
    /// Capture timestamp of the source frame, in milliseconds.
    pub timestamp_ms: u64,
}

/// The 5:6:5 packing of an RGB pixel.
pub open spec fn spec_rgb16_value(r: int, g: int, b: int) -> int {
    (r / 8) * 2048 + (g / 4) * 32 + b / 8
}

/// The 5:5:5 packing of an RGB pixel.
pub open spec fn spec_rgb15_value(r: int, g: int, b: int) -> int {
    (r / 8) * 1024 + (g / 8) * 32 + b / 8
}

/// The wire bytes of one pixel with the given blue, green and red values.
pub open spec fn spec_packed_pixel(b: u8, g: u8, r: u8, format: RdpPixelFormat) -> Seq<u8> {
    match format {
        RdpPixelFormat::BgrX32 => seq![b, g, r, 255u8],
        RdpPixelFormat::Bgr24 => seq![b, g, r],
        RdpPixelFormat::Rgb16 => seq![
            (spec_rgb16_value(r as int, g as int, b as int) % 256) as u8,
            (spec_rgb16_value(r as int, g as int, b as int) / 256) as u8,
        ],
        RdpPixelFormat::Rgb15 => seq![
            (spec_rgb15_value(r as int, g as int, b as int) % 256) as u8,
            (spec_rgb15_value(r as int, g as int, b as int) / 256) as u8,
        ],
    }
}

/// Pixel `(x, y)` of a converted rectangle holds the packed bytes of the
/// BGRA source pixel at `(rx + x, ry + y)` of the frame, at the row stride
/// `stride`.
pub open spec fn spec_rdp_pixel_ok(
    src: Seq<u8>,
    dst: Seq<u8>,
    fw: int,
    rx: int,
    ry: int,
    stride: int,
    format: RdpPixelFormat,
    x: int,
    y: int,
) -> bool {
    let bpp = spec_rdp_bytes_per_pixel(format) as int;
    let si = ((ry + y) * fw + rx + x) * 4;
    let o = y * stride + x * bpp;
    dst.subrange(o, o + bpp) == spec_packed_pixel(src[si], src[si + 1], src[si + 2], format)
}

/// Byte `k` of row `y` lies in the row's stride padding and is zero.
pub open spec fn spec_rdp_pad_ok(dst: Seq<u8>, stride: int, y: int, k: int) -> bool {
    dst[y * stride + k] == 0
}

/// Append the wire bytes of one pixel.
fn push_pixel(dst: &mut Vec<u8>, b: u8, g: u8, r: u8, format: RdpPixelFormat)
    ensures
        final(dst)@ == old(dst)@ + spec_packed_pixel(b, g, r, format),
{
    match format {
        RdpPixelFormat::BgrX32 => {
            dst.push(b);
            dst.push(g);
            dst.push(r);
            dst.push(255);
            proof {
                assert(dst@ =~= old(dst)@ + spec_packed_pixel(b, g, r, format));
            }
        }
        RdpPixelFormat::Bgr24 => {
            dst.push(b);
            dst.push(g);
            dst.push(r);
            proof {
                assert(dst@ =~= old(dst)@ + spec_packed_pixel(b, g, r, format));
            }
        }
        RdpPixelFormat::Rgb16 => {
            let value: u16 = ((r as u16) / 8) * 2048 + ((g as u16) / 4) * 32 + (b as u16) / 8;
            dst.push((value % 256) as u8);
            dst.push((value / 256) as u8);
            proof {
                assert(dst@ =~= old(dst)@ + spec_packed_pixel(b, g, r, format));
            }
        }
        RdpPixelFormat::Rgb15 => {
            let value: u16 = ((r as u16) / 8) * 1024 + ((g as u16) / 8) * 32 + (b as u16) / 8;
            dst.push((value % 256) as u8);
            dst.push((value / 256) as u8);
            proof {
                assert(dst@ =~= old(dst)@ + spec_packed_pixel(b, g, r, format));
            }
        }
    }
}

/// A source pixel index lies within the frame's BGRA bytes.
proof fn lemma_frame_index(fw: int, fh: int, px: int, py: int)
    requires
        0 <= px < fw,
        0 <= py < fh,
    ensures
        0 <= py * fw + px < fw * fh,
        (py * fw + px) * 4 + 3 < 4 * (fw * fh),
    decreases 0int,
{
    assert(0 <= py * fw + px && py * fw + px < fw * fh) by (nonlinear_arith)
        requires
            0 <= px < fw && 0 <= py < fh,
    ;
}

/// An output offset lies within the rectangle rows emitted so far.
proof fn lemma_row_offset(stride: int, wb: int, x: int, y: int, h: int)
    requires
        0 <= x < wb,
        wb <= stride,
        0 <= y < h,
    ensures
        0 <= y * stride + x < h * stride,
        y * stride + x < y * stride + stride,
        (y + 1) * stride == y * stride + stride,
    decreases 0int,
{
    assert(0 <= y * stride && y * stride + x < h * stride && (y + 1) * stride == y * stride
        + stride) by (nonlinear_arith)
        requires
            0 <= x < wb && wb <= stride && 0 <= y < h,
    ;
}

/// Convert one rectangle of a BGRA frame to an RDP bitmap.
///
/// The rectangle must lie within the frame, the source must hold the
/// frame's BGRA bytes, and the rectangle's edges must fit the 16-bit RDP
/// coordinate space.  Every row of the result is padded with zeros to the
/// 64-byte-aligned stride.
#[verifier::rlimit(100)]
pub fn convert_region(
    src: &[u8],
    frame_width: u32,
    frame_height: u32,
    region: DamageRegion,
    format: RdpPixelFormat,
) -> (r: BitmapData)
    requires
        spec_within_frame(region, frame_width, frame_height),
        src@.len() >= 4 * (frame_width * frame_height),
        4 * (frame_width * frame_height) <= usize::MAX,
        region.x + region.width <= u16::MAX,
        region.y + region.height <= u16::MAX,
        (region.width * 4 + 64) * region.height <= usize::MAX,
    ensures
        r.rectangle == (Rectangle {
            top: region.y as u16,
            left: region.x as u16,
            right: (region.x + region.width) as u16,
            bottom: (region.y + region.height) as u16,
        }),
        r.width == region.width as u16,
        r.height == region.height as u16,
        r.bits_per_pixel == 8 * spec_rdp_bytes_per_pixel(format),
        r.compressed == false,
        r.data@.len() == region.height * spec_rdp_stride(
            region.width as nat,
            spec_rdp_bytes_per_pixel(format) as nat,
        ),
        forall|x: int, y: int|
            0 <= x < region.width && 0 <= y < region.height ==> #[trigger] spec_rdp_pixel_ok(
                src@,
                r.data@,
                frame_width as int,
                region.x as int,
                region.y as int,
                spec_rdp_stride(
                    region.width as nat,
                    spec_rdp_bytes_per_pixel(format) as nat,
                ) as int,
                format,
                x,
                y,
            ),
        forall|y: int, k: int|
            0 <= y < region.height && region.width * spec_rdp_bytes_per_pixel(format) <= k
                < spec_rdp_stride(region.width as nat, spec_rdp_bytes_per_pixel(format) as nat)
                ==> #[trigger] spec_rdp_pad_ok(
                r.data@,
                spec_rdp_stride(
                    region.width as nat,
                    spec_rdp_bytes_per_pixel(format) as nat,
                ) as int,
                y,
                k,
            ),
{
    let bpp = format.bytes_per_pixel() as u32;
    let fw = frame_width as usize;
    let rw = region.width as usize;
    let rh = region.height as usize;
    let rx = region.x as usize;
    let ry = region.y as usize;
    proof {
        assert(region.width * bpp + 63 <= u32::MAX) by (nonlinear_arith)
            requires
                region.width <= 0xffffu32 && bpp <= 4,
        ;
    }
    let stride = calculate_rdp_stride(region.width, format) as usize;
    let wb = rw * bpp as usize;
    let ghost stride_i = spec_rdp_stride(
        region.width as nat,
        spec_rdp_bytes_per_pixel(format) as nat,
    ) as int;
    proof {
        assert(stride <= region.width * 4 + 64);
        assert(rh * stride_i <= ((region.width * 4 + 64) as int) * (region.height as int))
            by (nonlinear_arith)
            requires
                0 <= stride_i <= region.width * 4 + 64,
                rh == region.height,
        ;
        assert(((region.width * 4 + 64) as int) * (region.height as int) == ((region.width * 4
            + 64) * region.height) as int) by (nonlinear_arith);
    }
    let mut data: Vec<u8> = Vec::new();
    let mut y: usize = 0;
    while y < rh
        invariant
            bpp == spec_rdp_bytes_per_pixel(format),
            stride == stride_i,
            wb == rw * bpp,
            wb <= stride,
            fw == frame_width,
            rw == region.width,
            rh == region.height,
            rx == region.x,
            ry == region.y,
            spec_within_frame(region, frame_width, frame_height),
            src@.len() >= 4 * (frame_width * frame_height),
            4 * (frame_width * frame_height) <= usize::MAX,
            rh * stride_i <= usize::MAX,
            0 <= y <= rh,
            data@.len() == y * stride_i,
            forall|px: int, py: int|
                0 <= px < rw && 0 <= py < y ==> #[trigger] spec_rdp_pixel_ok(
                    src@,
                    data@,
                    fw as int,
                    rx as int,
                    ry as int,
                    stride_i,
                    format,
                    px,
                    py,
                ),
            forall|py: int, k: int|
                0 <= py < y && wb <= k < stride_i ==> #[trigger] spec_rdp_pad_ok(data@, stride_i, py, k),
        decreases rh - y,
    {
        let ghost row_start = data@;
        let mut x: usize = 0;
        while x < rw
            invariant
                bpp == spec_rdp_bytes_per_pixel(format),
                stride == stride_i,
                wb == rw * bpp,
                wb <= stride,
                fw == frame_width,
                rw == region.width,
                rh == region.height,
                rx == region.x,
                ry == region.y,
                spec_within_frame(region, frame_width, frame_height),
                src@.len() >= 4 * (frame_width * frame_height),
                4 * (frame_width * frame_height) <= usize::MAX,
                rh * stride_i <= usize::MAX,
                0 <= y < rh,
                0 <= x <= rw,
                data@.len() == y * stride_i + x * bpp,
                row_start == data@.take(y as int * stride_i),
                forall|px: int, py: int|
                    0 <= px < rw && 0 <= py < y ==> #[trigger] spec_rdp_pixel_ok(
                        src@,
                        data@,
                        fw as int,
                        rx as int,
                        ry as int,
                        stride_i,
                        format,
                        px,
                        py,
                    ),
                forall|py: int, k: int|
                    0 <= py < y && wb <= k < stride_i ==> #[trigger] spec_rdp_pad_ok(data@, stride_i, py, k),
                forall|px: int|
                    0 <= px < x ==> #[trigger] spec_rdp_pixel_ok(
                        src@,
                        data@,
                        fw as int,
                        rx as int,
                        ry as int,
                        stride_i,
                        format,
                        px,
                        y as int,
                    ),
            decreases rw - x,
        {
            proof {
                lemma_frame_index(fw as int, frame_height as int, rx as int + x as int, ry as int + y as int);
                lemma_row_offset(stride_i, wb as int, x as int * bpp as int, y as int, rh as int);
                assert(x as int * bpp + bpp <= wb) by (nonlinear_arith)
                    requires
                        0 <= x < rw && bpp >= 1 && wb == rw * bpp,
                ;
            }
            let si = ((ry + y) * fw + rx + x) * 4;
            let b = src[si];
            let g = src[si + 1];
            let rr = src[si + 2];
            let ghost before = data@;
            push_pixel(&mut data, b, g, rr, format);
            x = x + 1;
            proof {
                assert(data@.take(y as int * stride_i) =~= row_start);
                assert forall|px: int|
                    0 <= px < x implies #[trigger] spec_rdp_pixel_ok(
                    src@,
                    data@,
                    fw as int,
                    rx as int,
                    ry as int,
                    stride_i,
                    format,
                    px,
                    y as int,
                ) by {
                    let o = y as int * stride_i + px * bpp;
                    if px < x as int - 1 {
                        assert(spec_rdp_pixel_ok(
                            src@,
                            before,
                            fw as int,
                            rx as int,
                            ry as int,
                            stride_i,
                            format,
                            px,
                            y as int,
                        ));
                        assert((px + 1) * bpp <= (x as int - 1) * bpp) by (nonlinear_arith)
                            requires
                                px + 1 <= x as int - 1 && bpp >= 1,
                        ;
                        assert(px * bpp + bpp == (px + 1) * bpp) by (nonlinear_arith);
                        assert(data@.subrange(o, o + bpp) =~= before.subrange(o, o + bpp));
                    } else {
                        assert(o == before.len());
                        assert(data@ == before + spec_packed_pixel(b, g, rr, format));
                        assert(spec_packed_pixel(b, g, rr, format).len() == bpp);
                        assert(b == src@[((ry + y) as int * fw + rx as int + px) * 4]);
                        assert(g == src@[((ry + y) as int * fw + rx as int + px) * 4 + 1]);
                        assert(rr == src@[((ry + y) as int * fw + rx as int + px) * 4 + 2]);
                        assert(data@.subrange(o, o + bpp) =~= spec_packed_pixel(
                            src@[((ry + y) as int * fw + rx as int + px) * 4],
                            src@[((ry + y) as int * fw + rx as int + px) * 4 + 1],
                            src@[((ry + y) as int * fw + rx as int + px) * 4 + 2],
                            format,
                        ));
                        assert(spec_rdp_pixel_ok(
                            src@,
                            data@,
                            fw as int,
                            rx as int,
                            ry as int,
                            stride_i,
                            format,
                            px,
                            y as int,
                        ));
                    }
                }
                assert forall|px: int, py: int|
                    0 <= px < rw && 0 <= py < y implies #[trigger] spec_rdp_pixel_ok(
                    src@,
                    data@,
                    fw as int,
                    rx as int,
                    ry as int,
                    stride_i,
                    format,
                    px,
                    py,
                ) by {
                    let o = py * stride_i + px * bpp;
                    assert(spec_rdp_pixel_ok(
                        src@,
                        before,
                        fw as int,
                        rx as int,
                        ry as int,
                        stride_i,
                        format,
                        px,
                        py,
                    ));
                    lemma_row_offset(stride_i, wb as int, px * bpp, py, rh as int);
                    assert(px * bpp + bpp <= wb) by (nonlinear_arith)
                        requires
                            0 <= px < rw && bpp >= 1 && wb == rw * bpp,
                    ;
                    assert((py + 1) * stride_i <= y as int * stride_i) by (nonlinear_arith)
                        requires
                            py + 1 <= y as int && stride_i >= 0,
                    ;
                    assert(o + bpp <= before.len());
                    assert(data@.subrange(o, o + bpp) =~= before.subrange(o, o + bpp));
                }
                assert forall|py: int, k: int|
                    0 <= py < y && wb <= k < stride_i implies #[trigger] spec_rdp_pad_ok(data@, stride_i, py, k) by {
                    assert(spec_rdp_pad_ok(before, stride_i, py, k));
                    lemma_row_offset(stride_i, stride_i, k, py, rh as int);
                    assert((py + 1) * stride_i <= y as int * stride_i) by (nonlinear_arith)
                        requires
                            py + 1 <= y as int && stride_i >= 0,
                    ;
                    assert(data@[py * stride_i + k] == before[py * stride_i + k]);
                }
            }
        }
        let mut k: usize = wb;
        while k < stride
            invariant
                bpp == spec_rdp_bytes_per_pixel(format),
                stride == stride_i,
                wb == rw * bpp,
                wb <= stride,
                rw == region.width,
                rh == region.height,
                rh * stride_i <= usize::MAX,
                0 <= y < rh,
                wb <= k <= stride,
                data@.len() == y * stride_i + k,
                forall|px: int, py: int|
                    0 <= px < rw && 0 <= py < y ==> #[trigger] spec_rdp_pixel_ok(
                        src@,
                        data@,
                        fw as int,
                        rx as int,
                        ry as int,
                        stride_i,
                        format,
                        px,
                        py,
                    ),
                forall|py: int, kk: int|
                    0 <= py < y && wb <= kk < stride_i ==> #[trigger] spec_rdp_pad_ok(data@, stride_i, py, kk),
                forall|px: int|
                    0 <= px < rw ==> #[trigger] spec_rdp_pixel_ok(
                        src@,
                        data@,
                        fw as int,
                        rx as int,
                        ry as int,
                        stride_i,
                        format,
                        px,
                        y as int,
                    ),
                forall|kk: int|
                    wb <= kk < k ==> #[trigger] spec_rdp_pad_ok(data@, stride_i, y as int, kk),
                fw == frame_width,
                rx == region.x,
                ry == region.y,
                spec_within_frame(region, frame_width, frame_height),
                src@.len() >= 4 * (frame_width * frame_height),
            decreases stride - k,
        {
            proof {
                lemma_row_offset(stride_i, stride_i, k as int, y as int, rh as int);
            }
            let ghost before = data@;
            data.push(0);
            k = k + 1;
            proof {
                assert forall|px: int, py: int|
                    0 <= px < rw && 0 <= py <= y implies #[trigger] spec_rdp_pixel_ok(
                    src@,
                    data@,
                    fw as int,
                    rx as int,
                    ry as int,
                    stride_i,
                    format,
                    px,
                    py,
                ) by {
                    let o = py * stride_i + px * bpp;
                    assert(spec_rdp_pixel_ok(
                        src@,
                        before,
                        fw as int,
                        rx as int,
                        ry as int,
                        stride_i,
                        format,
                        px,
                        py,
                    ));
                    lemma_row_offset(stride_i, wb as int, px * bpp, py, rh as int);
                    assert(px * bpp + bpp <= wb) by (nonlinear_arith)
                        requires
                            0 <= px < rw && bpp >= 1 && wb == rw * bpp,
                    ;
                    assert(py * stride_i + wb <= y as int * stride_i + wb) by (nonlinear_arith)
                        requires
                            py <= y as int && stride_i >= 0,
                    ;
                    assert(o + bpp <= before.len());
                    assert(data@.subrange(o, o + bpp) =~= before.subrange(o, o + bpp));
                }
                assert forall|py: int, kk: int|
                    (0 <= py < y && wb <= kk < stride_i) || (py == y as int && wb <= kk
                        < k) implies #[trigger] spec_rdp_pad_ok(data@, stride_i, py, kk) by {
                    if py < y as int || kk < k - 1 {
                        assert(spec_rdp_pad_ok(before, stride_i, py, kk));
                        lemma_row_offset(stride_i, stride_i, kk, py, rh as int);
                        assert(py * stride_i + kk < before.len()) by (nonlinear_arith)
                            requires
                                (py < y as int && 0 <= kk < stride_i && stride_i >= 0
                                    && before.len() == y as int * stride_i + k - 1 && k >= 1) || (
                                py == y as int && 0 <= kk < k - 1 && before.len() == y as int
                                    * stride_i + k - 1),
                        ;
                        assert(data@[py * stride_i + kk] == before[py * stride_i + kk]);
                    } else {
                        assert(py == y as int && kk == k - 1);
                        assert(py * stride_i + kk == before.len());
                        assert(data@[py * stride_i + kk] == 0u8);
                    }
                }
            }
        }
        y = y + 1;
        proof {
            assert(y as int * stride_i == (y as int - 1) * stride_i + stride_i)
                by (nonlinear_arith);
        }
    }
    proof {
        assert((rh as int) * stride_i == (region.height as int) * stride_i);
    }
    BitmapData {
        rectangle: Rectangle {
            top: region.y as u16,
            left: region.x as u16,
            right: (region.x + region.width) as u16,
            bottom: (region.y + region.height) as u16,
        },
        width: region.width as u16,
        height: region.height as u16,
        bits_per_pixel: format.bits_per_pixel(),
        compressed: false,
        data,
    }
}

} // verus!
