//! YUV to BGRA conversion.
//!
//! Converts the planar and packed YUV formats that the capture transport can
//! deliver (NV12, I420, YUY2) into BGRA, using the BT.601 limited-range
//! matrix in integer arithmetic scaled by 256.

use crate::format::{PixelFormat, ProcessingError};
use vstd::prelude::*;

verus! {

/// Clamp a value to the byte range.
pub open spec fn spec_clamp_255(t: int) -> int {
    if t < 0 {
        0
    } else if t > 255 {
        255
    } else {
        t
    }
}

/// BT.601 red channel of a YUV sample, scaled integer arithmetic.
pub open spec fn spec_yuv_r(y: int, u: int, v: int) -> int {
    spec_clamp_255((298 * (y - 16) + 409 * (v - 128) + 128) / 256)
}

/// BT.601 green channel of a YUV sample.
pub open spec fn spec_yuv_g(y: int, u: int, v: int) -> int {
    spec_clamp_255((298 * (y - 16) - 100 * (u - 128) - 208 * (v - 128) + 128) / 256)
}

/// BT.601 blue channel of a YUV sample.
pub open spec fn spec_yuv_b(y: int, u: int, v: int) -> int {
    spec_clamp_255((298 * (y - 16) + 516 * (u - 128) + 128) / 256)
}

/// The destination holds, at pixel `p`, the BGRA bytes of the YUV sample
/// `(y, u, v)`: blue, green, red, and an opaque alpha.
pub open spec fn spec_bgra_pixel(dst: Seq<u8>, p: int, y: int, u: int, v: int) -> bool {
    &&& dst[4 * p] == spec_yuv_b(y, u, v)
    &&& dst[4 * p + 1] == spec_yuv_g(y, u, v)
    &&& dst[4 * p + 2] == spec_yuv_r(y, u, v)
    &&& dst[4 * p + 3] == 255
}

/// The YUV sample of pixel `(x, y)` in an NV12 source: a full-resolution
/// luma plane followed by an interleaved half-resolution chroma plane.
pub open spec fn spec_nv12_sample(src: Seq<u8>, w: int, h: int, x: int, y: int) -> (int, int, int) {
    (
        src[y * w + x] as int,
        src[w * h + (y / 2) * w + (x / 2) * 2] as int,
        src[w * h + (y / 2) * w + (x / 2) * 2 + 1] as int,
    )
}

/// The YUV sample of pixel `(x, y)` in an I420 source: a luma plane followed
/// by separate quarter-size U and V planes.
pub open spec fn spec_i420_sample(src: Seq<u8>, w: int, h: int, x: int, y: int) -> (int, int, int) {
    (
        src[y * w + x] as int,
        src[w * h + (y / 2) * (w / 2) + x / 2] as int,
        src[w * h + (w / 2) * (h / 2) + (y / 2) * (w / 2) + x / 2] as int,
    )
}

/// The YUV sample of pixel `(x, y)` in a YUY2 source: two horizontal pixels
/// share the U and V of their four-byte group `Y0 U Y1 V`.
pub open spec fn spec_yuy2_sample(src: Seq<u8>, w: int, x: int, y: int) -> (int, int, int) {
    let base = (y * w + 2 * (x / 2)) * 2;
    (src[base + 2 * (x % 2)] as int, src[base + 1] as int, src[base + 3] as int)
}

/// Pixel `(x, y)` of the destination holds the converted BGRA bytes of the
/// corresponding NV12 sample.
pub open spec fn spec_nv12_pixel_ok(
    src: Seq<u8>,
    dst: Seq<u8>,
    w: int,
    h: int,
    x: int,
    y: int,
) -> bool {
    let (ys, us, vs) = spec_nv12_sample(src, w, h, x, y);
    spec_bgra_pixel(dst, y * w + x, ys, us, vs)
}

/// Pixel `(x, y)` of the destination holds the converted BGRA bytes of the
/// corresponding I420 sample.
pub open spec fn spec_i420_pixel_ok(
    src: Seq<u8>,
    dst: Seq<u8>,
    w: int,
    h: int,
    x: int,
    y: int,
) -> bool {
    let (ys, us, vs) = spec_i420_sample(src, w, h, x, y);
    spec_bgra_pixel(dst, y * w + x, ys, us, vs)
}

/// Pixel `(x, y)` of the destination holds the converted BGRA bytes of the
/// corresponding YUY2 sample.
pub open spec fn spec_yuy2_pixel_ok(src: Seq<u8>, dst: Seq<u8>, w: int, x: int, y: int) -> bool {
    let (ys, us, vs) = spec_yuy2_sample(src, w, x, y);
    spec_bgra_pixel(dst, y * w + x, ys, us, vs)
}

/// Convert one YUV sample to RGB with the BT.601 limited-range matrix.
pub fn yuv_to_rgb(y: i32, u: i32, v: i32) -> (rgb: (u8, u8, u8))
    requires
        0 <= y <= 255,
        0 <= u <= 255,
        0 <= v <= 255,
    ensures
        rgb.0 == spec_yuv_r(y as int, u as int, v as int),
        rgb.1 == spec_yuv_g(y as int, u as int, v as int),
        rgb.2 == spec_yuv_b(y as int, u as int, v as int),
{
    let yc = y - 16;
    let uc = u - 128;
    let vc = v - 128;
    let tr = 298 * yc + 409 * vc + 128;
    let tg = 298 * yc - 100 * uc - 208 * vc + 128;
    let tb = 298 * yc + 516 * uc + 128;
    let r = clamp_channel(tr);
    let g = clamp_channel(tg);
    let b = clamp_channel(tb);
    (r, g, b)
}

/// Divide a scaled channel value by 256 and clamp it to a byte.
fn clamp_channel(t: i32) -> (r: u8)
    ensures
        r == spec_clamp_255(t as int / 256),
{
    if t < 0 {
        proof {
            assert(t as int / 256 < 0) by (nonlinear_arith)
                requires
                    t < 0,
            ;
        }
        0
    } else {
        let q = t / 256;
        if q > 255 {
            255
        } else {
            q as u8
        }
    }
}

/// The black and white BT.601 sample points: black luma maps to zero on all
/// three channels, and white luma maps to full intensity.
pub proof fn lemma_yuv_black_white()
    ensures
        spec_yuv_r(16, 128, 128) == 0,
        spec_yuv_g(16, 128, 128) == 0,
        spec_yuv_b(16, 128, 128) == 0,
        spec_yuv_r(235, 128, 128) == 255,
        spec_yuv_g(235, 128, 128) == 255,
        spec_yuv_b(235, 128, 128) == 255,
{
    assert(298 * (235int - 16) + 128 == 65390int);
    assert(65390int / 256 == 255int);
}

/// A pixel index within a `w` by `h` frame is within the luma plane.
proof fn lemma_luma_index(w: int, h: int, x: int, y: int)
    requires
        0 <= x < w,
        0 <= y < h,
    ensures
        0 <= y * w + x < w * h,
        4 * (y * w + x) + 3 < 4 * (w * h),
    decreases 0int,
{
    assert(0 <= y * w + x && y * w + x < w * h) by (nonlinear_arith)
        requires
            0 <= x < w && 0 <= y < h,
    ;
}

/// Row-major order: a pixel of an earlier row comes before any pixel of a
/// later row.
proof fn lemma_row_major_order(w: int, x: int, y: int, y2: int)
    requires
        0 <= x < w,
        0 <= y < y2,
    ensures
        y * w + x < y2 * w,
    decreases 0int,
{
    assert(y * w + x < y2 * w) by (nonlinear_arith)
        requires
            0 <= x < w && 0 <= y < y2,
    ;
}

/// The interleaved chroma index of a pixel stays within the NV12 chroma
/// plane when both frame dimensions are even.
proof fn lemma_nv12_chroma_index(w: int, h: int, x: int, y: int)
    requires
        0 <= x < w,
        0 <= y < h,
        w % 2 == 0,
        h % 2 == 0,
    ensures
        0 <= (y / 2) * w + (x / 2) * 2 + 1 < w * h / 2,
    decreases 0int,
{
    let yy = y / 2;
    let xx = x / 2;
    assert(0 <= yy <= h / 2 - 1);
    assert(0 <= xx * 2 <= w - 2);
    assert(yy * w <= (h / 2 - 1) * w) by (nonlinear_arith)
        requires
            0 <= yy <= h / 2 - 1 && w >= 1,
    ;
    assert((h / 2 - 1) * w + w == (h / 2) * w) by (nonlinear_arith);
    assert((h / 2) * w == w * h / 2) by (nonlinear_arith)
        requires
            h % 2 == 0,
    ;
    assert(yy * w >= 0) by (nonlinear_arith)
        requires
            yy >= 0 && w >= 1,
    ;
}

/// The planar chroma index of a pixel stays within a quarter-size plane when
/// both frame dimensions are even.
proof fn lemma_i420_chroma_index(w: int, h: int, x: int, y: int)
    requires
        0 <= x < w,
        0 <= y < h,
        w % 2 == 0,
        h % 2 == 0,
    ensures
        0 <= (y / 2) * (w / 2) + x / 2 < (w / 2) * (h / 2),
    decreases 0int,
{
    let yy = y / 2;
    let xx = x / 2;
    assert(0 <= yy <= h / 2 - 1);
    assert(0 <= xx <= w / 2 - 1);
    assert(yy * (w / 2) <= (h / 2 - 1) * (w / 2)) by (nonlinear_arith)
        requires
            0 <= yy <= h / 2 - 1 && w / 2 >= 1,
    ;
    assert((h / 2 - 1) * (w / 2) + (w / 2) == (h / 2) * (w / 2)) by (nonlinear_arith);
    assert((h / 2) * (w / 2) == (w / 2) * (h / 2)) by (nonlinear_arith);
    assert(yy * (w / 2) >= 0) by (nonlinear_arith)
        requires
            yy >= 0 && w / 2 >= 1,
    ;
}

/// Convert an NV12 frame to BGRA.
///
/// NV12 carries a `width * height` luma plane followed by a half-size
/// interleaved chroma plane.  Both dimensions must be even, and the source
/// must hold both planes.
#[verifier::rlimit(50)]
pub fn nv12_to_bgra(src: &[u8], width: u32, height: u32) -> (dst: Vec<u8>)
    requires
        width % 2 == 0,
        height % 2 == 0,
        src@.len() >= width * height + width * height / 2,
        4 * (width * height) <= usize::MAX,
    ensures
        dst@.len() == 4 * (width * height),
        forall|x: int, y: int|
            0 <= x < width && 0 <= y < height ==> #[trigger] spec_nv12_pixel_ok(
                src@,
                dst@,
                width as int,
                height as int,
                x,
                y,
            ),
{
    let w = width as usize;
    let h = height as usize;
    proof {
        assert(w * h == width * height) by (nonlinear_arith)
            requires
                w == width && h == height,
        ;
    }
    let y_plane_size = w * h;
    let mut dst: Vec<u8> = Vec::new();
    let mut y: usize = 0;
    while y < h
        invariant
            w == width,
            h == height,
            y_plane_size == w * h,
            width % 2 == 0,
            height % 2 == 0,
            src@.len() >= w * h + w * h / 2,
            4 * (w * h) <= usize::MAX,
            0 <= y <= h,
            dst@.len() == 4 * (y * w),
            forall|px: int, py: int|
                0 <= px < w && 0 <= py < y ==> #[trigger] spec_nv12_pixel_ok(
                    src@,
                    dst@,
                    w as int,
                    h as int,
                    px,
                    py,
                ),
        decreases h - y,
    {
        let mut x: usize = 0;
        while x < w
            invariant
                w == width,
                h == height,
                y_plane_size == w * h,
                width % 2 == 0,
                height % 2 == 0,
                src@.len() >= w * h + w * h / 2,
                4 * (w * h) <= usize::MAX,
                0 <= y < h,
                0 <= x <= w,
                dst@.len() == 4 * (y * w + x),
                forall|px: int, py: int|
                    0 <= px < w && 0 <= py < y ==> #[trigger] spec_nv12_pixel_ok(
                        src@,
                        dst@,
                        w as int,
                        h as int,
                        px,
                        py,
                    ),
                forall|px: int|
                    0 <= px < x ==> #[trigger] spec_nv12_pixel_ok(
                        src@,
                        dst@,
                        w as int,
                        h as int,
                        px,
                        y as int,
                    ),
            decreases w - x,
        {
            proof {
                lemma_luma_index(w as int, h as int, x as int, y as int);
                lemma_nv12_chroma_index(w as int, h as int, x as int, y as int);
            }
            let y_idx = y * w + x;
            let uv_idx = y_plane_size + (y / 2) * w + (x / 2) * 2;
            let y_val = src[y_idx] as i32;
            let u_val = src[uv_idx] as i32;
            let v_val = src[uv_idx + 1] as i32;
            let (r, g, b) = yuv_to_rgb(y_val, u_val, v_val);
            let ghost before = dst@;
            dst.push(b);
            dst.push(g);
            dst.push(r);
            dst.push(255);
            x = x + 1;
            proof {
                let wi = w as int;
                let hi = h as int;
                let yi = y as int;
                assert(dst@ == before.push(b).push(g).push(r).push(255u8));
                assert forall|px: int|
                    0 <= px < x implies #[trigger] spec_nv12_pixel_ok(
                    src@,
                    dst@,
                    wi,
                    hi,
                    px,
                    yi,
                ) by {
                    let p = yi * wi + px;
                    if px < x as int - 1 {
                        lemma_luma_index(wi, hi, px, yi);
                        assert(spec_nv12_pixel_ok(src@, before, wi, hi, px, yi));
                        assert(4 * p + 3 < before.len());
                        assert(dst@[4 * p] == before[4 * p]);
                        assert(dst@[4 * p + 1] == before[4 * p + 1]);
                        assert(dst@[4 * p + 2] == before[4 * p + 2]);
                        assert(dst@[4 * p + 3] == before[4 * p + 3]);
                    } else {
                        assert(4 * p == before.len());
                        assert(dst@[4 * p] == b);
                        assert(dst@[4 * p + 1] == g);
                        assert(dst@[4 * p + 2] == r);
                        assert(dst@[4 * p + 3] == 255u8);
                    }
                }
                assert forall|px: int, py: int|
                    0 <= px < w && 0 <= py < y implies #[trigger] spec_nv12_pixel_ok(
                    src@,
                    dst@,
                    wi,
                    hi,
                    px,
                    py,
                ) by {
                    let p = py * wi + px;
                    lemma_luma_index(wi, hi, px, py);
                    lemma_row_major_order(wi, px, py, yi);
                    assert(spec_nv12_pixel_ok(src@, before, wi, hi, px, py));
                    assert(4 * p + 3 < before.len());
                    assert(dst@[4 * p] == before[4 * p]);
                    assert(dst@[4 * p + 1] == before[4 * p + 1]);
                    assert(dst@[4 * p + 2] == before[4 * p + 2]);
                    assert(dst@[4 * p + 3] == before[4 * p + 3]);
                }
            }
        }
        y = y + 1;
        proof {
            assert(y * w == (y - 1) * w + w) by (nonlinear_arith);
        }
    }
    proof {
        assert(h * w == w * h) by (nonlinear_arith);
    }
    dst
}

/// Convert an I420 frame to BGRA.
///
/// I420 carries a `width * height` luma plane followed by separate
/// quarter-size U and V planes.  Both dimensions must be even, and the
/// source must hold all three planes.
#[verifier::rlimit(50)]
pub fn i420_to_bgra(src: &[u8], width: u32, height: u32) -> (dst: Vec<u8>)
    requires
        width % 2 == 0,
        height % 2 == 0,
        src@.len() >= width * height + 2 * ((width / 2) * (height / 2)),
        4 * (width * height) <= usize::MAX,
    ensures
        dst@.len() == 4 * (width * height),
        forall|x: int, y: int|
            0 <= x < width && 0 <= y < height ==> #[trigger] spec_i420_pixel_ok(
                src@,
                dst@,
                width as int,
                height as int,
                x,
                y,
            ),
{
    let w = width as usize;
    let h = height as usize;
    proof {
        assert(w * h == width * height && (w / 2) * (h / 2) == (width / 2) * (height / 2) && (w / 2)
            * (h / 2) <= w * h) by (nonlinear_arith)
            requires
                w == width && h == height,
        ;
    }
    let y_plane_size = w * h;
    let uv_plane_size = (w / 2) * (h / 2);
    let mut dst: Vec<u8> = Vec::new();
    let mut y: usize = 0;
    while y < h
        invariant
            w == width,
            h == height,
            y_plane_size == w * h,
            uv_plane_size == (w / 2) * (h / 2),
            uv_plane_size <= w * h,
            width % 2 == 0,
            height % 2 == 0,
            src@.len() >= w * h + 2 * ((w / 2) * (h / 2)),
            4 * (w * h) <= usize::MAX,
            0 <= y <= h,
            dst@.len() == 4 * (y * w),
            forall|px: int, py: int|
                0 <= px < w && 0 <= py < y ==> #[trigger] spec_i420_pixel_ok(
                    src@,
                    dst@,
                    w as int,
                    h as int,
                    px,
                    py,
                ),
        decreases h - y,
    {
        let mut x: usize = 0;
        while x < w
            invariant
                w == width,
                h == height,
                y_plane_size == w * h,
                uv_plane_size == (w / 2) * (h / 2),
                uv_plane_size <= w * h,
                width % 2 == 0,
                height % 2 == 0,
                src@.len() >= w * h + 2 * ((w / 2) * (h / 2)),
                4 * (w * h) <= usize::MAX,
                0 <= y < h,
                0 <= x <= w,
                dst@.len() == 4 * (y * w + x),
                forall|px: int, py: int|
                    0 <= px < w && 0 <= py < y ==> #[trigger] spec_i420_pixel_ok(
                        src@,
                        dst@,
                        w as int,
                        h as int,
                        px,
                        py,
                    ),
                forall|px: int|
                    0 <= px < x ==> #[trigger] spec_i420_pixel_ok(
                        src@,
                        dst@,
                        w as int,
                        h as int,
                        px,
                        y as int,
                    ),
            decreases w - x,
        {
            proof {
                lemma_luma_index(w as int, h as int, x as int, y as int);
                lemma_i420_chroma_index(w as int, h as int, x as int, y as int);
            }
            let y_idx = y * w + x;
            let uv_idx = (y / 2) * (w / 2) + x / 2;
            let y_val = src[y_idx] as i32;
            let u_val = src[y_plane_size + uv_idx] as i32;
            let v_val = src[y_plane_size + uv_plane_size + uv_idx] as i32;
            let (r, g, b) = yuv_to_rgb(y_val, u_val, v_val);
            let ghost before = dst@;
            dst.push(b);
            dst.push(g);
            dst.push(r);
            dst.push(255);
            x = x + 1;
            proof {
                let wi = w as int;
                let hi = h as int;
                let yi = y as int;
                assert(dst@ == before.push(b).push(g).push(r).push(255u8));
                assert forall|px: int|
                    0 <= px < x implies #[trigger] spec_i420_pixel_ok(
                    src@,
                    dst@,
                    wi,
                    hi,
                    px,
                    yi,
                ) by {
                    let p = yi * wi + px;
                    if px < x as int - 1 {
                        lemma_luma_index(wi, hi, px, yi);
                        assert(spec_i420_pixel_ok(src@, before, wi, hi, px, yi));
                        assert(4 * p + 3 < before.len());
                        assert(dst@[4 * p] == before[4 * p]);
                        assert(dst@[4 * p + 1] == before[4 * p + 1]);
                        assert(dst@[4 * p + 2] == before[4 * p + 2]);
                        assert(dst@[4 * p + 3] == before[4 * p + 3]);
                    } else {
                        assert(4 * p == before.len());
                        assert(dst@[4 * p] == b);
                        assert(dst@[4 * p + 1] == g);
                        assert(dst@[4 * p + 2] == r);
                        assert(dst@[4 * p + 3] == 255u8);
                    }
                }
                assert forall|px: int, py: int|
                    0 <= px < w && 0 <= py < y implies #[trigger] spec_i420_pixel_ok(
                    src@,
                    dst@,
                    wi,
                    hi,
                    px,
                    py,
                ) by {
                    let p = py * wi + px;
                    lemma_luma_index(wi, hi, px, py);
                    lemma_row_major_order(wi, px, py, yi);
                    assert(spec_i420_pixel_ok(src@, before, wi, hi, px, py));
                    assert(4 * p + 3 < before.len());
                    assert(dst@[4 * p] == before[4 * p]);
                    assert(dst@[4 * p + 1] == before[4 * p + 1]);
                    assert(dst@[4 * p + 2] == before[4 * p + 2]);
                    assert(dst@[4 * p + 3] == before[4 * p + 3]);
                }
            }
        }
        y = y + 1;
        proof {
            assert(y * w == (y - 1) * w + w) by (nonlinear_arith);
        }
    }
    proof {
        assert(h * w == w * h) by (nonlinear_arith);
    }
    dst
}

/// Pushing four bytes extends a sequence and leaves its prefix unchanged.
proof fn lemma_push4(s: Seq<u8>, a: u8, b: u8, c: u8, d: u8)
    ensures
        s.push(a).push(b).push(c).push(d).len() == s.len() + 4,
        forall|k: int| 0 <= k < s.len() ==> #[trigger] s.push(a).push(b).push(c).push(d)[k] == s[k],
        s.push(a).push(b).push(c).push(d)[s.len() as int] == a,
        s.push(a).push(b).push(c).push(d)[s.len() as int + 1] == b,
        s.push(a).push(b).push(c).push(d)[s.len() as int + 2] == c,
        s.push(a).push(b).push(c).push(d)[s.len() as int + 3] == d,
{
}

/// The byte group of an even pixel pair stays within a YUY2 source when the
/// width is even.
proof fn lemma_yuy2_index(w: int, h: int, x: int, y: int)
    requires
        0 <= x < w,
        0 <= y < h,
        w % 2 == 0,
        x % 2 == 0,
    ensures
        0 <= (y * w + x) * 2 && (y * w + x) * 2 + 3 < w * h * 2,
    decreases 0int,
{
    assert(x <= w - 2);
    assert(0 <= y * w <= (h - 1) * w) by (nonlinear_arith)
        requires
            0 <= y <= h - 1 && w >= 0,
    ;
    assert((h - 1) * w + w == h * w) by (nonlinear_arith);
    assert(h * w == w * h) by (nonlinear_arith);
}

/// Convert a YUY2 frame to BGRA.
///
/// YUY2 packs two horizontal pixels into four bytes `Y0 U Y1 V`.  The width
/// must be even, and the source must hold `width * height * 2` bytes.
#[verifier::rlimit(100)]
pub fn yuy2_to_bgra(src: &[u8], width: u32, height: u32) -> (dst: Vec<u8>)
    requires
        width % 2 == 0,
        src@.len() >= width * height * 2,
        4 * (width * height) <= usize::MAX,
    ensures
        dst@.len() == 4 * (width * height),
        forall|x: int, y: int|
            0 <= x < width && 0 <= y < height ==> #[trigger] spec_yuy2_pixel_ok(
                src@,
                dst@,
                width as int,
                x,
                y,
            ),
{
    let w = width as usize;
    let h = height as usize;
    proof {
        assert(w * h == width * height && w * h * 2 == width * height * 2) by (nonlinear_arith)
            requires
                w == width && h == height,
        ;
    }
    let mut dst: Vec<u8> = Vec::new();
    let mut y: usize = 0;
    while y < h
        invariant
            w == width,
            h == height,
            width % 2 == 0,
            src@.len() >= w * h * 2,
            4 * (w * h) <= usize::MAX,
            0 <= y <= h,
            dst@.len() == 4 * (y * w),
            forall|px: int, py: int|
                0 <= px < w && 0 <= py < y ==> #[trigger] spec_yuy2_pixel_ok(
                    src@,
                    dst@,
                    w as int,
                    px,
                    py,
                ),
        decreases h - y,
    {
        let mut x: usize = 0;
        while x < w
            invariant
                w == width,
                h == height,
                width % 2 == 0,
                src@.len() >= w * h * 2,
                4 * (w * h) <= usize::MAX,
                0 <= y < h,
                0 <= x <= w,
                x % 2 == 0,
                dst@.len() == 4 * (y * w + x),
                forall|px: int, py: int|
                    0 <= px < w && 0 <= py < y ==> #[trigger] spec_yuy2_pixel_ok(
                        src@,
                        dst@,
                        w as int,
                        px,
                        py,
                    ),
                forall|px: int|
                    0 <= px < x ==> #[trigger] spec_yuy2_pixel_ok(
                        src@,
                        dst@,
                        w as int,
                        px,
                        y as int,
                    ),
            decreases w - x,
        {
            proof {
                lemma_yuy2_index(w as int, h as int, x as int, y as int);
                lemma_luma_index(w as int, h as int, x as int, y as int);
                lemma_luma_index(w as int, h as int, x as int + 1, y as int);
            }
            let src_idx = (y * w + x) * 2;
            let y0 = src[src_idx] as i32;
            let u = src[src_idx + 1] as i32;
            let y1 = src[src_idx + 2] as i32;
            let v = src[src_idx + 3] as i32;
            let (r0, g0, b0) = yuv_to_rgb(y0, u, v);
            let (r1, g1, b1) = yuv_to_rgb(y1, u, v);
            let ghost before = dst@;
            dst.push(b0);
            dst.push(g0);
            dst.push(r0);
            dst.push(255);
            let ghost mid = dst@;
            dst.push(b1);
            dst.push(g1);
            dst.push(r1);
            dst.push(255);
            x = x + 2;
            proof {
                let wi = w as int;
                let hi = h as int;
                let yi = y as int;
                let x0 = x as int - 2;
                lemma_push4(before, b0, g0, r0, 255u8);
                lemma_push4(mid, b1, g1, r1, 255u8);
                assert(mid == before.push(b0).push(g0).push(r0).push(255u8));
                assert(dst@ == mid.push(b1).push(g1).push(r1).push(255u8));
                assert(forall|k: int| 0 <= k < before.len() ==> #[trigger] dst@[k] == before[k]);
                assert(x0 % 2 == 0 && (x0 / 2) * 2 == x0);
                assert((x0 + 1) % 2 == 1 && ((x0 + 1) / 2) * 2 == x0);
                assert forall|px: int|
                    0 <= px < x implies #[trigger] spec_yuy2_pixel_ok(src@, dst@, wi, px, yi) by {
                    let p = yi * wi + px;
                    if px < x0 {
                        lemma_luma_index(wi, hi, px, yi);
                        assert(spec_yuy2_pixel_ok(src@, before, wi, px, yi));
                        assert(4 * p + 3 < before.len());
                    } else if px == x0 {
                        assert(4 * p == before.len());
                        assert(dst@[4 * p] == b0);
                        assert(dst@[4 * p + 1] == g0);
                        assert(dst@[4 * p + 2] == r0);
                        assert(dst@[4 * p + 3] == 255u8);
                    } else {
                        assert(4 * p == mid.len());
                        assert(dst@[4 * p] == b1);
                        assert(dst@[4 * p + 1] == g1);
                        assert(dst@[4 * p + 2] == r1);
                        assert(dst@[4 * p + 3] == 255u8);
                    }
                }
                assert forall|px: int, py: int|
                    0 <= px < w && 0 <= py < y implies #[trigger] spec_yuy2_pixel_ok(
                    src@,
                    dst@,
                    wi,
                    px,
                    py,
                ) by {
                    let p = py * wi + px;
                    lemma_luma_index(wi, hi, px, py);
                    lemma_row_major_order(wi, px, py, yi);
                    assert(spec_yuy2_pixel_ok(src@, before, wi, px, py));
                    assert(4 * p + 3 < before.len());
                }
            }
        }
        y = y + 1;
        proof {
            assert(y * w == (y - 1) * w + w) by (nonlinear_arith);
        }
    }
    proof {
        assert(h * w == w * h) by (nonlinear_arith);
    }
    dst
}

/// The checks the codec makes before converting: YUV frames need even,
/// non-zero dimensions; the frame must fit the address space; and the
/// source must hold the format's planes.
pub open spec fn spec_codec_checks(format: PixelFormat, width: u32, height: u32, len: nat) -> Result<
    (),
    ProcessingError,
> {
    let is_yuv = format == PixelFormat::NV12 || format == PixelFormat::I420 || format
        == PixelFormat::YUY2;
    if is_yuv && (width == 0 || height == 0 || width % 2 != 0 || height % 2 != 0) {
        Err(ProcessingError::InvalidDimensions)
    } else if 4 * (width * height) > usize::MAX {
        Err(ProcessingError::InvalidDimensions)
    } else if (format == PixelFormat::NV12 || format == PixelFormat::I420) && len < width * height
        + width * height / 2 {
        Err(ProcessingError::BufferTooSmall)
    } else if format == PixelFormat::YUY2 && len < width * height * 2 {
        Err(ProcessingError::BufferTooSmall)
    } else {
        Ok(())
    }
}

/// Dispatches a frame to the converter that matches its format.
pub struct YuvConverter {}

impl YuvConverter {
    /// Create a new converter.
    pub fn new() -> YuvConverter {
        YuvConverter {  }
    }

    /// Convert a YUV frame to BGRA; `None` for formats that are already in
    /// the RGB family.
    pub fn convert_to_bgra(&mut self, src: &[u8], width: u32, height: u32, format: PixelFormat) -> (
        r: Option<Vec<u8>>)
        requires
            format == PixelFormat::NV12 || format == PixelFormat::I420 ==> width % 2 == 0 && height
                % 2 == 0 && src@.len() >= width * height + width * height / 2,
            format == PixelFormat::YUY2 ==> width % 2 == 0 && src@.len() >= width * height * 2,
            4 * (width * height) <= usize::MAX,
        ensures
            (r is Some) == (format == PixelFormat::NV12 || format == PixelFormat::I420 || format
                == PixelFormat::YUY2),
            r is Some ==> r->Some_0@.len() == 4 * (width * height),
            format == PixelFormat::NV12 ==> forall|x: int, y: int|
                0 <= x < width && 0 <= y < height ==> #[trigger] spec_nv12_pixel_ok(
                    src@,
                    r->Some_0@,
                    width as int,
                    height as int,
                    x,
                    y,
                ),
            format == PixelFormat::I420 ==> forall|x: int, y: int|
                0 <= x < width && 0 <= y < height ==> #[trigger] spec_i420_pixel_ok(
                    src@,
                    r->Some_0@,
                    width as int,
                    height as int,
                    x,
                    y,
                ),
            format == PixelFormat::YUY2 ==> forall|x: int, y: int|
                0 <= x < width && 0 <= y < height ==> #[trigger] spec_yuy2_pixel_ok(
                    src@,
                    r->Some_0@,
                    width as int,
                    x,
                    y,
                ),
    {
        match format {
            PixelFormat::NV12 => Some(nv12_to_bgra(src, width, height)),
            PixelFormat::I420 => {
                proof {
                    assert(2 * ((width / 2) * (height / 2)) == width * height / 2)
                        by (nonlinear_arith)
                        requires
                            width % 2 == 0 && height % 2 == 0,
                    ;
                }
                Some(i420_to_bgra(src, width, height))
            }
            PixelFormat::YUY2 => Some(yuy2_to_bgra(src, width, height)),
            _ => None,
        }
    }

    /// Convert with the dimension and buffer checks done here: a YUV frame
    /// with a zero or odd dimension fails with `InvalidDimensions`, one
    /// whose source is smaller than its planes with `BufferTooSmall`;
    /// otherwise the result is that of `convert_to_bgra`.
    pub fn checked_convert_to_bgra(
        &mut self,
        src: &[u8],
        width: u32,
        height: u32,
        format: PixelFormat,
    ) -> (r: Result<Option<Vec<u8>>, ProcessingError>)
        ensures
            ({
                let checks = spec_codec_checks(format, width, height, src@.len());
                &&& (r is Err) == (checks is Err)
                &&& r is Err ==> r->Err_0 == checks->Err_0
                &&& r is Ok ==> {
                    &&& (r->Ok_0 is Some) == (format == PixelFormat::NV12 || format
                        == PixelFormat::I420 || format == PixelFormat::YUY2)
                    &&& r->Ok_0 is Some ==> r->Ok_0->Some_0@.len() == 4 * (width * height)
                    &&& format == PixelFormat::NV12 ==> forall|x: int, y: int|
                        0 <= x < width && 0 <= y < height ==> #[trigger] spec_nv12_pixel_ok(
                            src@,
                            r->Ok_0->Some_0@,
                            width as int,
                            height as int,
                            x,
                            y,
                        )
                    &&& format == PixelFormat::I420 ==> forall|x: int, y: int|
                        0 <= x < width && 0 <= y < height ==> #[trigger] spec_i420_pixel_ok(
                            src@,
                            r->Ok_0->Some_0@,
                            width as int,
                            height as int,
                            x,
                            y,
                        )
                    &&& format == PixelFormat::YUY2 ==> forall|x: int, y: int|
                        0 <= x < width && 0 <= y < height ==> #[trigger] spec_yuy2_pixel_ok(
                            src@,
                            r->Ok_0->Some_0@,
                            width as int,
                            x,
                            y,
                        )
                }
            }),
    {
        let is_yuv = match format {
            PixelFormat::NV12 | PixelFormat::I420 | PixelFormat::YUY2 => true,
            _ => false,
        };
        if is_yuv && (width == 0 || height == 0 || width % 2 != 0 || height % 2 != 0) {
            return Err(ProcessingError::InvalidDimensions);
        }
        proof {
            assert(4 * ((width as u128) * (height as u128)) == 4 * (width * height))
                by (nonlinear_arith);
            assert(4 * (width as u128) * (height as u128) == 4 * ((width as u128) * (height
                as u128))) by (nonlinear_arith);
            assert(4 * ((width as u128) * (height as u128)) <= 4 * (0xffff_ffffu128
                * 0xffff_ffff)) by (nonlinear_arith)
                requires
                    width <= 0xffff_ffffu128 && height <= 0xffff_ffffu128,
            ;
        }
        if 4 * (width as u128) * (height as u128) > usize::MAX as u128 {
            return Err(ProcessingError::InvalidDimensions);
        }
        match format {
            PixelFormat::NV12 | PixelFormat::I420 => {
                proof {
                    assert((width as usize) * (height as usize) == width * height)
                        by (nonlinear_arith);
                }
                if src.len() < (width as usize) * (height as usize) + (width as usize) * (height
                    as usize) / 2 {
                    return Err(ProcessingError::BufferTooSmall);
                }
            }
            PixelFormat::YUY2 => {
                proof {
                    assert((width as usize) * (height as usize) == width * height)
                        by (nonlinear_arith);
                }
                if src.len() < (width as usize) * (height as usize) * 2 {
                    return Err(ProcessingError::BufferTooSmall);
                }
            }
            _ => {}
        }
        Ok(self.convert_to_bgra(src, width, height, format))
    }

    /// Whether a format needs YUV conversion before RDP encoding.
    pub fn needs_conversion(format: PixelFormat) -> (r: bool)
        ensures
            r == (format == PixelFormat::NV12 || format == PixelFormat::I420 || format
                == PixelFormat::YUY2),
    {
        match format {
            PixelFormat::NV12 | PixelFormat::I420 | PixelFormat::YUY2 => true,
            _ => false,
        }
    }

    /// Required BGRA output size for a frame.
    pub fn output_size(width: u32, height: u32) -> (r: usize)
        requires
            4 * (width * height) <= usize::MAX,
        ensures
            r == 4 * (width * height),
    {
        proof {
            assert((width as usize) * (height as usize) == width * height) by (nonlinear_arith);
        }
        (width as usize) * (height as usize) * 4
    }
}

impl Default for YuvConverter {
    /// Same as `YuvConverter::new`.
    fn default() -> YuvConverter {
        YuvConverter::new()
    }
}

} // verus!
