use vstd::prelude::*;

use crate::error::PipelineError;

verus! {

/// Clamps a fixed-point channel value (10 fractional bits) to `0..=262143`.
pub open spec fn clamp_fixed(x: int) -> int {
    if x < 0 {
        0
    } else if x > 262143 {
        262143
    } else {
        x
    }
}

/// The 8-bit channel value of a fixed-point one.
pub open spec fn channel(x: int) -> u8 {
    (clamp_fixed(x) / 1024) as u8
}

/// The luma contribution `1192 * max(y - 16, 0)` (limited-range BT.601, 1.164 in 10 bits).
pub open spec fn luma_term(y: u8) -> int {
    let t = y as int - 16;
    1192 * (if t < 0 {
        0
    } else {
        t
    })
}

/// The opaque RGBA pixel for one luma sample and the chroma pair that covers it.
pub open spec fn rgba_of(y: u8, u: u8, v: u8) -> Seq<u8> {
    let c = luma_term(y);
    let cu = u as int - 128;
    let cv = v as int - 128;
    seq![channel(c + 1634 * cv), channel(c - 833 * cv - 400 * cu), channel(c + 2066 * cu), 255u8]
}

fn clamp_to_channel(x: i32) -> (r: u8)
    ensures
        r == channel(x as int),
{
    let c: i32 = if x < 0 {
        0
    } else if x > 262143 {
        262143
    } else {
        x
    };
    (c / 1024) as u8
}

/// Converts one luma sample and its chroma pair to an opaque RGBA pixel.
pub fn yuv_to_rgba(y: u8, u: u8, v: u8) -> (r: [u8; 4])
    ensures
        r@ == rgba_of(y, u, v),
{
    let mut yc: i32 = y as i32 - 16;
    if yc < 0 {
        yc = 0;
    }
    let cu: i32 = u as i32 - 128;
    let cv: i32 = v as i32 - 128;
    let y1192: i32 = 1192 * yc;
    let r = clamp_to_channel(y1192 + 1634 * cv);
    let g = clamp_to_channel(y1192 - 833 * cv - 400 * cu);
    let b = clamp_to_channel(y1192 + 2066 * cu);
    let px = [r, g, b, 255u8];
    assert(px@ =~= rgba_of(y, u, v));
    px
}

/// Where the interleaved chroma pair (V then U) of pixel `p` starts in a
/// semi-planar frame of `w` by `h` pixels.
pub open spec fn sp_chroma_index(w: int, h: int, p: int) -> int {
    w * h + (p / w / 2) * w + (p % w / 2) * 2
}

/// The bytes a semi-planar frame of `w` by `h` pixels must hold: the luma
/// plane and every chroma pair that a pixel reads.
pub open spec fn sp_required_len(w: int, h: int) -> int {
    if w == 0 || h == 0 {
        w * h
    } else {
        w * h + ((h - 1) / 2) * w + ((w - 1) / 2) * 2 + 2
    }
}

/// Pixel `p` of a semi-planar (NV21) frame.
pub open spec fn sp_pixel(data: Seq<u8>, w: int, h: int, p: int) -> Seq<u8> {
    let c = sp_chroma_index(w, h, p);
    rgba_of(data[p], data[c + 1], data[c])
}

/// The packed RGBA image of a semi-planar frame.
pub open spec fn decoded_sp(data: Seq<u8>, w: nat, h: nat) -> Seq<u8> {
    Seq::new(w * h * 4, |i: int| sp_pixel(data, w as int, h as int, i / 4)[i % 4])
}

/// Decodes a semi-planar YUV 4:2:0 frame (a luma plane followed by interleaved
/// V and U samples at half resolution) into packed RGBA, one opaque pixel per
/// luma sample, in row order.
pub fn decode_yuv420sp(data: &[u8], width: i32, height: i32) -> (r: Vec<u8>)
    requires
        width >= 0,
        height >= 0,
        sp_required_len(width as int, height as int) <= data@.len(),
    ensures
        r@ == decoded_sp(data@, width as nat, height as nat),
{
    let w: usize = width as usize;
    let h: usize = height as usize;
    let total: usize = data.len();
    proof {
        assert(w * h <= total) by (nonlinear_arith)
            requires
                total == data@.len(),
                sp_required_len(w as int, h as int) <= data@.len(),
                sp_required_len(w as int, h as int) >= w * h,
        {
        }
    }
    let frame_size: usize = w * h;
    let mut rgba_data: Vec<u8> = Vec::new();
    let mut p: usize = 0;
    let mut j: usize = 0;
    while j < h
        invariant
            w == width,
            h == height,
            frame_size == w * h,
            sp_required_len(w as int, h as int) <= data@.len(),
            total == data@.len(),
            j <= h,
            p == j * w,
            rgba_data@.len() == p * 4,
            forall|k: int|
                0 <= k < p * 4 ==> #[trigger] rgba_data@[k] == sp_pixel(
                    data@,
                    w as int,
                    h as int,
                    k / 4,
                )[k % 4],
        decreases h - j,
    {
        let mut i: usize = 0;
        while i < w
            invariant
                w == width,
                h == height,
                frame_size == w * h,
                sp_required_len(w as int, h as int) <= data@.len(),
                total == data@.len(),
                j < h,
                i <= w,
                p == j * w + i,
                rgba_data@.len() == p * 4,
                forall|k: int|
                    0 <= k < p * 4 ==> #[trigger] rgba_data@[k] == sp_pixel(
                        data@,
                        w as int,
                        h as int,
                        k / 4,
                    )[k % 4],
            decreases w - i,
        {
            proof {
                lemma_sp_indices(w as int, h as int, j as int, i as int);
            }
            assert(frame_size + (j / 2) * w + (i / 2) * 2 + 1 < total);
            let c: usize = frame_size + (j / 2) * w + (i / 2) * 2;
            let px = yuv_to_rgba(data[p], data[c + 1], data[c]);
            let ghost before = rgba_data@;
            rgba_data.push(px[0]);
            rgba_data.push(px[1]);
            rgba_data.push(px[2]);
            rgba_data.push(px[3]);
            proof {
                crate::readback::lemma_row_index(j as int, i as int, w as int);
                assert(sp_chroma_index(w as int, h as int, p as int) == c);
                assert forall|k: int| 0 <= k < (p + 1) * 4 implies #[trigger] rgba_data@[k]
                    == sp_pixel(data@, w as int, h as int, k / 4)[k % 4] by {
                    if k >= p * 4 {
                        let t = k - p * 4;
                        crate::readback::lemma_row_index(p as int, t, 4);
                        assert(k / 4 == p && k % 4 == t);
                    } else {
                        assert(rgba_data@[k] == before[k]);
                    }
                }
            }
            p = p + 1;
            i = i + 1;
        }
        assert(p == (j + 1) * w) by (nonlinear_arith)
            requires
                p == j * w + w,
        ;
        j = j + 1;
    }
    proof {
        assert(p == w * h) by (nonlinear_arith)
            requires
                p == j * w,
                j == h,
        ;
        assert(rgba_data@ =~= decoded_sp(data@, w as nat, h as nat));
    }
    rgba_data
}

/// A semi-planar frame of even width whose luma samples all hold `y`, and
/// whose interleaved chroma pairs all hold `v` then `u`, decodes to that one
/// pixel everywhere.
pub proof fn lemma_uniform_semi_planar(data: Seq<u8>, w: nat, h: nat, y: u8, u: u8, v: u8)
    requires
        w % 2 == 0,
        sp_required_len(w as int, h as int) <= data.len(),
        forall|k: int| 0 <= k < w * h ==> #[trigger] data[k] == y,
        forall|k: int|
            w * h <= k < data.len() ==> #[trigger] data[k] == (if (k - w * h) % 2 == 0 {
                v
            } else {
                u
            }),
    ensures
        decoded_sp(data, w, h).len() == w * h * 4,
        forall|k: int|
            0 <= k < w * h * 4 ==> #[trigger] decoded_sp(data, w, h)[k] == rgba_of(y, u, v)[k
                % 4],
{
    assert forall|k: int| 0 <= k < w * h * 4 implies #[trigger] decoded_sp(data, w, h)[k]
        == rgba_of(y, u, v)[k % 4] by {
        let p = k / 4;
        let wi = w as int;
        assert(0 <= p < wi * h) by (nonlinear_arith)
            requires
                0 <= k < wi * h * 4,
                p == k / 4,
        ;
        assert(wi > 0) by (nonlinear_arith)
            requires
                0 <= p < wi * h,
        ;
        let j = p / wi;
        let i = p % wi;
        vstd::arithmetic::div_mod::lemma_fundamental_div_mod(p, wi);
        assert(0 <= j < h) by (nonlinear_arith)
            requires
                p == wi * j + i,
                0 <= i < wi,
                0 <= p < wi * h,
        ;
        lemma_sp_indices(wi, h as int, j, i);
        let m = wi / 2;
        assert((j / 2) * wi + (i / 2) * 2 == 2 * ((j / 2) * m + i / 2)) by (nonlinear_arith)
            requires
                wi == 2 * m,
        ;
        let c = sp_chroma_index(wi, h as int, p);
        assert(c - wi * h == 2 * ((j / 2) * m + i / 2));
        assert((c - wi * h) % 2 == 0);
        assert((c + 1 - wi * h) % 2 == 1);
        assert(data[c] == v);
        assert(data[c + 1] == u);
        assert(data[p] == y);
    }
}

/// For pixel `(i, j)` of a `w` by `h` frame, the luma index is `j * w + i` and
/// the chroma pair it reads lies inside the required length.
proof fn lemma_sp_indices(w: int, h: int, j: int, i: int)
    requires
        0 <= j < h,
        0 <= i < w,
    ensures
        j * w + i < w * h,
        w * h + (j / 2) * w + (i / 2) * 2 + 1 < sp_required_len(w, h),
        0 <= (j / 2) * w,
        0 <= (i / 2) * 2,
{
    assert(j * w + i < w * h) by (nonlinear_arith)
        requires
            0 <= j < h,
            0 <= i < w,
    ;
    vstd::arithmetic::div_mod::lemma_div_is_ordered(j, h - 1, 2);
    vstd::arithmetic::div_mod::lemma_div_is_ordered(i, w - 1, 2);
    assert(0 <= j / 2);
    assert(0 <= i / 2);
    crate::readback::lemma_mul_le(j / 2, (h - 1) / 2, w);
    assert((j / 2) * w >= 0) by (nonlinear_arith)
        requires
            j / 2 >= 0,
            w >= 0,
    ;
}

/// A YUV 4:2:0 frame as the camera hands it over: a full-resolution luma
/// plane and two half-resolution chroma planes, each with its own row stride;
/// chroma samples within a row lie `uv_pixel_stride` bytes apart (1 when
/// planar, 2 when U and V are interleaved).
pub struct PlanarFrame {
    pub width: usize,
    pub height: usize,
    pub y_plane: Vec<u8>,
    pub y_row_stride: usize,
    pub u_plane: Vec<u8>,
    pub v_plane: Vec<u8>,
    pub uv_row_stride: usize,
    pub uv_pixel_stride: usize,
}

/// A planar frame's geometry and planes as mathematical values.
pub struct PlanarView {
    pub width: nat,
    pub height: nat,
    pub y: Seq<u8>,
    pub y_row_stride: nat,
    pub u: Seq<u8>,
    pub v: Seq<u8>,
    pub uv_row_stride: nat,
    pub uv_pixel_stride: nat,
}

impl View for PlanarFrame {
    type V = PlanarView;

    open spec fn view(&self) -> PlanarView {
        PlanarView {
            width: self.width as nat,
            height: self.height as nat,
            y: self.y_plane@,
            y_row_stride: self.y_row_stride as nat,
            u: self.u_plane@,
            v: self.v_plane@,
            uv_row_stride: self.uv_row_stride as nat,
            uv_pixel_stride: self.uv_pixel_stride as nat,
        }
    }
}

/// The chroma pixel strides the converter reads: planar and interleaved.
pub open spec fn supported_pixel_stride(s: nat) -> bool {
    s == 1 || s == 2
}

/// Where the luma sample of pixel `p` (in row order) lies.
pub open spec fn luma_index(f: PlanarView, p: int) -> int {
    (p / f.width as int) * f.y_row_stride + p % f.width as int
}

/// Where the chroma samples that cover pixel `p` lie in the U and V planes.
pub open spec fn chroma_index(f: PlanarView, p: int) -> int {
    (p / f.width as int / 2) * f.uv_row_stride + (p % f.width as int / 2) * f.uv_pixel_stride
}

/// The planes hold every sample that the frame's pixels read.
pub open spec fn planes_cover(f: PlanarView) -> bool {
    f.width <= f.y_row_stride && (f.width > 0 && f.height > 0 ==> {
        &&& (f.height - 1) * f.y_row_stride + f.width <= f.y.len()
        &&& ((f.height - 1) / 2) * f.uv_row_stride + ((f.width - 1) / 2) * f.uv_pixel_stride
            < f.u.len()
        &&& ((f.height - 1) / 2) * f.uv_row_stride + ((f.width - 1) / 2) * f.uv_pixel_stride
            < f.v.len()
    })
}

/// Pixel `p` of a planar frame.
pub open spec fn planar_pixel(f: PlanarView, p: int) -> Seq<u8> {
    let c = chroma_index(f, p);
    rgba_of(f.y[luma_index(f, p)], f.u[c], f.v[c])
}

/// The packed RGBA image of a planar frame, one opaque pixel per luma sample.
pub open spec fn converted(f: PlanarView) -> Seq<u8> {
    Seq::new(f.width * f.height * 4, |i: int| planar_pixel(f, i / 4)[i % 4])
}

/// Tells whether the planes of `f` hold every sample its pixels read.
fn check_planes(f: &PlanarFrame) -> (r: bool)
    ensures
        r == planes_cover(f@),
{
    if f.width > f.y_row_stride {
        return false;
    }
    if f.width == 0 || f.height == 0 {
        return true;
    }
    let luma_end = match (f.height - 1).checked_mul(f.y_row_stride) {
        Some(a) => a.checked_add(f.width),
        None => None,
    };
    let luma_ok = match luma_end {
        Some(e) => e <= f.y_plane.len(),
        None => false,
    };
    let chroma_last = match ((f.height - 1) / 2).checked_mul(f.uv_row_stride) {
        Some(a) => match ((f.width - 1) / 2).checked_mul(f.uv_pixel_stride) {
            Some(b) => a.checked_add(b),
            None => None,
        },
        None => None,
    };
    let chroma_ok = match chroma_last {
        Some(c) => c < f.u_plane.len() && c < f.v_plane.len(),
        None => false,
    };
    let y_len = f.y_plane.len();
    let u_len = f.u_plane.len();
    let v_len = f.v_plane.len();
    proof {
        let v = f@;
        let a = ((v.height - 1) / 2) as int;
        let b = ((v.width - 1) / 2) as int;
        assert(0 <= a * v.uv_row_stride) by (nonlinear_arith)
            requires
                0 <= a,
        ;
        assert(0 <= b * v.uv_pixel_stride) by (nonlinear_arith)
            requires
                0 <= b,
        ;
        assert(0 <= (v.height - 1) * v.y_row_stride) by (nonlinear_arith)
            requires
                v.height >= 1,
        ;
    }
    luma_ok && chroma_ok
}

/// Converts a planar YUV 4:2:0 frame to packed RGBA, reading each chroma
/// sample at the frame's own row and pixel strides.
pub fn convert_planar(f: &PlanarFrame) -> (r: Result<Vec<u8>, PipelineError>)
    ensures
        !supported_pixel_stride(f@.uv_pixel_stride) ==> r == Err::<Vec<u8>, PipelineError>(
            PipelineError::UnsupportedPixelFormat,
        ),
        supported_pixel_stride(f@.uv_pixel_stride) && !planes_cover(f@) ==> r == Err::<
            Vec<u8>,
            PipelineError,
        >(PipelineError::FrameAcquisitionFailed),
        supported_pixel_stride(f@.uv_pixel_stride) && planes_cover(f@) ==> r.is_ok(),
        r.is_ok() ==> r.unwrap()@ == converted(f@),
{
    if f.uv_pixel_stride != 1 && f.uv_pixel_stride != 2 {
        return Err(PipelineError::UnsupportedPixelFormat);
    }
    if !check_planes(f) {
        return Err(PipelineError::FrameAcquisitionFailed);
    }
    let w = f.width;
    let h = f.height;
    let ghost fv = f@;
    let y_len = f.y_plane.len();
    let u_len = f.u_plane.len();
    let v_len = f.v_plane.len();
    let mut out: Vec<u8> = Vec::new();
    let mut j: usize = 0;
    while j < h
        invariant
            fv == f@,
            w == fv.width,
            h == fv.height,
            y_len == fv.y.len(),
            u_len == fv.u.len(),
            v_len == fv.v.len(),
            planes_cover(fv),
            supported_pixel_stride(fv.uv_pixel_stride),
            j <= h,
            out@.len() == j * w * 4,
            forall|k: int|
                0 <= k < j * w * 4 ==> #[trigger] out@[k] == planar_pixel(fv, k / 4)[k % 4],
        decreases h - j,
    {
        let mut i: usize = 0;
        while i < w
            invariant
                fv == f@,
                w == fv.width,
                h == fv.height,
                y_len == fv.y.len(),
                u_len == fv.u.len(),
                v_len == fv.v.len(),
                planes_cover(fv),
                supported_pixel_stride(fv.uv_pixel_stride),
                j < h,
                i <= w,
                out@.len() == (j * w + i) * 4,
                forall|k: int|
                    0 <= k < (j * w + i) * 4 ==> #[trigger] out@[k] == planar_pixel(fv, k / 4)[k
                        % 4],
            decreases w - i,
        {
            let ghost p = j * w + i;
            proof {
                lemma_planar_indices(fv, j as int, i as int);
                crate::readback::lemma_row_index(j as int, i as int, w as int);
                assert(j * fv.y_row_stride + i < y_len);
                assert((j / 2) * fv.uv_row_stride + (i / 2) * fv.uv_pixel_stride < u_len);
            }
            let yi: usize = j * f.y_row_stride + i;
            let ci: usize = (j / 2) * f.uv_row_stride + (i / 2) * f.uv_pixel_stride;
            let px = yuv_to_rgba(f.y_plane[yi], f.u_plane[ci], f.v_plane[ci]);
            let ghost before = out@;
            out.push(px[0]);
            out.push(px[1]);
            out.push(px[2]);
            out.push(px[3]);
            proof {
                assert(luma_index(fv, p) == yi);
                assert(chroma_index(fv, p) == ci);
                assert forall|k: int| 0 <= k < (p + 1) * 4 implies #[trigger] out@[k]
                    == planar_pixel(fv, k / 4)[k % 4] by {
                    if k >= p * 4 {
                        let t = k - p * 4;
                        crate::readback::lemma_row_index(p, t, 4);
                    } else {
                        assert(out@[k] == before[k]);
                    }
                }
            }
            i = i + 1;
        }
        assert((j + 1) * w * 4 == (j * w + w) * 4) by (nonlinear_arith);
        j = j + 1;
    }
    proof {
        assert(h * w * 4 == w * h * 4) by (nonlinear_arith);
        assert(out@ =~= converted(fv));
    }
    Ok(out)
}

/// The chroma texture of a planar frame: `width / 2` by `height / 2` texels
/// in row order, each the U sample followed by the V sample.
pub open spec fn chroma_texels(f: PlanarView) -> Seq<u8> {
    let cw = f.width / 2;
    Seq::new(
        cw * (f.height / 2) * 2,
        |i: int|
            {
                let q = i / 2;
                let idx = (q / cw as int) * f.uv_row_stride + (q % cw as int) * f.uv_pixel_stride;
                if i % 2 == 0 {
                    f.u[idx]
                } else {
                    f.v[idx]
                }
            },
    )
}

/// Gathers the chroma samples of a planar frame into the two-channel texture
/// layout the GPU conversion samples, reading each at the frame's own strides.
pub fn pack_chroma(f: &PlanarFrame) -> (r: Result<Vec<u8>, PipelineError>)
    ensures
        !supported_pixel_stride(f@.uv_pixel_stride) ==> r == Err::<Vec<u8>, PipelineError>(
            PipelineError::UnsupportedPixelFormat,
        ),
        supported_pixel_stride(f@.uv_pixel_stride) && !planes_cover(f@) ==> r == Err::<
            Vec<u8>,
            PipelineError,
        >(PipelineError::FrameAcquisitionFailed),
        supported_pixel_stride(f@.uv_pixel_stride) && planes_cover(f@) ==> r.is_ok(),
        r.is_ok() ==> r.unwrap()@ == chroma_texels(f@),
{
    if f.uv_pixel_stride != 1 && f.uv_pixel_stride != 2 {
        return Err(PipelineError::UnsupportedPixelFormat);
    }
    if !check_planes(f) {
        return Err(PipelineError::FrameAcquisitionFailed);
    }
    let cw = f.width / 2;
    let ch = f.height / 2;
    let ghost fv = f@;
    let u_len = f.u_plane.len();
    let mut out: Vec<u8> = Vec::new();
    let mut r: usize = 0;
    while r < ch
        invariant
            fv == f@,
            cw == fv.width / 2,
            ch == fv.height / 2,
            u_len == fv.u.len(),
            planes_cover(fv),
            r <= ch,
            out@.len() == r * cw * 2,
            forall|k: int|
                0 <= k < r * cw * 2 ==> #[trigger] out@[k] == chroma_texels(fv)[k],
        decreases ch - r,
    {
        let mut c: usize = 0;
        while c < cw
            invariant
                fv == f@,
                cw == fv.width / 2,
                ch == fv.height / 2,
                u_len == fv.u.len(),
                planes_cover(fv),
                r < ch,
                c <= cw,
                out@.len() == (r * cw + c) * 2,
                forall|k: int|
                    0 <= k < (r * cw + c) * 2 ==> #[trigger] out@[k] == chroma_texels(fv)[k],
            decreases cw - c,
        {
            let ghost q = r * cw + c;
            proof {
                lemma_planar_indices(fv, 2 * r as int, 2 * c as int);
                assert((2 * r as int) / 2 == r && (2 * c as int) / 2 == c);
                crate::readback::lemma_row_index(r as int, c as int, cw as int);
                assert(r * fv.uv_row_stride + c * fv.uv_pixel_stride < u_len);
            }
            let idx: usize = r * f.uv_row_stride + c * f.uv_pixel_stride;
            let ghost before = out@;
            out.push(f.u_plane[idx]);
            out.push(f.v_plane[idx]);
            proof {
                assert((q + 1) * 2 <= cw * ch * 2) by (nonlinear_arith)
                    requires
                        q == r * cw + c,
                        r < ch,
                        c < cw,
                ;
                assert forall|k: int| 0 <= k < (q + 1) * 2 implies #[trigger] out@[k]
                    == chroma_texels(fv)[k] by {
                    if k >= q * 2 {
                        crate::readback::lemma_row_index(q, k - q * 2, 2);
                    } else {
                        assert(out@[k] == before[k]);
                    }
                }
            }
            c = c + 1;
        }
        assert((r + 1) * cw * 2 == (r * cw + cw) * 2) by (nonlinear_arith);
        r = r + 1;
    }
    proof {
        assert(ch * cw * 2 == cw * ch * 2) by (nonlinear_arith);
        assert(out@ =~= chroma_texels(fv));
    }
    Ok(out)
}

/// Every converted pixel is fully opaque, and the image has one pixel per
/// luma sample.
pub proof fn lemma_converted_opaque(f: PlanarView)
    ensures
        converted(f).len() == f.width * f.height * 4,
        forall|k: int| 0 <= k < converted(f).len() && k % 4 == 3 ==> #[trigger] converted(f)[k] == 255,
{
}

/// A frame whose luma plane holds one value throughout, and whose chroma
/// planes hold one value each, converts to that one pixel everywhere, for each
/// supported chroma pixel stride: the converter reads every sample from its
/// own plane at the right interleave offset.
pub proof fn lemma_uniform_frame(f: PlanarView, y: u8, u: u8, v: u8)
    requires
        supported_pixel_stride(f.uv_pixel_stride),
        planes_cover(f),
        forall|i: int| 0 <= i < f.y.len() ==> #[trigger] f.y[i] == y,
        forall|i: int| 0 <= i < f.u.len() ==> #[trigger] f.u[i] == u,
        forall|i: int| 0 <= i < f.v.len() ==> #[trigger] f.v[i] == v,
    ensures
        converted(f).len() == f.width * f.height * 4,
        forall|k: int|
            0 <= k < converted(f).len() ==> #[trigger] converted(f)[k] == rgba_of(y, u, v)[k % 4],
{
    assert forall|k: int| 0 <= k < converted(f).len() implies #[trigger] converted(f)[k]
        == rgba_of(y, u, v)[k % 4] by {
        let p = k / 4;
        let w = f.width as int;
        assert(0 <= p < w * f.height) by (nonlinear_arith)
            requires
                0 <= k < w * f.height * 4,
                p == k / 4,
        ;
        assert(w > 0) by (nonlinear_arith)
            requires
                0 <= p < w * f.height,
        ;
        let j = p / w;
        let i = p % w;
        vstd::arithmetic::div_mod::lemma_fundamental_div_mod(p, w);
        assert(j < f.height) by (nonlinear_arith)
            requires
                p == w * j + i,
                0 <= i < w,
                p < w * f.height,
        ;
        assert(0 <= j) by (nonlinear_arith)
            requires
                p == w * j + i,
                0 <= p,
                0 <= i < w,
        ;
        lemma_planar_indices(f, j, i);
    }
}

/// The samples that pixel `(i, j)` reads lie inside their planes, and their
/// indices fit in memory.
proof fn lemma_planar_indices(f: PlanarView, j: int, i: int)
    requires
        planes_cover(f),
        0 <= j < f.height,
        0 <= i < f.width,
    ensures
        0 <= j * f.y_row_stride + i < f.y.len(),
        0 <= (j / 2) * f.uv_row_stride,
        0 <= (i / 2) * f.uv_pixel_stride,
        (j / 2) * f.uv_row_stride + (i / 2) * f.uv_pixel_stride < f.u.len(),
        (j / 2) * f.uv_row_stride + (i / 2) * f.uv_pixel_stride < f.v.len(),
        j * f.y_row_stride <= j * f.y_row_stride + i,
{
    crate::readback::lemma_mul_le(j, f.height - 1, f.y_row_stride as int);
    assert(0 <= j * f.y_row_stride) by (nonlinear_arith)
        requires
            0 <= j,
    ;
    vstd::arithmetic::div_mod::lemma_div_is_ordered(j, f.height - 1, 2);
    vstd::arithmetic::div_mod::lemma_div_is_ordered(i, f.width - 1, 2);
    crate::readback::lemma_mul_le(j / 2, (f.height - 1) / 2, f.uv_row_stride as int);
    crate::readback::lemma_mul_le(i / 2, (f.width - 1) / 2, f.uv_pixel_stride as int);
    assert(0 <= (j / 2) * f.uv_row_stride) by (nonlinear_arith)
        requires
            0 <= j,
    ;
    assert(0 <= (i / 2) * f.uv_pixel_stride) by (nonlinear_arith)
        requires
            0 <= i,
    ;
}

} // verus!
