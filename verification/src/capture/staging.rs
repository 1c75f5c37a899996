//! Reading an NV12 frame out of a GPU staging texture whose rows are padded
//! to a row pitch: the Y rows, then the interleaved UV rows, each copied
//! without its padding.
use vstd::prelude::*;

use super::convert::{half_up, lemma_pixel_coords, nv12_len};

verus! {

/// Bytes in one row of the packed UV plane: a U and a V sample for each
/// pair of columns.
pub open spec fn uv_row_len(w: int) -> int {
    half_up(w) * 2
}

/// Byte `k` of the packed NV12 frame taken from staging memory `src` with
/// rows `pitch` bytes apart. When the pitch equals the width the memory is
/// taken as already packed; otherwise each Y row and each UV row is copied
/// from the start of its padded row, and the byte that an odd width leaves
/// at the end of a UV row is zero.
pub open spec fn staged_nv12_byte(src: Seq<u8>, pitch: int, w: int, h: int, k: int) -> u8 {
    if pitch == w {
        src[k]
    } else if k < w * h {
        src[(k / w) * pitch + k % w]
    } else {
        let j = k - w * h;
        let row = j / uv_row_len(w);
        let col = j % uv_row_len(w);
        if col < w {
            src[h * pitch + row * pitch + col]
        } else {
            0
        }
    }
}

/// The packed NV12 frame taken from staging memory `src`.
pub open spec fn staged_nv12(src: Seq<u8>, pitch: int, w: int, h: int) -> Seq<u8> {
    Seq::new(nv12_len(w, h) as nat, |k: int| staged_nv12_byte(src, pitch, w, h, k))
}

/// Whether staging memory of the given geometry can be read as the GPU
/// maps it: it spans `pitch × (height + ⌈height/2⌉)` bytes, the sizes fit
/// in 32 bits, an unpadded mapping holds the whole packed frame, and padded
/// rows are at least as wide as the frame.
pub open spec fn staging_readable(len: int, pitch: int, w: int, h: int) -> bool {
    &&& w * h <= u32::MAX
    &&& half_up(w) * half_up(h) * 2 <= u32::MAX
    &&& nv12_len(w, h) <= usize::MAX
    &&& len == pitch * (h + half_up(h))
    &&& pitch == w ==> nv12_len(w, h) <= len
    &&& pitch != w && h > 0 ==> w <= pitch
}

/// Copies an NV12 frame out of mapped staging memory `src` (rows `pitch`
/// bytes apart) into a tightly packed buffer: the Y plane followed by the
/// interleaved UV plane, padding dropped.
pub fn pack_nv12_staging(src: &[u8], pitch: usize, width: u32, height: u32) -> (r: Vec<u8>)
    requires
        staging_readable(src@.len() as int, pitch as int, width as int, height as int),
    ensures
        r@ == staged_nv12(src@, pitch as int, width as int, height as int),
{
    let src_len = src.len();
    let w = width as usize;
    let h = height as usize;
    let y_size = w * h;
    let uv_w = w / 2 + w % 2;
    let uv_h = h / 2 + h % 2;
    assert(uv_w == half_up(w as int) && uv_h == half_up(h as int));
    let uv_size = uv_w * uv_h * 2;
    let total = y_size + uv_size;
    let ghost spec_out = staged_nv12(src@, pitch as int, w as int, h as int);
    assert(total == nv12_len(w as int, h as int)) by (nonlinear_arith)
        requires
            total == y_size + uv_size,
            y_size == w * h,
            uv_size == uv_w * uv_h * 2,
            uv_w == half_up(w as int),
            uv_h == half_up(h as int),
    ;
    let mut out: Vec<u8> = Vec::new();
    if pitch == w {
        let mut k: usize = 0;
        while k < total
            invariant
                k <= total,
                total == spec_out.len(),
                total <= src@.len(),
                pitch == w,
                spec_out == staged_nv12(src@, pitch as int, w as int, h as int),
                out@ == spec_out.take(k as int),
            decreases total - k,
        {
            out.push(src[k]);
            assert(out@ =~= spec_out.take(k as int + 1));
            k += 1;
        }
        assert(out@ =~= spec_out);
        return out;
    }
    // Y rows.
    let mut y: usize = 0;
    while y < h
        invariant
            y <= h,
            h == height,
            w == width,
            pitch != w,
            h > 0 ==> w <= pitch,
            y_size == w * h,
            src_len == src@.len(),
            src@.len() == pitch * (h + uv_h),
            total == spec_out.len(),
            spec_out == staged_nv12(src@, pitch as int, w as int, h as int),
            out@ == spec_out.take(y * w),
            y * w <= y_size,
        decreases h - y,
    {
        let mut x: usize = 0;
        assert(y * pitch + w <= pitch * h) by (nonlinear_arith)
            requires
                y < h,
                w <= pitch,
        ;
        assert(pitch * h <= pitch * (h + uv_h)) by (nonlinear_arith)
            requires
                uv_h >= 0,
        ;
        assert(y * w + w <= y_size) by (nonlinear_arith)
            requires
                y < h,
                y_size == w * h,
        ;
        while x < w
            invariant
                x <= w,
                y < h,
                h == height,
                w == width,
                pitch != w,
                w <= pitch,
                y_size == w * h,
                y * pitch + w <= pitch * h,
                pitch * h <= src_len,
                src_len == src@.len(),
                src@.len() == pitch * (h + uv_h),
                total == spec_out.len(),
                spec_out == staged_nv12(src@, pitch as int, w as int, h as int),
                out@ == spec_out.take(y * w + x),
                y * w + w <= y_size,
            decreases w - x,
        {
            let k: Ghost<int> = Ghost(y * w + x);
            proof {
                lemma_pixel_coords(k@, w as int, x as int, y as int);
                assert(k@ < w * h);
            }
            out.push(src[y * pitch + x]);
            assert(out@ =~= spec_out.take(y * w + x + 1));
            x += 1;
        }
        assert(y * w + w == (y + 1) * w) by (nonlinear_arith);
        y += 1;
        assert(y * w <= y_size) by (nonlinear_arith)
            requires
                y <= h,
                y_size == w * h,
        ;
    }
    // UV rows.
    assert(out@.len() == y_size) by (nonlinear_arith)
        requires
            out@.len() == h * w,
            y_size == w * h,
    ;
    if uv_h == 0 {
        assert(h == 0);
        assert(y_size == 0 && uv_size == 0) by (nonlinear_arith)
            requires
                h == 0,
                uv_h == 0,
                y_size == w * h,
                uv_size == uv_w * uv_h * 2,
        ;
        assert(out@ =~= spec_out);
        return out;
    }
    assert(uv_w * 2 <= uv_w * uv_h * 2) by (nonlinear_arith)
        requires
            uv_h >= 1,
    ;
    let row_len = uv_w * 2;
    assert(w <= row_len);
    assert(h * pitch <= src_len) by (nonlinear_arith)
        requires
            src_len == pitch * (h + uv_h),
            uv_h >= 0,
    ;
    let uv_start = h * pitch;
    assert(uv_h * row_len == uv_size) by (nonlinear_arith)
        requires
            row_len == uv_w * 2,
            uv_size == uv_w * uv_h * 2,
    ;
    let mut r: usize = 0;
    while r < uv_h
        invariant
            r <= uv_h,
            h == height,
            w == width,
            uv_h == half_up(h as int),
            row_len == uv_w * 2,
            uv_w == half_up(w as int),
            w <= row_len,
            pitch != w,
            h > 0 ==> w <= pitch,
            uv_start == h * pitch,
            y_size == w * h,
            total == y_size + uv_h * row_len,
            src_len == src@.len(),
            src@.len() == pitch * (h + uv_h),
            total == spec_out.len(),
            spec_out == staged_nv12(src@, pitch as int, w as int, h as int),
            out@ == spec_out.take(y_size + r * row_len),
            y_size + r * row_len <= total,
        decreases uv_h - r,
    {
        assert(h > 0);
        assert(uv_start + r * pitch + w <= src@.len()) by (nonlinear_arith)
            requires
                uv_start == h * pitch,
                r < uv_h,
                w <= pitch,
                src@.len() == pitch * (h + uv_h),
        ;
        assert(y_size + r * row_len + row_len <= total) by (nonlinear_arith)
            requires
                r < uv_h,
                total == y_size + uv_h * row_len,
        ;
        let mut c: usize = 0;
        while c < row_len
            invariant
                c <= row_len,
                r < uv_h,
                h == height,
                w == width,
                row_len == uv_w * 2,
                uv_w == half_up(w as int),
                w <= row_len,
                pitch != w,
                uv_start == h * pitch,
                y_size == w * h,
                uv_start + r * pitch + w <= src@.len(),
                src_len == src@.len(),
                y_size + r * row_len + row_len <= total,
                total == spec_out.len(),
                spec_out == staged_nv12(src@, pitch as int, w as int, h as int),
                out@ == spec_out.take(y_size + r * row_len + c),
            decreases row_len - c,
        {
            let ghost j: int = r * row_len + c;
            let ghost k: int = y_size + j;
            proof {
                lemma_pixel_coords(j, row_len as int, c as int, r as int);
                assert(k >= w * h);
                assert(k - w * h == j);
            }
            let b: u8 = if c < w {
                src[uv_start + r * pitch + c]
            } else {
                0
            };
            out.push(b);
            assert(out@ =~= spec_out.take(y_size + r * row_len + c + 1));
            c += 1;
        }
        assert(y_size + r * row_len + row_len == y_size + (r + 1) * row_len) by (nonlinear_arith);
        r += 1;
    }
    assert(out@ =~= spec_out);
    out
}

} // verus!
