//! macOS encoder (VideoToolbox): the clip encoder handle, reading the
//! parameter sets out of an encoded frame, and scaling BGRA captures to the
//! encoder's size.
use vstd::prelude::*;
use vstd::arithmetic::div_mod::lemma_fundamental_div_mod_converse;

use crate::avcc::{last_param_sets_from, scan_last_param_sets};
use crate::encoder::EncodeError;
use crate::image_codec::{resize_rgba_triangle, triangle_resized_rgba};

verus! {

/// The macOS VideoToolbox-backed clip encoder.
pub struct MacEncoder;

impl MacEncoder {
    /// A new macOS encoder.
    pub fn new() -> (r: Self) {
        MacEncoder
    }
}

/// The SPS and PPS payloads of an encoded AVCC frame: the last of each type
/// among its well-formed units; an error when either is missing or empty.
pub fn extract_nal_sps_pps(data: &[u8]) -> (r: Result<(Vec<u8>, Vec<u8>), EncodeError>)
    requires
        last_param_sets_from(data@, 0, seq![], seq![]) is Some,
    ensures
        match last_param_sets_from(data@, 0, seq![], seq![]) {
            Some((sps, pps)) => if sps.len() > 0 && pps.len() > 0 {
                r matches Ok(x) && x.0@ == sps && x.1@ == pps
            } else {
                r matches Err(e) && e matches EncodeError::EncodeFailed(m) && m@
                    == "SPS/PPS not found in encoded frame"@
            },
            None => false,
        },
{
    let (sps, pps) = scan_last_param_sets(data);
    if sps.len() > 0 && pps.len() > 0 {
        Ok((sps, pps))
    } else {
        Err(EncodeError::EncodeFailed(String::from_str("SPS/PPS not found in encoded frame")))
    }
}

/// The BGRA channel that RGBA channel `c` is taken from (and back): red and
/// blue trade places, green and alpha stay.
pub open spec fn swapped_channel(c: int) -> int {
    if c == 0 {
        2
    } else if c == 2 {
        0
    } else {
        c
    }
}

/// Channel `c` of pixel `p` (row-major) of a `width`-wide BGRA image whose
/// rows start `stride` bytes apart.
pub open spec fn bgra_byte(data: Seq<u8>, width: int, stride: int, p: int, c: int) -> u8 {
    data[(p / width) * stride + (p % width) * 4 + c]
}

/// The `width × height` BGRA image in `data` as tightly packed RGBA.
pub open spec fn rgba_from_bgra(data: Seq<u8>, width: int, height: int, stride: int) -> Seq<u8> {
    Seq::new((width * height * 4) as nat, |i: int| bgra_byte(data, width, stride, i / 4, swapped_channel(i % 4)))
}

/// Tightly packed four-channel pixels with red and blue exchanged.
pub open spec fn swap_red_blue(s: Seq<u8>) -> Seq<u8> {
    Seq::new(s.len(), |i: int| s[(i / 4) * 4 + swapped_channel(i % 4)])
}

/// Every pixel, alpha included, of a `width × height` BGRA image with rows
/// `stride` bytes apart lies inside a buffer of `len` bytes.
pub open spec fn bgra_pixels_readable(len: int, width: int, height: int, stride: int) -> bool {
    width > 0 && height > 0 ==> (height - 1) * stride + (width - 1) * 4 + 3 < len
}

/// The BGRA pixels of the capture in `data` scaled to
/// `target_width × target_height` with the triangle filter.
pub open spec fn resized_bgra(
    data: Seq<u8>,
    width: u32,
    height: u32,
    target_width: u32,
    target_height: u32,
    stride: u32,
) -> Seq<u8> {
    swap_red_blue(
        triangle_resized_rgba(
            rgba_from_bgra(data, width as int, height as int, stride as int),
            width,
            height,
            target_width,
            target_height,
        ),
    )
}

/// Byte `4 * p + c` of a four-channel image is channel `c` of pixel `p`.
proof fn lemma_channel_index(p: int, c: int)
    requires
        0 <= c < 4,
    ensures
        (4 * p + c) / 4 == p,
        (4 * p + c) % 4 == c,
{
    lemma_fundamental_div_mod_converse(4 * p + c, 4, p, c);
}

/// Scales a BGRA capture (rows `stride` bytes apart) to
/// `target_width × target_height`: its pixels are reordered to RGBA, resized
/// with the triangle filter and reordered back to BGRA.
pub fn resize_bgra_frame(
    data: &[u8],
    width: u32,
    height: u32,
    target_width: u32,
    target_height: u32,
    stride: u32,
) -> (r: Result<Vec<u8>, EncodeError>)
    requires
        bgra_pixels_readable(data@.len() as int, width as int, height as int, stride as int),
        width * height * 4 <= isize::MAX,
        width * target_height * 16 <= isize::MAX,
        target_width * target_height * 4 <= isize::MAX,
    ensures
        r matches Ok(v) && v@ == resized_bgra(data@, width, height, target_width, target_height, stride)
            && v@.len() == target_width * target_height * 4,
{
    let w = width as usize;
    let n = w * (height as usize);
    let st = stride as usize;
    let mut rgba: Vec<u8> = Vec::new();
    let mut p: usize = 0;
    while p < n
        invariant
            n == width * height,
            w == width,
            st == stride,
            p <= n,
            n * 4 <= isize::MAX,
            bgra_pixels_readable(data@.len() as int, width as int, height as int, stride as int),
            rgba@.len() == 4 * p,
            forall|i: int|
                0 <= i < 4 * p ==> #[trigger] rgba@[i] == bgra_byte(
                    data@,
                    width as int,
                    stride as int,
                    i / 4,
                    swapped_channel(i % 4),
                ),
        decreases n - p,
    {
        let y = p / w;
        let x = p % w;
        let len = data.len();
        proof {
            assert(w > 0 && height > 0) by (nonlinear_arith)
                requires
                    p < w * height,
            ;
            assert(y < height) by (nonlinear_arith)
                requires
                    p < w * height,
                    y == p / w,
                    w > 0,
            ;
            assert(x < w);
            assert(y * stride <= (height - 1) * stride) by (nonlinear_arith)
                requires
                    y <= height - 1,
            ;
            assert((height - 1) * stride + (width - 1) * 4 + 3 < data@.len());
            assert(y * st + x * 4 + 3 < len);
        }
        let off = y * st + x * 4;
        let ghost before = rgba@;
        rgba.push(data[off + 2]);
        rgba.push(data[off + 1]);
        rgba.push(data[off]);
        rgba.push(data[off + 3]);
        proof {
            assert forall|i: int| 0 <= i < 4 * (p + 1) implies #[trigger] rgba@[i] == bgra_byte(
                data@,
                width as int,
                stride as int,
                i / 4,
                swapped_channel(i % 4),
            ) by {
                if i >= 4 * p {
                    lemma_channel_index(p as int, i - 4 * p);
                } else {
                    assert(rgba@[i] == before[i]);
                }
            }
        }
        p += 1;
    }
    proof {
        assert(rgba@ =~= rgba_from_bgra(data@, width as int, height as int, stride as int));
    }
    let resized = resize_rgba_triangle(rgba, width, height, target_width, target_height);
    let m = (target_width as usize) * (target_height as usize);
    let ghost src = resized@;
    let mut bgra: Vec<u8> = Vec::new();
    let mut q: usize = 0;
    while q < m
        invariant
            m == target_width * target_height,
            src == resized@,
            src.len() == 4 * m,
            q <= m,
            m * 4 <= isize::MAX,
            bgra@.len() == 4 * q,
            forall|i: int| 0 <= i < 4 * q ==> #[trigger] bgra@[i] == src[(i / 4) * 4 + swapped_channel(i % 4)],
        decreases m - q,
    {
        let o = q * 4;
        let ghost before = bgra@;
        bgra.push(resized[o + 2]);
        bgra.push(resized[o + 1]);
        bgra.push(resized[o]);
        bgra.push(resized[o + 3]);
        proof {
            assert forall|i: int| 0 <= i < 4 * (q + 1) implies #[trigger] bgra@[i] == src[(i / 4) * 4
                + swapped_channel(i % 4)] by {
                if i >= 4 * q {
                    lemma_channel_index(q as int, i - 4 * q);
                } else {
                    assert(bgra@[i] == before[i]);
                }
            }
        }
        q += 1;
    }
    proof {
        assert(bgra@ =~= swap_red_blue(src));
    }
    Ok(bgra)
}

} // verus!
