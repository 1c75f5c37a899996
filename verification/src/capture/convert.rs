//! BGRA ↔ NV12 colour conversions with integer BT.601 (studio swing)
//! coefficients.
//!
//! Throughout, `x >> 8` of the reference formulas is an arithmetic shift, i.e.
//! floor division by 256; the specifications write it as `/ 256` over `int`,
//! which is floor division for a positive divisor.
use vstd::prelude::*;
use vstd::arithmetic::div_mod::{lemma_fundamental_div_mod, lemma_fundamental_div_mod_converse};

verus! {

// ── Per-sample colour formulas ──────────────────────────────────────────────

/// `v` limited to `0..=255`.
pub open spec fn clamp_byte(v: int) -> u8 {
    if v < 0 {
        0
    } else if v > 255 {
        255
    } else {
        v as u8
    }
}

/// Luma of an RGB triple: `((66r + 129g + 25b + 128) >> 8) + 16`, clamped.
pub open spec fn luma(r: int, g: int, b: int) -> u8 {
    clamp_byte((66 * r + 129 * g + 25 * b + 128) / 256 + 16)
}

/// Blue-difference chroma: `((-38r - 74g + 112b + 128) >> 8) + 128`, clamped.
pub open spec fn chroma_u(r: int, g: int, b: int) -> u8 {
    clamp_byte((-38 * r - 74 * g + 112 * b + 128) / 256 + 128)
}

/// Red-difference chroma: `((112r - 94g - 18b + 128) >> 8) + 128`, clamped.
pub open spec fn chroma_v(r: int, g: int, b: int) -> u8 {
    clamp_byte((112 * r - 94 * g - 18 * b + 128) / 256 + 128)
}

/// Red from YUV: `(298(y-16) + 409(v-128) + 128) >> 8`, clamped.
pub open spec fn red_of(y: int, u: int, v: int) -> u8 {
    clamp_byte((298 * (y - 16) + 409 * (v - 128) + 128) / 256)
}

/// Green from YUV: `(298(y-16) - 100(u-128) - 208(v-128) + 128) >> 8`, clamped.
pub open spec fn green_of(y: int, u: int, v: int) -> u8 {
    clamp_byte((298 * (y - 16) - 100 * (u - 128) - 208 * (v - 128) + 128) / 256)
}

/// Blue from YUV: `(298(y-16) + 516(u-128) + 128) >> 8`, clamped.
pub open spec fn blue_of(y: int, u: int, v: int) -> u8 {
    clamp_byte((298 * (y - 16) + 516 * (u - 128) + 128) / 256)
}

// ── Frame layouts ───────────────────────────────────────────────────────────

/// `ceil(n / 2)`: chroma samples along a dimension of `n` pixels.
pub open spec fn half_up(n: int) -> int {
    (n + 1) / 2
}

/// Byte length of a `w × h` NV12 frame: the Y plane, then interleaved U/V
/// pairs for each `2 × 2` block.
pub open spec fn nv12_len(w: int, h: int) -> int {
    w * h + 2 * (half_up(w) * half_up(h))
}

/// Index of the Y sample of pixel `(x, y)` in an NV12 frame `w` pixels wide.
pub open spec fn luma_index(w: int, x: int, y: int) -> int {
    y * w + x
}

/// Index of the U sample covering pixel `(x, y)` in a `w × h` NV12 frame;
/// the V sample follows it.
pub open spec fn chroma_index(w: int, h: int, x: int, y: int) -> int {
    w * h + 2 * ((y / 2) * half_up(w) + x / 2)
}

/// Byte offset of pixel `(x, y)` in a BGRA image whose rows are `stride`
/// bytes apart (bytes B, G, R, A).
pub open spec fn bgra_offset(stride: int, x: int, y: int) -> int {
    y * stride + 4 * x
}

/// Luma of BGRA pixel `(x, y)`.
pub open spec fn luma_at(bgra: Seq<u8>, stride: int, x: int, y: int) -> u8 {
    let o = bgra_offset(stride, x, y);
    luma(bgra[o + 2] as int, bgra[o + 1] as int, bgra[o] as int)
}

/// U chroma of BGRA pixel `(x, y)`.
pub open spec fn chroma_u_at(bgra: Seq<u8>, stride: int, x: int, y: int) -> u8 {
    let o = bgra_offset(stride, x, y);
    chroma_u(bgra[o + 2] as int, bgra[o + 1] as int, bgra[o] as int)
}

/// V chroma of BGRA pixel `(x, y)`.
pub open spec fn chroma_v_at(bgra: Seq<u8>, stride: int, x: int, y: int) -> u8 {
    let o = bgra_offset(stride, x, y);
    chroma_v(bgra[o + 2] as int, bgra[o + 1] as int, bgra[o] as int)
}

/// Whether every BGRA byte read for a `w × h` image lies inside `len` bytes
/// and every row offset fits in 32 bits.
pub open spec fn bgra_readable(len: int, w: int, h: int, stride: int) -> bool {
    &&& h > 0 ==> (h - 1) * stride <= u32::MAX
    &&& w > 0 && h > 0 ==> {
        &&& (w - 1) * 4 <= u32::MAX
        &&& (h - 1) * stride + (w - 1) * 4 + 2 < len
    }
}

// ── Arithmetic facts ────────────────────────────────────────────────────────

/// Pixel `k = y*w + x` of a row-major image has column `x` and row `y`.
pub(crate) proof fn lemma_pixel_coords(k: int, w: int, x: int, y: int)
    requires
        0 < w,
        0 <= x < w,
        k == y * w + x,
    ensures
        k % w == x,
        k / w == y,
{
    lemma_fundamental_div_mod_converse(k, w, y, x);
}

/// A biased numerator divided by 256, minus the bias, is the floor of the
/// unbiased one.
proof fn lemma_biased_floor(t: int, k: int)
    ensures
        (t + 256 * k) / 256 - k == t / 256,
{
    lemma_fundamental_div_mod(t, 256);
    lemma_fundamental_div_mod_converse(t + 256 * k, 256, t / 256 + k, t % 256);
}

proof fn lemma_row_step(y: int, w: int)
    ensures
        (y + 1) * w == y * w + w,
{
    assert((y + 1) * w == y * w + w) by (nonlinear_arith);
}

proof fn lemma_mul_le(a: int, b: int, c: int)
    requires
        0 <= a <= b,
        0 <= c,
    ensures
        0 <= a * c <= b * c,
{
    assert(0 <= a * c <= b * c) by (nonlinear_arith)
        requires
            0 <= a <= b,
            0 <= c,
    ;
}

// ── Per-pixel kernels ───────────────────────────────────────────────────────

/// Luma of one RGB triple.
fn rgb_to_y(r: u8, g: u8, b: u8) -> (out: u8)
    ensures
        out == luma(r as int, g as int, b as int),
{
    let num: u32 = 66 * (r as u32) + 129 * (g as u32) + 25 * (b as u32) + 128;
    let v: u32 = num / 256 + 16;
    if v > 255 {
        255
    } else {
        v as u8
    }
}

/// Floor of `num / 256` minus `bias` (plus `lift`), clamped to a byte.
fn clamp_biased(num: u32, bias: u32, lift: u32) -> (out: u8)
    requires
        lift <= 256,
    ensures
        out == clamp_byte(num as int / 256 - bias as int + lift as int),
{
    let q: u32 = num / 256 + lift;
    if q < bias {
        0
    } else if q - bias > 255 {
        255
    } else {
        (q - bias) as u8
    }
}

/// U chroma of one RGB triple.
fn rgb_to_u(r: u8, g: u8, b: u8) -> (out: u8)
    ensures
        out == chroma_u(r as int, g as int, b as int),
{
    let num: u32 = 112 * (b as u32) + 28800 - (38 * (r as u32) + 74 * (g as u32));
    proof {
        lemma_biased_floor(-38 * r - 74 * g + 112 * b + 128, 112);
    }
    clamp_biased(num, 112, 128)
}

/// V chroma of one RGB triple.
fn rgb_to_v(r: u8, g: u8, b: u8) -> (out: u8)
    ensures
        out == chroma_v(r as int, g as int, b as int),
{
    let num: u32 = 112 * (r as u32) + 28800 - (94 * (g as u32) + 18 * (b as u32));
    proof {
        lemma_biased_floor(112 * r - 94 * g - 18 * b + 128, 112);
    }
    clamp_biased(num, 112, 128)
}

/// Red from one YUV sample triple.
pub(crate) fn yuv_to_r(y: u8, u: u8, v: u8) -> (out: u8)
    ensures
        out == red_of(y as int, u as int, v as int),
{
    let num: u32 = 298 * (y as u32) + 409 * (v as u32) + 74080;
    proof {
        lemma_biased_floor(298 * (y - 16) + 409 * (v - 128) + 128, 512);
    }
    clamp_biased(num, 512, 0)
}

/// Green from one YUV sample triple.
pub(crate) fn yuv_to_g(y: u8, u: u8, v: u8) -> (out: u8)
    ensures
        out == green_of(y as int, u as int, v as int),
{
    let num: u32 = 298 * (y as u32) + 165856 - (100 * (u as u32) + 208 * (v as u32));
    proof {
        lemma_biased_floor(298 * (y - 16) - 100 * (u - 128) - 208 * (v - 128) + 128, 512);
    }
    clamp_biased(num, 512, 0)
}

/// Blue from one YUV sample triple.
pub(crate) fn yuv_to_b(y: u8, u: u8, v: u8) -> (out: u8)
    ensures
        out == blue_of(y as int, u as int, v as int),
{
    let num: u32 = 298 * (y as u32) + 516 * (u as u32) + 60384;
    proof {
        lemma_biased_floor(298 * (y - 16) + 516 * (u - 128) + 128, 512);
    }
    clamp_biased(num, 512, 0)
}


// ── Frame conversions ───────────────────────────────────────────────────────

/// Chroma byte `j` of the interleaved UV plane built from a BGRA image:
/// pair `j / 2` covers the block whose top-left pixel is given by the
/// pair's column and row, U first.
pub open spec fn chroma_byte(bgra: Seq<u8>, stride: int, uv_w: int, j: int) -> u8 {
    let p = j / 2;
    let x = 2 * (p % uv_w);
    let y = 2 * (p / uv_w);
    if j % 2 == 0 {
        chroma_u_at(bgra, stride, x, y)
    } else {
        chroma_v_at(bgra, stride, x, y)
    }
}

/// The NV12 frame made from a `w × h` BGRA image: the luma of each pixel
/// in row order, then the chroma pairs of each `2 × 2` block.
pub open spec fn nv12_from_bgra(bgra: Seq<u8>, w: int, h: int, stride: int) -> Seq<u8> {
    Seq::new(
        nv12_len(w, h) as nat,
        |k: int|
            if k < w * h {
                luma_at(bgra, stride, k % w, k / w)
            } else {
                chroma_byte(bgra, stride, half_up(w), k - w * h)
            },
    )
}

/// A pixel inside a `w × h` image lies inside its row-major plane, at the
/// column and row it came from.
proof fn lemma_in_plane(x: int, y: int, w: int, h: int)
    requires
        0 <= x < w,
        0 <= y < h,
    ensures
        0 <= y * w + x < w * h,
        (y * w + x) % w == x,
        (y * w + x) / w == y,
{
    assert(0 <= y * w + x < w * h) by (nonlinear_arith)
        requires
            0 <= x < w,
            0 <= y < h,
    ;
    lemma_pixel_coords(y * w + x, w, x, y);
}

/// Converts a BGRA image (rows `bgra_stride` bytes apart) to a tightly
/// packed NV12 frame. Each chroma pair is computed from the top-left pixel of
/// its `2 × 2` block.
pub fn bgra_to_nv12(bgra: &[u8], width: u32, height: u32, bgra_stride: u32) -> (r: Vec<u8>)
    requires
        width * height <= u32::MAX,
        half_up(width as int) * half_up(height as int) * 2 <= u32::MAX,
        bgra_readable(bgra@.len() as int, width as int, height as int, bgra_stride as int),
        nv12_len(width as int, height as int) <= usize::MAX,
    ensures
        r@.len() == nv12_len(width as int, height as int),
        r@ == nv12_from_bgra(bgra@, width as int, height as int, bgra_stride as int),
        forall|x: int, y: int|
            0 <= x < width && 0 <= y < height ==> r@[#[trigger] luma_index(width as int, x, y)]
                == luma_at(bgra@, bgra_stride as int, x, y),
        forall|x: int, y: int|
            0 <= x < width && 0 <= y < height && x % 2 == 0 && y % 2 == 0 ==> {
                &&& r@[#[trigger] chroma_index(width as int, height as int, x, y)] == chroma_u_at(
                    bgra@,
                    bgra_stride as int,
                    x,
                    y,
                )
                &&& r@[chroma_index(width as int, height as int, x, y) + 1] == chroma_v_at(
                    bgra@,
                    bgra_stride as int,
                    x,
                    y,
                )
            },
{
    let ghost w = width as int;
    let ghost h = height as int;
    let ghost stride = bgra_stride as int;
    let y_size: usize = (width * height) as usize;
    let uv_w: u32 = width / 2 + width % 2;
    let uv_h: u32 = height / 2 + height % 2;
    let uv_size: usize = (uv_w * uv_h * 2) as usize;
    let mut nv12: Vec<u8> = Vec::with_capacity(y_size + uv_size);

    // Y plane, row by row.
    let mut y: u32 = 0;
    while y < height
        invariant
            y <= height,
            nv12@.len() == y * w,
            forall|k: int|
                0 <= k < nv12@.len() ==> #[trigger] nv12@[k] == luma_at(bgra@, stride, k % w, k / w),
            w == width,
            h == height,
            stride == bgra_stride,
            bgra_readable(bgra@.len() as int, w, h, stride),
        decreases height - y,
    {
        proof {
            lemma_mul_le(y as int, h - 1, stride);
        }
        let row: usize = (y * bgra_stride) as usize;
        let mut x: u32 = 0;
        while x < width
            invariant
                x <= width,
                y < height,
                row == y * stride,
                nv12@.len() == y * w + x,
                forall|k: int|
                    0 <= k < nv12@.len() ==> #[trigger] nv12@[k] == luma_at(bgra@, stride, k % w, k / w),
                w == width,
                h == height,
                stride == bgra_stride,
                bgra_readable(bgra@.len() as int, w, h, stride),
            decreases width - x,
        {
            proof {
                lemma_mul_le(y as int, h - 1, stride);
                lemma_pixel_coords(y * w + x, w, x as int, y as int);
                assert(x * 4 <= (w - 1) * 4);
                assert(row + x * 4 + 2 < bgra@.len());
                assert(bgra@.len() == bgra.len());
            }
            let off: usize = row + (x * 4) as usize;
            let val = rgb_to_y(bgra[off + 2], bgra[off + 1], bgra[off]);
            nv12.push(val);
            x += 1;
        }
        proof {
            lemma_row_step(y as int, w);
        }
        y += 1;
    }
    proof {
        assert(y * w == w * h) by (nonlinear_arith)
            requires
                y == h,
        ;
    }

    // Interleaved UV plane, one pair per 2×2 block.
    let ghost uw = uv_w as int;
    let mut cy: u32 = 0;
    while cy < uv_h
        invariant
            cy <= uv_h,
            uw == uv_w,
            uv_w == half_up(w),
            uv_h == half_up(h),
            y_size == w * h,
            nv12@.len() == y_size + 2 * (cy * uw),
            forall|k: int|
                0 <= k < y_size ==> #[trigger] nv12@[k] == luma_at(bgra@, stride, k % w, k / w),
            forall|j: int|
                0 <= j < nv12@.len() - y_size ==> #[trigger] nv12@[y_size + j] == chroma_byte(
                    bgra@,
                    stride,
                    uw,
                    j,
                ),
            w == width,
            h == height,
            stride == bgra_stride,
            bgra_readable(bgra@.len() as int, w, h, stride),
        decreases uv_h - cy,
    {
        let py: u32 = cy * 2;
        proof {
            lemma_mul_le(py as int, h - 1, stride);
        }
        let row: usize = (py * bgra_stride) as usize;
        let mut cx: u32 = 0;
        while cx < uv_w
            invariant
                cx <= uv_w,
                cy < uv_h,
                py == 2 * cy,
                py < height,
                row == py * stride,
                uw == uv_w,
                uv_w == half_up(w),
                uv_h == half_up(h),
                y_size == w * h,
                nv12@.len() == y_size + 2 * (cy * uw + cx),
                forall|k: int|
                    0 <= k < y_size ==> #[trigger] nv12@[k] == luma_at(bgra@, stride, k % w, k / w),
                forall|j: int|
                    0 <= j < nv12@.len() - y_size ==> #[trigger] nv12@[y_size + j] == chroma_byte(
                        bgra@,
                        stride,
                        uw,
                        j,
                    ),
                w == width,
                h == height,
                stride == bgra_stride,
                bgra_readable(bgra@.len() as int, w, h, stride),
            decreases uv_w - cx,
        {
            let px: u32 = cx * 2;
            proof {
                lemma_pixel_coords(cy * uw + cx, uw, cx as int, cy as int);
                lemma_mul_le(py as int, h - 1, stride);
                assert(px * 4 <= (w - 1) * 4);
                assert(row + px * 4 + 2 < bgra@.len());
                assert(bgra@.len() == bgra.len());
            }
            let off: usize = row + (px * 4) as usize;
            let u = rgb_to_u(bgra[off + 2], bgra[off + 1], bgra[off]);
            let v = rgb_to_v(bgra[off + 2], bgra[off + 1], bgra[off]);
            let ghost p = cy * uw + cx;
            assert(chroma_byte(bgra@, stride, uw, 2 * p) == u);
            assert(chroma_byte(bgra@, stride, uw, 2 * p + 1) == v);
            nv12.push(u);
            nv12.push(v);
            assert(nv12@[y_size + 2 * p] == u);
            cx += 1;
        }
        proof {
            lemma_row_step(cy as int, uw);
        }
        cy += 1;
    }
    proof {
        assert(cy * uw == uw * half_up(h)) by (nonlinear_arith)
            requires
                cy == half_up(h),
        ;
        assert forall|x: int, y: int| 0 <= x < width && 0 <= y < height implies nv12@[
            #[trigger] luma_index(w, x, y)
        ] == luma_at(bgra@, stride, x, y) by {
            lemma_in_plane(x, y, w, h);
        }
        assert forall|x: int, y: int|
            0 <= x < width && 0 <= y < height && x % 2 == 0 && y % 2 == 0 implies {
            &&& nv12@[#[trigger] chroma_index(w, h, x, y)] == chroma_u_at(bgra@, stride, x, y)
            &&& nv12@[chroma_index(w, h, x, y) + 1] == chroma_v_at(bgra@, stride, x, y)
        } by {
            let p = (y / 2) * uw + x / 2;
            lemma_in_plane(x / 2, y / 2, uw, half_up(h));
            assert(nv12@[y_size + 2 * p] == chroma_byte(bgra@, stride, uw, 2 * p));
            assert(nv12@[y_size + (2 * p + 1)] == chroma_byte(bgra@, stride, uw, 2 * p + 1));
        }
    }
    assert(nv12@ =~= nv12_from_bgra(bgra@, w, h, stride)) by {
        assert forall|k: int| 0 <= k < nv12@.len() implies #[trigger] nv12@[k] == nv12_from_bgra(
            bgra@,
            w,
            h,
            stride,
        )[k] by {
            if k >= w * h {
                assert(nv12@[y_size + (k - w * h)] == chroma_byte(bgra@, stride, uw, k - w * h));
            }
        }
    }
    nv12
}


/// Pixel layout produced by an NV12 decode.
#[derive(PartialEq, Eq, Structural, Clone, Copy)]
enum Nv12Format {
    /// Three bytes per pixel: R, G, B.
    Rgb,
    /// Four bytes per pixel: B, G, R, A (opaque).
    Bgra,
}

spec fn bytes_per_pixel(fmt: Nv12Format) -> int {
    match fmt {
        Nv12Format::Rgb => 3,
        Nv12Format::Bgra => 4,
    }
}

/// Red decoded for pixel `(x, y)` of a `w × h` NV12 frame.
pub open spec fn nv12_red(nv12: Seq<u8>, w: int, h: int, x: int, y: int) -> u8 {
    red_of(
        nv12[luma_index(w, x, y)] as int,
        nv12[chroma_index(w, h, x, y)] as int,
        nv12[chroma_index(w, h, x, y) + 1] as int,
    )
}

/// Green decoded for pixel `(x, y)` of a `w × h` NV12 frame.
pub open spec fn nv12_green(nv12: Seq<u8>, w: int, h: int, x: int, y: int) -> u8 {
    green_of(
        nv12[luma_index(w, x, y)] as int,
        nv12[chroma_index(w, h, x, y)] as int,
        nv12[chroma_index(w, h, x, y) + 1] as int,
    )
}

/// Blue decoded for pixel `(x, y)` of a `w × h` NV12 frame.
pub open spec fn nv12_blue(nv12: Seq<u8>, w: int, h: int, x: int, y: int) -> u8 {
    blue_of(
        nv12[luma_index(w, x, y)] as int,
        nv12[chroma_index(w, h, x, y)] as int,
        nv12[chroma_index(w, h, x, y) + 1] as int,
    )
}

/// Offset of pixel `(x, y)` in a packed image `w` pixels wide with `bpp`
/// bytes per pixel.
pub open spec fn pixel_offset(w: int, x: int, y: int, bpp: int) -> int {
    (y * w + x) * bpp
}

/// Channel `c` of decoded pixel `(x, y)` in the given layout.
spec fn decoded_channel(fmt: Nv12Format, nv12: Seq<u8>, w: int, h: int, x: int, y: int, c: int) -> u8 {
    match fmt {
        Nv12Format::Rgb => {
            if c == 0 {
                nv12_red(nv12, w, h, x, y)
            } else if c == 1 {
                nv12_green(nv12, w, h, x, y)
            } else {
                nv12_blue(nv12, w, h, x, y)
            }
        },
        Nv12Format::Bgra => {
            if c == 0 {
                nv12_blue(nv12, w, h, x, y)
            } else if c == 1 {
                nv12_green(nv12, w, h, x, y)
            } else if c == 2 {
                nv12_red(nv12, w, h, x, y)
            } else {
                255
            }
        },
    }
}

/// Byte `k` of a decoded image.
spec fn decoded_byte(fmt: Nv12Format, nv12: Seq<u8>, w: int, h: int, k: int) -> u8 {
    let bpp = bytes_per_pixel(fmt);
    let p = k / bpp;
    decoded_channel(fmt, nv12, w, h, p % w, p / w, k % bpp)
}

/// The packed RGB image (`R, G, B` per pixel, row-major) decoded from a
/// `w × h` NV12 frame.
pub closed spec fn nv12_rgb_image(nv12: Seq<u8>, w: int, h: int) -> Seq<u8> {
    Seq::new((w * h * 3) as nat, |k: int| decoded_byte(Nv12Format::Rgb, nv12, w, h, k))
}

/// The packed BGRA image (`B, G, R, 255` per pixel, row-major) decoded from
/// a `w × h` NV12 frame.
pub closed spec fn nv12_bgra_image(nv12: Seq<u8>, w: int, h: int) -> Seq<u8> {
    Seq::new((w * h * 4) as nat, |k: int| decoded_byte(Nv12Format::Bgra, nv12, w, h, k))
}

/// Pixel `k` (row-major) of the decoded RGB image: its red, green and blue.
pub open spec fn rgb_pixel(nv12: Seq<u8>, w: int, h: int, k: int) -> (u8, u8, u8) {
    let r = nv12_rgb_image(nv12, w, h);
    (r[3 * k], r[3 * k + 1], r[3 * k + 2])
}

/// Pixel `k` (row-major) of the decoded BGRA image: its blue, green, red
/// and alpha.
pub open spec fn bgra_pixel(nv12: Seq<u8>, w: int, h: int, k: int) -> (u8, u8, u8, u8) {
    let a = nv12_bgra_image(nv12, w, h);
    (a[4 * k], a[4 * k + 1], a[4 * k + 2], a[4 * k + 3])
}

/// Law relating the two NV12 decoders: pixel for pixel, the BGRA image
/// holds the RGB image's channels in reverse order followed by an opaque
/// alpha of 255.
pub proof fn lemma_bgra_image_is_rgb_reordered(nv12: Seq<u8>, w: int, h: int)
    requires
        w >= 0,
        h >= 0,
    ensures
        nv12_bgra_image(nv12, w, h).len() == w * h * 4,
        nv12_rgb_image(nv12, w, h).len() == w * h * 3,
        forall|k: int|
            0 <= k < w * h ==> #[trigger] bgra_pixel(nv12, w, h, k) == (
                rgb_pixel(nv12, w, h, k).2,
                rgb_pixel(nv12, w, h, k).1,
                rgb_pixel(nv12, w, h, k).0,
                255u8,
            ),
{
    assert(w * h * 4 >= 0 && w * h * 3 >= 0) by (nonlinear_arith)
        requires
            w >= 0,
            h >= 0,
    ;
    assert forall|k: int| 0 <= k < w * h implies #[trigger] bgra_pixel(nv12, w, h, k) == (
        rgb_pixel(nv12, w, h, k).2,
        rgb_pixel(nv12, w, h, k).1,
        rgb_pixel(nv12, w, h, k).0,
        255u8,
    ) by {
        assert(4 * k + 3 < w * h * 4 && 3 * k + 2 < w * h * 3) by (nonlinear_arith)
            requires
                0 <= k < w * h,
        ;
        lemma_fundamental_div_mod_converse(4 * k, 4, k, 0);
        lemma_fundamental_div_mod_converse(4 * k + 1, 4, k, 1);
        lemma_fundamental_div_mod_converse(4 * k + 2, 4, k, 2);
        lemma_fundamental_div_mod_converse(4 * k + 3, 4, k, 3);
        lemma_fundamental_div_mod_converse(3 * k, 3, k, 0);
        lemma_fundamental_div_mod_converse(3 * k + 1, 3, k, 1);
        lemma_fundamental_div_mod_converse(3 * k + 2, 3, k, 2);
    }
}

/// Whether every NV12 byte read when decoding a `w × h` frame lies inside
/// `len` bytes.
pub open spec fn nv12_readable(len: int, w: int, h: int) -> bool {
    &&& w * h <= len
    &&& w > 0 && h > 0 ==> nv12_len(w, h) <= len
}

proof fn lemma_chroma_in_plane(x: int, y: int, w: int, h: int)
    requires
        0 <= x < w,
        0 <= y < h,
    ensures
        0 <= (y / 2) * half_up(w) + x / 2 < half_up(w) * half_up(h),
        (y / 2) * half_up(w) <= y * w,
{
    lemma_in_plane(x / 2, y / 2, half_up(w), half_up(h));
    assert((y / 2) * half_up(w) <= y * w) by (nonlinear_arith)
        requires
            0 <= y / 2 <= y,
            0 <= half_up(w) <= w,
    ;
}

proof fn lemma_row_bounds(y: int, w: int, h: int)
    requires
        0 <= y < h,
        0 <= w,
    ensures
        0 <= y * w <= w * h,
        0 <= (y / 2) * half_up(w) <= y * w,
{
    assert(0 <= y * w <= w * h) by (nonlinear_arith)
        requires
            0 <= y < h,
            0 <= w,
    ;
    assert(0 <= (y / 2) * half_up(w) <= y * w) by (nonlinear_arith)
        requires
            0 <= y / 2 <= y,
            0 <= half_up(w) <= w,
    ;
}

proof fn lemma_pixel_in_image(x: int, y: int, w: int, h: int, bpp: int, c: int)
    requires
        0 <= x < w,
        0 <= y < h,
        0 <= c < bpp,
    ensures
        0 <= pixel_offset(w, x, y, bpp) + c < w * h * bpp,
        (pixel_offset(w, x, y, bpp) + c) / bpp == y * w + x,
        (pixel_offset(w, x, y, bpp) + c) % bpp == c,
{
    lemma_in_plane(x, y, w, h);
    let p = y * w + x;
    assert(0 <= p * bpp + c < w * h * bpp) by (nonlinear_arith)
        requires
            0 <= p < w * h,
            0 <= c < bpp,
    ;
    lemma_pixel_coords(p * bpp + c, bpp, c, p);
}

/// Decodes a tightly packed NV12 frame into RGB or BGRA.
fn nv12_convert(nv12: &[u8], width: u32, height: u32, fmt: Nv12Format) -> (r: Vec<u8>)
    requires
        width * height <= u32::MAX,
        width * height * bytes_per_pixel(fmt) <= usize::MAX,
        nv12_readable(nv12@.len() as int, width as int, height as int),
    ensures
        r@.len() == width * height * bytes_per_pixel(fmt),
        forall|k: int| 0 <= k < r@.len() ==> #[trigger] r@[k] == decoded_byte(
            fmt,
            nv12@,
            width as int,
            height as int,
            k,
        ),
{
    let ghost w = width as int;
    let ghost h = height as int;
    let ghost bpp_g = bytes_per_pixel(fmt);
    let y_size: usize = (width * height) as usize;
    let uv_width: u32 = width / 2 + width % 2;
    let bpp: usize = match fmt {
        Nv12Format::Rgb => 3,
        Nv12Format::Bgra => 4,
    };
    let mut out: Vec<u8> = Vec::with_capacity(y_size * bpp);
    let mut y: u32 = 0;
    while y < height
        invariant
            y <= height,
            w == width,
            h == height,
            y_size == w * h,
            uv_width == half_up(w),
            bpp == bpp_g,
            bpp_g == bytes_per_pixel(fmt),
            w * h <= u32::MAX,
            nv12_readable(nv12@.len() as int, w, h),
            out@.len() == y * w * bpp,
            forall|k: int| 0 <= k < out@.len() ==> #[trigger] out@[k] == decoded_byte(fmt, nv12@, w, h, k),
        decreases height - y,
    {
        proof {
            lemma_row_bounds(y as int, w, h);
            if w > 0 {
                lemma_chroma_in_plane(0, y as int, w, h);
            }
            assert(nv12@.len() == nv12.len());
        }
        let y_row: usize = (y * width) as usize;
        let uv_row: usize = ((y / 2) * uv_width) as usize * 2;
        let mut x: u32 = 0;
        while x < width
            invariant
                x <= width,
                y < height,
                w == width,
                h == height,
                y_size == w * h,
                uv_width == half_up(w),
                y_row == y * w,
                uv_row == 2 * ((y / 2) * half_up(w)),
                bpp == bpp_g,
                bpp_g == bytes_per_pixel(fmt),
                nv12_readable(nv12@.len() as int, w, h),
                out@.len() == (y * w + x) * bpp,
                forall|k: int|
                    0 <= k < out@.len() ==> #[trigger] out@[k] == decoded_byte(fmt, nv12@, w, h, k),
            decreases width - x,
        {
            proof {
                lemma_in_plane(x as int, y as int, w, h);
                lemma_chroma_in_plane(x as int, y as int, w, h);
                assert(nv12@.len() == nv12.len());
            }
            let y_off: usize = y_row + x as usize;
            let uv_off: usize = y_size + uv_row + (x / 2) as usize * 2;
            let yv = nv12[y_off];
            let u = nv12[uv_off];
            let v = nv12[uv_off + 1];
            let red = yuv_to_r(yv, u, v);
            let green = yuv_to_g(yv, u, v);
            let blue = yuv_to_b(yv, u, v);
            let ghost base = (y * w + x) * bpp_g;
            proof {
                assert(luma_index(w, x as int, y as int) == y_off);
                assert(chroma_index(w, h, x as int, y as int) == uv_off);
                assert forall|c: int| 0 <= c < bpp_g implies decoded_byte(fmt, nv12@, w, h, base + c)
                    == decoded_channel(fmt, nv12@, w, h, x as int, y as int, c) by {
                    lemma_pixel_coords(base + c, bpp_g, c, y * w + x);
                    lemma_pixel_coords(y * w + x, w, x as int, y as int);
                }
            }
            match fmt {
                Nv12Format::Rgb => {
                    out.push(red);
                    out.push(green);
                    out.push(blue);
                },
                Nv12Format::Bgra => {
                    out.push(blue);
                    out.push(green);
                    out.push(red);
                    out.push(255);
                },
            }
            proof {
                assert forall|k: int| 0 <= k < out@.len() implies #[trigger] out@[k] == decoded_byte(
                    fmt,
                    nv12@,
                    w,
                    h,
                    k,
                ) by {
                    if k >= base {
                        assert(decoded_byte(fmt, nv12@, w, h, base + (k - base)) == decoded_channel(
                            fmt,
                            nv12@,
                            w,
                            h,
                            x as int,
                            y as int,
                            k - base,
                        ));
                    }
                }
                assert((y * w + x + 1) * bpp_g == (y * w + x) * bpp_g + bpp_g) by (nonlinear_arith);
            }
            x += 1;
        }
        proof {
            lemma_row_step(y as int, w);
            assert((y * w + w) * bpp_g == (y + 1) * w * bpp_g) by (nonlinear_arith)
                requires
                    (y + 1) * w == y * w + w,
            ;
        }
        y += 1;
    }
    proof {
        assert(y * w * bpp_g == w * h * bpp_g) by (nonlinear_arith)
            requires
                y == h,
        ;
    }
    out
}

/// Decodes an NV12 frame to packed 8-bit RGB (`R, G, B` per pixel).
pub fn nv12_to_rgb(nv12: &[u8], width: u32, height: u32) -> (r: Vec<u8>)
    requires
        width * height <= u32::MAX,
        width * height * 3 <= usize::MAX,
        nv12_readable(nv12@.len() as int, width as int, height as int),
    ensures
        r@.len() == width * height * 3,
        r@ == nv12_rgb_image(nv12@, width as int, height as int),
        forall|x: int, y: int|
            0 <= x < width && 0 <= y < height ==> {
                let o = #[trigger] pixel_offset(width as int, x, y, 3);
                &&& r@[o] == nv12_red(nv12@, width as int, height as int, x, y)
                &&& r@[o + 1] == nv12_green(nv12@, width as int, height as int, x, y)
                &&& r@[o + 2] == nv12_blue(nv12@, width as int, height as int, x, y)
            },
{
    let out = nv12_convert(nv12, width, height, Nv12Format::Rgb);
    assert(out@ =~= nv12_rgb_image(nv12@, width as int, height as int));
    proof {
        assert forall|x: int, y: int| 0 <= x < width && 0 <= y < height implies {
            let o = #[trigger] pixel_offset(width as int, x, y, 3);
            &&& out@[o] == nv12_red(nv12@, width as int, height as int, x, y)
            &&& out@[o + 1] == nv12_green(nv12@, width as int, height as int, x, y)
            &&& out@[o + 2] == nv12_blue(nv12@, width as int, height as int, x, y)
        } by {
            lemma_pixel_in_image(x, y, width as int, height as int, 3, 0);
            lemma_pixel_in_image(x, y, width as int, height as int, 3, 1);
            lemma_pixel_in_image(x, y, width as int, height as int, 3, 2);
            lemma_pixel_coords(y * width + x, width as int, x, y);
        }
    }
    out
}

/// Decodes an NV12 frame to packed BGRA (`B, G, R, 255` per pixel).
pub fn nv12_to_bgra(nv12: &[u8], width: u32, height: u32) -> (r: Vec<u8>)
    requires
        width * height <= u32::MAX,
        width * height * 4 <= usize::MAX,
        nv12_readable(nv12@.len() as int, width as int, height as int),
    ensures
        r@.len() == width * height * 4,
        r@ == nv12_bgra_image(nv12@, width as int, height as int),
        forall|x: int, y: int|
            0 <= x < width && 0 <= y < height ==> {
                let o = #[trigger] pixel_offset(width as int, x, y, 4);
                &&& r@[o] == nv12_blue(nv12@, width as int, height as int, x, y)
                &&& r@[o + 1] == nv12_green(nv12@, width as int, height as int, x, y)
                &&& r@[o + 2] == nv12_red(nv12@, width as int, height as int, x, y)
                &&& r@[o + 3] == 255
            },
{
    let out = nv12_convert(nv12, width, height, Nv12Format::Bgra);
    assert(out@ =~= nv12_bgra_image(nv12@, width as int, height as int));
    proof {
        assert forall|x: int, y: int| 0 <= x < width && 0 <= y < height implies {
            let o = #[trigger] pixel_offset(width as int, x, y, 4);
            &&& out@[o] == nv12_blue(nv12@, width as int, height as int, x, y)
            &&& out@[o + 1] == nv12_green(nv12@, width as int, height as int, x, y)
            &&& out@[o + 2] == nv12_red(nv12@, width as int, height as int, x, y)
            &&& out@[o + 3] == 255
        } by {
            lemma_pixel_in_image(x, y, width as int, height as int, 4, 0);
            lemma_pixel_in_image(x, y, width as int, height as int, 4, 1);
            lemma_pixel_in_image(x, y, width as int, height as int, 4, 2);
            lemma_pixel_in_image(x, y, width as int, height as int, 4, 3);
            lemma_pixel_coords(y * width + x, width as int, x, y);
        }
    }
    out
}

} // verus!
