//! Recording engine logic: the capture frame rate, the live preview image,
//! and the per-frame decisions of the capture loop.
use vstd::prelude::*;
use vstd::arithmetic::div_mod::lemma_div_is_ordered;

use crate::avcc::{copy_range, ParamScan};
use crate::buffer::ring::{clip_cutoff, first_param_pair_in, frame_views, frames_since, FrameView, StoredFrame};
use crate::buffer::BufferManager;
use crate::capture::convert::{
    bgra_readable, blue_of, green_of, half_up, nv12_from_bgra, nv12_len, red_of,
};
use crate::capture::{bgra_to_nv12, CapturedFrame, PixelFormat};
use crate::encoder::windows::mf_encoder::EncodedPacket;
use crate::image_codec::{base64_encode, base64_std, encode_jpeg_rgb, jpeg_encoded};
use crate::text::{chars_of, push_str, string_from_chars};

pub mod macos;
pub mod recorder;

pub use recorder::Recorder;

verus! {

/// Widest live preview, in pixels.
pub const PREVIEW_MAX_WIDTH: u32 = 1280;

/// The capture frame rate: the display's refresh rate when following the
/// display and it reads a sane 24–240 Hz, the configured rate otherwise.
pub open spec fn fps_for(configured_fps: u32, follow_display: bool, display_refresh: u32) -> u32 {
    if follow_display && 24 <= display_refresh <= 240 {
        display_refresh
    } else {
        configured_fps
    }
}

/// Computes `fps_for`.
pub fn effective_fps(configured_fps: u32, follow_display: bool, display_refresh: u32) -> (r: u32)
    ensures
        r == fps_for(configured_fps, follow_display, display_refresh),
{
    if follow_display && 24 <= display_refresh && display_refresh <= 240 {
        display_refresh
    } else {
        configured_fps
    }
}

/// Preview size of a `width × height` frame: at most `PREVIEW_MAX_WIDTH`
/// wide, the height scaled alike (rounded half up, at least 1).
pub open spec fn preview_size(width: u32, height: u32) -> (u32, u32) {
    let pw: u32 = if width < PREVIEW_MAX_WIDTH { width } else { PREVIEW_MAX_WIDTH };
    let ph: int = if width == 0 {
        1
    } else {
        let r = (2 * height * pw + width) / (2 * width as int);
        if r < 1 { 1 } else { r }
    };
    (pw, ph as u32)
}

/// The preview size of a frame.
pub fn preview_dimensions(width: u32, height: u32) -> (r: (u32, u32))
    ensures
        r == preview_size(width, height),
        1 <= r.1 <= (if height < 1 { 1 } else { height }),
{
    let pw: u32 = if width < PREVIEW_MAX_WIDTH { width } else { PREVIEW_MAX_WIDTH };
    if width == 0 {
        return (pw, 1);
    }
    let w = width as u64;
    proof {
        assert(2 * (height as int) * (pw as int) <= 2 * 0xFFFF_FFFFint * 1280) by (nonlinear_arith)
            requires
                height <= 0xFFFF_FFFFint,
                pw <= 1280,
        ;
    }
    let num = 2 * (height as u64) * (pw as u64) + w;
    let r = num / (2 * w);
    proof {
        assert(r * (2 * w) <= num) by (nonlinear_arith)
            requires
                r as int == (num as int) / (2 * (w as int)),
                w > 0,
        ;
        assert(r <= height) by (nonlinear_arith)
            requires
                r * (2 * w) <= 2 * (height as int) * (pw as int) + w,
                pw <= w,
                w > 0,
        ;
    }
    let ph: u32 = if r < 1 { 1 } else { r as u32 };
    (pw, ph)
}

/// Source column of preview column `dx`.
pub open spec fn sample_x(dx: int, width: int, pw: int) -> int {
    dx * width / pw
}

/// Source row of preview row `dy`.
pub open spec fn sample_y(dy: int, height: int, ph: int) -> int {
    dy * height / ph
}

/// Index of the Y sample read for source pixel `(sx, sy)`.
pub open spec fn preview_y_index(stride: int, sx: int, sy: int) -> int {
    sy * stride + sx
}

/// Index of the U sample read for source pixel `(sx, sy)`: the chroma plane
/// starts after `width × height` bytes and has rows of `ceil(stride/2)`
/// pairs.
pub open spec fn preview_u_index(width: int, height: int, stride: int, sx: int, sy: int) -> int {
    width * height + 2 * ((sy / 2) * half_up(stride) + sx / 2)
}

/// Byte offset read for source pixel `(sx, sy)` of a BGRA frame, kept
/// inside the buffer.
pub open spec fn preview_bgra_offset(len: int, stride: int, sx: int, sy: int) -> int {
    let o = sy * stride + sx * 4;
    let last = if len >= 4 { len - 4 } else { 0 };
    if o < last { o } else { last }
}

/// The preview pixel `(dx, dy)` of a frame, as `(r, g, b)`.
pub open spec fn preview_pixel(f: CapturedFrame, pw: int, ph: int, dx: int, dy: int) -> (u8, u8, u8) {
    let sx = sample_x(dx, f.width as int, pw);
    let sy = sample_y(dy, f.height as int, ph);
    let d = f.data@;
    match f.pixel_format {
        PixelFormat::Nv12 => {
            let y = d[preview_y_index(f.stride as int, sx, sy)] as int;
            let ui = preview_u_index(f.width as int, f.height as int, f.stride as int, sx, sy);
            let u = d[ui] as int;
            let v = d[ui + 1] as int;
            (red_of(y, u, v), green_of(y, u, v), blue_of(y, u, v))
        },
        PixelFormat::Bgra => {
            let o = preview_bgra_offset(d.len() as int, f.stride as int, sx, sy);
            (d[o + 2], d[o + 1], d[o])
        },
        PixelFormat::H264 => (0, 0, 0),
    }
}

/// The preview image of a frame: `pw × ph` RGB pixels in row order.
pub open spec fn preview_image(f: CapturedFrame) -> Seq<u8> {
    let (pw, ph) = preview_size(f.width, f.height);
    Seq::new(
        (pw * ph * 3) as nat,
        |k: int|
            {
                let p = k / 3;
                let px = preview_pixel(f, pw as int, ph as int, p % (pw as int), p / (pw as int));
                if k % 3 == 0 {
                    px.0
                } else if k % 3 == 1 {
                    px.1
                } else {
                    px.2
                }
            },
    )
}

/// Whether sampling the frame for its preview stays inside its data and in
/// 32-bit arithmetic, as checked at the last (largest) sample point.
pub open spec fn preview_readable(f: CapturedFrame) -> bool {
    let (pw, ph) = preview_size(f.width, f.height);
    let w = f.width as int;
    let h = f.height as int;
    let st = f.stride as int;
    let len = f.data@.len() as int;
    let sx = sample_x(pw - 1, w, pw as int);
    let sy = sample_y(ph - 1, h, ph as int);
    &&& pw as int * ph as int * 3 <= usize::MAX
    &&& pw > 0 ==> (pw - 1) * w <= u32::MAX && (ph - 1) * h <= u32::MAX
    &&& f.pixel_format == PixelFormat::Nv12 ==> {
        &&& w * h <= u32::MAX
        &&& w * h <= len
        &&& pw > 0 ==> {
            &&& preview_y_index(st, sx, sy) <= u32::MAX
            &&& preview_y_index(st, sx, sy) < len
            &&& (sy / 2) * half_up(st) + sx / 2 <= u32::MAX
            &&& preview_u_index(w, h, st, sx, sy) + 1 < len
        }
    }
    &&& f.pixel_format == PixelFormat::Bgra && pw > 0 ==> {
        &&& sy * st + sx * 4 <= usize::MAX
        &&& len >= 3
    }
}

proof fn lemma_samples_monotone(dx: int, dy: int, w: int, h: int, pw: int, ph: int)
    requires
        0 <= dx < pw,
        0 <= dy < ph,
        0 <= w,
        0 <= h,
    ensures
        0 <= dx * w <= (pw - 1) * w,
        0 <= dy * h <= (ph - 1) * h,
        0 <= sample_x(dx, w, pw) <= sample_x(pw - 1, w, pw),
        0 <= sample_y(dy, h, ph) <= sample_y(ph - 1, h, ph),
        pw <= w ==> sample_x(dx, w, pw) < w,
        ph <= h ==> sample_y(dy, h, ph) < h,
{
    assert(0 <= dx * w <= (pw - 1) * w) by (nonlinear_arith)
        requires
            0 <= dx < pw,
            0 <= w,
    ;
    assert(0 <= dy * h <= (ph - 1) * h) by (nonlinear_arith)
        requires
            0 <= dy < ph,
            0 <= h,
    ;
    lemma_div_is_ordered(dx * w, (pw - 1) * w, pw);
    lemma_div_is_ordered(dy * h, (ph - 1) * h, ph);
    lemma_div_is_ordered(0, dx * w, pw);
    lemma_div_is_ordered(0, dy * h, ph);
    if pw <= w {
        assert(dx * w / pw < w) by (nonlinear_arith)
            requires
                0 <= dx < pw,
                pw <= w,
        ;
    }
    if ph <= h {
        assert(dy * h / ph < h) by (nonlinear_arith)
            requires
                0 <= dy < ph,
                ph <= h,
        ;
    }
}

proof fn lemma_index_monotone(sx: int, sy: int, mx: int, my: int, st: int)
    requires
        0 <= sx <= mx,
        0 <= sy <= my,
        0 <= st,
    ensures
        0 <= sy * st + sx <= my * st + mx,
        0 <= (sy / 2) * half_up(st) + sx / 2 <= (my / 2) * half_up(st) + mx / 2,
        0 <= sy * st + sx * 4 <= my * st + mx * 4,
{
    assert(0 <= sy * st <= my * st) by (nonlinear_arith)
        requires
            0 <= sy <= my,
            0 <= st,
    ;
    assert(0 <= (sy / 2) * half_up(st) <= (my / 2) * half_up(st)) by (nonlinear_arith)
        requires
            0 <= sy / 2 <= my / 2,
            0 <= half_up(st),
    ;
}

/// One preview pixel.
fn preview_pixel_exec(f: &CapturedFrame, pw: u32, ph: u32, dx: u32, dy: u32) -> (r: (u8, u8, u8))
    requires
        (pw, ph) == preview_size(f.width, f.height),
        preview_readable(*f),
        dx < pw,
        dy < ph,
    ensures
        r == preview_pixel(*f, pw as int, ph as int, dx as int, dy as int),
{
    let w = f.width;
    let h = f.height;
    proof {
        lemma_samples_monotone(dx as int, dy as int, w as int, h as int, pw as int, ph as int);
    }
    let sx = (dx * w) / pw;
    let sy = (dy * h) / ph;
    match f.pixel_format {
        PixelFormat::Nv12 => {
            proof {
                lemma_index_monotone(
                    sx as int,
                    sy as int,
                    sample_x(pw - 1, w as int, pw as int),
                    sample_y(ph - 1, h as int, ph as int),
                    f.stride as int,
                );
            }
            let y_size = (w * h) as usize;
            let uv_width = f.stride / 2 + f.stride % 2;
            proof {
                let corner = preview_u_index(
                    w as int,
                    h as int,
                    f.stride as int,
                    sample_x(pw - 1, w as int, pw as int),
                    sample_y(ph - 1, h as int, ph as int),
                );
                assert(uv_width == half_up(f.stride as int));
                assert(preview_u_index(w as int, h as int, f.stride as int, sx as int, sy as int) <= corner);
                assert(corner + 1 < f.data@.len());
                assert(f.data@.len() == f.data.len());
            }
            let y_off = (sy * f.stride + sx) as usize;
            let uv_off = ((sy / 2) * uv_width + (sx / 2)) as usize * 2;
            let y = f.data[y_off];
            let u = f.data[y_size + uv_off];
            let v = f.data[y_size + uv_off + 1];
            (
                crate::capture::convert::yuv_to_r(y, u, v),
                crate::capture::convert::yuv_to_g(y, u, v),
                crate::capture::convert::yuv_to_b(y, u, v),
            )
        },
        PixelFormat::Bgra => {
            proof {
                lemma_index_monotone(
                    sx as int,
                    sy as int,
                    sample_x(pw - 1, w as int, pw as int),
                    sample_y(ph - 1, h as int, ph as int),
                    f.stride as int,
                );
            }
            let o = sy as usize * f.stride as usize + sx as usize * 4;
            let last = if f.data.len() >= 4 {
                f.data.len() - 4
            } else {
                0
            };
            let offset = if o < last {
                o
            } else {
                last
            };
            (f.data[offset + 2], f.data[offset + 1], f.data[offset])
        },
        PixelFormat::H264 => (0, 0, 0),
    }
}

/// The preview image of a frame, point-sampled.
pub fn preview_rgb(f: &CapturedFrame) -> (r: Vec<u8>)
    requires
        preview_readable(*f),
    ensures
        r@ == preview_image(*f),
{
    let (pw, ph) = preview_dimensions(f.width, f.height);
    let ghost target = preview_image(*f);
    let mut out: Vec<u8> = Vec::new();
    let mut dy: u32 = 0;
    while dy < ph
        invariant
            dy <= ph,
            (pw, ph) == preview_size(f.width, f.height),
            preview_readable(*f),
            target == preview_image(*f),
            out@.len() == dy * pw * 3,
            forall|k: int| 0 <= k < out@.len() ==> #[trigger] out@[k] == target[k],
            pw as int * ph as int * 3 <= usize::MAX,
        decreases ph - dy,
    {
        let mut dx: u32 = 0;
        while dx < pw
            invariant
                dx <= pw,
                dy < ph,
                (pw, ph) == preview_size(f.width, f.height),
                preview_readable(*f),
                target == preview_image(*f),
                out@.len() == (dy * pw + dx) * 3,
                forall|k: int| 0 <= k < out@.len() ==> #[trigger] out@[k] == target[k],
                pw as int * ph as int * 3 <= usize::MAX,
            decreases pw - dx,
        {
            let px = preview_pixel_exec(f, pw, ph, dx, dy);
            let ghost p = dy * pw + dx;
            proof {
                assert(0 <= p < pw as int * ph as int) by (nonlinear_arith)
                    requires
                        p == dy * pw + dx,
                        dx < pw,
                        dy < ph,
                ;
                assert(p * 3 + 3 <= pw as int * ph as int * 3) by (nonlinear_arith)
                    requires
                        p < pw as int * ph as int,
                ;
                vstd::arithmetic::div_mod::lemma_fundamental_div_mod_converse(p * 3, 3, p, 0);
                vstd::arithmetic::div_mod::lemma_fundamental_div_mod_converse(p * 3 + 1, 3, p, 1);
                vstd::arithmetic::div_mod::lemma_fundamental_div_mod_converse(p * 3 + 2, 3, p, 2);
                vstd::arithmetic::div_mod::lemma_fundamental_div_mod_converse(p, pw as int, dy as int, dx as int);
                assert(target[p * 3] == px.0);
                assert(target[p * 3 + 1] == px.1);
                assert(target[p * 3 + 2] == px.2);
            }
            out.push(px.0);
            out.push(px.1);
            out.push(px.2);
            dx += 1;
        }
        proof {
            assert((dy * pw + pw) * 3 == (dy + 1) * pw * 3) by (nonlinear_arith);
        }
        dy += 1;
    }
    proof {
        assert(dy * pw * 3 == pw * ph * 3) by (nonlinear_arith)
            requires
                dy == ph,
        ;
    }
    assert(out@ =~= target);
    out
}

/// The JPEG quality of the live preview.
pub const PREVIEW_JPEG_QUALITY: u8 = 80;

/// The live preview of a frame as a `data:` URL of a JPEG image, if the
/// image can be encoded.
pub open spec fn preview_url(f: CapturedFrame) -> Option<Seq<char>> {
    let (pw, ph) = preview_size(f.width, f.height);
    if 1 <= pw <= 65535 && 1 <= ph <= 65535 {
        Some(
            "data:image/jpeg;base64,"@ + base64_std(
                jpeg_encoded(preview_image(f), pw, ph, PREVIEW_JPEG_QUALITY),
            ),
        )
    } else {
        None
    }
}

/// Encodes the live preview of a frame as a JPEG `data:` URL.
pub fn preview_data_url(f: &CapturedFrame) -> (r: Option<String>)
    requires
        preview_readable(*f),
    ensures
        match preview_url(*f) {
            Some(u) => r matches Some(s) && s@ == u,
            None => r is None,
        },
{
    let (pw, ph) = preview_dimensions(f.width, f.height);
    let rgb = preview_rgb(f);
    let jpeg = match encode_jpeg_rgb(rgb.as_slice(), pw, ph, PREVIEW_JPEG_QUALITY) {
        Some(j) => j,
        None => {
            return None;
        },
    };
    let b64 = base64_encode(jpeg.as_slice());
    let mut url = String::from_str("data:image/jpeg;base64,");
    url.append(b64.as_str());
    Some(url)
}


/// Nanoseconds per second.
pub const NANOS_PER_SEC: u64 = 1_000_000_000;

/// What a clip is made from, taken from the recorder.
pub struct ClipData {
    pub frames: Vec<StoredFrame>,
    /// Where encoded clips are written.
    pub output_dir: String,
    /// SPS NAL unit (AVCC payload) of the stream.
    pub sps: Vec<u8>,
    /// PPS NAL unit (AVCC payload) of the stream.
    pub pps: Vec<u8>,
    /// Most recently captured frame, for the thumbnail.
    pub preview_frame: Option<CapturedFrame>,
}

/// The buffered frames a clip of `duration_secs` seconds takes at `now`
/// (all of them for 0).
pub open spec fn clip_frames(buffered: Seq<FrameView>, duration_secs: u32, now: u64) -> Seq<FrameView> {
    if duration_secs > 0 {
        frames_since(buffered, clip_cutoff((duration_secs * NANOS_PER_SEC) as u64, now))
    } else {
        buffered
    }
}

/// The parameter sets given to a clip: the cached ones when both are
/// present, otherwise the first pair found in the buffer, or none.
pub open spec fn clip_param_sets_from(buffered: Seq<FrameView>, sps: Seq<u8>, pps: Seq<u8>) -> (Seq<u8>, Seq<u8>) {
    if sps.len() > 0 && pps.len() > 0 {
        (sps, pps)
    } else {
        match first_param_pair_in(buffered) {
            ParamScan::Found(s, p) => (s, p),
            _ => (Seq::empty(), Seq::empty()),
        }
    }
}

/// `g` holds the same frame as `f`.
pub open spec fn same_captured(g: CapturedFrame, f: CapturedFrame) -> bool {
    &&& g.data@ == f.data@
    &&& g.width == f.width
    &&& g.height == f.height
    &&& g.stride == f.stride
    &&& g.pixel_format == f.pixel_format
    &&& g.timestamp == f.timestamp
}

pub(crate) fn copy_captured(f: &CapturedFrame) -> (r: CapturedFrame)
    ensures
        same_captured(r, *f),
{
    let data = f.data.clone();
    assert(data@ =~= f.data@);
    CapturedFrame {
        data,
        width: f.width,
        height: f.height,
        stride: f.stride,
        pixel_format: f.pixel_format,
        timestamp: f.timestamp,
    }
}

/// Takes the frames of a clip of `duration_secs` seconds (0 for the whole
/// buffer) at `now` from `buffer`, with the stream's parameter sets and the
/// latest frame.
pub fn clip_data_from(
    buffer: &BufferManager,
    duration_secs: u32,
    now: u64,
    output_dir: &str,
    cached_sps: &[u8],
    cached_pps: &[u8],
    latest_frame: Option<&CapturedFrame>,
) -> (r: Result<ClipData, String>)
    requires
        clip_frames(buffer@, duration_secs, now).len() > 0 && (cached_sps@.len() == 0
            || cached_pps@.len() == 0) ==> !(first_param_pair_in(buffer@) is OutOfBounds),
    ensures
        clip_frames(buffer@, duration_secs, now).len() == 0 ==> (r matches Err(e) && e@
            == "No frames available to clip"@),
        clip_frames(buffer@, duration_secs, now).len() > 0 ==> (r matches Ok(d) && {
            &&& frame_views(d.frames@) == clip_frames(buffer@, duration_secs, now)
            &&& d.output_dir@ == output_dir@
            &&& (d.sps@, d.pps@) == clip_param_sets_from(buffer@, cached_sps@, cached_pps@)
            &&& match latest_frame {
                Some(f) => d.preview_frame matches Some(g) && same_captured(g, *f),
                None => d.preview_frame is None,
            }
        }),
{
    let frames = if duration_secs > 0 {
        buffer.clip(duration_secs as u64 * NANOS_PER_SEC, now)
    } else {
        buffer.clip_all()
    };
    if frames.len() == 0 {
        return Err(String::from_str("No frames available to clip"));
    }
    let (sps, pps) = if cached_sps.len() == 0 || cached_pps.len() == 0 {
        match buffer.find_sps_pps_anywhere() {
            Some(pair) => pair,
            None => (Vec::new(), Vec::new()),
        }
    } else {
        let sps = copy_range(cached_sps, 0, cached_sps.len());
        let pps = copy_range(cached_pps, 0, cached_pps.len());
        assert(cached_sps@.subrange(0, cached_sps@.len() as int) =~= cached_sps@);
        assert(cached_pps@.subrange(0, cached_pps@.len() as int) =~= cached_pps@);
        (sps, pps)
    };
    let preview_frame = match latest_frame {
        Some(f) => Some(copy_captured(f)),
        None => None,
    };
    Ok(ClipData { frames, output_dir: output_dir.to_owned(), sps, pps, preview_frame })
}

/// Whether a BGRA frame can be converted to NV12 without reading past its
/// data or overflowing.
pub open spec fn bgra_convertible(f: CapturedFrame) -> bool {
    &&& f.width * f.height <= u32::MAX
    &&& half_up(f.width as int) * half_up(f.height as int) * 2 <= u32::MAX
    &&& bgra_readable(f.data@.len() as int, f.width as int, f.height as int, f.stride as int)
    &&& nv12_len(f.width as int, f.height as int) <= usize::MAX
}

/// The frame stored for a capture without a hardware encoder: a BGRA capture
/// is converted to tightly packed NV12, anything else is stored as captured.
pub open spec fn raw_stored(f: CapturedFrame) -> FrameView {
    if f.pixel_format == PixelFormat::Bgra {
        FrameView {
            data: nv12_from_bgra(f.data@, f.width as int, f.height as int, f.stride as int),
            width: f.width,
            height: f.height,
            stride: f.width,
            pixel_format: PixelFormat::Nv12,
            timestamp: f.timestamp,
            is_sync: true,
        }
    } else {
        StoredFrame::spec_from_captured(f)@
    }
}

/// Frames to buffer for one capture when no hardware encoder is used.
pub fn process_linux_frame(frame: CapturedFrame) -> (r: Vec<StoredFrame>)
    requires
        frame.pixel_format == PixelFormat::Bgra ==> bgra_convertible(frame),
    ensures
        frame_views(r@) == seq![raw_stored(frame)],
        r@.len() == 1,
        r@[0]@ == raw_stored(frame),
{
    let stored = if frame.pixel_format == PixelFormat::Bgra {
        let nv12 = bgra_to_nv12(frame.data.as_slice(), frame.width, frame.height, frame.stride);
        StoredFrame {
            data: nv12,
            width: frame.width,
            height: frame.height,
            stride: frame.width,
            pixel_format: PixelFormat::Nv12,
            timestamp: frame.timestamp,
            is_sync: true,
        }
    } else {
        StoredFrame::from_captured(frame)
    };
    let mut out: Vec<StoredFrame> = Vec::new();
    out.push(stored);
    assert(frame_views(out@) =~= seq![raw_stored(frame)]);
    out
}

/// The frame stored for one encoded packet of a `width × height` capture
/// taken at `timestamp`.
pub open spec fn packet_frame(p: EncodedPacket, width: u32, height: u32, timestamp: u64) -> FrameView {
    FrameView {
        data: p.data@,
        width,
        height,
        stride: 0,
        pixel_format: PixelFormat::H264,
        timestamp,
        is_sync: p.is_sync,
    }
}

/// Frames to buffer for the packets the encoder returned for one capture.
pub fn frames_from_packets(packets: Vec<EncodedPacket>, width: u32, height: u32, timestamp: u64) -> (r: Vec<
    StoredFrame,
>)
    ensures
        r@.len() == packets@.len(),
        forall|i: int|
            0 <= i < r@.len() ==> (#[trigger] r@[i])@ == packet_frame(packets@[i], width, height, timestamp),
{
    let mut out: Vec<StoredFrame> = Vec::new();
    let rest = packets;
    let ghost all = rest@;
    let mut i: usize = 0;
    let n = rest.len();
    while i < n
        invariant
            i <= n,
            n == all.len(),
            out@.len() == i,
            forall|k: int|
                0 <= k < i ==> (#[trigger] out@[k])@ == packet_frame(all[k], width, height, timestamp),
            rest@ == all,
        decreases n - i,
    {
        let data = rest[i].data.clone();
        assert(data@ =~= all[i as int].data@);
        out.push(
            StoredFrame {
                data,
                width,
                height,
                stride: 0,
                pixel_format: PixelFormat::H264,
                timestamp,
                is_sync: rest[i].is_sync,
            },
        );
        i += 1;
    }
    out
}

/// What the capture loop keeps after one frame on the hardware-encoder
/// path: the stream's parameter sets and the frames to buffer.
pub struct EncodedFrameOutcome {
    pub sps: Vec<u8>,
    pub pps: Vec<u8>,
    pub frames: Vec<StoredFrame>,
}

/// Decides what to buffer for one capture on the hardware-encoder path.
/// `encoded` is what the encoder did with the frame (none without an
/// encoder); `encoder_param_sets` the encoder's SPS and PPS once it has
/// them. Without an encoder or on an encoding error the raw frame is kept;
/// otherwise the packets are, and the encoder's parameter sets are adopted
/// if none were known.
pub fn encoded_frame_outcome(
    frame: CapturedFrame,
    encoded: Option<Result<Vec<EncodedPacket>, ()>>,
    cached_sps: Vec<u8>,
    cached_pps: Vec<u8>,
    encoder_param_sets: Option<(Vec<u8>, Vec<u8>)>,
) -> (r: EncodedFrameOutcome)
    ensures
        match encoded {
            Some(Ok(packets)) => {
                &&& (if cached_sps@.len() == 0 && encoder_param_sets is Some {
                    r.sps@ == encoder_param_sets.unwrap().0@ && r.pps@ == encoder_param_sets.unwrap().1@
                } else {
                    r.sps@ == cached_sps@ && r.pps@ == cached_pps@
                })
                &&& r.frames@.len() == packets@.len()
                &&& forall|i: int|
                    0 <= i < r.frames@.len() ==> (#[trigger] r.frames@[i])@ == packet_frame(
                        packets@[i],
                        frame.width,
                        frame.height,
                        frame.timestamp,
                    )
            },
            _ => {
                &&& r.sps@ == cached_sps@
                &&& r.pps@ == cached_pps@
                &&& frame_views(r.frames@) == seq![StoredFrame::spec_from_captured(frame)@]
            },
        },
{
    match encoded {
        Some(Ok(packets)) => {
            let (sps, pps) = match encoder_param_sets {
                Some(sets) => if cached_sps.len() == 0 {
                    sets
                } else {
                    (cached_sps, cached_pps)
                },
                None => (cached_sps, cached_pps),
            };
            let frames = frames_from_packets(packets, frame.width, frame.height, frame.timestamp);
            EncodedFrameOutcome { sps, pps, frames }
        },
        _ => {
            let mut frames: Vec<StoredFrame> = Vec::new();
            frames.push(StoredFrame::from_captured(frame));
            assert(frame_views(frames@) =~= seq![StoredFrame::spec_from_captured(frame)@]);
            EncodedFrameOutcome { sps: cached_sps, pps: cached_pps, frames }
        },
    }
}


/// Whether the live preview of a frame can be made (see `preview_readable`).
pub fn preview_is_readable(f: &CapturedFrame) -> (r: bool)
    ensures
        r == preview_readable(*f),
{
    let (pw, ph) = preview_dimensions(f.width, f.height);
    let w = f.width as u128;
    let h = f.height as u128;
    let st = f.stride as u128;
    let len = f.data.len() as u128;
    let pw_ = pw as u128;
    let ph_ = ph as u128;
    proof {
        assert(pw_ * ph_ * 3 <= 0xFFFF_FFFFu128 * 0xFFFF_FFFFu128 * 3) by (nonlinear_arith)
            requires
                pw_ <= 0xFFFF_FFFFu128,
                ph_ <= 0xFFFF_FFFFu128,
        ;
    }
    if pw_ * ph_ * 3 > usize::MAX as u128 {
        return false;
    }
    if pw == 0 {
        if f.pixel_format == PixelFormat::Nv12 {
            proof {
                assert(w * h <= 0xFFFF_FFFFu128 * 0xFFFF_FFFFu128) by (nonlinear_arith)
                    requires
                        w <= 0xFFFF_FFFFu128,
                        h <= 0xFFFF_FFFFu128,
                ;
            }
            return w * h <= 0xFFFF_FFFF && w * h <= len;
        }
        return true;
    }
    proof {
        assert((pw_ - 1) * w <= 0xFFFF_FFFFu128 * 0xFFFF_FFFFu128) by (nonlinear_arith)
            requires
                pw_ <= 0xFFFF_FFFFu128,
                w <= 0xFFFF_FFFFu128,
        ;
        assert((ph_ - 1) * h <= 0xFFFF_FFFFu128 * 0xFFFF_FFFFu128) by (nonlinear_arith)
            requires
                1 <= ph_ <= 0xFFFF_FFFFu128,
                h <= 0xFFFF_FFFFu128,
        ;
    }
    if (pw_ - 1) * w > 0xFFFF_FFFF || (ph_ - 1) * h > 0xFFFF_FFFF {
        return false;
    }
    let sx = (pw_ - 1) * w / pw_;
    let sy = (ph_ - 1) * h / ph_;
    proof {
        lemma_div_is_ordered(((pw_ - 1) * w) as int, 0xFFFF_FFFF, pw_ as int);
        lemma_div_is_ordered(((ph_ - 1) * h) as int, 0xFFFF_FFFF, ph_ as int);
        vstd::arithmetic::div_mod::lemma_div_is_ordered_by_denominator(0xFFFF_FFFF, 1, pw_ as int);
        vstd::arithmetic::div_mod::lemma_div_is_ordered_by_denominator(0xFFFF_FFFF, 1, ph_ as int);
        assert(sy * st <= 0xFFFF_FFFFu128 * 0xFFFF_FFFFu128) by (nonlinear_arith)
            requires
                sy <= 0xFFFF_FFFFu128,
                st <= 0xFFFF_FFFFu128,
        ;
        assert(w * h <= 0xFFFF_FFFFu128 * 0xFFFF_FFFFu128) by (nonlinear_arith)
            requires
                w <= 0xFFFF_FFFFu128,
                h <= 0xFFFF_FFFFu128,
        ;
        assert((sy / 2) * (st / 2 + st % 2) <= 0xFFFF_FFFFu128 * 0xFFFF_FFFFu128) by (nonlinear_arith)
            requires
                sy <= 0xFFFF_FFFFu128,
                st <= 0xFFFF_FFFFu128,
        ;
    }
    match f.pixel_format {
        PixelFormat::Nv12 => {
            let y_index = sy * st + sx;
            let pair = (sy / 2) * (st / 2 + st % 2) + sx / 2;
            w * h <= 0xFFFF_FFFF && w * h <= len && y_index <= 0xFFFF_FFFF && y_index < len && pair
                <= 0xFFFF_FFFF && w * h + 2 * pair + 1 < len
        },
        PixelFormat::Bgra => sy * st + sx * 4 <= usize::MAX as u128 && len >= 3,
        PixelFormat::H264 => true,
    }
}

/// Whether a captured frame can be stored without a hardware encoder (see
/// `process_linux_frame`): a BGRA frame must convert to NV12, and the stored
/// data must fit in half the address space.
pub open spec fn frame_storable(f: CapturedFrame) -> bool {
    &&& (f.pixel_format == PixelFormat::Bgra ==> bgra_convertible(f))
    &&& raw_stored(f).data.len() <= isize::MAX
}

/// Computes `frame_storable`.
pub fn frame_is_storable(f: &CapturedFrame) -> (r: bool)
    ensures
        r == frame_storable(*f),
{
    let w = f.width as u128;
    let h = f.height as u128;
    let st = f.stride as u128;
    let len = f.data.len() as u128;
    let hw = (w + 1) / 2;
    let hh = (h + 1) / 2;
    proof {
        assert(w * h <= 0xFFFF_FFFFu128 * 0xFFFF_FFFFu128) by (nonlinear_arith)
            requires
                w <= 0xFFFF_FFFFu128,
                h <= 0xFFFF_FFFFu128,
        ;
        assert(hw * hh * 2 <= 0xFFFF_FFFFu128 * 0xFFFF_FFFFu128 * 2) by (nonlinear_arith)
            requires
                hw <= 0xFFFF_FFFFu128,
                hh <= 0xFFFF_FFFFu128,
        ;
        assert(h * st <= 0xFFFF_FFFFu128 * 0xFFFF_FFFFu128) by (nonlinear_arith)
            requires
                st <= 0xFFFF_FFFFu128,
                h <= 0xFFFF_FFFFu128,
        ;
    }
    let nv12 = w * h + hw * hh * 2;
    if f.pixel_format != PixelFormat::Bgra {
        return len <= isize::MAX as u128;
    }
    proof {
        assert(nv12 == nv12_len(w as int, h as int)) by (nonlinear_arith)
            requires
                nv12 == w * h + hw * hh * 2,
                hw == half_up(w as int),
                hh == half_up(h as int),
        ;
    }
    if w * h > 0xFFFF_FFFF || hw * hh * 2 > 0xFFFF_FFFF {
        return false;
    }
    if h > 0 {
        proof {
            assert((h - 1) * st <= 0xFFFF_FFFFu128 * 0xFFFF_FFFFu128) by (nonlinear_arith)
                requires
                    1 <= h <= 0xFFFF_FFFFu128,
                    st <= 0xFFFF_FFFFu128,
            ;
        }
        if (h - 1) * st > 0xFFFF_FFFF {
            return false;
        }
    }
    if w > 0 && h > 0 {
        if (w - 1) * 4 > 0xFFFF_FFFF || (h - 1) * st + (w - 1) * 4 + 2 >= len {
            return false;
        }
    }
    nv12 <= usize::MAX as u128 && nv12 <= isize::MAX as u128
}

} // verus!
