//! Clip preparation for MP4 muxing, and clip thumbnails.
use vstd::prelude::*;

use crate::capture::convert::{nv12_blue, nv12_green, nv12_readable, nv12_red, pixel_offset};
use crate::capture::{nv12_to_rgb, CapturedFrame};
use crate::image_codec::{encode_jpeg_rgb, jpeg_encoded, resize_rgb_triangle, triangle_resized};

use crate::avcc::{avcc_has_type_from, avcc_scan_for_types};
use crate::clock::{chrono_now_formatted, compact_timestamp};
use crate::commands::library::{clip_name_cuts_on_chars, clip_name_shape};
use crate::encoder::codecs::{Codec, EncoderConfig};
use crate::recording::NANOS_PER_SEC;
use crate::text::{chars_contains, chars_of, contains_seq, push_str, string_from_chars};
use crate::buffer::ring::{frame_views, FrameView, StoredFrame};
use crate::capture::PixelFormat;

verus! {

/// A frame is a decodable H.264 sync point: it is H.264 and either flagged
/// sync by the encoder or its well-formed AVCC prefix carries an IDR slice
/// (NAL type 5) or an SPS (NAL type 7).
pub open spec fn is_h264_sync(f: FrameView) -> bool {
    f.pixel_format == PixelFormat::H264 && (f.is_sync || avcc_has_type_from(f.data, 0, 5, 7))
}

/// Whether a frame is a decodable H.264 sync point.
pub fn frame_is_h264_sync(frame: &StoredFrame) -> (r: bool)
    ensures
        r == is_h264_sync(frame@),
{
    if frame.pixel_format != PixelFormat::H264 {
        return false;
    }
    if frame.is_sync {
        return true;
    }
    avcc_scan_for_types(frame.data.as_slice(), 5, 7)
}

/// Index of the first sync frame at or after `i`, or -1.
pub open spec fn first_sync_from(s: Seq<FrameView>, i: int) -> int
    decreases s.len() - i,
{
    if i < 0 || i >= s.len() {
        -1
    } else if is_h264_sync(s[i]) {
        i
    } else {
        first_sync_from(s, i + 1)
    }
}

/// The H.264 frames of `s`, in order.
pub open spec fn keep_h264(s: Seq<FrameView>) -> Seq<FrameView>
    decreases s.len(),
{
    if s.len() == 0 {
        seq![]
    } else {
        let r = keep_h264(s.drop_last());
        if s.last().pixel_format == PixelFormat::H264 {
            r.push(s.last())
        } else {
            r
        }
    }
}

/// Some frame of `s` is H.264.
pub open spec fn has_h264(s: Seq<FrameView>) -> bool {
    exists|i: int| 0 <= i < s.len() && #[trigger] s[i].pixel_format == PixelFormat::H264
}

/// Error when the buffer holds H.264 frames but no sync frame.
pub open spec fn no_keyframe_yet_msg() -> Seq<char> {
    "No H.264 keyframe is available yet. Keep recording for a moment and try again."@
}

/// Error when the buffer holds only raw fallback frames.
pub open spec fn raw_only_msg() -> Seq<char> {
    "No H.264 keyframe is available — the buffer holds only raw fallback frames (H.264 encoder unavailable). Check the encoder and try again."@
}

/// The first frame of a prepared clip: flagged sync, with the cached
/// parameter sets prepended when both are non-empty.
pub open spec fn sync_head(f: FrameView, sps: Seq<u8>, pps: Seq<u8>) -> FrameView {
    FrameView {
        data: if sps.len() > 0 && pps.len() > 0 { sps + pps + f.data } else { f.data },
        is_sync: true,
        ..f
    }
}

/// The decodable H.264 sequence of a clip: from the first sync frame on,
/// the H.264 frames only, the first of them flagged sync and carrying the
/// cached parameter sets; an error message when there is no sync frame.
pub open spec fn prepared_clip(s: Seq<FrameView>, sps: Seq<u8>, pps: Seq<u8>) -> Result<Seq<FrameView>, Seq<char>> {
    let k = first_sync_from(s, 0);
    if k < 0 {
        Err(if has_h264(s) { no_keyframe_yet_msg() } else { raw_only_msg() })
    } else {
        let kept = keep_h264(s.subrange(k, s.len() as int));
        Ok(kept.update(0, sync_head(kept[0], sps, pps)))
    }
}

/// The H.264 frames of `s`, in order, as a filter.
pub open spec fn h264_frames(s: Seq<FrameView>) -> Seq<FrameView> {
    s.filter(|f: FrameView| f.pixel_format == PixelFormat::H264)
}

/// A frame a decoder can start from: H.264, and flagged sync by the encoder
/// or carrying an IDR slice or an SPS in its AVCC units.
pub open spec fn decodable_start(f: FrameView) -> bool {
    f.pixel_format == PixelFormat::H264 && (f.is_sync || avcc_has_type_from(f.data, 0, 5, 7))
}

proof fn lemma_keep_h264_is_filter(s: Seq<FrameView>)
    ensures
        keep_h264(s) == h264_frames(s),
    decreases s.len(),
{
    reveal(Seq::filter);
    if s.len() > 0 {
        lemma_keep_h264_is_filter(s.drop_last());
    }
}

/// The scan for a sync frame from `i` finds the first one at or after `i`.
proof fn lemma_first_sync_is_first(s: Seq<FrameView>, i: int)
    requires
        0 <= i <= s.len(),
    ensures
        first_sync_from(s, i) == -1 <==> forall|j: int| i <= j < s.len() ==> !decodable_start(#[trigger] s[j]),
        first_sync_from(s, i) != -1 ==> {
            let k = first_sync_from(s, i);
            &&& i <= k < s.len()
            &&& decodable_start(s[k])
            &&& forall|j: int| i <= j < k ==> !decodable_start(#[trigger] s[j])
        },
    decreases s.len() - i,
{
    if i < s.len() && !is_h264_sync(s[i]) {
        lemma_first_sync_is_first(s, i + 1);
    }
}

/// Law of clip preparation: a clip is refused exactly when no frame is a
/// decodable start. Otherwise it begins at the first decodable start `k`
/// (no earlier frame is one), flagged sync and carrying the parameter sets
/// when both are known, and continues with every later H.264 frame in
/// order; so when the first frame is a decodable start, every H.264 frame
/// of the input is kept.
pub proof fn lemma_clip_starts_at_first_keyframe(s: Seq<FrameView>, sps: Seq<u8>, pps: Seq<u8>)
    ensures
        prepared_clip(s, sps, pps) is Err <==> forall|j: int| 0 <= j < s.len() ==> !decodable_start(#[trigger] s[j]),
        prepared_clip(s, sps, pps) matches Ok(p) ==> exists|k: int|
            {
                &&& 0 <= k < s.len()
                &&& decodable_start(#[trigger] s[k])
                &&& forall|j: int| 0 <= j < k ==> !decodable_start(#[trigger] s[j])
                &&& p.len() == h264_frames(s.subrange(k, s.len() as int)).len()
                &&& p.len() >= 1
                &&& p[0].data == (if sps.len() > 0 && pps.len() > 0 { sps + pps + s[k].data } else { s[k].data })
                &&& p[0].is_sync
                &&& p[0].timestamp == s[k].timestamp
                &&& p[0].pixel_format == PixelFormat::H264
                &&& forall|i: int| 1 <= i < p.len() ==> p[i] == h264_frames(s.subrange(k, s.len() as int))[i]
            },
        s.len() > 0 && decodable_start(s[0]) ==> (prepared_clip(s, sps, pps) matches Ok(p) && p.len()
            == h264_frames(s).len()),
{
    lemma_first_sync_is_first(s, 0);
    let k = first_sync_from(s, 0);
    if k >= 0 {
        let sub = s.subrange(k, s.len() as int);
        lemma_keep_h264_is_filter(sub);
        lemma_keep_h264_first(sub);
        let p = prepared_clip(s, sps, pps)->Ok_0;
        assert(decodable_start(s[k]));
        if s.len() > 0 && decodable_start(s[0]) {
            assert(k == 0);
            assert(sub =~= s);
        }
    }
}

/// `v` in reverse order.
pub fn reversed<T>(v: Vec<T>) -> (r: Vec<T>)
    ensures
        r@ == v@.reverse(),
{
    let mut v = v;
    let ghost orig = v@;
    let mut out: Vec<T> = Vec::new();
    while v.len() > 0
        invariant
            out@ == orig.subrange(v@.len() as int, orig.len() as int).reverse(),
            v@ == orig.subrange(0, v@.len() as int),
            v@.len() <= orig.len(),
        decreases v@.len(),
    {
        let x = v.pop().unwrap();
        out.push(x);
        assert(out@ =~= orig.subrange(v@.len() as int, orig.len() as int).reverse());
        assert(v@ =~= orig.subrange(0, v@.len() as int));
    }
    assert(orig.subrange(0, orig.len() as int) =~= orig);
    out
}

proof fn lemma_keep_h264_first(s: Seq<FrameView>)
    requires
        s.len() > 0,
        s[0].pixel_format == PixelFormat::H264,
    ensures
        keep_h264(s).len() > 0,
        keep_h264(s)[0] == s[0],
    decreases s.len(),
{
    if s.len() > 1 {
        lemma_keep_h264_first(s.drop_last());
        assert(s.drop_last()[0] == s[0]);
        let r = keep_h264(s.drop_last());
        assert(r.push(s.last())[0] == r[0]);
    } else {
        assert(s.drop_last() =~= Seq::<FrameView>::empty());
        assert(keep_h264(s.drop_last()) =~= Seq::<FrameView>::empty());
    }
}

/// Select a decodable H.264 sequence for MP4 muxing: drop frames before the
/// first sync frame, drop non-H.264 frames, flag the first frame sync and
/// prepend the cached AVCC parameter sets to it when both are non-empty.
pub fn prepare_h264_clip_frames(frames: Vec<StoredFrame>, sps: &[u8], pps: &[u8]) -> (r: Result<
    Vec<StoredFrame>,
    String,
>)
    ensures
        match prepared_clip(frame_views(frames@), sps@, pps@) {
            Ok(p) => r matches Ok(v) && frame_views(v@) == p,
            Err(m) => r matches Err(e) && e@ == m,
        },
{
    let ghost s = frame_views(frames@);
    let n = frames.len();
    let mut k: usize = 0;
    let mut any_h264 = false;
    while k < n && !frame_is_h264_sync(&frames[k])
        invariant
            n == frames@.len(),
            s == frame_views(frames@),
            k <= n,
            first_sync_from(s, k as int) == first_sync_from(s, 0),
            any_h264 <==> exists|j: int| 0 <= j < k && #[trigger] s[j].pixel_format == PixelFormat::H264,
        decreases n - k,
    {
        if frames[k].pixel_format == PixelFormat::H264 {
            any_h264 = true;
        }
        k += 1;
    }
    if k == n {
        assert(first_sync_from(s, 0) == -1);
        assert(any_h264 == has_h264(s));
        if any_h264 {
            return Err(String::from_str(
                "No H.264 keyframe is available yet. Keep recording for a moment and try again.",
            ));
        } else {
            return Err(String::from_str(
                "No H.264 keyframe is available — the buffer holds only raw fallback frames (H.264 encoder unavailable). Check the encoder and try again.",
            ));
        }
    }
    assert(first_sync_from(s, 0) == k);
    let have_params = sps.len() > 0 && pps.len() > 0;
    let mut rev = reversed(frames);
    let ghost orig = frames@;
    let mut out: Vec<StoredFrame> = Vec::new();
    let mut i: usize = 0;
    while rev.len() > 0
        invariant
            orig.len() == n,
            s == frame_views(orig),
            k < n,
            i <= n,
            rev@ == orig.subrange(i as int, n as int).reverse(),
            is_h264_sync(s[k as int]),
            have_params == (sps@.len() > 0 && pps@.len() > 0),
            i <= k ==> out@.len() == 0,
            i > k ==> frame_views(out@) == keep_h264(s.subrange(k as int, i as int)).update(
                0,
                sync_head(keep_h264(s.subrange(k as int, i as int))[0], sps@, pps@),
            ),
            i > k ==> keep_h264(s.subrange(k as int, i as int)).len() > 0 && keep_h264(
                s.subrange(k as int, i as int),
            )[0] == s[k as int],
        decreases rev@.len(),
    {
        let f = rev.pop().unwrap();
        assert(f == orig[i as int]);
        let ghost sub = s.subrange(k as int, (i + 1) as int);
        if i > k {
            let ghost kp = keep_h264(s.subrange(k as int, i as int));
            assert(sub.drop_last() =~= s.subrange(k as int, i as int));
            assert(sub.last() == f@);
            if f.pixel_format == PixelFormat::H264 {
                let ghost pre = out@;
                out.push(f);
                assert(keep_h264(sub) == kp.push(f@));
                assert(kp.push(f@)[0] == kp[0]);
                assert(frame_views(out@) =~= frame_views(pre).push(f@));
                assert(frame_views(out@) =~= keep_h264(sub).update(0, sync_head(keep_h264(sub)[0], sps@, pps@)));
            } else {
                assert(keep_h264(sub) == kp);
            }
        } else if i == k {
            let mut head = f;
            head.is_sync = true;
            if have_params {
                let mut data: Vec<u8> = Vec::new();
                let mut j: usize = 0;
                while j < sps.len()
                    invariant
                        j <= sps@.len(),
                        data@ == sps@.subrange(0, j as int),
                    decreases sps@.len() - j,
                {
                    data.push(sps[j]);
                    j += 1;
                    assert(data@ =~= sps@.subrange(0, j as int));
                }
                let mut j: usize = 0;
                while j < pps.len()
                    invariant
                        j <= pps@.len(),
                        data@ == sps@ + pps@.subrange(0, j as int),
                    decreases pps@.len() - j,
                {
                    data.push(pps[j]);
                    j += 1;
                    assert(data@ =~= sps@ + pps@.subrange(0, j as int));
                }
                let mut j: usize = 0;
                while j < head.data.len()
                    invariant
                        j <= head.data@.len(),
                        data@ == sps@ + pps@ + head.data@.subrange(0, j as int),
                    decreases head.data@.len() - j,
                {
                    data.push(head.data[j]);
                    j += 1;
                    assert(data@ =~= sps@ + pps@ + head.data@.subrange(0, j as int));
                }
                assert(sps@.subrange(0, sps@.len() as int) =~= sps@);
                assert(pps@.subrange(0, pps@.len() as int) =~= pps@);
                assert(head.data@.subrange(0, head.data@.len() as int) =~= head.data@);
                head.data = data;
            }
            proof {
                assert(sub =~= seq![s[k as int]]);
                assert(sub.drop_last() =~= Seq::<FrameView>::empty());
                assert(keep_h264(sub.drop_last()) =~= Seq::<FrameView>::empty());
                assert(keep_h264(sub) =~= seq![s[k as int]]);
                assert(head@ == sync_head(s[k as int], sps@, pps@));
            }
            out.push(head);
            assert(frame_views(out@) =~= keep_h264(sub).update(0, sync_head(keep_h264(sub)[0], sps@, pps@)));
        }
        i += 1;
        assert(rev@ =~= orig.subrange(i as int, n as int).reverse());
    }
    assert(s.subrange(k as int, i as int) =~= s.subrange(k as int, s.len() as int));
    Ok(out)
}

/// Thumbnail size for a `width × height` frame: the frame scaled down
/// (never up) to fit a 1280×720 box, preserving the aspect ratio, each side
/// rounded half up and at least 1; `(1, 1)` for an empty frame.
pub open spec fn thumbnail_dims_spec(width: u32, height: u32) -> (u32, u32) {
    let w = width as int;
    let h = height as int;
    if w == 0 || h == 0 {
        (1, 1)
    } else if w <= 1280 && h <= 720 {
        (width, height)
    } else if 1280 * h <= 720 * w {
        (1280, max1((2 * h * 1280 + w) / (2 * w)) as u32)
    } else {
        (max1((2 * w * 720 + h) / (2 * h)) as u32, 720)
    }
}

/// `max(x, 1)`.
pub open spec fn max1(x: int) -> int {
    if x < 1 { 1 } else { x }
}

/// Thumbnail dimensions fitting a 1280×720 box.
pub fn thumbnail_dimensions(width: u32, height: u32) -> (r: (u32, u32))
    ensures
        r == thumbnail_dims_spec(width, height),
        1 <= r.0 <= 1280,
        1 <= r.1 <= 720,
{
    if width == 0 || height == 0 {
        return (1, 1);
    }
    if width <= 1280 && height <= 720 {
        return (width, height);
    }
    let w = width as u64;
    let h = height as u64;
    if 1280 * h <= 720 * w {
        let th = (2 * h * 1280 + w) / (2 * w);
        proof {
            assert(th * (2 * w) <= 2 * h * 1280 + w) by (nonlinear_arith)
                requires
                    th == (2 * h * 1280 + w) / (2 * w),
                    w > 0,
            ;
            assert(th <= 720) by (nonlinear_arith)
                requires
                    th * (2 * w) <= 2 * h * 1280 + w,
                    1280 * h <= 720 * w,
                    w > 0,
            ;
        }
        (1280, if th < 1 { 1 } else { th as u32 })
    } else {
        let tw = (2 * w * 720 + h) / (2 * h);
        proof {
            assert(tw * (2 * h) <= 2 * w * 720 + h) by (nonlinear_arith)
                requires
                    tw == (2 * w * 720 + h) / (2 * h),
                    h > 0,
            ;
            assert(tw <= 1280) by (nonlinear_arith)
                requires
                    tw * (2 * h) <= 2 * w * 720 + h,
                    1280 * h > 720 * w,
                    h > 0,
            ;
        }
        (if tw < 1 { 1 } else { tw as u32 }, 720)
    }
}


/// The RGB pixels of a raw frame, row by row: an NV12 frame decoded, a
/// BGRA frame with its channels reordered.
pub open spec fn frame_rgb(f: CapturedFrame) -> Seq<u8> {
    raw_rgb(f.data@, f.width, f.height, f.stride, f.pixel_format)
}

/// The RGB pixels of raw frame data `d` of the given geometry and format.
pub open spec fn raw_rgb(d: Seq<u8>, width: u32, height: u32, stride: u32, format: PixelFormat) -> Seq<u8> {
    let w = width as int;
    let h = height as int;
    Seq::new(
        (w * h * 3) as nat,
        |k: int|
            {
                let p = k / 3;
                let c = k % 3;
                let x = p % w;
                let y = p / w;
                if format == PixelFormat::Nv12 {
                    if c == 0 {
                        nv12_red(d, w, h, x, y)
                    } else if c == 1 {
                        nv12_green(d, w, h, x, y)
                    } else {
                        nv12_blue(d, w, h, x, y)
                    }
                } else {
                    d[y * (stride as int) + 4 * x + (2 - c)]
                }
            },
    )
}

/// Whether converting a raw frame to RGB reads inside its data and stays
/// in 32-bit arithmetic.
pub open spec fn frame_rgb_readable(f: CapturedFrame) -> bool {
    raw_rgb_readable(f.data@.len() as int, f.width, f.height, f.stride, f.pixel_format)
}

/// Whether converting raw data of `len` bytes and the given geometry to RGB
/// reads inside the data and stays in 32-bit arithmetic.
pub open spec fn raw_rgb_readable(len: int, width: u32, height: u32, stride: u32, format: PixelFormat) -> bool {
    let w = width as int;
    let h = height as int;
    let st = stride as int;
    &&& format == PixelFormat::Nv12 ==> {
        &&& w * h <= u32::MAX
        &&& w * h * 3 <= usize::MAX
        &&& nv12_readable(len, w, h)
    }
    &&& format == PixelFormat::Bgra ==> {
        &&& w * h * 3 <= u32::MAX
        &&& w > 0 && h > 0 ==> (h - 1) * st + (w - 1) * 4 <= u32::MAX && (h - 1) * st + (w - 1) * 4 + 2
            < len
    }
}

/// The text of the error for a frame that cannot give a thumbnail.
pub open spec fn h264_thumbnail_text() -> Seq<char> {
    "Cannot generate thumbnail from H.264 data"@
}

/// The RGB pixels of a raw frame.
pub fn frame_to_rgb(f: &CapturedFrame) -> (r: Result<Vec<u8>, String>)
    requires
        frame_rgb_readable(*f),
    ensures
        f.pixel_format == PixelFormat::H264 ==> (r matches Err(e) && e@ == h264_thumbnail_text()),
        f.pixel_format != PixelFormat::H264 ==> (r matches Ok(v) && v@ == frame_rgb(*f)),
{
    let w = f.width;
    let h = f.height;
    match f.pixel_format {
        PixelFormat::Nv12 => {
            let rgb = nv12_to_rgb(f.data.as_slice(), w, h);
            proof {
                let target = frame_rgb(*f);
                assert forall|k: int| 0 <= k < rgb@.len() implies #[trigger] rgb@[k] == target[k] by {
                    let p = k / 3;
                    let c = k % 3;
                    let x = p % (w as int);
                    let y = p / (w as int);
                    assert(0 <= p < (w as int) * (h as int)) by (nonlinear_arith)
                        requires
                            0 <= k < (w as int) * (h as int) * 3,
                            p == k / 3,
                    ;
                    vstd::arithmetic::div_mod::lemma_fundamental_div_mod(k, 3);
                    vstd::arithmetic::div_mod::lemma_fundamental_div_mod(p, w as int);
                    assert(0 <= x < w && 0 <= y < h) by (nonlinear_arith)
                        requires
                            0 <= p < (w as int) * (h as int),
                            x == p % (w as int),
                            y == p / (w as int),
                            w > 0,
                    ;
                    assert(pixel_offset(w as int, x, y, 3) + c == k);
                }
                assert(rgb@ =~= target);
            }
            Ok(rgb)
        },
        PixelFormat::Bgra => {
            let mut rgb: Vec<u8> = Vec::new();
            let mut y: u32 = 0;
            while y < h
                invariant
                    y <= h,
                    h == f.height,
                    w == f.width,
                    f.pixel_format == PixelFormat::Bgra,
                    frame_rgb_readable(*f),
                    rgb@.len() == (y as int) * (w as int) * 3,
                    forall|k: int| 0 <= k < rgb@.len() ==> #[trigger] rgb@[k] == frame_rgb(*f)[k],
                decreases h - y,
            {
                let mut x: u32 = 0;
                while x < w
                    invariant
                        x <= w,
                        y < h,
                        h == f.height,
                        w == f.width,
                        f.pixel_format == PixelFormat::Bgra,
                        frame_rgb_readable(*f),
                        rgb@.len() == ((y as int) * (w as int) + x) * 3,
                        forall|k: int| 0 <= k < rgb@.len() ==> #[trigger] rgb@[k] == frame_rgb(*f)[k],
                    decreases w - x,
                {
                    proof {
                        assert(0 <= (y as int) * (f.stride as int) <= (h - 1) * (f.stride as int))
                            by (nonlinear_arith)
                            requires
                                y < h,
                        ;
                        assert(f.data@.len() == f.data.len());
                    }
                    let off = (y * f.stride + x * 4) as usize;
                    let ghost p = (y as int) * (w as int) + x;
                    proof {
                        assert(0 <= p < (w as int) * (h as int)) by (nonlinear_arith)
                            requires
                                p == (y as int) * (w as int) + x,
                                x < w,
                                y < h,
                        ;
                        assert(p * 3 + 3 <= (w as int) * (h as int) * 3) by (nonlinear_arith)
                            requires
                                p < (w as int) * (h as int),
                        ;
                        vstd::arithmetic::div_mod::lemma_fundamental_div_mod_converse(p * 3, 3, p, 0);
                        vstd::arithmetic::div_mod::lemma_fundamental_div_mod_converse(p * 3 + 1, 3, p, 1);
                        vstd::arithmetic::div_mod::lemma_fundamental_div_mod_converse(p * 3 + 2, 3, p, 2);
                        vstd::arithmetic::div_mod::lemma_fundamental_div_mod_converse(p, w as int, y as int, x as int);
                    }
                    rgb.push(f.data[off + 2]);
                    rgb.push(f.data[off + 1]);
                    rgb.push(f.data[off]);
                    x += 1;
                }
                proof {
                    assert(((y as int) * (w as int) + (w as int)) * 3 == ((y + 1) as int) * (w as int) * 3)
                        by (nonlinear_arith);
                }
                y += 1;
            }
            proof {
                assert((y as int) * (w as int) * 3 == (w as int) * (h as int) * 3) by (nonlinear_arith)
                    requires
                        y == h,
                ;
            }
            assert(rgb@ =~= frame_rgb(*f));
            Ok(rgb)
        },
        PixelFormat::H264 => Err(String::from_str("Cannot generate thumbnail from H.264 data")),
    }
}

/// JPEG quality of clip thumbnails.
pub const THUMBNAIL_JPEG_QUALITY: u8 = 90;

/// The thumbnail of a raw frame: its RGB pixels resized (triangle filter)
/// to `thumbnail_dims_spec` and encoded as JPEG.
pub open spec fn thumbnail_bytes(f: CapturedFrame) -> Seq<u8> {
    raw_thumbnail(f.data@, f.width, f.height, f.stride, f.pixel_format)
}

/// The thumbnail of raw frame data of the given geometry and format.
pub open spec fn raw_thumbnail(d: Seq<u8>, width: u32, height: u32, stride: u32, format: PixelFormat) -> Seq<u8> {
    let (tw, th) = thumbnail_dims_spec(width, height);
    jpeg_encoded(
        triangle_resized(raw_rgb(d, width, height, stride, format), width, height, tw, th),
        tw,
        th,
        THUMBNAIL_JPEG_QUALITY,
    )
}

/// The JPEG thumbnail of a raw frame, fitting a 1280×720 box.
pub fn thumbnail_jpeg(f: &CapturedFrame) -> (r: Result<Vec<u8>, String>)
    requires
        frame_rgb_readable(*f),
    ensures
        f.pixel_format == PixelFormat::H264 ==> (r matches Err(e) && e@ == h264_thumbnail_text()),
        f.pixel_format != PixelFormat::H264 ==> (r matches Ok(v) && v@ == thumbnail_bytes(*f)),
{
    let rgb = match frame_to_rgb(f) {
        Ok(rgb) => rgb,
        Err(e) => {
            return Err(e);
        },
    };
    let (tw, th) = thumbnail_dimensions(f.width, f.height);
    proof {
        assert(1 <= tw <= 1280 && 1 <= th <= 720);
        assert(tw * th * 3 <= 1280 * 720 * 3) by (nonlinear_arith)
            requires
                1 <= tw <= 1280,
                1 <= th <= 720,
        ;
    }
    let resized = resize_rgb_triangle(rgb, f.width, f.height, tw, th);
    match encode_jpeg_rgb(resized.as_slice(), tw, th, THUMBNAIL_JPEG_QUALITY) {
        Some(jpeg) => Ok(jpeg),
        None => Err(String::from_str("JPEG encode failed")),
    }
}

/// Index of the first raw (NV12 or BGRA) frame.
pub open spec fn first_raw_frame(s: Seq<FrameView>, from: int) -> Option<int>
    decreases s.len() - from,
{
    if from < 0 || from >= s.len() {
        None
    } else if s[from].pixel_format == PixelFormat::Nv12 || s[from].pixel_format == PixelFormat::Bgra {
        Some(from)
    } else {
        first_raw_frame(s, from + 1)
    }
}

/// The error when a clip holds no raw frame to make a thumbnail from.
pub open spec fn no_raw_frame_text() -> Seq<char> {
    "No NV12 or BGRA frame in clip data for thumbnail generation"@
}

proof fn lemma_first_raw_bounds(s: Seq<FrameView>, from: int)
    requires
        0 <= from,
    ensures
        first_raw_frame(s, from) matches Some(i) ==> from <= i < s.len() && (s[i].pixel_format
            == PixelFormat::Nv12 || s[i].pixel_format == PixelFormat::Bgra),
    decreases s.len() - from,
{
    if from < s.len() && !(s[from].pixel_format == PixelFormat::Nv12 || s[from].pixel_format
        == PixelFormat::Bgra) {
        lemma_first_raw_bounds(s, from + 1);
    }
}

/// A thumbnail from the first raw frame of a clip, when no preview frame is
/// at hand.
pub fn thumbnail_from_frames(frames: &[StoredFrame]) -> (r: Result<Vec<u8>, String>)
    requires
        first_raw_frame(frame_views(frames@), 0) matches Some(i) ==> {
            let f = frames@[i]@;
            raw_rgb_readable(f.data.len() as int, f.width, f.height, f.stride, f.pixel_format)
        },
    ensures
        match first_raw_frame(frame_views(frames@), 0) {
            Some(i) => {
                let f = frames@[i]@;
                r matches Ok(v) && v@ == raw_thumbnail(f.data, f.width, f.height, f.stride, f.pixel_format)
            },
            None => r matches Err(e) && e@ == no_raw_frame_text(),
        },
{
    let ghost views = frame_views(frames@);
    proof {
        lemma_first_raw_bounds(views, 0);
    }
    let mut i: usize = 0;
    while i < frames.len()
        invariant
            i <= frames@.len(),
            views == frame_views(frames@),
            first_raw_frame(views, i as int) == first_raw_frame(views, 0),
            first_raw_frame(frame_views(frames@), 0) matches Some(k) ==> {
                let g = frames@[k]@;
                raw_rgb_readable(g.data.len() as int, g.width, g.height, g.stride, g.pixel_format)
            },
        decreases frames@.len() - i,
    {
        let f = &frames[i];
        assert(views[i as int] == f@);
        if f.pixel_format == PixelFormat::Nv12 || f.pixel_format == PixelFormat::Bgra {
            let captured = CapturedFrame {
                data: f.data.clone(),
                width: f.width,
                height: f.height,
                stride: f.stride,
                pixel_format: f.pixel_format,
                timestamp: f.timestamp,
            };
            assert(captured.data@ == f.data@);
            assert(first_raw_frame(views, i as int) == Some(i as int));
            return thumbnail_jpeg(&captured);
        }
        i += 1;
    }
    Err(String::from_str("No NV12 or BGRA frame in clip data for thumbnail generation"))
}


/// Whether raw data of `len` bytes and the given geometry can be converted
/// to RGB (see `raw_rgb_readable`).
pub fn raw_rgb_is_readable(len: usize, width: u32, height: u32, stride: u32, format: PixelFormat) -> (r: bool)
    ensures
        r == raw_rgb_readable(len as int, width, height, stride, format),
{
    let w = width as u128;
    let h = height as u128;
    let st = stride as u128;
    let n = len as u128;
    proof {
        assert(w * h * 3 <= 0xFFFF_FFFFu128 * 0xFFFF_FFFFu128 * 3) by (nonlinear_arith)
            requires
                w <= 0xFFFF_FFFFu128,
                h <= 0xFFFF_FFFFu128,
        ;
        assert(w * h <= 0xFFFF_FFFFu128 * 0xFFFF_FFFFu128) by (nonlinear_arith)
            requires
                w <= 0xFFFF_FFFFu128,
                h <= 0xFFFF_FFFFu128,
        ;
    }
    match format {
        PixelFormat::Nv12 => {
            let cw = w / 2 + w % 2;
            let ch = h / 2 + h % 2;
            proof {
                assert(cw * ch <= 0xFFFF_FFFFu128 * 0xFFFF_FFFFu128) by (nonlinear_arith)
                    requires
                        cw <= 0xFFFF_FFFFu128,
                        ch <= 0xFFFF_FFFFu128,
                ;
            }
            w * h <= 0xFFFF_FFFF && w * h * 3 <= usize::MAX as u128 && w * h <= n && (w == 0 || h == 0
                || w * h + 2 * (cw * ch) <= n)
        },
        PixelFormat::Bgra => {
            if w * h * 3 > 0xFFFF_FFFF {
                return false;
            }
            if w == 0 || h == 0 {
                return true;
            }
            proof {
                assert((h - 1) * st <= 0xFFFF_FFFFu128 * 0xFFFF_FFFFu128) by (nonlinear_arith)
                    requires
                        1 <= h <= 0xFFFF_FFFFu128,
                        st <= 0xFFFF_FFFFu128,
                ;
            }
            let last = (h - 1) * st + (w - 1) * 4;
            last <= 0xFFFF_FFFF && last + 2 < n
        },
        PixelFormat::H264 => true,
    }
}

/// Seconds of a clip to save: the requested length, or the whole buffer
/// duration when none (0) is requested.
pub fn save_clip_duration(requested_secs: u32, buffer_duration_secs: u32) -> (r: u32)
    ensures
        r == if requested_secs > 0 { requested_secs } else { buffer_duration_secs },
{
    if requested_secs > 0 {
        requested_secs
    } else {
        buffer_duration_secs
    }
}

/// The file name of a clip saved at `timestamp` (`YYYYMMDD_HHMMSS`).
pub fn clip_filename_at(timestamp: &str) -> (r: String)
    ensures
        r@ == "clip_"@ + timestamp@ + ".mp4"@,
{
    let mut out: Vec<char> = Vec::new();
    push_str(&mut out, "clip_");
    push_str(&mut out, timestamp);
    push_str(&mut out, ".mp4");
    string_from_chars(out.as_slice())
}

/// The file name of a clip saved now; `parse_clip_timestamp` reads its
/// timestamp back.
pub fn new_clip_filename() -> (r: String)
    ensures
        exists|secs: u64| r@ == "clip_"@ + #[trigger] compact_timestamp(secs as int) + ".mp4"@,
        clip_name_shape(vstd::utf8::encode_utf8(r@)),
        clip_name_cuts_on_chars(vstd::utf8::encode_utf8(r@)),
{
    let ts = chrono_now_formatted();
    let name = clip_filename_at(ts.as_str());
    proof {
        let secs = choose|secs: u64| ts@ == #[trigger] compact_timestamp(secs as int);
        assert(name@ == "clip_"@ + compact_timestamp(secs as int) + ".mp4"@);
    }
    name
}

/// Encoder settings for a clip: H.264 at the recording bitrate and capture
/// frame rate, a keyframe every second, and the size of the clip's first
/// (already encoded) frame; no audio yet.
pub fn clip_encoder_config(frames: &[StoredFrame], bitrate_kbps: u32, fps: u32) -> (r: EncoderConfig)
    requires
        frames@.len() > 0,
    ensures
        r.codec == Codec::H264,
        r.bitrate_kbps == bitrate_kbps,
        r.fps == fps,
        r.keyframe_interval == fps,
        r.target_width == frames@[0].width,
        r.target_height == frames@[0].height,
        r.audio is None,
{
    EncoderConfig {
        codec: Codec::H264,
        bitrate_kbps,
        fps,
        keyframe_interval: fps,
        target_width: frames[0].width,
        target_height: frames[0].height,
        audio: None,
    }
}

/// Attempts at preparing a clip while waiting for a keyframe.
pub const KEYFRAME_ATTEMPTS: u32 = 5;

/// Whether a failed clip preparation is retried after asking for a fresh
/// keyframe: the error is about a missing keyframe and attempts remain.
pub fn retry_for_keyframe(attempt: u32, error: &str) -> (r: bool)
    ensures
        r == (attempt + 1 < KEYFRAME_ATTEMPTS && contains_seq(error@, "keyframe"@)),
{
    if attempt >= KEYFRAME_ATTEMPTS - 1 {
        return false;
    }
    let hay = chars_of(error);
    let needle = chars_of("keyframe");
    chars_contains(hay.as_slice(), needle.as_slice())
}

/// The system-audio window of a clip, in capture nanoseconds: from its
/// first frame to one frame period (at `fps`, at least 1) past its last.
pub fn clip_audio_window(frames: &[StoredFrame], fps: u32) -> (r: Option<(u64, u64)>)
    requires
        frames@.len() > 0 ==> frames@.last().timestamp + NANOS_PER_SEC <= u64::MAX,
    ensures
        frames@.len() == 0 ==> r is None,
        frames@.len() > 0 ==> r == Some((
            frames@[0].timestamp,
            (frames@.last().timestamp + NANOS_PER_SEC as int / (if fps > 0 { fps as int } else { 1int })) as u64,
        )),
{
    if frames.len() == 0 {
        return None;
    }
    let rate: u64 = if fps > 0 { fps as u64 } else { 1 };
    let period = NANOS_PER_SEC / rate;
    proof {
        assert(period <= NANOS_PER_SEC) by (nonlinear_arith)
            requires
                rate >= 1,
                period == NANOS_PER_SEC / rate,
        ;
    }
    let last = frames[frames.len() - 1].timestamp;
    Some((frames[0].timestamp, last + period))
}

/// AAC bitrate for a clip's audio: 128 kbps with a video bitrate of at least
/// 160 kbps, otherwise 96.
pub fn clip_audio_bitrate_kbps(video_bitrate_kbps: u32) -> (r: u32)
    ensures
        r == if video_bitrate_kbps >= 160 { 128u32 } else { 96u32 },
{
    if video_bitrate_kbps >= 160 {
        128
    } else {
        96
    }
}

/// The thumbnail of a saved clip: from the latest preview frame when it
/// gives one, otherwise from the first raw frame of the clip.
pub fn clip_thumbnail(preview: Option<&CapturedFrame>, frames: &[StoredFrame]) -> (r: Result<Vec<u8>, String>)
    requires
        preview matches Some(p) ==> frame_rgb_readable(*p),
        first_raw_frame(frame_views(frames@), 0) matches Some(i) ==> {
            let f = frames@[i]@;
            raw_rgb_readable(f.data.len() as int, f.width, f.height, f.stride, f.pixel_format)
        },
    ensures
        match preview {
            Some(p) if p.pixel_format != PixelFormat::H264 => r matches Ok(v) && v@ == thumbnail_bytes(*p),
            _ => match first_raw_frame(frame_views(frames@), 0) {
                Some(i) => {
                    let f = frames@[i]@;
                    r matches Ok(v) && v@ == raw_thumbnail(f.data, f.width, f.height, f.stride, f.pixel_format)
                },
                None => r matches Err(e) && e@ == no_raw_frame_text(),
            },
        },
{
    match preview {
        Some(p) => match thumbnail_jpeg(p) {
            Ok(v) => Ok(v),
            Err(_) => thumbnail_from_frames(frames),
        },
        None => thumbnail_from_frames(frames),
    }
}

/// Whether a thumbnail can be made from the first raw frame of `frames`
/// (see `thumbnail_from_frames`).
pub fn frames_thumbnail_readable(frames: &[StoredFrame]) -> (r: bool)
    ensures
        r == (first_raw_frame(frame_views(frames@), 0) matches Some(i) ==> {
            let f = frames@[i]@;
            raw_rgb_readable(f.data.len() as int, f.width, f.height, f.stride, f.pixel_format)
        }),
{
    let ghost views = frame_views(frames@);
    proof {
        lemma_first_raw_bounds(views, 0);
    }
    let mut i: usize = 0;
    while i < frames.len()
        invariant
            i <= frames@.len(),
            views == frame_views(frames@),
            first_raw_frame(views, i as int) == first_raw_frame(views, 0),
        decreases frames@.len() - i,
    {
        let f = &frames[i];
        assert(views[i as int] == f@);
        if f.pixel_format == PixelFormat::Nv12 || f.pixel_format == PixelFormat::Bgra {
            assert(first_raw_frame(views, i as int) == Some(i as int));
            return raw_rgb_is_readable(f.data.len(), f.width, f.height, f.stride, f.pixel_format);
        }
        i += 1;
    }
    true
}

} // verus!
