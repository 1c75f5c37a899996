//! The macOS path of the capture loop: each BGRA capture is scaled to the
//! encoder's size when it differs, converted to NV12 and handed to the
//! VideoToolbox encoder; what the encoder returns decides what is buffered.
use vstd::prelude::*;

use super::{frame_storable, frame_is_storable, frames_from_packets, packet_frame, EncodedFrameOutcome};
use crate::buffer::ring::{frame_views, FrameView, StoredFrame};
use crate::capture::convert::{bgra_readable, half_up, nv12_from_bgra, nv12_len};
use crate::capture::{bgra_to_nv12, CapturedFrame, PixelFormat};
use crate::encoder::macos::{bgra_pixels_readable, resize_bgra_frame, resized_bgra};
use crate::encoder::windows::mf_encoder::EncodedPacket;

verus! {

/// `max(x, 1)`.
pub open spec fn at_least_one(x: u32) -> u32 {
    if x == 0 { 1 } else { x }
}

/// Whether a capture of `f`'s size and format must be scaled to reach the
/// `target_width × target_height` encoder size.
pub open spec fn needs_resize(f: CapturedFrame, target_width: u32, target_height: u32) -> bool {
    f.pixel_format == PixelFormat::Bgra && (f.width != target_width || f.height != target_height)
}

/// Whether `macos_frame_nv12` can process `f` for the given target without
/// reading past its data or overflowing, and its result can be buffered.
pub open spec fn macos_frame_convertible(f: CapturedFrame, target_width: u32, target_height: u32) -> bool {
    if needs_resize(f, target_width, target_height) {
        let tw = at_least_one(target_width);
        let th = at_least_one(target_height);
        &&& bgra_pixels_readable(f.data@.len() as int, f.width as int, f.height as int, f.stride as int)
        &&& f.width * f.height * 4 <= isize::MAX
        &&& f.width * th * 16 <= isize::MAX
        &&& tw * th * 4 <= isize::MAX
        &&& tw * 4 <= u32::MAX
        &&& (th - 1) * (tw * 4) <= u32::MAX
        &&& tw * th <= u32::MAX
        &&& half_up(tw as int) * half_up(th as int) * 2 <= u32::MAX
        &&& nv12_len(tw as int, th as int) <= isize::MAX
    } else {
        frame_storable(f)
    }
}

/// The NV12 picture handed to the encoder for a capture, with its size: a
/// BGRA capture of another size than the target is scaled to the target
/// (each side at least 1) and converted; a BGRA capture of the target size
/// is converted as it is; any other capture is passed on as captured.
pub open spec fn macos_nv12(f: CapturedFrame, target_width: u32, target_height: u32) -> (Seq<u8>, u32, u32) {
    let tw = at_least_one(target_width);
    let th = at_least_one(target_height);
    if needs_resize(f, target_width, target_height) {
        (
            nv12_from_bgra(
                resized_bgra(f.data@, f.width, f.height, tw, th, f.stride),
                tw as int,
                th as int,
                tw * 4,
            ),
            tw,
            th,
        )
    } else if f.pixel_format == PixelFormat::Bgra {
        (nv12_from_bgra(f.data@, f.width as int, f.height as int, f.stride as int), f.width, f.height)
    } else {
        (f.data@, f.width, f.height)
    }
}

/// Computes `macos_frame_convertible`.
pub fn macos_frame_is_convertible(f: &CapturedFrame, target_width: u32, target_height: u32) -> (r: bool)
    ensures
        r == macos_frame_convertible(*f, target_width, target_height),
{
    if !(f.pixel_format == PixelFormat::Bgra && (f.width != target_width || f.height != target_height)) {
        return frame_is_storable(f);
    }
    let w = f.width as u128;
    let h = f.height as u128;
    let st = f.stride as u128;
    let len = f.data.len() as u128;
    let tw = if target_width == 0 { 1u128 } else { target_width as u128 };
    let th = if target_height == 0 { 1u128 } else { target_height as u128 };
    let hw = (tw + 1) / 2;
    let hh = (th + 1) / 2;
    let big = 0xFFFF_FFFFu128;
    proof {
        assert(w * h * 4 <= big * big * 4) by (nonlinear_arith)
            requires
                w <= big,
                h <= big,
        ;
        assert(w * th * 16 <= big * big * 16) by (nonlinear_arith)
            requires
                w <= big,
                th <= big,
        ;
        assert(tw * th * 4 <= big * big * 4) by (nonlinear_arith)
            requires
                tw <= big,
                th <= big,
        ;
        assert((th - 1) * (tw * 4) <= big * big * 4) by (nonlinear_arith)
            requires
                1 <= th <= big,
                tw <= big,
        ;
        assert(hw * hh * 2 <= big * big * 2) by (nonlinear_arith)
            requires
                hw <= big,
                hh <= big,
        ;
        assert(h * st <= big * big) by (nonlinear_arith)
            requires
                h <= big,
                st <= big,
        ;
    }
    if w > 0 && h > 0 {
        proof {
            assert((h - 1) * st <= big * big) by (nonlinear_arith)
                requires
                    1 <= h <= big,
                    st <= big,
            ;
        }
        if (h - 1) * st + (w - 1) * 4 + 3 >= len {
            return false;
        }
    }
    let limit = isize::MAX as u128;
    w * h * 4 <= limit && w * th * 16 <= limit && tw * th * 4 <= limit && tw * 4 <= big && (th - 1) * (tw
        * 4) <= big && tw * th <= big && hw * hh * 2 <= big && tw * th + hw * hh * 2 <= limit
}

/// The NV12 picture (and its size) handed to the encoder for a capture
/// aimed at a `target_width × target_height` encoder.
pub fn macos_frame_nv12(frame: &CapturedFrame, target_width: u32, target_height: u32) -> (r: (Vec<u8>, u32, u32))
    requires
        macos_frame_convertible(*frame, target_width, target_height),
    ensures
        (r.0@, r.1, r.2) == macos_nv12(*frame, target_width, target_height),
{
    let tw = if target_width == 0 { 1 } else { target_width };
    let th = if target_height == 0 { 1 } else { target_height };
    if frame.pixel_format == PixelFormat::Bgra {
        if frame.width != target_width || frame.height != target_height {
            match resize_bgra_frame(frame.data.as_slice(), frame.width, frame.height, tw, th, frame.stride) {
                Ok(resized) => {
                    let stride = tw * 4;
                    proof {
                        assert((th - 1) * stride + (tw - 1) * 4 + 2 < tw * th * 4) by (nonlinear_arith)
                            requires
                                stride == tw * 4,
                                tw >= 1,
                                th >= 1,
                        ;
                        assert(bgra_readable(resized@.len() as int, tw as int, th as int, stride as int));
                    }
                    let nv12 = bgra_to_nv12(resized.as_slice(), tw, th, stride);
                    (nv12, tw, th)
                },
                Err(_) => {
                    // Scaling cannot fail on an admitted capture; were it to,
                    // the capture would be converted at its own size.
                    let nv12 = bgra_to_nv12(frame.data.as_slice(), frame.width, frame.height, frame.stride);
                    (nv12, frame.width, frame.height)
                },
            }
        } else {
            let nv12 = bgra_to_nv12(frame.data.as_slice(), frame.width, frame.height, frame.stride);
            (nv12, frame.width, frame.height)
        }
    } else {
        let data = frame.data.clone();
        assert(data@ =~= frame.data@);
        (data, frame.width, frame.height)
    }
}

/// The size the VideoToolbox encoder is opened at: the NV12 picture's own
/// size at native resolution, else the target size with each side at
/// least 1.
pub fn macos_encoder_dims(
    resolution_is_native: bool,
    nv12_width: u32,
    nv12_height: u32,
    target_width: u32,
    target_height: u32,
) -> (r: (u32, u32))
    ensures
        r == if resolution_is_native {
            (nv12_width, nv12_height)
        } else {
            (at_least_one(target_width), at_least_one(target_height))
        },
{
    if resolution_is_native {
        (nv12_width, nv12_height)
    } else {
        (if target_width == 0 { 1 } else { target_width }, if target_height == 0 { 1 } else { target_height })
    }
}

/// The frame buffered for an NV12 picture that was not encoded.
pub open spec fn raw_nv12_frame(nv12: Seq<u8>, width: u32, height: u32, timestamp: u64) -> FrameView {
    FrameView { data: nv12, width, height, stride: width, pixel_format: PixelFormat::Nv12, timestamp, is_sync: true }
}

/// The packets an encoder call produced: none without an encoder or on an
/// encoding error.
pub open spec fn produced_packets(encoded: Option<Result<Vec<EncodedPacket>, ()>>) -> Seq<EncodedPacket> {
    match encoded {
        Some(Ok(packets)) => packets@,
        _ => Seq::empty(),
    }
}

/// Decides what to buffer for one capture on the macOS path, given the NV12
/// picture (`width × height`, taken at `timestamp`) and what the encoder
/// did with it (`encoded`: none without an encoder). When no packet came
/// back (no encoder, an encoding error, or a skipped frame) the NV12
/// picture itself is kept. Otherwise each packet is kept as an H.264 frame
/// with its sync flag, and the encoder's parameter sets
/// (`encoder_param_sets`, present once the encoder has them) are adopted
/// if none were known.
pub fn macos_encoded_outcome(
    nv12: Vec<u8>,
    width: u32,
    height: u32,
    timestamp: u64,
    encoded: Option<Result<Vec<EncodedPacket>, ()>>,
    cached_sps: Vec<u8>,
    cached_pps: Vec<u8>,
    encoder_param_sets: Option<(Vec<u8>, Vec<u8>)>,
) -> (r: EncodedFrameOutcome)
    ensures
        produced_packets(encoded).len() > 0 ==> {
            &&& (if cached_sps@.len() == 0 && encoder_param_sets is Some {
                r.sps@ == encoder_param_sets.unwrap().0@ && r.pps@ == encoder_param_sets.unwrap().1@
            } else {
                r.sps@ == cached_sps@ && r.pps@ == cached_pps@
            })
            &&& r.frames@.len() == produced_packets(encoded).len()
            &&& forall|i: int|
                0 <= i < r.frames@.len() ==> (#[trigger] r.frames@[i])@ == packet_frame(
                    produced_packets(encoded)[i],
                    width,
                    height,
                    timestamp,
                )
        },
        produced_packets(encoded).len() == 0 ==> {
            &&& r.sps@ == cached_sps@
            &&& r.pps@ == cached_pps@
            &&& frame_views(r.frames@) == seq![raw_nv12_frame(nv12@, width, height, timestamp)]
        },
{
    if let Some(Ok(packets)) = encoded {
        if packets.len() > 0 {
            let (sps, pps) = match encoder_param_sets {
                Some(sets) => if cached_sps.len() == 0 {
                    sets
                } else {
                    (cached_sps, cached_pps)
                },
                None => (cached_sps, cached_pps),
            };
            let frames = frames_from_packets(packets, width, height, timestamp);
            return EncodedFrameOutcome { sps, pps, frames };
        }
    }
    let mut frames: Vec<StoredFrame> = Vec::new();
    frames.push(
        StoredFrame {
            data: nv12,
            width,
            height,
            stride: width,
            pixel_format: PixelFormat::Nv12,
            timestamp,
            is_sync: true,
        },
    );
    assert(frame_views(frames@) =~= seq![raw_nv12_frame(nv12@, width, height, timestamp)]);
    EncodedFrameOutcome { sps: cached_sps, pps: cached_pps, frames }
}

} // verus!
