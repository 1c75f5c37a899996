//! Windows encoder: pre-encoded H.264 AVCC packets are muxed into MP4.
use vstd::prelude::*;

pub mod mf_encoder;

use crate::avcc::{last_param_sets_from, last_scan_in_bounds, scan_last_param_sets, ParamScan};
use crate::buffer::ring::{frame_views, FrameView, StoredFrame};
use crate::capture::PixelFormat;
use crate::encoder::codecs::EncoderConfig;
use crate::encoder::EncodeError;

verus! {

/// The Windows clip encoder.
pub struct WindowsEncoder;

impl WindowsEncoder {
    /// A new Windows encoder.
    pub fn new() -> (r: Self) {
        WindowsEncoder
    }
}

/// Parameter sets of a clip: the first H.264 frame (non-H.264 frames are
/// skipped) whose last SPS and last PPS payloads are both non-empty.
pub open spec fn clip_param_sets(s: Seq<FrameView>) -> ParamScan
    decreases s.len(),
{
    if s.len() == 0 {
        ParamScan::NotFound
    } else if s[0].pixel_format != PixelFormat::H264 {
        clip_param_sets(s.drop_first())
    } else {
        match last_param_sets_from(s[0].data, 0, seq![], seq![]) {
            None => ParamScan::OutOfBounds,
            Some((sps, pps)) => if sps.len() > 0 && pps.len() > 0 {
                ParamScan::Found(sps, pps)
            } else {
                clip_param_sets(s.drop_first())
            },
        }
    }
}

/// Whether `extract_sps_pps` can scan the frames: every H.264 packet it
/// reaches is walked without reading past its end.
pub fn param_sets_scan_in_bounds(frames: &[StoredFrame]) -> (r: bool)
    ensures
        r == !(clip_param_sets(frame_views(frames@)) is OutOfBounds),
{
    let ghost all = frame_views(frames@);
    let mut i: usize = 0;
    assert(all.subrange(0, all.len() as int) =~= all);
    while i < frames.len()
        invariant
            i <= frames@.len(),
            all == frame_views(frames@),
            clip_param_sets(all.subrange(i as int, all.len() as int)) == clip_param_sets(all),
        decreases frames@.len() - i,
    {
        let ghost rest = all.subrange(i as int, all.len() as int);
        assert(rest.drop_first() =~= all.subrange(i + 1, all.len() as int));
        assert(rest[0] == frames@[i as int]@);
        let f = &frames[i];
        if f.pixel_format == PixelFormat::H264 {
            if !last_scan_in_bounds(f.data.as_slice()) {
                return false;
            }
            let (sps, pps) = scan_last_param_sets(f.data.as_slice());
            if sps.len() > 0 && pps.len() > 0 {
                return true;
            }
        }
        i += 1;
    }
    true
}

/// Extract the SPS and PPS NAL payloads from the frame list, scanning every
/// frame (parameter sets may have been prepended to the first frame).
pub fn extract_sps_pps(frames: &[StoredFrame]) -> (r: Result<(Vec<u8>, Vec<u8>), EncodeError>)
    requires
        !(clip_param_sets(frame_views(frames@)) is OutOfBounds),
    ensures
        match clip_param_sets(frame_views(frames@)) {
            ParamScan::Found(s, p) => r matches Ok(x) && x.0@ == s && x.1@ == p,
            _ => r matches Err(e) && e matches EncodeError::EncodeFailed(m) && m@
                == "No SPS/PPS found in H.264 stream"@,
        },
{
    let ghost all = frame_views(frames@);
    let mut i: usize = 0;
    assert(all.subrange(0, all.len() as int) =~= all);
    while i < frames.len()
        invariant
            i <= frames@.len(),
            all == frame_views(frames@),
            clip_param_sets(all.subrange(i as int, all.len() as int)) == clip_param_sets(all),
            !(clip_param_sets(all) is OutOfBounds),
        decreases frames@.len() - i,
    {
        let ghost rest = all.subrange(i as int, all.len() as int);
        assert(rest.drop_first() =~= all.subrange(i + 1, all.len() as int));
        assert(rest[0] == frames@[i as int]@);
        let f = &frames[i];
        if f.pixel_format == PixelFormat::H264 {
            let (sps, pps) = scan_last_param_sets(f.data.as_slice());
            if sps.len() > 0 && pps.len() > 0 {
                return Ok((sps, pps));
            }
        }
        i += 1;
    }
    Err(EncodeError::EncodeFailed(String::from_str("No SPS/PPS found in H.264 stream")))
}


/// One MP4 sample of a clip: the frame it carries, its start time and
/// duration in track time units, and whether it is a sync sample.
pub struct Mp4SamplePlan {
    pub frame_index: usize,
    pub start_time: u64,
    pub duration: u32,
    pub is_sync: bool,
}

/// What the MP4 writer is given for a clip: the movie and track timescale,
/// the AVC configuration, and the samples in order.
pub struct MuxPlan {
    pub timescale: u32,
    pub width: u16,
    pub height: u16,
    pub sps: Vec<u8>,
    pub pps: Vec<u8>,
    pub samples: Vec<Mp4SamplePlan>,
}

/// Whether every frame is an H.264 packet.
pub open spec fn all_h264(s: Seq<FrameView>) -> bool {
    forall|i: int| 0 <= i < s.len() ==> (#[trigger] s[i]).pixel_format == PixelFormat::H264
}

impl WindowsEncoder {
    /// Plans the MP4 of a clip of pre-encoded H.264 packets: one sample per
    /// frame, at time `i` for frame `i`, one time unit long, with the frame's
    /// sync flag; the timescale is the clip's frame rate. Fails when there
    /// are no frames, no parameter sets, or a frame that is not H.264.
    pub fn mux_plan(&self, frames: &[StoredFrame], config: &EncoderConfig) -> (r: Result<MuxPlan, EncodeError>)
        requires
            frames@.len() > 0 ==> !(clip_param_sets(frame_views(frames@)) is OutOfBounds),
        ensures
            frames@.len() == 0 ==> (r matches Err(e) && e matches EncodeError::EncodeFailed(m) && m@
                == "No frames to mux"@),
            frames@.len() > 0 && !(clip_param_sets(frame_views(frames@)) is Found) ==> (r matches Err(e)
                && e matches EncodeError::EncodeFailed(m) && m@ == "No SPS/PPS found in H.264 stream"@),
            frames@.len() > 0 && clip_param_sets(frame_views(frames@)) is Found && !all_h264(
                frame_views(frames@),
            ) ==> (r matches Err(e) && e matches EncodeError::EncodeFailed(m) && m@
                == "WindowsEncoder expects H.264 encoded frames"@),
            frames@.len() > 0 && all_h264(frame_views(frames@)) ==> match clip_param_sets(
                frame_views(frames@),
            ) {
                ParamScan::Found(sps, pps) => r matches Ok(plan) && {
                    &&& plan.timescale == config.fps
                    &&& plan.width == config.target_width as u16
                    &&& plan.height == config.target_height as u16
                    &&& plan.sps@ == sps
                    &&& plan.pps@ == pps
                    &&& plan.samples@.len() == frames@.len()
                    &&& forall|i: int|
                        0 <= i < frames@.len() ==> {
                            &&& (#[trigger] plan.samples@[i]).frame_index == i
                            &&& plan.samples@[i].start_time == i
                            &&& plan.samples@[i].duration == 1
                            &&& plan.samples@[i].is_sync == frames@[i].is_sync
                        }
                },
                _ => true,
            },
    {
        if frames.len() == 0 {
            return Err(EncodeError::EncodeFailed(String::from_str("No frames to mux")));
        }
        let (sps, pps) = match extract_sps_pps(frames) {
            Ok(x) => x,
            Err(e) => {
                return Err(e);
            },
        };
        let mut samples: Vec<Mp4SamplePlan> = Vec::new();
        let mut i: usize = 0;
        while i < frames.len()
            invariant
                i <= frames@.len(),
                samples@.len() == i,
                clip_param_sets(frame_views(frames@)) is Found,
                forall|k: int| 0 <= k < i ==> (#[trigger] frames@[k]).pixel_format == PixelFormat::H264,
                forall|k: int|
                    0 <= k < i ==> {
                        &&& (#[trigger] samples@[k]).frame_index == k
                        &&& samples@[k].start_time == k
                        &&& samples@[k].duration == 1
                        &&& samples@[k].is_sync == frames@[k].is_sync
                    },
            decreases frames@.len() - i,
        {
            if frames[i].pixel_format != PixelFormat::H264 {
                proof {
                    assert(frame_views(frames@)[i as int].pixel_format != PixelFormat::H264);
                }
                return Err(
                    EncodeError::EncodeFailed(String::from_str("WindowsEncoder expects H.264 encoded frames")),
                );
            }
            samples.push(
                Mp4SamplePlan {
                    frame_index: i,
                    start_time: i as u64,
                    duration: 1,
                    is_sync: frames[i].is_sync,
                },
            );
            i += 1;
        }
        proof {
            assert forall|k: int| 0 <= k < frames@.len() implies (#[trigger] frame_views(
                frames@,
            )[k]).pixel_format == PixelFormat::H264 by {
                assert(frame_views(frames@)[k] == frames@[k]@);
            }
        }
        Ok(
            MuxPlan {
                timescale: config.fps,
                width: config.target_width as u16,
                height: config.target_height as u16,
                sps,
                pps,
                samples,
            },
        )
    }
}

} // verus!
