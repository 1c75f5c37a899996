//! Codec configuration and encoder settings.
use vstd::prelude::*;

verus! {

/// Supported video codecs for clip encoding.
#[derive(Debug, Clone, Copy, PartialEq, Eq, Structural)]
pub enum Codec {
    /// H.264 Advanced Video Coding.
    H264,
    /// H.265 High Efficiency Video Coding.
    H265,
    /// AV1.
    Av1,
}

/// A single raw AAC frame (1024 samples, no ADTS header) for MP4 muxing.
#[derive(Debug, Clone)]
pub struct AacFrame {
    /// Sample start time, in `sample_rate` units.
    pub start_time: u64,
    /// Samples per AAC frame (always 1024).
    pub duration: u32,
    /// Raw AAC payload bytes.
    pub data: Vec<u8>,
}

/// An encoded AAC audio clip attached to a clip save.
#[derive(Debug, Clone)]
pub struct AudioClip {
    pub sample_rate: u32,
    pub channels: u8,
    pub bitrate_kbps: u32,
    pub frames: Vec<AacFrame>,
}

/// Full configuration for a single encoding session.
#[derive(Debug, Clone)]
pub struct EncoderConfig {
    /// Video codec to use.
    pub codec: Codec,
    /// Target bitrate in kilobits/sec.
    pub bitrate_kbps: u32,
    /// Output frame rate.
    pub fps: u32,
    /// Keyframe interval (0 = automatic).
    pub keyframe_interval: u32,
    /// Output video width in pixels.
    pub target_width: u32,
    /// Output video height in pixels.
    pub target_height: u32,
    /// Optional AAC audio track to mux alongside the video.
    pub audio: Option<AudioClip>,
}

impl Default for EncoderConfig {
    fn default() -> (r: Self)
        ensures
            r.codec == Codec::H264,
            r.bitrate_kbps == 8000,
            r.fps == 60,
            r.keyframe_interval == 120,
            r.target_width == 1920,
            r.target_height == 1080,
            r.audio is None,
    {
        EncoderConfig {
            codec: Codec::H264,
            bitrate_kbps: 8000,
            fps: 60,
            keyframe_interval: 120,
            target_width: 1920,
            target_height: 1080,
            audio: None,
        }
    }
}

} // verus!
