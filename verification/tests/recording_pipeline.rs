use base64::Engine;
use prism::buffer::ring::StoredFrame;
use prism::buffer::{BufferConfig, BufferManager};
use prism::capture::{CapturedFrame, PixelFormat};
use prism::commands::recording::{
    clip_audio_bitrate_kbps, clip_audio_window, clip_encoder_config, clip_filename_at, clip_thumbnail,
    frame_to_rgb, new_clip_filename, raw_rgb_is_readable, retry_for_keyframe, save_clip_duration,
    thumbnail_from_frames, thumbnail_jpeg,
};
use prism::encoder::codecs::{Codec, EncoderConfig};
use prism::encoder::windows::mf_encoder::EncodedPacket;
use prism::encoder::windows::WindowsEncoder;
use prism::recording::{
    effective_fps, encoded_frame_outcome, clip_data_from, frames_from_packets,
    preview_data_url, preview_dimensions, preview_is_readable, preview_rgb, process_linux_frame,
};

const SEC: u64 = 1_000_000_000;

fn bgra(width: u32, height: u32, pixel: [u8; 4]) -> CapturedFrame {
    CapturedFrame {
        data: pixel.repeat((width * height) as usize),
        width,
        height,
        stride: width * 4,
        pixel_format: PixelFormat::Bgra,
        timestamp: 7,
    }
}

fn h264(data: Vec<u8>, timestamp: u64, is_sync: bool) -> StoredFrame {
    StoredFrame {
        data,
        width: 640,
        height: 360,
        stride: 0,
        pixel_format: PixelFormat::H264,
        timestamp,
        is_sync,
    }
}

#[test]
fn capture_rate_follows_a_sane_display() {
    assert_eq!(effective_fps(60, true, 144), 144);
    assert_eq!(effective_fps(60, true, 0), 60);
    assert_eq!(effective_fps(60, true, 500), 60);
    assert_eq!(effective_fps(30, false, 144), 30);
}

#[test]
fn preview_is_at_most_1280_wide() {
    assert_eq!(preview_dimensions(1920, 1080), (1280, 720));
    assert_eq!(preview_dimensions(640, 480), (640, 480));
    assert_eq!(preview_dimensions(2560, 1), (1280, 1));
    assert_eq!(preview_dimensions(0, 10), (0, 1));
}

#[test]
fn preview_samples_pixels_and_encodes_a_jpeg_url() {
    let frame = bgra(4, 2, [10, 20, 30, 255]);
    assert!(preview_is_readable(&frame));
    let rgb = preview_rgb(&frame);
    assert_eq!(rgb, [30, 20, 10].repeat(8));
    let url = preview_data_url(&frame).expect("preview");
    assert!(url.starts_with("data:image/jpeg;base64,/9j/"));
    let b64 = &url["data:image/jpeg;base64,".len()..];
    let jpeg = base64::engine::general_purpose::STANDARD.decode(b64).unwrap();
    let img = image::load_from_memory(&jpeg).unwrap();
    assert_eq!((img.width(), img.height()), (4, 2));
    let empty = bgra(0, 0, [0, 0, 0, 0]);
    assert!(preview_data_url(&empty).is_none());
}

#[test]
fn preview_of_nv12_decodes_colours() {
    let frame = CapturedFrame {
        data: vec![82, 82, 82, 82, 90, 240],
        width: 2,
        height: 2,
        stride: 2,
        pixel_format: PixelFormat::Nv12,
        timestamp: 0,
    };
    assert!(preview_is_readable(&frame));
    assert_eq!(preview_rgb(&frame), [255, 1, 0].repeat(4));
    let short = CapturedFrame { data: vec![82; 4], ..frame };
    assert!(!preview_is_readable(&short));
}

#[test]
fn thumbnails_fit_the_box_and_are_jpeg() {
    let frame = bgra(1920, 1080, [0, 0, 255, 255]);
    assert!(raw_rgb_is_readable(frame.data.len(), 1920, 1080, 1920 * 4, PixelFormat::Bgra));
    let rgb = frame_to_rgb(&frame).unwrap();
    assert_eq!(&rgb[..6], &[255, 0, 0, 255, 0, 0]);
    let jpeg = thumbnail_jpeg(&frame).unwrap();
    let img = image::load_from_memory(&jpeg).unwrap();
    assert_eq!((img.width(), img.height()), (1280, 720));
    let encoded = CapturedFrame { pixel_format: PixelFormat::H264, ..bgra(2, 2, [0; 4]) };
    assert_eq!(
        thumbnail_jpeg(&encoded).unwrap_err(),
        "Cannot generate thumbnail from H.264 data"
    );
}

#[test]
fn clip_thumbnails_come_from_the_first_raw_frame() {
    let raw = StoredFrame::from_captured(bgra(8, 8, [1, 2, 3, 255]));
    let frames = vec![h264(vec![0, 0, 0, 1, 0x65], 0, true), raw];
    let jpeg = thumbnail_from_frames(&frames).unwrap();
    let img = image::load_from_memory(&jpeg).unwrap();
    assert_eq!((img.width(), img.height()), (8, 8));
    assert_eq!(
        thumbnail_from_frames(&frames[..1]).unwrap_err(),
        "No NV12 or BGRA frame in clip data for thumbnail generation"
    );
}

#[test]
fn clip_data_takes_the_requested_window() {
    let mut buffer = BufferManager::new(BufferConfig { max_duration_secs: 30, fps: 30 }, 640, 360);
    let sps_pps = vec![0, 0, 0, 2, 0x67, 0x42, 0, 0, 0, 2, 0x68, 0xCE];
    buffer.push_frame(h264(sps_pps, SEC, true));
    buffer.push_frame(h264(vec![0, 0, 0, 1, 0x41], 5 * SEC, false));
    buffer.push_frame(h264(vec![0, 0, 0, 1, 0x41], 9 * SEC, false));

    let all = clip_data_from(&buffer, 0, 10 * SEC, "/clips", &[], &[], None).ok().unwrap();
    assert_eq!(all.frames.len(), 3);
    assert_eq!(all.sps, vec![0x67, 0x42]);
    assert_eq!(all.pps, vec![0x68, 0xCE]);
    assert_eq!(all.output_dir, "/clips");

    let recent = clip_data_from(&buffer, 6, 10 * SEC, "/clips", &[1], &[2], None).ok().unwrap();
    assert_eq!(recent.frames.len(), 2);
    assert_eq!(recent.sps, vec![1]);

    let none = clip_data_from(&buffer, 1, 100 * SEC, "/clips", &[], &[], None);
    assert_eq!(none.err().unwrap(), "No frames available to clip");
}

#[test]
fn raw_captures_are_buffered_as_nv12() {
    let stored = process_linux_frame(bgra(2, 2, [255, 255, 255, 255]));
    assert_eq!(stored.len(), 1);
    assert_eq!(stored[0].pixel_format, PixelFormat::Nv12);
    assert_eq!(stored[0].data, vec![235, 235, 235, 235, 128, 128]);
    assert_eq!(stored[0].stride, 2);
    let nv12 = CapturedFrame {
        data: vec![16; 6],
        width: 2,
        height: 2,
        stride: 2,
        pixel_format: PixelFormat::Nv12,
        timestamp: 3,
    };
    let kept = process_linux_frame(nv12);
    assert_eq!(kept[0].data, vec![16; 6]);
    assert!(kept[0].is_sync);
}

#[test]
fn encoder_output_becomes_h264_frames() {
    let packets = vec![
        EncodedPacket { data: vec![0, 0, 0, 1, 0x65], is_sync: true, timestamp: 0 },
        EncodedPacket { data: vec![0, 0, 0, 1, 0x41], is_sync: false, timestamp: 0 },
    ];
    let frames = frames_from_packets(packets, 1280, 720, 99);
    assert_eq!(frames.len(), 2);
    assert!(frames[0].is_sync && !frames[1].is_sync);
    assert_eq!(frames[1].timestamp, 99);
    assert_eq!(frames[0].pixel_format, PixelFormat::H264);

    let frame = bgra(2, 2, [0; 4]);
    let out = encoded_frame_outcome(
        frame.clone(),
        Some(Ok(vec![EncodedPacket { data: vec![9], is_sync: true, timestamp: 0 }])),
        vec![],
        vec![],
        Some((vec![0x67], vec![0x68])),
    );
    assert_eq!(out.sps, vec![0x67]);
    assert_eq!(out.frames.len(), 1);
    let kept = encoded_frame_outcome(frame.clone(), Some(Ok(vec![])), vec![1], vec![2], Some((vec![3], vec![4])));
    assert_eq!(kept.sps, vec![1]);
    let raw = encoded_frame_outcome(frame, Some(Err(())), vec![1], vec![2], None);
    assert_eq!(raw.frames.len(), 1);
    assert_eq!(raw.frames[0].pixel_format, PixelFormat::Bgra);
}

#[test]
fn mp4_plan_uses_frame_numbers_as_times() {
    let config = EncoderConfig {
        codec: Codec::H264,
        bitrate_kbps: 8000,
        fps: 60,
        keyframe_interval: 60,
        target_width: 640,
        target_height: 360,
        audio: None,
    };
    let frames = vec![
        h264(vec![0, 0, 0, 2, 0x67, 0x42, 0, 0, 0, 2, 0x68, 0xCE, 0, 0, 0, 1, 0x65], 0, true),
        h264(vec![0, 0, 0, 1, 0x41], 1, false),
    ];
    let plan = WindowsEncoder::new().mux_plan(&frames, &config).ok().unwrap();
    assert_eq!(plan.timescale, 60);
    assert_eq!((plan.width, plan.height), (640, 360));
    assert_eq!(plan.sps, vec![0x67, 0x42]);
    assert_eq!(plan.samples.len(), 2);
    assert_eq!(plan.samples[1].start_time, 1);
    assert_eq!(plan.samples[1].duration, 1);
    assert!(plan.samples[0].is_sync && !plan.samples[1].is_sync);
    assert!(WindowsEncoder::new().mux_plan(&[], &config).is_err());
}

#[test]
fn clip_saving_plans_follow_the_settings() {
    assert_eq!(save_clip_duration(15, 60), 15);
    assert_eq!(save_clip_duration(0, 60), 60);
    assert_eq!(clip_filename_at("20260708_143022"), "clip_20260708_143022.mp4");
    let name = new_clip_filename();
    assert!(name.starts_with("clip_") && name.ends_with(".mp4") && name.len() == 24);

    let frames = vec![h264(vec![0, 0, 0, 1, 0x65], SEC, true), h264(vec![0, 0, 0, 1, 0x41], 2 * SEC, false)];
    let cfg = clip_encoder_config(&frames, 6000, 60);
    assert_eq!(cfg.codec, Codec::H264);
    assert_eq!((cfg.bitrate_kbps, cfg.fps, cfg.keyframe_interval), (6000, 60, 60));
    assert_eq!((cfg.target_width, cfg.target_height), (640, 360));
    assert!(cfg.audio.is_none());

    assert_eq!(clip_audio_window(&frames, 50), Some((SEC, 2 * SEC + 20_000_000)));
    assert_eq!(clip_audio_window(&frames, 0), Some((SEC, 3 * SEC)));
    assert_eq!(clip_audio_window(&[], 60), None);
    assert_eq!(clip_audio_bitrate_kbps(160), 128);
    assert_eq!(clip_audio_bitrate_kbps(159), 96);
}

#[test]
fn only_missing_keyframes_are_retried_and_only_four_times() {
    let msg = "No H.264 keyframe is available yet. Keep recording for a moment and try again.";
    assert!(retry_for_keyframe(0, msg));
    assert!(retry_for_keyframe(3, msg));
    assert!(!retry_for_keyframe(4, msg));
    assert!(!retry_for_keyframe(0, "Encoding failed"));
}

#[test]
fn clip_thumbnails_prefer_the_preview_frame() {
    let preview = bgra(16, 8, [0, 0, 255, 255]);
    let raw = StoredFrame::from_captured(bgra(8, 8, [1, 2, 3, 255]));
    let frames = vec![h264(vec![0, 0, 0, 1, 0x65], 0, true), raw];
    let from_preview = clip_thumbnail(Some(&preview), &frames).unwrap();
    assert_eq!(from_preview, thumbnail_jpeg(&preview).unwrap());
    let encoded = CapturedFrame { pixel_format: PixelFormat::H264, ..bgra(2, 2, [0; 4]) };
    let fallback = clip_thumbnail(Some(&encoded), &frames).unwrap();
    assert_eq!(fallback, thumbnail_from_frames(&frames).unwrap());
    assert_eq!(
        clip_thumbnail(None, &frames[..1]).unwrap_err(),
        "No NV12 or BGRA frame in clip data for thumbnail generation"
    );
}
