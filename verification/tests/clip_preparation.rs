use prism::buffer::ring::StoredFrame;
use prism::capture::PixelFormat;
use prism::commands::recording::{frame_is_h264_sync, prepare_h264_clip_frames, thumbnail_dimensions};

fn frame(pixel_format: PixelFormat, is_sync: bool, data: Vec<u8>) -> StoredFrame {
    StoredFrame {
        data,
        width: 1920,
        height: 1080,
        stride: 0,
        pixel_format,
        timestamp: 0,
        is_sync,
    }
}

#[test]
fn clip_preparation_attaches_parameters_to_first_h264_sync_frame() {
    let sps = [0, 0, 0, 2, 0x67, 0x42];
    let pps = [0, 0, 0, 2, 0x68, 0xCE];
    let sync_sample = vec![0, 0, 0, 2, 0x65, 0x88];
    let next_sample = vec![0, 0, 0, 2, 0x41, 0x9A];
    let frames = vec![
        frame(PixelFormat::Nv12, true, vec![0; 8]),
        frame(PixelFormat::H264, false, next_sample.clone()),
        frame(PixelFormat::H264, true, sync_sample.clone()),
        frame(PixelFormat::H264, false, next_sample.clone()),
    ];

    let prepared = prepare_h264_clip_frames(frames, &sps, &pps).unwrap();

    assert_eq!(prepared.len(), 2);
    assert!(prepared[0].is_sync);
    let expected = [sps.as_slice(), pps.as_slice(), sync_sample.as_slice()].concat();
    assert_eq!(prepared[0].data.as_slice(), expected);
    assert_eq!(prepared[1].data.as_slice(), next_sample);
}

#[test]
fn clip_preparation_requires_an_h264_sync_frame() {
    let frames = vec![
        frame(PixelFormat::Nv12, true, vec![0; 8]),
        frame(PixelFormat::H264, false, vec![0, 0, 0, 2, 0x41, 0x9A]),
    ];

    let error = prepare_h264_clip_frames(frames, &[], &[]).unwrap_err();

    assert!(error.contains("keyframe"));
}

#[test]
fn clip_preparation_detects_keyframes_by_idr_content_when_flag_missing() {
    let idr_sample = vec![0, 0, 0, 3, 0x65, 0x88, 0x84];
    let next_sample = vec![0, 0, 0, 2, 0x41, 0x9A];
    let frames = vec![
        frame(PixelFormat::H264, false, next_sample.clone()),
        frame(PixelFormat::H264, false, idr_sample.clone()),
        frame(PixelFormat::H264, false, next_sample.clone()),
    ];

    let prepared = prepare_h264_clip_frames(frames, &[], &[]).unwrap();

    assert_eq!(prepared.len(), 2);
    assert!(prepared[0].is_sync, "content-detected keyframe must be flagged sync");
    assert_eq!(prepared[0].data.as_slice(), idr_sample);
    assert_eq!(prepared[1].data.as_slice(), next_sample);
}

#[test]
fn clip_preparation_reports_encoder_unavailable_when_only_raw_frames() {
    let frames = vec![
        frame(PixelFormat::Nv12, true, vec![0; 8]),
        frame(PixelFormat::Nv12, true, vec![0; 8]),
    ];

    let error = prepare_h264_clip_frames(frames, &[], &[]).unwrap_err();

    assert!(error.contains("keyframe"));
    assert!(error.contains("raw fallback"));
}

#[test]
fn clip_preparation_drops_raw_frames_after_the_sync_frame() {
    let frames = vec![
        frame(PixelFormat::H264, true, vec![0, 0, 0, 1, 0x65]),
        frame(PixelFormat::Nv12, true, vec![7; 4]),
        frame(PixelFormat::H264, false, vec![0, 0, 0, 1, 0x41]),
    ];
    let prepared = prepare_h264_clip_frames(frames, &[1], &[]).unwrap();
    assert_eq!(prepared.len(), 2);
    // Only one parameter set cached: nothing is prepended.
    assert_eq!(prepared[0].data, vec![0, 0, 0, 1, 0x65]);
}

#[test]
fn sps_in_packet_counts_as_sync() {
    assert!(frame_is_h264_sync(&frame(PixelFormat::H264, false, vec![0, 0, 0, 1, 0x67])));
    assert!(!frame_is_h264_sync(&frame(PixelFormat::Nv12, true, vec![0, 0, 0, 1, 0x67])));
    assert!(!frame_is_h264_sync(&frame(PixelFormat::H264, false, vec![0, 0, 0, 0, 0x65])));
}

#[test]
fn thumbnail_dimensions_preserve_720p_landscape() {
    assert_eq!(thumbnail_dimensions(1920, 1080), (1280, 720));
}

#[test]
fn thumbnail_dimensions_fit_tall_sources() {
    assert_eq!(thumbnail_dimensions(1080, 1920), (405, 720));
}

#[test]
fn thumbnail_dimensions_keep_small_and_empty_frames() {
    assert_eq!(thumbnail_dimensions(640, 480), (640, 480));
    assert_eq!(thumbnail_dimensions(0, 480), (1, 1));
    assert_eq!(thumbnail_dimensions(3000, 1), (1280, 1));
}
