use prism::buffer::ring::StoredFrame;
use prism::capture::{bgra_to_nv12, CapturedFrame, PixelFormat};
use prism::encoder::macos::resize_bgra_frame;
use prism::encoder::windows::mf_encoder::EncodedPacket;
use prism::recording::macos::{
    macos_encoded_outcome, macos_encoder_dims, macos_frame_is_convertible, macos_frame_nv12,
};

fn bgra_frame(width: u32, height: u32, stride: u32, data: Vec<u8>) -> CapturedFrame {
    CapturedFrame { data, width, height, stride, pixel_format: PixelFormat::Bgra, timestamp: 42 }
}

fn packet(data: Vec<u8>, is_sync: bool) -> EncodedPacket {
    EncodedPacket { data, is_sync, timestamp: 42 }
}

fn frame_data(frames: &[StoredFrame]) -> Vec<(Vec<u8>, u32, u32, u32, PixelFormat, u64, bool)> {
    frames
        .iter()
        .map(|f| (f.data.clone(), f.width, f.height, f.stride, f.pixel_format, f.timestamp, f.is_sync))
        .collect()
}

#[test]
fn resize_to_the_same_size_keeps_the_pixels_and_drops_row_padding() {
    // 2 × 2 BGRA with 4 bytes of padding after each row.
    let data = vec![
        1, 2, 3, 4, 5, 6, 7, 8, 0, 0, 0, 0, //
        9, 10, 11, 12, 13, 14, 15, 16, 0, 0, 0, 0,
    ];
    let out = resize_bgra_frame(&data, 2, 2, 2, 2, 12).ok().unwrap();
    assert_eq!(out, vec![1, 2, 3, 4, 5, 6, 7, 8, 9, 10, 11, 12, 13, 14, 15, 16]);
}

#[test]
fn resize_of_a_single_pixel_fills_the_target() {
    let out = resize_bgra_frame(&[10, 20, 30, 255], 1, 1, 3, 2, 4).ok().unwrap();
    assert_eq!(out, [10u8, 20, 30, 255].repeat(6));
}

#[test]
fn same_size_bgra_capture_is_converted_directly() {
    let data = [40u8, 80, 120, 255].repeat(4);
    let frame = bgra_frame(2, 2, 8, data.clone());
    let (nv12, w, h) = macos_frame_nv12(&frame, 2, 2);
    assert_eq!((w, h), (2, 2));
    assert_eq!(nv12, bgra_to_nv12(&data, 2, 2, 8));
}

#[test]
fn other_size_bgra_capture_is_scaled_to_the_target() {
    let frame = bgra_frame(1, 1, 4, vec![40, 80, 120, 255]);
    let (nv12, w, h) = macos_frame_nv12(&frame, 4, 2);
    assert_eq!((w, h), (4, 2));
    assert_eq!(nv12, bgra_to_nv12(&[40u8, 80, 120, 255].repeat(8), 4, 2, 16));
    // A zero target side counts as 1.
    let frame = bgra_frame(2, 2, 8, [40u8, 80, 120, 255].repeat(4));
    let (nv12, w, h) = macos_frame_nv12(&frame, 0, 0);
    assert_eq!((w, h), (1, 1));
    assert_eq!(nv12.len(), 3);
}

#[test]
fn non_bgra_capture_passes_through() {
    let frame = CapturedFrame {
        data: vec![1, 2, 3, 4, 5, 6],
        width: 2,
        height: 2,
        stride: 2,
        pixel_format: PixelFormat::Nv12,
        timestamp: 1,
    };
    assert_eq!(macos_frame_nv12(&frame, 8, 8), (vec![1, 2, 3, 4, 5, 6], 2, 2));
}

#[test]
fn convertibility_follows_the_data() {
    let frame = bgra_frame(2, 2, 8, vec![0; 16]);
    assert!(macos_frame_is_convertible(&frame, 4, 4));
    assert!(macos_frame_is_convertible(&frame, 2, 2));
    // Scaling reads every alpha byte; converting at the same size does not.
    let no_last_alpha = bgra_frame(2, 2, 8, vec![0; 15]);
    assert!(!macos_frame_is_convertible(&no_last_alpha, 4, 4));
    assert!(macos_frame_is_convertible(&no_last_alpha, 2, 2));
    let short = bgra_frame(2, 2, 8, vec![0; 14]);
    assert!(!macos_frame_is_convertible(&short, 2, 2));
}

#[test]
fn encoder_size_follows_native_flag() {
    assert_eq!(macos_encoder_dims(true, 1920, 1080, 1280, 720), (1920, 1080));
    assert_eq!(macos_encoder_dims(false, 1920, 1080, 1280, 720), (1280, 720));
    assert_eq!(macos_encoder_dims(false, 1920, 1080, 0, 0), (1, 1));
}

#[test]
fn without_packets_the_nv12_picture_is_buffered() {
    let raw = (vec![9u8, 8, 7], 2u32, 1u32, 2u32, PixelFormat::Nv12, 42u64, true);
    for encoded in [None, Some(Err(())), Some(Ok(vec![]))] {
        let out = macos_encoded_outcome(
            vec![9, 8, 7],
            2,
            1,
            42,
            encoded,
            vec![],
            vec![],
            Some((vec![0x67], vec![0x68])),
        );
        assert_eq!(frame_data(&out.frames), vec![raw.clone()]);
        assert!(out.sps.is_empty() && out.pps.is_empty());
    }
}

#[test]
fn packets_become_h264_frames_and_parameter_sets_are_taken_once() {
    let out = macos_encoded_outcome(
        vec![9, 8, 7],
        640,
        360,
        42,
        Some(Ok(vec![packet(vec![1, 2], true), packet(vec![3], false)])),
        vec![],
        vec![],
        Some((vec![0x67, 1], vec![0x68, 2])),
    );
    assert_eq!(
        frame_data(&out.frames),
        vec![
            (vec![1, 2], 640, 360, 0, PixelFormat::H264, 42, true),
            (vec![3], 640, 360, 0, PixelFormat::H264, 42, false),
        ]
    );
    assert_eq!((out.sps, out.pps), (vec![0x67, 1], vec![0x68, 2]));

    let kept = macos_encoded_outcome(
        vec![],
        640,
        360,
        42,
        Some(Ok(vec![packet(vec![5], true)])),
        vec![0x67, 9],
        vec![0x68, 9],
        Some((vec![0x67, 1], vec![0x68, 2])),
    );
    assert_eq!((kept.sps, kept.pps), (vec![0x67, 9], vec![0x68, 9]));
    let not_ready = macos_encoded_outcome(
        vec![],
        640,
        360,
        42,
        Some(Ok(vec![packet(vec![5], true)])),
        vec![],
        vec![],
        None,
    );
    assert!(not_ready.sps.is_empty() && not_ready.pps.is_empty());
}
