use prism::buffer::ring::StoredFrame;
use prism::capture::PixelFormat;
use prism::encoder::compute_timescale;
use prism::encoder::generate_sps_pps;
use prism::encoder::macos::extract_nal_sps_pps;
use prism::encoder::windows::{param_sets_scan_in_bounds, WindowsEncoder};
use prism::encoder::codecs::EncoderConfig;
use prism::encoder::EncodeError;
use prism::encoder::windows::extract_sps_pps;
use prism::encoder::windows::mf_encoder::{
    sps_pps_from_sequence_header,
    avcc_contains_idr, capture_sps_pps_from_avcc, h264_to_avcc, nv12_packed_size,
    pack_mf_attribute_pair,
};

#[test]
fn test_generate_sps_pps_1080p() {
    let (sps, pps) = generate_sps_pps(1920, 1080, 30);

    assert!(sps.len() >= 5, "SPS should have AVCC prefix + NAL header");
    assert_eq!(sps[4] & 0x1F, 7, "SPS NAL type should be 7");
    let sps_len = u32::from_be_bytes([sps[0], sps[1], sps[2], sps[3]]) as usize;
    assert_eq!(sps_len + 4, sps.len(), "SPS AVCC length should match");

    assert!(pps.len() >= 5, "PPS should have AVCC prefix + NAL header");
    assert_eq!(pps[4] & 0x1F, 8, "PPS NAL type should be 8");
    let pps_len = u32::from_be_bytes([pps[0], pps[1], pps[2], pps[3]]) as usize;
    assert_eq!(pps_len + 4, pps.len(), "PPS AVCC length should match");
}

#[test]
fn test_generate_sps_pps_720p() {
    let (sps, pps) = generate_sps_pps(1280, 720, 60);
    assert!(!sps.is_empty());
    assert!(!pps.is_empty());
}

#[test]
fn test_generate_sps_pps_4k() {
    let (sps, pps) = generate_sps_pps(3840, 2160, 30);
    assert!(!sps.is_empty());
    assert!(!pps.is_empty());
}

#[test]
fn test_synthetic_sps_pps_contain_valid_nal_types() {
    let (sps, pps) = generate_sps_pps(1920, 1080, 30);

    assert!(sps.len() >= 5, "SPS should have AVCC prefix + NAL header");
    assert!(pps.len() >= 5, "PPS should have AVCC prefix + NAL header");

    assert!(sps.len() >= 5, "SPS should have AVCC prefix + NAL header");
    assert_eq!(sps[4] & 0x1F, 7, "SPS NAL type should be 7");

    assert!(pps.len() >= 5, "PPS should have AVCC prefix + NAL header");
    assert_eq!(pps[4] & 0x1F, 8, "PPS NAL type should be 8");
}

#[test]
fn synthetic_sps_for_1080p_has_exact_bytes() {
    // profile 66, level 40, 120x68 macroblocks, 4 lines of bottom cropping.
    let (sps, pps) = generate_sps_pps(1920, 1080, 30);
    assert_eq!(
        sps,
        vec![0, 0, 0, 10, 0x67, 0x42, 0x00, 0x28, 0xF4, 0x03, 0xC0, 0x11, 0x3F, 0x2A]
    );
    assert_eq!(pps, vec![0, 0, 0, 4, 0x68, 0xCE, 0x38, 0x80]);
}

fn avcc(nals: &[&[u8]]) -> Vec<u8> {
    let mut data = Vec::new();
    for nal in nals {
        data.extend_from_slice(&(nal.len() as u32).to_be_bytes());
        data.extend_from_slice(nal);
    }
    data
}

#[test]
fn packs_media_foundation_size_and_rate_in_api_order() {
    assert_eq!(pack_mf_attribute_pair(1920, 1080), 0x0000_0780_0000_0438);
    assert_eq!(pack_mf_attribute_pair(60, 1), 0x0000_003C_0000_0001);
}

#[test]
fn nv12_packed_size_matches_half_sized_uv_for_even_dims() {
    assert_eq!(nv12_packed_size(1920, 1080), 1920 * 1080 * 3 / 2);
    assert_eq!(nv12_packed_size(3840, 2160), 3840 * 2160 * 3 / 2);
}

#[test]
fn nv12_packed_size_handles_odd_dimensions() {
    let w = 1367u32;
    let h = 768u32;
    let packed = nv12_packed_size(w, h);
    assert_eq!(
        packed,
        (w * h) as usize + ((w / 2 + 1) * (h / 2) * 2) as usize
    );
    assert!(packed > (w * h * 3 / 2) as usize);
}

#[test]
fn preserves_avcc_samples_and_captures_parameter_sets() {
    let sps = [0x67, 0x42, 0x00, 0x1E];
    let pps = [0x68, 0xCE, 0x06, 0xE2];
    let idr = [0x65, 0x88, 0x84];
    let packet = avcc(&[&sps, &pps, &idr]);

    let normalized = h264_to_avcc(packet.clone()).unwrap();
    let mut found_sps = Vec::new();
    let mut found_pps = Vec::new();
    capture_sps_pps_from_avcc(&normalized, &mut found_sps, &mut found_pps);

    assert_eq!(normalized, packet);
    assert_eq!(found_sps, avcc(&[&sps]));
    assert_eq!(found_pps, avcc(&[&pps]));
}

#[test]
fn converts_annex_b_samples_and_captures_parameter_sets() {
    let sps = [0x67, 0x42, 0x00, 0x1E];
    let pps = [0x68, 0xCE, 0x06, 0xE2];
    let idr = [0x65, 0x88, 0x84];
    let mut annex_b = Vec::new();
    for nal in [&sps[..], &pps[..], &idr[..]] {
        annex_b.extend_from_slice(&[0, 0, 0, 1]);
        annex_b.extend_from_slice(nal);
    }

    let normalized = h264_to_avcc(annex_b).unwrap();
    let mut found_sps = Vec::new();
    let mut found_pps = Vec::new();
    capture_sps_pps_from_avcc(&normalized, &mut found_sps, &mut found_pps);

    assert_eq!(normalized, avcc(&[&sps, &pps, &idr]));
    assert_eq!(found_sps, avcc(&[&sps]));
    assert_eq!(found_pps, avcc(&[&pps]));
}

#[test]
fn rejects_malformed_h264_packets() {
    let error = h264_to_avcc(vec![0, 0, 0, 8, 0x65]).unwrap_err();

    assert!(error.message().contains("invalid H.264 packet"));
}

#[test]
fn detects_idr_keyframes_without_clean_point_metadata() {
    let p_slice = [0x41, 0x9A, 0x22];
    let idr = [0x65, 0x88, 0x84];

    assert!(!avcc_contains_idr(&avcc(&[&p_slice])));
    assert!(avcc_contains_idr(&avcc(&[&p_slice, &idr])));
}

#[test]
fn annex_b_with_three_byte_start_codes_converts() {
    let normalized = h264_to_avcc(vec![0, 0, 1, 0x67, 0x42, 0, 0, 1, 0x68, 0xCE]).unwrap();
    assert_eq!(normalized, avcc(&[&[0x67, 0x42], &[0x68, 0xCE]]));
}

#[test]
fn empty_annex_b_payload_is_rejected() {
    assert!(h264_to_avcc(vec![0, 0, 0, 1]).is_err());
}

fn make_avcc_frame(sps: &[u8], pps: &[u8], idr: &[u8]) -> StoredFrame {
    let mut data = Vec::new();
    data.extend_from_slice(&(sps.len() as u32).to_be_bytes());
    data.extend_from_slice(sps);
    data.extend_from_slice(&(pps.len() as u32).to_be_bytes());
    data.extend_from_slice(pps);
    data.extend_from_slice(&(idr.len() as u32).to_be_bytes());
    data.extend_from_slice(idr);

    StoredFrame {
        data,
        width: 1920,
        height: 1080,
        stride: 0,
        pixel_format: PixelFormat::H264,
        timestamp: 0,
        is_sync: true,
    }
}

fn make_nv12_frame() -> StoredFrame {
    let y_plane = vec![128u8; 1920 * 1080];
    let uv_plane = vec![128u8; (1920 / 2) * (1080 / 2) * 2];
    let mut data = y_plane;
    data.extend_from_slice(&uv_plane);

    StoredFrame {
        data,
        width: 1920,
        height: 1080,
        stride: 1920,
        pixel_format: PixelFormat::Nv12,
        timestamp: 0,
        is_sync: true,
    }
}

#[test]
fn test_extract_sps_pps_from_avcc() {
    let sps = vec![
        0x67, 0x64, 0x00, 0x1E, 0xAC, 0x1F, 0x47, 0x8B, 0x09, 0x80, 0x00, 0x00, 0x03, 0x00,
        0x80, 0x00, 0x00, 0x0F, 0x00, 0x3C, 0x08, 0x04, 0x38, 0x10, 0x00, 0x00, 0x00,
    ];
    let pps = vec![0x68, 0xEE, 0x3C, 0x80];
    let idr = vec![0x65, 0x88, 0x84, 0x00, 0x01, 0x23, 0x45];

    let frame = make_avcc_frame(&sps, &pps, &idr);
    let result = extract_sps_pps(&[frame]);
    assert!(result.is_ok(), "extract_sps_pps should succeed: {:?}", result.err());
    let (found_sps, found_pps) = result.unwrap();
    assert_eq!(found_sps, sps, "SPS should match");
    assert_eq!(found_pps, pps, "PPS should match");
}

#[test]
fn test_extract_sps_pps_skips_nv12() {
    let nv12_frame = make_nv12_frame();
    let result = extract_sps_pps(&[nv12_frame]);
    assert!(result.is_err(), "extract_sps_pps on NV12 should fail");
}

#[test]
fn test_extract_sps_pps_mixed_frames() {
    let sps = vec![0x67, 0x64, 0x00, 0x1E, 0xAC];
    let pps = vec![0x68, 0xEE, 0x3C, 0x80];
    let idr = vec![0x65, 0x88, 0x84, 0x00];

    let h264_frame = make_avcc_frame(&sps, &pps, &idr);
    let nv12_frame = make_nv12_frame();

    let result = extract_sps_pps(&[nv12_frame, h264_frame]);
    assert!(result.is_ok(), "should find SPS/PPS in H.264 frame after NV12");
    let (found_sps, found_pps) = result.unwrap();
    assert_eq!(found_sps, sps);
    assert_eq!(found_pps, pps);
}

#[test]
fn test_extract_sps_pps_prepended() {
    let sps = vec![0x67, 0x64, 0x00, 0x1E, 0xAC];
    let pps = vec![0x68, 0xEE, 0x3C, 0x80];

    let mut cached_sps = Vec::new();
    cached_sps.extend_from_slice(&(sps.len() as u32).to_be_bytes());
    cached_sps.extend_from_slice(&sps);

    let mut cached_pps = Vec::new();
    cached_pps.extend_from_slice(&(pps.len() as u32).to_be_bytes());
    cached_pps.extend_from_slice(&pps);

    let p_slice = vec![0x41, 0x9A, 0x22, 0x01];
    let mut frame_data = Vec::new();
    frame_data.extend_from_slice(&(p_slice.len() as u32).to_be_bytes());
    frame_data.extend_from_slice(&p_slice);

    let mut frame = StoredFrame {
        data: frame_data,
        width: 1920,
        height: 1080,
        stride: 0,
        pixel_format: PixelFormat::H264,
        timestamp: 0,
        is_sync: false,
    };

    let mut combined = cached_sps;
    combined.extend_from_slice(&cached_pps);
    combined.extend_from_slice(&frame.data);
    frame.data = combined;
    frame.is_sync = true;

    let result = extract_sps_pps(&[frame]);
    assert!(result.is_ok(), "should find prepended SPS/PPS");
    let (found_sps, found_pps) = result.unwrap();
    assert_eq!(found_sps, sps, "SPS should match");
    assert_eq!(found_pps, pps, "PPS should match");
}

fn timed(ts: u64) -> StoredFrame {
    StoredFrame {
        data: vec![],
        width: 1,
        height: 1,
        stride: 1,
        pixel_format: PixelFormat::H264,
        timestamp: ts,
        is_sync: false,
    }
}

#[test]
fn timescale_measures_capture_rate() {
    // 31 frames spanning one second: 30 intervals → 30 fps.
    let frames: Vec<StoredFrame> = (0..31).map(|i| timed(i * 1_000_000_000 / 30)).collect();
    assert_eq!(compute_timescale(&frames, 60), 30);
}

#[test]
fn timescale_falls_back_to_config() {
    assert_eq!(compute_timescale(&[timed(5)], 0), 1);
    assert_eq!(compute_timescale(&[timed(5), timed(5)], 24), 24);
}

#[test]
fn encoded_frames_carry_their_last_parameter_sets() {
    let data = avcc(&[&[0x67, 1], &[0x68, 2], &[0x67, 3], &[0x65, 4]]);
    let (sps, pps) = extract_nal_sps_pps(&data).unwrap();
    assert_eq!((sps, pps), (vec![0x67, 3], vec![0x68, 2]));
    match extract_nal_sps_pps(&avcc(&[&[0x67, 1], &[0x65, 4]])) {
        Err(EncodeError::EncodeFailed(m)) => assert_eq!(m, "SPS/PPS not found in encoded frame"),
        other => panic!("unexpected {other:?}"),
    }
}

#[test]
fn mux_plans_need_scannable_parameter_sets() {
    let good = StoredFrame {
        data: avcc(&[&[0x67, 1], &[0x68, 2], &[0x65, 4]]),
        width: 64,
        height: 32,
        stride: 0,
        pixel_format: PixelFormat::H264,
        timestamp: 0,
        is_sync: true,
    };
    let mut truncated = good.clone();
    truncated.data = vec![0, 0, 0, 0];
    assert!(param_sets_scan_in_bounds(&[good.clone()]));
    assert!(!param_sets_scan_in_bounds(&[truncated]));
    let plan = WindowsEncoder::new()
        .mux_plan(&[good.clone(), good], &EncoderConfig { target_width: 64, target_height: 32, fps: 30, ..EncoderConfig::default() })
        .ok()
        .unwrap();
    assert_eq!((plan.timescale, plan.width, plan.height), (30, 64, 32));
    assert_eq!((plan.sps.clone(), plan.pps.clone()), (vec![0x67, 1], vec![0x68, 2]));
    assert_eq!(plan.samples.len(), 2);
    assert_eq!((plan.samples[1].frame_index, plan.samples[1].start_time, plan.samples[1].duration), (1, 1, 1));
}

#[test]
fn sequence_headers_give_their_first_parameter_sets_as_avcc_units() {
    // AVC decoder configuration record: version, profile, compat, level,
    // length size, SPS count (0xE1 → 1), SPS, PPS count, PPS.
    let header = vec![1, 0x64, 0, 0x1F, 0xFF, 0xE1, 0, 3, 0x67, 0x64, 0x1F, 1, 0, 2, 0x68, 0xEE];
    let mut sps = Vec::new();
    let mut pps = Vec::new();
    assert!(sps_pps_from_sequence_header(&header, &mut sps, &mut pps).is_ok());
    assert_eq!(sps, vec![0, 0, 0, 3, 0x67, 0x64, 0x1F]);
    assert_eq!(pps, vec![0, 0, 0, 2, 0x68, 0xEE]);

    // Parameter sets already held are kept.
    let mut held = vec![9];
    let mut none = Vec::new();
    sps_pps_from_sequence_header(&header, &mut held, &mut none).unwrap();
    assert_eq!(held, vec![9]);

    // A header whose SPS list runs to the end carries no PPS.
    let mut s2 = Vec::new();
    let mut p2 = Vec::new();
    sps_pps_from_sequence_header(&header[..11], &mut s2, &mut p2).unwrap();
    assert_eq!(s2, vec![0, 0, 0, 3, 0x67, 0x64, 0x1F]);
    assert!(p2.is_empty());

    let mut s3 = Vec::new();
    let mut p3 = Vec::new();
    match sps_pps_from_sequence_header(&[], &mut s3, &mut p3) {
        Err(EncodeError::EncodeFailed(m)) => assert_eq!(m, "Empty sequence header"),
        other => panic!("unexpected {other:?}"),
    }
    match sps_pps_from_sequence_header(&[1, 2, 3], &mut s3, &mut p3) {
        Err(EncodeError::EncodeFailed(m)) => assert_eq!(m, "Sequence header too short"),
        other => panic!("unexpected {other:?}"),
    }
}
