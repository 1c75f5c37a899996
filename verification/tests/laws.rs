use prism::audio::{AudioRingBuffer, CHANNELS, SAMPLE_RATE};
use prism::buffer::ring::{RingBuffer, StoredFrame};
use prism::buffer::{BufferConfig, BufferManager};
use prism::capture::{nv12_to_bgra, nv12_to_rgb, PixelFormat};
use prism::clock::{chrono_now_formatted, format_compact_timestamp};
use prism::commands::recording::new_clip_filename;
use prism::commands::library::parse_clip_timestamp;
use prism::encoder::generate_sps_pps;
use prism::encoder::windows::mf_encoder::annex_b_to_avcc;

fn sized(bytes: usize, t: u64) -> StoredFrame {
    StoredFrame {
        data: vec![7u8; bytes],
        width: 1,
        height: 1,
        stride: 1,
        pixel_format: PixelFormat::H264,
        timestamp: t,
        is_sync: true,
    }
}

fn timestamps(frames: &[StoredFrame]) -> Vec<u64> {
    frames.iter().map(|f| f.timestamp).collect()
}

#[test]
fn ring_push_keeps_the_longest_newest_run_that_fits() {
    // Budget 10 bytes, room for 3 frames: 4 + 4 fit, 4 + 4 + 4 does not.
    let mut ring = RingBuffer::with_byte_budget(3, 10);
    ring.push(sized(4, 1));
    ring.push(sized(4, 2));
    ring.push(sized(4, 3));
    assert_eq!(timestamps(&ring.all_frames()), vec![2, 3]);
    assert_eq!(ring.total_bytes(), 8);
    // A small frame fits beside the two kept ones (4 + 4 + 1 <= 10) but the
    // frame limit of 3 evicts the oldest.
    ring.push(sized(1, 4));
    assert_eq!(timestamps(&ring.all_frames()), vec![2, 3, 4]);
    ring.push(sized(1, 5));
    assert_eq!(timestamps(&ring.all_frames()), vec![3, 4, 5]);
    // A frame over the whole budget is kept alone.
    ring.push(sized(11, 6));
    assert_eq!(timestamps(&ring.all_frames()), vec![6]);
}

#[test]
fn new_ring_keeps_every_frame_up_to_capacity() {
    let mut ring = RingBuffer::new(4);
    for (i, n) in [10usize, 1, 500, 3].iter().enumerate() {
        ring.push(sized(*n, i as u64));
    }
    assert_eq!(ring.len(), 4);
    assert_eq!(ring.total_bytes(), 514);
    assert_eq!(timestamps(&ring.all_frames()), vec![0, 1, 2, 3]);
}

#[test]
fn new_manager_keeps_the_newest_up_to_its_clamped_capacity() {
    // 1 s at 30 fps asks for 30 frames; the capacity is clamped up to 60.
    let mut bm = BufferManager::new(BufferConfig { max_duration_secs: 1, fps: 30 }, 1, 1);
    for i in 0..75u64 {
        bm.push_frame(sized(16, i));
        assert_eq!(bm.frame_count(), ((i + 1) as usize).min(60));
    }
    assert_eq!(timestamps(&bm.clip_all()).first(), Some(&15));
    bm.clear();
    assert_eq!(bm.frame_count(), 0);
}

#[test]
fn audio_push_keeps_the_longest_newest_run_that_fits() {
    let mut ring = AudioRingBuffer::new(10, SAMPLE_RATE, CHANNELS);
    ring.push(1, vec![0u8; 4]);
    ring.push(2, vec![0u8; 4]);
    assert_eq!(ring.len(), 2);
    ring.push(3, vec![0u8; 4]);
    assert_eq!(ring.len(), 2);
    ring.push(4, vec![0u8; 12]);
    assert_eq!(ring.len(), 1);
}

#[test]
fn annex_b_round_trips_nal_units() {
    let nals: Vec<Vec<u8>> = vec![
        vec![0x67, 0x42, 0x00, 0x1F],
        vec![0x68, 0xCE, 0x00, 0x00],
        vec![0x65, 0x00, 0x00, 0x03, 0x01, 0x88],
        vec![0x41, 0x9A, 0x00],
    ];
    let mut stream = Vec::new();
    let mut avcc = Vec::new();
    for n in &nals {
        stream.extend_from_slice(&[0, 0, 0, 1]);
        stream.extend_from_slice(n);
        avcc.extend_from_slice(&(n.len() as u32).to_be_bytes());
        avcc.extend_from_slice(n);
    }
    assert_eq!(annex_b_to_avcc(&stream), avcc);
}

#[test]
fn bgra_decode_is_the_rgb_decode_reordered() {
    let nv12 = vec![16, 80, 160, 235, 90, 240, 200, 30, 128, 128, 60, 200];
    let rgb = nv12_to_rgb(&nv12, 4, 2);
    let bgra = nv12_to_bgra(&nv12, 4, 2);
    for k in 0..8 {
        assert_eq!(&bgra[4 * k..4 * k + 4], &[rgb[3 * k + 2], rgb[3 * k + 1], rgb[3 * k], 255]);
    }
}

#[test]
fn parameter_sets_do_not_depend_on_the_frame_rate() {
    let (sps30, pps30) = generate_sps_pps(1280, 720, 30);
    let (sps144, pps144) = generate_sps_pps(1280, 720, 144);
    assert_eq!((sps30.clone(), pps30.clone()), (sps144, pps144));
    assert_eq!(u32::from_be_bytes([sps30[0], sps30[1], sps30[2], sps30[3]]) as usize + 4, sps30.len());
    assert_eq!(sps30[4] & 0x1F, 7);
    assert_eq!(pps30, vec![0, 0, 0, 4, 0x68, 0xCE, 0x38, 0x80]);
}

#[test]
fn compact_timestamps_name_clips_that_parse_back() {
    // 2024-01-01 13:45:06 UTC.
    let secs: u64 = 1_704_116_706;
    let ts = format_compact_timestamp(secs);
    assert_eq!(ts.len(), 15);
    assert_eq!(&ts[9..], "134506");
    assert_eq!(&ts[8..9], "_");
    let parsed = parse_clip_timestamp(&format!("clip_{ts}.mp4")).unwrap();
    assert!(parsed.ends_with("T13:45:06Z"));
}

#[test]
fn names_made_now_parse_back() {
    let ts = chrono_now_formatted();
    assert_eq!(ts.len(), 15);
    assert!(ts.chars().enumerate().all(|(i, c)| if i == 8 { c == '_' } else { c.is_ascii_digit() }));
    assert!(parse_clip_timestamp(&format!("clip_{ts}.mp4")).is_some());
    assert!(parse_clip_timestamp(&new_clip_filename()).is_some());
}
