use prism::buffer::ring::{RingBuffer, StoredFrame};
use prism::capture::{CapturedFrame, PixelFormat};

const SEC: u64 = 1_000_000_000;
const NOW: u64 = 1_000 * SEC;

fn make_frame(t: u64) -> StoredFrame {
    StoredFrame::from_captured(CapturedFrame {
        data: vec![0u8; 100],
        width: 10,
        height: 10,
        stride: 10,
        pixel_format: PixelFormat::Bgra,
        timestamp: t,
    })
}

#[test]
fn test_push_and_count() {
    let mut buf = RingBuffer::new(5);
    for i in 0..3 {
        buf.push(make_frame(NOW + i * SEC));
    }
    assert_eq!(buf.len(), 3);
}

#[test]
fn test_wraparound() {
    let mut buf = RingBuffer::new(3);
    for i in 0..5u64 {
        buf.push(make_frame(NOW + i * SEC));
    }
    assert_eq!(buf.len(), 3);
    assert_eq!(buf.all_frames().len(), 3);
}

#[test]
fn test_clip_since() {
    let mut buf = RingBuffer::new(10);
    for i in 0..5 {
        buf.push(make_frame(NOW + i * 2 * SEC));
    }
    let clip_time = NOW + 8 * SEC;
    let clipped = buf.clip_since(3 * SEC, clip_time);
    assert_eq!(clipped.len(), 2);
}

#[test]
fn test_byte_budget_eviction() {
    // Budget of 250 bytes with 100-byte frames → at most 2 frames
    let mut buf = RingBuffer::with_byte_budget(10, 250);
    buf.push(make_frame(NOW));
    assert_eq!(buf.len(), 1);
    buf.push(make_frame(NOW + SEC));
    assert_eq!(buf.len(), 2);
    assert_eq!(buf.total_bytes(), 200);
    // Third frame exceeds 250 → oldest evicted
    buf.push(make_frame(NOW + 2 * SEC));
    assert_eq!(buf.len(), 2);
    assert_eq!(buf.total_bytes(), 200);
}

#[test]
fn test_frame_capacity_still_applies() {
    let mut buf = RingBuffer::with_byte_budget(2, usize::MAX);
    for i in 0..3 {
        buf.push(make_frame(NOW + i * SEC));
    }
    assert_eq!(buf.len(), 2);
}

fn make_h264_frame(sps: Option<&[u8]>, pps: Option<&[u8]>) -> StoredFrame {
    let mut data = Vec::new();
    if let Some(s) = sps {
        data.extend_from_slice(&(s.len() as u32).to_be_bytes());
        data.extend_from_slice(s);
    }
    if let Some(p) = pps {
        data.extend_from_slice(&(p.len() as u32).to_be_bytes());
        data.extend_from_slice(p);
    }
    // Add a dummy IDR slice
    let idr = [0x65u8, 0x88, 0x01];
    data.extend_from_slice(&(idr.len() as u32).to_be_bytes());
    data.extend_from_slice(&idr);

    StoredFrame {
        data,
        width: 1920,
        height: 1080,
        stride: 0,
        pixel_format: PixelFormat::H264,
        timestamp: NOW,
        is_sync: sps.is_some(),
    }
}

#[test]
fn test_find_sps_pps_anywhere_found() {
    let mut buf = RingBuffer::with_byte_budget(10, usize::MAX);
    let sps = [0x67, 0x64, 0x00, 0x1E, 0xAC];
    let pps = [0x68, 0xEE, 0x3C, 0x80];

    buf.push(make_h264_frame(None, None));
    buf.push(make_h264_frame(Some(&sps), Some(&pps)));

    let result = buf.find_sps_pps_anywhere();
    assert!(result.is_some(), "should find SPS/PPS in H.264 frames");
    let (found_sps, found_pps) = result.unwrap();
    assert_eq!(found_sps.as_slice(), sps);
    assert_eq!(found_pps.as_slice(), pps);
}

#[test]
fn test_find_sps_pps_anywhere_none_when_no_h264() {
    let mut buf = RingBuffer::new(10);
    buf.push(make_frame(NOW));
    buf.push(make_frame(NOW + SEC));

    assert!(buf.find_sps_pps_anywhere().is_none());
}

#[test]
fn test_find_sps_pps_anywhere_only_sps() {
    let mut buf = RingBuffer::with_byte_budget(10, usize::MAX);
    let sps = [0x67, 0x64, 0x00, 0x1E, 0xAC];

    buf.push(make_h264_frame(Some(&sps), None));

    assert!(buf.find_sps_pps_anywhere().is_none());
}

#[test]
fn test_find_sps_pps_anywhere_spread() {
    let mut buf = RingBuffer::with_byte_budget(10, usize::MAX);
    let sps = [0x67, 0x64, 0x00, 0x1E, 0xAC];
    let pps = [0x68, 0xEE, 0x3C, 0x80];

    buf.push(make_h264_frame(Some(&sps), None));
    buf.push(make_h264_frame(None, Some(&pps)));

    assert!(
        buf.find_sps_pps_anywhere().is_none(),
        "SPS/PPS in different frames should not match"
    );
}

#[test]
fn ring_keeps_newest_frames_in_order() {
    let mut buf = RingBuffer::new(3);
    for i in 0..5u64 {
        buf.push(make_frame(NOW + i * SEC));
    }
    let ts: Vec<u64> = buf.all_frames().iter().map(|f| f.timestamp).collect();
    assert_eq!(ts, vec![NOW + 2 * SEC, NOW + 3 * SEC, NOW + 4 * SEC]);
}

#[test]
fn oversized_frame_is_kept_alone() {
    let mut buf = RingBuffer::with_byte_budget(10, 150);
    buf.push(make_frame(NOW));
    let mut big = make_frame(NOW + SEC);
    big.data = vec![1u8; 400];
    buf.push(big);
    assert_eq!(buf.len(), 1);
    assert_eq!(buf.total_bytes(), 400);
}

#[test]
fn clip_window_larger_than_clock_keeps_everything_after_now() {
    let mut buf = RingBuffer::new(10);
    buf.push(make_frame(5));
    buf.push(make_frame(10));
    // Window reaches before time zero: the cutoff is `now` itself.
    assert_eq!(buf.clip_since(100, 10).len(), 1);
}

#[test]
fn clear_empties_and_resets_bytes() {
    let mut buf = RingBuffer::with_byte_budget(4, 1000);
    buf.push(make_frame(NOW));
    buf.clear();
    assert!(buf.is_empty());
    assert_eq!(buf.total_bytes(), 0);
    assert_eq!(buf.capacity(), 4);
}
