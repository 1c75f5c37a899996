use prism::audio::{AudioCapturer, AudioRingBuffer, BYTES_PER_FRAME, CHANNELS, SAMPLE_RATE};

const MS: u64 = 1_000_000;
const NOW: u64 = 5_000_000_000;

#[test]
fn ring_evicts_oldest_bytes() {
    let mut ring = AudioRingBuffer::new(10 * BYTES_PER_FRAME, SAMPLE_RATE, CHANNELS);
    ring.push(NOW, vec![0u8; 8 * BYTES_PER_FRAME]);
    ring.push(NOW + MS, vec![0u8; 8 * BYTES_PER_FRAME]);
    assert_eq!(ring.len(), 1, "oldest block should be evicted");
}

#[test]
fn extract_returns_only_overlapping_window() {
    let mut ring = AudioRingBuffer::new(usize::MAX, SAMPLE_RATE, CHANNELS);
    let one_sec = vec![0u8; 48_000 * BYTES_PER_FRAME];
    ring.push(NOW, one_sec);

    // 500 ms window starting at +250 ms.
    let start = NOW + 250 * MS;
    let end = start + 500 * MS;
    let out = ring.extract(start, end).unwrap();
    let expected_frames = (48_000.0_f64 * 0.5).round() as usize;
    assert_eq!(out.len(), expected_frames * BYTES_PER_FRAME);
}

#[test]
fn extract_none_outside_window() {
    let mut ring = AudioRingBuffer::new(usize::MAX, SAMPLE_RATE, CHANNELS);
    ring.push(NOW, vec![0u8; 48_000 * BYTES_PER_FRAME]);
    assert!(ring.extract(NOW + 5_000 * MS, NOW + 6_000 * MS).is_none());
}

#[test]
fn extract_stitches_adjacent_blocks() {
    let mut ring = AudioRingBuffer::new(usize::MAX, SAMPLE_RATE, CHANNELS);
    let half = vec![0u8; 24_000 * BYTES_PER_FRAME]; // 500 ms
    ring.push(NOW, half.clone());
    ring.push(NOW + 500 * MS, half);

    let out = ring.extract(NOW, NOW + 1_000 * MS).unwrap();
    assert_eq!(out.len(), 48_000 * BYTES_PER_FRAME);
}

#[test]
fn extract_takes_the_bytes_at_the_window_offset() {
    let mut ring = AudioRingBuffer::new(usize::MAX, 1_000, 1);
    // 10 frames of 2 bytes at 1 kHz: 10 ms, frame i holds bytes [i, i].
    let data: Vec<u8> = (0..10u8).flat_map(|i| [i, i]).collect();
    ring.push(NOW, data);
    let out = ring.extract(NOW + 2 * MS, NOW + 5 * MS).unwrap();
    assert_eq!(out, vec![2, 2, 3, 3, 4, 4]);
}

#[test]
fn empty_or_reversed_window_is_none() {
    let mut ring = AudioRingBuffer::new(usize::MAX, SAMPLE_RATE, CHANNELS);
    ring.push(NOW, vec![1u8; 400]);
    assert!(ring.extract(NOW + MS, NOW + MS).is_none());
    assert!(ring.extract(NOW + 2 * MS, NOW + MS).is_none());
    ring.clear();
    assert!(ring.is_empty());
    assert!(ring.extract(NOW, NOW + MS).is_none());
}

#[test]
fn the_capturer_sizes_its_buffer_and_starts_once() {
    assert_eq!(AudioCapturer::byte_budget(60), 64 * 192_000);
    assert_eq!(AudioCapturer::byte_budget(0), 4 * 192_000);
    assert_eq!(AudioCapturer::byte_budget(5000), 268_435_456);
    assert_eq!(AudioCapturer::byte_budget(u32::MAX), 268_435_456);

    let mut cap = AudioCapturer::new(48_000, 2);
    assert!(!cap.is_running());
    assert_eq!((cap.sample_rate(), cap.channels()), (48_000, 2));
    assert!(cap.start(30));
    assert!(cap.is_running());
    assert!(!cap.start(30));
    cap.push(0, vec![1; 192_000]);
    cap.push(1_000_000_000, vec![2; 192_000]);
    assert_eq!(cap.time_span_nanos(), 1_000_000_000);
    let window = cap.extract(500_000_000, 1_500_000_000).unwrap();
    assert_eq!(window.len(), 192_000);
    assert_eq!(window[0], 1);
    assert_eq!(window[window.len() - 1], 2);
    cap.stop();
    assert!(!cap.is_running());
    assert_eq!(cap.time_span_nanos(), 0);
    assert!(cap.extract(0, 2_000_000_000).is_none());
    assert!(cap.start(10));
}
