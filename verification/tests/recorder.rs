use prism::buffer::ring::StoredFrame;
use prism::capture::{CaptureBackend, CaptureConfig, CaptureError, CaptureTarget, CapturedFrame, PixelFormat};
use prism::recording::Recorder;
use prism::settings::config::AppSettings;

const SEC: u64 = 1_000_000_000;

struct FakeBackend {
    fail_start: bool,
    fail_stop: bool,
    started_with: Option<u32>,
    stops: u32,
}

impl FakeBackend {
    fn new() -> Self {
        FakeBackend { fail_start: false, fail_stop: false, started_with: None, stops: 0 }
    }
}

impl CaptureBackend for FakeBackend {
    fn start(&mut self, config: CaptureConfig) -> Result<(), CaptureError> {
        if self.fail_start {
            return Err(CaptureError::StartFailed("no display".to_string()));
        }
        self.started_with = Some(config.fps);
        Ok(())
    }

    fn stop(&mut self) -> Result<(), CaptureError> {
        self.stops += 1;
        if self.fail_stop {
            Err(CaptureError::StreamError("busy".to_string()))
        } else {
            Ok(())
        }
    }

    fn read_latest_frame(&mut self) -> Option<CapturedFrame> {
        None
    }

    fn is_active(&self) -> bool {
        self.started_with.is_some()
    }
}

fn settings() -> AppSettings {
    let mut s = AppSettings::default();
    s.recording.output_directory = "/clips".to_string();
    s.recording.buffer_duration_secs = 10;
    s.recording.fps = 30;
    s
}

fn nv12(timestamp: u64) -> CapturedFrame {
    CapturedFrame {
        data: vec![16; 6],
        width: 2,
        height: 2,
        stride: 2,
        pixel_format: PixelFormat::Nv12,
        timestamp,
    }
}

fn bgra(timestamp: u64) -> CapturedFrame {
    CapturedFrame {
        data: vec![0, 0, 255, 255].repeat(4),
        width: 2,
        height: 2,
        stride: 8,
        pixel_format: PixelFormat::Bgra,
        timestamp,
    }
}

#[test]
fn a_new_recorder_is_stopped_and_sized_from_settings() {
    let r = Recorder::new(&settings(), false, 144, CaptureTarget::Display);
    assert!(!r.is_recording());
    assert_eq!(r.cached_fps(), 30);
    assert_eq!(r.buffer_duration_secs(), 10);
    assert_eq!(r.frame_count(), 0);
    assert_eq!(r.total_frames_received(), 0);
    assert!(!r.preview_available());
    assert_eq!(r.recording_elapsed_nanos(5 * SEC), 0);
    assert_eq!(r.poll_interval_nanos(), SEC / 30);
    let follow = Recorder::new(&settings(), true, 144, CaptureTarget::Display);
    assert_eq!(follow.cached_fps(), 144);
    assert_eq!(follow.poll_interval_nanos(), SEC / 144);
}

#[test]
fn starting_twice_starts_the_backend_once() {
    let mut r = Recorder::new(&settings(), false, 0, CaptureTarget::Display);
    let mut backend = FakeBackend::new();
    assert!(r.start_recording(&mut backend).is_ok());
    assert!(r.is_recording());
    assert_eq!(backend.started_with, Some(30));
    backend.started_with = None;
    assert!(r.start_recording(&mut backend).is_ok());
    assert_eq!(backend.started_with, None);
}

#[test]
fn a_failed_start_leaves_the_recorder_stopped() {
    let mut r = Recorder::new(&settings(), false, 0, CaptureTarget::Display);
    let mut backend = FakeBackend::new();
    backend.fail_start = true;
    let err = r.start_recording(&mut backend).unwrap_err();
    assert_eq!(err, "Failed to start capture: Failed to start capture stream: no display");
    assert!(!r.is_recording());
}

#[test]
fn polling_buffers_frames_and_stopping_clears_the_session() {
    let mut r = Recorder::new(&settings(), false, 0, CaptureTarget::Display);
    let mut backend = FakeBackend::new();
    r.start_recording(&mut backend).unwrap();
    assert!(r.start_polling());
    assert!(!r.start_polling());
    assert_eq!(r.poll_and_push(None, SEC), 0);
    assert_eq!(r.poll_and_push(Some(nv12(SEC)), SEC), 1);
    assert_eq!(r.poll_and_push(Some(bgra(3 * SEC)), 3 * SEC), 1);
    assert_eq!(r.frame_count(), 2);
    assert_eq!(r.total_frames_received(), 2);
    assert!(r.preview_available());
    assert_eq!(r.recording_elapsed_nanos(4 * SEC), 3 * SEC);
    assert_eq!(r.buffer_time_nanos(), 2 * SEC);
    assert_eq!(r.available_clip_nanos(), 2 * SEC);

    let clip = r.extract_clip_data(0, 3 * SEC).ok().unwrap();
    assert_eq!(clip.frames.len(), 2);
    assert_eq!(clip.output_dir, "/clips");
    assert_eq!(clip.frames[1].pixel_format, PixelFormat::Nv12);
    assert_eq!(clip.frames[1].data.len(), 6);
    assert_eq!(clip.preview_frame.unwrap().pixel_format, PixelFormat::Bgra);

    assert!(r.stop_recording(&mut backend).is_ok());
    assert!(!r.is_recording());
    assert_eq!(r.frame_count(), 0);
    assert_eq!(r.total_frames_received(), 0);
    assert_eq!(r.recording_elapsed_nanos(9 * SEC), 0);
    assert!(!r.preview_available());
    assert!(r.start_polling());
    assert_eq!(r.extract_clip_data(0, 9 * SEC).err().unwrap(), "No frames available to clip");
}

#[test]
fn a_failed_stop_keeps_the_buffer() {
    let mut r = Recorder::new(&settings(), false, 0, CaptureTarget::Display);
    let mut backend = FakeBackend::new();
    r.start_recording(&mut backend).unwrap();
    r.poll_and_push(Some(nv12(SEC)), SEC);
    backend.fail_stop = true;
    let err = r.stop_recording(&mut backend).unwrap_err();
    assert_eq!(err, "Failed to stop capture: Capture stream error: busy");
    assert!(!r.is_recording());
    assert_eq!(r.total_frames_received(), 0);
    assert_eq!(r.frame_count(), 1);
}

#[test]
fn available_clip_time_is_capped_by_the_buffer_duration() {
    let mut r = Recorder::new(&settings(), false, 0, CaptureTarget::Display);
    r.poll_and_push(Some(nv12(0)), 0);
    r.poll_and_push(Some(nv12(25 * SEC)), 25 * SEC);
    assert_eq!(r.buffer_time_nanos(), 25 * SEC);
    assert_eq!(r.available_clip_nanos(), 10 * SEC);
}

#[test]
fn shortening_the_buffer_keeps_the_newest_frames() {
    let mut s = settings();
    s.recording.buffer_duration_secs = 4;
    s.recording.fps = 30;
    let mut r = Recorder::new(&s, false, 0, CaptureTarget::Display);
    for i in 0..100u64 {
        r.poll_and_push(Some(nv12(i)), i);
    }
    assert_eq!(r.frame_count(), 100);
    r.set_buffer_duration_secs(1);
    assert_eq!(r.buffer_duration_secs(), 1);
    assert_eq!(r.frame_count(), 60);
    let clip = r.extract_clip_data(0, 100).ok().unwrap();
    assert_eq!(clip.frames[0].timestamp, 40);
    assert_eq!(clip.frames[59].timestamp, 99);
    r.clear_buffer();
    assert_eq!(r.frame_count(), 0);
}

#[test]
fn reconfiguring_rebuilds_the_buffer_and_forgets_parameter_sets() {
    let mut r = Recorder::new(&settings(), false, 0, CaptureTarget::Display);
    r.begin_frame(&nv12(SEC), SEC);
    r.finish_frame(vec![0x67], vec![0x68], vec![StoredFrame::from_captured(nv12(SEC))]);
    let clip = r.extract_clip_data(0, SEC).ok().unwrap();
    assert_eq!((clip.sps, clip.pps), (vec![0x67], vec![0x68]));
    r.finish_frame(vec![], vec![], vec![]);
    let kept = r.extract_clip_data(0, SEC).ok().unwrap();
    assert_eq!((kept.sps, kept.pps), (vec![0x67], vec![0x68]));

    let mut s = settings();
    s.recording.fps = 60;
    s.recording.buffer_duration_secs = 20;
    r.reconfigure(&s, false, 0);
    assert_eq!(r.cached_fps(), 60);
    assert_eq!(r.buffer_duration_secs(), 20);
    assert_eq!(r.frame_count(), 0);
    r.poll_and_push(Some(nv12(2 * SEC)), 2 * SEC);
    let clip = r.extract_clip_data(0, 2 * SEC).ok().unwrap();
    assert!(clip.sps.is_empty() && clip.pps.is_empty());
}

#[test]
fn the_preview_follows_the_latest_frame() {
    let mut r = Recorder::new(&settings(), false, 0, CaptureTarget::Display);
    assert!(r.get_preview_frame().is_none());
    r.poll_and_push(Some(bgra(SEC)), SEC);
    let url = r.get_preview_frame().unwrap();
    assert!(url.starts_with("data:image/jpeg;base64,"));
}

#[test]
fn capture_request_carries_the_configured_rate_target_and_cursor() {
    let mut r = Recorder::new(&settings(), false, 0, CaptureTarget::Window(7));
    let c = r.capture_request();
    assert_eq!(c.fps, 30);
    assert!(c.capture_cursor);
    assert!(matches!(c.target, CaptureTarget::Window(7)));
    r.reconfigure_target(CaptureTarget::Application("com.example.game".to_string()));
    assert!(matches!(r.capture_request().target, CaptureTarget::Application(ref b) if b == "com.example.game"));
}

#[test]
fn keyframe_requests_are_handed_out_once() {
    let mut r = Recorder::new(&settings(), false, 0, CaptureTarget::Display);
    assert!(!r.take_keyframe_request());
    r.request_keyframe();
    assert!(r.take_keyframe_request());
    assert!(!r.take_keyframe_request());
}

#[test]
fn capture_start_outcome_decides_the_state() {
    let mut r = Recorder::new(&settings(), false, 0, CaptureTarget::Display);
    let err = r.capture_started(Err(CaptureError::StartFailed("no display".to_string())));
    assert_eq!(
        err,
        Err(format!("Failed to start capture: {}", CaptureError::StartFailed("no display".to_string()).message()))
    );
    assert!(!r.is_recording());
    assert_eq!(r.capture_started(Ok(())), Ok(()));
    assert!(r.is_recording());
}
