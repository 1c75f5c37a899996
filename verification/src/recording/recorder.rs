//! The recorder: capture-session state, the shadow buffer it fills, and the
//! decisions taken when a capture starts, stops, is reconfigured or polled.
//! The capture backend and the hardware encoders run outside; the recorder is
//! handed what they produced.
use vstd::prelude::*;

use super::{
    bgra_convertible, clip_data_from, clip_frames, clip_param_sets_from, fps_for, preview_data_url,
    preview_readable, preview_url, process_linux_frame, raw_stored, same_captured, copy_captured, ClipData,
    NANOS_PER_SEC,
};
use crate::buffer::ring::{
    bytes_of, first_param_pair_in, frame_views, frames_time_span, lemma_bytes_of_push,
    lemma_bytes_of_suffix_le, newest, pushed_each, pushed_frames, FrameView, StoredFrame,
};
use crate::buffer::{frame_capacity_of, BufferConfig, BufferManager, SHADOW_BUFFER_BYTES};
use crate::capture::{capture_error_message, CaptureBackend, CaptureConfig, CaptureError, CaptureTarget, CapturedFrame};
use crate::commands::library::resolve_output_dir;
use crate::paths::path_join;
use crate::settings::config::{is_native_resolution, resolution_dimensions, resolution_dims, AppSettings};
use crate::text::ascii_lowercase;

verus! {

/// Poll interval while the frame rate is unknown: 16 ms, in nanoseconds.
pub const FALLBACK_POLL_INTERVAL_NANOS: u64 = 16_000_000;

/// Whether a resolution label names the capture source's own size.
pub open spec fn is_native_label(label: Seq<char>) -> bool {
    ascii_lowercase(label) == ascii_lowercase("native"@)
}

/// Encoder target size for a resolution label: 0 × 0 (the source size) for
/// native.
pub open spec fn target_dims(label: Seq<char>) -> (u32, u32) {
    if is_native_label(label) {
        (0, 0)
    } else {
        resolution_dims(label)
    }
}

/// The buffer configuration for recording settings at frame rate `fps`.
pub open spec fn buffer_config_for(settings: AppSettings, fps: u32) -> BufferConfig {
    BufferConfig { max_duration_secs: settings.recording.buffer_duration_secs, fps }
}

/// A counter after one more event (wrapping at the top).
pub open spec fn next_count(x: u64) -> u64 {
    if x == u64::MAX {
        0
    } else {
        (x + 1) as u64
    }
}

/// The shadow buffer after pushing each frame of `fs` in turn into `s`.
pub open spec fn pushed_all(s: Seq<FrameView>, fs: Seq<FrameView>, capacity: int) -> Seq<FrameView> {
    pushed_each(s, fs, capacity, SHADOW_BUFFER_BYTES as int)
}

/// What an output directory setting resolves to: itself when set, else the
/// default directory (or the working directory when there is none).
pub open spec fn resolved_dir(configured: Seq<char>, dir: Seq<char>) -> bool {
    if configured.len() > 0 {
        dir == configured
    } else {
        dir == "."@ || exists|d: Seq<char>| dir == #[trigger] path_join(d, "Prism"@)
    }
}

/// The observable state of a recorder.
pub struct RecorderView {
    /// The buffered frames, oldest first.
    pub frames: Seq<FrameView>,
    pub buffer_config: BufferConfig,
    pub running: bool,
    /// Whether a polling loop has been handed out.
    pub polling_spawned: bool,
    /// Frames received since recording started.
    pub frames_received: u64,
    /// The capture frame rate the poll interval follows.
    pub cached_fps: u32,
    /// Size of the latest captured frame.
    pub resolution: (u32, u32),
    pub output_dir: Seq<char>,
    pub latest_frame: Option<CapturedFrame>,
    /// Frame rate the capture backend is started with.
    pub capture_fps: u32,
    pub target: CaptureTarget,
    /// Encoder target size (0 × 0 for the source size).
    pub target_width: u32,
    pub target_height: u32,
    pub resolution_is_native: bool,
    pub native_bitrate_kbps: u32,
    /// Parameter sets of the encoded stream, once known.
    pub sps: Seq<u8>,
    pub pps: Seq<u8>,
    /// Capture time of the first frame of the session, in nanoseconds.
    pub recording_started_at: Option<u64>,
    /// Whether the hardware encoder has been asked for a keyframe that it
    /// has not been handed yet.
    pub keyframe_requested: bool,
}

/// Recording state: the shadow buffer and what the capture loop needs
/// between frames.
pub struct Recorder {
    buffer: BufferManager,
    running: bool,
    polling_spawned: bool,
    frames_received: u64,
    cached_fps: u32,
    resolution: (u32, u32),
    output_dir: String,
    latest_frame: Option<CapturedFrame>,
    capture_config: CaptureConfig,
    target_width: u32,
    target_height: u32,
    resolution_is_native: bool,
    native_bitrate_kbps: u32,
    sps: Vec<u8>,
    pps: Vec<u8>,
    recording_started_at: Option<u64>,
    keyframe_requested: bool,
}

impl View for Recorder {
    type V = RecorderView;

    closed spec fn view(&self) -> RecorderView {
        RecorderView {
            frames: self.buffer@,
            buffer_config: self.buffer.spec_config(),
            running: self.running,
            polling_spawned: self.polling_spawned,
            frames_received: self.frames_received,
            cached_fps: self.cached_fps,
            resolution: self.resolution,
            output_dir: self.output_dir@,
            latest_frame: self.latest_frame,
            capture_fps: self.capture_config.fps,
            target: self.capture_config.target,
            target_width: self.target_width,
            target_height: self.target_height,
            resolution_is_native: self.resolution_is_native,
            native_bitrate_kbps: self.native_bitrate_kbps,
            sps: self.sps@,
            pps: self.pps@,
            recording_started_at: self.recording_started_at,
            keyframe_requested: self.keyframe_requested,
        }
    }
}

/// A single frame's bytes count once.
proof fn lemma_bytes_of_single(f: FrameView)
    ensures
        bytes_of(seq![f]) == f.data.len(),
{
    lemma_bytes_of_push(Seq::<FrameView>::empty(), f);
    assert(Seq::<FrameView>::empty().push(f) =~= seq![f]);
}

impl Recorder {
    /// Internal consistency: the buffer is well formed and its bytes fit in
    /// half the address space.
    pub closed spec fn wf(&self) -> bool {
        &&& self.buffer.wf()
        &&& bytes_of(self.buffer@) <= isize::MAX
        &&& self.capture_config.capture_cursor
    }

    /// A stopped recorder for `settings`. The frame rate follows the display
    /// (`display_refresh`) when `follow_display` is set and the rate is sane;
    /// the backend is configured with the set frame rate and `target`.
    pub fn new(settings: &AppSettings, follow_display: bool, display_refresh: u32, target: CaptureTarget) -> (r:
        Self)
        ensures
            r.wf(),
            ({
                let fps = fps_for(settings.recording.fps, follow_display, display_refresh);
                let dims = target_dims(settings.recording.resolution@);
                &&& r@.frames == Seq::<FrameView>::empty()
                &&& r@.buffer_config == buffer_config_for(*settings, fps)
                &&& !r@.running
                &&& !r@.polling_spawned
                &&& r@.frames_received == 0
                &&& r@.cached_fps == fps
                &&& r@.resolution == (1920u32, 1080u32)
                &&& resolved_dir(settings.recording.output_directory@, r@.output_dir)
                &&& r@.latest_frame is None
                &&& r@.capture_fps == settings.recording.fps
                &&& r@.target == target
                &&& r@.resolution_is_native == is_native_label(settings.recording.resolution@)
                &&& (r@.target_width, r@.target_height) == dims
                &&& r@.native_bitrate_kbps == settings.recording.bitrate_kbps
                &&& r@.sps.len() == 0
                &&& r@.pps.len() == 0
                &&& r@.recording_started_at is None
                &&& !r@.keyframe_requested
            }),
    {
        let rs = &settings.recording;
        let fps = super::effective_fps(rs.fps, follow_display, display_refresh);
        let buffer = BufferManager::new(
            BufferConfig { max_duration_secs: rs.buffer_duration_secs, fps },
            1920,
            1080,
        );
        let native = is_native_resolution(rs.resolution.as_str());
        let (target_width, target_height) = if native {
            (0, 0)
        } else {
            resolution_dimensions(rs.resolution.as_str())
        };
        let output_dir = resolve_output_dir(rs.output_directory.as_str());
        proof {
            lemma_bytes_of_nonneg_empty();
        }
        Recorder {
            buffer,
            running: false,
            polling_spawned: false,
            frames_received: 0,
            cached_fps: fps,
            resolution: (1920, 1080),
            output_dir,
            latest_frame: None,
            capture_config: CaptureConfig { fps: rs.fps, capture_cursor: true, target },
            target_width,
            target_height,
            resolution_is_native: native,
            native_bitrate_kbps: rs.bitrate_kbps,
            sps: Vec::new(),
            pps: Vec::new(),
            recording_started_at: None,
            keyframe_requested: false,
        }
    }
}

impl Recorder {
    /// Applies new settings: the frame rate, output directory and encoder
    /// target are taken from them, the buffer is rebuilt empty at the new
    /// size and the stream's parameter sets are forgotten. The capture
    /// target and the session flags are kept.
    pub fn reconfigure(&mut self, settings: &AppSettings, follow_display: bool, display_refresh: u32)
        requires
            old(self).wf(),
        ensures
            final(self).wf(),
            ({
                let fps = fps_for(settings.recording.fps, follow_display, display_refresh);
                let dims = target_dims(settings.recording.resolution@);
                final(self)@ == (RecorderView {
                    frames: Seq::<FrameView>::empty(),
                    buffer_config: buffer_config_for(*settings, fps),
                    cached_fps: fps,
                    output_dir: final(self)@.output_dir,
                    capture_fps: fps,
                    target_width: dims.0,
                    target_height: dims.1,
                    resolution_is_native: is_native_label(settings.recording.resolution@),
                    native_bitrate_kbps: settings.recording.bitrate_kbps,
                    sps: Seq::<u8>::empty(),
                    pps: Seq::<u8>::empty(),
                    ..old(self)@
                })
            }),
            resolved_dir(settings.recording.output_directory@, final(self)@.output_dir),
    {
        let rs = &settings.recording;
        let fps = super::effective_fps(rs.fps, follow_display, display_refresh);
        self.cached_fps = fps;
        self.output_dir = resolve_output_dir(rs.output_directory.as_str());
        self.buffer = BufferManager::new(
            BufferConfig { max_duration_secs: rs.buffer_duration_secs, fps },
            self.resolution.0,
            self.resolution.1,
        );
        let native = is_native_resolution(rs.resolution.as_str());
        let (target_width, target_height) = if native {
            (0, 0)
        } else {
            resolution_dimensions(rs.resolution.as_str())
        };
        self.resolution_is_native = native;
        self.native_bitrate_kbps = rs.bitrate_kbps;
        self.target_width = target_width;
        self.target_height = target_height;
        self.sps = Vec::new();
        self.pps = Vec::new();
        self.capture_config.fps = fps;
        proof {
            lemma_bytes_of_nonneg_empty();
        }
        assert(self@.sps =~= Seq::<u8>::empty());
        assert(self@.pps =~= Seq::<u8>::empty());
    }

    /// Sets what the next capture session records.
    pub fn reconfigure_target(&mut self, target: CaptureTarget)
        requires
            old(self).wf(),
        ensures
            final(self).wf(),
            final(self)@ == (RecorderView { target, ..old(self)@ }),
    {
        self.capture_config.target = target;
    }

    /// Asks the hardware encoder for a keyframe on its next frame, so that a
    /// decodable sync point reaches the buffer soon.
    pub fn request_keyframe(&mut self)
        requires
            old(self).wf(),
        ensures
            final(self).wf(),
            final(self)@ == (RecorderView { keyframe_requested: true, ..old(self)@ }),
    {
        self.keyframe_requested = true;
    }

    /// Whether a keyframe has been asked for since the last call; the
    /// request is cleared, as it is handed to the encoder.
    pub fn take_keyframe_request(&mut self) -> (r: bool)
        requires
            old(self).wf(),
        ensures
            final(self).wf(),
            r == old(self)@.keyframe_requested,
            final(self)@ == (RecorderView { keyframe_requested: false, ..old(self)@ }),
    {
        let r = self.keyframe_requested;
        self.keyframe_requested = false;
        r
    }

    /// What the capture backend is started with: the configured frame rate
    /// and target, with the cursor captured.
    pub fn capture_request(&self) -> (c: CaptureConfig)
        requires
            self.wf(),
        ensures
            c.fps == self@.capture_fps,
            c.capture_cursor,
            c.target == self@.target,
    {
        CaptureConfig {
            fps: self.capture_config.fps,
            capture_cursor: self.capture_config.capture_cursor,
            target: self.capture_config.target.duplicate(),
        }
    }

    /// Starts the capture backend with `capture_request()` and takes in its
    /// answer with `capture_started`; does
    /// nothing when already recording. A backend failure leaves the recorder
    /// stopped and is reported as "Failed to start capture: " and the
    /// backend's message.
    pub fn start_recording<B: CaptureBackend>(&mut self, backend: &mut B) -> (r: Result<(), String>)
        requires
            old(self).wf(),
        ensures
            final(self).wf(),
            old(self)@.running ==> r is Ok && final(self)@ == old(self)@,
            !old(self)@.running ==> match r {
                Ok(_) => final(self)@ == (RecorderView { running: true, ..old(self)@ }),
                Err(m) => final(self)@ == old(self)@ && exists|e: CaptureError|
                    m@ == "Failed to start capture: "@ + #[trigger] capture_error_message(e),
            },
    {
        if self.running {
            return Ok(());
        }
        let config = self.capture_request();
        let outcome = backend.start(config);
        self.capture_started(outcome)
    }

    /// Takes in what the capture backend answered to being started: on
    /// success the recorder is recording; a failure leaves it as it was and
    /// is reported as "Failed to start capture: " and the backend's message.
    pub fn capture_started(&mut self, outcome: Result<(), CaptureError>) -> (r: Result<(), String>)
        requires
            old(self).wf(),
        ensures
            final(self).wf(),
            match outcome {
                Ok(_) => r is Ok && final(self)@ == (RecorderView { running: true, ..old(self)@ }),
                Err(e) => r matches Err(m) && m@ == "Failed to start capture: "@ + capture_error_message(e)
                    && final(self)@ == old(self)@,
            },
    {
        match outcome {
            Ok(()) => {
                self.running = true;
                Ok(())
            },
            Err(e) => {
                let msg = e.message();
                let out = String::from_str("Failed to start capture: ").concat(msg.as_str());
                proof {
                    reveal_strlit("Failed to start capture: ");
                    assert(out@ == "Failed to start capture: "@ + capture_error_message(e));
                }
                Err(out)
            },
        }
    }

    /// Marks the recorder stopped (resetting the frame counter and the
    /// polling flag) and stops the capture backend. When the backend stops,
    /// the buffer, the session start, the latest frame and the parameter
    /// sets are cleared; a backend failure is reported as "Failed to stop
    /// capture: " and the backend's message, and leaves those untouched.
    pub fn stop_recording<B: CaptureBackend>(&mut self, backend: &mut B) -> (r: Result<(), String>)
        requires
            old(self).wf(),
        ensures
            final(self).wf(),
            match r {
                Ok(_) => final(self)@ == (RecorderView {
                    running: false,
                    polling_spawned: false,
                    frames_received: 0,
                    frames: Seq::<FrameView>::empty(),
                    recording_started_at: None,
                    latest_frame: None,
                    sps: Seq::<u8>::empty(),
                    pps: Seq::<u8>::empty(),
                    ..old(self)@
                }),
                Err(m) => final(self)@ == (RecorderView {
                    running: false,
                    polling_spawned: false,
                    frames_received: 0,
                    ..old(self)@
                }) && exists|e: CaptureError| m@ == "Failed to stop capture: "@ + #[trigger] capture_error_message(e),
            },
    {
        self.running = false;
        self.polling_spawned = false;
        self.frames_received = 0;
        match backend.stop() {
            Ok(()) => {},
            Err(e) => {
                let msg = e.message();
                let out = String::from_str("Failed to stop capture: ").concat(msg.as_str());
                proof {
                    reveal_strlit("Failed to stop capture: ");
                    assert(out@ == "Failed to stop capture: "@ + capture_error_message(e));
                }
                return Err(out);
            },
        }
        self.buffer.clear();
        self.recording_started_at = None;
        self.latest_frame = None;
        self.sps = Vec::new();
        self.pps = Vec::new();
        proof {
            lemma_bytes_of_nonneg_empty();
        }
        assert(self@.sps =~= Seq::<u8>::empty());
        assert(self@.pps =~= Seq::<u8>::empty());
        Ok(())
    }

    /// Whether recording is active.
    pub fn is_recording(&self) -> (r: bool)
        ensures
            r == self@.running,
    {
        self.running
    }

    /// Claims the polling loop: true when none was running (the caller then
    /// runs one), false when one already is.
    pub fn start_polling(&mut self) -> (r: bool)
        requires
            old(self).wf(),
        ensures
            final(self).wf(),
            r == !old(self)@.polling_spawned,
            final(self)@ == (RecorderView { polling_spawned: true, ..old(self)@ }),
    {
        let spawn = !self.polling_spawned;
        self.polling_spawned = true;
        spawn
    }

    /// Releases the polling claim after the loop could not be started.
    pub fn polling_spawn_failed(&mut self)
        requires
            old(self).wf(),
        ensures
            final(self).wf(),
            final(self)@ == (RecorderView { polling_spawned: false, ..old(self)@ }),
    {
        self.polling_spawned = false;
    }

    /// Empties the buffer (for example when the game changes).
    pub fn clear_buffer(&mut self)
        requires
            old(self).wf(),
        ensures
            final(self).wf(),
            final(self)@ == (RecorderView { frames: Seq::<FrameView>::empty(), ..old(self)@ }),
    {
        self.buffer.clear();
        proof {
            lemma_bytes_of_nonneg_empty();
        }
    }

    /// The buffer duration in seconds.
    pub fn buffer_duration_secs(&self) -> (r: u32)
        ensures
            r == self@.buffer_config.max_duration_secs,
    {
        self.buffer.config().max_duration_secs
    }

    /// Changes the buffer duration without interrupting the capture; the
    /// oldest frames beyond the new frame limit are dropped.
    pub fn set_buffer_duration_secs(&mut self, duration_secs: u32)
        requires
            old(self).wf(),
        ensures
            final(self).wf(),
            ({
                let config = BufferConfig { max_duration_secs: duration_secs, fps: old(self)@.buffer_config.fps };
                final(self)@ == (RecorderView {
                    frames: newest(old(self)@.frames, frame_capacity_of(config)),
                    buffer_config: config,
                    ..old(self)@
                })
            }),
    {
        let ghost s0 = self.buffer@;
        self.buffer.set_duration_secs(duration_secs);
        proof {
            let cap = self.buffer.spec_frame_capacity();
            if s0.len() > cap {
                lemma_bytes_of_suffix_le(s0, s0.len() - cap);
            }
        }
    }
}

impl Recorder {
    /// Records the arrival of a captured frame at `now`: the session start
    /// (on the first frame), the capture size and the latest frame for the
    /// preview. What is buffered for it follows with `finish_frame`.
    pub fn begin_frame(&mut self, frame: &CapturedFrame, now: u64)
        requires
            old(self).wf(),
        ensures
            final(self).wf(),
            final(self)@ == (RecorderView {
                recording_started_at: match old(self)@.recording_started_at {
                    None => Some(now),
                    Some(t) => Some(t),
                },
                resolution: (frame.width, frame.height),
                latest_frame: final(self)@.latest_frame,
                ..old(self)@
            }),
            final(self)@.latest_frame matches Some(g) && same_captured(g, *frame),
    {
        if self.recording_started_at.is_none() {
            self.recording_started_at = Some(now);
        }
        self.resolution = (frame.width, frame.height);
        self.latest_frame = Some(copy_captured(frame));
    }

    /// Buffers what one captured frame produced: the frames are pushed in
    /// order, non-empty parameter sets replace the known ones, and the frame
    /// counter advances.
    pub fn finish_frame(&mut self, sps: Vec<u8>, pps: Vec<u8>, frames: Vec<StoredFrame>)
        requires
            old(self).wf(),
            forall|i: int| 0 <= i < frames@.len() ==> (#[trigger] frames@[i]).data@.len() <= isize::MAX,
        ensures
            final(self).wf(),
            final(self)@ == (RecorderView {
                frames: pushed_all(
                    old(self)@.frames,
                    frame_views(frames@),
                    frame_capacity_of(old(self)@.buffer_config),
                ),
                sps: if sps@.len() > 0 { sps@ } else { old(self)@.sps },
                pps: if pps@.len() > 0 { pps@ } else { old(self)@.pps },
                frames_received: next_count(old(self)@.frames_received),
                ..old(self)@
            }),
    {
        if sps.len() > 0 {
            self.sps = sps;
        }
        if pps.len() > 0 {
            self.pps = pps;
        }
        let ghost s0 = self.buffer@;
        let ghost all = frame_views(frames@);
        let ghost cap = self.buffer.spec_frame_capacity();
        let mut rest = frames;
        let ghost all_frames = rest@;
        let n = rest.len();
        let mut i: usize = 0;
        assert(all.take(0) =~= Seq::<FrameView>::empty());
        while i < n
            invariant
                self.wf(),
                i <= n,
                n == all_frames.len(),
                all == frame_views(all_frames),
                rest@ == all_frames.subrange(i as int, n as int),
                forall|k: int| 0 <= k < all_frames.len() ==> (#[trigger] all_frames[k]).data@.len() <= isize::MAX,
                self.buffer@ == pushed_all(s0, all.take(i as int), cap),
                self.buffer.spec_frame_capacity() == cap,
                self.buffer.spec_config() == old(self).buffer.spec_config(),
                self.sps == (if sps@.len() > 0 { sps } else { old(self).sps }),
                self.pps == (if pps@.len() > 0 { pps } else { old(self).pps }),
                self.running == old(self).running,
                self.polling_spawned == old(self).polling_spawned,
                self.frames_received == old(self).frames_received,
                self.cached_fps == old(self).cached_fps,
                self.resolution == old(self).resolution,
                self.output_dir == old(self).output_dir,
                self.latest_frame == old(self).latest_frame,
                self.capture_config == old(self).capture_config,
                self.target_width == old(self).target_width,
                self.target_height == old(self).target_height,
                self.resolution_is_native == old(self).resolution_is_native,
                self.native_bitrate_kbps == old(self).native_bitrate_kbps,
                self.recording_started_at == old(self).recording_started_at,
                self.keyframe_requested == old(self).keyframe_requested,
            decreases n - i,
        {
            let frame = rest.remove(0);
            assert(frame == all_frames[i as int]);
            let ghost f = frame@;
            assert(all.take(i as int + 1).drop_last() =~= all.take(i as int));
            assert(all.take(i as int + 1).last() == f);
            self.buffer.push_frame(frame);
            proof {
                if bytes_of(self.buffer@) > SHADOW_BUFFER_BYTES {
                    lemma_bytes_of_single(f);
                }
            }
            i += 1;
        }
        assert(all.take(n as int) =~= all);
        self.frames_received = if self.frames_received == u64::MAX {
            0
        } else {
            self.frames_received + 1
        };
    }

    /// One step of the capture loop without a hardware encoder: a polled
    /// frame (if any) is recorded and buffered as `process_linux_frame`
    /// stores it. Returns the number of frames handled (0 or 1).
    pub fn poll_and_push(&mut self, frame: Option<CapturedFrame>, now: u64) -> (r: u32)
        requires
            old(self).wf(),
            frame matches Some(f) ==> {
                &&& (f.pixel_format == crate::capture::PixelFormat::Bgra ==> bgra_convertible(f))
                &&& raw_stored(f).data.len() <= isize::MAX
            },
        ensures
            final(self).wf(),
            frame is None ==> r == 0 && final(self)@ == old(self)@,
            frame matches Some(f) ==> r == 1,
            frame matches Some(f) ==> final(self)@.latest_frame matches Some(g) && same_captured(g, f),
            frame matches Some(f) ==> final(self)@.frames == pushed_frames(
                old(self)@.frames,
                raw_stored(f),
                frame_capacity_of(old(self)@.buffer_config),
                SHADOW_BUFFER_BYTES as int,
            ),
            frame matches Some(f) ==> final(self)@ == (RecorderView {
                frames: final(self)@.frames,
                recording_started_at: match old(self)@.recording_started_at {
                    None => Some(now),
                    Some(t) => Some(t),
                },
                resolution: (f.width, f.height),
                latest_frame: final(self)@.latest_frame,
                frames_received: next_count(old(self)@.frames_received),
                ..old(self)@
            }),
    {
        if frame.is_none() {
            return 0;
        }
        let f = frame.unwrap();
        self.begin_frame(&f, now);
        let ghost stored = raw_stored(f);
        let ghost before = self@.frames;
        let items = process_linux_frame(f);
        let ghost views = frame_views(items@);
        self.finish_frame(Vec::new(), Vec::new(), items);
        proof {
            assert(views =~= seq![stored]);
            assert(seq![stored].drop_last() =~= Seq::<FrameView>::empty());
            reveal_with_fuel(pushed_each, 2);
        }
        1
    }
}

impl Recorder {
    /// Time to wait between polls, in nanoseconds: one frame period at the
    /// capture frame rate, or `FALLBACK_POLL_INTERVAL_NANOS` when the rate is 0.
    pub fn poll_interval_nanos(&self) -> (r: u64)
        ensures
            r == if self@.cached_fps == 0 {
                FALLBACK_POLL_INTERVAL_NANOS
            } else {
                (NANOS_PER_SEC / self@.cached_fps as u64) as u64
            },
    {
        if self.cached_fps == 0 {
            FALLBACK_POLL_INTERVAL_NANOS
        } else {
            NANOS_PER_SEC / self.cached_fps as u64
        }
    }

    /// Whether a frame has been captured for the live preview.
    pub fn preview_available(&self) -> (r: bool)
        ensures
            r == (self@.latest_frame is Some),
    {
        self.latest_frame.is_some()
    }

    /// The capture frame rate.
    pub fn cached_fps(&self) -> (r: u32)
        ensures
            r == self@.cached_fps,
    {
        self.cached_fps
    }

    /// Frames received since recording started.
    pub fn total_frames_received(&self) -> (r: u64)
        ensures
            r == self@.frames_received,
    {
        self.frames_received
    }

    /// Nanoseconds from the session's first frame to `now` (0 before the
    /// first frame, or when `now` is earlier).
    pub fn recording_elapsed_nanos(&self, now: u64) -> (r: u64)
        ensures
            r == match self@.recording_started_at {
                Some(t) => if now > t { (now - t) as u64 } else { 0 },
                None => 0,
            },
    {
        match self.recording_started_at {
            Some(t) => if now > t {
                now - t
            } else {
                0
            },
            None => 0,
        }
    }

    /// Time actually covered by the buffer: from its oldest to its newest
    /// frame, in nanoseconds.
    pub fn buffer_time_nanos(&self) -> (r: u64)
        ensures
            r == frames_time_span(self@.frames),
    {
        self.buffer.time_span_nanos()
    }

    /// How much of a clip can be taken, in nanoseconds: the time the buffer
    /// covers, at most the configured buffer duration.
    pub fn available_clip_nanos(&self) -> (r: u64)
        ensures
            r == if frames_time_span(self@.frames) < self@.buffer_config.max_duration_secs * NANOS_PER_SEC {
                frames_time_span(self@.frames)
            } else {
                (self@.buffer_config.max_duration_secs * NANOS_PER_SEC) as u64
            },
    {
        let configured = self.buffer.config().max_duration_secs as u64 * NANOS_PER_SEC;
        let actual = self.buffer.time_span_nanos();
        if actual < configured {
            actual
        } else {
            configured
        }
    }

    /// Number of buffered frames.
    pub fn frame_count(&self) -> (r: usize)
        ensures
            r == self@.frames.len(),
    {
        self.buffer.frame_count()
    }

    /// Whether the latest frame, if any, can be previewed (see
    /// `preview_readable`).
    pub fn preview_frame_readable(&self) -> (r: bool)
        ensures
            r == (self@.latest_frame matches Some(f) ==> preview_readable(f)),
    {
        match &self.latest_frame {
            None => true,
            Some(f) => super::preview_is_readable(f),
        }
    }

    /// The live preview of the latest frame as a JPEG `data:` URL; `None`
    /// before the first frame or when the image cannot be encoded.
    pub fn get_preview_frame(&self) -> (r: Option<String>)
        requires
            self@.latest_frame matches Some(f) ==> preview_readable(f),
        ensures
            match self@.latest_frame {
                None => r is None,
                Some(f) => match preview_url(f) {
                    Some(u) => r matches Some(s) && s@ == u,
                    None => r is None,
                },
            },
    {
        match &self.latest_frame {
            None => None,
            Some(f) => preview_data_url(f),
        }
    }

    /// Whether the buffered packets can be scanned for parameter sets (see
    /// `extract_clip_data`).
    pub fn param_scan_in_bounds(&self) -> (r: bool)
        ensures
            r == !(first_param_pair_in(self@.frames) is OutOfBounds),
    {
        self.buffer.param_scan_in_bounds()
    }

    /// Whether `extract_clip_data` can run now: the parameter sets are known,
    /// or the buffer can be scanned for them.
    pub fn can_extract_clip(&self) -> (r: bool)
        ensures
            r == ((self@.sps.len() > 0 && self@.pps.len() > 0) || !(first_param_pair_in(self@.frames) is OutOfBounds)),
    {
        (self.sps.len() > 0 && self.pps.len() > 0) || self.buffer.param_scan_in_bounds()
    }

    /// Takes the frames of a clip of `duration_secs` seconds (0 for the whole
    /// buffer) at `now`, with the stream's parameter sets (found in the buffer
    /// when not known), the output directory and the latest frame.
    pub fn extract_clip_data(&self, duration_secs: u32, now: u64) -> (r: Result<ClipData, String>)
        requires
            clip_frames(self@.frames, duration_secs, now).len() > 0 && (self@.sps.len() == 0
                || self@.pps.len() == 0) ==> !(first_param_pair_in(self@.frames) is OutOfBounds),
        ensures
            clip_frames(self@.frames, duration_secs, now).len() == 0 ==> (r matches Err(e) && e@
                == "No frames available to clip"@),
            clip_frames(self@.frames, duration_secs, now).len() > 0 ==> (r matches Ok(d) && {
                &&& frame_views(d.frames@) == clip_frames(self@.frames, duration_secs, now)
                &&& d.output_dir@ == self@.output_dir
                &&& (d.sps@, d.pps@) == clip_param_sets_from(self@.frames, self@.sps, self@.pps)
                &&& match self@.latest_frame {
                    Some(f) => d.preview_frame matches Some(g) && same_captured(g, f),
                    None => d.preview_frame is None,
                }
            }),
    {
        clip_data_from(
            &self.buffer,
            duration_secs,
            now,
            self.output_dir.as_str(),
            self.sps.as_slice(),
            self.pps.as_slice(),
            self.latest_frame.as_ref(),
        )
    }
}

/// The empty buffer holds no bytes.
proof fn lemma_bytes_of_nonneg_empty()
    ensures
        bytes_of(Seq::<FrameView>::empty()) == 0,
{
}

} // verus!
