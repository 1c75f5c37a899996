//! Screen capture — shared frame types, capture targets and sources, the
//! backend interface, and the BGRA ↔ NV12 colour conversions.
use vstd::prelude::*;

pub mod convert;
pub mod staging;

pub use convert::{bgra_to_nv12, nv12_to_bgra, nv12_to_rgb};

verus! {

/// Supported pixel formats for the capture → encoder pipeline.
#[derive(Debug, Clone, Copy, PartialEq, Eq, Structural)]
pub enum PixelFormat {
    /// 32-bit BGRA.
    Bgra,
    /// 8-bit YUV 4:2:0 (NV12): a Y plane followed by an interleaved UV plane.
    Nv12,
    /// Compressed H.264 in AVCC format (4-byte length prefix per NAL unit).
    H264,
}

/// A frame delivered by a capture backend. `timestamp` is a monotonic
/// capture time in nanoseconds.
#[derive(Debug, Clone)]
pub struct CapturedFrame {
    pub data: Vec<u8>,
    pub width: u32,
    pub height: u32,
    pub stride: u32,
    pub pixel_format: PixelFormat,
    pub timestamp: u64,
}

/// What to capture — a display, window, or application.
#[derive(Debug, Clone)]
pub enum CaptureTarget {
    /// The main display.
    Display,
    /// A specific display by id.
    DisplayId(u32),
    /// A specific window by id.
    Window(u32),
    /// A specific application by bundle identifier.
    Application(String),
}

impl Default for CaptureTarget {
    fn default() -> (r: Self)
        ensures
            r is Display,
    {
        CaptureTarget::Display
    }
}

impl CaptureTarget {
    /// An equal copy of this target.
    pub fn duplicate(&self) -> (r: Self)
        ensures
            r == *self,
    {
        match self {
            CaptureTarget::Display => CaptureTarget::Display,
            CaptureTarget::DisplayId(id) => CaptureTarget::DisplayId(*id),
            CaptureTarget::Window(id) => CaptureTarget::Window(*id),
            CaptureTarget::Application(bundle) => CaptureTarget::Application(bundle.clone()),
        }
    }
}

/// Configuration passed to a capture backend on start.
#[derive(Debug, Clone)]
pub struct CaptureConfig {
    /// Target frames per second.
    pub fps: u32,
    /// Whether to include the cursor in captured frames.
    pub capture_cursor: bool,
    /// What display / window / application to capture.
    pub target: CaptureTarget,
}

impl Default for CaptureConfig {
    fn default() -> (r: Self)
        ensures
            r.fps == 60,
            r.capture_cursor,
            r.target is Display,
    {
        CaptureConfig { fps: 60, capture_cursor: true, target: CaptureTarget::Display }
    }
}

/// A display, as listed in the source selector.
#[derive(Debug, Clone)]
pub struct DisplayInfo {
    pub display_id: u32,
    pub width: u32,
    pub height: u32,
    pub is_main: bool,
}

/// An application, as listed in the source selector.
#[derive(Debug, Clone)]
pub struct AppInfo {
    pub pid: i32,
    pub name: String,
    pub bundle_id: String,
    pub window_count: u32,
}

/// The displays and applications available for capture.
#[derive(Debug, Clone)]
pub struct CaptureSources {
    pub displays: Vec<DisplayInfo>,
    pub applications: Vec<AppInfo>,
}

/// Errors originating from the capture subsystem.
#[derive(Debug)]
pub enum CaptureError {
    UnsupportedPlatform,
    StartFailed(String),
    StreamError(String),
    NoFrame,
}

impl CaptureError {
    /// The human-readable message of this error.
    pub fn message(&self) -> (r: String)
        ensures
            r@ == capture_error_message(*self),
    {
        match self {
            CaptureError::UnsupportedPlatform => String::from_str(
                "Capture backend not available on this platform",
            ),
            CaptureError::StartFailed(m) => String::from_str("Failed to start capture stream: ").concat(
                m.as_str(),
            ),
            CaptureError::StreamError(m) => String::from_str("Capture stream error: ").concat(m.as_str()),
            CaptureError::NoFrame => String::from_str("No frame available"),
        }
    }
}

/// The message text of each capture error.
pub open spec fn capture_error_message(e: CaptureError) -> Seq<char> {
    match e {
        CaptureError::UnsupportedPlatform => "Capture backend not available on this platform"@,
        CaptureError::StartFailed(m) => "Failed to start capture stream: "@ + m@,
        CaptureError::StreamError(m) => "Capture stream error: "@ + m@,
        CaptureError::NoFrame => "No frame available"@,
    }
}

/// Platform-agnostic interface for continuous screen capture.
pub trait CaptureBackend {
    /// Start capturing with the given configuration.
    fn start(&mut self, config: CaptureConfig) -> Result<(), CaptureError>;

    /// Stop capturing and release resources.
    fn stop(&mut self) -> Result<(), CaptureError>;

    /// Return (and clear) the most recently captured frame, if any.
    fn read_latest_frame(&mut self) -> Option<CapturedFrame>;

    /// Whether the backend is currently capturing.
    fn is_active(&self) -> bool;
}

/// Backend for platforms without screen capture support.
pub struct UnsupportedBackend;

impl CaptureBackend for UnsupportedBackend {
    /// Starting always fails: capture is not available on this platform.
    fn start(&mut self, config: CaptureConfig) -> (r: Result<(), CaptureError>)
        ensures
            r matches Err(CaptureError::UnsupportedPlatform),
    {
        Err(CaptureError::UnsupportedPlatform)
    }

    /// Stopping always fails: capture is not available on this platform.
    fn stop(&mut self) -> (r: Result<(), CaptureError>)
        ensures
            r matches Err(CaptureError::UnsupportedPlatform),
    {
        Err(CaptureError::UnsupportedPlatform)
    }

    /// No frame is ever captured.
    fn read_latest_frame(&mut self) -> (r: Option<CapturedFrame>)
        ensures
            r is None,
    {
        None
    }

    /// The backend is never capturing.
    fn is_active(&self) -> (r: bool)
        ensures
            !r,
    {
        false
    }
}

/// Capture sources on a platform without a capture backend: none.
pub fn enumerate_capture_sources() -> (r: CaptureSources)
    ensures
        r.displays@.len() == 0,
        r.applications@.len() == 0,
{
    CaptureSources { displays: Vec::new(), applications: Vec::new() }
}

/// The capture backend of a platform without screen capture support.
pub fn create_capture_backend() -> (r: UnsupportedBackend) {
    UnsupportedBackend
}

/// A slot holding the single most recent frame, handed from the capture
/// callback to the polling consumer.
#[derive(Debug)]
pub struct LatestFrame {
    inner: Option<CapturedFrame>,
}

impl LatestFrame {
    /// The frame currently held.
    pub closed spec fn held(&self) -> Option<CapturedFrame> {
        self.inner
    }

    /// An empty slot.
    pub fn new() -> (r: Self)
        ensures
            r.held() is None,
    {
        LatestFrame { inner: None }
    }

    /// Store a new frame, replacing the previous one.
    pub fn store(&mut self, frame: CapturedFrame)
        ensures
            final(self).held() == Some(frame),
    {
        self.inner = Some(frame);
    }

    /// Take the latest frame, leaving the slot empty.
    pub fn take(&mut self) -> (r: Option<CapturedFrame>)
        ensures
            r == old(self).held(),
            final(self).held() is None,
    {
        self.inner.take()
    }
}

/// Output dimensions of a capture backend: the configured target when both
/// target dimensions are set, otherwise the source dimensions.
pub fn output_dimensions(target_width: u32, target_height: u32, src_width: u32, src_height: u32) -> (r: (
    u32,
    u32,
))
    ensures
        r == (if target_width > 0 && target_height > 0 {
            (target_width, target_height)
        } else {
            (src_width, src_height)
        }),
{
    if target_width > 0 && target_height > 0 {
        (target_width, target_height)
    } else {
        (src_width, src_height)
    }
}

} // verus!
