//! Application settings and their defaults, and the output resolution
//! labels.
use vstd::prelude::*;

use crate::text::{ascii_lowercase, chars_ascii_lowercase, chars_eq, chars_of};

verus! {

/// All application settings.
#[derive(Debug, Clone)]
pub struct AppSettings {
    pub recording: RecordingSettings,
    pub hotkeys: HotkeySettings,
    pub general: GeneralSettings,
    pub storage: StorageSettings,
    pub cloud: CloudSettings,
}

/// Recording settings.
#[derive(Debug, Clone)]
pub struct RecordingSettings {
    /// Ring buffer duration in seconds (10–1800).
    pub buffer_duration_secs: u32,
    /// Capture FPS (24, 30, 60).
    pub fps: u32,
    /// Target output bitrate in kilobits per second.
    pub bitrate_kbps: u32,
    /// Target output resolution: "native" | "720p" | "1080p" | "1440p" | "2160p".
    /// "native" keeps the capture source's own dimensions.
    pub resolution: String,
    /// Output directory — if empty, the default Videos/Prism.
    pub output_directory: String,
    /// Serialized capture target ("display", "display_id:N", "window:N",
    /// "application:bundle_id").
    pub capture_target: String,
    /// Start the recording buffer automatically on launch.
    pub always_on_recording: bool,
}

/// Global shortcut settings, as accelerator strings such as "Ctrl+Shift+X".
#[derive(Debug, Clone)]
pub struct HotkeySettings {
    pub save_clip: String,
    pub toggle_recording: String,
    pub open_library: String,
}

/// General behaviour settings.
#[derive(Debug, Clone)]
pub struct GeneralSettings {
    pub launch_at_startup: bool,
    pub minimize_to_tray: bool,
    pub show_clip_notification: bool,
    pub game_detection_enabled: bool,
}

/// Disk usage settings.
#[derive(Debug, Clone)]
pub struct StorageSettings {
    /// Max disk usage in GB before auto-cleanup (0 = unlimited).
    pub max_clips_gb: u32,
    /// Auto-delete clips older than N days (None = disabled).
    pub auto_prune_days: Option<u32>,
}

/// Cloud upload settings.
#[derive(Debug, Clone)]
pub struct CloudSettings {
    /// Prism server URL (e.g. "https://clips.example.com").
    pub server_url: String,
    /// API key for authenticating upload requests.
    pub api_key: String,
    /// Upload clips right after saving.
    pub auto_upload: bool,
    /// Max concurrent uploads (0 = sequential).
    pub max_concurrent_uploads: u32,
    /// Display name of the connected account (if any).
    pub account_display_name: String,
    /// Email of the connected account (if any).
    pub account_email: String,
}

/// Default output resolution for new installs and resets.
pub fn default_resolution() -> (r: &'static str)
    ensures
        r@ == "1080p"@,
{
    "1080p"
}

/// Default output resolution, owned.
pub fn default_resolution_string() -> (r: String)
    ensures
        r@ == "1080p"@,
{
    default_resolution().to_owned()
}

/// Default output bitrate for new installs and resets.
pub fn default_bitrate_kbps() -> (r: u32)
    ensures
        r == 8000,
{
    8_000
}

impl Default for RecordingSettings {
    fn default() -> (r: Self)
        ensures
            r.buffer_duration_secs == 30,
            r.fps == 60,
            r.bitrate_kbps == 8000,
            r.resolution@ == "1080p"@,
            r.output_directory@.len() == 0,
            r.capture_target@.len() == 0,
            r.always_on_recording,
    {
        RecordingSettings {
            buffer_duration_secs: 30,
            fps: 60,
            bitrate_kbps: default_bitrate_kbps(),
            resolution: default_resolution_string(),
            output_directory: String::new(),
            capture_target: String::new(),
            always_on_recording: true,
        }
    }
}

impl HotkeySettings {
    /// The default shortcuts with the platform's primary modifier
    /// (`Cmd` on macOS, `Ctrl` elsewhere): `+Shift+X` saves a clip,
    /// `+Shift+R` toggles recording, `+Shift+L` opens the library.
    pub fn with_modifier(modifier: &str) -> (r: Self)
        ensures
            r.save_clip@ == modifier@ + "+Shift+X"@,
            r.toggle_recording@ == modifier@ + "+Shift+R"@,
            r.open_library@ == modifier@ + "+Shift+L"@,
    {
        let mut save_clip = modifier.to_owned();
        save_clip.append("+Shift+X");
        let mut toggle_recording = modifier.to_owned();
        toggle_recording.append("+Shift+R");
        let mut open_library = modifier.to_owned();
        open_library.append("+Shift+L");
        HotkeySettings { save_clip, toggle_recording, open_library }
    }
}

impl Default for HotkeySettings {
    /// The default shortcuts with `Ctrl` (the macOS build uses `Cmd`
    /// through `with_modifier`).
    fn default() -> (r: Self)
        ensures
            r.save_clip@ == "Ctrl"@ + "+Shift+X"@,
            r.toggle_recording@ == "Ctrl"@ + "+Shift+R"@,
            r.open_library@ == "Ctrl"@ + "+Shift+L"@,
    {
        HotkeySettings::with_modifier("Ctrl")
    }
}

impl Default for GeneralSettings {
    fn default() -> (r: Self)
        ensures
            !r.launch_at_startup,
            r.minimize_to_tray,
            r.show_clip_notification,
            !r.game_detection_enabled,
    {
        GeneralSettings {
            launch_at_startup: false,
            minimize_to_tray: true,
            show_clip_notification: true,
            game_detection_enabled: false,
        }
    }
}

impl Default for StorageSettings {
    fn default() -> (r: Self)
        ensures
            r.max_clips_gb == 50,
            r.auto_prune_days is None,
    {
        StorageSettings { max_clips_gb: 50, auto_prune_days: None }
    }
}

impl Default for CloudSettings {
    fn default() -> (r: Self)
        ensures
            r.server_url@ == "https://goprism.studio"@,
            r.api_key@.len() == 0,
            !r.auto_upload,
            r.max_concurrent_uploads == 1,
            r.account_display_name@.len() == 0,
            r.account_email@.len() == 0,
    {
        CloudSettings {
            server_url: String::from_str("https://goprism.studio"),
            api_key: String::new(),
            auto_upload: false,
            max_concurrent_uploads: 1,
            account_display_name: String::new(),
            account_email: String::new(),
        }
    }
}

/// The default settings of each section.
pub open spec fn is_default_settings(s: AppSettings) -> bool {
    &&& s.recording.buffer_duration_secs == 30
    &&& s.recording.fps == 60
    &&& s.recording.bitrate_kbps == 8000
    &&& s.recording.resolution@ == "1080p"@
    &&& s.recording.output_directory@.len() == 0
    &&& s.recording.capture_target@.len() == 0
    &&& s.recording.always_on_recording
    &&& s.hotkeys.save_clip@ == "Ctrl"@ + "+Shift+X"@
    &&& s.hotkeys.toggle_recording@ == "Ctrl"@ + "+Shift+R"@
    &&& s.hotkeys.open_library@ == "Ctrl"@ + "+Shift+L"@
    &&& !s.general.launch_at_startup
    &&& s.general.minimize_to_tray
    &&& s.general.show_clip_notification
    &&& !s.general.game_detection_enabled
    &&& s.storage.max_clips_gb == 50
    &&& s.storage.auto_prune_days is None
    &&& s.cloud.server_url@ == "https://goprism.studio"@
    &&& s.cloud.api_key@.len() == 0
    &&& !s.cloud.auto_upload
    &&& s.cloud.max_concurrent_uploads == 1
    &&& s.cloud.account_display_name@.len() == 0
    &&& s.cloud.account_email@.len() == 0
}

impl Default for AppSettings {
    fn default() -> (r: Self)
        ensures
            is_default_settings(r),
    {
        AppSettings {
            recording: RecordingSettings::default(),
            hotkeys: HotkeySettings::default(),
            general: GeneralSettings::default(),
            storage: StorageSettings::default(),
            cloud: CloudSettings::default(),
        }
    }
}

impl AppSettings {
    /// An equal snapshot of these settings.
    pub fn duplicate(&self) -> (r: Self)
        ensures
            r == *self,
    {
        AppSettings {
            recording: RecordingSettings {
                buffer_duration_secs: self.recording.buffer_duration_secs,
                fps: self.recording.fps,
                bitrate_kbps: self.recording.bitrate_kbps,
                resolution: self.recording.resolution.clone(),
                output_directory: self.recording.output_directory.clone(),
                capture_target: self.recording.capture_target.clone(),
                always_on_recording: self.recording.always_on_recording,
            },
            hotkeys: HotkeySettings {
                save_clip: self.hotkeys.save_clip.clone(),
                toggle_recording: self.hotkeys.toggle_recording.clone(),
                open_library: self.hotkeys.open_library.clone(),
            },
            general: GeneralSettings {
                launch_at_startup: self.general.launch_at_startup,
                minimize_to_tray: self.general.minimize_to_tray,
                show_clip_notification: self.general.show_clip_notification,
                game_detection_enabled: self.general.game_detection_enabled,
            },
            storage: StorageSettings {
                max_clips_gb: self.storage.max_clips_gb,
                auto_prune_days: self.storage.auto_prune_days,
            },
            cloud: CloudSettings {
                server_url: self.cloud.server_url.clone(),
                api_key: self.cloud.api_key.clone(),
                auto_upload: self.cloud.auto_upload,
                max_concurrent_uploads: self.cloud.max_concurrent_uploads,
                account_display_name: self.cloud.account_display_name.clone(),
                account_email: self.cloud.account_email.clone(),
            },
        }
    }
}

/// Output dimensions of a resolution label, compared without ASCII case:
/// `native` gives `(0, 0)` (keep the source size), `720p`, `1440p`,
/// `2160p`/`4k` their sizes, and anything else 1080p.
pub open spec fn resolution_dims(label: Seq<char>) -> (u32, u32) {
    let l = ascii_lowercase(label);
    if l == "native"@ {
        (0, 0)
    } else if l == "720p"@ {
        (1280, 720)
    } else if l == "1440p"@ {
        (2560, 1440)
    } else if l == "2160p"@ || l == "4k"@ {
        (3840, 2160)
    } else {
        (1920, 1080)
    }
}

/// Maps a user-facing resolution label to dimensions; `(0, 0)` for
/// "native", where callers use the capture source's dimensions.
pub fn resolution_dimensions(label: &str) -> (r: (u32, u32))
    ensures
        r == resolution_dims(label@),
{
    let chars = chars_of(label);
    let l = chars_ascii_lowercase(chars.as_slice());
    if chars_eq(l.as_slice(), chars_of("native").as_slice()) {
        (0, 0)
    } else if chars_eq(l.as_slice(), chars_of("720p").as_slice()) {
        (1280, 720)
    } else if chars_eq(l.as_slice(), chars_of("1440p").as_slice()) {
        (2560, 1440)
    } else if chars_eq(l.as_slice(), chars_of("2160p").as_slice()) || chars_eq(
        l.as_slice(),
        chars_of("4k").as_slice(),
    ) {
        (3840, 2160)
    } else {
        (1920, 1080)
    }
}

/// Whether the resolution label selects native capture (`native`, in any
/// ASCII case).
pub fn is_native_resolution(label: &str) -> (r: bool)
    ensures
        r == (ascii_lowercase(label@) == ascii_lowercase("native"@)),
{
    let a = chars_ascii_lowercase(chars_of(label).as_slice());
    let b = chars_ascii_lowercase(chars_of("native").as_slice());
    chars_eq(a.as_slice(), b.as_slice())
}

} // verus!
