use prism::settings::config::{
    default_bitrate_kbps, default_resolution, default_resolution_string, is_native_resolution,
    resolution_dimensions, AppSettings, HotkeySettings,
};
use prism::settings::store::{SettingsError, SettingsStore};
use prism::settings::SettingsManager;
use std::path::PathBuf;

#[test]
fn defaults_are_production_sensible() {
    let s = AppSettings::default();
    assert_eq!(s.recording.buffer_duration_secs, 30);
    assert_eq!(s.recording.fps, 60);
    assert_eq!(s.recording.bitrate_kbps, 8000);
    assert_eq!(s.recording.resolution, "1080p");
    assert!(s.recording.output_directory.is_empty());
    assert!(s.recording.always_on_recording);
    assert_eq!(s.hotkeys.save_clip, "Ctrl+Shift+X");
    assert_eq!(s.hotkeys.toggle_recording, "Ctrl+Shift+R");
    assert_eq!(s.hotkeys.open_library, "Ctrl+Shift+L");
    assert!(!s.general.launch_at_startup);
    assert!(s.general.minimize_to_tray);
    assert_eq!(s.storage.max_clips_gb, 50);
    assert_eq!(s.storage.auto_prune_days, None);
    assert_eq!(s.cloud.server_url, "https://goprism.studio");
    assert_eq!(s.cloud.max_concurrent_uploads, 1);
    assert_eq!(default_resolution(), "1080p");
    assert_eq!(default_resolution_string(), "1080p");
    assert_eq!(default_bitrate_kbps(), 8_000);
}

#[test]
fn mac_shortcuts_use_cmd() {
    let h = HotkeySettings::with_modifier("Cmd");
    assert_eq!(h.save_clip, "Cmd+Shift+X");
    assert_eq!(h.toggle_recording, "Cmd+Shift+R");
    assert_eq!(h.open_library, "Cmd+Shift+L");
}

#[test]
fn resolution_labels_map_to_dimensions() {
    assert_eq!(resolution_dimensions("native"), (0, 0));
    assert_eq!(resolution_dimensions("NATIVE"), (0, 0));
    assert_eq!(resolution_dimensions("720p"), (1280, 720));
    assert_eq!(resolution_dimensions("1080p"), (1920, 1080));
    assert_eq!(resolution_dimensions("1440P"), (2560, 1440));
    assert_eq!(resolution_dimensions("2160p"), (3840, 2160));
    assert_eq!(resolution_dimensions("4K"), (3840, 2160));
    assert_eq!(resolution_dimensions("8k"), (1920, 1080));
    assert_eq!(resolution_dimensions(""), (1920, 1080));
}

#[test]
fn native_resolution_ignores_ascii_case() {
    assert!(is_native_resolution("native"));
    assert!(is_native_resolution("NaTiVe"));
    assert!(!is_native_resolution("native "));
    assert!(!is_native_resolution("1080p"));
}

#[test]
fn settings_live_in_settings_json() {
    let store = SettingsStore::new("/tmp/prism-data");
    assert_eq!(PathBuf::from(store.path()), PathBuf::from("/tmp/prism-data/settings.json"));
}

#[test]
fn manager_falls_back_to_defaults_when_loading_fails() {
    let store = SettingsStore::new("/tmp/prism-data");
    let mgr = SettingsManager::with_store(store);
    assert_eq!(mgr.get().recording.fps, 60);

    let store = SettingsStore::new("/tmp/prism-data");
    assert!(matches!(
        SettingsManager::new(store, Err(SettingsError::Parse("bad".into()))),
        Err(SettingsError::Parse(m)) if m == "bad"
    ));

    let mut custom = AppSettings::default();
    custom.recording.fps = 30;
    let store = SettingsStore::new("/tmp/prism-data");
    let mut mgr = match SettingsManager::new(store, Ok(custom)) {
        Ok(m) => m,
        Err(_) => panic!("loaded settings refused"),
    };
    assert_eq!(mgr.get().recording.fps, 30);
    let mut next = mgr.get();
    next.cloud.auto_upload = true;
    let returned = mgr.set(next, Ok(())).ok().unwrap();
    assert!(returned.cloud.auto_upload);
    assert!(mgr.get().cloud.auto_upload);
}

#[test]
fn failed_save_keeps_the_settings_in_effect() {
    let store = SettingsStore::new("/tmp/prism-data");
    let mut mgr = SettingsManager::with_store(store);
    let mut next = mgr.get();
    next.recording.fps = 24;
    let r = mgr.set(next, Err(SettingsError::Io("disk full".into())));
    assert!(matches!(r, Err(SettingsError::Io(m)) if m == "disk full"));
    assert_eq!(mgr.get().recording.fps, 60);

    let mut next = mgr.get();
    next.recording.fps = 24;
    mgr.set(next, Ok(())).ok().unwrap();
    assert!(mgr.reset(Err(SettingsError::Io("x".into()))).is_err());
    assert_eq!(mgr.get().recording.fps, 24);
    let reset = mgr.reset(Ok(())).ok().unwrap();
    assert_eq!(reset.recording.fps, 60);
    assert_eq!(mgr.get().recording.fps, 60);
}

#[test]
fn settings_errors_read_like_their_kind() {
    assert_eq!(SettingsError::Io("disk".into()).message(), "IO error: disk");
    assert_eq!(SettingsError::Parse("json".into()).message(), "Parse error: json");
    assert_eq!(SettingsError::Serialize("x".into()).message(), "Serialize error: x");
}
