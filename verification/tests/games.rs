use prism::games::cs2::{gsi_config_contents, Cs2GsiListener, GsiReading, GsiState};
use prism::games::database::{GameEntry, GameRegistry};
use prism::games::moment::{GameMoment, MomentType};
use prism::games::rust::{AudioCaptureAction, RustAudioEngine};
use prism::games::trigger::{
    auto_clip_file_name, clip_duration, file_name_part, plan_auto_clip, AutoClipSettings,
    AutoClipTrigger, PerGameAutoClip,
};
use prism::games::{detect_running_game, DetectedGame, GameDetector, WindowInfo};

fn payload(kills: u64, deaths: u64, health: i64, headshots: u64) -> GsiReading {
    GsiReading { kills, deaths, health, headshots, win_team: None }
}

#[test]
fn emits_a_headshot_instead_of_a_duplicate_kill() {
    let mut state = GsiState::default();
    assert!(state.consume(&payload(4, 1, 100, 0)).is_empty());

    let moments = state.consume(&payload(5, 1, 100, 1));
    assert_eq!(moments.len(), 1);
    assert_eq!(moments[0].moment_type, MomentType::Headshot);
}

#[test]
fn gsi_reports_kills_deaths_and_round_wins() {
    let mut state = GsiState::default();
    assert!(state.consume(&payload(0, 0, 100, 0)).is_empty());
    let moments = state.consume(&payload(1, 0, 100, 0));
    assert_eq!(moments.len(), 1);
    assert_eq!(moments[0].moment_type, MomentType::Kill);
    assert_eq!(moments[0].description.as_deref(), Some("CS2 kill"));
    assert_eq!(moments[0].game_name, "Counter-Strike 2");

    let moments = state.consume(&payload(1, 0, 0, 0));
    assert_eq!(moments.len(), 1);
    assert_eq!(moments[0].moment_type, MomentType::Death);

    let mut win = payload(1, 1, 100, 0);
    win.win_team = Some("CT".into());
    let moments = state.consume(&win);
    assert_eq!(moments.len(), 2);
    assert_eq!(moments[0].moment_type, MomentType::Death);
    assert_eq!(moments[1].moment_type, MomentType::Win);
    assert_eq!(moments[1].description.as_deref(), Some("Round won by CT"));
    assert!(state.consume(&win).is_empty(), "the same winner is not announced twice");
}

#[test]
fn gsi_listener_starts_once() {
    let mut listener = Cs2GsiListener::new();
    assert!(!listener.mark_started());
    assert!(listener.mark_started());
    assert!(listener.consume(&payload(3, 0, 100, 0)).is_empty());
}

#[test]
fn gsi_config_points_at_the_local_listener() {
    let text = gsi_config_contents(3000);
    assert!(text.starts_with("\"Prism Game State Integration\"\n{\n  \"uri\" \"http://127.0.0.1:3000\"\n"));
    assert!(text.contains("    \"player_match_stats\" \"1\"\n  }\n}\n"));
}

#[test]
fn moments_have_labels_and_event_keys() {
    let m = GameMoment::new(MomentType::MatchEnd, "Valorant".into());
    assert_eq!(m.type_label(), "Match End");
    assert_eq!(m.event_key(), "match_end");
    assert!(m.description.is_none());
    let m = m.with_description("final round".into());
    assert_eq!(m.description.as_deref(), Some("final round"));
    let manual = GameMoment::new(MomentType::Manual, "Rust".into());
    assert_eq!(manual.type_label(), "Manual Clip");
    assert_eq!(manual.event_key(), "manual");
}

#[test]
fn registry_detects_games_by_process_and_title() {
    let registry = GameRegistry::new();
    assert_eq!(registry.all().len(), 4);
    assert_eq!(GameEntry::known_games()[1].name, "Counter-Strike 2");
    assert_eq!(registry.detect_by_process("CS2.EXE").unwrap().name, "Counter-Strike 2");
    assert_eq!(registry.detect_by_process("rustclient.exe").unwrap().name, "Rust");
    assert!(registry.detect_by_process("notepad.exe").is_none());
    assert_eq!(
        registry.detect_by_window_title("apex legends - match").unwrap().name,
        "Apex Legends"
    );
    assert_eq!(registry.detect_by_window_title("Playing cs2 now").unwrap().name, "Counter-Strike 2");
    assert!(registry.detect_by_window_title("Desktop").is_none());
}

#[test]
fn auto_clip_can_be_toggled_per_game() {
    let mut registry = GameRegistry::new();
    registry.set_auto_clip("Valorant", true);
    registry.set_auto_clip("Unknown", true);
    let all = registry.all();
    assert!(all[2].auto_clip_enabled);
    assert!(!all[0].auto_clip_enabled && !all[1].auto_clip_enabled && !all[3].auto_clip_enabled);
}

#[test]
fn detector_reports_changes_only() {
    let mut detector = GameDetector::new();
    assert!(!detector.begin_polling());
    assert!(detector.begin_polling());
    let rust = DetectedGame { name: "Rust".into(), pid: 7 };
    let change = detector.observe(true, Some(rust.clone()));
    assert!(change.lost.is_none());
    assert_eq!(change.found, Some(rust.clone()));
    assert!(!change.cs2_active);
    let change = detector.observe(true, Some(rust.clone()));
    assert!(change.lost.is_none() && change.found.is_none());
    let cs2 = DetectedGame { name: "Counter-Strike 2".into(), pid: 9 };
    let change = detector.observe(true, Some(cs2.clone()));
    assert_eq!(change.lost, Some(rust));
    assert_eq!(change.found, Some(cs2.clone()));
    assert!(change.cs2_active);
    let change = detector.observe(false, Some(cs2.clone()));
    assert_eq!(change.lost, Some(cs2));
    assert!(change.found.is_none());
    assert!(detector.active_game().is_none());
    assert_eq!(detector.set_active_game(None), None);
}

fn rules() -> AutoClipSettings {
    AutoClipSettings {
        enabled: true,
        cooldown_secs: 10,
        games: vec![PerGameAutoClip {
            game_name: "Counter-Strike 2".into(),
            enabled: true,
            events: vec!["kill".into(), "headshot".into(), "death".into()],
            kill_clip_duration: 15,
            death_clip_duration: 20,
            combat_event_duration: 30,
            audio_enabled: false,
        }],
    }
}

#[test]
fn auto_clips_follow_the_rules_and_cooldown() {
    const SEC: u64 = 1_000_000_000;
    let settings = rules();
    let mut trigger = AutoClipTrigger::new();
    let active = Some(DetectedGame { name: "Counter-Strike 2".into(), pid: 1 });
    let kill = GameMoment::new(MomentType::Kill, "Counter-Strike 2".into());
    let death = GameMoment::new(MomentType::Death, "Counter-Strike 2".into());
    let win = GameMoment::new(MomentType::Win, "Counter-Strike 2".into());
    assert_eq!(plan_auto_clip(&kill, &active, &settings, &mut trigger, 100 * SEC), Some(15));
    assert_eq!(plan_auto_clip(&death, &active, &settings, &mut trigger, 105 * SEC), None, "cooldown");
    assert_eq!(plan_auto_clip(&death, &active, &settings, &mut trigger, 110 * SEC), Some(20));
    assert_eq!(plan_auto_clip(&win, &active, &settings, &mut trigger, 200 * SEC), None, "win not listed");
    let other = Some(DetectedGame { name: "Rust".into(), pid: 2 });
    assert_eq!(plan_auto_clip(&kill, &other, &settings, &mut trigger, 300 * SEC), None);
    let mut off = rules();
    off.enabled = false;
    assert_eq!(plan_auto_clip(&kill, &active, &off, &mut trigger, 400 * SEC), None);
    assert_eq!(clip_duration(&settings.games[0], MomentType::Explosion), 30);
    assert_eq!(clip_duration(&settings.games[0], MomentType::Headshot), 15);
}

#[test]
fn cooldown_is_per_game() {
    let mut trigger = AutoClipTrigger::new();
    assert!(trigger.allow_at("A", 5, 0));
    assert!(trigger.allow_at("B", 5, 1));
    assert!(!trigger.allow_at("A", 5, 4_999_999_999));
    assert!(trigger.allow_at("A", 5, 5_000_000_000));
}

#[test]
fn auto_clip_file_names_are_file_safe() {
    assert_eq!(file_name_part("Counter-Strike 2"), "Counter_Strike_2");
    assert_eq!(
        auto_clip_file_name("Counter-Strike 2", "20260708_143022", "Match End"),
        "Counter_Strike_2_20260708_143022_MatchEnd.mp4"
    );
}

#[test]
fn rust_audio_engine_follows_the_active_game() {
    let mut engine = RustAudioEngine::new();
    let rust = DetectedGame { name: "Rust".into(), pid: 42 };
    assert_eq!(
        engine.update_active_game(true, Some(&rust)),
        AudioCaptureAction::Start { pid: 42, generation: 1 }
    );
    assert!(engine.is_current(42, 1));
    assert_eq!(engine.update_active_game(true, Some(&rust)), AudioCaptureAction::Keep);
    engine.mark_capture_stopped(1);
    assert_eq!(
        engine.update_active_game(true, Some(&rust)),
        AudioCaptureAction::Start { pid: 42, generation: 2 }
    );
    assert_eq!(engine.update_active_game(false, Some(&rust)), AudioCaptureAction::Stop);
    assert!(!engine.is_current(42, 2));
    assert_eq!(engine.update_active_game(false, None), AudioCaptureAction::Keep);
    assert_eq!(engine.generation(), 3);
}

#[test]
fn the_first_window_showing_a_game_is_the_running_game() {
    let registry = GameRegistry::new();
    let windows = vec![
        WindowInfo { title: "Discord".into(), pid: 10 },
        WindowInfo { title: "Counter-Strike 2".into(), pid: 20 },
        WindowInfo { title: "RUST".into(), pid: 30 },
    ];
    let found = detect_running_game(&registry, &windows).unwrap();
    assert_eq!((found.name.as_str(), found.pid), ("Counter-Strike 2", 20));
    assert!(detect_running_game(&registry, &windows[..1]).is_none());
    let rust = detect_running_game(&registry, &windows[2..]).unwrap();
    assert_eq!((rust.name.as_str(), rust.pid), ("Rust", 30));
}
