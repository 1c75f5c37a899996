use std::path::PathBuf;

use prism::clock::{format_compact_timestamp, format_unix_timestamp};
use prism::commands::library::{
    clip_created_at, clip_name_cuts_ok, clip_path_in, delete_target, is_mp4, metadata_target, rename_targets,
    metadata_path, output_dir_from, parse_clip_timestamp,
    renamed_clip_filename, sort_clips_newest_first, str_less, thumbnail_path, validate_metadata_field,
    ClipInfo,
};

#[test]
fn clip_sidecars_follow_the_clip_filename() {
    let clip = "C:/clips/highlight.mp4";

    assert_eq!(
        PathBuf::from(metadata_path(clip)),
        PathBuf::from("C:/clips/highlight.mp4.json")
    );
    assert_eq!(
        PathBuf::from(thumbnail_path(clip)),
        PathBuf::from("C:/clips/highlight_thumb.jpg")
    );
}

#[test]
fn metadata_fields_are_trimmed_and_bounded() {
    assert_eq!(
        validate_metadata_field("Game", "  Prism Arena  ".into(), 120).unwrap(),
        "Prism Arena"
    );
    assert!(validate_metadata_field("Title", "x".repeat(121), 120).is_err());
}

#[test]
fn metadata_length_counts_characters_and_names_the_field() {
    assert_eq!(
        validate_metadata_field("Title", "x".repeat(121), 120).unwrap_err(),
        "Title must be 120 characters or fewer"
    );
    let accented = "é".repeat(120);
    assert_eq!(validate_metadata_field("Title", accented.clone(), 120).unwrap(), accented);
    assert_eq!(validate_metadata_field("Game", "\t\n \u{3000}".into(), 0).unwrap(), "");
}

#[test]
fn clip_file_names_carry_their_timestamp() {
    assert_eq!(
        parse_clip_timestamp("clip_20260708_143022.mp4").as_deref(),
        Some("2026-07-08T14:30:22Z")
    );
    assert_eq!(parse_clip_timestamp("clip_20260708_143022.mkv"), None);
    assert_eq!(parse_clip_timestamp("clip_2026070_1430221.mp4"), None);
    assert_eq!(parse_clip_timestamp("clip_2026_708_143022.mp4"), None);
    assert_eq!(parse_clip_timestamp("highlight.mp4"), None);
    assert_eq!(
        parse_clip_timestamp("clip_ééé12_éé12.mp4").as_deref(),
        Some("éé-é-12Té:é:12Z")
    );
}

#[test]
fn clip_name_cut_check_spots_split_characters() {
    assert!(clip_name_cuts_ok("clip_20260708_143022.mp4"));
    assert!(clip_name_cuts_ok("clip_ééé12_éé12.mp4"));
    assert!(!clip_name_cuts_ok("clip_ééé12_1é3é.mp4"));
    assert!(clip_name_cuts_ok("anything else"));
}

#[test]
fn unix_timestamps_use_the_approximate_calendar() {
    assert_eq!(format_unix_timestamp(0), "1970-01-01T00:00:00Z");
    assert_eq!(format_unix_timestamp(86_399), "1970-01-01T23:59:59Z");
    assert_eq!(format_unix_timestamp(1_700_000_000), "2023-12-10T22:13:20Z");
    assert_eq!(format_unix_timestamp(94_672_800), "1972-12-02T18:00:00Z");
    assert_eq!(format_unix_timestamp(u64::MAX), "9999-09-06T07:00:15Z");
    assert_eq!(format_compact_timestamp(1_700_000_000), "20231210_221320");
}

#[test]
fn output_directory_prefers_the_configured_one() {
    assert_eq!(output_dir_from("/data/clips", Some("/home/u/Videos".into())), "/data/clips");
    assert_eq!(
        PathBuf::from(output_dir_from("", Some("/home/u/Videos".into()))),
        PathBuf::from("/home/u/Videos/Prism")
    );
    assert_eq!(output_dir_from("", None), ".");
}

fn entry(name: &str, created_at: &str) -> ClipInfo {
    ClipInfo {
        id: name.to_string(),
        path: format!("/clips/{name}"),
        filename: name.to_string(),
        duration_secs: 30,
        created_at: created_at.to_string(),
        size_bytes: 1024,
        title: String::new(),
        description: String::new(),
        game: String::new(),
    }
}

#[test]
fn creation_time_comes_from_the_name_then_the_file() {
    assert_eq!(clip_created_at("clip_20260708_143022.mp4", Some(0)), "2026-07-08T14:30:22Z");
    assert_eq!(clip_created_at("highlight.mp4", Some(0)), "1970-01-01T00:00:00Z");
    assert_eq!(clip_created_at("highlight.mp4", Some(86_400)), format_unix_timestamp(86_400));
    assert_eq!(clip_created_at("highlight.mp4", None), "");
}

#[test]
fn renamed_clips_get_a_trimmed_mp4_name() {
    assert_eq!(renamed_clip_filename("  best round ").unwrap(), "best round.mp4");
    assert_eq!(renamed_clip_filename("   ").unwrap_err(), "Name cannot be empty");
    assert_eq!(renamed_clip_filename("").unwrap_err(), "Name cannot be empty");
    assert_eq!(
        renamed_clip_filename("a/b").unwrap_err(),
        "Name cannot contain path separators"
    );
    assert_eq!(
        renamed_clip_filename("a\\b").unwrap_err(),
        "Name cannot contain path separators"
    );
}

#[test]
fn strings_compare_like_str() {
    let cases = ["", "a", "ab", "b", "2026-01-01", "2026-01-02", "é", "z"];
    for a in cases {
        for b in cases {
            assert_eq!(str_less(a, b), a < b, "{a} < {b}");
        }
    }
}

#[test]
fn clips_are_listed_newest_first_and_ties_keep_their_order() {
    let entries = vec![
        entry("a.mp4", "2026-01-02T00:00:00Z"),
        entry("b.mp4", "2026-03-01T00:00:00Z"),
        entry("c.mp4", ""),
        entry("d.mp4", "2026-03-01T00:00:00Z"),
        entry("e.mp4", "2025-12-31T23:59:59Z"),
    ];
    let mut expected = entries.clone();
    expected.sort_by(|a, b| b.created_at.cmp(&a.created_at));
    let sorted = sort_clips_newest_first(entries);
    let names: Vec<&str> = sorted.iter().map(|c| c.filename.as_str()).collect();
    assert_eq!(names, vec!["b.mp4", "d.mp4", "a.mp4", "e.mp4", "c.mp4"]);
    let expected_names: Vec<&str> = expected.iter().map(|c| c.filename.as_str()).collect();
    assert_eq!(names, expected_names);
    assert!(sort_clips_newest_first(Vec::new()).is_empty());
}

#[test]
fn clip_requests_stay_inside_the_clip_directory() {
    assert_eq!(
        clip_path_in("/clips", "a.mp4").map(PathBuf::from),
        Some(PathBuf::from("/clips/a.mp4"))
    );
    assert_eq!(clip_path_in("/clips", "/etc/passwd"), None);

    assert_eq!(PathBuf::from(delete_target("/clips", "a.mp4").unwrap()), PathBuf::from("/clips/a.mp4"));
    assert_eq!(delete_target("/clips", "/etc/a.mp4"), Err("Invalid file path".to_string()));
    assert_eq!(delete_target("/clips", "a.txt"), Err("Not a clip file".to_string()));
    assert_eq!(delete_target("/clips", "a.MP4"), Err("Not a clip file".to_string()));

    let (old, new) = rename_targets("/clips", "a.mp4", "b.mp4").unwrap();
    assert_eq!((PathBuf::from(old), PathBuf::from(new)), (PathBuf::from("/clips/a.mp4"), PathBuf::from("/clips/b.mp4")));
    assert_eq!(rename_targets("/clips", "a.txt", "/tmp/b.mp4"), Err("Invalid file path".to_string()));
    assert_eq!(rename_targets("/clips", "a.txt", "b.mp4"), Err("Not a clip file".to_string()));

    assert!(metadata_target("/clips", "a.mp4").is_some());
    assert_eq!(metadata_target("/clips", "a.mkv"), None);
    assert_eq!(metadata_target("/clips", "/other/a.mp4"), None);
    assert!(is_mp4("x/y.mp4"));
    assert!(!is_mp4("x/mp4"));
}
