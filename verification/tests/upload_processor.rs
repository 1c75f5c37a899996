use prism::commands::uploads::{upload_clip, upload_title_of};
use prism::settings::config::CloudSettings;
use prism::upload::client::{build_multipart_body, UploadError};
use prism::upload::queue::{UploadMetadata, UploadQueue, UploadStatus};
use prism::upload::{trim_trailing_slashes, UploadOutcome, UploadProcessor, UPLOAD_MAX_RETRIES};

fn metadata() -> UploadMetadata {
    UploadMetadata {
        title: "Ace".into(),
        game: "CS2".into(),
        duration_secs_bits: 30.0f64.to_bits(),
        width: 1920,
        height: 1080,
        codec: "h264".into(),
        size_bytes: 4,
    }
}

fn queue_with(ids: &[&str]) -> UploadQueue {
    let mut q = UploadQueue::new();
    for id in ids {
        q.enqueue_with_meta(
            id.to_string(),
            format!("/clips/{id}.mp4"),
            "https://example.com".into(),
            "key".into(),
            metadata(),
        );
    }
    q
}

#[test]
fn pick_respects_the_concurrency_limit() {
    let p = UploadProcessor::new();
    let mut q = queue_with(&["a", "b"]);
    let first = p.pick_next(&mut q, 1).expect("first pending task");
    assert_eq!(first.id, "a");
    assert!(p.pick_next(&mut q, 1).is_none(), "one upload already running");
    let second = p.pick_next(&mut q, 2).expect("room for a second upload");
    assert_eq!(second.id, "b");
    assert!(p.pick_next(&mut q, 0).is_none());
}

#[test]
fn prepare_builds_the_upload_endpoint() {
    let p = UploadProcessor::new();
    let mut q = queue_with(&["a"]);
    let target = p
        .prepare(&mut q, "a", "https://prism.example///", "token", true)
        .expect("ready to upload");
    assert_eq!(target.base_url, "https://prism.example");
    assert_eq!(target.upload_url, "https://prism.example/api/clips/upload");
    assert_eq!(q.all()[0].status, UploadStatus::Pending);
}

#[test]
fn prepare_rejects_missing_settings_and_deleted_clips() {
    let p = UploadProcessor::new();
    let mut q = queue_with(&["a", "b", "c"]);
    assert!(p.prepare(&mut q, "a", "///", "token", true).is_none());
    assert!(p.prepare(&mut q, "b", "https://x", "", true).is_none());
    assert!(p.prepare(&mut q, "c", "https://x", "token", false).is_none());
    let all = q.all();
    assert_eq!(all[0].retry_count, 1);
    assert_eq!(all[0].status, UploadStatus::Pending);
    assert_eq!(all[1].retry_count, 1);
    assert_eq!(all[2].status, UploadStatus::Failed("Clip file was deleted".into()));
    assert_eq!(all[2].retry_count, 99);
}

#[test]
fn finish_records_success_and_share_url() {
    let p = UploadProcessor::new();
    let mut q = queue_with(&["a"]);
    let outcome = p.finish(&mut q, "a", Ok("/s/xyz".into()));
    assert_eq!(outcome, UploadOutcome::Completed);
    let all = q.all();
    assert_eq!(all[0].status, UploadStatus::Completed);
    assert_eq!(all[0].share_url.as_deref(), Some("/s/xyz"));
}

#[test]
fn unauthorized_uploads_refresh_the_token_once() {
    let mut p = UploadProcessor::new();
    let mut q = queue_with(&["a"]);
    let outcome = p.finish(&mut q, "a", Err("HTTP error: HTTP 401 Unauthorized: {}".into()));
    assert_eq!(outcome, UploadOutcome::RefreshToken);
    assert_eq!(q.all()[0].status, UploadStatus::Pending);
    assert!(!p.token_refreshed(&mut q, "a", true));
    assert!(p.refreshed_this_session);
    assert_eq!(q.all()[0].retry_count, 1);

    let again = p.finish(&mut q, "a", Err("HTTP error: HTTP 401 Unauthorized: {}".into()));
    assert_eq!(again, UploadOutcome::SessionExpired);
    assert_eq!(
        q.all()[0].status,
        UploadStatus::Failed("Session expired — please sign in again".into())
    );
}

#[test]
fn failed_refresh_expires_the_session() {
    let mut p = UploadProcessor::new();
    let mut q = queue_with(&["a"]);
    assert!(p.token_refreshed(&mut q, "a", false));
    assert!(!p.refreshed_this_session);
    assert_eq!(q.all()[0].retry_count, 99);
}

#[test]
fn other_errors_are_retried_until_the_limit() {
    let p = UploadProcessor::new();
    let mut q = queue_with(&["a"]);
    for attempt in 1..=UPLOAD_MAX_RETRIES {
        assert_eq!(p.finish(&mut q, "a", Err("HTTP error: 500".into())), UploadOutcome::Failed);
        assert_eq!(q.all()[0].retry_count, attempt);
        assert_eq!(q.all()[0].status, UploadStatus::Pending);
    }
    p.finish(&mut q, "a", Err("HTTP error: 500".into()));
    assert_eq!(q.all()[0].status, UploadStatus::Failed("HTTP error: 500".into()));
}

#[test]
fn trailing_slashes_are_trimmed() {
    assert_eq!(trim_trailing_slashes("https://a.b/c//"), "https://a.b/c");
    assert_eq!(trim_trailing_slashes("/"), "");
    assert_eq!(trim_trailing_slashes("abc"), "abc");
}

#[test]
fn upload_errors_read_like_their_kind() {
    assert_eq!(UploadError::File("gone".into()).message(), "File error: gone");
    assert_eq!(UploadError::Http("HTTP 500".into()).message(), "HTTP error: HTTP 500");
}

#[test]
fn multipart_body_has_the_browser_layout() {
    let body = build_multipart_body("B", "clip.mp4", b"DATA", &metadata(), "30");
    let mut expected = String::new();
    expected.push_str("--B\r\n");
    expected.push_str("Content-Disposition: form-data; name=\"file\"; filename=\"clip.mp4\"\r\n");
    expected.push_str("Content-Type: video/mp4\r\n");
    expected.push_str("\r\n");
    expected.push_str("DATA\r\n");
    expected.push_str("--B\r\nContent-Disposition: form-data; name=\"title\"\r\n\r\nAce\r\n");
    expected.push_str("--B\r\nContent-Disposition: form-data; name=\"game\"\r\n\r\nCS2\r\n");
    expected.push_str("--B\r\nContent-Disposition: form-data; name=\"duration_secs\"\r\n\r\n30\r\n");
    expected.push_str("--B\r\nContent-Disposition: form-data; name=\"width\"\r\n\r\n1920\r\n");
    expected.push_str("--B\r\nContent-Disposition: form-data; name=\"height\"\r\n\r\n1080\r\n");
    expected.push_str("--B\r\nContent-Disposition: form-data; name=\"codec\"\r\n\r\nh264\r\n");
    expected.push_str("--B\r\nContent-Disposition: form-data; name=\"visibility\"\r\n\r\nunlisted\r\n");
    expected.push_str("--B--\r\n");
    assert_eq!(String::from_utf8(body).unwrap(), expected);
}

#[test]
fn clips_are_queued_only_when_signed_in_configured_and_present() {
    let mut cloud = CloudSettings::default();
    cloud.server_url = "https://clips.example.com".to_string();
    cloud.api_key = "key".to_string();
    let mut queue = UploadQueue::new();
    let bits = 30.0f64.to_bits();

    let e = upload_clip(&mut queue, &cloud, "", "/c/a.mp4".into(), "a.mp4", "cs2".into(), true, 1, bits, 1920, 1080);
    assert_eq!(e.unwrap_err(), "Not authenticated — sign in first");
    let mut no_server = cloud.clone();
    no_server.server_url = String::new();
    let e = upload_clip(&mut queue, &no_server, "tok", "/c/a.mp4".into(), "a.mp4", "cs2".into(), true, 1, bits, 1920, 1080);
    assert_eq!(e.unwrap_err(), "Server URL not configured");
    let e = upload_clip(&mut queue, &cloud, "tok", "/c/a.mp4".into(), "a.mp4", "cs2".into(), false, 1, bits, 1920, 1080);
    assert_eq!(e.unwrap_err(), "Clip not found: /c/a.mp4");
    assert!(queue.all().is_empty());

    let id = upload_clip(&mut queue, &cloud, "tok", "/c/a.mp4".into(), "a.mp4", "cs2".into(), true, 2048, bits, 1920, 1080)
        .unwrap();
    assert!(id.starts_with("upload_") && id.len() == "upload_".len() + 15);
    let tasks = queue.all();
    assert_eq!(tasks.len(), 1);
    let t = &tasks[0];
    assert_eq!(t.id, id);
    assert_eq!(t.status, UploadStatus::Pending);
    assert_eq!(t.title, "a");
    assert_eq!(t.codec, "h264");
    assert_eq!(t.server_url.as_deref(), Some("https://clips.example.com"));
    assert_eq!(t.api_key.as_deref(), Some("key"));
    assert_eq!((t.width, t.height, t.size_bytes), (1920, 1080, 2048));
    assert_eq!(f64::from_bits(t.duration_secs_bits), 30.0);

    assert_eq!(upload_title_of("best.mp4"), "best");
    assert_eq!(upload_title_of("best.mov"), "best.mov");
    assert_eq!(upload_title_of(".mp4"), "");
}
