use prism::upload::queue::{UploadMetadata, UploadQueue, UploadStatus, UploadTask};

fn make_metadata() -> UploadMetadata {
    UploadMetadata {
        title: "test_clip".into(),
        game: "TestGame".into(),
        duration_secs_bits: 30.0f64.to_bits(),
        width: 1920,
        height: 1080,
        codec: "h264".into(),
        size_bytes: 1_000_000,
    }
}

fn make_queue() -> UploadQueue {
    let mut q = UploadQueue::new();
    q.enqueue_with_meta(
        "task_1".into(),
        "/clips/clip_1.mp4".into(),
        "https://example.com".into(),
        "prism_test_key".into(),
        make_metadata(),
    );
    q
}

fn completed_task(i: u64) -> UploadTask {
    UploadTask {
        id: format!("c_{i}"),
        clip_path: format!("/clips/c_{i}.mp4"),
        status: UploadStatus::Completed,
        progress_bits: 1.0f32.to_bits(),
        started_at_secs: Some(i),
        server_url: None,
        api_key: None,
        title: format!("c_{i}"),
        game: String::new(),
        duration_secs_bits: 0.0f64.to_bits(),
        width: 0,
        height: 0,
        codec: "h264".into(),
        size_bytes: 0,
        retry_count: 0,
        share_url: Some(format!("/s/{i}")),
        error: None,
    }
}

#[test]
fn test_enqueue_and_all() {
    let q = make_queue();
    let all = q.all();
    assert_eq!(all.len(), 1);
    assert_eq!(all[0].id, "task_1");
    assert_eq!(all[0].status, UploadStatus::Pending);
}

#[test]
fn test_next_pending_marks_uploading() {
    let mut q = make_queue();
    let task = q.next_pending();
    assert!(task.is_some());
    assert_eq!(task.unwrap().id, "task_1");

    let all = q.all();
    assert_eq!(all[0].status, UploadStatus::Uploading);
    assert!(all[0].started_at_secs.is_some());
}

#[test]
fn test_next_pending_empty() {
    let mut q = UploadQueue::new();
    assert!(q.next_pending().is_none());
}

#[test]
fn test_next_pending_skips_non_pending() {
    let mut q = UploadQueue::new();
    q.enqueue_with_meta(
        "task_1".into(),
        "/clips/clip_1.mp4".into(),
        "https://example.com".into(),
        "key".into(),
        make_metadata(),
    );
    q.mark_completed("task_1");
    assert!(q.next_pending().is_none());
}

#[test]
fn test_mark_completed() {
    let mut q = make_queue();
    let _ = q.next_pending();
    q.mark_completed("task_1");

    let all = q.all();
    assert_eq!(all[0].status, UploadStatus::Completed);
    assert!((f32::from_bits(all[0].progress_bits) - 1.0).abs() < f32::EPSILON);
}

#[test]
fn test_mark_failed_retries_then_permanent() {
    let mut q = make_queue();
    q.mark_failed("task_1", "error 1".into(), 2);

    let all = q.all();
    assert_eq!(all[0].status, UploadStatus::Pending, "should retry on 1st failure");
    assert_eq!(all[0].retry_count, 1);

    q.mark_failed("task_1", "error 2".into(), 2);
    let all = q.all();
    assert_eq!(all[0].status, UploadStatus::Pending, "should retry on 2nd failure");
    assert_eq!(all[0].retry_count, 2);

    q.mark_failed("task_1", "final error".into(), 2);
    let all = q.all();
    assert_eq!(all[0].status, UploadStatus::Failed("final error".into()));
    assert_eq!(all[0].error.as_deref(), Some("final error"));
}

#[test]
fn test_mark_failed_no_retries() {
    let mut q = make_queue();
    q.mark_failed("task_1", "error".into(), 0);

    let all = q.all();
    assert_eq!(all[0].status, UploadStatus::Failed("error".into()));
    assert_eq!(all[0].retry_count, 0);
    assert_eq!(all[0].error.as_deref(), Some("error"));
}

#[test]
fn test_cancel() {
    let mut q = make_queue();
    q.cancel("task_1");
    let all = q.all();
    assert_eq!(all[0].status, UploadStatus::Cancelled);
}

#[test]
fn test_retry_resets_failed() {
    let mut q = make_queue();
    q.mark_failed("task_1", "err".into(), 2);
    q.mark_failed("task_1", "err".into(), 2);
    q.mark_failed("task_1", "err".into(), 2);
    q.mark_failed("task_1", "permanent".into(), 2);

    let all = q.all();
    assert_eq!(all[0].status, UploadStatus::Failed("permanent".into()));

    q.retry("task_1");
    let all = q.all();
    assert_eq!(all[0].status, UploadStatus::Pending);
    assert_eq!(all[0].retry_count, 0);
    assert!(all[0].error.is_none());
}

#[test]
fn test_set_share_url() {
    let mut q = make_queue();
    q.set_share_url("task_1", "/s/abc123".into());
    let all = q.all();
    assert_eq!(all[0].share_url.as_deref(), Some("/s/abc123"));
}

#[test]
fn test_update_progress() {
    let mut q = make_queue();
    q.update_progress("task_1", 0.5f32.to_bits());
    let all = q.all();
    assert!((f32::from_bits(all[0].progress_bits) - 0.5).abs() < f32::EPSILON);
}

#[test]
fn test_cleanup_completed_keeps_recent_and_history() {
    // Completed uploads are kept as history (no time-based deletion).
    let mut q = make_queue();
    q.mark_completed("task_1");
    q.cleanup_completed();
    let all = q.all();
    assert_eq!(all.len(), 1, "completed uploads should be retained as history");
}

#[test]
fn test_cleanup_completed_caps_history() {
    let mut q = UploadQueue::new();
    let tasks: Vec<UploadTask> = (0..2010).map(completed_task).collect();
    let exists = vec![true; tasks.len()];
    q.restore(tasks, exists);
    q.cleanup_completed();
    let all = q.all();
    assert_eq!(all.len(), 2000, "history should be capped at MAX_COMPLETED");
    assert!(all.iter().all(|t| t.status == UploadStatus::Completed));
    // Oldest entries dropped, newest retained.
    assert_eq!(all[0].id, "c_10", "oldest retained should be c_10");
    assert_eq!(all[1999].id, "c_2009", "newest retained should be c_2009");
}

#[test]
fn cleanup_drops_oldest_by_start_time_and_keeps_other_tasks() {
    let mut q = UploadQueue::new();
    // Completed tasks whose start times run backwards, interleaved with a pending one.
    let mut tasks: Vec<UploadTask> = (0..2003).map(|i| completed_task(5000 - i)).collect();
    let mut pending = completed_task(1);
    pending.id = "pending".into();
    pending.status = UploadStatus::Pending;
    tasks.insert(1000, pending);
    let exists = vec![true; tasks.len()];
    q.restore(tasks, exists);
    q.cleanup_completed();
    let all = q.all();
    assert_eq!(all.len(), 2001);
    assert_eq!(all[1000].id, "pending");
    // The three latest-listed tasks started earliest and were dropped.
    assert_eq!(all[0].id, "c_5000");
    assert_eq!(all[2000].id, "c_3001");
}

#[test]
fn operations_on_unknown_ids_change_nothing() {
    let mut q = make_queue();
    q.mark_completed("nope");
    q.mark_failed("nope", "e".into(), 0);
    q.cancel("nope");
    q.retry("nope");
    q.set_share_url("nope", "/s/x".into());
    let all = q.all();
    assert_eq!(all.len(), 1);
    assert_eq!(all[0].status, UploadStatus::Pending);
    assert!(all[0].share_url.is_none());
}

#[test]
fn persisted_tasks_exclude_cancelled_and_restore_resumes_interrupted_uploads() {
    let mut q = make_queue();
    q.enqueue_with_meta(
        "task_2".into(),
        "/clips/clip_2.mp4".into(),
        "https://example.com".into(),
        "key".into(),
        make_metadata(),
    );
    q.enqueue_with_meta(
        "task_3".into(),
        "/clips/clip_3.mp4".into(),
        "https://example.com".into(),
        "key".into(),
        make_metadata(),
    );
    let _ = q.next_pending();
    q.cancel("task_2");
    let saved = q.persisted();
    assert_eq!(saved.len(), 2);
    assert_eq!(saved[0].status, UploadStatus::Uploading);

    let mut reloaded = UploadQueue::new();
    reloaded.restore(saved, vec![true, false]);
    let all = reloaded.all();
    assert_eq!(all.len(), 1, "deleted clips should be skipped on reload");
    assert_eq!(all[0].id, "task_1");
    assert_eq!(all[0].status, UploadStatus::Pending);
    assert!(all[0].started_at_secs.is_none());
}
