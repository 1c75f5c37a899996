//! Cloud upload: the task queue, the request body, and the decisions of the
//! background upload processor (which task to send, whether the settings
//! allow it, and what each upload outcome does to the queue).
use vstd::prelude::*;

pub mod client;
pub mod queue;

use crate::text::{chars_contains, chars_of, contains_seq, string_from_chars};
use queue::{
    after_failure, completed, find_pending_from, permanently_failed, started, update_by_id,
    with_share_url, UploadQueue, UploadStatus, UploadTask,
};

verus! {

/// Automatic retries of a task after a failed upload attempt.
pub const UPLOAD_MAX_RETRIES: u32 = 3;

/// Path of the upload endpoint below the server URL.
pub open spec fn upload_endpoint() -> Seq<char> {
    "/api/clips/upload"@
}

/// `s` without trailing `/` characters.
pub open spec fn without_trailing_slashes(s: Seq<char>) -> Seq<char>
    decreases s.len(),
{
    if s.len() > 0 && s.last() == '/' {
        without_trailing_slashes(s.drop_last())
    } else {
        s
    }
}

/// Number of tasks that are uploading right now.
pub open spec fn uploading_count(s: Seq<UploadTask>, n: int) -> nat
    decreases n,
{
    if n <= 0 {
        0
    } else {
        uploading_count(s, n - 1) + if s[n - 1].status is Uploading {
            1nat
        } else {
            0nat
        }
    }
}

/// Where an upload goes: the server URL without trailing slashes, and the
/// upload endpoint below it.
pub struct UploadTarget {
    pub base_url: String,
    pub upload_url: String,
}

/// What the processor does after an upload attempt.
#[derive(Debug, PartialEq, Eq, Structural, Clone, Copy)]
pub enum UploadOutcome {
    /// The upload succeeded and the task is completed.
    Completed,
    /// The server refused the token: refresh it once, then report back with
    /// `token_refreshed`.
    RefreshToken,
    /// The session is gone: the task failed for good and the user must sign
    /// in again.
    SessionExpired,
    /// The attempt failed; the task is retried while retries remain.
    Failed,
}

/// Error text of a failed upload when no server is configured.
pub open spec fn no_server_text() -> Seq<char> {
    "Server URL not configured"@
}

/// Error text of a failed upload when not signed in.
pub open spec fn not_signed_in_text() -> Seq<char> {
    "Not authenticated — sign in first"@
}

/// Error text of a task whose clip file is gone.
pub open spec fn clip_deleted_text() -> Seq<char> {
    "Clip file was deleted"@
}

/// Error text of a task whose session expired.
pub open spec fn session_expired_text() -> Seq<char> {
    "Session expired — please sign in again"@
}

/// Error text of a task retried after a token refresh.
pub open spec fn token_expired_text() -> Seq<char> {
    "Token expired, will retry"@
}

/// The state the background upload processor keeps between ticks.
pub struct UploadProcessor {
    /// Whether the access token was refreshed in this session already.
    pub refreshed_this_session: bool,
}

impl UploadProcessor {
    /// A processor that has not refreshed the token yet.
    pub fn new() -> (r: Self)
        ensures
            !r.refreshed_this_session,
    {
        UploadProcessor { refreshed_this_session: false }
    }

    /// Picks the next task to upload: none while `max_concurrent` uploads
    /// are running, otherwise the first pending task, marked uploading.
    pub fn pick_next(&self, queue: &mut UploadQueue, max_concurrent: u32) -> (r: Option<UploadTask>)
        ensures
            (uploading_count(old(queue)@, old(queue)@.len() as int) as u32) >= max_concurrent ==> {
                &&& final(queue)@ == old(queue)@
                &&& r is None
            },
            (uploading_count(old(queue)@, old(queue)@.len() as int) as u32) < max_concurrent ==> {
                match find_pending_from(old(queue)@, 0) {
                    Some(i) => exists|now: u64|
                        {
                            &&& final(queue)@ == old(queue)@.update(
                                i,
                                #[trigger] started(old(queue)@[i], now),
                            )
                            &&& r == Some(started(old(queue)@[i], now))
                        },
                    None => final(queue)@ == old(queue)@ && r is None,
                }
            },
    {
        let tasks = queue.all();
        let mut active: usize = 0;
        let mut i: usize = 0;
        while i < tasks.len()
            invariant
                i <= tasks@.len(),
                tasks@ == queue@,
                active == uploading_count(tasks@, i as int),
                active <= i,
            decreases tasks@.len() - i,
        {
            if matches!(tasks[i].status, UploadStatus::Uploading) {
                active += 1;
            }
            i += 1;
        }
        if (active as u32) >= max_concurrent {
            return None;
        }
        queue.next_pending()
    }

    /// Checks that task `task_id` can be sent: a server must be configured,
    /// the user signed in, and the clip file present (`clip_exists`). On
    /// success returns where to send it; otherwise records the failure.
    pub fn prepare(
        &self,
        queue: &mut UploadQueue,
        task_id: &str,
        server_url: &str,
        access_token: &str,
        clip_exists: bool,
    ) -> (r: Option<UploadTarget>)
        ensures
            without_trailing_slashes(server_url@).len() == 0 ==> {
                &&& r is None
                &&& failed_once_with(old(queue)@, final(queue)@, task_id@, no_server_text())
            },
            without_trailing_slashes(server_url@).len() > 0 && access_token@.len() == 0 ==> {
                &&& r is None
                &&& failed_once_with(old(queue)@, final(queue)@, task_id@, not_signed_in_text())
            },
            without_trailing_slashes(server_url@).len() > 0 && access_token@.len() > 0 && !clip_exists
                ==> {
                &&& r is None
                &&& failed_for_good_with(old(queue)@, final(queue)@, task_id@, clip_deleted_text())
            },
            without_trailing_slashes(server_url@).len() > 0 && access_token@.len() > 0 && clip_exists
                ==> {
                &&& final(queue)@ == old(queue)@
                &&& r matches Some(target) && target.base_url@ == without_trailing_slashes(server_url@)
                    && target.upload_url@ == without_trailing_slashes(server_url@) + upload_endpoint()
            },
    {
        let base = trim_trailing_slashes(server_url);
        if base.as_str().is_empty() {
            let msg = String::from_str("Server URL not configured");
            let ghost g = msg;
            queue.mark_failed(task_id, msg, UPLOAD_MAX_RETRIES);
            assert(g@ == no_server_text());
            return None;
        }
        if access_token.is_empty() {
            let msg = String::from_str("Not authenticated — sign in first");
            let ghost g = msg;
            queue.mark_failed(task_id, msg, UPLOAD_MAX_RETRIES);
            assert(g@ == not_signed_in_text());
            return None;
        }
        if !clip_exists {
            let msg = String::from_str("Clip file was deleted");
            let ghost g = msg;
            queue.mark_permanent_failure(task_id, msg);
            assert(g@ == clip_deleted_text());
            return None;
        }
        let mut upload_url = base.clone();
        upload_url.append("/api/clips/upload");
        Some(UploadTarget { base_url: base, upload_url })
    }

    /// Applies the result of an upload attempt of task `task_id`: the share
    /// URL on success, or the error text on failure.
    pub fn finish(&self, queue: &mut UploadQueue, task_id: &str, result: Result<String, String>) -> (r:
        UploadOutcome)
        ensures
            match result {
                Ok(share_url) => {
                    &&& r == UploadOutcome::Completed
                    &&& final(queue)@ == update_by_id(
                        update_by_id(old(queue)@, task_id@, |t: UploadTask| completed(t)),
                        task_id@,
                        |t: UploadTask| with_share_url(t, share_url),
                    )
                },
                Err(e) => {
                    if contains_seq(e@, "401"@) && !self.refreshed_this_session {
                        &&& r == UploadOutcome::RefreshToken
                        &&& final(queue)@ == old(queue)@
                    } else if contains_seq(e@, "401"@) {
                        &&& r == UploadOutcome::SessionExpired
                        &&& failed_for_good_with(
                            old(queue)@,
                            final(queue)@,
                            task_id@,
                            session_expired_text(),
                        )
                    } else {
                        &&& r == UploadOutcome::Failed
                        &&& final(queue)@ == update_by_id(
                            old(queue)@,
                            task_id@,
                            |t: UploadTask| after_failure(t, e, UPLOAD_MAX_RETRIES),
                        )
                    }
                },
            },
    {
        match result {
            Ok(share_url) => {
                queue.mark_completed(task_id);
                queue.set_share_url(task_id, share_url);
                UploadOutcome::Completed
            },
            Err(e) => {
                let text = chars_of(e.as_str());
                let code = chars_of("401");
                if chars_contains(&text, &code) {
                    if !self.refreshed_this_session {
                        return UploadOutcome::RefreshToken;
                    }
                    let msg = String::from_str("Session expired — please sign in again");
                    let ghost g = msg;
                    queue.mark_permanent_failure(task_id, msg);
                    assert(g@ == session_expired_text());
                    UploadOutcome::SessionExpired
                } else {
                    queue.mark_failed(task_id, e, UPLOAD_MAX_RETRIES);
                    UploadOutcome::Failed
                }
            },
        }
    }

    /// Applies the result of the token refresh asked for by
    /// `UploadOutcome::RefreshToken`: on success the task is retried (and no
    /// further refresh is tried this session); otherwise it fails for good.
    /// Returns whether the session expired.
    pub fn token_refreshed(&mut self, queue: &mut UploadQueue, task_id: &str, ok: bool) -> (expired: bool)
        ensures
            expired == !ok,
            ok ==> {
                &&& final(self).refreshed_this_session
                &&& failed_once_with(old(queue)@, final(queue)@, task_id@, token_expired_text())
            },
            !ok ==> {
                &&& final(self).refreshed_this_session == old(self).refreshed_this_session
                &&& failed_for_good_with(old(queue)@, final(queue)@, task_id@, session_expired_text())
            },
    {
        if ok {
            self.refreshed_this_session = true;
            let msg = String::from_str("Token expired, will retry");
            let ghost g = msg;
            queue.mark_failed(task_id, msg, UPLOAD_MAX_RETRIES);
            assert(g@ == token_expired_text());
            false
        } else {
            let msg = String::from_str("Session expired — please sign in again");
            let ghost g = msg;
            queue.mark_permanent_failure(task_id, msg);
            assert(g@ == session_expired_text());
            true
        }
    }
}

/// `after` is `before` with task `id` failed once with an error reading
/// `text` (retried while retries remain).
pub open spec fn failed_once_with(
    before: Seq<UploadTask>,
    after: Seq<UploadTask>,
    id: Seq<char>,
    text: Seq<char>,
) -> bool {
    exists|e: String|
        #![trigger e@]
        e@ == text && after == update_by_id(
            before,
            id,
            |t: UploadTask| after_failure(t, e, UPLOAD_MAX_RETRIES),
        )
}

/// `after` is `before` with task `id` failed for good with an error
/// reading `text`.
pub open spec fn failed_for_good_with(
    before: Seq<UploadTask>,
    after: Seq<UploadTask>,
    id: Seq<char>,
    text: Seq<char>,
) -> bool {
    exists|e: String|
        #![trigger e@]
        e@ == text && after == update_by_id(before, id, |t: UploadTask| permanently_failed(t, e))
}

/// `s` without trailing `/` characters.
pub fn trim_trailing_slashes(s: &str) -> (r: String)
    ensures
        r@ == without_trailing_slashes(s@),
{
    let cs = chars_of(s);
    let mut end = cs.len();
    assert(cs@.subrange(0, end as int) =~= cs@);
    while end > 0 && cs[end - 1] == '/'
        invariant
            end <= cs@.len(),
            without_trailing_slashes(cs@.subrange(0, end as int)) == without_trailing_slashes(cs@),
        decreases end,
    {
        assert(cs@.subrange(0, end as int).drop_last() =~= cs@.subrange(0, end - 1));
        end -= 1;
    }
    assert(cs@.subrange(0, 0) =~= Seq::<char>::empty());
    string_from_chars(&cs.as_slice()[0..end])
}

} // verus!
