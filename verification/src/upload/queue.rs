//! The upload queue: tasks with their lifecycle (pending → uploading →
//! completed / failed / cancelled), bounded retries, and a capped history of
//! completed uploads. Persistence is the caller's: `persisted` gives what is
//! written, `restore` takes what was read.
use vstd::prelude::*;

use crate::clock::unix_now_secs;
use vstd::set_lib::{lemma_int_range, lemma_len_subset, lemma_map_size, lemma_subset_equality, set_int_range};

verus! {

/// Completed uploads kept as history before the oldest are dropped.
pub const MAX_COMPLETED: usize = 2000;

/// Retry count given to a task that must never be retried automatically.
pub const PERMANENT_FAILURE_RETRIES: u32 = 99;

/// Bit pattern of the `f32` value `1.0` (a finished upload's progress).
pub const PROGRESS_DONE_BITS: u32 = 0x3F80_0000;

/// Status of a single upload task.
#[derive(Debug, Clone, PartialEq)]
pub enum UploadStatus {
    Pending,
    Uploading,
    Completed,
    Failed(String),
    Cancelled,
}

impl UploadStatus {
    /// A copy of this status.
    pub fn duplicate(&self) -> (r: Self)
        ensures
            r == *self,
    {
        match self {
            UploadStatus::Pending => UploadStatus::Pending,
            UploadStatus::Uploading => UploadStatus::Uploading,
            UploadStatus::Completed => UploadStatus::Completed,
            UploadStatus::Failed(e) => UploadStatus::Failed(e.clone()),
            UploadStatus::Cancelled => UploadStatus::Cancelled,
        }
    }
}

/// An upload task in the queue. Floating-point fields are held as the bit
/// patterns of their `f32` / `f64` values.
#[derive(Debug, Clone)]
pub struct UploadTask {
    pub id: String,
    pub clip_path: String,
    pub status: UploadStatus,
    /// Upload progress in `0.0..=1.0`, as `f32` bits.
    pub progress_bits: u32,
    pub started_at_secs: Option<u64>,
    pub server_url: Option<String>,
    pub api_key: Option<String>,
    pub title: String,
    pub game: String,
    /// Clip duration in seconds, as `f64` bits.
    pub duration_secs_bits: u64,
    pub width: u32,
    pub height: u32,
    pub codec: String,
    pub size_bytes: u64,
    pub retry_count: u32,
    pub share_url: Option<String>,
    pub error: Option<String>,
}

fn copy_opt_string(o: &Option<String>) -> (r: Option<String>)
    ensures
        r == *o,
{
    match o {
        Some(s) => Some(s.clone()),
        None => None,
    }
}

impl UploadTask {
    /// An equal task with its own strings.
    pub fn duplicate(&self) -> (r: Self)
        ensures
            r == *self,
    {
        UploadTask {
            id: self.id.clone(),
            clip_path: self.clip_path.clone(),
            status: self.status.duplicate(),
            progress_bits: self.progress_bits,
            started_at_secs: self.started_at_secs,
            server_url: copy_opt_string(&self.server_url),
            api_key: copy_opt_string(&self.api_key),
            title: self.title.clone(),
            game: self.game.clone(),
            duration_secs_bits: self.duration_secs_bits,
            width: self.width,
            height: self.height,
            codec: self.codec.clone(),
            size_bytes: self.size_bytes,
            retry_count: self.retry_count,
            share_url: copy_opt_string(&self.share_url),
            error: copy_opt_string(&self.error),
        }
    }
}

/// Metadata collected from a clip before it is queued for upload.
#[derive(Debug, Clone)]
pub struct UploadMetadata {
    pub title: String,
    pub game: String,
    /// Clip duration in seconds, as `f64` bits.
    pub duration_secs_bits: u64,
    pub width: u32,
    pub height: u32,
    pub codec: String,
    pub size_bytes: u64,
}

// ── Task transitions ────────────────────────────────────────────────────────

/// A freshly queued task.
pub open spec fn queued_task(
    id: String,
    clip_path: String,
    server_url: String,
    api_key: String,
    m: UploadMetadata,
) -> UploadTask {
    UploadTask {
        id,
        clip_path,
        status: UploadStatus::Pending,
        progress_bits: 0,
        started_at_secs: None,
        server_url: Some(server_url),
        api_key: Some(api_key),
        title: m.title,
        game: m.game,
        duration_secs_bits: m.duration_secs_bits,
        width: m.width,
        height: m.height,
        codec: m.codec,
        size_bytes: m.size_bytes,
        retry_count: 0,
        share_url: None,
        error: None,
    }
}

/// `t` picked for upload at `now`.
pub open spec fn started(t: UploadTask, now: u64) -> UploadTask {
    UploadTask { status: UploadStatus::Uploading, started_at_secs: Some(now), ..t }
}

/// `t` after a successful upload.
pub open spec fn completed(t: UploadTask) -> UploadTask {
    UploadTask { status: UploadStatus::Completed, progress_bits: PROGRESS_DONE_BITS, ..t }
}

/// `t` after a failed attempt: back to pending while retries remain,
/// otherwise failed with `error`.
pub open spec fn after_failure(t: UploadTask, error: String, max_retries: u32) -> UploadTask {
    if t.retry_count < max_retries {
        UploadTask {
            retry_count: (t.retry_count + 1) as u32,
            status: UploadStatus::Pending,
            progress_bits: 0,
            started_at_secs: None,
            error: None,
            ..t
        }
    } else {
        UploadTask { status: UploadStatus::Failed(error), error: Some(error), ..t }
    }
}

/// `t` failed for good: never retried automatically.
pub open spec fn permanently_failed(t: UploadTask, error: String) -> UploadTask {
    UploadTask {
        status: UploadStatus::Failed(error),
        retry_count: PERMANENT_FAILURE_RETRIES,
        error: Some(error),
        ..t
    }
}

/// `t` with a new progress value.
pub open spec fn with_progress(t: UploadTask, progress_bits: u32) -> UploadTask {
    UploadTask { progress_bits, ..t }
}

/// `t` cancelled.
pub open spec fn cancelled(t: UploadTask) -> UploadTask {
    UploadTask { status: UploadStatus::Cancelled, ..t }
}

/// `t` after a manual retry: a failed task starts over, others are unchanged.
pub open spec fn retried(t: UploadTask) -> UploadTask {
    if t.status is Failed {
        UploadTask {
            status: UploadStatus::Pending,
            progress_bits: 0,
            started_at_secs: None,
            retry_count: 0,
            error: None,
            ..t
        }
    } else {
        t
    }
}

/// `t` with its share URL.
pub open spec fn with_share_url(t: UploadTask, url: String) -> UploadTask {
    UploadTask { share_url: Some(url), ..t }
}

// ── Lookup ──────────────────────────────────────────────────────────────────

/// Index of the first task at or after `from` whose id is `id`.
pub open spec fn find_id_from(s: Seq<UploadTask>, id: Seq<char>, from: int) -> Option<int>
    decreases s.len() - from,
{
    if from < 0 || from >= s.len() {
        None
    } else if s[from].id@ == id {
        Some(from)
    } else {
        find_id_from(s, id, from + 1)
    }
}

/// Index of the first task whose id is `id`.
pub open spec fn find_id(s: Seq<UploadTask>, id: Seq<char>) -> Option<int> {
    find_id_from(s, id, 0)
}

/// Index of the first pending task at or after `from`.
pub open spec fn find_pending_from(s: Seq<UploadTask>, from: int) -> Option<int>
    decreases s.len() - from,
{
    if from < 0 || from >= s.len() {
        None
    } else if s[from].status is Pending {
        Some(from)
    } else {
        find_pending_from(s, from + 1)
    }
}

/// `s` with the first task whose id is `id` replaced by `f` of it.
pub open spec fn update_by_id(
    s: Seq<UploadTask>,
    id: Seq<char>,
    f: spec_fn(UploadTask) -> UploadTask,
) -> Seq<UploadTask> {
    match find_id(s, id) {
        Some(i) => s.update(i, f(s[i])),
        None => s,
    }
}

proof fn lemma_find_from_bounds(s: Seq<UploadTask>, id: Seq<char>, from: int)
    requires
        0 <= from,
    ensures
        find_id_from(s, id, from) matches Some(i) ==> from <= i < s.len() && s[i].id@ == id,
    decreases s.len() - from,
{
    if from < s.len() && s[from].id@ != id {
        lemma_find_from_bounds(s, id, from + 1);
    }
}

proof fn lemma_find_pending_bounds(s: Seq<UploadTask>, from: int)
    requires
        0 <= from,
    ensures
        find_pending_from(s, from) matches Some(i) ==> from <= i < s.len() && s[i].status is Pending,
    decreases s.len() - from,
{
    if from < s.len() && !(s[from].status is Pending) {
        lemma_find_pending_bounds(s, from + 1);
    }
}

// ── Persistence and history ─────────────────────────────────────────────────

/// Whether a task is written to disk (everything but cancelled tasks).
pub open spec fn is_persisted(t: UploadTask) -> bool {
    !(t.status is Cancelled)
}

/// The persisted tasks among the first `n` of `s`, in order.
pub open spec fn persisted_prefix(s: Seq<UploadTask>, n: int) -> Seq<UploadTask>
    decreases n,
{
    if n <= 0 {
        Seq::empty()
    } else if is_persisted(s[n - 1]) {
        persisted_prefix(s, n - 1).push(s[n - 1])
    } else {
        persisted_prefix(s, n - 1)
    }
}

/// What becomes of a task read back from disk: interrupted uploads resume
/// as pending if their clip still exists, completed and failed tasks are
/// kept as history, anything else is dropped.
pub open spec fn restored_task(t: UploadTask, clip_exists: bool) -> Option<UploadTask> {
    match t.status {
        UploadStatus::Pending | UploadStatus::Uploading => {
            if clip_exists {
                Some(
                    UploadTask {
                        status: UploadStatus::Pending,
                        progress_bits: 0,
                        started_at_secs: None,
                        error: None,
                        ..t
                    },
                )
            } else {
                None
            }
        },
        UploadStatus::Completed | UploadStatus::Failed(_) => Some(t),
        UploadStatus::Cancelled => None,
    }
}

/// The tasks restored from the first `n` loaded tasks, in order.
pub open spec fn restored_prefix(loaded: Seq<UploadTask>, exists: Seq<bool>, n: int) -> Seq<UploadTask>
    decreases n,
{
    if n <= 0 {
        Seq::empty()
    } else {
        match restored_task(loaded[n - 1], exists[n - 1]) {
            Some(t) => restored_prefix(loaded, exists, n - 1).push(t),
            None => restored_prefix(loaded, exists, n - 1),
        }
    }
}

/// Sort key of a completed upload: when it started (0 if unknown).
pub open spec fn started_key(t: UploadTask) -> u64 {
    match t.started_at_secs {
        Some(s) => s,
        None => 0,
    }
}

/// Completed task `j` is older than task `i`: it started earlier, or at the
/// same time and comes first in the queue.
pub open spec fn older_completed(s: Seq<UploadTask>, j: int, i: int) -> bool {
    &&& s[j].status is Completed
    &&& (started_key(s[j]) < started_key(s[i]) || (started_key(s[j]) == started_key(s[i]) && j < i))
}

/// Number of completed tasks among the first `n` that are older than task `i`.
pub open spec fn older_count(s: Seq<UploadTask>, i: int, n: int) -> nat
    decreases n,
{
    if n <= 0 {
        0
    } else {
        older_count(s, i, n - 1) + if older_completed(s, n - 1, i) {
            1nat
        } else {
            0nat
        }
    }
}

/// Number of completed tasks among the first `n`.
pub open spec fn completed_count(s: Seq<UploadTask>, n: int) -> nat
    decreases n,
{
    if n <= 0 {
        0
    } else {
        completed_count(s, n - 1) + if s[n - 1].status is Completed {
            1nat
        } else {
            0nat
        }
    }
}

/// Task `i` is one of the `remove` oldest completed tasks.
pub open spec fn evicted(s: Seq<UploadTask>, i: int, remove: int) -> bool {
    s[i].status is Completed && older_count(s, i, s.len() as int) < remove
}

/// The first `n` tasks without the `remove` oldest completed ones.
pub open spec fn kept_prefix(s: Seq<UploadTask>, remove: int, n: int) -> Seq<UploadTask>
    decreases n,
{
    if n <= 0 {
        Seq::empty()
    } else if evicted(s, n - 1, remove) {
        kept_prefix(s, remove, n - 1)
    } else {
        kept_prefix(s, remove, n - 1).push(s[n - 1])
    }
}

/// The queue after capping the completed history at `MAX_COMPLETED`, oldest
/// dropped first.
pub open spec fn history_capped(s: Seq<UploadTask>) -> Seq<UploadTask> {
    let c = completed_count(s, s.len() as int);
    if c > MAX_COMPLETED {
        kept_prefix(s, c - MAX_COMPLETED, s.len() as int)
    } else {
        s
    }
}

fn started_secs_or_zero(started: Option<u64>) -> (r: u64)
    ensures
        r == match started {
            Some(s) => s,
            None => 0,
        },
{
    match started {
        Some(s) => s,
        None => 0,
    }
}

/// Manages the upload queue in memory.
pub struct UploadQueue {
    tasks: Vec<UploadTask>,
}

impl View for UploadQueue {
    type V = Seq<UploadTask>;

    closed spec fn view(&self) -> Seq<UploadTask> {
        self.tasks@
    }
}

impl UploadQueue {
    /// An empty queue.
    pub fn new() -> (q: Self)
        ensures
            q@ == Seq::<UploadTask>::empty(),
    {
        UploadQueue { tasks: Vec::new() }
    }

    /// Index of the first task with id `id`.
    fn position(&self, id: &str) -> (r: Option<usize>)
        ensures
            r matches Some(i) ==> find_id(self@, id@) == Some(i as int) && i < self@.len(),
            r is None ==> find_id(self@, id@) is None,
    {
        proof {
            lemma_find_from_bounds(self@, id@, 0);
        }
        let key = id.to_owned();
        let mut i: usize = 0;
        while i < self.tasks.len()
            invariant
                i <= self.tasks@.len(),
                key@ == id@,
                find_id_from(self@, id@, i as int) == find_id(self@, id@),
            decreases self.tasks@.len() - i,
        {
            if self.tasks[i].id == key {
                return Some(i);
            }
            i += 1;
        }
        None
    }

    /// Add a clip to the upload queue with full metadata.
    pub fn enqueue_with_meta(
        &mut self,
        id: String,
        clip_path: String,
        server_url: String,
        api_key: String,
        metadata: UploadMetadata,
    )
        ensures
            final(self)@ == old(self)@.push(queued_task(id, clip_path, server_url, api_key, metadata)),
    {
        self.tasks.push(
            UploadTask {
                id,
                clip_path,
                status: UploadStatus::Pending,
                progress_bits: 0,
                started_at_secs: None,
                server_url: Some(server_url),
                api_key: Some(api_key),
                title: metadata.title,
                game: metadata.game,
                duration_secs_bits: metadata.duration_secs_bits,
                width: metadata.width,
                height: metadata.height,
                codec: metadata.codec,
                size_bytes: metadata.size_bytes,
                retry_count: 0,
                share_url: None,
                error: None,
            },
        );
    }

    /// All tasks, in queue order (for display).
    pub fn all(&self) -> (r: Vec<UploadTask>)
        ensures
            r@ == self@,
    {
        let mut out: Vec<UploadTask> = Vec::new();
        let mut i: usize = 0;
        while i < self.tasks.len()
            invariant
                i <= self.tasks@.len(),
                out@ == self.tasks@.subrange(0, i as int),
            decreases self.tasks@.len() - i,
        {
            out.push(self.tasks[i].duplicate());
            i += 1;
            assert(out@ =~= self.tasks@.subrange(0, i as int));
        }
        assert(self.tasks@.subrange(0, i as int) =~= self.tasks@);
        out
    }

    /// Marks the first pending task as uploading, started at `now_secs`
    /// (seconds since the Unix epoch), and returns a copy of it.
    pub fn next_pending_at(&mut self, now_secs: u64) -> (r: Option<UploadTask>)
        ensures
            match find_pending_from(old(self)@, 0) {
                Some(i) => {
                    &&& final(self)@ == old(self)@.update(i, started(old(self)@[i], now_secs))
                    &&& r == Some(started(old(self)@[i], now_secs))
                },
                None => final(self)@ == old(self)@ && r is None,
            },
    {
        let mut i: usize = 0;
        while i < self.tasks.len()
            invariant
                i <= self.tasks@.len(),
                self.tasks@ == old(self)@,
                find_pending_from(self@, i as int) == find_pending_from(self@, 0),
            decreases self.tasks@.len() - i,
        {
            if matches!(self.tasks[i].status, UploadStatus::Pending) {
                let mut task = self.tasks[i].duplicate();
                task.status = UploadStatus::Uploading;
                task.started_at_secs = Some(now_secs);
                let copy = task.duplicate();
                self.tasks.set(i, task);
                return Some(copy);
            }
            i += 1;
        }
        None
    }

    /// Marks the task `id` as completed.
    pub fn mark_completed(&mut self, id: &str)
        ensures
            final(self)@ == update_by_id(old(self)@, id@, |t: UploadTask| completed(t)),
    {
        if let Some(i) = self.position(id) {
            let mut task = self.tasks[i].duplicate();
            task.status = UploadStatus::Completed;
            task.progress_bits = PROGRESS_DONE_BITS;
            self.tasks.set(i, task);
        }
    }

    /// Records a failed attempt of task `id`: it goes back to pending while
    /// fewer than `max_retries` retries were made, and is marked failed with
    /// `error` otherwise.
    pub fn mark_failed(&mut self, id: &str, error: String, max_retries: u32)
        ensures
            final(self)@ == update_by_id(
                old(self)@,
                id@,
                |t: UploadTask| after_failure(t, error, max_retries),
            ),
    {
        if let Some(i) = self.position(id) {
            let mut task = self.tasks[i].duplicate();
            if task.retry_count < max_retries {
                task.retry_count = task.retry_count + 1;
                task.status = UploadStatus::Pending;
                task.progress_bits = 0;
                task.started_at_secs = None;
                task.error = None;
            } else {
                task.status = UploadStatus::Failed(error.clone());
                task.error = Some(error);
            }
            self.tasks.set(i, task);
        }
    }

    /// Sets the progress of task `id` (as `f32` bits).
    pub fn update_progress(&mut self, id: &str, progress_bits: u32)
        ensures
            final(self)@ == update_by_id(old(self)@, id@, |t: UploadTask| with_progress(t, progress_bits)),
    {
        if let Some(i) = self.position(id) {
            let mut task = self.tasks[i].duplicate();
            task.progress_bits = progress_bits;
            self.tasks.set(i, task);
        }
    }

    /// Marks task `id` as failed with `error`, never to be retried
    /// automatically.
    pub fn mark_permanent_failure(&mut self, id: &str, error: String)
        ensures
            final(self)@ == update_by_id(old(self)@, id@, |t: UploadTask| permanently_failed(t, error)),
    {
        if let Some(i) = self.position(id) {
            let mut task = self.tasks[i].duplicate();
            task.status = UploadStatus::Failed(error.clone());
            task.retry_count = PERMANENT_FAILURE_RETRIES;
            task.error = Some(error);
            self.tasks.set(i, task);
        }
    }

    /// Cancels task `id`.
    pub fn cancel(&mut self, id: &str)
        ensures
            final(self)@ == update_by_id(old(self)@, id@, |t: UploadTask| cancelled(t)),
    {
        if let Some(i) = self.position(id) {
            let mut task = self.tasks[i].duplicate();
            task.status = UploadStatus::Cancelled;
            self.tasks.set(i, task);
        }
    }

    /// Starts task `id` over if it has failed.
    pub fn retry(&mut self, id: &str)
        ensures
            final(self)@ == update_by_id(old(self)@, id@, |t: UploadTask| retried(t)),
    {
        if let Some(i) = self.position(id) {
            if matches!(self.tasks[i].status, UploadStatus::Failed(_)) {
                let mut task = self.tasks[i].duplicate();
                task.status = UploadStatus::Pending;
                task.progress_bits = 0;
                task.started_at_secs = None;
                task.retry_count = 0;
                task.error = None;
                self.tasks.set(i, task);
            } else {
                assert(self@ =~= self@.update(i as int, retried(self@[i as int])));
            }
        }
    }

    /// Records the share URL of task `id`.
    pub fn set_share_url(&mut self, id: &str, url: String)
        ensures
            final(self)@ == update_by_id(old(self)@, id@, |t: UploadTask| with_share_url(t, url)),
    {
        if let Some(i) = self.position(id) {
            let mut task = self.tasks[i].duplicate();
            task.share_url = Some(url);
            self.tasks.set(i, task);
        }
    }

    /// The tasks to write to disk: all but cancelled ones, in order.
    pub fn persisted(&self) -> (r: Vec<UploadTask>)
        ensures
            r@ == persisted_prefix(self@, self@.len() as int),
    {
        let mut out: Vec<UploadTask> = Vec::new();
        let mut i: usize = 0;
        while i < self.tasks.len()
            invariant
                i <= self.tasks@.len(),
                out@ == persisted_prefix(self@, i as int),
            decreases self.tasks@.len() - i,
        {
            if !matches!(self.tasks[i].status, UploadStatus::Cancelled) {
                out.push(self.tasks[i].duplicate());
            }
            i += 1;
        }
        out
    }

    /// Appends the tasks read back from disk; `clip_exists[k]` tells whether
    /// the clip file of `loaded[k]` is still present.
    pub fn restore(&mut self, loaded: Vec<UploadTask>, clip_exists: Vec<bool>)
        requires
            loaded@.len() == clip_exists@.len(),
        ensures
            final(self)@ == old(self)@ + restored_prefix(loaded@, clip_exists@, loaded@.len() as int),
    {
        let mut i: usize = 0;
        while i < loaded.len()
            invariant
                i <= loaded@.len(),
                loaded@.len() == clip_exists@.len(),
                self@ == old(self)@ + restored_prefix(loaded@, clip_exists@, i as int),
            decreases loaded@.len() - i,
        {
            let t = &loaded[i];
            match t.status {
                UploadStatus::Pending | UploadStatus::Uploading => {
                    if clip_exists[i] {
                        let mut task = t.duplicate();
                        task.status = UploadStatus::Pending;
                        task.progress_bits = 0;
                        task.started_at_secs = None;
                        task.error = None;
                        self.tasks.push(task);
                    }
                },
                UploadStatus::Completed | UploadStatus::Failed(_) => {
                    self.tasks.push(t.duplicate());
                },
                UploadStatus::Cancelled => {},
            }
            i += 1;
            assert(self@ =~= old(self)@ + restored_prefix(loaded@, clip_exists@, i as int));
        }
    }

    /// Caps the completed-upload history at `MAX_COMPLETED`, dropping the
    /// oldest completed uploads; other tasks are kept in order.
    pub fn cleanup_completed(&mut self)
        ensures
            final(self)@ == history_capped(old(self)@),
    {
        let n = self.tasks.len();
        let mut count: usize = 0;
        let mut i: usize = 0;
        while i < n
            invariant
                n == self@.len(),
                i <= n,
                count == completed_count(self@, i as int),
                count <= i,
            decreases n - i,
        {
            if matches!(self.tasks[i].status, UploadStatus::Completed) {
                count += 1;
            }
            i += 1;
        }
        if count > MAX_COMPLETED {
            let remove = count - MAX_COMPLETED;
            let mut kept: Vec<UploadTask> = Vec::new();
            let mut i: usize = 0;
            while i < n
                invariant
                    n == self@.len(),
                    i <= n,
                    self@ == old(self)@,
                    remove == completed_count(self@, n as int) - MAX_COMPLETED,
                    kept@ == kept_prefix(self@, remove as int, i as int),
                decreases n - i,
            {
                let mut evict = false;
                if matches!(self.tasks[i].status, UploadStatus::Completed) {
                    let older = self.older_completed_count(i);
                    evict = older < remove;
                }
                if !evict {
                    kept.push(self.tasks[i].duplicate());
                }
                i += 1;
            }
            self.tasks = kept;
        }
    }

    /// How many completed tasks are older than task `i`.
    fn older_completed_count(&self, i: usize) -> (r: usize)
        requires
            i < self@.len(),
        ensures
            r == older_count(self@, i as int, self@.len() as int),
    {
        let key = started_secs_or_zero(self.tasks[i].started_at_secs);
        let mut count: usize = 0;
        let mut j: usize = 0;
        while j < self.tasks.len()
            invariant
                i < self@.len(),
                j <= self@.len(),
                key == started_key(self@[i as int]),
                count == older_count(self@, i as int, j as int),
                count <= j,
            decreases self@.len() - j,
        {
            if matches!(self.tasks[j].status, UploadStatus::Completed) {
                let kj = started_secs_or_zero(self.tasks[j].started_at_secs);
                if kj < key || (kj == key && j < i) {
                    count += 1;
                }
            }
            j += 1;
        }
        count
    }

    /// Marks the first pending task as uploading, stamped with the current
    /// time, and returns a copy of it.
    pub fn next_pending(&mut self) -> (r: Option<UploadTask>)
        ensures
            match find_pending_from(old(self)@, 0) {
                Some(i) => exists|now: u64|
                    {
                        &&& final(self)@ == old(self)@.update(i, #[trigger] started(old(self)@[i], now))
                        &&& r == Some(started(old(self)@[i], now))
                    },
                None => final(self)@ == old(self)@ && r is None,
            },
    {
        let now = unix_now_secs();
        self.next_pending_at(now)
    }
}

} // verus!

verus! {

// ── Laws ────────────────────────────────────────────────────────────────────

/// `t` after `k` failed attempts, each reported with `error`.
pub open spec fn failed_times(t: UploadTask, error: String, max_retries: u32, k: nat) -> UploadTask
    decreases k,
{
    if k == 0 {
        t
    } else {
        after_failure(failed_times(t, error, max_retries, (k - 1) as nat), error, max_retries)
    }
}

/// A task that has not been retried yet goes back to pending on each of its
/// first `max_retries` failures, counting them, and fails for good with the
/// reported error on the next one; its identity never changes.
pub proof fn lemma_retries_are_bounded(t: UploadTask, error: String, max_retries: u32, k: nat)
    requires
        t.retry_count == 0,
        k <= max_retries + 1,
    ensures
        failed_times(t, error, max_retries, k).id == t.id,
        failed_times(t, error, max_retries, k).clip_path == t.clip_path,
        0 < k <= max_retries ==> {
            &&& failed_times(t, error, max_retries, k).status is Pending
            &&& failed_times(t, error, max_retries, k).retry_count == k
            &&& failed_times(t, error, max_retries, k).error is None
        },
        k == max_retries + 1 ==> {
            &&& failed_times(t, error, max_retries, k).status == UploadStatus::Failed(error)
            &&& failed_times(t, error, max_retries, k).error == Some(error)
            &&& failed_times(t, error, max_retries, k).retry_count == max_retries
        },
    decreases k,
{
    if k > 0 {
        lemma_retries_are_bounded(t, error, max_retries, (k - 1) as nat);
    }
}

/// Updating the task found by id, without changing its id, keeps it the
/// task found by that id: repeated calls act on the same task.
pub proof fn lemma_update_keeps_position(
    s: Seq<UploadTask>,
    id: Seq<char>,
    f: spec_fn(UploadTask) -> UploadTask,
)
    requires
        forall|t: UploadTask| #[trigger] f(t).id == t.id,
    ensures
        find_id(update_by_id(s, id, f), id) == find_id(s, id),
{
    lemma_find_from_bounds(s, id, 0);
    if let Some(i) = find_id(s, id) {
        lemma_find_prefix_unchanged(s, s.update(i, f(s[i])), id, 0, i);
    }
}

proof fn lemma_find_prefix_unchanged(s: Seq<UploadTask>, u: Seq<UploadTask>, id: Seq<char>, from: int, i: int)
    requires
        0 <= from <= i < s.len(),
        u.len() == s.len(),
        find_id_from(s, id, from) == Some(i),
        u[i].id == s[i].id,
        forall|k: int| 0 <= k < s.len() && k != i ==> u[k] == s[k],
    ensures
        find_id_from(u, id, from) == Some(i),
    decreases i - from,
{
    if from < i {
        assert(u[from] == s[from]);
        lemma_find_prefix_unchanged(s, u, id, from + 1, i);
    } else {
        lemma_find_from_bounds(s, id, i + 1);
        assert(u[i].id@ == s[i].id@);
    }
}

/// The tasks of `s` that are not completed, in order.
pub open spec fn unfinished(s: Seq<UploadTask>) -> Seq<UploadTask>
    decreases s.len(),
{
    if s.len() == 0 {
        Seq::empty()
    } else if s.last().status is Completed {
        unfinished(s.drop_last())
    } else {
        unfinished(s.drop_last()).push(s.last())
    }
}

proof fn lemma_kept_prefix_unfinished(s: Seq<UploadTask>, remove: int, n: int)
    requires
        0 <= n <= s.len(),
    ensures
        unfinished(kept_prefix(s, remove, n)) == unfinished(s.take(n)),
    decreases n,
{
    if n > 0 {
        lemma_kept_prefix_unfinished(s, remove, n - 1);
        assert(s.take(n).drop_last() =~= s.take(n - 1));
        if !evicted(s, n - 1, remove) {
            assert(kept_prefix(s, remove, n).drop_last() =~= kept_prefix(s, remove, n - 1));
        }
    }
}

/// Capping the history never drops or reorders a task that is not
/// completed.
pub proof fn lemma_history_cap_keeps_unfinished(s: Seq<UploadTask>)
    ensures
        unfinished(history_capped(s)) == unfinished(s),
{
    lemma_kept_prefix_unfinished(s, completed_count(s, s.len() as int) - MAX_COMPLETED, s.len() as int);
    assert(s.take(s.len() as int) =~= s);
}

proof fn lemma_older_count_monotone(s: Seq<UploadTask>, j: int, i: int, n: int)
    requires
        0 <= j < s.len(),
        0 <= i < s.len(),
        0 <= n <= s.len(),
        older_completed(s, j, i),
    ensures
        older_count(s, j, n) + (if j < n { 1int } else { 0int }) <= older_count(s, i, n),
    decreases n,
{
    if n > 0 {
        lemma_older_count_monotone(s, j, i, n - 1);
    }
}

/// Capping the history drops the oldest completed uploads: every dropped one
/// is older than every completed upload that is kept.
pub proof fn lemma_history_cap_drops_oldest(s: Seq<UploadTask>, a: int, b: int)
    requires
        0 <= a < s.len(),
        0 <= b < s.len(),
        completed_count(s, s.len() as int) > MAX_COMPLETED,
        evicted(s, a, completed_count(s, s.len() as int) - MAX_COMPLETED),
        s[b].status is Completed,
        !evicted(s, b, completed_count(s, s.len() as int) - MAX_COMPLETED),
    ensures
        older_completed(s, a, b),
{
    if older_completed(s, b, a) {
        lemma_older_count_monotone(s, b, a, s.len() as int);
    }
}

/// Indices of the completed tasks among the first `m`.
spec fn completed_set(s: Seq<UploadTask>, m: int) -> Set<int> {
    Set::new(|j: int| 0 <= j < m && s[j].status is Completed)
}

/// Indices of the evicted tasks among the first `m`.
spec fn evicted_set(s: Seq<UploadTask>, remove: int, m: int) -> Set<int> {
    Set::new(|j: int| 0 <= j < m && evicted(s, j, remove))
}

/// The rank of each task: how many completed tasks are older.
spec fn rank_of(s: Seq<UploadTask>) -> spec_fn(int) -> int {
    |i: int| older_count(s, i, s.len() as int) as int
}

proof fn lemma_completed_set(s: Seq<UploadTask>, m: int)
    requires
        0 <= m <= s.len(),
    ensures
        completed_set(s, m).finite(),
        completed_set(s, m).len() == completed_count(s, m),
    decreases m,
{
    if m == 0 {
        assert(completed_set(s, 0) =~= Set::<int>::empty());
    } else {
        lemma_completed_set(s, m - 1);
        if s[m - 1].status is Completed {
            assert(completed_set(s, m) =~= completed_set(s, m - 1).insert(m - 1));
        } else {
            assert(completed_set(s, m) =~= completed_set(s, m - 1));
        }
    }
}

/// A completed task is not older than itself, so fewer completed tasks are
/// older than it than there are completed tasks.
proof fn lemma_rank_below_count(s: Seq<UploadTask>, i: int, m: int)
    requires
        0 <= i < s.len(),
        0 <= m <= s.len(),
        s[i].status is Completed,
    ensures
        older_count(s, i, m) + (if i < m { 1int } else { 0int }) <= completed_count(s, m),
    decreases m,
{
    if m > 0 {
        lemma_rank_below_count(s, i, m - 1);
    }
}

/// `completed_count` of a prefix ignores what follows it.
proof fn lemma_completed_count_push(t: Seq<UploadTask>, x: UploadTask, k: int)
    requires
        0 <= k <= t.len(),
    ensures
        completed_count(t.push(x), k) == completed_count(t, k),
    decreases k,
{
    if k > 0 {
        lemma_completed_count_push(t, x, k - 1);
        assert(t.push(x)[k - 1] == t[k - 1]);
    }
}

/// Completed tasks kept plus those evicted are all completed tasks.
proof fn lemma_kept_completed(s: Seq<UploadTask>, remove: int, m: int)
    requires
        0 <= m <= s.len(),
    ensures
        evicted_set(s, remove, m).finite(),
        completed_count(kept_prefix(s, remove, m), kept_prefix(s, remove, m).len() as int)
            + evicted_set(s, remove, m).len() == completed_count(s, m),
    decreases m,
{
    if m == 0 {
        assert(evicted_set(s, remove, 0) =~= Set::<int>::empty());
    } else {
        lemma_kept_completed(s, remove, m - 1);
        let t = kept_prefix(s, remove, m - 1);
        if evicted(s, m - 1, remove) {
            assert(evicted_set(s, remove, m) =~= evicted_set(s, remove, m - 1).insert(m - 1));
        } else {
            assert(evicted_set(s, remove, m) =~= evicted_set(s, remove, m - 1));
            lemma_completed_count_push(t, s[m - 1], t.len() as int);
            assert(t.push(s[m - 1])[t.len() as int] == s[m - 1]);
        }
    }
}

/// Exactly `remove` tasks are evicted when `remove` is at most the number of
/// completed tasks: their ranks are exactly `0..remove`.
proof fn lemma_evicted_count(s: Seq<UploadTask>, remove: int)
    requires
        0 <= remove <= completed_count(s, s.len() as int),
    ensures
        evicted_set(s, remove, s.len() as int).len() == remove,
{
    let n = s.len() as int;
    let c = completed_count(s, n) as int;
    let cs = completed_set(s, n);
    let f = rank_of(s);
    lemma_completed_set(s, n);
    assert forall|i: int, j: int| cs.contains(i) && cs.contains(j) && #[trigger] f(i) == #[trigger] f(j) implies i == j by {
        if i != j {
            if older_completed(s, j, i) {
                lemma_older_count_monotone(s, j, i, n);
            } else {
                assert(older_completed(s, i, j));
                lemma_older_count_monotone(s, i, j, n);
            }
        }
    }
    let ranks = cs.map(f);
    lemma_map_size(cs, ranks, f);
    assert forall|r: int| ranks.contains(r) implies set_int_range(0, c).contains(r) by {
        let i = choose|i: int| cs.contains(i) && f(i) == r;
        lemma_rank_below_count(s, i, n);
    }
    lemma_int_range(0, c);
    lemma_subset_equality(ranks, set_int_range(0, c));
    let ev = evicted_set(s, remove, n);
    assert(ev.subset_of(cs));
    lemma_len_subset(ev, cs);
    let low = ev.map(f);
    assert forall|r: int| set_int_range(0, remove).contains(r) implies low.contains(r) by {
        assert(set_int_range(0, c).contains(r));
        assert(ranks.contains(r));
        let i = choose|i: int| cs.contains(i) && f(i) == r;
        assert(ev.contains(i));
    }
    assert(low =~= set_int_range(0, remove));
    lemma_map_size(ev, low, f);
    lemma_int_range(0, remove);
}

/// Law of the history cap: afterwards exactly `MAX_COMPLETED` completed
/// uploads remain when there were more, and all of them otherwise.
pub proof fn lemma_history_cap_count(s: Seq<UploadTask>)
    ensures
        ({
            let c = completed_count(s, s.len() as int);
            let h = history_capped(s);
            completed_count(h, h.len() as int) == if c > MAX_COMPLETED { MAX_COMPLETED as int } else { c as int }
        }),
{
    let c = completed_count(s, s.len() as int);
    if c > MAX_COMPLETED {
        let remove = c - MAX_COMPLETED;
        lemma_kept_completed(s, remove, s.len() as int);
        lemma_evicted_count(s, remove);
    }
}

/// A task as it comes back after a restart: an interrupted upload resumes
/// as pending, with no progress, start time or error; any other task is
/// unchanged.
pub open spec fn resumed(t: UploadTask) -> UploadTask {
    match t.status {
        UploadStatus::Pending | UploadStatus::Uploading => UploadTask {
            status: UploadStatus::Pending,
            progress_bits: 0,
            started_at_secs: None,
            error: None,
            ..t
        },
        _ => t,
    }
}

proof fn lemma_restore_prefix(p: Seq<UploadTask>, exists: Seq<bool>, n: int)
    requires
        0 <= n <= p.len(),
        exists.len() == p.len(),
        forall|i: int| 0 <= i < p.len() ==> exists[i],
        forall|i: int| 0 <= i < p.len() ==> is_persisted(#[trigger] p[i]),
    ensures
        restored_prefix(p, exists, n) == p.take(n).map_values(|t: UploadTask| resumed(t)),
    decreases n,
{
    if n > 0 {
        lemma_restore_prefix(p, exists, n - 1);
        assert(is_persisted(p[n - 1]));
        assert(p.take(n).map_values(|t: UploadTask| resumed(t)) =~= p.take(n - 1).map_values(
            |t: UploadTask| resumed(t),
        ).push(resumed(p[n - 1])));
    } else {
        assert(p.take(0).map_values(|t: UploadTask| resumed(t)) =~= Seq::<UploadTask>::empty());
    }
}

proof fn lemma_persisted_are_persisted(s: Seq<UploadTask>, n: int)
    requires
        0 <= n <= s.len(),
    ensures
        forall|i: int| 0 <= i < persisted_prefix(s, n).len() ==> is_persisted(#[trigger] persisted_prefix(s, n)[i]),
    decreases n,
{
    if n > 0 {
        lemma_persisted_are_persisted(s, n - 1);
        let prev = persisted_prefix(s, n - 1);
        if is_persisted(s[n - 1]) {
            assert forall|i: int| 0 <= i < prev.push(s[n - 1]).len() implies is_persisted(
                #[trigger] prev.push(s[n - 1])[i],
            ) by {
                if i < prev.len() {
                    assert(prev.push(s[n - 1])[i] == prev[i]);
                }
            }
        }
    }
}

/// Law of persistence: writing the queue and reading it back, with every
/// clip still present, gives back every task that was not cancelled, in
/// order; interrupted uploads come back pending (see `resumed`).
pub proof fn lemma_restore_after_persist(s: Seq<UploadTask>, exists: Seq<bool>)
    requires
        exists.len() == persisted_prefix(s, s.len() as int).len(),
        forall|i: int| 0 <= i < exists.len() ==> exists[i],
    ensures
        ({
            let p = persisted_prefix(s, s.len() as int);
            restored_prefix(p, exists, p.len() as int) == p.map_values(|t: UploadTask| resumed(t))
        }),
{
    let p = persisted_prefix(s, s.len() as int);
    lemma_persisted_are_persisted(s, s.len() as int);
    lemma_restore_prefix(p, exists, p.len() as int);
    assert(p.take(p.len() as int) =~= p);
}

} // verus!
