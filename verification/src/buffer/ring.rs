//! Bounded FIFO buffer of gameplay frames with a frame-count limit and an
//! optional byte budget; the oldest frames are evicted first.
use std::collections::VecDeque;
use vstd::prelude::*;

use crate::avcc::{first_pair_scan_kind, first_param_pair_from, scan_first_param_pair, ParamScan};
use crate::capture::{CapturedFrame, PixelFormat};

verus! {

/// A frame stored in the ring buffer. `timestamp` is a monotonic capture time
/// in nanoseconds.
#[derive(Debug, Clone)]
pub struct StoredFrame {
    pub data: Vec<u8>,
    pub width: u32,
    pub height: u32,
    pub stride: u32,
    pub pixel_format: PixelFormat,
    pub timestamp: u64,
    pub is_sync: bool,
}

/// Mathematical value of a stored frame: its payload bytes and metadata.
pub struct FrameView {
    pub data: Seq<u8>,
    pub width: u32,
    pub height: u32,
    pub stride: u32,
    pub pixel_format: PixelFormat,
    pub timestamp: u64,
    pub is_sync: bool,
}

impl View for StoredFrame {
    type V = FrameView;

    open spec fn view(&self) -> FrameView {
        FrameView {
            data: self.data@,
            width: self.width,
            height: self.height,
            stride: self.stride,
            pixel_format: self.pixel_format,
            timestamp: self.timestamp,
            is_sync: self.is_sync,
        }
    }
}

/// The values of a sequence of stored frames.
pub open spec fn frame_views(s: Seq<StoredFrame>) -> Seq<FrameView> {
    s.map_values(|f: StoredFrame| f@)
}

impl StoredFrame {
    /// A stored frame carrying a captured frame's data; raw captures are
    /// always sync points.
    pub open spec fn spec_from_captured(f: CapturedFrame) -> StoredFrame {
        StoredFrame {
            data: f.data,
            width: f.width,
            height: f.height,
            stride: f.stride,
            pixel_format: f.pixel_format,
            timestamp: f.timestamp,
            is_sync: true,
        }
    }

    /// Converts a captured frame into a stored frame.
    pub fn from_captured(f: CapturedFrame) -> (r: StoredFrame)
        ensures
            r == Self::spec_from_captured(f),
    {
        StoredFrame {
            data: f.data,
            width: f.width,
            height: f.height,
            stride: f.stride,
            pixel_format: f.pixel_format,
            timestamp: f.timestamp,
            is_sync: true,
        }
    }

    /// A copy of this frame.
    pub fn duplicate(&self) -> (r: StoredFrame)
        ensures
            r@ == self@,
    {
        let data = self.data.clone();
        assert(data@ =~= self.data@);
        StoredFrame {
            data,
            width: self.width,
            height: self.height,
            stride: self.stride,
            pixel_format: self.pixel_format,
            timestamp: self.timestamp,
            is_sync: self.is_sync,
        }
    }
}

/// Total payload bytes of a sequence of frames.
pub open spec fn bytes_of(s: Seq<FrameView>) -> int
    decreases s.len(),
{
    if s.len() == 0 {
        0
    } else {
        s[0].data.len() + bytes_of(s.drop_first())
    }
}

/// `bytes_of` distributes over appending one frame.
pub proof fn lemma_bytes_of_push(s: Seq<FrameView>, f: FrameView)
    ensures
        bytes_of(s.push(f)) == bytes_of(s) + f.data.len(),
    decreases s.len(),
{
    if s.len() > 0 {
        assert(s.push(f)[0] == s[0]);
        lemma_bytes_of_push(s.drop_first(), f);
        assert(s.push(f).drop_first() =~= s.drop_first().push(f));
    } else {
        assert(s.push(f).drop_first() =~= Seq::<FrameView>::empty());
        assert(bytes_of(s.push(f).drop_first()) == 0);
        assert(s.push(f)[0] == f);
    }
}

/// `bytes_of` is never negative.
pub proof fn lemma_bytes_of_nonneg(s: Seq<FrameView>)
    ensures
        bytes_of(s) >= 0,
    decreases s.len(),
{
    if s.len() > 0 {
        lemma_bytes_of_nonneg(s.drop_first());
    }
}

/// Number of oldest frames the byte budget evicts before a frame of `len`
/// bytes is appended: the smallest `k` with `bytes_of(s[k..]) + len <= max_bytes`,
/// or all frames when none fits. No eviction when `max_bytes == 0`.
pub open spec fn byte_evictions(s: Seq<FrameView>, len: int, max_bytes: int) -> int {
    if max_bytes == 0 {
        0
    } else {
        byte_evictions_from(s, 0, len, max_bytes)
    }
}

/// Helper of `byte_evictions`: evictions counted from `k` onward.
pub open spec fn byte_evictions_from(s: Seq<FrameView>, k: int, len: int, max_bytes: int) -> int
    decreases s.len() - k,
{
    if k < 0 || k >= s.len() || bytes_of(s.subrange(k, s.len() as int)) + len <= max_bytes {
        if k < 0 { 0 } else { k }
    } else {
        byte_evictions_from(s, k + 1, len, max_bytes)
    }
}

/// The frames kept after pushing `f` into a buffer holding `s`: the byte
/// budget first evicts oldest frames, then the frame-count limit evicts
/// oldest frames until there is room, and `f` is appended.
pub open spec fn pushed_frames(s: Seq<FrameView>, f: FrameView, capacity: int, max_bytes: int) -> Seq<FrameView> {
    let k1 = byte_evictions(s, f.data.len() as int, max_bytes);
    let rest = s.subrange(k1, s.len() as int);
    let k2 = if rest.len() >= capacity { rest.len() - capacity + 1 } else { 0 };
    rest.subrange(k2, rest.len() as int).push(f)
}

/// Frames at or after `cutoff`, in buffer order.
pub open spec fn frames_since(s: Seq<FrameView>, cutoff: u64) -> Seq<FrameView>
    decreases s.len(),
{
    if s.len() == 0 {
        seq![]
    } else {
        let r = frames_since(s.drop_last(), cutoff);
        if s.last().timestamp >= cutoff {
            r.push(s.last())
        } else {
            r
        }
    }
}

/// Start of the window `duration` before `now` (`now` when that would
/// precede time zero).
pub open spec fn clip_cutoff(duration: u64, now: u64) -> u64 {
    if duration <= now {
        (now - duration) as u64
    } else {
        now
    }
}

/// First SPS/PPS pair over a sequence of frames: non-H.264 frames are
/// skipped, and within each H.264 frame the first SPS/PPS pair is taken.
pub open spec fn first_param_pair_in(s: Seq<FrameView>) -> ParamScan
    decreases s.len(),
{
    if s.len() == 0 {
        ParamScan::NotFound
    } else if s[0].pixel_format != PixelFormat::H264 {
        first_param_pair_in(s.drop_first())
    } else {
        match first_param_pair_from(s[0].data, 0, None, None) {
            ParamScan::NotFound => first_param_pair_in(s.drop_first()),
            other => other,
        }
    }
}

/// The newest `n` frames of `s` (all of them when there are fewer).
pub open spec fn newest(s: Seq<FrameView>, n: int) -> Seq<FrameView> {
    if s.len() > n {
        s.subrange(s.len() - n, s.len() as int)
    } else {
        s
    }
}

/// Span from the oldest to the newest frame's timestamp, saturating at zero.
pub open spec fn frames_time_span(s: Seq<FrameView>) -> u64 {
    if s.len() == 0 || s.last().timestamp <= s[0].timestamp {
        0
    } else {
        (s.last().timestamp - s[0].timestamp) as u64
    }
}

/// Bounded FIFO buffer for gameplay frames with dual constraints:
/// a maximum frame count (`capacity`) and, when non-zero, a maximum total
/// byte size (`max_bytes`). When either limit would be exceeded, the oldest
/// frames are evicted first.
pub struct RingBuffer {
    frames: VecDeque<StoredFrame>,
    capacity: usize,
    total_bytes: usize,
    max_bytes: usize,
}

impl View for RingBuffer {
    type V = Seq<FrameView>;

    /// The stored frames, oldest first.
    closed spec fn view(&self) -> Seq<FrameView> {
        frame_views(self.frames@)
    }
}

impl RingBuffer {
    /// The frame-count limit.
    pub closed spec fn spec_capacity(&self) -> int {
        self.capacity as int
    }

    /// The byte budget (0 = none).
    pub closed spec fn spec_max_bytes(&self) -> int {
        self.max_bytes as int
    }

    /// The frame limit and the byte budget are never negative.
    pub proof fn lemma_limits_nonneg(&self)
        ensures
            self.spec_capacity() >= 0,
            self.spec_max_bytes() >= 0,
    {
    }

    /// Internal consistency: the byte counter matches the stored frames and
    /// the frame count respects the capacity.
    pub closed spec fn wf(&self) -> bool {
        &&& self.total_bytes as int == bytes_of(frame_views(self.frames@))
        &&& self.frames@.len() <= self.capacity
    }

    /// A well-formed buffer never holds more frames than its capacity.
    pub proof fn lemma_len_within_capacity(&self)
        requires
            self.wf(),
        ensures
            self@.len() <= self.spec_capacity(),
    {
    }

    /// Create a ring buffer bounded by `capacity` frames with no byte limit.
    pub fn new(capacity: usize) -> (r: Self)
        ensures
            r.wf(),
            r@ == Seq::<FrameView>::empty(),
            r.spec_capacity() == capacity,
            r.spec_max_bytes() == 0,
    {
        RingBuffer { frames: VecDeque::with_capacity(capacity), capacity, total_bytes: 0, max_bytes: 0 }
    }

    /// Create a ring buffer bounded by both frame count and byte budget.
    pub fn with_byte_budget(capacity: usize, max_bytes: usize) -> (r: Self)
        ensures
            r.wf(),
            r@ == Seq::<FrameView>::empty(),
            r.spec_capacity() == capacity,
            r.spec_max_bytes() == max_bytes,
    {
        RingBuffer { frames: VecDeque::with_capacity(capacity), capacity, total_bytes: 0, max_bytes }
    }

    /// Push a frame. Oldest frames are evicted first while the byte budget
    /// would be exceeded, then while the frame-count limit is reached.
    pub fn push(&mut self, frame: StoredFrame)
        requires
            old(self).wf(),
            old(self).spec_capacity() > 0,
            bytes_of(old(self)@) + frame.data@.len() <= usize::MAX,
        ensures
            final(self).wf(),
            final(self)@ == pushed_frames(old(self)@, frame@, old(self).spec_capacity(), old(self).spec_max_bytes()),
            final(self).spec_capacity() == old(self).spec_capacity(),
            final(self).spec_max_bytes() == old(self).spec_max_bytes(),
            final(self).spec_max_bytes() >= 0,
            old(self).spec_max_bytes() == 0 && old(self)@.len() < old(self).spec_capacity() ==> final(self)@
                == old(self)@.push(frame@),
    {
        let frame_len = frame.data.len();
        let ghost s0 = self@;
        proof {
            lemma_bytes_of_nonneg(s0);
        }
        let ghost mut k: int = 0;
        if self.max_bytes > 0 {
            while self.total_bytes + frame_len > self.max_bytes && self.frames.len() > 0
                invariant
                    self.max_bytes == old(self).max_bytes,
                    self.capacity == old(self).capacity,
                    self.max_bytes > 0,
                    0 <= k <= s0.len(),
                    self@ == s0.subrange(k, s0.len() as int),
                    self.total_bytes as int == bytes_of(self@),
                    byte_evictions_from(s0, k, frame_len as int, self.max_bytes as int)
                        == byte_evictions(s0, frame_len as int, self.max_bytes as int),
                    self.total_bytes as int + frame_len <= usize::MAX,
                decreases self.frames@.len(),
            {
                let ghost before = self@;
                let old_frame = self.frames.pop_front();
                if let Some(old_frame) = old_frame {
                    proof {
                        assert(before.drop_first() =~= self@);
                        lemma_bytes_of_nonneg(self@);
                    }
                    self.total_bytes = self.total_bytes - old_frame.data.len();
                }
                proof {
                    assert(self@ =~= s0.subrange(k + 1, s0.len() as int));
                    k = k + 1;
                }
            }
        }
        let ghost s1 = self@;
        let ghost k1 = byte_evictions(s0, frame_len as int, self.max_bytes as int);
        assert(k1 == k && 0 <= k1 <= s0.len());
        assert(s1 =~= s0.subrange(k1, s0.len() as int));
        proof {
            lemma_bytes_of_suffix_le(s0, k1);
        }
        let ghost mut k2: int = 0;
        while self.frames.len() >= self.capacity
            invariant
                self.max_bytes == old(self).max_bytes,
                self.capacity == old(self).capacity,
                self.capacity > 0,
                s1.len() <= self.capacity,
                0 <= k2 <= s1.len(),
                self@ == s1.subrange(k2, s1.len() as int),
                self.total_bytes as int == bytes_of(self@),
                k2 > 0 ==> s1.len() - k2 == self.capacity - 1,
            decreases self.frames@.len(),
        {
            let ghost before = self@;
            let old_frame = self.frames.pop_front();
            if let Some(old_frame) = old_frame {
                proof {
                    assert(before.drop_first() =~= self@);
                    lemma_bytes_of_nonneg(self@);
                }
                self.total_bytes = self.total_bytes - old_frame.data.len();
            }
            proof {
                assert(self@ =~= s1.subrange(k2 + 1, s1.len() as int));
                k2 = k2 + 1;
            }
        }
        proof {
            lemma_bytes_of_push(self@, frame@);
            lemma_bytes_of_suffix_le(s1, k2);
        }
        let ghost pre = self.frames@;
        self.total_bytes = self.total_bytes + frame_len;
        self.frames.push_back(frame);
        assert(self@ =~= frame_views(pre).push(frame@));
        assert(s0.subrange(0, s0.len() as int) =~= s0);
    }

    /// Frames whose timestamp is within `duration` of `now`, oldest first.
    pub fn clip_since(&self, duration: u64, now: u64) -> (r: Vec<StoredFrame>)
        ensures
            frame_views(r@) == frames_since(self@, clip_cutoff(duration, now)),
    {
        let cutoff = if duration <= now {
            now - duration
        } else {
            now
        };
        let mut out: Vec<StoredFrame> = Vec::new();
        let mut i: usize = 0;
        while i < self.frames.len()
            invariant
                i <= self.frames@.len(),
                cutoff == clip_cutoff(duration, now),
                frame_views(out@) == frames_since(self@.subrange(0, i as int), cutoff),
            decreases self.frames@.len() - i,
        {
            let f = &self.frames[i];
            assert(self@.subrange(0, i + 1).drop_last() =~= self@.subrange(0, i as int));
            let ghost pre = out@;
            if f.timestamp >= cutoff {
                out.push(f.duplicate());
                assert(frame_views(out@) =~= frame_views(pre).push(self@[i as int]));
            }
            i += 1;
        }
        assert(self@.subrange(0, i as int) =~= self@);
        out
    }

    /// All frames, oldest first.
    pub fn all_frames(&self) -> (r: Vec<StoredFrame>)
        ensures
            frame_views(r@) == self@,
    {
        let mut out: Vec<StoredFrame> = Vec::new();
        let mut i: usize = 0;
        while i < self.frames.len()
            invariant
                i <= self.frames@.len(),
                frame_views(out@) == self@.subrange(0, i as int),
            decreases self.frames@.len() - i,
        {
            let ghost pre = out@;
            out.push(self.frames[i].duplicate());
            assert(frame_views(out@) =~= frame_views(pre).push(self@[i as int]));
            i += 1;
            assert(frame_views(out@) =~= self@.subrange(0, i as int));
        }
        assert(self@.subrange(0, i as int) =~= self@);
        out
    }

    /// Clear all frames.
    pub fn clear(&mut self)
        ensures
            final(self).wf(),
            final(self)@ == Seq::<FrameView>::empty(),
            final(self).spec_capacity() == old(self).spec_capacity(),
            final(self).spec_max_bytes() == old(self).spec_max_bytes(),
    {
        self.frames.clear();
        self.total_bytes = 0;
    }

    /// Change the frame-count limit, evicting the oldest frames beyond it.
    pub fn set_capacity(&mut self, capacity: usize)
        requires
            old(self).wf(),
        ensures
            final(self).wf(),
            final(self)@ == newest(old(self)@, capacity as int),
            final(self).spec_capacity() == capacity,
            final(self).spec_max_bytes() == old(self).spec_max_bytes(),
    {
        let ghost s0 = self@;
        let ghost mut k: int = 0;
        while self.frames.len() > capacity
            invariant
                self.max_bytes == old(self).max_bytes,
                0 <= k <= s0.len(),
                self@ == s0.subrange(k, s0.len() as int),
                self.total_bytes as int == bytes_of(self@),
                k > 0 ==> s0.len() - k >= capacity,
            decreases self.frames@.len(),
        {
            let ghost before = self@;
            let old_frame = self.frames.pop_front();
            if let Some(old_frame) = old_frame {
                proof {
                    assert(before.drop_first() =~= self@);
                    lemma_bytes_of_nonneg(self@);
                }
                self.total_bytes = self.total_bytes - old_frame.data.len();
            }
            proof {
                assert(self@ =~= s0.subrange(k + 1, s0.len() as int));
                k = k + 1;
            }
        }
        self.capacity = capacity;
        assert(self@ =~= newest(s0, capacity as int));
    }

    /// Time from the oldest to the newest stored frame in nanoseconds
    /// (zero when the newest is not later).
    pub fn time_span_nanos(&self) -> (r: u64)
        ensures
            r == frames_time_span(self@),
    {
        let n = self.frames.len();
        if n == 0 {
            return 0;
        }
        let first = self.frames[0].timestamp;
        let last = self.frames[n - 1].timestamp;
        if last > first {
            last - first
        } else {
            0
        }
    }

    /// Current number of frames stored.
    pub fn len(&self) -> (r: usize)
        ensures
            r == self@.len(),
    {
        self.frames.len()
    }

    /// Maximum frame capacity.
    pub fn capacity(&self) -> (r: usize)
        ensures
            r == self.spec_capacity(),
    {
        self.capacity
    }

    /// Total bytes of all stored frames.
    pub fn total_bytes(&self) -> (r: usize)
        requires
            self.wf(),
        ensures
            r == bytes_of(self@),
    {
        self.total_bytes
    }

    /// Whether the buffer is empty.
    pub fn is_empty(&self) -> (r: bool)
        ensures
            r == (self@.len() == 0),
    {
        self.frames.len() == 0
    }

    /// Scan all stored H.264 frames (regardless of timestamp) for the first
    /// frame holding both an SPS (NAL type 7) and a PPS (NAL type 8) and
    /// return that pair of NAL payloads.
    pub fn find_sps_pps_anywhere(&self) -> (r: Option<(Vec<u8>, Vec<u8>)>)
        requires
            !(first_param_pair_in(self@) is OutOfBounds),
        ensures
            match first_param_pair_in(self@) {
                ParamScan::Found(s, p) => r matches Some(x) && x.0@ == s && x.1@ == p,
                _ => r is None,
            },
    {
        let mut i: usize = 0;
        assert(self@.subrange(0, self@.len() as int) =~= self@);
        while i < self.frames.len()
            invariant
                i <= self.frames@.len(),
                first_param_pair_in(self@.subrange(i as int, self@.len() as int))
                    == first_param_pair_in(self@),
                !(first_param_pair_in(self@) is OutOfBounds),
            decreases self.frames@.len() - i,
        {
            let ghost rest = self@.subrange(i as int, self@.len() as int);
            assert(rest.drop_first() =~= self@.subrange(i + 1, self@.len() as int));
            let f = &self.frames[i];
            if f.pixel_format == PixelFormat::H264 {
                let found = scan_first_param_pair(f.data.as_slice());
                if found.is_some() {
                    return found;
                }
            }
            i += 1;
        }
        None
    }

    /// Whether scanning the buffer for its first SPS/PPS pair stays inside
    /// every packet (see `find_sps_pps_anywhere`).
    pub fn param_scan_in_bounds(&self) -> (r: bool)
        ensures
            r == !(first_param_pair_in(self@) is OutOfBounds),
    {
        let mut i: usize = 0;
        assert(self@.subrange(0, self@.len() as int) =~= self@);
        while i < self.frames.len()
            invariant
                i <= self.frames@.len(),
                first_param_pair_in(self@.subrange(i as int, self@.len() as int))
                    == first_param_pair_in(self@),
            decreases self.frames@.len() - i,
        {
            let ghost rest = self@.subrange(i as int, self@.len() as int);
            assert(rest.drop_first() =~= self@.subrange(i + 1, self@.len() as int));
            let f = &self.frames[i];
            if f.pixel_format == PixelFormat::H264 {
                let kind = first_pair_scan_kind(f.data.as_slice());
                if kind == 2 {
                    return false;
                }
                if kind == 0 {
                    return true;
                }
            }
            i += 1;
        }
        true
    }
}

/// Dropping a prefix never increases the byte total.
pub proof fn lemma_bytes_of_suffix_le(s: Seq<FrameView>, k: int)
    requires
        0 <= k <= s.len(),
    ensures
        0 <= bytes_of(s.subrange(k, s.len() as int)) <= bytes_of(s),
    decreases k,
{
    if k == 0 {
        assert(s.subrange(0, s.len() as int) =~= s);
        lemma_bytes_of_nonneg(s);
    } else {
        lemma_bytes_of_suffix_le(s.drop_first(), k - 1);
        assert(s.drop_first().subrange(k - 1, s.len() - 1) =~= s.subrange(k, s.len() as int));
    }
}

/// The byte budget's eviction count is in range, and afterwards either the
/// remaining frames plus the new one fit the budget or nothing is left.
pub proof fn lemma_byte_evictions_fit(s: Seq<FrameView>, k: int, len: int, max_bytes: int)
    requires
        0 <= k <= s.len(),
    ensures
        k <= byte_evictions_from(s, k, len, max_bytes) <= s.len(),
        ({
            let e = byte_evictions_from(s, k, len, max_bytes);
            e == s.len() || bytes_of(s.subrange(e, s.len() as int)) + len <= max_bytes
        }),
    decreases s.len() - k,
{
    if k < s.len() && bytes_of(s.subrange(k, s.len() as int)) + len > max_bytes {
        lemma_byte_evictions_fit(s, k + 1, len, max_bytes);
    }
}

/// Law of `RingBuffer::push`: the buffer keeps a suffix of the old frames
/// followed by the new frame (oldest frames are evicted first), never holds
/// more than `capacity` frames, and, with a byte budget, stays within the
/// budget unless the new frame alone exceeds it.
pub proof fn lemma_push_evicts_oldest_first(s: Seq<FrameView>, f: FrameView, capacity: int, max_bytes: int)
    requires
        0 < capacity,
        s.len() <= capacity,
        max_bytes >= 0,
    ensures
        ({
            let r = pushed_frames(s, f, capacity, max_bytes);
            &&& 1 <= r.len() <= capacity
            &&& r.last() == f
            &&& exists|j: int| 0 <= j <= s.len() && r == #[trigger] s.push(f).subrange(j, s.len() as int + 1)
            &&& (max_bytes > 0 ==> bytes_of(r) <= max_bytes || r.len() == 1)
        }),
{
    let len = f.data.len() as int;
    let k1 = byte_evictions(s, len, max_bytes);
    if max_bytes > 0 {
        lemma_byte_evictions_fit(s, 0, len, max_bytes);
    }
    let rest = s.subrange(k1, s.len() as int);
    let k2 = if rest.len() >= capacity { rest.len() - capacity + 1 } else { 0 };
    let kept = rest.subrange(k2, rest.len() as int);
    let r = kept.push(f);
    assert(r =~= s.push(f).subrange(k1 + k2, s.len() as int + 1));
    if max_bytes > 0 && r.len() > 1 {
        lemma_bytes_of_suffix_le(rest, k2);
        lemma_bytes_of_push(kept, f);
        if k1 == s.len() {
            assert(rest.len() == 0);
        }
    }
}

/// Whether frames `u` may all be held by a ring of `capacity` frames with
/// byte budget `max_bytes` (0 = none): no more than `capacity` frames, and
/// within the budget unless a single frame is held.
pub open spec fn fits_ring(u: Seq<FrameView>, capacity: int, max_bytes: int) -> bool {
    &&& u.len() <= capacity
    &&& (max_bytes == 0 || u.len() == 1 || bytes_of(u) <= max_bytes)
}

/// The frames of a ring holding `s` after pushing each frame of `fs` in
/// turn.
pub open spec fn pushed_each(s: Seq<FrameView>, fs: Seq<FrameView>, capacity: int, max_bytes: int) -> Seq<
    FrameView,
>
    decreases fs.len(),
{
    if fs.len() == 0 {
        s
    } else {
        pushed_frames(pushed_each(s, fs.drop_last(), capacity, max_bytes), fs.last(), capacity, max_bytes)
    }
}

/// Every frame before the byte budget's eviction count is evicted for a
/// reason: the frames from there on plus the new one exceed the budget.
proof fn lemma_byte_evictions_minimal(s: Seq<FrameView>, k: int, len: int, max_bytes: int)
    requires
        0 <= k <= s.len(),
    ensures
        forall|j: int|
            k <= j < byte_evictions_from(s, k, len, max_bytes) ==> bytes_of(#[trigger] s.subrange(j, s.len() as int))
                + len > max_bytes,
    decreases s.len() - k,
{
    if k < s.len() && bytes_of(s.subrange(k, s.len() as int)) + len > max_bytes {
        lemma_byte_evictions_minimal(s, k + 1, len, max_bytes);
    }
}

/// The frames of `s` from `j` on, followed by `f`, are the frames of
/// `s.push(f)` from `j` on.
proof fn lemma_suffix_of_push(s: Seq<FrameView>, f: FrameView, j: int)
    requires
        0 <= j <= s.len(),
    ensures
        s.push(f).subrange(j, s.len() as int + 1) == s.subrange(j, s.len() as int).push(f),
        bytes_of(s.push(f).subrange(j, s.len() as int + 1)) == bytes_of(s.subrange(j, s.len() as int)) + f.data.len(),
{
    assert(s.push(f).subrange(j, s.len() as int + 1) =~= s.subrange(j, s.len() as int).push(f));
    lemma_bytes_of_push(s.subrange(j, s.len() as int), f);
}

/// Law of `RingBuffer::push`: of the old frames followed by the new one,
/// the ring keeps the longest run of newest frames that fits its frame
/// limit and byte budget; every longer run breaks one of them, so no frame
/// is evicted that did not have to be.
pub proof fn lemma_push_keeps_longest_fitting_suffix(
    s: Seq<FrameView>,
    f: FrameView,
    capacity: int,
    max_bytes: int,
)
    requires
        0 < capacity,
        s.len() <= capacity,
        max_bytes >= 0,
    ensures
        ({
            let t = s.push(f);
            let r = pushed_frames(s, f, capacity, max_bytes);
            &&& r == t.subrange(t.len() - r.len(), t.len() as int)
            &&& fits_ring(r, capacity, max_bytes)
            &&& forall|j: int|
                0 <= j < t.len() - r.len() ==> !fits_ring(
                    #[trigger] t.subrange(j, t.len() as int),
                    capacity,
                    max_bytes,
                )
        }),
{
    let t = s.push(f);
    let len = f.data.len() as int;
    let k1 = byte_evictions(s, len, max_bytes);
    if max_bytes > 0 {
        lemma_byte_evictions_fit(s, 0, len, max_bytes);
        lemma_byte_evictions_minimal(s, 0, len, max_bytes);
    }
    let rest = s.subrange(k1, s.len() as int);
    let k2 = if rest.len() >= capacity { rest.len() - capacity + 1 } else { 0 };
    let r = pushed_frames(s, f, capacity, max_bytes);
    lemma_push_evicts_oldest_first(s, f, capacity, max_bytes);
    assert(r =~= t.subrange(k1 + k2, s.len() as int + 1));
    assert forall|j: int| 0 <= j < t.len() - r.len() implies !fits_ring(
        #[trigger] t.subrange(j, t.len() as int),
        capacity,
        max_bytes,
    ) by {
        let u = t.subrange(j, t.len() as int);
        if j < s.len() + 1 - capacity {
            assert(u.len() > capacity);
        } else {
            assert(j < k1);
            assert(max_bytes > 0);
            lemma_suffix_of_push(s, f, j);
            assert(bytes_of(s.subrange(j, s.len() as int)) + len > max_bytes);
            assert(u.len() >= 2);
        }
    }
}

/// The total size of the first `k` frames never exceeds that of all.
proof fn lemma_bytes_of_prefix_le(s: Seq<FrameView>, k: int)
    requires
        0 <= k <= s.len(),
    ensures
        0 <= bytes_of(s.subrange(0, k)) <= bytes_of(s),
    decreases s.len() - k,
{
    if k == s.len() {
        assert(s.subrange(0, k) =~= s);
        lemma_bytes_of_nonneg(s);
    } else {
        lemma_bytes_of_prefix_le(s, k + 1);
        assert(s.subrange(0, k + 1) =~= s.subrange(0, k).push(s[k]));
        lemma_bytes_of_push(s.subrange(0, k), s[k]);
        lemma_bytes_of_nonneg(s.subrange(0, k));
    }
}

/// Law of a ring filled from empty: while the frames pushed stay within
/// the byte budget (or there is none), the ring holds the newest
/// `capacity` of them, all of them when there are no more than
/// `capacity`.
pub proof fn lemma_pushes_within_budget_keep_newest(fs: Seq<FrameView>, capacity: int, max_bytes: int)
    requires
        0 < capacity,
        max_bytes == 0 || (max_bytes > 0 && bytes_of(fs) <= max_bytes),
    ensures
        pushed_each(Seq::<FrameView>::empty(), fs, capacity, max_bytes) == newest(fs, capacity),
    decreases fs.len(),
{
    if fs.len() > 0 {
        let init = fs.drop_last();
        let f = fs.last();
        assert(init.push(f) =~= fs);
        lemma_bytes_of_push(init, f);
        lemma_bytes_of_nonneg(init);
        assert(f.data.len() >= 0);
        lemma_pushes_within_budget_keep_newest(init, capacity, max_bytes);
        let s = newest(init, capacity);
        assert(pushed_each(Seq::<FrameView>::empty(), fs, capacity, max_bytes) == pushed_frames(
            s,
            f,
            capacity,
            max_bytes,
        ));
        if max_bytes > 0 {
            let start = if init.len() > capacity { init.len() - capacity } else { 0 };
            assert(s =~= init.subrange(start, init.len() as int));
            lemma_bytes_of_suffix_le(init, start);
            assert(s.subrange(0, s.len() as int) =~= s);
            assert(byte_evictions(s, f.data.len() as int, max_bytes) == 0);
        }
        let rest = s.subrange(0, s.len() as int);
        assert(rest =~= s);
        assert(pushed_frames(s, f, capacity, max_bytes) =~= newest(fs, capacity));
    }
}

/// Law of `RingBuffer::new`: a ring made by `RingBuffer::new(capacity)`
/// has no byte budget, so after up to `capacity` pushes it holds exactly
/// the frames pushed, oldest first, and its byte total is their sizes'
/// sum.
pub proof fn lemma_new_ring_keeps_first_pushes(fs: Seq<FrameView>, capacity: int)
    requires
        0 < capacity,
        fs.len() <= capacity,
    ensures
        pushed_each(Seq::<FrameView>::empty(), fs, capacity, 0) == fs,
        bytes_of(pushed_each(Seq::<FrameView>::empty(), fs, capacity, 0)) == bytes_of(fs),
{
    lemma_pushes_within_budget_keep_newest(fs, capacity, 0);
}

} // verus!
