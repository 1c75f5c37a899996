//! Ring buffer for keeping the last N seconds of gameplay.
//!
//! The [`BufferManager`] holds the frames delivered by the capture pipeline
//! and hands out clips on demand.
use vstd::prelude::*;

pub mod pool;
pub mod ring;

pub use pool::FramePool;
pub use ring::{RingBuffer, StoredFrame};

use crate::avcc::ParamScan;
use ring::{
    bytes_of, clip_cutoff, first_param_pair_in, frame_views, frames_since, frames_time_span,
    byte_evictions, lemma_bytes_of_suffix_le, lemma_push_evicts_oldest_first, lemma_pushes_within_budget_keep_newest, newest,
    pushed_each, pushed_frames, FrameView,
};

verus! {

/// High-level configuration for the ring-buffer recording engine.
#[derive(Debug, Clone)]
pub struct BufferConfig {
    /// Maximum duration of the buffer, in seconds.
    pub max_duration_secs: u32,
    /// Expected capture frame rate.
    pub fps: u32,
}

impl Default for BufferConfig {
    fn default() -> (r: Self)
        ensures
            r.max_duration_secs == 60,
            r.fps == 60,
    {
        BufferConfig { max_duration_secs: 60, fps: 60 }
    }
}

/// `a * b`, saturating at `usize::MAX`.
pub open spec fn sat_mul(a: int, b: int) -> int {
    if a * b > usize::MAX {
        usize::MAX as int
    } else {
        a * b
    }
}

/// `a * b`, saturating at `usize::MAX`.
pub fn saturating_mul_usize(a: usize, b: usize) -> (r: usize)
    ensures
        r == sat_mul(a as int, b as int),
{
    match a.checked_mul(b) {
        Some(p) => p,
        None => usize::MAX,
    }
}

impl BufferConfig {
    /// Maximum number of frames the ring buffer will hold:
    /// `max_duration_secs × fps`, saturating.
    pub fn capacity(&self) -> (r: usize)
        ensures
            r == sat_mul(self.max_duration_secs as int, self.fps as int),
    {
        saturating_mul_usize(self.max_duration_secs as usize, self.fps as usize)
    }

    /// NV12 frame size at the given resolution: `width × height × 3 / 2`,
    /// with saturating multiplications.
    pub fn frame_size(&self, width: u32, height: u32) -> (r: usize)
        ensures
            r == sat_mul(sat_mul(width as int, height as int), 3) / 2,
    {
        saturating_mul_usize(saturating_mul_usize(width as usize, height as usize), 3) / 2
    }
}

/// Maximum memory budget for the shadow buffer (256 MiB).
pub const SHADOW_BUFFER_BYTES: usize = 268435456;

/// Hard frame-count ceiling of the shadow buffer.
pub const MAX_FRAME_CAPACITY: usize = 30000;

/// `x` clamped into `[lo, hi]`.
pub open spec fn clamp_int(x: int, lo: int, hi: int) -> int {
    if x < lo {
        lo
    } else if x > hi {
        hi
    } else {
        x
    }
}

/// The frame-count limit of a buffer with configuration `c`: its capacity
/// clamped into `[60, MAX_FRAME_CAPACITY]`.
pub open spec fn frame_capacity_of(c: BufferConfig) -> int {
    clamp_int(sat_mul(c.max_duration_secs as int, c.fps as int), 60, MAX_FRAME_CAPACITY as int)
}

/// Manages the ring buffer for continuous recording.
pub struct BufferManager {
    buffer: RingBuffer,
    config: BufferConfig,
}

impl View for BufferManager {
    type V = Seq<FrameView>;

    /// The buffered frames, oldest first.
    closed spec fn view(&self) -> Seq<FrameView> {
        self.buffer@
    }
}

impl BufferManager {
    /// Internal consistency of the underlying ring buffer; its capacity is
    /// `config.capacity()` clamped into `[60, MAX_FRAME_CAPACITY]` and its
    /// byte budget is `SHADOW_BUFFER_BYTES`.
    pub closed spec fn wf(&self) -> bool {
        &&& self.buffer.wf()
        &&& self.buffer.spec_capacity() == self.spec_frame_capacity()
        &&& self.buffer.spec_max_bytes() == SHADOW_BUFFER_BYTES
    }

    /// The frame-count limit of the buffer.
    pub open spec fn spec_frame_capacity(&self) -> int {
        frame_capacity_of(self.spec_config())
    }

    /// The configuration the buffer was created with.
    pub closed spec fn spec_config(&self) -> BufferConfig {
        self.config
    }

    /// The limits every operation keeps: no more frames than the frame
    /// capacity, which is at most `MAX_FRAME_CAPACITY`, and no more than
    /// `SHADOW_BUFFER_BYTES` unless a single frame is held.
    pub open spec fn within_limits(&self) -> bool {
        &&& self@.len() <= self.spec_frame_capacity()
        &&& self.spec_frame_capacity() <= MAX_FRAME_CAPACITY
        &&& (bytes_of(self@) <= SHADOW_BUFFER_BYTES || self@.len() == 1)
    }

    /// Create a buffer manager. The frame capacity is the configured
    /// capacity clamped into `[60, MAX_FRAME_CAPACITY]`; the byte budget is
    /// `SHADOW_BUFFER_BYTES`. The estimated resolution is not used.
    pub fn new(config: BufferConfig, width: u32, height: u32) -> (r: Self)
        ensures
            r.wf(),
            r.within_limits(),
            r@ == Seq::<FrameView>::empty(),
            r.spec_config() == config,
            r.spec_frame_capacity() == capacity_for(config.max_duration_secs as int * config.fps as int),
    {
        proof {
            lemma_frame_capacity_is_duration_times_rate(config);
        }
        let cap = config.capacity();
        let capacity = if cap < 60 {
            60
        } else if cap > MAX_FRAME_CAPACITY {
            MAX_FRAME_CAPACITY
        } else {
            cap
        };
        let buffer = RingBuffer::with_byte_budget(capacity, SHADOW_BUFFER_BYTES);
        BufferManager { buffer, config }
    }

    /// Push a frame into the ring buffer.
    pub fn push_frame(&mut self, frame: StoredFrame)
        requires
            old(self).wf(),
            bytes_of(old(self)@) + frame.data@.len() <= usize::MAX,
        ensures
            final(self).wf(),
            final(self).spec_config() == old(self).spec_config(),
            final(self)@ == pushed_frames(
                old(self)@,
                frame@,
                old(self).spec_frame_capacity(),
                SHADOW_BUFFER_BYTES as int,
            ),
            bytes_of(final(self)@) <= SHADOW_BUFFER_BYTES || final(self)@ == seq![frame@],
            final(self).within_limits(),
            bytes_of(old(self)@) + frame.data@.len() <= SHADOW_BUFFER_BYTES ==> final(self)@ == newest(
                old(self)@.push(frame@),
                old(self).spec_frame_capacity(),
            ),
    {
        proof {
            self.buffer.lemma_len_within_capacity();
            lemma_push_evicts_oldest_first(self@, frame@, self.spec_frame_capacity(), SHADOW_BUFFER_BYTES as int);
            let s = self@;
            if bytes_of(s) + frame@.data.len() <= SHADOW_BUFFER_BYTES {
                assert(s.subrange(0, s.len() as int) =~= s);
                assert(byte_evictions(s, frame@.data.len() as int, SHADOW_BUFFER_BYTES as int) == 0);
                let cap = self.spec_frame_capacity();
                assert(pushed_frames(s, frame@, cap, SHADOW_BUFFER_BYTES as int) =~= newest(s.push(frame@), cap));
            }
        }
        let ghost f = frame@;
        self.buffer.push(frame);
        proof {
            if bytes_of(self@) > SHADOW_BUFFER_BYTES {
                assert(self@ =~= seq![f]);
            }
        }
    }

    /// The frames captured within the last `duration` nanoseconds before
    /// `now`, oldest first.
    pub fn clip(&self, duration: u64, now: u64) -> (r: Vec<StoredFrame>)
        ensures
            frame_views(r@) == frames_since(self@, clip_cutoff(duration, now)),
    {
        self.buffer.clip_since(duration, now)
    }

    /// All buffered frames, oldest first.
    pub fn clip_all(&self) -> (r: Vec<StoredFrame>)
        ensures
            frame_views(r@) == self@,
    {
        self.buffer.all_frames()
    }

    /// Clear the buffer (e.g. on pause or game switch).
    pub fn clear(&mut self)
        requires
            old(self).wf(),
        ensures
            final(self).wf(),
            final(self).within_limits(),
            final(self)@ == Seq::<FrameView>::empty(),
            final(self).spec_config() == old(self).spec_config(),
    {
        self.buffer.clear();
    }

    /// Change the buffer duration without dropping the capture: the frame
    /// capacity follows the new duration and the oldest frames beyond it are
    /// evicted.
    pub fn set_duration_secs(&mut self, duration_secs: u32)
        requires
            old(self).wf(),
        ensures
            final(self).wf(),
            final(self).spec_config() == (BufferConfig { max_duration_secs: duration_secs, fps: old(self).spec_config().fps }),
            final(self)@ == newest(old(self)@, final(self).spec_frame_capacity()),
            old(self).within_limits() ==> final(self).within_limits(),
    {
        self.config = BufferConfig { max_duration_secs: duration_secs, fps: self.config.fps };
        let cap = self.config.capacity();
        let capacity = if cap < 60 {
            60
        } else if cap > MAX_FRAME_CAPACITY {
            MAX_FRAME_CAPACITY
        } else {
            cap
        };
        self.buffer.set_capacity(capacity);
        proof {
            let s0 = old(self)@;
            if s0.len() > capacity {
                lemma_bytes_of_suffix_le(s0, s0.len() - capacity);
            }
        }
    }

    /// Time from the oldest to the newest buffered frame in nanoseconds.
    pub fn time_span_nanos(&self) -> (r: u64)
        ensures
            r == frames_time_span(self@),
    {
        self.buffer.time_span_nanos()
    }

    /// The configuration.
    pub fn config(&self) -> (r: &BufferConfig)
        ensures
            *r == self.spec_config(),
    {
        &self.config
    }

    /// Number of buffered frames.
    pub fn frame_count(&self) -> (r: usize)
        ensures
            r == self@.len(),
    {
        self.buffer.len()
    }

    /// Whether `find_sps_pps_anywhere` can scan the buffer.
    pub fn param_scan_in_bounds(&self) -> (r: bool)
        ensures
            r == !(first_param_pair_in(self@) is OutOfBounds),
    {
        self.buffer.param_scan_in_bounds()
    }

    /// Scan all buffered H.264 frames for the first SPS/PPS pair.
    pub fn find_sps_pps_anywhere(&self) -> (r: Option<(Vec<u8>, Vec<u8>)>)
        requires
            !(first_param_pair_in(self@) is OutOfBounds),
        ensures
            match first_param_pair_in(self@) {
                ParamScan::Found(s, p) => r matches Some(x) && x.0@ == s && x.1@ == p,
                _ => r is None,
            },
    {
        self.buffer.find_sps_pps_anywhere()
    }
}

/// Law of `BufferManager::new`: the estimated size is not used, and while
/// the frames pushed into a new buffer total no more than
/// `SHADOW_BUFFER_BYTES`, it holds the newest of them up to its frame
/// capacity (the configured capacity clamped into
/// `[60, MAX_FRAME_CAPACITY]`): `min(n, capacity)` frames after `n` pushes.
pub proof fn lemma_new_manager_keeps_newest(config: BufferConfig, fs: Seq<FrameView>)
    requires
        bytes_of(fs) <= SHADOW_BUFFER_BYTES,
    ensures
        ({
            let cap = frame_capacity_of(config);
            let kept = pushed_each(Seq::<FrameView>::empty(), fs, cap, SHADOW_BUFFER_BYTES as int);
            &&& kept == newest(fs, cap)
            &&& kept.len() == if fs.len() < cap { fs.len() as int } else { cap }
        }),
{
    lemma_pushes_within_budget_keep_newest(fs, frame_capacity_of(config), SHADOW_BUFFER_BYTES as int);
}

/// `frames` clamped into `[60, 30000]`.
pub open spec fn capacity_for(frames: int) -> int {
    if frames < 60 {
        60
    } else if frames > 30000 {
        30000
    } else {
        frames
    }
}

/// Law of the buffer's frame limit: it is the configured duration times
/// the configured frame rate (the number of frames in that many seconds),
/// clamped into `[60, 30000]`.
pub proof fn lemma_frame_capacity_is_duration_times_rate(config: BufferConfig)
    ensures
        frame_capacity_of(config) == capacity_for(config.max_duration_secs as int * config.fps as int),
        frame_capacity_of(config) >= 60,
        config.max_duration_secs as int * config.fps as int <= 30000 ==> frame_capacity_of(config) >= config.max_duration_secs
            as int * config.fps as int,
{
}

/// Law of a new buffer manager: as long as the frames pushed fit the byte
/// budget, it keeps every one of the first `duration × rate` frames (at
/// least 60, at most 30000) pushed into it.
pub proof fn lemma_new_manager_keeps_configured_seconds(config: BufferConfig, fs: Seq<FrameView>)
    requires
        bytes_of(fs) <= SHADOW_BUFFER_BYTES,
        fs.len() <= capacity_for(config.max_duration_secs as int * config.fps as int),
    ensures
        pushed_each(Seq::<FrameView>::empty(), fs, frame_capacity_of(config), SHADOW_BUFFER_BYTES as int) == fs,
{
    lemma_frame_capacity_is_duration_times_rate(config);
    lemma_pushes_within_budget_keep_newest(fs, frame_capacity_of(config), SHADOW_BUFFER_BYTES as int);
}

} // verus!
