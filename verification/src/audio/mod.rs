//! System audio buffering: a byte-accounted FIFO of timestamped PCM blocks
//! from which the exact window of a clip is extracted.
use std::collections::VecDeque;
use vstd::prelude::*;

verus! {

/// Default capture sample rate (Hz).
pub const SAMPLE_RATE: u32 = 48000;

/// Default capture channel count.
pub const CHANNELS: u16 = 2;

/// Bytes per sample frame (int16 × 2 channels).
pub const BYTES_PER_FRAME: usize = 4;

/// One contiguous PCM chunk; `timestamp` is its capture time in nanoseconds.
struct AudioBlock {
    timestamp: u64,
    data: Vec<u8>,
}

/// Mathematical value of a PCM block: its start time and bytes.
pub struct BlockView {
    pub timestamp: u64,
    pub data: Seq<u8>,
}

/// Total bytes of a sequence of blocks.
pub open spec fn block_bytes(s: Seq<BlockView>) -> int
    decreases s.len(),
{
    if s.len() == 0 {
        0
    } else {
        s[0].data.len() + block_bytes(s.drop_first())
    }
}

/// Blocks kept after pushing `b` into `s` with byte budget `max_bytes`: the
/// oldest blocks are evicted while the total would exceed the budget.
pub open spec fn audio_pushed(s: Seq<BlockView>, b: BlockView, max_bytes: int) -> Seq<BlockView>
    decreases s.len(),
{
    if s.len() > 0 && block_bytes(s) + b.data.len() > max_bytes {
        audio_pushed(s.drop_first(), b, max_bytes)
    } else {
        s.push(b)
    }
}

/// Duration of a block of `len` bytes in nanoseconds (rounded down).
pub open spec fn block_duration_ns(len: int, rate: int, bpf: int) -> int {
    len * 1000000000 / (bpf * rate)
}

/// Sample frames in `ns` nanoseconds at `rate`, rounded half up.
pub open spec fn frames_in(ns: int, rate: int) -> int {
    (2 * ns * rate + 1000000000) / 2000000000
}

/// `min(a, b)` and `max(a, b)` over integers.
pub open spec fn imin(a: int, b: int) -> int {
    if a < b { a } else { b }
}

/// `max(a, b)`.
pub open spec fn imax(a: int, b: int) -> int {
    if a > b { a } else { b }
}

/// Bytes of block `b` that overlap the window `[start, end)`: the overlap
/// is converted to a sample-frame offset and count (at least one frame),
/// clamped to the block's bytes.
pub open spec fn block_window(b: BlockView, start: int, end: int, rate: int, bpf: int) -> Seq<u8> {
    let ts = b.timestamp as int;
    let be = ts + block_duration_ns(b.data.len() as int, rate, bpf);
    if be <= start || ts >= end {
        seq![]
    } else {
        let ov_start = imax(start, ts);
        let ov_end = imin(end, be);
        let off = frames_in(ov_start - ts, rate) * bpf;
        let cnt = imax(frames_in(ov_end - ov_start, rate), 1) * bpf;
        let avail = if b.data.len() > off { b.data.len() - off } else { 0 };
        let len = imin(cnt, avail);
        if len > 0 {
            b.data.subrange(off, off + len)
        } else {
            seq![]
        }
    }
}

/// The PCM window `[start, end)` across blocks, in buffer order.
pub open spec fn window_bytes(s: Seq<BlockView>, start: int, end: int, rate: int, bpf: int) -> Seq<u8>
    decreases s.len(),
{
    if s.len() == 0 {
        seq![]
    } else {
        window_bytes(s.drop_last(), start, end, rate, bpf) + block_window(s.last(), start, end, rate, bpf)
    }
}

/// Span from the first to the last block's timestamp, saturating at zero.
pub open spec fn audio_time_span(s: Seq<BlockView>) -> u64 {
    if s.len() == 0 || s.last().timestamp <= s[0].timestamp {
        0
    } else {
        (s.last().timestamp - s[0].timestamp) as u64
    }
}

/// Byte-accounted FIFO of PCM blocks, evicting the oldest data first.
pub struct AudioRingBuffer {
    blocks: VecDeque<AudioBlock>,
    total_bytes: usize,
    max_bytes: usize,
    sample_rate: u32,
    bytes_per_frame: usize,
}

/// The value of a stored block.
spec fn block_view(b: AudioBlock) -> BlockView {
    BlockView { timestamp: b.timestamp, data: b.data@ }
}

impl View for AudioRingBuffer {
    type V = Seq<BlockView>;

    /// The stored blocks, oldest first.
    closed spec fn view(&self) -> Seq<BlockView> {
        self.blocks@.map_values(|b: AudioBlock| block_view(b))
    }
}

proof fn lemma_block_bytes_push(s: Seq<BlockView>, b: BlockView)
    ensures
        block_bytes(s.push(b)) == block_bytes(s) + b.data.len(),
    decreases s.len(),
{
    if s.len() > 0 {
        assert(s.push(b)[0] == s[0]);
        lemma_block_bytes_push(s.drop_first(), b);
        assert(s.push(b).drop_first() =~= s.drop_first().push(b));
    } else {
        assert(s.push(b).drop_first() =~= Seq::<BlockView>::empty());
        assert(block_bytes(s.push(b).drop_first()) == 0);
        assert(s.push(b)[0] == b);
    }
}

proof fn lemma_block_bytes_nonneg(s: Seq<BlockView>)
    ensures
        block_bytes(s) >= 0,
    decreases s.len(),
{
    if s.len() > 0 {
        lemma_block_bytes_nonneg(s.drop_first());
    }
}

impl AudioRingBuffer {
    /// The byte budget.
    pub closed spec fn spec_max_bytes(&self) -> int {
        self.max_bytes as int
    }

    /// The sample rate.
    pub closed spec fn spec_sample_rate(&self) -> int {
        self.sample_rate as int
    }

    /// Bytes per sample frame.
    pub closed spec fn spec_bytes_per_frame(&self) -> int {
        self.bytes_per_frame as int
    }

    /// The byte counter matches the stored blocks.
    pub closed spec fn wf(&self) -> bool {
        &&& self.total_bytes as int == block_bytes(self@)
        &&& self.bytes_per_frame <= 131070
    }

    /// An empty buffer with the given byte budget and PCM format
    /// (`channels × 2` bytes per sample frame).
    pub fn new(max_bytes: usize, sample_rate: u32, channels: u16) -> (r: Self)
        ensures
            r.wf(),
            r@ == Seq::<BlockView>::empty(),
            r.spec_max_bytes() == max_bytes,
            r.spec_sample_rate() == sample_rate,
            r.spec_bytes_per_frame() == channels as int * 2,
    {
        let r = AudioRingBuffer {
            blocks: VecDeque::new(),
            total_bytes: 0,
            max_bytes,
            sample_rate,
            bytes_per_frame: (channels as usize) * 2,
        };
        assert(r@ =~= Seq::<BlockView>::empty());
        r
    }

    /// Append a PCM block, evicting the oldest blocks while the byte budget
    /// would be exceeded.
    pub fn push(&mut self, timestamp: u64, data: Vec<u8>)
        requires
            old(self).wf(),
            block_bytes(old(self)@) + data@.len() <= usize::MAX,
        ensures
            final(self).wf(),
            final(self)@ == audio_pushed(old(self)@, BlockView { timestamp, data: data@ }, old(self).spec_max_bytes()),
            final(self).spec_max_bytes() == old(self).spec_max_bytes(),
            final(self).spec_sample_rate() == old(self).spec_sample_rate(),
            final(self).spec_bytes_per_frame() == old(self).spec_bytes_per_frame(),
    {
        let len = data.len();
        let ghost b = BlockView { timestamp, data: data@ };
        let ghost target = audio_pushed(self@, b, self.max_bytes as int);
        proof {
            lemma_block_bytes_nonneg(self@);
        }
        while self.total_bytes + len > self.max_bytes && self.blocks.len() > 0
            invariant
                self.wf(),
                self.max_bytes == old(self).max_bytes,
                self.sample_rate == old(self).sample_rate,
                self.bytes_per_frame == old(self).bytes_per_frame,
                audio_pushed(self@, b, self.max_bytes as int) == target,
                self.total_bytes as int + len <= usize::MAX,
                b.data.len() == len,
            decreases self.blocks@.len(),
        {
            let ghost before = self@;
            let old_block = self.blocks.pop_front();
            if let Some(old_block) = old_block {
                proof {
                    assert(before.drop_first() =~= self@);
                    lemma_block_bytes_nonneg(self@);
                }
                self.total_bytes = self.total_bytes - old_block.data.len();
            }
        }
        proof {
            lemma_block_bytes_push(self@, b);
        }
        let ghost pre = self.blocks@;
        self.total_bytes = self.total_bytes + len;
        self.blocks.push_back(AudioBlock { timestamp, data });
        assert(self@ =~= pre.map_values(|x: AudioBlock| block_view(x)).push(b));
    }

    /// Extract the PCM window `[start, end)` (times in nanoseconds), sample
    /// accurate at both edges. `None` when no audio overlaps the window.
    pub fn extract(&self, start: u64, end: u64) -> (r: Option<Vec<u8>>)
        requires
            self.wf(),
            self@.len() == 0 || (self.spec_sample_rate() > 0 && self.spec_bytes_per_frame() > 0),
        ensures
            ({
                let w = window_bytes(self@, start as int, end as int, self.spec_sample_rate(), self.spec_bytes_per_frame());
                if end <= start || w.len() == 0 {
                    r is None
                } else {
                    r matches Some(v) && v@ == w
                }
            }),
    {
        if end <= start {
            return None;
        }
        let rate = self.sample_rate as u128;
        let bpf = self.bytes_per_frame as u128;
        let mut out: Vec<u8> = Vec::new();
        let mut i: usize = 0;
        while i < self.blocks.len()
            invariant
                i <= self@.len(),
                start < end,
                rate == self.spec_sample_rate(),
                bpf == self.spec_bytes_per_frame(),
                self@.len() == 0 || (rate > 0 && bpf > 0),
                rate <= u32::MAX,
                bpf <= 131070,
                out@ == window_bytes(self@.subrange(0, i as int), start as int, end as int, rate as int, bpf as int),
            decreases self@.len() - i,
        {
            let block = &self.blocks[i];
            let ghost bv = self@[i as int];
            assert(self@.subrange(0, i + 1).drop_last() =~= self@.subrange(0, i as int));
            assert(self@.subrange(0, i + 1).last() == bv);
            let len = block.data.len();
            let ts = block.timestamp as u128;
            proof {
                assert(bpf * rate <= 131070 * 4294967295) by (nonlinear_arith)
                    requires
                        bpf <= 131070,
                        rate <= 4294967295,
                ;
                assert(bpf * rate > 0) by (nonlinear_arith)
                    requires
                        bpf > 0,
                        rate > 0,
                ;
            }
            let dur = (len as u128) * 1000000000 / (bpf * rate);
            proof {
                assert(dur <= len * 1000000000) by (nonlinear_arith)
                    requires
                        dur == (len as u128) * 1000000000 / (bpf * rate),
                        bpf * rate > 0,
                ;
            }
            let be = ts + dur;
            let s = start as u128;
            let e = end as u128;
            let ghost pre = out@;
            if !(be <= s || ts >= e) {
                let ov_start = if s > ts { s } else { ts };
                let ov_end = if e < be { e } else { be };
                let d1 = ov_start - ts;
                let d2 = ov_end - ov_start;
                proof {
                    assert(2 * d1 * rate <= 2 * 18446744073709551615 * 4294967295) by (nonlinear_arith)
                        requires
                            d1 <= 18446744073709551615,
                            rate <= 4294967295,
                    ;
                    assert(2 * d2 * rate <= 2 * 18446744073709551615 * 4294967295) by (nonlinear_arith)
                        requires
                            d2 <= 18446744073709551615,
                            rate <= 4294967295,
                    ;
                }
                let off_frames = (2 * d1 * rate + 1000000000) / 2000000000;
                let cnt_frames0 = (2 * d2 * rate + 1000000000) / 2000000000;
                let cnt_frames = if cnt_frames0 < 1 { 1 } else { cnt_frames0 };
                proof {
                    assert(off_frames <= 2 * 18446744073709551615 * 4294967295);
                    assert(cnt_frames <= 2 * 18446744073709551615 * 4294967295);
                    assert(off_frames * bpf <= 2 * 18446744073709551615 * 4294967295 * 131070) by (nonlinear_arith)
                        requires
                            off_frames <= 2 * 18446744073709551615 * 4294967295,
                            bpf <= 131070,
                    ;
                    assert(cnt_frames * bpf <= 2 * 18446744073709551615 * 4294967295 * 131070) by (nonlinear_arith)
                        requires
                            cnt_frames <= 2 * 18446744073709551615 * 4294967295,
                            bpf <= 131070,
                    ;
                }
                let off = off_frames * bpf;
                let cnt = cnt_frames * bpf;
                let avail: u128 = if (len as u128) > off { len as u128 - off } else { 0 };
                let take = if cnt < avail { cnt } else { avail };
                if take > 0 {
                    let o = off as usize;
                    let t = take as usize;
                    crate::avcc::extend_from_range(&mut out, block.data.as_slice(), o, o + t);
                }
            }
            assert(out@ =~= pre + block_window(bv, start as int, end as int, rate as int, bpf as int));
            i += 1;
        }
        assert(self@.subrange(0, i as int) =~= self@);
        if out.len() == 0 {
            None
        } else {
            Some(out)
        }
    }

    /// Drop all buffered audio.
    pub fn clear(&mut self)
        requires
            old(self).wf(),
        ensures
            final(self).wf(),
            final(self)@ == Seq::<BlockView>::empty(),
            final(self).spec_max_bytes() == old(self).spec_max_bytes(),
            final(self).spec_sample_rate() == old(self).spec_sample_rate(),
            final(self).spec_bytes_per_frame() == old(self).spec_bytes_per_frame(),
    {
        self.blocks.clear();
        self.total_bytes = 0;
        assert(self@ =~= Seq::<BlockView>::empty());
    }

    /// Number of buffered blocks.
    pub fn len(&self) -> (r: usize)
        ensures
            r == self@.len(),
    {
        self.blocks.len()
    }

    /// Whether no audio is buffered.
    pub fn is_empty(&self) -> (r: bool)
        ensures
            r == (self@.len() == 0),
    {
        self.blocks.len() == 0
    }

    /// Time from the oldest to the newest buffered block in nanoseconds;
    /// zero when fewer than two blocks are held or the newest is not later.
    pub fn time_span_nanos(&self) -> (r: u64)
        ensures
            r == audio_time_span(self@),
    {
        let n = self.blocks.len();
        if n == 0 {
            return 0;
        }
        let first = self.blocks[0].timestamp;
        let last = self.blocks[n - 1].timestamp;
        if last > first {
            last - first
        } else {
            0
        }
    }
}

/// Pushing a block leaves at most the byte budget, or the block alone.
proof fn lemma_audio_pushed_bytes(s: Seq<BlockView>, b: BlockView, max_bytes: int)
    ensures
        block_bytes(audio_pushed(s, b, max_bytes)) <= max_bytes || block_bytes(audio_pushed(s, b, max_bytes))
            == b.data.len(),
    decreases s.len(),
{
    lemma_block_bytes_push(s, b);
    if s.len() > 0 && block_bytes(s) + b.data.len() > max_bytes {
        lemma_audio_pushed_bytes(s.drop_first(), b, max_bytes);
    } else if s.len() == 0 {
        assert(block_bytes(s) == 0);
    }
}

/// Law of `AudioRingBuffer::push`: of the old blocks followed by the new
/// one, the buffer keeps the longest run of newest blocks that fits the
/// byte budget, or the new block alone when even it does not fit; every
/// longer run exceeds the budget, so the oldest blocks go first and no
/// more than needed.
pub proof fn lemma_audio_push_keeps_longest_fitting_suffix(s: Seq<BlockView>, b: BlockView, max_bytes: int)
    ensures
        ({
            let t = s.push(b);
            let r = audio_pushed(s, b, max_bytes);
            &&& 1 <= r.len() <= t.len()
            &&& r == t.subrange(t.len() - r.len(), t.len() as int)
            &&& (block_bytes(r) <= max_bytes || r.len() == 1)
            &&& forall|j: int|
                0 <= j < t.len() - r.len() ==> block_bytes(#[trigger] t.subrange(j, t.len() as int))
                    > max_bytes
        }),
    decreases s.len(),
{
    let t = s.push(b);
    lemma_block_bytes_push(s, b);
    if s.len() > 0 && block_bytes(s) + b.data.len() > max_bytes {
        let s1 = s.drop_first();
        let t1 = s1.push(b);
        lemma_audio_push_keeps_longest_fitting_suffix(s1, b, max_bytes);
        let r = audio_pushed(s, b, max_bytes);
        assert(t1 =~= t.subrange(1, t.len() as int));
        assert(r == audio_pushed(s1, b, max_bytes));
        assert(r == t1.subrange(t1.len() - r.len(), t1.len() as int));
        assert(r.len() <= t1.len());
        assert(t1.subrange(t1.len() - r.len(), t1.len() as int) =~= t.subrange(
            t.len() - r.len(),
            t.len() as int,
        ));
        assert forall|j: int| 0 <= j < t.len() - r.len() implies block_bytes(
            #[trigger] t.subrange(j, t.len() as int),
        ) > max_bytes by {
            if j == 0 {
                assert(t.subrange(0, t.len() as int) =~= t);
            } else {
                assert(t.subrange(j, t.len() as int) =~= t1.subrange(j - 1, t1.len() as int));
            }
        }
    } else {
        assert(t.subrange(0, t.len() as int) =~= t);
        if s.len() == 0 {
            assert(block_bytes(s) == 0);
        }
    }
}

/// Largest audio buffer, in bytes (256 MiB).
pub const MAX_AUDIO_BUFFER_BYTES: usize = 268435456;

/// Bytes of audio kept for a `buffer_duration_secs`-second buffer: that many
/// seconds plus four of slack at the default format, at most
/// `MAX_AUDIO_BUFFER_BYTES`.
pub open spec fn audio_byte_budget(buffer_duration_secs: u32) -> int {
    let want = (buffer_duration_secs + 4) * (SAMPLE_RATE * BYTES_PER_FRAME);
    if want < MAX_AUDIO_BUFFER_BYTES { want } else { MAX_AUDIO_BUFFER_BYTES as int }
}

/// The observable state of the system-audio capturer.
pub struct AudioCapturerView {
    pub blocks: Seq<BlockView>,
    pub max_bytes: int,
    pub running: bool,
    pub spawned: bool,
    pub sample_rate: u32,
    pub channels: u16,
}

/// System-audio capture state: the PCM buffer and whether the capture loop
/// runs. The loop itself (the platform's loopback capture) runs outside and
/// hands its blocks to `push`.
pub struct AudioCapturer {
    ring: AudioRingBuffer,
    running: bool,
    spawned: bool,
    sample_rate: u32,
    channels: u16,
}

impl View for AudioCapturer {
    type V = AudioCapturerView;

    closed spec fn view(&self) -> AudioCapturerView {
        AudioCapturerView {
            blocks: self.ring@,
            max_bytes: self.ring.spec_max_bytes(),
            running: self.running,
            spawned: self.spawned,
            sample_rate: self.sample_rate,
            channels: self.channels,
        }
    }
}

impl AudioCapturer {
    /// Internal consistency: the buffer is well formed, holds this format,
    /// has a budget of at most `MAX_AUDIO_BUFFER_BYTES` and fits in half the
    /// address space.
    pub closed spec fn wf(&self) -> bool {
        &&& self.ring.wf()
        &&& self.ring.spec_sample_rate() == self.sample_rate
        &&& self.ring.spec_bytes_per_frame() == self.channels as int * 2
        &&& self.ring.spec_max_bytes() <= MAX_AUDIO_BUFFER_BYTES
        &&& block_bytes(self.ring@) <= isize::MAX
    }

    /// Bytes of audio kept for a `buffer_duration_secs`-second buffer.
    pub fn byte_budget(buffer_duration_secs: u32) -> (r: usize)
        ensures
            r == audio_byte_budget(buffer_duration_secs),
    {
        let want = (buffer_duration_secs as u64 + 4) * 192000;
        if want < 268435456 {
            want as usize
        } else {
            MAX_AUDIO_BUFFER_BYTES
        }
    }

    /// A stopped capturer with an empty buffer sized for 60 seconds.
    pub fn new(sample_rate: u32, channels: u16) -> (r: Self)
        ensures
            r.wf(),
            r@ == (AudioCapturerView {
                blocks: Seq::<BlockView>::empty(),
                max_bytes: audio_byte_budget(60),
                running: false,
                spawned: false,
                sample_rate,
                channels,
            }),
    {
        let ring = AudioRingBuffer::new(Self::byte_budget(60), sample_rate, channels);
        AudioCapturer { ring, running: false, spawned: false, sample_rate, channels }
    }

    /// Starts capturing: returns whether the capture loop must be started
    /// (false when it already runs). The buffer is emptied and sized for
    /// `buffer_duration_secs` seconds.
    pub fn start(&mut self, buffer_duration_secs: u32) -> (spawn: bool)
        requires
            old(self).wf(),
        ensures
            final(self).wf(),
            spawn == !old(self)@.spawned,
            old(self)@.spawned ==> final(self)@ == old(self)@,
            !old(self)@.spawned ==> final(self)@ == (AudioCapturerView {
                blocks: Seq::<BlockView>::empty(),
                max_bytes: audio_byte_budget(buffer_duration_secs),
                running: true,
                spawned: true,
                ..old(self)@
            }),
    {
        if self.spawned {
            return false;
        }
        self.ring = AudioRingBuffer::new(Self::byte_budget(buffer_duration_secs), self.sample_rate, self.channels);
        self.running = true;
        self.spawned = true;
        true
    }

    /// Stops capturing and drops the buffered audio.
    pub fn stop(&mut self)
        requires
            old(self).wf(),
        ensures
            final(self).wf(),
            final(self)@ == (AudioCapturerView {
                blocks: Seq::<BlockView>::empty(),
                running: false,
                spawned: false,
                ..old(self)@
            }),
    {
        self.running = false;
        self.ring.clear();
        self.spawned = false;
    }

    /// Drops the buffered audio without stopping.
    pub fn clear(&mut self)
        requires
            old(self).wf(),
        ensures
            final(self).wf(),
            final(self)@ == (AudioCapturerView { blocks: Seq::<BlockView>::empty(), ..old(self)@ }),
    {
        self.ring.clear();
    }

    /// Buffers a block captured at `timestamp` (nanoseconds).
    pub fn push(&mut self, timestamp: u64, data: Vec<u8>)
        requires
            old(self).wf(),
            data@.len() <= isize::MAX,
        ensures
            final(self).wf(),
            final(self)@ == (AudioCapturerView {
                blocks: audio_pushed(old(self)@.blocks, BlockView { timestamp, data: data@ }, old(self)@.max_bytes),
                ..old(self)@
            }),
    {
        let ghost b = BlockView { timestamp, data: data@ };
        proof {
            lemma_block_bytes_nonneg(self.ring@);
            lemma_audio_pushed_bytes(self.ring@, b, self.ring.spec_max_bytes());
        }
        self.ring.push(timestamp, data);
    }

    /// The PCM window `[start, end)` of the buffered audio (see
    /// `AudioRingBuffer::extract`).
    pub fn extract(&self, start: u64, end: u64) -> (r: Option<Vec<u8>>)
        requires
            self.wf(),
            self@.blocks.len() == 0 || (self@.sample_rate > 0 && self@.channels > 0),
        ensures
            ({
                let w = window_bytes(self@.blocks, start as int, end as int, self@.sample_rate as int, self@.channels as int * 2);
                if end <= start || w.len() == 0 {
                    r is None
                } else {
                    r matches Some(v) && v@ == w
                }
            }),
    {
        self.ring.extract(start, end)
    }

    /// Whether capture is running.
    pub fn is_running(&self) -> (r: bool)
        ensures
            r == self@.running,
    {
        self.running
    }

    /// The capture sample rate.
    pub fn sample_rate(&self) -> (r: u32)
        ensures
            r == self@.sample_rate,
    {
        self.sample_rate
    }

    /// The capture channel count.
    pub fn channels(&self) -> (r: u16)
        ensures
            r == self@.channels,
    {
        self.channels
    }

    /// Time covered by the buffered audio, in nanoseconds.
    pub fn time_span_nanos(&self) -> (r: u64)
        ensures
            r == audio_time_span(self@.blocks),
    {
        self.ring.time_span_nanos()
    }
}

} // verus!
