//! Video encoding: errors, configuration, clip timescale, and synthetic
//! H.264 parameter sets.
use vstd::prelude::*;

pub mod bitstream;
pub mod codecs;
pub mod linux;
pub mod macos;
pub mod windows;

use crate::avcc::{avcc_unit, be32, nal_type, push_be32, u32_be_bytes};
use crate::buffer::ring::{frame_views, FrameView, StoredFrame};
use bitstream::{
    bin_bits, lemma_bin_bits_len, lemma_bits_value_byte, lemma_bits_value_of_bin_bits, lemma_ue_bits_len,
    pack_bits, pow2, trailing_bits, ue_bits, zero_bits, BitWriter,
};

verus! {

/// Errors that can occur during encoding.
#[derive(Debug)]
pub enum EncodeError {
    UnsupportedPlatform,
    InitFailed(String),
    EncodeFailed(String),
    OutputFailed(String),
    UnsupportedCodec(String),
}

/// The message text of each encoding error.
pub open spec fn encode_error_message(e: EncodeError) -> Seq<char> {
    match e {
        EncodeError::UnsupportedPlatform => "Encoder not available on this platform"@,
        EncodeError::InitFailed(m) => "Failed to initialize encoder: "@ + m@,
        EncodeError::EncodeFailed(m) => "Encoding frame failed: "@ + m@,
        EncodeError::OutputFailed(m) => "Failed to write output file: "@ + m@,
        EncodeError::UnsupportedCodec(m) => "Unsupported codec: "@ + m@,
    }
}

impl EncodeError {
    /// The human-readable message of this error.
    pub fn message(&self) -> (r: String)
        ensures
            r@ == encode_error_message(*self),
    {
        match self {
            EncodeError::UnsupportedPlatform => String::from_str("Encoder not available on this platform"),
            EncodeError::InitFailed(m) => String::from_str("Failed to initialize encoder: ").concat(m.as_str()),
            EncodeError::EncodeFailed(m) => String::from_str("Encoding frame failed: ").concat(m.as_str()),
            EncodeError::OutputFailed(m) => String::from_str("Failed to write output file: ").concat(m.as_str()),
            EncodeError::UnsupportedCodec(m) => String::from_str("Unsupported codec: ").concat(m.as_str()),
        }
    }
}

/// `max(fps, 1)`.
pub open spec fn fps_at_least_one(fps: u32) -> u32 {
    if fps == 0 { 1 } else { fps }
}

/// The MP4 timescale of a clip: the true capture rate measured from the first
/// and last frame timestamps, `(n - 1)` frame intervals over the elapsed
/// nanoseconds, in frames per second rounded half up, at least 1 and
/// saturating at `u32::MAX`; or `max(config_fps, 1)` when there are fewer
/// than two frames or no time elapsed between them.
pub open spec fn timescale_spec(frames: Seq<FrameView>, config_fps: u32) -> u32 {
    if frames.len() < 2 {
        fps_at_least_one(config_fps)
    } else {
        let d = frames.last().timestamp as int - frames[0].timestamp as int;
        if d <= 0 {
            fps_at_least_one(config_fps)
        } else {
            let q = (2 * (frames.len() - 1) * 1000000000 + d) / (2 * d);
            if q > u32::MAX {
                u32::MAX
            } else if q < 1 {
                1
            } else {
                q as u32
            }
        }
    }
}

/// Compute the effective MP4 timescale from the actual frame timestamps.
pub fn compute_timescale(frames: &[StoredFrame], config_fps: u32) -> (r: u32)
    ensures
        r == timescale_spec(frame_views(frames@), config_fps),
{
    let n = frames.len();
    if n < 2 {
        return if config_fps == 0 { 1 } else { config_fps };
    }
    let first = frames[0].timestamp;
    let last = frames[n - 1].timestamp;
    assert(frame_views(frames@).last() == frames@[n - 1]@);
    if last <= first {
        return if config_fps == 0 { 1 } else { config_fps };
    }
    let d = (last - first) as u128;
    let num = 2 * ((n - 1) as u128) * 1000000000 + d;
    let q = num / (2 * d);
    if q > u32::MAX as u128 {
        u32::MAX
    } else if q < 1 {
        1
    } else {
        q as u32
    }
}

/// `ceil(x / 16)`.
pub open spec fn mbs(x: u32) -> int {
    (x as int + 15) / 16
}

/// `a - b`, saturating at zero.
pub open spec fn sub0(a: int, b: int) -> int {
    if a > b { a - b } else { 0 }
}

/// Right crop (in pairs of luma samples) needed to cut the macroblock-aligned
/// width back to `x`.
pub open spec fn crop_of(x: u32) -> int {
    sub0(mbs(x) * 16, x as int) / 2
}

/// Fixed leading part of the synthetic Baseline SPS: NAL header 0x67,
/// profile_idc 66, constraint flags 0, level_idc 40, seq_parameter_set_id,
/// log2_max_frame_num_minus4, pic_order_cnt_type and
/// log2_max_pic_order_cnt_lsb_minus4 all 0, and max_num_ref_frames 1.
pub open spec fn sps_header_bits() -> Seq<bool> {
    seq![] + bin_bits(0x67, 8) + bin_bits(0x42, 8) + bin_bits(0, 8) + bin_bits(0x28, 8) + ue_bits(0) + ue_bits(0)
        + ue_bits(0) + ue_bits(0) + ue_bits(1)
}

/// RBSP bits of the synthetic Baseline SPS for a `width × height` picture:
/// the fixed header, gaps_in_frame_num 0, the picture size in macroblocks
/// minus one, frame_mbs_only 1, direct_8x8_inference 1, frame cropping
/// (right and bottom offsets) when the size is not a multiple of 16, and
/// no VUI.
pub open spec fn sps_rbsp_bits(width: u32, height: u32) -> Seq<bool> {
    let cr = crop_of(width);
    let cb = crop_of(height);
    let crop = cr > 0 || cb > 0;
    let p2 = (sps_header_bits().push(false) + ue_bits(sub0(mbs(width), 1) as nat) + ue_bits(
        sub0(mbs(height), 1) as nat,
    )).push(true).push(true).push(crop);
    let p3 = if crop {
        p2 + ue_bits(0) + ue_bits(cr as nat) + ue_bits(0) + ue_bits(cb as nat)
    } else {
        p2
    };
    p3.push(false)
}

/// RBSP bits of the synthetic Baseline PPS: NAL header 0x68, ids 0, CAVLC,
/// no bottom-field POC, one slice group, default reference counts, no
/// weighted prediction, QP/QS/chroma offsets 0, and no deblocking control,
/// constrained intra prediction or redundant picture count.
pub open spec fn pps_rbsp_bits() -> Seq<bool> {
    (((seq![] + bin_bits(0x68, 8) + ue_bits(0) + ue_bits(0)).push(false).push(false) + ue_bits(0) + ue_bits(0)
        + ue_bits(0)).push(false).push(false).push(false) + ue_bits(0) + ue_bits(0) + ue_bits(0)).push(
        false,
    ).push(false).push(false)
}

/// A bit string completed with RBSP trailing bits.
pub open spec fn with_trailing(b: Seq<bool>) -> Seq<bool> {
    b + trailing_bits(b.len())
}

/// Writes the fixed leading part of the SPS.
fn write_sps_header(bw: &mut BitWriter)
    requires
        old(bw).holds(seq![]),
        old(bw).buf@.len() == 0,
    ensures
        final(bw).holds(sps_header_bits()),
        final(bw).buf@.len() <= 400,
{
    let ghost mut w: Seq<bool> = seq![];
    bw.write_bin(0x67, 8, Ghost(w));
    proof { w = w + bin_bits(0x67, 8); }
    bw.write_bin(0x42, 8, Ghost(w));
    proof { w = w + bin_bits(0x42, 8); }
    bw.write_bin(0, 8, Ghost(w));
    proof { w = w + bin_bits(0, 8); }
    bw.write_bin(0x28, 8, Ghost(w));
    proof { w = w + bin_bits(0x28, 8); }
    bw.write_ue(0, Ghost(w));
    proof { w = w + ue_bits(0); }
    bw.write_ue(0, Ghost(w));
    proof { w = w + ue_bits(0); }
    bw.write_ue(0, Ghost(w));
    proof { w = w + ue_bits(0); }
    bw.write_ue(0, Ghost(w));
    proof { w = w + ue_bits(0); }
    bw.write_ue(1, Ghost(w));
    proof { w = w + ue_bits(1); }
}

/// Build the synthetic Baseline SPS NAL unit (no AVCC prefix).
#[verifier::rlimit(60)]
#[verifier::spinoff_prover]
pub fn build_sps_nal(width: u32, height: u32) -> (r: Vec<u8>)
    requires
        width <= 4294967280,
        height <= 4294967280,
    ensures
        r@ == pack_bits(with_trailing(sps_rbsp_bits(width, height))),
{
    let wm = (width as u64 + 15) / 16;
    let hm = (height as u64 + 15) / 16;
    let wm1 = if wm > 0 { wm - 1 } else { 0 };
    let hm1 = if hm > 0 { hm - 1 } else { 0 };
    let cr = if wm * 16 > width as u64 { (wm * 16 - width as u64) / 2 } else { 0 };
    let cb = if hm * 16 > height as u64 { (hm * 16 - height as u64) / 2 } else { 0 };
    assert(wm1 == sub0(mbs(width), 1) && hm1 == sub0(mbs(height), 1));
    assert(cr == crop_of(width) && cb == crop_of(height));
    let crop = cr > 0 || cb > 0;
    let mut bw = BitWriter::new();
    write_sps_header(&mut bw);
    let ghost mut w: Seq<bool> = sps_header_bits();
    bw.write_bit(false, Ghost(w));
    proof { w = w.push(false); }
    bw.write_ue(wm1 as u32, Ghost(w));
    proof { w = w + ue_bits(wm1 as nat); }
    bw.write_ue(hm1 as u32, Ghost(w));
    proof { w = w + ue_bits(hm1 as nat); }
    bw.write_bit(true, Ghost(w));
    proof { w = w.push(true); }
    bw.write_bit(true, Ghost(w));
    proof { w = w.push(true); }
    bw.write_bit(crop, Ghost(w));
    proof { w = w.push(crop); }
    if crop {
        bw.write_ue(0, Ghost(w));
        proof { w = w + ue_bits(0); }
        bw.write_ue(cr as u32, Ghost(w));
        proof { w = w + ue_bits(cr as nat); }
        bw.write_ue(0, Ghost(w));
        proof { w = w + ue_bits(0); }
        bw.write_ue(cb as u32, Ghost(w));
        proof { w = w + ue_bits(cb as nat); }
    }
    bw.write_bit(false, Ghost(w));
    proof { w = w.push(false); }
    assert(w == sps_rbsp_bits(width, height));
    bw.write_trailing(Ghost(w));
    bw.buf
}

/// Build the synthetic Baseline PPS NAL unit (no AVCC prefix).
pub fn build_pps_nal() -> (r: Vec<u8>)
    ensures
        r@ == pack_bits(with_trailing(pps_rbsp_bits())),
{
    let mut bw = BitWriter::new();
    let ghost mut w: Seq<bool> = seq![];
    bw.write_bin(0x68, 8, Ghost(w));
    proof { w = w + bin_bits(0x68, 8); }
    bw.write_ue(0, Ghost(w));
    proof { w = w + ue_bits(0); }
    bw.write_ue(0, Ghost(w));
    proof { w = w + ue_bits(0); }
    bw.write_bit(false, Ghost(w));
    proof { w = w.push(false); }
    bw.write_bit(false, Ghost(w));
    proof { w = w.push(false); }
    bw.write_ue(0, Ghost(w));
    proof { w = w + ue_bits(0); }
    bw.write_ue(0, Ghost(w));
    proof { w = w + ue_bits(0); }
    bw.write_ue(0, Ghost(w));
    proof { w = w + ue_bits(0); }
    bw.write_bit(false, Ghost(w));
    proof { w = w.push(false); }
    bw.write_bit(false, Ghost(w));
    proof { w = w.push(false); }
    bw.write_bit(false, Ghost(w));
    proof { w = w.push(false); }
    bw.write_ue(0, Ghost(w));
    proof { w = w + ue_bits(0); }
    bw.write_ue(0, Ghost(w));
    proof { w = w + ue_bits(0); }
    bw.write_ue(0, Ghost(w));
    proof { w = w + ue_bits(0); }
    bw.write_bit(false, Ghost(w));
    proof { w = w.push(false); }
    bw.write_bit(false, Ghost(w));
    proof { w = w.push(false); }
    bw.write_bit(false, Ghost(w));
    proof { w = w.push(false); }
    assert(w == pps_rbsp_bits());
    bw.write_trailing(Ghost(w));
    bw.buf
}

/// The synthetic SPS for a `width × height` picture as one AVCC unit.
pub open spec fn sps_avcc(width: u32, height: u32) -> Seq<u8> {
    avcc_unit(pack_bits(with_trailing(sps_rbsp_bits(width, height))))
}

/// The synthetic PPS as one AVCC unit.
pub open spec fn pps_avcc() -> Seq<u8> {
    avcc_unit(pack_bits(with_trailing(pps_rbsp_bits())))
}

/// Four big-endian bytes read back give the value they were written from.
proof fn lemma_be32_of_u32_be_bytes(x: u32, rest: Seq<u8>)
    ensures
        be32(u32_be_bytes(x) + rest, 0) == x,
{
    let d = u32_be_bytes(x) + rest;
    let xi = x as int;
    assert(d[0] as int == xi / 16777216);
    assert(d[1] as int == (xi / 65536) % 256);
    assert(d[2] as int == (xi / 256) % 256);
    assert(d[3] as int == xi % 256);
    assert(xi / 16777216 * 16777216 + (xi / 65536) % 256 * 65536 + (xi / 256) % 256 * 256 + xi % 256 == xi)
        by (nonlinear_arith)
        requires
            0 <= xi < 4294967296,
    {
        vstd::arithmetic::div_mod::lemma_fundamental_div_mod(xi, 256);
        vstd::arithmetic::div_mod::lemma_fundamental_div_mod(xi / 256, 256);
        vstd::arithmetic::div_mod::lemma_fundamental_div_mod(xi / 65536, 256);
        vstd::arithmetic::div_mod::lemma_div_denominator(xi, 256, 256);
        vstd::arithmetic::div_mod::lemma_div_denominator(xi, 65536, 256);
    }
}

/// The synthetic SPS bit string is at least one byte long and far shorter
/// than `2^32` bytes, and starts with the NAL header `0x67`.
proof fn lemma_sps_bits_len(width: u32, height: u32)
    requires
        width <= 4294967280,
        height <= 4294967280,
    ensures
        8 <= sps_rbsp_bits(width, height).len() <= 0x8000_0000,
        sps_rbsp_bits(width, height).subrange(0, 8) == bin_bits(0x67, 8),
{
    lemma_bin_bits_len(0x67, 8);
    lemma_bin_bits_len(0x42, 8);
    lemma_bin_bits_len(0, 8);
    lemma_bin_bits_len(0x28, 8);
    lemma_ue_bits_len(0);
    lemma_ue_bits_len(1);
    let head = sps_header_bits();
    assert(32 <= head.len() <= 41);
    let wm = sub0(mbs(width), 1);
    let hm = sub0(mbs(height), 1);
    assert(0 <= wm <= 0x1000_0000 && 0 <= hm <= 0x1000_0000);
    let cr = crop_of(width);
    let cb = crop_of(height);
    assert(0 <= cr <= 8 && 0 <= cb <= 8);
    lemma_ue_bits_len(wm as nat);
    lemma_ue_bits_len(hm as nat);
    lemma_ue_bits_len(cr as nat);
    lemma_ue_bits_len(cb as nat);
    let crop = cr > 0 || cb > 0;
    let p1 = head.push(false) + ue_bits(wm as nat) + ue_bits(hm as nat);
    assert(p1.len() <= 41 + 1 + 2 * 0x1000_0000 + 3 + 2 * 0x1000_0000 + 3);
    let p2 = p1.push(true).push(true).push(crop);
    let p3 = if crop {
        p2 + ue_bits(0) + ue_bits(cr as nat) + ue_bits(0) + ue_bits(cb as nat)
    } else {
        p2
    };
    assert(p3.len() <= p2.len() + 40);
    assert(sps_rbsp_bits(width, height) == p3.push(false));
    assert(p3.push(false).subrange(0, 8) =~= bin_bits(0x67, 8));
}

/// The PPS bits: header `0x68`, then `1100 1110 0011 1000` from its fields,
/// then the trailing one and seven zeros.
proof fn lemma_pps_bits()
    ensures
        with_trailing(pps_rbsp_bits()) == bin_bits(0x68, 8) + seq![true, true, false, false, true, true, true, false]
            + seq![false, false, true, true, true, false, false, false] + seq![
            true,
            false,
            false,
            false,
            false,
            false,
            false,
            false,
        ],
{
    lemma_bin_bits_len(0x68, 8);
    lemma_bin_bits_len(1, 1);
    assert(ue_bits(0) =~= seq![true]) by {
        assert(zero_bits(0) =~= Seq::<bool>::empty());
        reveal_with_fuel(bin_bits, 2);
        assert(bin_bits(1, 1) =~= seq![true]);
    }
    assert(pps_rbsp_bits().len() == 24);
    assert(trailing_bits(24) =~= seq![true, false, false, false, false, false, false, false]);
    assert(with_trailing(pps_rbsp_bits()) =~= bin_bits(0x68, 8) + seq![true, true, false, false, true, true, true, false]
        + seq![false, false, true, true, true, false, false, false] + seq![
        true,
        false,
        false,
        false,
        false,
        false,
        false,
        false,
    ]);
}

/// The synthetic PPS unit is `00 00 00 04 68 CE 38 80`.
proof fn lemma_pps_avcc_bytes()
    ensures
        pps_avcc() == seq![0u8, 0, 0, 4, 0x68, 0xCE, 0x38, 0x80],
{
    lemma_pps_bits();
    let pb = with_trailing(pps_rbsp_bits());
    lemma_bin_bits_len(0x68, 8);
    lemma_bits_value_of_bin_bits(0x68, 8);
    assert(pow2(8) == 256) by {
        reveal_with_fuel(pow2, 9);
    }
    let pn = pack_bits(pb);
    assert(pn.len() == 4);
    assert(pb.subrange(0, 8) =~= bin_bits(0x68, 8));
    lemma_bits_value_byte(pb.subrange(8, 16));
    lemma_bits_value_byte(pb.subrange(16, 24));
    lemma_bits_value_byte(pb.subrange(24, 32));
    assert(pn =~= seq![0x68u8, 0xCE, 0x38, 0x80]);
    assert(u32_be_bytes(4) =~= seq![0u8, 0, 0, 4]);
    assert(pps_avcc() =~= seq![0u8, 0, 0, 4, 0x68, 0xCE, 0x38, 0x80]);
}

/// Law of `generate_sps_pps`: the SPS is one AVCC unit whose big-endian
/// length prefix counts the rest, whose NAL header is `0x67` (type 7) and
/// whose payload is the synthetic SPS NAL of `build_sps_nal`; the PPS is the
/// fixed unit `00 00 00 04 68 CE 38 80`. Neither depends on the frame rate:
/// `generate_sps_pps` yields these for every `fps`.
#[verifier::spinoff_prover]
#[verifier::rlimit(50)]
pub proof fn lemma_generated_parameter_sets(width: u32, height: u32)
    requires
        width <= 4294967280,
        height <= 4294967280,
    ensures
        sps_avcc(width, height).len() >= 5,
        be32(sps_avcc(width, height), 0) + 4 == sps_avcc(width, height).len(),
        sps_avcc(width, height)[4] == 0x67,
        nal_type(sps_avcc(width, height)[4]) == 7,
        sps_avcc(width, height).subrange(4, sps_avcc(width, height).len() as int) == pack_bits(
            with_trailing(sps_rbsp_bits(width, height)),
        ),
        pps_avcc() == seq![0u8, 0, 0, 4, 0x68, 0xCE, 0x38, 0x80],
{
    let rb = sps_rbsp_bits(width, height);
    let bits = with_trailing(rb);
    lemma_sps_bits_len(width, height);
    assert(trailing_bits(rb.len()).len() <= 8);
    let nal = pack_bits(bits);
    assert(1 <= nal.len() <= 0x2000_0000);
    assert(bits.subrange(0, 8) =~= rb.subrange(0, 8));
    lemma_bits_value_of_bin_bits(0x67, 8);
    assert(pow2(8) == 256) by {
        reveal_with_fuel(pow2, 9);
    }
    assert(nal[0] == 0x67u8);
    let sps = sps_avcc(width, height);
    lemma_be32_of_u32_be_bytes(nal.len() as u32, nal);
    assert(sps.subrange(4, sps.len() as int) =~= nal);
    assert(sps[4] == nal[0]);
    lemma_pps_avcc_bytes();
}

/// Generate H.264 Baseline SPS and PPS NAL units for the given resolution,
/// each in AVCC format (4-byte big-endian length prefix). The frame rate is
/// not used.
pub fn generate_sps_pps(width: u32, height: u32, fps: u32) -> (r: (Vec<u8>, Vec<u8>))
    requires
        width <= 4294967280,
        height <= 4294967280,
    ensures
        r.0@ == sps_avcc(width, height),
        r.1@ == pps_avcc(),
{
    let sps = build_sps_nal(width, height);
    let pps = build_pps_nal();
    let mut sps_avcc: Vec<u8> = Vec::new();
    push_be32(&mut sps_avcc, sps.len() as u32);
    let mut i: usize = 0;
    while i < sps.len()
        invariant
            i <= sps@.len(),
            sps_avcc@ == crate::avcc::u32_be_bytes(sps@.len() as u32) + sps@.subrange(0, i as int),
        decreases sps@.len() - i,
    {
        sps_avcc.push(sps[i]);
        i += 1;
        assert(sps_avcc@ =~= crate::avcc::u32_be_bytes(sps@.len() as u32) + sps@.subrange(0, i as int));
    }
    assert(sps@.subrange(0, i as int) =~= sps@);
    let mut pps_avcc: Vec<u8> = Vec::new();
    push_be32(&mut pps_avcc, pps.len() as u32);
    let mut j: usize = 0;
    while j < pps.len()
        invariant
            j <= pps@.len(),
            pps_avcc@ == crate::avcc::u32_be_bytes(pps@.len() as u32) + pps@.subrange(0, j as int),
        decreases pps@.len() - j,
    {
        pps_avcc.push(pps[j]);
        j += 1;
        assert(pps_avcc@ =~= crate::avcc::u32_be_bytes(pps@.len() as u32) + pps@.subrange(0, j as int));
    }
    assert(pps@.subrange(0, j as int) =~= pps@);
    (sps_avcc, pps_avcc)
}

/// Encoder for platforms without a hardware encoder.
pub struct UnsupportedEncoder;

/// The encoder of a platform without hardware encoding support.
pub fn create_encoder() -> (r: UnsupportedEncoder) {
    UnsupportedEncoder
}

} // verus!
