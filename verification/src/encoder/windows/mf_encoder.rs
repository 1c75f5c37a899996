//! Media Foundation H.264 packet helpers: attribute packing, NV12 frame
//! sizes, and normalisation of encoder output to AVCC.
use vstd::prelude::*;

pub use crate::avcc::{annex_b_to_avcc, avcc_contains_idr, capture_sps_pps_from_avcc, is_valid_avcc, looks_like_annex_b};
use crate::avcc::{
    annex_b_to_avcc_from, be32, extend_from_range, is_valid_avcc_spec, looks_like_annex_b_spec, push_be32, read_be32,
    u32_be_bytes,
};
use crate::encoder::EncodeError;

verus! {

/// Packs Media Foundation size and ratio attributes: the first value in the
/// high 32 bits, the second in the low 32 bits.
pub fn pack_mf_attribute_pair(first: u32, second: u32) -> (r: u64)
    ensures
        r == first as int * 0x1_0000_0000 + second as int,
{
    let hi = (first as u64) << 32u64;
    assert(((first as u64) << 32u64) | (second as u64) == first as u64 * 0x1_0000_0000u64 + second as u64)
        by (bit_vector);
    hi | second as u64
}

/// Exact byte size of a tightly packed NV12 frame: a `w × h` Y plane followed
/// by an interleaved UV plane of `ceil(w/2) × ceil(h/2)` sample pairs.
pub open spec fn nv12_size_spec(width: u32, height: u32) -> int {
    width as int * height as int + ((width as int + 1) / 2) * ((height as int + 1) / 2) * 2
}

/// Byte size of a tightly packed NV12 frame.
pub fn nv12_packed_size(width: u32, height: u32) -> (r: usize)
    requires
        nv12_size_spec(width, height) <= usize::MAX,
    ensures
        r == nv12_size_spec(width, height),
{
    let w = width as usize;
    let h = height as usize;
    let cw = w / 2 + w % 2;
    let ch = h / 2 + h % 2;
    proof {
        assert(0 <= w * h <= nv12_size_spec(width, height)) by (nonlinear_arith)
            requires
                nv12_size_spec(width, height) == w * h + cw * ch * 2,
                cw >= 0,
                ch >= 0,
                w >= 0,
                h >= 0,
        ;
        assert(0 <= cw * ch * 2 <= nv12_size_spec(width, height)) by (nonlinear_arith)
            requires
                nv12_size_spec(width, height) == w * h + cw * ch * 2,
                cw >= 0,
                ch >= 0,
                w >= 0,
                h >= 0,
        ;
        assert(cw * ch <= cw * ch * 2) by (nonlinear_arith)
            requires
                cw >= 0,
                ch >= 0,
        ;
    }
    w * h + cw * ch * 2
}

/// A single compressed H.264 packet in AVCC format. `timestamp` is the
/// capture time of the source frame in nanoseconds.
pub struct EncodedPacket {
    pub data: Vec<u8>,
    pub is_sync: bool,
    pub timestamp: u64,
}

/// Normalised AVCC form of an encoder output packet, or `None` when it is
/// rejected: data that does not open with an Annex B start code is taken as
/// AVCC and kept as is unless its first length prefix is zero or runs past
/// the end; Annex B data is converted and kept only when the result is valid
/// AVCC.
pub open spec fn h264_to_avcc_spec(d: Seq<u8>) -> Option<Seq<u8>> {
    if !looks_like_annex_b_spec(d) {
        if d.len() >= 4 && (be32(d, 0) == 0 || 4 + be32(d, 0) > d.len()) {
            None
        } else {
            Some(d)
        }
    } else {
        let a = annex_b_to_avcc_from(d, 0);
        if is_valid_avcc_spec(a) {
            Some(a)
        } else {
            None
        }
    }
}

/// The error for a rejected encoder packet.
pub open spec fn invalid_packet_error(e: EncodeError) -> bool {
    e matches EncodeError::EncodeFailed(m) && m@ == "MFT returned an invalid H.264 packet"@
}

/// Normalise a Media Foundation H.264 packet to AVCC, consuming the input.
pub fn h264_to_avcc(data: Vec<u8>) -> (r: Result<Vec<u8>, EncodeError>)
    ensures
        match h264_to_avcc_spec(data@) {
            Some(v) => r matches Ok(x) && x@ == v,
            None => r matches Err(e) && invalid_packet_error(e),
        },
{
    if !looks_like_annex_b(data.as_slice()) {
        if data.len() >= 4 {
            let first_len = read_be32(data.as_slice(), 0) as usize;
            if first_len == 0 || first_len > data.len() - 4 {
                return Err(EncodeError::EncodeFailed(String::from_str("MFT returned an invalid H.264 packet")));
            }
        }
        return Ok(data);
    }
    let avcc = annex_b_to_avcc(data.as_slice());
    if is_valid_avcc(avcc.as_slice()) {
        Ok(avcc)
    } else {
        Err(EncodeError::EncodeFailed(String::from_str("MFT returned an invalid H.264 packet")))
    }
}

/// One parameter-set list of an AVC decoder configuration record: up to
/// `count` entries, each a 16-bit big-endian length and that many bytes,
/// read from `off`. Returns the unit kept — `kept` if it is non-empty, else
/// the first entry as an AVCC unit — and the offset where reading stopped (a
/// truncated entry stops it just past its length field).
pub open spec fn config_entries(b: Seq<u8>, off: int, count: int, kept: Seq<u8>) -> (Seq<u8>, int)
    decreases count,
{
    if count <= 0 || off < 0 || off + 2 > b.len() {
        (kept, off)
    } else {
        let n = b[off] as int * 256 + b[off + 1] as int;
        let s = off + 2;
        if s + n > b.len() {
            (kept, s)
        } else {
            let k2 = if kept.len() == 0 {
                u32_be_bytes(n as u32) + b.subrange(s, s + n)
            } else {
                kept
            };
            config_entries(b, s + n, count - 1, k2)
        }
    }
}

/// The SPS and PPS units an encoder's sequence header (an AVC decoder
/// configuration record) yields, starting from the held ones `sps` and
/// `pps`: the SPS list starts at byte 6 with its count in the low five bits
/// of byte 5, and the PPS list, when bytes remain, follows with an 8-bit
/// count. An empty or short header is an error.
pub open spec fn parsed_sequence_header(b: Seq<u8>, sps: Seq<u8>, pps: Seq<u8>) -> Result<(Seq<u8>, Seq<u8>), Seq<char>> {
    if b.len() == 0 {
        Err("Empty sequence header"@)
    } else if b.len() < 6 {
        Err("Sequence header too short"@)
    } else {
        let (sps2, off) = config_entries(b, 6, (b[5] % 32) as int, sps);
        if off >= b.len() {
            Ok((sps2, pps))
        } else {
            let (pps2, end) = config_entries(b, off + 1, b[off] as int, pps);
            Ok((sps2, pps2))
        }
    }
}

fn read_config_entries(b: &[u8], off: usize, count: usize, out: &mut Vec<u8>) -> (end: usize)
    requires
        off <= b@.len(),
    ensures
        (final(out)@, end as int) == config_entries(b@, off as int, count as int, old(out)@),
        end <= b@.len(),
{
    let mut cur = off;
    let mut i: usize = 0;
    while i < count
        invariant
            i <= count,
            cur <= b@.len(),
            config_entries(b@, cur as int, (count - i) as int, out@) == config_entries(
                b@,
                off as int,
                count as int,
                old(out)@,
            ),
        decreases count - i,
    {
        if cur > b.len() || b.len() - cur < 2 {
            return cur;
        }
        let n = (b[cur] as usize) * 256 + (b[cur + 1] as usize);
        let start = cur + 2;
        if n > b.len() - start {
            return start;
        }
        if out.len() == 0 {
            assert(n < 0x1_0000_0000);
            push_be32(out, n as u32);
            extend_from_range(out, b, start, start + n);
        }
        cur = start + n;
        i += 1;
    }
    cur
}

/// Reads the SPS and PPS out of an encoder's sequence header (see
/// `parsed_sequence_header`): each output that is still empty takes the
/// first unit of its list, as an AVCC unit.
pub fn sps_pps_from_sequence_header(blob: &[u8], sps_out: &mut Vec<u8>, pps_out: &mut Vec<u8>) -> (r: Result<
    (),
    EncodeError,
>)
    ensures
        match parsed_sequence_header(blob@, old(sps_out)@, old(pps_out)@) {
            Ok((sps, pps)) => r is Ok && final(sps_out)@ == sps && final(pps_out)@ == pps,
            Err(m) => r matches Err(e) && e matches EncodeError::EncodeFailed(t) && t@ == m && final(sps_out)@
                == old(sps_out)@ && final(pps_out)@ == old(pps_out)@,
        },
{
    if blob.len() == 0 {
        return Err(EncodeError::EncodeFailed(String::from_str("Empty sequence header")));
    }
    if blob.len() < 6 {
        return Err(EncodeError::EncodeFailed(String::from_str("Sequence header too short")));
    }
    let b5 = blob[5];
    assert(b5 & 0x1f == b5 % 32) by (bit_vector);
    let num_sps = (b5 & 0x1f) as usize;
    let off = read_config_entries(blob, 6, num_sps, sps_out);
    if off >= blob.len() {
        return Ok(());
    }
    let num_pps = blob[off] as usize;
    let _end = read_config_entries(blob, off + 1, num_pps, pps_out);
    Ok(())
}

} // verus!
