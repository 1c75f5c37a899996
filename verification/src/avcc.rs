//! H.264 bitstream framing: AVCC (4-byte big-endian length prefix per NAL
//! unit) and Annex B (start-code delimited) byte streams.
//!
//! The spec functions here describe each scan as a walk over the byte
//! sequence, one NAL unit at a time, exactly as the executable scanners do.
use vstd::prelude::*;

verus! {

/// Big-endian 32-bit value stored at `d[off..off + 4]`.
pub open spec fn be32(d: Seq<u8>, off: int) -> int {
    d[off] as int * 16777216 + d[off + 1] as int * 65536 + d[off + 2] as int * 256 + d[off + 3] as int
}

/// The four big-endian bytes of `x`.
pub open spec fn u32_be_bytes(x: u32) -> Seq<u8> {
    seq![
        (x as int / 16777216) as u8,
        ((x as int / 65536) % 256) as u8,
        ((x as int / 256) % 256) as u8,
        (x as int % 256) as u8,
    ]
}

/// NAL unit type carried in the low five bits of a NAL header byte.
pub open spec fn nal_type(b: u8) -> u8 {
    (b % 32) as u8
}

/// `d` followed by an AVCC length prefix for it, i.e. one AVCC unit.
pub open spec fn avcc_unit(nal: Seq<u8>) -> Seq<u8> {
    u32_be_bytes(nal.len() as u32) + nal
}

/// Reads the big-endian length prefix at `off`.
pub fn read_be32(d: &[u8], off: usize) -> (r: u32)
    requires
        off + 4 <= d@.len(),
    ensures
        r as int == be32(d@, off as int),
{
    (d[off] as u32) * 16777216 + (d[off + 1] as u32) * 65536 + (d[off + 2] as u32) * 256 + (d[off + 3] as u32)
}

/// The NAL unit type of a header byte.
pub fn nal_type_of(b: u8) -> (r: u8)
    ensures
        r == nal_type(b),
{
    assert(b & 0x1f == b % 32) by (bit_vector);
    b & 0x1f
}

/// Appends the 4-byte big-endian encoding of `x` to `out`.
pub fn push_be32(out: &mut Vec<u8>, x: u32)
    ensures
        final(out)@ == old(out)@ + u32_be_bytes(x),
{
    let b0 = (x >> 24u32) as u8;
    let b1 = ((x >> 16u32) & 0xff) as u8;
    let b2 = ((x >> 8u32) & 0xff) as u8;
    let b3 = (x & 0xff) as u8;
    assert(b0 == (x as int / 16777216) as u8 && b1 == ((x as int / 65536) % 256) as u8 && b2 == ((x as int
        / 256) % 256) as u8 && b3 == (x as int % 256) as u8) by {
        assert((x >> 24u32) == x / 16777216) by (bit_vector);
        assert(((x >> 16u32) & 0xff) == (x / 65536) % 256) by (bit_vector);
        assert(((x >> 8u32) & 0xff) == (x / 256) % 256) by (bit_vector);
        assert((x & 0xff) == x % 256) by (bit_vector);
    }
    out.push(b0);
    out.push(b1);
    out.push(b2);
    out.push(b3);
    assert(final(out)@ =~= old(out)@ + u32_be_bytes(x)) by {
        assert(u32_be_bytes(x) =~= seq![b0, b1, b2, b3]);
    }
}

/// Appends `src[from..to]` to `out`.
pub fn extend_from_range(out: &mut Vec<u8>, src: &[u8], from: usize, to: usize)
    requires
        from <= to <= src@.len(),
    ensures
        final(out)@ == old(out)@ + src@.subrange(from as int, to as int),
{
    let mut i = from;
    while i < to
        invariant
            from <= i <= to <= src@.len(),
            out@ == old(out)@ + src@.subrange(from as int, i as int),
        decreases to - i,
    {
        out.push(src[i]);
        i += 1;
        assert(out@ =~= old(out)@ + src@.subrange(from as int, i as int));
    }
}

/// A copy of `src[from..to]`.
pub fn copy_range(src: &[u8], from: usize, to: usize) -> (r: Vec<u8>)
    requires
        from <= to <= src@.len(),
    ensures
        r@ == src@.subrange(from as int, to as int),
{
    let mut out: Vec<u8> = Vec::new();
    extend_from_range(&mut out, src, from, to);
    assert(out@ =~= src@.subrange(from as int, to as int));
    out
}

// ---------------------------------------------------------------------------
// AVCC validity and keyframe detection
// ---------------------------------------------------------------------------

/// The AVCC units from `off` on are well formed (non-empty, in bounds) and
/// end exactly at the end of `d`.
pub open spec fn avcc_well_formed_from(d: Seq<u8>, off: int) -> bool
    decreases d.len() - off,
{
    if off < 0 || off + 4 > d.len() {
        off == d.len()
    } else {
        let n = be32(d, off);
        n != 0 && off + 4 + n <= d.len() && avcc_well_formed_from(d, off + 4 + n)
    }
}

/// `d` is a non-empty sequence of well-formed AVCC units.
pub open spec fn is_valid_avcc_spec(d: Seq<u8>) -> bool {
    d.len() >= 4 && avcc_well_formed_from(d, 0)
}

/// Walking the well-formed prefix of the AVCC units from `off`, some unit has
/// a NAL type in `types` (encoded as a predicate on the type).
pub open spec fn avcc_has_type_from(d: Seq<u8>, off: int, t1: u8, t2: u8) -> bool
    decreases d.len() - off,
{
    if off < 0 || off + 4 > d.len() {
        false
    } else {
        let n = be32(d, off);
        let s = off + 4;
        if n == 0 || s + n > d.len() {
            false
        } else if nal_type(d[s]) == t1 || nal_type(d[s]) == t2 {
            true
        } else {
            avcc_has_type_from(d, s + n, t1, t2)
        }
    }
}

/// Scans the well-formed prefix of `d` for a NAL unit of type `t1` or `t2`.
pub fn avcc_scan_for_types(d: &[u8], t1: u8, t2: u8) -> (r: bool)
    ensures
        r == avcc_has_type_from(d@, 0, t1, t2),
{
    let mut offset: usize = 0;
    while offset <= d.len() && 4 <= d.len() - offset
        invariant
            offset <= d@.len(),
            avcc_has_type_from(d@, offset as int, t1, t2) == avcc_has_type_from(d@, 0, t1, t2),
        decreases d@.len() - offset,
    {
        let n = read_be32(d, offset) as usize;
        let start = offset + 4;
        if n == 0 || n > d.len() - start {
            return false;
        }
        let t = nal_type_of(d[start]);
        if t == t1 || t == t2 {
            return true;
        }
        offset = start + n;
    }
    false
}

/// Whether `d` is a non-empty sequence of well-formed AVCC units.
pub fn is_valid_avcc(d: &[u8]) -> (r: bool)
    ensures
        r == is_valid_avcc_spec(d@),
{
    let mut offset: usize = 0;
    let mut count: usize = 0;
    while offset <= d.len() && 4 <= d.len() - offset
        invariant
            offset <= d@.len(),
            avcc_well_formed_from(d@, offset as int) == avcc_well_formed_from(d@, 0),
            count == 0 <==> offset == 0,
            offset > 0 ==> d@.len() >= 4,
        decreases d@.len() - offset,
    {
        let n = read_be32(d, offset) as usize;
        let start = offset + 4;
        if n == 0 || n > d.len() - start {
            return false;
        }
        offset = start + n;
        count = 1;
    }
    count > 0 && offset == d.len()
}

/// Whether the well-formed prefix of `d` carries an IDR slice (NAL type 5).
pub fn avcc_contains_idr(d: &[u8]) -> (r: bool)
    ensures
        r == avcc_has_type_from(d@, 0, 5, 5),
{
    avcc_scan_for_types(d, 5, 5)
}

// ---------------------------------------------------------------------------
// Parameter-set scans
// ---------------------------------------------------------------------------

/// Result of scanning one AVCC packet for its parameter sets.
pub enum ParamScan {
    /// Both an SPS (type 7) and a PPS (type 8) were seen.
    Found(Seq<u8>, Seq<u8>),
    /// The scan ended without seeing both.
    NotFound,
    /// The scan would read the header byte of an empty NAL unit at the very
    /// end of the packet, i.e. past its last byte.
    OutOfBounds,
}

/// First-pair scan: walks the AVCC units of `d` from `off`, remembering the
/// latest SPS/PPS payloads (without length prefix), and stops as soon as both
/// have been seen. An over-long unit ends the scan.
pub open spec fn first_param_pair_from(d: Seq<u8>, off: int, sps: Option<Seq<u8>>, pps: Option<Seq<u8>>) -> ParamScan
    decreases d.len() - off,
{
    if off < 0 || off + 4 > d.len() {
        ParamScan::NotFound
    } else {
        let n = be32(d, off);
        let s = off + 4;
        if s + n > d.len() {
            ParamScan::NotFound
        } else if s == d.len() {
            ParamScan::OutOfBounds
        } else {
            let t = nal_type(d[s]);
            let sps2 = if t == 7 { Some(d.subrange(s, s + n)) } else { sps };
            let pps2 = if t == 8 { Some(d.subrange(s, s + n)) } else { pps };
            if sps2 is Some && pps2 is Some {
                ParamScan::Found(sps2->0, pps2->0)
            } else {
                first_param_pair_from(d, s + n, sps2, pps2)
            }
        }
    }
}

/// Scans one AVCC packet for the first SPS/PPS pair.
pub fn scan_first_param_pair(d: &[u8]) -> (r: Option<(Vec<u8>, Vec<u8>)>)
    requires
        !(first_param_pair_from(d@, 0, None, None) is OutOfBounds),
    ensures
        match first_param_pair_from(d@, 0, None, None) {
            ParamScan::Found(s, p) => r matches Some(x) && x.0@ == s && x.1@ == p,
            _ => r is None,
        },
{
    let mut offset: usize = 0;
    let mut sps: Option<Vec<u8>> = None;
    let mut pps: Option<Vec<u8>> = None;
    while offset <= d.len() && 4 <= d.len() - offset
        invariant
            offset <= d@.len(),
            !(sps is Some && pps is Some),
            !(first_param_pair_from(d@, 0, None, None) is OutOfBounds),
            first_param_pair_from(d@, offset as int, opt_view(sps), opt_view(pps))
                == first_param_pair_from(d@, 0, None, None),
        decreases d@.len() - offset,
    {
        let n = read_be32(d, offset) as usize;
        let start = offset + 4;
        if n > d.len() - start {
            return None;
        }
        let t = nal_type_of(d[start]);
        if t == 7 {
            sps = Some(copy_range(d, start, start + n));
        }
        if t == 8 {
            pps = Some(copy_range(d, start, start + n));
        }
        if sps.is_some() && pps.is_some() {
            let s = sps.unwrap();
            let p = pps.unwrap();
            return Some((s, p));
        }
        offset = start + n;
    }
    None
}

/// View of an optional byte vector.
pub open spec fn opt_view(o: Option<Vec<u8>>) -> Option<Seq<u8>> {
    match o {
        Some(v) => Some(v@),
        None => None,
    }
}

/// Last-pair scan: walks all AVCC units of `d` from `off`, keeping the last
/// SPS and last PPS payload seen (empty when none). `None` means the scan
/// would read past the end of `d`.
pub open spec fn last_param_sets_from(d: Seq<u8>, off: int, sps: Seq<u8>, pps: Seq<u8>) -> Option<(Seq<u8>, Seq<u8>)>
    decreases d.len() - off,
{
    if off < 0 || off + 4 > d.len() {
        Some((sps, pps))
    } else {
        let n = be32(d, off);
        let s = off + 4;
        if s + n > d.len() {
            Some((sps, pps))
        } else if s == d.len() {
            None
        } else {
            let t = nal_type(d[s]);
            let sps2 = if t == 7 { d.subrange(s, s + n) } else { sps };
            let pps2 = if t == 8 { d.subrange(s, s + n) } else { pps };
            last_param_sets_from(d, s + n, sps2, pps2)
        }
    }
}

/// Scans one AVCC packet for its last SPS and PPS payloads.
pub fn scan_last_param_sets(d: &[u8]) -> (r: (Vec<u8>, Vec<u8>))
    requires
        last_param_sets_from(d@, 0, seq![], seq![]) is Some,
    ensures
        last_param_sets_from(d@, 0, seq![], seq![]) == Some((r.0@, r.1@)),
{
    let mut offset: usize = 0;
    let mut sps: Vec<u8> = Vec::new();
    let mut pps: Vec<u8> = Vec::new();
    while offset <= d.len() && 4 <= d.len() - offset
        invariant
            offset <= d@.len(),
            last_param_sets_from(d@, 0, seq![], seq![]) is Some,
            last_param_sets_from(d@, offset as int, sps@, pps@) == last_param_sets_from(d@, 0, seq![], seq![]),
        ensures
            last_param_sets_from(d@, 0, seq![], seq![]) == Some((sps@, pps@)),
        decreases d@.len() - offset,
    {
        let n = read_be32(d, offset) as usize;
        let start = offset + 4;
        if n > d.len() - start {
            break;
        }
        let t = nal_type_of(d[start]);
        if t == 7 {
            sps = copy_range(d, start, start + n);
        }
        if t == 8 {
            pps = copy_range(d, start, start + n);
        }
        offset = start + n;
    }
    (sps, pps)
}

/// Whether a first-pair scan result is `Found`, `NotFound` or `OutOfBounds`
/// (0, 1, 2).
pub open spec fn scan_kind(r: ParamScan) -> u8 {
    match r {
        ParamScan::Found(_, _) => 0,
        ParamScan::NotFound => 1,
        ParamScan::OutOfBounds => 2,
    }
}

/// The kind of a first-pair scan depends only on which parameter sets have
/// been seen, not on their contents.
proof fn lemma_first_scan_kind(
    d: Seq<u8>,
    off: int,
    s1: Option<Seq<u8>>,
    p1: Option<Seq<u8>>,
    s2: Option<Seq<u8>>,
    p2: Option<Seq<u8>>,
)
    requires
        (s1 is Some) == (s2 is Some),
        (p1 is Some) == (p2 is Some),
    ensures
        scan_kind(first_param_pair_from(d, off, s1, p1)) == scan_kind(first_param_pair_from(d, off, s2, p2)),
    decreases d.len() - off,
{
    if off >= 0 && off + 4 <= d.len() {
        let n = be32(d, off);
        let s = off + 4;
        if s + n <= d.len() && s != d.len() {
            let t = nal_type(d[s]);
            let a1 = if t == 7 { Some(d.subrange(s, s + n)) } else { s1 };
            let b1 = if t == 8 { Some(d.subrange(s, s + n)) } else { p1 };
            let a2 = if t == 7 { Some(d.subrange(s, s + n)) } else { s2 };
            let b2 = if t == 8 { Some(d.subrange(s, s + n)) } else { p2 };
            lemma_first_scan_kind(d, s + n, a1, b1, a2, b2);
        }
    }
}

/// The kind (see `scan_kind`) of the first-pair scan of one AVCC packet.
pub fn first_pair_scan_kind(d: &[u8]) -> (r: u8)
    ensures
        r == scan_kind(first_param_pair_from(d@, 0, None, None)),
{
    let mut offset: usize = 0;
    let mut has_sps = false;
    let mut has_pps = false;
    let ghost e: Seq<u8> = seq![];
    while offset <= d.len() && 4 <= d.len() - offset
        invariant
            offset <= d@.len(),
            !(has_sps && has_pps),
            scan_kind(first_param_pair_from(
                d@,
                offset as int,
                if has_sps { Some(e) } else { None },
                if has_pps { Some(e) } else { None },
            )) == scan_kind(first_param_pair_from(d@, 0, None, None)),
        decreases d@.len() - offset,
    {
        let n = read_be32(d, offset) as usize;
        let start = offset + 4;
        if n > d.len() - start {
            return 1;
        }
        if start == d.len() {
            return 2;
        }
        let t = nal_type_of(d[start]);
        proof {
            let sp = if has_sps { Some(e) } else { None };
            let pp = if has_pps { Some(e) } else { None };
            let a = if t == 7 { Some(d@.subrange(start as int, start + n)) } else { sp };
            let b = if t == 8 { Some(d@.subrange(start as int, start + n)) } else { pp };
            let a2 = if t == 7 || has_sps { Some(e) } else { None };
            let b2 = if t == 8 || has_pps { Some(e) } else { None };
            lemma_first_scan_kind(d@, start + n, a, b, a2, b2);
        }
        if t == 7 {
            has_sps = true;
        }
        if t == 8 {
            has_pps = true;
        }
        if has_sps && has_pps {
            return 0;
        }
        offset = start + n;
    }
    1
}

/// Whether the last-sets scan stays inside the packet depends only on the
/// packet.
proof fn lemma_last_scan_bounds(d: Seq<u8>, off: int, s1: Seq<u8>, p1: Seq<u8>, s2: Seq<u8>, p2: Seq<u8>)
    ensures
        (last_param_sets_from(d, off, s1, p1) is Some) == (last_param_sets_from(d, off, s2, p2) is Some),
    decreases d.len() - off,
{
    if off >= 0 && off + 4 <= d.len() {
        let n = be32(d, off);
        let s = off + 4;
        if s + n <= d.len() && s != d.len() {
            let t = nal_type(d[s]);
            let a1 = if t == 7 { d.subrange(s, s + n) } else { s1 };
            let b1 = if t == 8 { d.subrange(s, s + n) } else { p1 };
            let a2 = if t == 7 { d.subrange(s, s + n) } else { s2 };
            let b2 = if t == 8 { d.subrange(s, s + n) } else { p2 };
            lemma_last_scan_bounds(d, s + n, a1, b1, a2, b2);
        }
    }
}

/// Whether the last-sets scan of one AVCC packet stays inside it (see
/// `scan_last_param_sets`).
pub fn last_scan_in_bounds(d: &[u8]) -> (r: bool)
    ensures
        r == (last_param_sets_from(d@, 0, seq![], seq![]) is Some),
{
    let mut offset: usize = 0;
    let ghost e: Seq<u8> = seq![];
    while offset <= d.len() && 4 <= d.len() - offset
        invariant
            offset <= d@.len(),
            e == Seq::<u8>::empty(),
            (last_param_sets_from(d@, offset as int, e, e) is Some) == (last_param_sets_from(d@, 0, e, e) is Some),
        decreases d@.len() - offset,
    {
        let n = read_be32(d, offset) as usize;
        let start = offset + 4;
        if n > d.len() - start {
            return true;
        }
        if start == d.len() {
            return false;
        }
        proof {
            let t = nal_type(d@[start as int]);
            let a = if t == 7 { d@.subrange(start as int, start + n) } else { e };
            let b = if t == 8 { d@.subrange(start as int, start + n) } else { e };
            lemma_last_scan_bounds(d@, start + n, a, b, e, e);
        }
        offset = start + n;
    }
    true
}

/// Parameter-set capture: walks the well-formed prefix of the AVCC units of
/// `d`, keeping the last SPS and PPS *with* their length prefixes.
pub open spec fn captured_param_sets_from(d: Seq<u8>, off: int, sps: Seq<u8>, pps: Seq<u8>) -> (Seq<u8>, Seq<u8>)
    decreases d.len() - off,
{
    if off < 0 || off + 4 > d.len() {
        (sps, pps)
    } else {
        let n = be32(d, off);
        let s = off + 4;
        if n == 0 || s + n > d.len() {
            (sps, pps)
        } else {
            let t = nal_type(d[s]);
            let sps2 = if t == 7 { d.subrange(off, s + n) } else { sps };
            let pps2 = if t == 8 { d.subrange(off, s + n) } else { pps };
            captured_param_sets_from(d, s + n, sps2, pps2)
        }
    }
}

/// The well-formed AVCC units of `d` from `off`, each with its length
/// prefix, in order: they end at the first unit that is empty or runs past
/// the end of the data.
pub open spec fn avcc_units_from(d: Seq<u8>, off: int) -> Seq<Seq<u8>>
    decreases d.len() - off,
{
    if off < 0 || off + 4 > d.len() {
        seq![]
    } else {
        let n = be32(d, off);
        let s = off + 4;
        if n == 0 || s + n > d.len() {
            seq![]
        } else {
            seq![d.subrange(off, s + n)] + avcc_units_from(d, s + n)
        }
    }
}

/// The last of `units` (length-prefixed AVCC units) whose NAL type is `t`.
pub open spec fn last_unit_of_type(units: Seq<Seq<u8>>, t: u8) -> Option<Seq<u8>>
    decreases units.len(),
{
    if units.len() == 0 {
        None
    } else if nal_type(units.last()[4]) == t {
        Some(units.last())
    } else {
        last_unit_of_type(units.drop_last(), t)
    }
}

/// `x` if present, else `default`.
pub open spec fn or_else(x: Option<Seq<u8>>, default: Seq<u8>) -> Seq<u8> {
    match x {
        Some(v) => v,
        None => default,
    }
}

/// The last unit of a type among `u` followed by `rest` is the last one in
/// `rest`, or else `u` when it has that type.
proof fn lemma_last_unit_of_type_cons(u: Seq<u8>, rest: Seq<Seq<u8>>, t: u8)
    ensures
        last_unit_of_type(seq![u] + rest, t) == match last_unit_of_type(rest, t) {
            Some(x) => Some(x),
            None => if nal_type(u[4]) == t { Some(u) } else { None },
        },
    decreases rest.len(),
{
    let all = seq![u] + rest;
    if rest.len() == 0 {
        assert(all =~= seq![u]);
        assert(all.drop_last() =~= Seq::<Seq<u8>>::empty());
    } else {
        assert(all.last() == rest.last());
        assert(all.drop_last() =~= seq![u] + rest.drop_last());
        lemma_last_unit_of_type_cons(u, rest.drop_last(), t);
    }
}

/// Direct reading of the parameter-set capture: it gives the last SPS and
/// the last PPS among the well-formed units, length prefix included, and
/// keeps what it was given for a type that does not occur.
pub proof fn lemma_captured_param_sets_are_last_units(d: Seq<u8>, off: int, sps: Seq<u8>, pps: Seq<u8>)
    ensures
        captured_param_sets_from(d, off, sps, pps) == (
            or_else(last_unit_of_type(avcc_units_from(d, off), 7), sps),
            or_else(last_unit_of_type(avcc_units_from(d, off), 8), pps),
        ),
    decreases d.len() - off,
{
    if off >= 0 && off + 4 <= d.len() {
        let n = be32(d, off);
        let s = off + 4;
        if n != 0 && s + n <= d.len() {
            let u = d.subrange(off, s + n);
            let t = nal_type(d[s]);
            assert(u[4] == d[s]);
            let sps2 = if t == 7 { u } else { sps };
            let pps2 = if t == 8 { u } else { pps };
            lemma_captured_param_sets_are_last_units(d, s + n, sps2, pps2);
            lemma_last_unit_of_type_cons(u, avcc_units_from(d, s + n), 7);
            lemma_last_unit_of_type_cons(u, avcc_units_from(d, s + n), 8);
        }
    }
}

/// Records the last SPS (type 7) and PPS (type 8) AVCC units of `d`, length
/// prefix included, into `sps_out` / `pps_out`; a slot is left untouched
/// when no such unit occurs.
pub fn capture_sps_pps_from_avcc(d: &[u8], sps_out: &mut Vec<u8>, pps_out: &mut Vec<u8>)
    ensures
        captured_param_sets_from(d@, 0, old(sps_out)@, old(pps_out)@) == (final(sps_out)@, final(pps_out)@),
{
    let mut offset: usize = 0;
    while offset <= d.len() && 4 <= d.len() - offset
        invariant
            offset <= d@.len(),
            captured_param_sets_from(d@, offset as int, sps_out@, pps_out@) == captured_param_sets_from(
                d@,
                0,
                old(sps_out)@,
                old(pps_out)@,
            ),
        ensures
            captured_param_sets_from(d@, 0, old(sps_out)@, old(pps_out)@) == (sps_out@, pps_out@),
        decreases d@.len() - offset,
    {
        let n = read_be32(d, offset) as usize;
        let start = offset + 4;
        if n == 0 || n > d.len() - start {
            break;
        }
        let t = nal_type_of(d[start]);
        if t == 7 {
            *sps_out = copy_range(d, offset, start + n);
        }
        if t == 8 {
            *pps_out = copy_range(d, offset, start + n);
        }
        offset = start + n;
    }
}

// ---------------------------------------------------------------------------
// Annex B
// ---------------------------------------------------------------------------

/// A 4-byte start code `00 00 00 01` begins at `i`.
pub open spec fn start_code4(d: Seq<u8>, i: int) -> bool {
    0 <= i && i + 4 <= d.len() && d[i] == 0 && d[i + 1] == 0 && d[i + 2] == 0 && d[i + 3] == 1
}

/// A 3-byte start code `00 00 01` begins at `i`.
pub open spec fn start_code3(d: Seq<u8>, i: int) -> bool {
    0 <= i && i + 3 <= d.len() && d[i] == 0 && d[i + 1] == 0 && d[i + 2] == 1
}

/// Position of the first start code at or after `i` (or `d.len()`).
pub open spec fn next_start_code(d: Seq<u8>, i: int) -> int
    decreases d.len() - i,
{
    if i < 0 || i >= d.len() {
        d.len() as int
    } else if start_code4(d, i) || start_code3(d, i) {
        i
    } else {
        next_start_code(d, i + 1)
    }
}

/// AVCC rendering of the NAL unit `d[s..e]` (nothing when it is empty).
pub open spec fn avcc_chunk(d: Seq<u8>, s: int, e: int) -> Seq<u8> {
    if e > s {
        avcc_unit(d.subrange(s, e))
    } else {
        seq![]
    }
}

/// Annex B to AVCC conversion from position `i`: bytes before a start code
/// are skipped; each NAL unit runs from the end of its start code to the
/// next start code (or the end of the data) and empty units are dropped.
pub open spec fn annex_b_to_avcc_from(d: Seq<u8>, i: int) -> Seq<u8>
    decreases d.len() - i,
{
    if i < 0 || i >= d.len() {
        seq![]
    } else if start_code4(d, i) {
        let e = next_start_code(d, i + 4);
        proof {
            lemma_next_start_code_bounds(d, i + 4);
        }
        avcc_chunk(d, i + 4, e) + annex_b_to_avcc_from(d, e)
    } else if start_code3(d, i) {
        let e = next_start_code(d, i + 3);
        proof {
            lemma_next_start_code_bounds(d, i + 3);
        }
        avcc_chunk(d, i + 3, e) + annex_b_to_avcc_from(d, e)
    } else {
        annex_b_to_avcc_from(d, i + 1)
    }
}

/// Bounds on the position of the next start code.
pub proof fn lemma_next_start_code_bounds(d: Seq<u8>, i: int)
    requires
        0 <= i,
    ensures
        i <= next_start_code(d, i) <= d.len() || (i > d.len() && next_start_code(d, i) == d.len()),
        i <= d.len() ==> i <= next_start_code(d, i) <= d.len(),
    decreases d.len() - i,
{
    if i < d.len() && !(start_code4(d, i) || start_code3(d, i)) {
        lemma_next_start_code_bounds(d, i + 1);
    }
}

/// A NAL unit that an Annex B stream carries intact: non-empty, shorter
/// than `2^32` bytes and free of `00 00 01` runs (as emulation prevention
/// guarantees). Trailing zero bytes are kept: the 4-byte start code after
/// them is found first.
pub open spec fn annex_b_safe(n: Seq<u8>) -> bool {
    &&& 0 < n.len() < 0x1_0000_0000
    &&& forall|k: int| !#[trigger] start_code3(n, k)
}

/// NAL units written as an Annex B stream: each preceded by `00 00 00 01`.
pub open spec fn annex_b_stream(nals: Seq<Seq<u8>>) -> Seq<u8>
    decreases nals.len(),
{
    if nals.len() == 0 {
        seq![]
    } else {
        seq![0u8, 0, 0, 1] + nals[0] + annex_b_stream(nals.drop_first())
    }
}

/// NAL units written as AVCC: each preceded by its 4-byte big-endian
/// length.
pub open spec fn avcc_stream(nals: Seq<Seq<u8>>) -> Seq<u8>
    decreases nals.len(),
{
    if nals.len() == 0 {
        seq![]
    } else {
        avcc_unit(nals[0]) + avcc_stream(nals.drop_first())
    }
}

/// Start codes after a prefix are those of the rest.
proof fn lemma_start_codes_shift(p: Seq<u8>, q: Seq<u8>, i: int)
    requires
        p.len() <= i,
    ensures
        start_code4(p + q, i) == start_code4(q, i - p.len()),
        start_code3(p + q, i) == start_code3(q, i - p.len()),
{
}

/// Scanning for a start code after a prefix scans the rest.
proof fn lemma_next_start_code_shift(p: Seq<u8>, q: Seq<u8>, i: int)
    requires
        p.len() <= i,
    ensures
        next_start_code(p + q, i) == p.len() + next_start_code(q, i - p.len()),
    decreases (p + q).len() - i,
{
    lemma_start_codes_shift(p, q, i);
    if i < (p + q).len() && !(start_code4(p + q, i) || start_code3(p + q, i)) {
        lemma_next_start_code_shift(p, q, i + 1);
    }
}

/// Converting from a position after a prefix converts the rest.
proof fn lemma_annex_b_shift(p: Seq<u8>, q: Seq<u8>, i: int)
    requires
        p.len() <= i,
    ensures
        annex_b_to_avcc_from(p + q, i) == annex_b_to_avcc_from(q, i - p.len()),
    decreases (p + q).len() - i,
{
    let d = p + q;
    let k = i - p.len();
    lemma_start_codes_shift(p, q, i);
    if i < d.len() {
        if start_code4(d, i) {
            let e = next_start_code(d, i + 4);
            lemma_next_start_code_shift(p, q, i + 4);
            lemma_next_start_code_bounds(d, i + 4);
            lemma_annex_b_shift(p, q, e);
            if e > i + 4 {
                assert(d.subrange(i + 4, e) =~= q.subrange(k + 4, e - p.len()));
            }
        } else if start_code3(d, i) {
            let e = next_start_code(d, i + 3);
            lemma_next_start_code_shift(p, q, i + 3);
            lemma_next_start_code_bounds(d, i + 3);
            lemma_annex_b_shift(p, q, e);
            if e > i + 3 {
                assert(d.subrange(i + 3, e) =~= q.subrange(k + 3, e - p.len()));
            }
        } else {
            lemma_annex_b_shift(p, q, i + 1);
        }
    }
}

/// An Annex B stream is empty or starts with a 4-byte start code.
proof fn lemma_annex_b_stream_start(nals: Seq<Seq<u8>>)
    ensures
        annex_b_stream(nals).len() == 0 || start_code4(annex_b_stream(nals), 0),
{
}

/// After a start code, the scan for the next one stops exactly at the end
/// of a safe NAL unit.
proof fn lemma_nal_end_found(n: Seq<u8>, rest: Seq<u8>, j: int)
    requires
        annex_b_safe(n),
        rest.len() == 0 || start_code4(rest, 0),
        4 <= j <= 4 + n.len(),
    ensures
        next_start_code(seq![0u8, 0, 0, 1] + n + rest, j) == 4 + n.len(),
    decreases 4 + n.len() - j,
{
    let d = seq![0u8, 0, 0, 1] + n + rest;
    let end: int = 4 + n.len() as int;
    if j == end {
        if rest.len() > 0 {
            assert(d[end] == rest[0] && d[end + 1] == rest[1] && d[end + 2] == rest[2] && d[end + 3] == rest[3]);
        }
    } else {
        let k = j - 4;
        assert(d[j] == n[k]);
        assert(!start_code3(d, j)) by {
            if k + 2 < n.len() {
                assert(!start_code3(n, k));
                assert(d[j + 1] == n[k + 1] && d[j + 2] == n[k + 2]);
            } else if rest.len() > 0 {
                assert(d[j + 2] == rest[j + 2 - end]);
            }
        }
        assert(!start_code4(d, j)) by {
            if k + 3 < n.len() {
                assert(!start_code3(n, k + 1));
                assert(d[j + 1] == n[k + 1] && d[j + 2] == n[k + 2] && d[j + 3] == n[k + 3]);
            } else if rest.len() > 0 {
                assert(d[j + 3] == rest[j + 3 - end]);
            }
        }
        lemma_nal_end_found(n, rest, j + 1);
    }
}

/// Law of `annex_b_to_avcc`: NAL units written as an Annex B stream come
/// back as the same units, in order, each with its big-endian length in
/// place of the start code.
pub proof fn lemma_annex_b_round_trip(nals: Seq<Seq<u8>>)
    requires
        forall|i: int| 0 <= i < nals.len() ==> annex_b_safe(#[trigger] nals[i]),
    ensures
        annex_b_to_avcc_from(annex_b_stream(nals), 0) == avcc_stream(nals),
    decreases nals.len(),
{
    if nals.len() > 0 {
        let n = nals[0];
        let tail = nals.drop_first();
        assert(annex_b_safe(nals[0]));
        assert forall|i: int| 0 <= i < tail.len() implies annex_b_safe(#[trigger] tail[i]) by {
            assert(tail[i] == nals[i + 1]);
        }
        let rest = annex_b_stream(tail);
        let p = seq![0u8, 0, 0, 1] + n;
        let d = annex_b_stream(nals);
        assert(d == p + rest);
        lemma_annex_b_stream_start(tail);
        lemma_nal_end_found(n, rest, 4);
        let e: int = 4 + n.len() as int;
        assert(start_code4(d, 0));
        assert(next_start_code(d, 4) == e);
        assert(d.subrange(4, e) =~= n);
        lemma_annex_b_shift(p, rest, e);
        lemma_annex_b_round_trip(tail);
    }
}

fn is_start_code4(d: &[u8], i: usize) -> (r: bool)
    ensures
        r == start_code4(d@, i as int),
{
    i <= d.len() && 4 <= d.len() - i && d[i] == 0 && d[i + 1] == 0 && d[i + 2] == 0 && d[i + 3] == 1
}

fn is_start_code3(d: &[u8], i: usize) -> (r: bool)
    ensures
        r == start_code3(d@, i as int),
{
    i <= d.len() && 3 <= d.len() - i && d[i] == 0 && d[i + 1] == 0 && d[i + 2] == 1
}

/// Converts an Annex B byte stream into AVCC units.
pub fn annex_b_to_avcc(d: &[u8]) -> (r: Vec<u8>)
    ensures
        r@ == annex_b_to_avcc_from(d@, 0),
{
    let mut out: Vec<u8> = Vec::new();
    let mut i: usize = 0;
    while i < d.len()
        invariant
            i <= d@.len(),
            out@ + annex_b_to_avcc_from(d@, i as int) == annex_b_to_avcc_from(d@, 0),
        decreases d@.len() - i,
    {
        let skip: usize = if is_start_code4(d, i) {
            4
        } else if is_start_code3(d, i) {
            3
        } else {
            0
        };
        if skip == 0 {
            i += 1;
            continue;
        }
        let nal_start = i + skip;
        let mut j = nal_start;
        proof {
            lemma_next_start_code_bounds(d@, nal_start as int);
        }
        while j < d.len() && !is_start_code4(d, j) && !is_start_code3(d, j)
            invariant
                nal_start <= j <= d@.len(),
                next_start_code(d@, j as int) == next_start_code(d@, nal_start as int),
            decreases d@.len() - j,
        {
            j += 1;
        }
        assert(next_start_code(d@, j as int) == j);
        let ghost before = out@;
        if j > nal_start {
            push_be32(&mut out, (j - nal_start) as u32);
            extend_from_range(&mut out, d, nal_start, j);
        }
        assert(out@ == before + avcc_chunk(d@, nal_start as int, j as int)) by {
            if j > nal_start {
                assert(out@ =~= before + avcc_chunk(d@, nal_start as int, j as int));
            } else {
                assert(out@ =~= before + avcc_chunk(d@, nal_start as int, j as int));
            }
        }
        assert(out@ + annex_b_to_avcc_from(d@, j as int) =~= annex_b_to_avcc_from(d@, 0));
        i = j;
    }
    out
}

/// Whether the data opens with an Annex B start code.
pub open spec fn looks_like_annex_b_spec(d: Seq<u8>) -> bool {
    d.len() >= 3 && d[0] == 0 && d[1] == 0 && (d[2] == 1 || (d.len() >= 4 && d[2] == 0 && d[3] == 1))
}

/// Quick check: does the data start with an Annex B start code?
pub fn looks_like_annex_b(d: &[u8]) -> (r: bool)
    ensures
        r == looks_like_annex_b_spec(d@),
{
    if d.len() < 3 {
        return false;
    }
    if d[0] != 0 || d[1] != 0 {
        return false;
    }
    d[2] == 1 || (d.len() >= 4 && d[2] == 0 && d[3] == 1)
}

} // verus!
