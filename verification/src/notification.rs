//! The "clip saved" notification, and text handed to the Windows
//! notification APIs.
use vstd::prelude::*;

use crate::paths::{file_name, path_file_name};
use crate::text::chars_of;

verus! {

/// UTF-16 code units of one character: itself below U+10000, otherwise a
/// surrogate pair.
pub open spec fn utf16_units(c: char) -> Seq<u16> {
    let v = c as u32;
    if v < 0x10000 {
        seq![v as u16]
    } else {
        seq![(0xD800 + (v - 0x10000) / 0x400) as u16, (0xDC00 + (v - 0x10000) % 0x400) as u16]
    }
}

/// UTF-16 of a character sequence.
pub open spec fn utf16(s: Seq<char>) -> Seq<u16>
    decreases s.len(),
{
    if s.len() == 0 {
        Seq::empty()
    } else {
        utf16(s.drop_last()) + utf16_units(s.last())
    }
}

/// `s` as NUL-terminated UTF-16, as Windows APIs take strings.
pub fn encode_wide(s: &str) -> (r: Vec<u16>)
    ensures
        r@ == utf16(s@).push(0),
{
    let cs = chars_of(s);
    let mut out: Vec<u16> = Vec::new();
    let mut i: usize = 0;
    while i < cs.len()
        invariant
            i <= cs@.len(),
            out@ == utf16(cs@.subrange(0, i as int)),
        decreases cs@.len() - i,
    {
        let v = cs[i] as u32;
        assert(cs@.subrange(0, i + 1).drop_last() =~= cs@.subrange(0, i as int));
        if v < 0x10000 {
            out.push(v as u16);
        } else {
            out.push((0xD800 + (v - 0x10000) / 0x400) as u16);
            out.push((0xDC00 + (v - 0x10000) % 0x400) as u16);
        }
        i += 1;
        assert(out@ =~= utf16(cs@.subrange(0, i as int)));
    }
    assert(cs@.subrange(0, i as int) =~= cs@);
    out.push(0);
    out
}

/// Body of the "clip saved" notification: the clip's file name, or the whole
/// path when it has none.
pub fn clip_saved_body(output_path: &str) -> (r: String)
    ensures
        r@ == match path_file_name(output_path@) {
            Some(n) => n,
            None => output_path@,
        },
{
    match file_name(output_path) {
        Some(n) => n,
        None => output_path.to_owned(),
    }
}

} // verus!
