//! Clip library: entries shown to the user, the side files that follow a
//! clip, where clips are stored, and checks on user-edited clip fields.
use vstd::prelude::*;
use vstd::string::StringSliceAdditionalSpecFns;

use crate::paths::{
    extension, file_stem, join, path_extension, path_file_stem, path_join, path_starts_with,
    path_with_extension, path_with_file_name, starts_with, with_extension, with_file_name,
};
use crate::clock::{compact_timestamp, format_unix_timestamp, is_digit_char, iso_timestamp, lemma_compact_timestamp_shape};
use crate::text::{
    chars_eq, chars_of, decimal, push_decimal, push_str, string_from_chars, trim_chars, trimmed,
};

verus! {

/// A clip entry shown in the library.
#[derive(Debug, Clone)]
pub struct ClipInfo {
    pub id: String,
    pub path: String,
    pub filename: String,
    pub duration_secs: u32,
    pub created_at: String,
    pub size_bytes: u64,
    pub title: String,
    pub description: String,
    pub game: String,
}

/// Path of the user-metadata side file of a clip: its extension becomes
/// `mp4.json`.
pub fn metadata_path(clip_path: &str) -> (r: String)
    ensures
        r@ == path_with_extension(clip_path@, "mp4.json"@),
{
    proof {
        reveal_strlit("mp4.json");
    }
    with_extension(clip_path, "mp4.json")
}

/// The path of `filename` in the clip directory `output_dir`, or nothing
/// when the joined path does not start with the directory (an absolute
/// name replaces the directory when joined).
pub fn clip_path_in(output_dir: &str, filename: &str) -> (r: Option<String>)
    ensures
        match r {
            Some(p) => p@ == path_join(output_dir@, filename@) && path_starts_with(p@, output_dir@),
            None => !path_starts_with(path_join(output_dir@, filename@), output_dir@),
        },
{
    let p = join(output_dir, filename);
    if starts_with(p.as_str(), output_dir) {
        Some(p)
    } else {
        None
    }
}

/// Whether a path names an MP4 file: its extension is exactly `mp4`.
pub open spec fn is_mp4_path(path: Seq<char>) -> bool {
    path_extension(path) == Some("mp4"@)
}

/// Computes `is_mp4_path`.
pub fn is_mp4(path: &str) -> (r: bool)
    ensures
        r == is_mp4_path(path@),
{
    match extension(path) {
        Some(e) => {
            let have = chars_of(e.as_str());
            let want = chars_of("mp4");
            chars_eq(have.as_slice(), want.as_slice())
        },
        None => false,
    }
}

/// The clip a delete request names: the path of `filename` in the clip
/// directory. Refused with "Invalid file path" when that path leaves the
/// directory, and with "Not a clip file" when it is not an MP4 file.
pub fn delete_target(output_dir: &str, filename: &str) -> (r: Result<String, String>)
    ensures
        ({
            let p = path_join(output_dir@, filename@);
            if !path_starts_with(p, output_dir@) {
                r matches Err(m) && m@ == "Invalid file path"@
            } else if !is_mp4_path(p) {
                r matches Err(m) && m@ == "Not a clip file"@
            } else {
                r matches Ok(q) && q@ == p
            }
        }),
{
    match clip_path_in(output_dir, filename) {
        None => Err(String::from_str("Invalid file path")),
        Some(p) => if is_mp4(p.as_str()) {
            Ok(p)
        } else {
            Err(String::from_str("Not a clip file"))
        },
    }
}

/// The old and new paths of a rename request: `filename` and
/// `new_filename` in the clip directory. Refused with "Invalid file path"
/// when either leaves the directory, then with "Not a clip file" when the
/// old path is not an MP4 file.
pub fn rename_targets(output_dir: &str, filename: &str, new_filename: &str) -> (r: Result<(String, String), String>)
    ensures
        ({
            let old_p = path_join(output_dir@, filename@);
            let new_p = path_join(output_dir@, new_filename@);
            if !path_starts_with(old_p, output_dir@) || !path_starts_with(new_p, output_dir@) {
                r matches Err(m) && m@ == "Invalid file path"@
            } else if !is_mp4_path(old_p) {
                r matches Err(m) && m@ == "Not a clip file"@
            } else {
                r matches Ok(ps) && ps.0@ == old_p && ps.1@ == new_p
            }
        }),
{
    let old_p = clip_path_in(output_dir, filename);
    let new_p = clip_path_in(output_dir, new_filename);
    match (old_p, new_p) {
        (Some(o), Some(n)) => if is_mp4(o.as_str()) {
            Ok((o, n))
        } else {
            Err(String::from_str("Not a clip file"))
        },
        _ => Err(String::from_str("Invalid file path")),
    }
}

/// The clip a metadata update names: the path of `filename` in the clip
/// directory, when it stays inside the directory and is an MP4 file.
pub fn metadata_target(output_dir: &str, filename: &str) -> (r: Option<String>)
    ensures
        ({
            let p = path_join(output_dir@, filename@);
            match r {
                Some(q) => q@ == p && path_starts_with(p, output_dir@) && is_mp4_path(p),
                None => !path_starts_with(p, output_dir@) || !is_mp4_path(p),
            }
        }),
{
    match clip_path_in(output_dir, filename) {
        Some(p) => if is_mp4(p.as_str()) {
            Some(p)
        } else {
            None
        },
        None => None,
    }
}

/// The file stem of a path, or nothing if it has no file name.
pub open spec fn stem_or_empty(path: Seq<char>) -> Seq<char> {
    match path_file_stem(path) {
        Some(s) => s,
        None => Seq::empty(),
    }
}

/// Path of the thumbnail of a clip: `<stem>_thumb.jpg` beside it.
pub fn thumbnail_path(clip_path: &str) -> (r: String)
    ensures
        r@ == path_with_file_name(clip_path@, stem_or_empty(clip_path@) + "_thumb.jpg"@),
{
    let mut name = match file_stem(clip_path) {
        Some(s) => s,
        None => String::new(),
    };
    name.append("_thumb.jpg");
    with_file_name(clip_path, name.as_str())
}

/// Where clips go: the configured directory if one is set, otherwise the
/// `Prism` folder in the user's video directory `video_dir`, or the working
/// directory if there is none.
pub fn output_dir_from(configured: &str, video_dir: Option<String>) -> (r: String)
    ensures
        configured@.len() > 0 ==> r@ == configured@,
        configured@.len() == 0 ==> r@ == match video_dir {
            Some(d) => path_join(d@, "Prism"@),
            None => "."@,
        },
{
    if !configured.is_empty() {
        return configured.to_owned();
    }
    match video_dir {
        Some(d) => join(d.as_str(), "Prism"),
        None => String::from_str("."),
    }
}

/// The user's video directory, if the platform has one.
///
/// Trusted: wraps `dirs::video_dir`, converting the path to a string. What
/// it returns depends on the environment and is not stated.
#[verifier::external_body]
fn video_dir() -> Option<String> {
    dirs::video_dir().map(|d| d.to_string_lossy().into_owned())
}

/// Resolves the clip output directory: the configured one, or the default
/// under the user's video directory.
pub fn resolve_output_dir(configured: &str) -> (r: String)
    ensures
        configured@.len() > 0 ==> r@ == configured@,
        configured@.len() == 0 ==> r@ == "."@ || exists|d: Seq<char>| r@ == #[trigger] path_join(d, "Prism"@),
{
    output_dir_from(configured, video_dir())
}

/// The error for a user-edited field longer than `max_len` characters.
pub open spec fn field_too_long_text(name: Seq<char>, max_len: nat) -> Seq<char> {
    name + " must be "@ + decimal(max_len) + " characters or fewer"@
}

/// Trims a user-edited clip field and checks its length in characters.
pub fn validate_metadata_field(name: &str, value: String, max_len: usize) -> (r: Result<String, String>)
    ensures
        trimmed(value@).len() <= max_len ==> (r matches Ok(v) && v@ == trimmed(value@)),
        trimmed(value@).len() > max_len ==> (r matches Err(e) && e@ == field_too_long_text(
            name@,
            max_len as nat,
        )),
{
    let chars = chars_of(value.as_str());
    let t = trim_chars(chars.as_slice());
    if t.len() > max_len {
        let mut msg: Vec<char> = Vec::new();
        push_str(&mut msg, name);
        push_str(&mut msg, " must be ");
        push_decimal(&mut msg, max_len as u64);
        push_str(&mut msg, " characters or fewer");
        assert(msg@ =~= field_too_long_text(name@, max_len as nat));
        return Err(string_from_chars(msg.as_slice()));
    }
    Ok(string_from_chars(t.as_slice()))
}


/// A clip file name of the form `clip_YYYYMMDD_HHMMSS.mp4`, by its UTF-8
/// bytes: 24 bytes, the `clip_` prefix and `.mp4` suffix, and the first
/// `_` of the 15 bytes between them at their ninth byte.
pub open spec fn clip_name_shape(b: Seq<u8>) -> bool {
    &&& b.len() == 24
    &&& b.subrange(0, 5) == seq![0x63u8, 0x6C, 0x69, 0x70, 0x5F]
    &&& b.subrange(20, 24) == seq![0x2Eu8, 0x6D, 0x70, 0x34]
    &&& b[13] == 0x5F
    &&& forall|i: int| 5 <= i < 13 ==> b[i] != 0x5F
}

/// Whether the cuts between year, month and day, and between hours,
/// minutes and seconds, fall on character boundaries of the name.
pub open spec fn clip_name_cuts_on_chars(b: Seq<u8>) -> bool {
    clip_name_shape(b) ==> {
        &&& !vstd::utf8::is_continuation_byte(b[9])
        &&& !vstd::utf8::is_continuation_byte(b[11])
        &&& !vstd::utf8::is_continuation_byte(b[16])
        &&& !vstd::utf8::is_continuation_byte(b[18])
    }
}

/// The timestamp `YYYY-MM-DDTHH:MM:SSZ` spelled by a clip file name, as
/// bytes.
pub open spec fn clip_timestamp_bytes(b: Seq<u8>) -> Seq<u8> {
    b.subrange(5, 9) + seq![0x2Du8] + b.subrange(9, 11) + seq![0x2Du8] + b.subrange(11, 13) + seq![
        0x54u8,
    ] + b.subrange(14, 16) + seq![0x3Au8] + b.subrange(16, 18) + seq![0x3Au8] + b.subrange(18, 20)
        + seq![0x5Au8]
}

proof fn lemma_encode_ascii_char(c: char)
    requires
        (c as u32) < 0x80,
    ensures
        vstd::utf8::encode_utf8(seq![c]) == seq![(c as u32) as u8],
{
    let v = c as u32;
    assert(v & 0x7Fu32 == v) by (bit_vector)
        requires
            v < 0x80u32,
    ;
    reveal_with_fuel(vstd::utf8::encode_utf8, 2);
    assert(seq![c][0] == c);
    assert(seq![c].drop_first() =~= Seq::<char>::empty());
    assert(vstd::utf8::encode_utf8(seq![c]) =~= seq![(c as u32) as u8]);
}

proof fn lemma_encode_utf8_concat(a: Seq<char>, b: Seq<char>)
    ensures
        vstd::utf8::encode_utf8(a + b) == vstd::utf8::encode_utf8(a) + vstd::utf8::encode_utf8(b),
    decreases a.len(),
{
    if a.len() == 0 {
        assert(a + b =~= b);
    } else {
        lemma_encode_utf8_concat(a.drop_first(), b);
        assert((a + b).drop_first() =~= a.drop_first() + b);
        assert((a + b)[0] == a[0]);
    }
}

/// In valid UTF-8, the byte after an ASCII byte starts a character.
proof fn lemma_after_ascii_starts_char(bytes: Seq<u8>, i: int)
    requires
        vstd::utf8::valid_utf8(bytes),
        0 <= i,
        i + 1 < bytes.len(),
        bytes[i] < 0x80,
    ensures
        !vstd::utf8::is_continuation_byte(bytes[i + 1]),
    decreases bytes.len(),
{
    let len1 = vstd::utf8::length_of_first_scalar(bytes);
    let rest = vstd::utf8::pop_first_scalar(bytes);
    assert(1 <= len1 <= 4);
    assert(rest.len() == bytes.len() - len1);
    if i >= len1 {
        assert(rest[i - len1] == bytes[i]);
        assert(rest[i - len1 + 1] == bytes[i + 1]);
        lemma_after_ascii_starts_char(rest, i - len1);
    } else if i == 0 {
        reveal_with_fuel(vstd::utf8::valid_utf8, 2);
        assert(len1 == 1);
        assert(rest[0] == bytes[1]);
        assert(vstd::utf8::valid_first_scalar(rest));
    }
}

/// The part of `s` between byte offsets `from` and `to`, both on
/// character boundaries.
fn byte_slice(s: &str, from: usize, to: usize) -> (r: &str)
    requires
        from <= to <= s.spec_bytes().len(),
        from < s.spec_bytes().len() ==> !vstd::utf8::is_continuation_byte(s.spec_bytes()[from as int]),
        to < s.spec_bytes().len() ==> !vstd::utf8::is_continuation_byte(s.spec_bytes()[to as int]),
    ensures
        r.spec_bytes() == s.spec_bytes().subrange(from as int, to as int),
{
    broadcast use vstd::utf8::encode_utf8_valid_utf8, vstd::utf8::is_char_boundary_start_end_of_seq, vstd::utf8::is_char_boundary_iff_not_is_continuation_byte;

    let ghost bytes = s.spec_bytes();
    assert(vstd::utf8::valid_utf8(bytes));
    assert(vstd::utf8::is_char_boundary(bytes, from as int));
    let (_, tail) = s.split_at(from);
    let ghost tb = tail.spec_bytes();
    assert(tb =~= bytes.subrange(from as int, bytes.len() as int));
    assert(vstd::utf8::valid_utf8(tb)) by {
        vstd::utf8::valid_utf8_split(bytes, from as int);
    }
    proof {
        if (to as int) < bytes.len() {
            assert(tb[to - from] == bytes[to as int]);
            assert(!vstd::utf8::is_continuation_byte(tb[(to - from) as int]));
        } else {
            assert(tb.len() == to - from);
        }
    }
    assert(vstd::utf8::is_char_boundary(tb, (to - from) as int));
    let (mid, _) = tail.split_at(to - from);
    assert(mid.spec_bytes() =~= bytes.subrange(from as int, to as int));
    mid
}

fn has_clip_name_shape(b: &[u8]) -> (r: bool)
    ensures
        r == clip_name_shape(b@),
{
    if b.len() != 24 {
        return false;
    }
    let ghost prefix = seq![0x63u8, 0x6C, 0x69, 0x70, 0x5F];
    let ghost suffix = seq![0x2Eu8, 0x6D, 0x70, 0x34];
    assert(prefix[0] == 0x63 && prefix[1] == 0x6C && prefix[2] == 0x69 && prefix[3] == 0x70 && prefix[4]
        == 0x5F);
    assert(suffix[0] == 0x2E && suffix[1] == 0x6D && suffix[2] == 0x70 && suffix[3] == 0x34);
    let prefix_ok = b[0] == 0x63 && b[1] == 0x6C && b[2] == 0x69 && b[3] == 0x70 && b[4] == 0x5F;
    let suffix_ok = b[20] == 0x2E && b[21] == 0x6D && b[22] == 0x70 && b[23] == 0x34;
    proof {
        if prefix_ok {
            assert(b@.subrange(0, 5) =~= prefix);
        } else {
            assert(b@.subrange(0, 5) != prefix) by {
                if b@.subrange(0, 5) == prefix {
                    assert(b@.subrange(0, 5)[0] == b@[0]);
                    assert(b@.subrange(0, 5)[1] == b@[1]);
                    assert(b@.subrange(0, 5)[2] == b@[2]);
                    assert(b@.subrange(0, 5)[3] == b@[3]);
                    assert(b@.subrange(0, 5)[4] == b@[4]);
                }
            }
        }
        if suffix_ok {
            assert(b@.subrange(20, 24) =~= suffix);
        } else {
            assert(b@.subrange(20, 24) != suffix) by {
                if b@.subrange(20, 24) == suffix {
                    assert(b@.subrange(20, 24)[0] == b@[20]);
                    assert(b@.subrange(20, 24)[1] == b@[21]);
                    assert(b@.subrange(20, 24)[2] == b@[22]);
                    assert(b@.subrange(20, 24)[3] == b@[23]);
                }
            }
        }
    }
    if !prefix_ok || !suffix_ok || b[13] != 0x5F {
        return false;
    }
    let mut i: usize = 5;
    while i < 13
        invariant
            5 <= i <= 13,
            b@.len() == 24,
            forall|k: int| 5 <= k < i ==> b@[k] != 0x5F,
        decreases 13 - i,
    {
        if b[i] == 0x5F {
            return false;
        }
        i += 1;
    }
    true
}

/// Whether the timestamp of a clip file name can be read without cutting a
/// character apart (see `parse_clip_timestamp`).
pub fn clip_name_cuts_ok(filename: &str) -> (r: bool)
    ensures
        r == clip_name_cuts_on_chars(filename.spec_bytes()),
{
    let b = filename.as_bytes();
    if !has_clip_name_shape(b) {
        return true;
    }
    !(0x80 <= b[9] && b[9] <= 0xBF) && !(0x80 <= b[11] && b[11] <= 0xBF) && !(0x80 <= b[16] && b[16]
        <= 0xBF) && !(0x80 <= b[18] && b[18] <= 0xBF)
}

/// Law of clip naming: the file name `clip_<compact timestamp>.mp4` made
/// for any clock reading `secs` (as `new_clip_filename` makes them) has the
/// shape `parse_clip_timestamp` reads, with every cut on a character
/// boundary, so reading its timestamp back succeeds.
pub proof fn lemma_clip_names_parse(secs: u64)
    ensures
        ({
            let b = vstd::utf8::encode_utf8("clip_"@ + compact_timestamp(secs as int) + ".mp4"@);
            &&& clip_name_cuts_on_chars(b)
            &&& clip_name_shape(b)
        }),
{
    reveal_strlit("clip_");
    reveal_strlit(".mp4");
    lemma_compact_timestamp_shape(secs);
    let t = compact_timestamp(secs as int);
    let name = "clip_"@ + t + ".mp4"@;
    assert(name.len() == 24);
    assert forall|i: int| 0 <= i < name.len() implies '\0' <= #[trigger] name[i] <= '\u{7f}' by {
        if 5 <= i < 20 {
            assert(name[i] == t[i - 5]);
            if i != 13 {
                assert(is_digit_char(t[i - 5]));
            }
        }
    }
    assert(vstd::utf8::is_ascii_chars(name));
    vstd::utf8::is_ascii_chars_encode_utf8(name);
    let b = vstd::utf8::encode_utf8(name);
    assert(b.len() == 24);
    assert forall|i: int| 0 <= i < 24 implies #[trigger] b[i] == name[i] as u8 by {
        assert(name[i] as u8 == b[i]);
    }
    assert(b.subrange(0, 5) =~= seq![0x63u8, 0x6C, 0x69, 0x70, 0x5F]);
    assert(b.subrange(20, 24) =~= seq![0x2Eu8, 0x6D, 0x70, 0x34]);
    assert(name[13] == t[8]);
    assert forall|i: int| 5 <= i < 13 implies b[i] != 0x5F && b[i] < 0x80 by {
        assert(name[i] == t[i - 5]);
        assert(is_digit_char(t[i - 5]));
    }
    assert forall|i: int| 14 <= i < 20 implies b[i] < 0x80 by {
        assert(name[i] == t[i - 5]);
        assert(is_digit_char(t[i - 5]));
    }
}

/// Reads the timestamp out of a clip file name `clip_YYYYMMDD_HHMMSS.mp4`
/// as `YYYY-MM-DDTHH:MM:SSZ`; other names give nothing.
pub fn parse_clip_timestamp(filename: &str) -> (r: Option<String>)
    requires
        clip_name_cuts_on_chars(filename.spec_bytes()),
    ensures
        r is Some <==> clip_name_shape(filename.spec_bytes()),
        r matches Some(t) ==> vstd::utf8::encode_utf8(t@) == clip_timestamp_bytes(filename.spec_bytes()),
{
    let b = filename.as_bytes();
    if !has_clip_name_shape(b) {
        return None;
    }
    proof {
        broadcast use vstd::utf8::encode_utf8_valid_utf8;

        lemma_after_ascii_starts_char(b@, 4);
        lemma_after_ascii_starts_char(b@, 13);
    }
    let year = byte_slice(filename, 5, 9);
    let month = byte_slice(filename, 9, 11);
    let day = byte_slice(filename, 11, 13);
    let hour = byte_slice(filename, 14, 16);
    let minute = byte_slice(filename, 16, 18);
    let second = byte_slice(filename, 18, 20);
    let mut out = String::from_str(year);
    out.append("-");
    out.append(month);
    out.append("-");
    out.append(day);
    out.append("T");
    out.append(hour);
    out.append(":");
    out.append(minute);
    out.append(":");
    out.append(second);
    out.append("Z");
    proof {
        reveal_strlit("-");
        reveal_strlit("T");
        reveal_strlit(":");
        reveal_strlit("Z");
        lemma_encode_ascii_char('-');
        lemma_encode_ascii_char('T');
        lemma_encode_ascii_char(':');
        lemma_encode_ascii_char('Z');
        assert("-"@ =~= seq!['-']);
        assert("T"@ =~= seq!['T']);
        assert(":"@ =~= seq![':']);
        assert("Z"@ =~= seq!['Z']);
        lemma_encode_utf8_concat(year@, "-"@);
        lemma_encode_utf8_concat(year@ + "-"@, month@);
        lemma_encode_utf8_concat(year@ + "-"@ + month@, "-"@);
        lemma_encode_utf8_concat(year@ + "-"@ + month@ + "-"@, day@);
        lemma_encode_utf8_concat(year@ + "-"@ + month@ + "-"@ + day@, "T"@);
        lemma_encode_utf8_concat(year@ + "-"@ + month@ + "-"@ + day@ + "T"@, hour@);
        lemma_encode_utf8_concat(year@ + "-"@ + month@ + "-"@ + day@ + "T"@ + hour@, ":"@);
        lemma_encode_utf8_concat(year@ + "-"@ + month@ + "-"@ + day@ + "T"@ + hour@ + ":"@, minute@);
        lemma_encode_utf8_concat(
            year@ + "-"@ + month@ + "-"@ + day@ + "T"@ + hour@ + ":"@ + minute@,
            ":"@,
        );
        lemma_encode_utf8_concat(
            year@ + "-"@ + month@ + "-"@ + day@ + "T"@ + hour@ + ":"@ + minute@ + ":"@,
            second@,
        );
        lemma_encode_utf8_concat(
            year@ + "-"@ + month@ + "-"@ + day@ + "T"@ + hour@ + ":"@ + minute@ + ":"@ + second@,
            "Z"@,
        );
        assert(vstd::utf8::encode_utf8(out@) =~= clip_timestamp_bytes(filename.spec_bytes()));
    }
    Some(out)
}

/// When a clip was made: the timestamp in its file name, else its
/// modification time (`modified_secs` after the epoch), else nothing.
pub fn clip_created_at(filename: &str, modified_secs: Option<u64>) -> (r: String)
    requires
        clip_name_cuts_on_chars(filename.spec_bytes()),
    ensures
        clip_name_shape(filename.spec_bytes()) ==> vstd::utf8::encode_utf8(r@) == clip_timestamp_bytes(
            filename.spec_bytes(),
        ),
        !clip_name_shape(filename.spec_bytes()) ==> r@ == match modified_secs {
            Some(secs) => iso_timestamp(secs as int),
            None => Seq::<char>::empty(),
        },
{
    match parse_clip_timestamp(filename) {
        Some(t) => t,
        None => match modified_secs {
            Some(secs) => format_unix_timestamp(secs),
            None => String::new(),
        },
    }
}

/// The new file name of a clip renamed to `new_name`: the trimmed name with
/// `.mp4` appended. An empty name, or one holding a path separator, is
/// refused.
pub fn renamed_clip_filename(new_name: &str) -> (r: Result<String, String>)
    ensures
        trimmed(new_name@).len() == 0 ==> (r matches Err(e) && e@ == "Name cannot be empty"@),
        trimmed(new_name@).len() > 0 && (new_name@.contains('/') || new_name@.contains('\\')) ==> (r matches Err(
            e,
        ) && e@ == "Name cannot contain path separators"@),
        trimmed(new_name@).len() > 0 && !new_name@.contains('/') && !new_name@.contains('\\') ==> (r matches Ok(
            f,
        ) && f@ == trimmed(new_name@) + ".mp4"@),
{
    let chars = chars_of(new_name);
    let t = trim_chars(chars.as_slice());
    if t.len() == 0 {
        return Err(String::from_str("Name cannot be empty"));
    }
    let mut i: usize = 0;
    while i < chars.len()
        invariant
            i <= chars@.len(),
            chars@ == new_name@,
            t@ == trimmed(new_name@),
            t@.len() > 0,
            forall|k: int| 0 <= k < i ==> chars@[k] != '/' && chars@[k] != '\\',
        decreases chars@.len() - i,
    {
        if chars[i] == '/' || chars[i] == '\\' {
            assert(new_name@.contains(chars@[i as int]));
            return Err(String::from_str("Name cannot contain path separators"));
        }
        i += 1;
    }
    let mut out = t;
    push_str(&mut out, ".mp4");
    proof {
        reveal_strlit(".mp4");
    }
    Ok(string_from_chars(out.as_slice()))
}

/// Lexicographic order of character sequences by code point (the order of
/// `str` comparison): whether `a` sorts strictly before `b`.
pub open spec fn chars_less(a: Seq<char>, b: Seq<char>) -> bool
    decreases a.len(),
{
    if b.len() == 0 {
        false
    } else if a.len() == 0 {
        true
    } else if a[0] != b[0] {
        a[0] < b[0]
    } else {
        chars_less(a.drop_first(), b.drop_first())
    }
}

/// Inserts `x` into `t` (newest first) after every entry created no earlier.
pub open spec fn insert_newest_first(t: Seq<ClipInfo>, x: ClipInfo) -> Seq<ClipInfo>
    decreases t.len(),
{
    if t.len() == 0 {
        seq![x]
    } else if !chars_less(t[0].created_at@, x.created_at@) {
        seq![t[0]] + insert_newest_first(t.drop_first(), x)
    } else {
        seq![x] + t
    }
}

/// `s` ordered newest first by creation time; entries created at the same
/// time keep their order.
pub open spec fn newest_first(s: Seq<ClipInfo>) -> Seq<ClipInfo>
    decreases s.len(),
{
    if s.len() == 0 {
        s
    } else {
        insert_newest_first(newest_first(s.drop_last()), s.last())
    }
}

/// No entry is created later than one before it.
pub open spec fn is_newest_first(s: Seq<ClipInfo>) -> bool {
    forall|i: int, j: int| 0 <= i < j < s.len() ==> !chars_less(#[trigger] s[i].created_at@, #[trigger] s[j].created_at@)
}

/// Equal prefixes do not decide the order.
proof fn lemma_chars_less_skip(a: Seq<char>, b: Seq<char>, i: int)
    requires
        0 <= i <= a.len(),
        i <= b.len(),
        a.subrange(0, i) == b.subrange(0, i),
    ensures
        chars_less(a, b) == chars_less(a.subrange(i, a.len() as int), b.subrange(i, b.len() as int)),
    decreases i,
{
    if i > 0 {
        assert(a[0] == a.subrange(0, i)[0]);
        assert(b[0] == b.subrange(0, i)[0]);
        assert(a.drop_first().subrange(0, i - 1) =~= a.subrange(1, i));
        assert(b.drop_first().subrange(0, i - 1) =~= b.subrange(1, i));
        assert(a.subrange(1, i) =~= a.subrange(0, i).drop_first());
        assert(b.subrange(1, i) =~= b.subrange(0, i).drop_first());
        lemma_chars_less_skip(a.drop_first(), b.drop_first(), i - 1);
        assert(a.drop_first().subrange(i - 1, a.len() - 1) =~= a.subrange(i, a.len() as int));
        assert(b.drop_first().subrange(i - 1, b.len() - 1) =~= b.subrange(i, b.len() as int));
    } else {
        assert(a.subrange(0, a.len() as int) =~= a);
        assert(b.subrange(0, b.len() as int) =~= b);
    }
}

/// The order is asymmetric.
pub proof fn lemma_chars_less_asymmetric(a: Seq<char>, b: Seq<char>)
    ensures
        chars_less(a, b) ==> !chars_less(b, a),
    decreases a.len(),
{
    if a.len() > 0 && b.len() > 0 && a[0] == b[0] {
        lemma_chars_less_asymmetric(a.drop_first(), b.drop_first());
    }
}

/// The order is transitive through a non-strict step: `b ≤ a < c` gives
/// `b < c`.
pub proof fn lemma_chars_less_left(a: Seq<char>, b: Seq<char>, c: Seq<char>)
    requires
        !chars_less(a, b),
        chars_less(a, c),
    ensures
        chars_less(b, c),
    decreases a.len(),
{
    if b.len() > 0 && a.len() > 0 && c.len() > 0 && a[0] == b[0] && a[0] == c[0] {
        lemma_chars_less_left(a.drop_first(), b.drop_first(), c.drop_first());
    }
}

/// Whether the string `a` sorts strictly before the string `b`.
pub fn str_less(a: &str, b: &str) -> (r: bool)
    ensures
        r == chars_less(a@, b@),
{
    let x = chars_of(a);
    let y = chars_of(b);
    let mut i: usize = 0;
    while i < x.len() && i < y.len() && x[i] == y[i]
        invariant
            i <= x@.len(),
            i <= y@.len(),
            x@ == a@,
            y@ == b@,
            x@.subrange(0, i as int) == y@.subrange(0, i as int),
        decreases x@.len() - i,
    {
        assert(x@.subrange(0, i as int + 1) =~= x@.subrange(0, i as int).push(x@[i as int]));
        assert(y@.subrange(0, i as int + 1) =~= y@.subrange(0, i as int).push(y@[i as int]));
        i += 1;
    }
    proof {
        lemma_chars_less_skip(x@, y@, i as int);
    }
    if i == y.len() {
        false
    } else if i == x.len() {
        true
    } else {
        proof {
            let xs = x@.subrange(i as int, x@.len() as int);
            assert(xs[0] == x@[i as int]);
        }
        x[i] < y[i]
    }
}

/// Inserting at the first entry created strictly earlier.
proof fn lemma_insert_at(t: Seq<ClipInfo>, x: ClipInfo, k: int)
    requires
        0 <= k <= t.len(),
        forall|j: int| 0 <= j < k ==> !chars_less(#[trigger] t[j].created_at@, x.created_at@),
        k == t.len() || chars_less(t[k].created_at@, x.created_at@),
    ensures
        insert_newest_first(t, x) == t.insert(k, x),
    decreases k,
{
    if k == 0 {
        if t.len() == 0 {
            assert(t.insert(0, x) =~= seq![x]);
        } else {
            assert(t.insert(0, x) =~= seq![x] + t);
        }
    } else {
        let r = t.drop_first();
        assert forall|j: int| 0 <= j < k - 1 implies !chars_less(#[trigger] r[j].created_at@, x.created_at@) by {
            assert(r[j] == t[j + 1]);
        }
        lemma_insert_at(r, x, k - 1);
        assert(t.insert(k, x) =~= seq![t[0]] + r.insert(k - 1, x));
    }
}

/// Insertion keeps every entry and adds `x`.
proof fn lemma_insert_multiset(t: Seq<ClipInfo>, x: ClipInfo)
    ensures
        insert_newest_first(t, x).to_multiset() == t.to_multiset().insert(x),
    decreases t.len(),
{
    broadcast use vstd::seq_lib::group_to_multiset_ensures;

    if t.len() == 0 {
        assert(seq![x] =~= Seq::<ClipInfo>::empty().push(x));
        assert(t =~= Seq::<ClipInfo>::empty());
    } else if !chars_less(t[0].created_at@, x.created_at@) {
        lemma_insert_multiset(t.drop_first(), x);
        let r = insert_newest_first(t.drop_first(), x);
        assert((seq![t[0]] + r) =~= r.insert(0, t[0]));
        assert(t.drop_first().insert(0, t[0]) =~= t);
    } else {
        assert((seq![x] + t) =~= t.insert(0, x));
    }
}

/// Insertion only adds `x`.
proof fn lemma_insert_members(t: Seq<ClipInfo>, x: ClipInfo, e: ClipInfo)
    requires
        insert_newest_first(t, x).contains(e),
    ensures
        e == x || t.contains(e),
    decreases t.len(),
{
    if t.len() > 0 && !chars_less(t[0].created_at@, x.created_at@) {
        let r = insert_newest_first(t.drop_first(), x);
        let i = choose|i: int| 0 <= i < (seq![t[0]] + r).len() && (seq![t[0]] + r)[i] == e;
        if i == 0 {
            assert(t[0] == e);
        } else {
            assert(r[i - 1] == e);
            lemma_insert_members(t.drop_first(), x, e);
            if t.drop_first().contains(e) {
                let j = choose|j: int| 0 <= j < t.drop_first().len() && t.drop_first()[j] == e;
                assert(t[j + 1] == e);
            }
        }
    } else if t.len() > 0 {
        let i = choose|i: int| 0 <= i < (seq![x] + t).len() && (seq![x] + t)[i] == e;
        if i > 0 {
            assert(t[i - 1] == e);
        }
    }
}

/// Insertion keeps a newest-first sequence newest first.
proof fn lemma_insert_sorted(t: Seq<ClipInfo>, x: ClipInfo)
    requires
        is_newest_first(t),
    ensures
        is_newest_first(insert_newest_first(t, x)),
    decreases t.len(),
{
    if t.len() == 0 {
    } else if !chars_less(t[0].created_at@, x.created_at@) {
        let t1 = t.drop_first();
        assert forall|i: int, j: int| 0 <= i < j < t1.len() implies !chars_less(
            #[trigger] t1[i].created_at@,
            #[trigger] t1[j].created_at@,
        ) by {
            assert(t1[i] == t[i + 1] && t1[j] == t[j + 1]);
        }
        lemma_insert_sorted(t1, x);
        let r = insert_newest_first(t1, x);
        let res = seq![t[0]] + r;
        assert forall|i: int, j: int| 0 <= i < j < res.len() implies !chars_less(
            #[trigger] res[i].created_at@,
            #[trigger] res[j].created_at@,
        ) by {
            if i == 0 {
                let e = r[j - 1];
                assert(r.contains(e));
                lemma_insert_members(t1, x, e);
                if e != x {
                    let m = choose|m: int| 0 <= m < t1.len() && t1[m] == e;
                    assert(t[m + 1] == e);
                }
            } else {
                assert(res[i] == r[i - 1] && res[j] == r[j - 1]);
            }
        }
    } else {
        let res = seq![x] + t;
        assert forall|i: int, j: int| 0 <= i < j < res.len() implies !chars_less(
            #[trigger] res[i].created_at@,
            #[trigger] res[j].created_at@,
        ) by {
            if i == 0 {
                assert(res[j] == t[j - 1]);
                if j - 1 > 0 {
                    assert(!chars_less(t[0].created_at@, t[j - 1].created_at@));
                    lemma_chars_less_left(t[0].created_at@, t[j - 1].created_at@, x.created_at@);
                }
                lemma_chars_less_asymmetric(t[j - 1].created_at@, x.created_at@);
            } else {
                assert(res[i] == t[i - 1] && res[j] == t[j - 1]);
            }
        }
    }
}

/// Law of the clip listing order: ordering newest first keeps exactly the
/// same entries and leaves no entry created later than one before it.
pub proof fn lemma_newest_first_sorts(s: Seq<ClipInfo>)
    ensures
        newest_first(s).to_multiset() == s.to_multiset(),
        is_newest_first(newest_first(s)),
    decreases s.len(),
{
    broadcast use vstd::seq_lib::group_to_multiset_ensures;

    if s.len() > 0 {
        lemma_newest_first_sorts(s.drop_last());
        lemma_insert_multiset(newest_first(s.drop_last()), s.last());
        lemma_insert_sorted(newest_first(s.drop_last()), s.last());
        assert(s.drop_last().push(s.last()) =~= s);
    }
}

/// Orders clip entries newest first by creation time (entries created at
/// the same time keep their order), as the library lists them.
pub fn sort_clips_newest_first(entries: Vec<ClipInfo>) -> (r: Vec<ClipInfo>)
    ensures
        r@ == newest_first(entries@),
{
    let mut rest = entries;
    let ghost all = rest@;
    let n = rest.len();
    let mut out: Vec<ClipInfo> = Vec::new();
    let mut i: usize = 0;
    while i < n
        invariant
            i <= n,
            n == all.len(),
            rest@ == all.subrange(i as int, n as int),
            out@ == newest_first(all.take(i as int)),
        decreases n - i,
    {
        let e = rest.remove(0);
        assert(e == all[i as int]);
        let mut k: usize = 0;
        while k < out.len() && !str_less(out[k].created_at.as_str(), e.created_at.as_str())
            invariant
                k <= out@.len(),
                forall|j: int| 0 <= j < k ==> !chars_less(#[trigger] out@[j].created_at@, e.created_at@),
            decreases out@.len() - k,
        {
            k += 1;
        }
        proof {
            lemma_insert_at(out@, e, k as int);
            assert(all.take(i as int + 1).drop_last() =~= all.take(i as int));
            assert(all.take(i as int + 1).last() == e);
        }
        out.insert(k, e);
        i += 1;
    }
    assert(all.take(n as int) =~= all);
    out
}

} // verus!
