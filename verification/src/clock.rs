//! Wall-clock readings and the approximate calendar used in clip file names
//! and clip listings (years of 365.25 days, months of 28 days).
use vstd::prelude::*;

use crate::commands::library::{clip_name_cuts_on_chars, clip_name_shape, lemma_clip_names_parse};
use crate::text::{decimal, digit_char, push_zero_padded, string_from_chars, zero_padded};

verus! {

/// Seconds since the Unix epoch (0 if the clock reads earlier).
///
/// Trusted: wraps `std::time::SystemTime::now`, converting the reading to
/// whole seconds since `UNIX_EPOCH`. Nothing is promised of the value: it is
/// the time of the call.
#[verifier::external_body]
pub(crate) fn unix_now_secs() -> u64 {
    std::time::SystemTime::now().duration_since(std::time::UNIX_EPOCH).map(|d| d.as_secs()).unwrap_or(0)
}

/// Whole years since 1970 in `days` days: `floor(days / 365.25)`.
pub open spec fn years_since_epoch(days: int) -> int {
    4 * days / 1461
}

/// Days left after the whole years: `days - (365 y + (y + 1) / 4)`.
pub open spec fn days_into_year(days: int) -> int {
    let y = years_since_epoch(days);
    days - (365 * y + (y + 1) / 4)
}

/// The approximate calendar reading of `secs` seconds after the epoch:
/// year (at most 9999), month (1 + days/28, at most 12), day (1 + days%28,
/// at most 31), hours, minutes, seconds.
pub open spec fn approx_datetime(secs: int) -> (int, int, int, int, int, int) {
    let days = secs / 86400;
    let rem = secs % 86400;
    let r = days_into_year(days);
    let year = 1970 + years_since_epoch(days);
    let month = 1 + r / 28;
    let day = 1 + r % 28;
    (
        if year < 9999 { year } else { 9999 },
        if month < 12 { month } else { 12 },
        if day < 31 { day } else { 31 },
        rem / 3600,
        rem % 3600 / 60,
        rem % 60,
    )
}

/// `YYYY-MM-DDTHH:MM:SSZ` for `secs` seconds after the epoch.
pub open spec fn iso_timestamp(secs: int) -> Seq<char> {
    let (y, mo, d, h, mi, s) = approx_datetime(secs);
    zero_padded(y as nat, 4) + seq!['-'] + zero_padded(mo as nat, 2) + seq!['-'] + zero_padded(d as nat, 2)
        + seq!['T'] + zero_padded(h as nat, 2) + seq![':'] + zero_padded(mi as nat, 2) + seq![':']
        + zero_padded(s as nat, 2) + seq!['Z']
}

/// `YYYYMMDD_HHMMSS` for `secs` seconds after the epoch.
pub open spec fn compact_timestamp(secs: int) -> Seq<char> {
    let (y, mo, d, h, mi, s) = approx_datetime(secs);
    zero_padded(y as nat, 4) + zero_padded(mo as nat, 2) + zero_padded(d as nat, 2) + seq!['_']
        + zero_padded(h as nat, 2) + zero_padded(mi as nat, 2) + zero_padded(s as nat, 2)
}

proof fn lemma_days_into_year_nonneg(days: int)
    requires
        days >= 0,
    ensures
        0 <= days_into_year(days),
        0 <= years_since_epoch(days) <= days,
{
    let y = 4 * days / 1461;
    assert(1461 * y <= 4 * days);
    assert(0 <= y <= days);
    assert(365 * y + (y + 1) / 4 <= days);
}

/// The calendar fields of `secs` seconds after the epoch.
fn datetime_fields(secs: u64) -> (r: (u64, u64, u64, u64, u64, u64))
    ensures
        (r.0 as int, r.1 as int, r.2 as int, r.3 as int, r.4 as int, r.5 as int) == approx_datetime(
            secs as int,
        ),
{
    let days = secs / 86400;
    let rem = secs % 86400;
    proof {
        lemma_days_into_year_nonneg(days as int);
    }
    let y = days * 4 / 1461;
    let remaining = days - (y * 365 + (y + 1) / 4);
    let year = 1970 + y;
    let month = 1 + remaining / 28;
    let day = 1 + remaining % 28;
    (
        if year < 9999 { year } else { 9999 },
        if month < 12 { month } else { 12 },
        if day < 31 { day } else { 31 },
        rem / 3600,
        rem % 3600 / 60,
        rem % 60,
    )
}

/// Formats `secs` seconds after the epoch as `YYYY-MM-DDTHH:MM:SSZ`
/// (approximate calendar).
pub fn format_unix_timestamp(secs: u64) -> (r: String)
    ensures
        r@ == iso_timestamp(secs as int),
{
    let (y, mo, d, h, mi, s) = datetime_fields(secs);
    let mut out: Vec<char> = Vec::new();
    push_zero_padded(&mut out, y, 4);
    out.push('-');
    push_zero_padded(&mut out, mo, 2);
    out.push('-');
    push_zero_padded(&mut out, d, 2);
    out.push('T');
    push_zero_padded(&mut out, h, 2);
    out.push(':');
    push_zero_padded(&mut out, mi, 2);
    out.push(':');
    push_zero_padded(&mut out, s, 2);
    out.push('Z');
    assert(out@ =~= iso_timestamp(secs as int));
    string_from_chars(out.as_slice())
}

/// Formats `secs` seconds after the epoch as `YYYYMMDD_HHMMSS`
/// (approximate calendar): 15 characters, digits around an underscore, the
/// last six the hours, minutes and seconds of the day of `secs`.
pub fn format_compact_timestamp(secs: u64) -> (r: String)
    ensures
        r@ == compact_timestamp(secs as int),
        r@.len() == 15,
        r@[8] == '_',
        forall|i: int| 0 <= i < 15 && i != 8 ==> is_digit_char(#[trigger] r@[i]),
        r@.subrange(9, 15) == hms_digits(secs),
{
    proof {
        lemma_compact_timestamp_shape(secs);
    }
    let (y, mo, d, h, mi, s) = datetime_fields(secs);
    let mut out: Vec<char> = Vec::new();
    push_zero_padded(&mut out, y, 4);
    push_zero_padded(&mut out, mo, 2);
    push_zero_padded(&mut out, d, 2);
    out.push('_');
    push_zero_padded(&mut out, h, 2);
    push_zero_padded(&mut out, mi, 2);
    push_zero_padded(&mut out, s, 2);
    assert(out@ =~= compact_timestamp(secs as int));
    string_from_chars(out.as_slice())
}

/// The current time as `YYYYMMDD_HHMMSS`, for file names and task ids:
/// the compact timestamp of the clock reading, whose clip file name
/// `clip_<timestamp>.mp4` is one `parse_clip_timestamp` reads back.
pub fn chrono_now_formatted() -> (r: String)
    ensures
        exists|secs: u64| r@ == #[trigger] compact_timestamp(secs as int) && r@.subrange(9, 15) == hms_digits(secs),
        r@.len() == 15,
        r@[8] == '_',
        forall|i: int| 0 <= i < 15 && i != 8 ==> is_digit_char(#[trigger] r@[i]),
        clip_name_shape(vstd::utf8::encode_utf8("clip_"@ + r@ + ".mp4"@)),
        clip_name_cuts_on_chars(vstd::utf8::encode_utf8("clip_"@ + r@ + ".mp4"@)),
{
    let now = unix_now_secs();
    proof {
        lemma_clip_names_parse(now);
    }
    format_compact_timestamp(now)
}

/// The hours, minutes and seconds of the day of `secs`, two digits each.
pub open spec fn hms_digits(secs: u64) -> Seq<char> {
    zero_padded((secs % 86400 / 3600) as nat, 2) + zero_padded((secs % 3600 / 60) as nat, 2) + zero_padded(
        (secs % 60) as nat,
        2,
    )
}

/// Whether a character is an ASCII decimal digit.
pub open spec fn is_digit_char(c: char) -> bool {
    '0' <= c <= '9'
}

/// The decimal form of `n` is made of digits, one for each power of ten
/// up to `n`.
proof fn lemma_decimal_digits(n: nat)
    ensures
        forall|i: int| 0 <= i < decimal(n).len() ==> is_digit_char(#[trigger] decimal(n)[i]),
        1 <= decimal(n).len(),
        n < 10 ==> decimal(n).len() == 1,
        n < 100 ==> decimal(n).len() <= 2,
        n < 1000 ==> decimal(n).len() <= 3,
        n < 10000 ==> decimal(n).len() <= 4,
    decreases n,
{
    if n >= 10 {
        lemma_decimal_digits(n / 10);
        let d = decimal(n / 10);
        assert(decimal(n) == d.push(digit_char(n % 10)));
        assert forall|i: int| 0 <= i < decimal(n).len() implies is_digit_char(#[trigger] decimal(n)[i]) by {
            if i < d.len() {
                assert(decimal(n)[i] == d[i]);
            }
        }
    }
}

/// `zero_padded(n, w)` is `w` digits when `n` has at most `w`.
proof fn lemma_zero_padded_digits(n: nat, w: nat)
    requires
        decimal(n).len() <= w,
    ensures
        zero_padded(n, w).len() == w,
        forall|i: int| 0 <= i < w ==> is_digit_char(#[trigger] zero_padded(n, w)[i]),
{
    lemma_decimal_digits(n);
    let d = decimal(n);
    if d.len() < w {
        let pad = Seq::new((w - d.len()) as nat, |i: int| '0');
        assert forall|i: int| 0 <= i < w implies is_digit_char(#[trigger] zero_padded(n, w)[i]) by {
            if i < pad.len() {
                assert(zero_padded(n, w)[i] == '0');
            } else {
                assert(zero_padded(n, w)[i] == d[i - pad.len()]);
            }
        }
    }
}

/// A compact timestamp is 15 characters `YYYYMMDD_HHMMSS`: digits around
/// an underscore, the last six the hours, minutes and seconds of the day
/// of `secs`.
pub proof fn lemma_compact_timestamp_shape(secs: u64)
    ensures
        ({
            let t = compact_timestamp(secs as int);
            &&& t.len() == 15
            &&& t[8] == '_'
            &&& forall|i: int| 0 <= i < 15 && i != 8 ==> is_digit_char(#[trigger] t[i])
            &&& t.subrange(9, 15) == hms_digits(secs)
        }),
{
    let days = secs as int / 86400;
    lemma_days_into_year_nonneg(days);
    let (y, mo, d, h, mi, sec) = approx_datetime(secs as int);
    assert(1970 <= y <= 9999);
    assert(1 <= mo <= 12);
    assert(1 <= d <= 31);
    assert(0 <= h < 24 && 0 <= mi < 60 && 0 <= sec < 60);
    vstd::arithmetic::div_mod::lemma_mod_mod(secs as int, 3600, 24);
    vstd::arithmetic::div_mod::lemma_mod_mod(secs as int, 60, 1440);
    assert(mi == secs % 3600 / 60);
    assert(sec == secs % 60);
    lemma_decimal_digits(y as nat);
    lemma_decimal_digits(mo as nat);
    lemma_decimal_digits(d as nat);
    lemma_decimal_digits(h as nat);
    lemma_decimal_digits(mi as nat);
    lemma_decimal_digits(sec as nat);
    lemma_zero_padded_digits(y as nat, 4);
    lemma_zero_padded_digits(mo as nat, 2);
    lemma_zero_padded_digits(d as nat, 2);
    lemma_zero_padded_digits(h as nat, 2);
    lemma_zero_padded_digits(mi as nat, 2);
    lemma_zero_padded_digits(sec as nat, 2);
    let a = zero_padded(y as nat, 4);
    let b = zero_padded(mo as nat, 2);
    let c = zero_padded(d as nat, 2);
    let e = zero_padded(h as nat, 2);
    let f = zero_padded(mi as nat, 2);
    let g = zero_padded(sec as nat, 2);
    let t = compact_timestamp(secs as int);
    assert(t == a + b + c + seq!['_'] + e + f + g);
    assert(t.subrange(9, 15) =~= e + f + g);
    assert forall|i: int| 0 <= i < 15 && i != 8 implies is_digit_char(#[trigger] t[i]) by {
        if i < 4 {
            assert(t[i] == a[i]);
        } else if i < 6 {
            assert(t[i] == b[i - 4]);
        } else if i < 8 {
            assert(t[i] == c[i - 6]);
        } else if i < 11 {
            assert(t[i] == e[i - 9]);
        } else if i < 13 {
            assert(t[i] == f[i - 11]);
        } else {
            assert(t[i] == g[i - 13]);
        }
    }
}

} // verus!
