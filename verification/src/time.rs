//! UTC ISO 8601 timestamps as `gh` emits them, and their rendering as
//! "3 hours ago"-style relative times.
use vstd::prelude::*;
use crate::num::{bounded_digits, decimal, decimal_chars, parse_digits, parse_unsigned, parse_unsigned_spec};
use crate::text::{chars_of, push_chars, push_str_chars, string_from_chars};

verus! {

/// What `str::parse::<i64>` yields for `s`.
pub open spec fn parse_i64_spec(s: Seq<char>) -> Option<int> {
    if s.len() > 0 && s[0] == '-' {
        match bounded_digits(s.skip(1), 0x8000_0000_0000_0000) {
            Some(v) => Some(-v),
            None => None,
        }
    } else {
        match parse_unsigned_spec(s, 0x7fff_ffff_ffff_ffff) {
            Some(v) => Some(v as int),
            None => None,
        }
    }
}

/// `str::parse::<i64>`.
pub fn parse_i64(cs: &[char]) -> (r: Option<i64>)
    ensures
        match r {
            Some(v) => parse_i64_spec(cs@) == Some(v as int),
            None => parse_i64_spec(cs@) is None,
        },
{
    if cs.len() > 0 && cs[0] == '-' {
        assert(cs@.subrange(1, cs@.len() as int) =~= cs@.skip(1));
        match parse_digits(&cs[1..cs.len()], 0x8000_0000_0000_0000) {
            Some(v) => {
                if v == 0x8000_0000_0000_0000 {
                    Some(i64::MIN)
                } else {
                    Some(-(v as i64))
                }
            },
            None => None,
        }
    } else {
        match parse_unsigned(cs, 0x7fff_ffff_ffff_ffff) {
            Some(v) => Some(v as i64),
            None => None,
        }
    }
}

/// Days from 1970-01-01 to the proleptic Gregorian date `y-m-d`
/// (Howard Hinnant's `days_from_civil`).
pub open spec fn civil_days(y: int, m: int, d: int) -> int {
    let y1 = if m <= 2 { y - 1 } else { y };
    let era = y1 / 400;
    let yoe = y1 - era * 400;
    let mp = if m > 2 { m - 3 } else { m + 9 };
    let doy = (153 * mp + 2) / 5 + d - 1;
    let doe = yoe * 365 + yoe / 4 - yoe / 100 + doy;
    era * 146_097 + doe - 719_468
}

/// The year the computation counts from: March-based, so January and
/// February belong to the year before.
pub open spec fn shifted_year(y: int, m: int) -> int {
    if m <= 2 { y - 1 } else { y }
}

/// The month counted from March (0) to February (11).
pub open spec fn month_index(m: int) -> int {
    if m > 2 { m - 3 } else { m + 9 }
}

/// The day within the 400-year era, before it is counted as days.
pub open spec fn day_of_era(y: int, m: int, d: int) -> int {
    let y1 = shifted_year(y, m);
    let yoe = y1 - (y1 / 400) * 400;
    yoe * 365 + yoe / 4 - yoe / 100 + (153 * month_index(m) + 2) / 5 + d - 1
}

/// Proleptic Gregorian `y-m-d` to days since 1970-01-01. The inputs are
/// those on which no step of the computation overflows its integer type.
pub fn days_from_civil(y: i64, m: u32, d: u32) -> (r: i64)
    requires
        m <= 2 ==> y > i64::MIN,
        153 * month_index(m as int) + 2 <= u32::MAX,
        1 <= (153 * month_index(m as int) + 2) / 5 + d <= u32::MAX,
        day_of_era(y as int, m as int, d as int) <= u32::MAX,
        i64::MIN <= (shifted_year(y as int, m as int) / 400) * 146_097 <= i64::MAX,
        i64::MIN <= (shifted_year(y as int, m as int) / 400) * 146_097 + day_of_era(y as int, m as int, d as int)
            <= i64::MAX,
        i64::MIN <= civil_days(y as int, m as int, d as int) <= i64::MAX,
    ensures
        r == civil_days(y as int, m as int, d as int),
{
    let y = if m <= 2 { y - 1 } else { y };
    let era: i64 = if y >= 0 { y / 400 } else { -((399 - y) / 400) };
    proof {
        lemma_floor_div_400(y as int, era as int);
    }
    let yoe = (y - era * 400) as u32;
    let mp: u32 = if m > 2 { m - 3 } else { m + 9 };
    let doy = (153 * mp + 2) / 5 + d - 1;
    let doe = yoe * 365 + yoe / 4 - yoe / 100 + doy;
    era * 146_097 + doe as i64 - 719_468
}

proof fn lemma_floor_div_400(y: int, era: int)
    requires
        era == if y >= 0 { y / 400 } else { -((399 - y) / 400) },
    ensures
        era == y / 400,
        0 <= y - era * 400 < 400,
{
    if y < 0 {
        let q = (399 - y) / 400;
        let r = (399 - y) % 400;
        assert(399 - y == q * 400 + r && 0 <= r < 400) by (nonlinear_arith)
            requires
                q == (399 - y) / 400,
                r == (399 - y) % 400,
                399 - y > 0,
        ;
        assert(y - era * 400 == 399 - r);
        assert(y == era * 400 + (399 - r));
        vstd::arithmetic::div_mod::lemma_fundamental_div_mod_converse(y, 400, era, 399 - r);
    } else {
        assert(0 <= y - era * 400 < 400) by (nonlinear_arith)
            requires
                era == y / 400,
                y >= 0,
        ;
    }
}

/// What may follow the seconds of a UTC timestamp: `Z`, or a fraction
/// of a second (`.` and one or more digits) and then `Z`. No offset.
pub open spec fn utc_tail(t: Seq<char>) -> bool {
    t == seq!['Z'] || (t.len() >= 3 && t[0] == '.' && t.last() == 'Z' && crate::num::all_digits(
        t.subrange(1, t.len() - 1),
    ))
}

/// Seconds since the Unix epoch of `YYYY-MM-DDTHH:MM:SSZ` text (with an
/// optional fraction of a second before the `Z`): the separators at
/// their places, each field parsing as `str::parse` parses it, month in
/// `1..=12` and day in `1..=31`, and nothing but [`utc_tail`] after the
/// seconds.
pub open spec fn iso_seconds(s: Seq<char>) -> Option<int> {
    if s.len() < 20 || s[4] != '-' || s[7] != '-' || s[10] != 'T' || s[13] != ':' || s[16] != ':' || !utc_tail(
        s.skip(19),
    ) {
        None
    } else {
        let u = 0xffff_ffffnat;
        match (
            parse_i64_spec(s.subrange(0, 4)),
            parse_unsigned_spec(s.subrange(5, 7), u),
            parse_unsigned_spec(s.subrange(8, 10), u),
            parse_unsigned_spec(s.subrange(11, 13), u),
            parse_unsigned_spec(s.subrange(14, 16), u),
            parse_unsigned_spec(s.subrange(17, 19), u),
        ) {
            (Some(y), Some(mo), Some(d), Some(h), Some(mi), Some(se)) => {
                if 1 <= mo <= 12 && 1 <= d <= 31 {
                    Some(civil_days(y, mo as int, d as int) * 86_400 + h * 3600 + mi * 60 + se)
                } else {
                    None
                }
            },
            _ => None,
        }
    }
}

proof fn lemma_parse_small(s: Seq<char>, max: nat)
    requires
        s.len() <= 4,
        parse_unsigned_spec(s, max) is Some,
    ensures
        parse_unsigned_spec(s, max)->0 < 10000,
{
    let t = if s.len() > 0 && s[0] == '+' { s.skip(1) } else { s };
    lemma_digits_small(t);
    lemma_pow10_small(t.len());
}

proof fn lemma_pow10_small(n: nat)
    requires
        n <= 4,
    ensures
        crate::num::pow10(n) <= 10000,
{
    reveal_with_fuel(crate::num::pow10, 5);
}

proof fn lemma_digits_small(t: Seq<char>)
    requires
        t.len() <= 4,
        crate::num::all_digits(t),
    ensures
        crate::num::digits_value(t) < crate::num::pow10(t.len()),
    decreases t.len(),
{
    if t.len() > 0 {
        assert forall|i: int| 0 <= i < t.drop_last().len() implies crate::num::is_digit(#[trigger] t.drop_last()[i]) by {
            assert(t.drop_last()[i] == t[i]);
        }
        lemma_digits_small(t.drop_last());
        assert(crate::num::is_digit(t.last()));
        assert(crate::num::pow10(t.len()) == crate::num::pow10((t.len() - 1) as nat) * 10);
    }
}

/// Whether the text after the seconds is a [`utc_tail`].
fn is_utc_tail(t: &[char]) -> (r: bool)
    ensures
        r == utc_tail(t@),
{
    let n = t.len();
    if n == 1 && t[0] == 'Z' {
        assert(t@ =~= seq!['Z']);
        return true;
    }
    if n < 3 || t[0] != '.' || t[n - 1] != 'Z' {
        assert(t@ != seq!['Z']) by {
            if t@ == seq!['Z'] {
                assert(t@.len() == 1 && t@[0] == 'Z');
            }
        }
        return false;
    }
    let mut i: usize = 1;
    while i < n - 1
        invariant
            1 <= i <= n - 1,
            n == t.len(),
            n >= 3,
            forall|k: int| 1 <= k < i ==> crate::num::is_digit(#[trigger] t@[k]),
        decreases n - 1 - i,
    {
        if !crate::num::char_is_digit(t[i]) {
            assert(!crate::num::all_digits(t@.subrange(1, n - 1))) by {
                assert(t@.subrange(1, n - 1)[i - 1] == t@[i as int]);
            }
            return false;
        }
        i = i + 1;
    }
    assert(crate::num::all_digits(t@.subrange(1, n - 1))) by {
        assert forall|k: int| 0 <= k < t@.subrange(1, n - 1).len() implies crate::num::is_digit(
            #[trigger] t@.subrange(1, n - 1)[k],
        ) by {
            assert(t@.subrange(1, n - 1)[k] == t@[k + 1]);
        }
    }
    true
}

/// Parse `YYYY-MM-DDTHH:MM:SSZ` into Unix seconds. After the seconds only
/// `Z`, or a fraction of a second and `Z`, is accepted; an offset or
/// anything else gives `None`.
pub fn parse_iso8601_utc(iso: &str) -> (r: Option<i64>)
    ensures
        match r {
            Some(v) => iso_seconds(iso@) == Some(v as int),
            None => iso_seconds(iso@) is None,
        },
{
    let cs = chars_of(iso);
    if cs.len() < 20 || cs[4] != '-' || cs[7] != '-' || cs[10] != 'T' {
        return None;
    }
    if cs[13] != ':' || cs[16] != ':' {
        return None;
    }
    let c = cs.as_slice();
    let tail = &c[19..c.len()];
    assert(tail@ =~= cs@.skip(19));
    if !is_utc_tail(tail) {
        return None;
    }
    let year = match parse_i64(&c[0..4]) {
        Some(v) => v,
        None => {
            return None;
        },
    };
    let u: u64 = 0xffff_ffff;
    let month = match parse_unsigned(&c[5..7], u) {
        Some(v) => v,
        None => {
            return None;
        },
    };
    let day = match parse_unsigned(&c[8..10], u) {
        Some(v) => v,
        None => {
            return None;
        },
    };
    let hour = match parse_unsigned(&c[11..13], u) {
        Some(v) => v,
        None => {
            return None;
        },
    };
    let min = match parse_unsigned(&c[14..16], u) {
        Some(v) => v,
        None => {
            return None;
        },
    };
    let sec = match parse_unsigned(&c[17..19], u) {
        Some(v) => v,
        None => {
            return None;
        },
    };
    if !(1 <= month && month <= 12) || !(1 <= day && day <= 31) {
        return None;
    }
    proof {
        lemma_parse_small(c@.subrange(11, 13), u as nat);
        lemma_parse_small(c@.subrange(14, 16), u as nat);
        lemma_parse_small(c@.subrange(17, 19), u as nat);
        lemma_year_small(c@.subrange(0, 4));
    }
    let days = days_from_civil(year, month as u32, day as u32);
    proof {
        lemma_civil_days_bound(year as int, month as int, day as int);
    }
    let secs = days * 86_400 + hour as i64 * 3600 + min as i64 * 60 + sec as i64;
    Some(secs)
}

proof fn lemma_year_small(s: Seq<char>)
    requires
        s.len() == 4,
        parse_i64_spec(s) is Some,
    ensures
        -10000 < parse_i64_spec(s)->0 < 10000,
{
    if s[0] == '-' {
        lemma_digits_small(s.skip(1));
        lemma_pow10_small(3);
    } else {
        lemma_parse_small(s, 0x7fff_ffff_ffff_ffff);
    }
}

proof fn lemma_civil_days_bound(y: int, m: int, d: int)
    requires
        -10000 < y < 10000,
        1 <= m <= 12,
        1 <= d <= 31,
    ensures
        -10_000_000 < civil_days(y, m, d) < 10_000_000,
{
    let y1 = if m <= 2 { y - 1 } else { y };
    let era = y1 / 400;
    assert(-26 <= era <= 25) by (nonlinear_arith)
        requires
            era == y1 / 400,
            -10001 < y1 < 10000,
    ;
    let yoe = y1 - era * 400;
    assert(0 <= yoe < 400) by (nonlinear_arith)
        requires
            era == y1 / 400,
            yoe == y1 - era * 400,
    ;
    let mp = if m > 2 { m - 3 } else { m + 9 };
    assert(0 <= (153 * mp + 2) / 5 <= 400) by (nonlinear_arith)
        requires
            0 <= mp <= 11,
    ;
    assert(0 <= yoe / 4 <= 100 && 0 <= yoe / 100 <= 4) by (nonlinear_arith)
        requires
            0 <= yoe < 400,
    ;
}


/// The bucketed English phrase for an age of `d` seconds: minutes below
/// an hour, hours below a day, days below a week, weeks below thirty
/// days, thirty-day months below 365 days, years beyond; the unit
/// itself, at twice its length, reads as "1 ... ago" ("yesterday" for a
/// day), and below a minute it is "just now".
pub open spec fn relative_phrase(d: int) -> Seq<char> {
    let minute = 60;
    let hour = 3600;
    let day = 86_400;
    let week = 604_800;
    let month = 2_592_000;
    let year = 31_536_000;
    if d < minute {
        "just now"@
    } else if d < 2 * minute {
        "1 minute ago"@
    } else if d < hour {
        decimal((d / minute) as nat) + " minutes ago"@
    } else if d < 2 * hour {
        "1 hour ago"@
    } else if d < day {
        decimal((d / hour) as nat) + " hours ago"@
    } else if d < 2 * day {
        "yesterday"@
    } else if d < week {
        decimal((d / day) as nat) + " days ago"@
    } else if d < 2 * week {
        "1 week ago"@
    } else if d < month {
        decimal((d / week) as nat) + " weeks ago"@
    } else if d < 2 * month {
        "1 month ago"@
    } else if d < year {
        decimal((d / month) as nat) + " months ago"@
    } else if d < 2 * year {
        "1 year ago"@
    } else {
        decimal((d / year) as nat) + " years ago"@
    }
}

/// `a - b` saturated to the range of `i64`.
pub open spec fn saturating_sub_i64(a: int, b: int) -> int {
    if a - b > i64::MAX {
        i64::MAX as int
    } else if a - b < i64::MIN {
        i64::MIN as int
    } else {
        a - b
    }
}

/// The relative rendering of `iso` seen at `now` (Unix seconds): absent
/// when `iso` does not parse or lies in the future.
pub open spec fn relative_spec(iso: Seq<char>, now: int) -> Option<Seq<char>> {
    match iso_seconds(iso) {
        None => None,
        Some(then) => {
            let d = saturating_sub_i64(now, then);
            if d < 0 {
                None
            } else {
                Some(relative_phrase(d))
            }
        },
    }
}

fn count_phrase(n: i64, unit: &str) -> (out: String)
    requires
        n >= 0,
    ensures
        out@ == decimal(n as nat) + unit@,
{
    let mut v = decimal_chars(n as u64);
    push_str_chars(&mut v, unit);
    string_from_chars(v.as_slice())
}

fn fixed_phrase(p: &str) -> (out: String)
    ensures
        out@ == p@,
{
    let v = chars_of(p);
    string_from_chars(v.as_slice())
}

/// Render the age of the timestamp `iso` at `now_secs` (seconds since
/// the Unix epoch) as "just now", "3 hours ago", "yesterday", ...;
/// `None` when `iso` does not parse or is later than `now_secs`.
pub fn format_iso8601_relative(iso: &str, now_secs: i64) -> (r: Option<String>)
    ensures
        match r {
            Some(s) => relative_spec(iso@, now_secs as int) == Some(s@),
            None => relative_spec(iso@, now_secs as int) is None,
        },
{
    let then = match parse_iso8601_utc(iso) {
        Some(t) => t,
        None => {
            return None;
        },
    };
    let wide: i128 = now_secs as i128 - then as i128;
    let diff: i64 = if wide > i64::MAX as i128 {
        i64::MAX
    } else if wide < i64::MIN as i128 {
        i64::MIN
    } else {
        wide as i64
    };
    if diff < 0 {
        return None;
    }
    let minute: i64 = 60;
    let hour: i64 = 3600;
    let day: i64 = 86_400;
    let week: i64 = 604_800;
    let month: i64 = 2_592_000;
    let year: i64 = 31_536_000;
    let out = if diff < minute {
        fixed_phrase("just now")
    } else if diff < 2 * minute {
        fixed_phrase("1 minute ago")
    } else if diff < hour {
        count_phrase(diff / minute, " minutes ago")
    } else if diff < 2 * hour {
        fixed_phrase("1 hour ago")
    } else if diff < day {
        count_phrase(diff / hour, " hours ago")
    } else if diff < 2 * day {
        fixed_phrase("yesterday")
    } else if diff < week {
        count_phrase(diff / day, " days ago")
    } else if diff < 2 * week {
        fixed_phrase("1 week ago")
    } else if diff < month {
        count_phrase(diff / week, " weeks ago")
    } else if diff < 2 * month {
        fixed_phrase("1 month ago")
    } else if diff < year {
        count_phrase(diff / month, " months ago")
    } else if diff < 2 * year {
        fixed_phrase("1 year ago")
    } else {
        count_phrase(diff / year, " years ago")
    };
    Some(out)
}

} // verus!
