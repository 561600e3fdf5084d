//! The time stamp at the start of a tee file name (`YYYYMMDD_HHMMSS_...`).

use crate::text::{
    all_digits, char_is_digit, digits_value, is_digit, parse_usize, slice_of,
    to_chars, utf8_len,
};
use vstd::prelude::*;

verus! {

/// Whether `y` is a leap year of the proleptic Gregorian calendar.
pub open spec fn is_leap_year(y: int) -> bool {
    (y % 4 == 0 && y % 100 != 0) || y % 400 == 0
}

/// The number of days of month `m` (1 to 12) of year `y`.
pub open spec fn days_in_month(y: int, m: int) -> int {
    if m == 2 {
        if is_leap_year(y) {
            29
        } else {
            28
        }
    } else if m == 4 || m == 6 || m == 9 || m == 11 {
        30
    } else {
        31
    }
}

/// A calendar date and time of day that chrono represents: the year within
/// chrono's range, an existing day, and a time without a leap second.
pub open spec fn valid_civil(y: int, mo: int, d: int, h: int, mi: int, s: int) -> bool {
    &&& -262143 <= y <= 262142
    &&& 1 <= mo <= 12
    &&& 1 <= d <= days_in_month(y, mo)
    &&& 0 <= h < 24
    &&& 0 <= mi < 60
    &&& 0 <= s < 60
}

/// The number of days from 1970-01-01 to a date of the proleptic Gregorian
/// calendar (negative before it): years counted from March, in 400-year
/// eras of 146097 days.
pub open spec fn days_from_civil(y: int, m: int, d: int) -> int {
    let y2 = if m <= 2 {
        y - 1
    } else {
        y
    };
    let era = y2 / 400;
    let yoe = y2 - era * 400;
    let mp = if m > 2 {
        m - 3
    } else {
        m + 9
    };
    let doy = (153 * mp + 2) / 5 + d - 1;
    let doe = yoe * 365 + yoe / 4 - yoe / 100 + doy;
    era * 146097 + doe - 719468
}

/// The Unix time (seconds since 1970-01-01 00:00:00 UTC) of a UTC calendar
/// date and time.
pub open spec fn utc_seconds(
    year: i32,
    month: u32,
    day: u32,
    hour: u32,
    minute: u32,
    second: u32,
) -> int {
    days_from_civil(year as int, month as int, day as int) * 86400 + hour * 3600 + minute * 60
        + second
}

/// `chrono::NaiveDate::from_ymd_opt`, then `NaiveDate::and_hms_opt`, then
/// `NaiveDateTime::and_utc` and `DateTime::timestamp`. Trusted: a result
/// exactly when the date exists in chrono's year range and the time has
/// hour < 24, minute < 60 and second < 60 (as chrono's source checks), and
/// then the Unix time of that date and time (`utc_seconds`).
#[verifier::external_body]
fn utc_timestamp(year: i32, month: u32, day: u32, hour: u32, minute: u32, second: u32) -> (r:
    Option<i64>)
    ensures
        r.is_some() <==> valid_civil(
            year as int,
            month as int,
            day as int,
            hour as int,
            minute as int,
            second as int,
        ),
        r.is_some() ==> r.unwrap() == utc_seconds(year, month, day, hour, minute, second),
{
    let date = chrono::NaiveDate::from_ymd_opt(year, month, day)?;
    let time = date.and_hms_opt(hour, minute, second)?;
    Some(time.and_utc().timestamp())
}

/// What `str::parse` gives for an unsigned integer type on a string of at
/// most four characters (too short to overflow): an optional `+`, then one
/// or more ASCII digits.
pub open spec fn unsigned_value(s: Seq<char>) -> Option<int> {
    let d = if s.len() > 0 && s[0] == '+' {
        s.drop_first()
    } else {
        s
    };
    if d.len() > 0 && all_digits(d) {
        Some(digits_value(d) as int)
    } else {
        None
    }
}

/// What `str::parse` gives for a signed integer type on a string of at most
/// four characters: as for an unsigned type, or a `-` followed by one or
/// more ASCII digits.
pub open spec fn signed_value(s: Seq<char>) -> Option<int> {
    if s.len() > 0 && s[0] == '-' {
        let d = s.drop_first();
        if d.len() > 0 && all_digits(d) {
            Some(-(digits_value(d) as int))
        } else {
            None
        }
    } else {
        unsigned_value(s)
    }
}

/// The first `n` characters exist and are ASCII.
pub open spec fn ascii_prefix(s: Seq<char>, n: int) -> bool {
    s.len() >= n && forall|i: int| 0 <= i < n ==> (#[trigger] s[i] as u32) < 128
}

/// The year, month, day, hour, minute and second written at the start of a
/// file name: characters 0-3, 4-5, 6-7, 9-10, 11-12 and 13-14, each read by
/// `str::parse`. None when the name is shorter, when one of those fifteen
/// characters is not ASCII (a field then holds a non-digit), or when a field
/// does not parse.
pub open spec fn stamp_fields(s: Seq<char>) -> Option<(int, int, int, int, int, int)> {
    if ascii_prefix(s, 15) {
        match (
            signed_value(s.subrange(0, 4)),
            unsigned_value(s.subrange(4, 6)),
            unsigned_value(s.subrange(6, 8)),
            unsigned_value(s.subrange(9, 11)),
            unsigned_value(s.subrange(11, 13)),
            unsigned_value(s.subrange(13, 15)),
        ) {
            (Some(y), Some(mo), Some(d), Some(h), Some(mi), Some(sec)) => Some(
                (y, mo, d, h, mi, sec),
            ),
            _ => None,
        }
    } else {
        None
    }
}

/// The Unix time of the stamp at the start of a file name, when its fields
/// parse and form an existing date and time.
pub open spec fn filename_stamp(s: Seq<char>) -> Option<i64> {
    match stamp_fields(s) {
        Some((y, mo, d, h, mi, sec)) => if valid_civil(y, mo, d, h, mi, sec) {
            Some(utc_seconds(y as i32, mo as u32, d as u32, h as u32, mi as u32, sec as u32) as i64)
        } else {
            None
        },
        None => None,
    }
}

/// Whether byte offset `b` of the UTF-8 form of `s` falls between two
/// characters.
pub open spec fn is_char_boundary(s: Seq<char>, b: int) -> bool {
    exists|k: int| 0 <= k <= s.len() && utf8_len(#[trigger] s.take(k)) == b
}

/// Whether reading the stamp slices the name only at character boundaries
/// (bytes 4, 6, 8, 9, 11, 13 and 15 once the name has fifteen bytes);
/// slicing a `str` elsewhere panics.
pub open spec fn stamp_slices_valid(s: Seq<char>) -> bool {
    utf8_len(s) < 15 || (is_char_boundary(s, 4) && is_char_boundary(s, 6) && is_char_boundary(s, 8)
        && is_char_boundary(s, 9) && is_char_boundary(s, 11) && is_char_boundary(s, 13)
        && is_char_boundary(s, 15))
}

/// Ten to the power `n`.
pub open spec fn pow10(n: nat) -> nat
    decreases n,
{
    if n == 0 {
        1
    } else {
        10 * pow10((n - 1) as nat)
    }
}

proof fn lemma_digits_value_below(d: Seq<char>)
    requires
        all_digits(d),
    ensures
        digits_value(d) < pow10(d.len()),
    decreases d.len(),
{
    if d.len() > 0 {
        let p = d.drop_last();
        assert(all_digits(p)) by {
            assert forall|i: int| 0 <= i < p.len() implies is_digit(#[trigger] p[i]) by {
                assert(p[i] == d[i]);
            }
        }
        lemma_digits_value_below(p);
        assert(is_digit(d[d.len() - 1]));
        let a = digits_value(p);
        let b = pow10(p.len());
        let c = ((d.last() as u32) - 48) as nat;
        assert(c <= 9);
        assert(a * 10 + c < 10 * b) by (nonlinear_arith)
            requires
                a < b,
                c <= 9,
        ;
    }
}

/// `str::parse::<u32>` on at most four characters.
fn parse_unsigned_short(s: &Vec<char>) -> (r: Option<u32>)
    requires
        s.len() <= 4,
    ensures
        match unsigned_value(s@) {
            Some(v) => r == Some(v as u32) && 0 <= v < 10000,
            None => r is None,
        },
{
    let ghost d = if s@.len() > 0 && s@[0] == '+' {
        s@.drop_first()
    } else {
        s@
    };
    proof {
        if d.len() > 0 && all_digits(d) {
            lemma_digits_value_below(d);
            reveal_with_fuel(pow10, 5);
            assert(pow10(d.len()) <= 10000);
        }
    }
    match parse_usize(s) {
        Some(v) => Some(v as u32),
        None => None,
    }
}

/// `str::parse::<i32>` on at most four characters.
fn parse_signed_short(s: &Vec<char>) -> (r: Option<i32>)
    requires
        s.len() <= 4,
    ensures
        match signed_value(s@) {
            Some(v) => r == Some(v as i32) && -10000 < v < 10000,
            None => r is None,
        },
{
    if s.len() > 0 && s[0] == '-' {
        let rest = slice_of(s, 1, s.len());
        assert(rest@ == s@.drop_first());
        if rest.len() == 0 || !char_is_digit(rest[0]) {
            assert(!all_digits(rest@) || rest@.len() == 0);
            return None;
        }
        let r = parse_unsigned_short(&rest);
        match r {
            Some(v) => {
                let n: i32 = v as i32;
                Some(-n)
            },
            None => None,
        }
    } else {
        match parse_unsigned_short(s) {
            Some(v) => Some(v as i32),
            None => None,
        }
    }
}

/// The Unix time of the stamp that starts a tee file name
/// (`YYYYMMDD_HHMMSS_...`), or None when the name has no valid stamp; the
/// caller then uses the current time.
pub fn parse_timestamp_from_filename(filename: &str) -> (r: Option<i64>)
    requires
        stamp_slices_valid(filename@),
    ensures
        r == filename_stamp(filename@),
{
    let cs = to_chars(filename);
    if cs.len() < 15 {
        return None;
    }
    let mut i: usize = 0;
    while i < 15
        invariant
            i <= 15 <= cs.len(),
            cs@ == filename@,
            forall|j: int| 0 <= j < i ==> (#[trigger] cs@[j] as u32) < 128,
        decreases 15 - i,
    {
        if cs[i] as u32 >= 128 {
            assert(!ascii_prefix(cs@, 15));
            return None;
        }
        i += 1;
    }
    assert(ascii_prefix(cs@, 15));
    let year = parse_signed_short(&slice_of(&cs, 0, 4));
    let month = parse_unsigned_short(&slice_of(&cs, 4, 6));
    let day = parse_unsigned_short(&slice_of(&cs, 6, 8));
    let hour = parse_unsigned_short(&slice_of(&cs, 9, 11));
    let minute = parse_unsigned_short(&slice_of(&cs, 11, 13));
    let second = parse_unsigned_short(&slice_of(&cs, 13, 15));
    match (year, month, day, hour, minute, second) {
        (Some(y), Some(mo), Some(d), Some(h), Some(mi), Some(s)) => utc_timestamp(
            y,
            mo,
            d,
            h,
            mi,
            s,
        ),
        _ => None,
    }
}

} // verus!
