//! Instants as a person reads them in a notification: a day in words and a
//! time of day on the clock the user chose.

use vstd::prelude::*;
use crate::civil::{civil_from_days, day_number, valid_date, weekday, weekday_of};
use crate::text::{decimal, push_decimal, push_str, push_zero_padded, zero_padded};
use crate::zone::{day_at, in_time_range, local_day, local_time_of_day, names_utc, offset_in_range, offset_or_utc, time_of_day_at};

verus! {

/// The clock the user reads times on.
#[derive(Debug, Clone, Copy, PartialEq, Eq)]
pub enum TimeFormat {
    /// `1:00 PM`.
    H12,
    /// `13:00`.
    H24,
}

/// A weekday's three-letter name, Monday as 0.
pub open spec fn weekday_name(w: int) -> Seq<char> {
    if w == 0 {
        "Mon"@
    } else if w == 1 {
        "Tue"@
    } else if w == 2 {
        "Wed"@
    } else if w == 3 {
        "Thu"@
    } else if w == 4 {
        "Fri"@
    } else if w == 5 {
        "Sat"@
    } else {
        "Sun"@
    }
}

/// A month's three-letter name, January as 1.
pub open spec fn month_name(m: int) -> Seq<char> {
    if m == 1 {
        "Jan"@
    } else if m == 2 {
        "Feb"@
    } else if m == 3 {
        "Mar"@
    } else if m == 4 {
        "Apr"@
    } else if m == 5 {
        "May"@
    } else if m == 6 {
        "Jun"@
    } else if m == 7 {
        "Jul"@
    } else if m == 8 {
        "Aug"@
    } else if m == 9 {
        "Sep"@
    } else if m == 10 {
        "Oct"@
    } else if m == 11 {
        "Nov"@
    } else {
        "Dec"@
    }
}

/// Whether `text` is day number `z` in words: `Wed, Aug 19`.
pub open spec fn names_day_in_words(text: Seq<char>, z: int) -> bool {
    exists|y: int, m: int, d: int|
        #![trigger day_number(y, m, d)]
        valid_date(y, m, d) && day_number(y, m, d) == z && text == weekday_name(weekday(z)) + ", "@
            + month_name(m) + " "@ + decimal(d as nat)
}

fn weekday_text(w: u8) -> (s: &'static str)
    requires
        w < 7,
    ensures
        s@ == weekday_name(w as int),
{
    proof {
        reveal_strlit("Mon");
        reveal_strlit("Tue");
        reveal_strlit("Wed");
        reveal_strlit("Thu");
        reveal_strlit("Fri");
        reveal_strlit("Sat");
        reveal_strlit("Sun");
    }
    if w == 0 {
        "Mon"
    } else if w == 1 {
        "Tue"
    } else if w == 2 {
        "Wed"
    } else if w == 3 {
        "Thu"
    } else if w == 4 {
        "Fri"
    } else if w == 5 {
        "Sat"
    } else {
        "Sun"
    }
}

fn month_text(m: u8) -> (s: &'static str)
    requires
        1 <= m <= 12,
    ensures
        s@ == month_name(m as int),
{
    proof {
        reveal_strlit("Jan");
        reveal_strlit("Feb");
        reveal_strlit("Mar");
        reveal_strlit("Apr");
        reveal_strlit("May");
        reveal_strlit("Jun");
        reveal_strlit("Jul");
        reveal_strlit("Aug");
        reveal_strlit("Sep");
        reveal_strlit("Oct");
        reveal_strlit("Nov");
        reveal_strlit("Dec");
    }
    if m == 1 {
        "Jan"
    } else if m == 2 {
        "Feb"
    } else if m == 3 {
        "Mar"
    } else if m == 4 {
        "Apr"
    } else if m == 5 {
        "May"
    } else if m == 6 {
        "Jun"
    } else if m == 7 {
        "Jul"
    } else if m == 8 {
        "Aug"
    } else if m == 9 {
        "Sep"
    } else if m == 10 {
        "Oct"
    } else if m == 11 {
        "Nov"
    } else {
        "Dec"
    }
}

/// The day `ms` falls on at UTC offset `offset` seconds, in words.
pub fn day_in_words_at(ms: i64, offset: i32) -> (s: String)
    requires
        offset_in_range(offset as int),
    ensures
        names_day_in_words(s@, local_day(ms as int, offset as int)),
{
    let z = day_at(ms, offset);
    let date = civil_from_days(z);
    let mut s = String::new();
    push_str(&mut s, weekday_text(weekday_of(z)));
    push_str(&mut s, ", ");
    push_str(&mut s, month_text(date.month));
    push_str(&mut s, " ");
    push_decimal(&mut s, date.day as u64);
    proof {
        reveal_strlit(", ");
        reveal_strlit(" ");
        let (y, m, d) = (date.year as int, date.month as int, date.day as int);
        assert(valid_date(y, m, d) && day_number(y, m, d) == z && s@ == weekday_name(weekday(z as int))
            + ", "@ + month_name(m) + " "@ + decimal(d as nat));
    }
    s
}

/// The time `minutes` minutes after midnight, on the clock `format`:
/// `13:05` on the 24-hour clock, `1:05 PM` on the 12-hour one, where the
/// hour after midnight and the hour after noon are both 12.
pub open spec fn clock_text(minutes: int, format: TimeFormat) -> Seq<char> {
    let h = minutes / 60;
    let m = minutes % 60;
    match format {
        TimeFormat::H24 => zero_padded(h as nat, 2) + ":"@ + zero_padded(m as nat, 2),
        TimeFormat::H12 => {
            let h12 = if h % 12 == 0 {
                12
            } else {
                h % 12
            };
            decimal(h12 as nat) + ":"@ + zero_padded(m as nat, 2) + if h >= 12 {
                " PM"@
            } else {
                " AM"@
            }
        },
    }
}

/// The time of day `ms` falls on at UTC offset `offset` seconds, on the
/// clock `format`.
pub fn time_at_offset(ms: i64, offset: i32, format: TimeFormat) -> (s: String)
    requires
        offset_in_range(offset as int),
    ensures
        s@ == clock_text(local_time_of_day(ms as int, offset as int) / 60000, format),
{
    let minutes = time_of_day_at(ms, offset) / 60000;
    let h = minutes / 60;
    let m = minutes % 60;
    let mut s = String::new();
    proof {
        reveal_strlit(":");
        reveal_strlit(" PM");
        reveal_strlit(" AM");
    }
    match format {
        TimeFormat::H24 => {
            push_zero_padded(&mut s, h as u64, 2);
            push_str(&mut s, ":");
            push_zero_padded(&mut s, m as u64, 2);
        },
        TimeFormat::H12 => {
            let h12 = if h % 12 == 0 {
                12
            } else {
                h % 12
            };
            push_decimal(&mut s, h12 as u64);
            push_str(&mut s, ":");
            push_zero_padded(&mut s, m as u64, 2);
            if h >= 12 {
                push_str(&mut s, " PM");
            } else {
                push_str(&mut s, " AM");
            }
        },
    }
    s
}

/// `jiff::Timestamp::from_millisecond(ms).is_ok()`: whether `ms` lies within
/// the instants `jiff` can hold — by its documented guarantee, out of range
/// is the only way the conversion fails.
#[verifier::external_body]
pub(crate) fn representable(ms: i64) -> (r: bool)
    ensures
        r == in_time_range(ms as int),
{
    jiff::Timestamp::from_millisecond(ms).is_ok()
}

/// The instant a notification reads for `ms`: `ms` itself, or the epoch
/// beyond what the time library can hold.
pub open spec fn read_instant(ms: int) -> int {
    if in_time_range(ms) {
        ms
    } else {
        0
    }
}

/// The instant a notification reads for `ms`: `ms` itself, or the epoch
/// when `ms` lies beyond what the time library can hold.
pub fn readable_instant(ms: i64) -> (t: i64)
    ensures
        t == read_instant(ms as int),
{
    if representable(ms) {
        ms
    } else {
        0
    }
}

/// `Wed, Aug 19`: the day `ms` falls on in the zone named `tz` (UTC when
/// the zone is unknown).
pub fn date_in_words(ms: i64, tz: &str) -> (s: String)
    ensures
        exists|o: int|
            offset_in_range(o) && #[trigger] names_day_in_words(
                s@,
                local_day(read_instant(ms as int), o),
            ),
        names_utc(tz@) ==> names_day_in_words(s@, local_day(read_instant(ms as int), 0)),
{
    let t = readable_instant(ms);
    let o = offset_or_utc(tz, t);
    let s = day_in_words_at(t, o);
    assert(names_day_in_words(s@, local_day(t as int, o as int)));
    s
}

} // verus!
