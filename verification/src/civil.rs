//! Calendar dates in the proleptic Gregorian calendar: a day number (days
//! since 1970-01-01) to a year, month and day and back, the weekday, and the
//! `yyyy-mm-dd` text a date is written as.

use vstd::prelude::*;
use crate::text::{zero_padded, push_zero_padded, push_char, push_str};

verus! {

/// Whether `y` is a leap year.
pub open spec fn is_leap(y: int) -> bool {
    (y % 4 == 0 && y % 100 != 0) || y % 400 == 0
}

/// The number of days in year `y`.
pub open spec fn year_len(y: int) -> int {
    if is_leap(y) {
        366
    } else {
        365
    }
}

/// The number of days in month `m` (1–12) of year `y`.
pub open spec fn month_len(y: int, m: int) -> int {
    if m == 2 {
        if is_leap(y) {
            29
        } else {
            28
        }
    } else if m == 4 || m == 6 || m == 9 || m == 11 {
        30
    } else {
        31
    }
}

/// Days from 0000-01-01 to the first of January of year `y`.
pub open spec fn days_to_year(y: int) -> int {
    365 * y + (y + 3) / 4 - (y + 99) / 100 + (y + 399) / 400
}

/// Days from the first of January of `y` to the first of month `m`.
pub open spec fn days_to_month(y: int, m: int) -> int
    decreases m,
{
    if m <= 1 {
        0
    } else {
        days_to_month(y, m - 1) + month_len(y, m - 1)
    }
}

/// The day number of 1970-01-01 counted from 0000-01-01.
pub open spec fn epoch_day() -> int {
    719528
}

/// The day number (days since 1970-01-01) of the date `y-m-d`.
pub open spec fn day_number(y: int, m: int, d: int) -> int {
    days_to_year(y) + days_to_month(y, m) + d - 1 - epoch_day()
}

/// Whether `y-m-d` names a day of the calendar.
pub open spec fn valid_date(y: int, m: int, d: int) -> bool {
    1 <= m <= 12 && 1 <= d <= month_len(y, m)
}

/// The weekday of day number `z`, Monday as 0 through Sunday as 6.
pub open spec fn weekday(z: int) -> int {
    (z + 3) % 7
}

/// The date written as `yyyy-mm-dd`; a year before 0 is written with a
/// sign and six digits, `-00yyyy`.
pub open spec fn iso_date(y: int, m: int, d: int) -> Seq<char> {
    let year = if y < 0 {
        "-00"@ + zero_padded((-y) as nat, 4)
    } else {
        zero_padded(y as nat, 4)
    };
    year + "-"@ + zero_padded(m as nat, 2) + "-"@ + zero_padded(d as nat, 2)
}

/// A date: year, month (1–12), day of the month.
#[derive(Debug, PartialEq, Eq)]
pub struct Date {
    pub year: i64,
    pub month: u8,
    pub day: u8,
}

/// Day numbers this module reads dates from: wider than any instant a 64-bit
/// count of milliseconds can name.
pub open spec fn day_in_range(z: int) -> bool {
    -0x20_0000_0000 <= z <= 0x20_0000_0000
}

/// Years this module writes day numbers for.
pub open spec fn year_in_range(y: int) -> bool {
    -0x4000_0000 <= y <= 0x4000_0000
}

#[verifier::rlimit(40)]
proof fn lemma_year_step(y: int)
    ensures
        days_to_year(y + 1) == days_to_year(y) + year_len(y),
{
    assert((y + 4) / 4 == (y + 3) / 4 + (if y % 4 == 0 { 1int } else { 0 }));
    assert((y + 100) / 100 == (y + 99) / 100 + (if y % 100 == 0 { 1int } else { 0 }));
    assert((y + 400) / 400 == (y + 399) / 400 + (if y % 400 == 0 { 1int } else { 0 }));
}

#[verifier::rlimit(40)]
proof fn lemma_cycle(c: int)
    ensures
        days_to_year(400 * c) == 146097 * c,
{
    assert((400 * c + 3) / 4 == 100 * c);
    assert((400 * c + 99) / 100 == 4 * c);
    assert((400 * c + 399) / 400 == c);
}

#[verifier::rlimit(40)]
proof fn lemma_cycle_shift(y: int, k: int)
    ensures
        days_to_year(y + 400 * k) == days_to_year(y) + 146097 * k,
{
    assert((y + 400 * k + 3) / 4 == (y + 3) / 4 + 100 * k);
    assert((y + 400 * k + 99) / 100 == (y + 99) / 100 + 4 * k);
    assert((y + 400 * k + 399) / 400 == (y + 399) / 400 + k);
}

#[verifier::rlimit(40)]
proof fn lemma_leap_shift(y: int, k: int)
    ensures
        is_leap(y + 400 * k) == is_leap(y),
        forall|m: int| month_len(y + 400 * k, m) == #[trigger] month_len(y, m),
{
    assert((y + 400 * k) % 4 == y % 4);
    assert((y + 400 * k) % 100 == y % 100);
    assert((y + 400 * k) % 400 == y % 400);
}

proof fn lemma_days_to_month_shift(y: int, k: int, m: int)
    ensures
        days_to_month(y + 400 * k, m) == days_to_month(y, m),
    decreases m,
{
    lemma_leap_shift(y, k);
    if m > 1 {
        lemma_days_to_month_shift(y, k, m - 1);
    }
}

proof fn lemma_year_of_months(y: int)
    ensures
        days_to_month(y, 13) == year_len(y),
{
    reveal_with_fuel(days_to_month, 13);
}

/// The date of day number `z`.
pub fn civil_from_days(z: i64) -> (date: Date)
    requires
        day_in_range(z as int),
    ensures
        valid_date(date.year as int, date.month as int, date.day as int),
        day_number(date.year as int, date.month as int, date.day as int) == z,
        year_in_range(date.year as int),
{
    // Shift to a non-negative count of days from 0000-01-01 by a whole
    // number of 400-year cycles, which repeat exactly.
    let shift_cycles: i64 = 10_000_000;
    let d: i64 = z + 719528 + shift_cycles * 146097;
    assert(d >= 0);
    let cycles: i64 = d / 146097;
    let mut rest: i64 = d % 146097;
    let mut year: i64 = 400 * cycles;
    proof {
        lemma_cycle(cycles as int);
        lemma_cycle(cycles as int + 1);
    }
    let ghost y0 = year as int;
    loop
        invariant_except_break
            y0 <= year <= y0 + 400,
            days_to_year(year as int) + rest == d,
            0 <= rest,
            days_to_year(y0 + 400) > d,
            y0 == 400 * cycles,
            0 <= cycles <= 0x1_0000_0000,
        ensures
            days_to_year(year as int) + rest == d,
            0 <= rest < year_len(year as int),
            y0 <= year < y0 + 400,
            y0 == 400 * cycles,
            0 <= cycles <= 0x1_0000_0000,
        decreases y0 + 400 - year,
    {
        let leap = (year % 4 == 0 && year % 100 != 0) || year % 400 == 0;
        let len: i64 = if leap { 366 } else { 365 };
        proof {
            lemma_year_step(year as int);
        }
        if rest < len {
            break;
        }
        rest = rest - len;
        year = year + 1;
    }
    let mut month: u8 = 1;
    proof {
        lemma_year_of_months(year as int);
    }
    loop
        invariant_except_break
            1 <= month <= 12,
            days_to_month(year as int, month as int) + rest < year_len(year as int),
            0 <= rest,
            days_to_year(year as int) + days_to_month(year as int, month as int) + rest == d,
            days_to_month(year as int, 13) == year_len(year as int),
            y0 <= year < y0 + 400,
        ensures
            1 <= month <= 12,
            0 <= rest < month_len(year as int, month as int),
            days_to_year(year as int) + days_to_month(year as int, month as int) + rest == d,
            y0 <= year < y0 + 400,
        decreases 13 - month,
    {
        let leap = (year % 4 == 0 && year % 100 != 0) || year % 400 == 0;
        let len: i64 = if month == 2 {
            if leap { 29 } else { 28 }
        } else if month == 4 || month == 6 || month == 9 || month == 11 {
            30
        } else {
            31
        };
        assert(len == month_len(year as int, month as int));
        if rest < len {
            break;
        }
        rest = rest - len;
        if month == 12 {
            assert(days_to_month(year as int, 13) == days_to_month(year as int, 12) + month_len(
                year as int,
                12,
            ));
            assert(false);
        }
        month = month + 1;
    }
    let final_year: i64 = year - 400 * shift_cycles;
    proof {
        lemma_cycle_shift(final_year as int, shift_cycles as int);
        lemma_days_to_month_shift(final_year as int, shift_cycles as int, month as int);
        lemma_leap_shift(final_year as int, shift_cycles as int);
        assert(year == final_year + 400 * shift_cycles);
    }
    Date { year: final_year, month, day: (rest + 1) as u8 }
}

/// The day number of the date `y-m-d`.
pub fn days_from_civil(y: i64, m: u8, d: u8) -> (z: i64)
    requires
        year_in_range(y as int),
        valid_date(y as int, m as int, d as int),
    ensures
        z == day_number(y as int, m as int, d as int),
        -0x100_0000_0000 <= z <= 0x100_0000_0000,
        0 <= y <= 9999 ==> -719528 <= z <= 2932897,
{
    let shift_cycles: i64 = 3_000_000;
    let yy: i64 = y + 400 * shift_cycles;
    assert(yy >= 0);
    let before_year: i64 = 365 * yy + (yy + 3) / 4 - (yy + 99) / 100 + (yy + 399) / 400;
    let leap = (yy % 4 == 0 && yy % 100 != 0) || yy % 400 == 0;
    let mut before_month: i64 = 0;
    let mut k: u8 = 1;
    proof {
        lemma_leap_shift(y as int, shift_cycles as int);
        lemma_cycle_shift(y as int, shift_cycles as int);
        lemma_days_to_month_shift(y as int, shift_cycles as int, m as int);
    }
    while k < m
        invariant
            1 <= k <= m <= 12,
            before_month == days_to_month(yy as int, k as int),
            0 <= before_month <= 31 * k,
            leap == is_leap(yy as int),
        decreases m - k,
    {
        let len: i64 = if k == 2 {
            if leap { 29 } else { 28 }
        } else if k == 4 || k == 6 || k == 9 || k == 11 {
            30
        } else {
            31
        };
        before_month = before_month + len;
        k = k + 1;
    }
    proof {
        lemma_days_to_month_bound(y as int, m as int);
    }
    before_year - 146097 * shift_cycles + before_month + (d as i64) - 1 - 719528
}

proof fn lemma_days_to_month_bound(y: int, m: int)
    requires
        1 <= m <= 12,
    ensures
        0 <= days_to_month(y, m) <= 335,
        days_to_month(y, m) + month_len(y, m) <= year_len(y),
{
    reveal_with_fuel(days_to_month, 13);
}

proof fn lemma_days_to_year_monotone(y1: int, y2: int)
    requires
        y1 < y2,
    ensures
        days_to_year(y1) + year_len(y1) <= days_to_year(y2),
    decreases y2 - y1,
{
    lemma_year_step(y1);
    if y1 + 1 < y2 {
        lemma_days_to_year_monotone(y1 + 1, y2);
    }
}

proof fn lemma_days_to_month_monotone(y: int, m1: int, m2: int)
    requires
        1 <= m1 < m2 <= 12,
    ensures
        days_to_month(y, m1) + month_len(y, m1) <= days_to_month(y, m2),
    decreases m2 - m1,
{
    if m1 + 1 < m2 {
        lemma_days_to_month_monotone(y, m1 + 1, m2);
    }
}

/// Two real dates with one day number are one date.
pub proof fn lemma_day_number_injective(y1: int, m1: int, d1: int, y2: int, m2: int, d2: int)
    requires
        valid_date(y1, m1, d1),
        valid_date(y2, m2, d2),
        day_number(y1, m1, d1) == day_number(y2, m2, d2),
    ensures
        y1 == y2 && m1 == m2 && d1 == d2,
{
    lemma_days_to_month_bound(y1, m1);
    lemma_days_to_month_bound(y2, m2);
    if y1 < y2 {
        lemma_days_to_year_monotone(y1, y2);
    } else if y2 < y1 {
        lemma_days_to_year_monotone(y2, y1);
    } else if m1 < m2 {
        lemma_days_to_month_monotone(y1, m1, m2);
    } else if m2 < m1 {
        lemma_days_to_month_monotone(y1, m2, m1);
    }
}

/// A day is written one way: two texts that name the same day are the same
/// text.
pub proof fn lemma_names_day_unique(a: Seq<char>, b: Seq<char>, z: int)
    requires
        names_day(a, z),
        names_day(b, z),
    ensures
        a == b,
{
    let (y1, m1, d1) = choose|y: int, m: int, d: int|
        #![trigger iso_date(y, m, d)]
        valid_date(y, m, d) && day_number(y, m, d) == z && a == iso_date(y, m, d);
    let (y2, m2, d2) = choose|y: int, m: int, d: int|
        #![trigger iso_date(y, m, d)]
        valid_date(y, m, d) && day_number(y, m, d) == z && b == iso_date(y, m, d);
    lemma_day_number_injective(y1, m1, d1, y2, m2, d2);
}

/// The weekday of day number `z`, Monday as 0 through Sunday as 6.
pub fn weekday_of(z: i64) -> (w: u8)
    requires
        day_in_range(z as int),
    ensures
        w == weekday(z as int),
        w < 7,
{
    let shifted: i64 = z + 3 + 7 * 0x100_0000_0000;
    assert(shifted >= 0);
    assert((z + 3 + 7 * 0x100_0000_0000) % 7 == (z + 3) % 7);
    (shifted % 7) as u8
}

/// Appends `y-m-d` as `yyyy-mm-dd` to `s`.
pub fn push_iso_date(s: &mut String, date: &Date)
    requires
        year_in_range(date.year as int),
    ensures
        final(s)@ == old(s)@ + iso_date(date.year as int, date.month as int, date.day as int),
{
    let ghost start = s@;
    if date.year < 0 {
        push_str(s, "-00");
        push_zero_padded(s, (-date.year) as u64, 4);
    } else {
        push_zero_padded(s, date.year as u64, 4);
    }
    push_char(s, '-');
    push_zero_padded(s, date.month as u64, 2);
    push_char(s, '-');
    push_zero_padded(s, date.day as u64, 2);
    proof {
        reveal_strlit("-00");
        reveal_strlit("-");
    }
    assert(s@ =~= start + iso_date(date.year as int, date.month as int, date.day as int));
}

/// The date written as `yyyy-mm-dd`.
pub fn iso_date_string(date: &Date) -> (s: String)
    requires
        year_in_range(date.year as int),
    ensures
        s@ == iso_date(date.year as int, date.month as int, date.day as int),
{
    let mut s = String::new();
    push_iso_date(&mut s, date);
    s
}

/// Whether `text` is the `yyyy-mm-dd` of day number `z`.
pub open spec fn names_day(text: Seq<char>, z: int) -> bool {
    exists|y: int, m: int, d: int|
        #![trigger iso_date(y, m, d)]
        valid_date(y, m, d) && day_number(y, m, d) == z && text == iso_date(y, m, d)
}

/// The `yyyy-mm-dd` of day number `z`.
pub fn day_text(z: i64) -> (s: String)
    requires
        day_in_range(z as int),
    ensures
        names_day(s@, z as int),
{
    let date = civil_from_days(z);
    let s = iso_date_string(&date);
    assert(valid_date(date.year as int, date.month as int, date.day as int) && day_number(
        date.year as int,
        date.month as int,
        date.day as int,
    ) == z && s@ == iso_date(date.year as int, date.month as int, date.day as int));
    s
}

/// Whether `c` is an ASCII digit.
pub open spec fn is_digit(c: char) -> bool {
    '0' <= c && c <= '9'
}

/// The value of an ASCII digit.
pub open spec fn digit_value(c: char) -> int {
    (c as u32) - 48
}

/// The value of the digits `s[from..to]`.
pub open spec fn digits_value(s: Seq<char>, from: int, to: int) -> int
    decreases to - from,
{
    if to <= from {
        0
    } else {
        digits_value(s, from, to - 1) * 10 + digit_value(s[to - 1])
    }
}

/// The date `s` names when it is written `yyyy-mm-dd` — four-digit year,
/// two-digit month and day — and names a real day.
pub open spec fn parsed_iso_date(s: Seq<char>) -> Option<(int, int, int)> {
    if s.len() == 10 && s[4] == '-' && s[7] == '-' && is_digit(s[0]) && is_digit(s[1]) && is_digit(
        s[2],
    ) && is_digit(s[3]) && is_digit(s[5]) && is_digit(s[6]) && is_digit(s[8]) && is_digit(s[9])
        && valid_date(digits_value(s, 0, 4), digits_value(s, 5, 7), digits_value(s, 8, 10)) {
        Some((digits_value(s, 0, 4), digits_value(s, 5, 7), digits_value(s, 8, 10)))
    } else {
        None
    }
}

fn digits_at(s: &str, from: usize, to: usize) -> (r: u64)
    requires
        from <= to <= s@.len(),
        to - from <= 4,
        forall|k: int| from <= k < to ==> is_digit(#[trigger] s@[k]),
    ensures
        r == digits_value(s@, from as int, to as int),
        r < 10000,
{
    let mut v: u64 = 0;
    let mut k = from;
    while k < to
        invariant
            from <= k <= to,
            to <= s@.len(),
            to - from <= 4,
            forall|i: int| from <= i < to ==> is_digit(#[trigger] s@[i]),
            v == digits_value(s@, from as int, k as int),
            v < if k - from == 0 {
                1u64
            } else if k - from == 1 {
                10
            } else if k - from == 2 {
                100
            } else if k - from == 3 {
                1000
            } else {
                10000
            },
        decreases to - k,
    {
        let c = s.get_char(k);
        assert(is_digit(s@[k as int]));
        let dv = (c as u32 - 48) as u64;
        v = v * 10 + dv;
        k = k + 1;
    }
    v
}

/// The date `s` names when it is written `yyyy-mm-dd`; `None` for any other
/// text.
pub fn parse_iso_date(s: &str) -> (r: Option<Date>)
    ensures
        match r {
            Some(date) => parsed_iso_date(s@) == Some(
                (date.year as int, date.month as int, date.day as int),
            ),
            None => parsed_iso_date(s@) is None,
        },
        r matches Some(date) ==> 0 <= date.year <= 9999,
{
    let n = s.unicode_len();
    if n != 10 {
        return None;
    }
    let c0 = s.get_char(0);
    let c1 = s.get_char(1);
    let c2 = s.get_char(2);
    let c3 = s.get_char(3);
    let c4 = s.get_char(4);
    let c5 = s.get_char(5);
    let c6 = s.get_char(6);
    let c7 = s.get_char(7);
    let c8 = s.get_char(8);
    let c9 = s.get_char(9);
    let dig = |c: char| -> (b: bool)
        ensures
            b == is_digit(c),
        { '0' <= c && c <= '9' };
    if !(c4 == '-' && c7 == '-' && dig(c0) && dig(c1) && dig(c2) && dig(c3) && dig(c5) && dig(c6)
        && dig(c8) && dig(c9)) {
        return None;
    }
    let y = digits_at(s, 0, 4);
    let m = digits_at(s, 5, 7);
    let d = digits_at(s, 8, 10);
    if m < 1 || m > 12 || d < 1 {
        return None;
    }
    let leap = (y % 4 == 0 && y % 100 != 0) || y % 400 == 0;
    let len: u64 = if m == 2 {
        if leap { 29 } else { 28 }
    } else if m == 4 || m == 6 || m == 9 || m == 11 {
        30
    } else {
        31
    };
    assert(len == month_len(y as int, m as int));
    if d > len {
        return None;
    }
    Some(Date { year: y as i64, month: m as u8, day: d as u8 })
}

/// The day number of a date parsed from text.
pub open spec fn day_of(p: (int, int, int)) -> int {
    day_number(p.0, p.1, p.2)
}

/// Whether `r` is the date `target` moved by the whole days between `from`
/// and `to`: `target` itself when `from` and `to` are the same text, and
/// `to` unchanged when any of the three is not a `yyyy-mm-dd` date.
pub open spec fn shifted_date_result(
    target: Seq<char>,
    from: Seq<char>,
    to: Seq<char>,
    r: Seq<char>,
) -> bool {
    if from == to {
        r == target
    } else {
        match (parsed_iso_date(target), parsed_iso_date(from), parsed_iso_date(to)) {
            (Some(t), Some(f), Some(n)) => names_day(r, day_of(t) + day_of(n) - day_of(f)),
            _ => r == to,
        }
    }
}

/// The date `target` moved by the whole days the user moved `from` to `to`
/// — days and nothing else, so no zone is involved.
pub fn shifted_date(target: &str, from: &str, to: &str) -> (r: String)
    ensures
        shifted_date_result(target@, from@, to@, r@),
{
    if crate::text::str_eq(from, to) {
        return crate::text::owned(target);
    }
    match (parse_iso_date(target), parse_iso_date(from), parse_iso_date(to)) {
        (Some(t), Some(f), Some(n)) => {
            let zt = days_from_civil(t.year, t.month, t.day);
            let zf = days_from_civil(f.year, f.month, f.day);
            let zn = days_from_civil(n.year, n.month, n.day);
            day_text(zt + zn - zf)
        },
        _ => crate::text::owned(to),
    }
}

} // verus!
