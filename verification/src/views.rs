//! The windows the calendar views read from the store, and the names their
//! legends carry.

use vstd::prelude::*;
use crate::sync::DAY_MS;
use crate::text::owned;

verus! {

/// The store window a week starting at `week_start_ms` is drawn from: a day
/// wider on each side than the week, so an event that begins just before it
/// — or a day lengthened by a clock change — is not missed.
pub fn week_fetch_window(week_start_ms: i64) -> (w: (i64, i64))
    requires
        i64::MIN + DAY_MS <= week_start_ms <= i64::MAX - 8 * DAY_MS,
    ensures
        w.0 == week_start_ms - DAY_MS,
        w.1 == week_start_ms + 8 * DAY_MS,
{
    (week_start_ms - DAY_MS, week_start_ms + 8 * DAY_MS)
}

/// The store window one day starting at `day_start_ms` is drawn from, a day
/// wider on each side for the same reason.
pub fn day_fetch_window(day_start_ms: i64) -> (w: (i64, i64))
    requires
        i64::MIN + DAY_MS <= day_start_ms <= i64::MAX - 2 * DAY_MS,
    ensures
        w.0 == day_start_ms - DAY_MS,
        w.1 == day_start_ms + 2 * DAY_MS,
{
    (day_start_ms - DAY_MS, day_start_ms + 2 * DAY_MS)
}

/// The store window a month's 42-day grid starting at `grid_start_ms` is
/// drawn from, a day wider on each side.
pub fn month_fetch_window(grid_start_ms: i64) -> (w: (i64, i64))
    requires
        i64::MIN + DAY_MS <= grid_start_ms <= i64::MAX - 43 * DAY_MS,
    ensures
        w.0 == grid_start_ms - DAY_MS,
        w.1 == grid_start_ms + 43 * DAY_MS,
{
    (grid_start_ms - DAY_MS, grid_start_ms + 43 * DAY_MS)
}

/// The store window a year is drawn from, from its first instant to the
/// next year's, a day wider on each side.
pub fn year_fetch_window(year_start_ms: i64, next_year_start_ms: i64) -> (w: (i64, i64))
    requires
        i64::MIN + DAY_MS <= year_start_ms,
        next_year_start_ms <= i64::MAX - DAY_MS,
    ensures
        w.0 == year_start_ms - DAY_MS,
        w.1 == next_year_start_ms + DAY_MS,
{
    (year_start_ms - DAY_MS, next_year_start_ms + DAY_MS)
}

/// The store window the 392-day ribbon of the big year view starting at
/// `ribbon_start_ms` is drawn from, a day wider on each side.
pub fn big_year_fetch_window(ribbon_start_ms: i64) -> (w: (i64, i64))
    requires
        i64::MIN + DAY_MS <= ribbon_start_ms <= i64::MAX - 393 * DAY_MS,
    ensures
        w.0 == ribbon_start_ms - DAY_MS,
        w.1 == ribbon_start_ms + 393 * DAY_MS,
{
    (ribbon_start_ms - DAY_MS, ribbon_start_ms + 393 * DAY_MS)
}

/// One calendar in a view's legend: which calendar, and what it is called.
#[derive(Debug, PartialEq, Eq)]
pub struct LegendEntry {
    pub calendar_id: i64,
    pub name: String,
}

/// A calendar as the store lists it, for naming legends.
#[derive(Debug)]
pub struct CalendarName {
    pub id: i64,
    pub summary: String,
}

/// The name the first calendar of `cals` with id `id` has, if any.
pub open spec fn name_of(cals: Seq<CalendarName>, id: i64) -> Option<Seq<char>>
    decreases cals.len(),
{
    if cals.len() == 0 {
        None
    } else if cals[0].id == id {
        Some(cals[0].summary@)
    } else {
        name_of(cals.drop_first(), id)
    }
}

fn find_name(cals: &[CalendarName], id: i64) -> (r: Option<String>)
    ensures
        match name_of(cals@, id) {
            Some(n) => r matches Some(s) && s@ == n,
            None => r is None,
        },
{
    let mut i: usize = 0;
    assert(cals@.skip(0) =~= cals@);
    while i < cals.len()
        invariant
            i <= cals@.len(),
            name_of(cals@, id) == name_of(cals@.skip(i as int), id),
        decreases cals@.len() - i,
    {
        let ghost rest = cals@.skip(i as int);
        assert(rest[0] == cals@[i as int]);
        assert(rest.drop_first() =~= cals@.skip(i + 1));
        if cals[i].id == id {
            return Some(owned(cals[i].summary.as_str()));
        }
        i = i + 1;
    }
    None
}

/// Gives each legend entry its calendar's real name. The legend is built
/// from events alone and carries placeholders; an entry whose calendar has
/// since been removed keeps its placeholder rather than being dropped.
pub fn name_legend(legend: &mut Vec<LegendEntry>, cals: &[CalendarName])
    ensures
        final(legend)@.len() == old(legend)@.len(),
        forall|i: int|
            0 <= i < old(legend)@.len() ==> (#[trigger] final(legend)@[i]).calendar_id
                == old(legend)@[i].calendar_id && final(legend)@[i].name@ == match name_of(
                cals@,
                old(legend)@[i].calendar_id,
            ) {
                Some(n) => n,
                None => old(legend)@[i].name@,
            },
{
    let ghost before = legend@;
    let mut i: usize = 0;
    while i < legend.len()
        invariant
            i <= legend@.len(),
            legend@.len() == before.len(),
            forall|k: int|
                i <= k < before.len() ==> #[trigger] legend@[k] == before[k],
            forall|k: int|
                0 <= k < i ==> (#[trigger] legend@[k]).calendar_id == before[k].calendar_id
                    && legend@[k].name@ == match name_of(cals@, before[k].calendar_id) {
                    Some(n) => n,
                    None => before[k].name@,
                },
        decreases legend@.len() - i,
    {
        let id = legend[i].calendar_id;
        match find_name(cals, id) {
            Some(n) => {
                legend.set(i, LegendEntry { calendar_id: id, name: n });
            },
            None => {},
        }
        i = i + 1;
    }
}

} // verus!
