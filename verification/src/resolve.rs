//! Which Google event a write lands on, step by step. A write names the row
//! that was clicked and a scope; between it and the id it finally writes to
//! stand up to two questions only Google can answer — where the series'
//! master starts, and which instance of it is the clicked occurrence — and
//! each step here is the decision made between them.

use vstd::prelude::*;
use crate::events::{resolve_instance_id, series_id, series_of, ResolveError, StoredEvent};
use crate::text::{owned, str_eq};

verus! {

/// The next thing a write has to do to know its target.
#[derive(Debug, PartialEq, Eq)]
pub enum Resolution {
    /// Read the series' master: whether "this and following" cuts the
    /// series depends on where the master starts.
    ReadMaster { master_id: String },
    /// Ask Google which instance of `master` is the clicked occurrence,
    /// looking in `[time_min_ms, time_max_ms)`; `fallback` is the row's own
    /// id, for an empty answer on an exception row.
    LookupInstance { master: String, fallback: String, time_min_ms: i64, time_max_ms: i64 },
    /// The target is known. `whole_series` says whether the write is to a
    /// whole series (or a one-off) rather than to one occurrence.
    Target { event_id: String, whole_series: bool },
}

/// The first step of resolving a write with `scope` (already checked to be
/// `this`, `all` or `following`) on `row`, clicked at `occurrence_start_ms`.
///
/// A row of no series has one target whatever the scope: itself. `all`
/// targets the series' master. `following` on a series needs the master
/// first. `this` on a series asks Google for the instance — for a series
/// master too, whose own id would be the whole series.
pub fn resolve_first(scope: &str, occurrence_start_ms: i64, row: &StoredEvent) -> (r: Resolution)
    requires
        series_of(row) is Some && scope@ != "following"@ && scope@ != "all"@
            ==> occurrence_start_ms + 1000 <= i64::MAX,
    ensures
        match series_of(row) {
            None => r matches Resolution::Target { event_id, whole_series } && event_id@
                == row.google_id@ && whole_series == (scope@ != "this"@),
            Some(m) => if scope@ == "following"@ {
                r matches Resolution::ReadMaster { master_id } && master_id@ == m
            } else if scope@ == "all"@ {
                r matches Resolution::Target { event_id, whole_series } && event_id@ == m
                    && whole_series
            } else {
                r matches Resolution::LookupInstance { master, fallback, time_min_ms, time_max_ms }
                    && master@ == m && fallback@ == row.google_id@ && time_min_ms
                    == occurrence_start_ms && time_max_ms == occurrence_start_ms + 1000
            },
        },
{
    proof {
        reveal_strlit("following");
        reveal_strlit("all");
        reveal_strlit("this");
    }
    match series_id(row) {
        None => Resolution::Target {
            event_id: owned(row.google_id.as_str()),
            whole_series: !str_eq(scope, "this"),
        },
        Some(m) => {
            if str_eq(scope, "following") {
                Resolution::ReadMaster { master_id: owned(m) }
            } else if str_eq(scope, "all") {
                Resolution::Target { event_id: owned(m), whole_series: true }
            } else {
                let (time_min_ms, time_max_ms) = crate::events::instance_lookup_window(
                    occurrence_start_ms,
                );
                Resolution::LookupInstance {
                    master: owned(m),
                    fallback: owned(row.google_id.as_str()),
                    time_min_ms,
                    time_max_ms,
                }
            }
        },
    }
}

/// What "this and following" comes to once the master is read.
#[derive(Debug, PartialEq, Eq)]
pub enum FollowingOutcome {
    /// Cut the series at this slot: a split for an edit, a truncation for a
    /// delete.
    Cut { split_at_ms: i64 },
    /// Nothing lies before the cut, so the write is to the whole series:
    /// this master.
    WholeSeries { master_id: String },
}

/// The step after the master `master_id`, whose first occurrence is at
/// `master_start_utc`, was read for a "this and following" write on `row`
/// clicked at `occurrence_start_ms`. The cut is aimed at the occurrence's
/// slot on the rule's grid; at or before the first occurrence there is
/// nothing to keep, and the write goes to the whole series instead.
pub fn resolve_following(
    row: &StoredEvent,
    occurrence_start_ms: i64,
    master_id: &str,
    master_start_utc: i64,
) -> (r: FollowingOutcome)
    ensures
        ({
            let at = match row.original_start_utc {
                Some(o) => o,
                None => occurrence_start_ms,
            };
            &&& at > master_start_utc ==> r == FollowingOutcome::Cut { split_at_ms: at }
            &&& at <= master_start_utc ==> (r matches FollowingOutcome::WholeSeries { master_id: m }
                && m@ == master_id@)
        }),
{
    let at = crate::writes::split_point(row.original_start_utc, occurrence_start_ms);
    if crate::writes::following_splits(at, master_start_utc) {
        FollowingOutcome::Cut { split_at_ms: at }
    } else {
        FollowingOutcome::WholeSeries { master_id: owned(master_id) }
    }
}

/// The step after the instances lookup answered with `found`: the target
/// is the clicked occurrence's own id, or the failure that keeps "this
/// occurrence" from widening into the whole series.
pub fn resolve_lookup(found: &[String], master: &str, fallback: &str) -> (r: Result<
    Resolution,
    ResolveError,
>)
    ensures
        found.len() > 0 ==> (r matches Ok(Resolution::Target { event_id, whole_series }) && event_id@
            == found[0]@ && !whole_series),
        found.len() == 0 && master@ != fallback@ ==> (r matches Ok(
            Resolution::Target { event_id, whole_series },
        ) && event_id@ == fallback@ && !whole_series),
        found.len() == 0 && master@ == fallback@ ==> r == Err::<Resolution, ResolveError>(
            ResolveError::OccurrenceNotFound,
        ),
{
    match resolve_instance_id(found, master, fallback) {
        Ok(id) => Ok(Resolution::Target { event_id: id, whole_series: false }),
        Err(e) => Err(e),
    }
}

} // verus!
