//! The rules an event's popover and its writes are decided by: whether it
//! may be answered or edited, whether it repeats, which Google event a write
//! lands on, and how an edit's times are carried onto that event.

use vstd::prelude::*;
use crate::guests::{attendee_views, has_self, Attendee, AttendeeView};
use crate::text::{owned, str_eq};
use crate::zone::{all_day_span_dates, date_in_zone, offset_in_range, local_day, span_days};
use crate::zone::{instant_moved, names_utc, shifted_like, utc_moved};
use crate::civil::{lemma_names_day_unique, names_day, shifted_date, shifted_date_result};

verus! {

/// An event as the store holds it.
#[derive(Debug)]
pub struct StoredEvent {
    pub id: i64,
    pub calendar_id: i64,
    pub google_id: String,
    pub summary: Option<String>,
    pub location: Option<String>,
    pub start_utc: i64,
    pub end_utc: i64,
    pub start_tz: String,
    pub end_tz: String,
    pub is_all_day: bool,
    /// The series' rule, on a series master.
    pub recurrence: Option<String>,
    /// The master's id, on a materialised exception.
    pub recurring_event_id: Option<String>,
    /// Where the rule put an exception before somebody moved it.
    pub original_start_utc: Option<i64>,
    pub status: String,
    pub self_response: Option<String>,
    pub conference_uri: Option<String>,
    pub color_hex: Option<String>,
    pub calendar_timezone: String,
    pub description: Option<String>,
    pub etag: Option<String>,
    pub sequence: i64,
    pub organizer_email: Option<String>,
    pub guests_can_modify: bool,
    pub attendees: Vec<Attendee>,
    /// What the event asks for: the calendar's defaults, or its own.
    pub reminders: Reminders,
    /// What "the calendar's defaults" means for this event.
    pub calendar_default_reminders: Vec<Reminder>,
}

/// One reminder: how (`popup`, `email`) and how many minutes before.
#[derive(Debug, PartialEq, Eq)]
pub struct Reminder {
    pub method: String,
    pub minutes: i64,
}

/// An event's reminder settings: the calendar's defaults, or these
/// overrides.
#[derive(Debug, PartialEq, Eq, Default)]
pub struct Reminders {
    pub use_default: bool,
    pub overrides: Vec<Reminder>,
}

/// A reminder as text and a count.
pub open spec fn reminder_view(r: Reminder) -> (Seq<char>, i64) {
    (r.method@, r.minutes)
}

/// Reminder settings as values.
pub open spec fn reminders_view(r: Reminders) -> (bool, Seq<(Seq<char>, i64)>) {
    (r.use_default, r.overrides@.map_values(|o: Reminder| reminder_view(o)))
}

/// Two reminder settings read the same exactly when both use the
/// calendar's defaults or neither does, and they list the same reminders in
/// the same order — each with the same method and the same number of
/// minutes. Moving a reminder from ten minutes to thirty is a change.
pub proof fn law_reminders_compare_by_every_field(a: Reminders, b: Reminders)
    ensures
        reminders_view(a) == reminders_view(b) <==> {
            &&& a.use_default == b.use_default
            &&& a.overrides@.len() == b.overrides@.len()
            &&& forall|k: int|
                0 <= k < a.overrides@.len() ==> (#[trigger] a.overrides@[k]).method@
                    == b.overrides@[k].method@ && a.overrides@[k].minutes == b.overrides@[k].minutes
        },
{
    let va = reminders_view(a).1;
    let vb = reminders_view(b).1;
    assert(va.len() == a.overrides@.len());
    assert(vb.len() == b.overrides@.len());
    if reminders_view(a) == reminders_view(b) {
        assert(va == vb);
        assert(a.overrides@.len() == b.overrides@.len());
        assert forall|k: int| 0 <= k < a.overrides@.len() implies (#[trigger] a.overrides@[k]).method@
            == b.overrides@[k].method@ && a.overrides@[k].minutes == b.overrides@[k].minutes by {
            assert(va[k] == reminder_view(a.overrides@[k]));
            assert(vb[k] == reminder_view(b.overrides@[k]));
            assert(va[k] == vb[k]);
        }
    }
    if a.use_default == b.use_default && a.overrides@.len() == b.overrides@.len() && (forall|k: int|
        0 <= k < a.overrides@.len() ==> (#[trigger] a.overrides@[k]).method@ == b.overrides@[k].method@
            && a.overrides@[k].minutes == b.overrides@[k].minutes) {
        assert(va =~= vb);
    }
}

/// Whether a calendar's access role lets omacal write to it.
pub open spec fn writable_role(role: Seq<char>) -> bool {
    role == "owner"@ || role == "writer"@
}

fn is_writable_role(role: &str) -> (r: bool)
    ensures
        r == writable_role(role@),
{
    proof {
        reveal_strlit("owner");
        reveal_strlit("writer");
    }
    str_eq(role, "owner") || str_eq(role, "writer")
}

/// Whether the RSVP controls are shown: never in demo mode, only on a
/// calendar omacal can write to, and only when one of the guests is the
/// signed-in user — an RSVP rewrites the whole guest list, so without a row
/// of ours there is nothing to change and everything to damage.
pub fn can_respond(demo: bool, access_role: &str, attendees: &[Attendee]) -> (r: bool)
    ensures
        r == (!demo && writable_role(access_role@) && has_self(attendee_views(attendees@))),
{
    if demo || !is_writable_role(access_role) {
        return false;
    }
    let ghost s = attendee_views(attendees@);
    let mut i: usize = 0;
    while i < attendees.len()
        invariant
            i <= attendees.len(),
            !demo,
            writable_role(access_role@),
            s == attendee_views(attendees@),
            forall|k: int| 0 <= k < i ==> !(#[trigger] s[k]).is_self,
        decreases attendees.len() - i,
    {
        assert(s[i as int] == attendees@[i as int]@);
        if attendees[i].is_self {
            assert(s[i as int].is_self);
            return true;
        }
        i = i + 1;
    }
    assert(s.len() == attendees.len());
    assert(!has_self(s));
    false
}

/// Whether the edit and delete controls are shown: never in demo mode, and
/// only on a calendar omacal can write to. Unlike [`can_respond`] it asks
/// for no guest row of ours — an event nobody else is on can be edited.
pub fn can_edit(demo: bool, access_role: &str) -> (r: bool)
    ensures
        r == (!demo && writable_role(access_role@)),
{
    !demo && is_writable_role(access_role)
}

/// Whether an event belongs to a series: the series master itself, or a
/// materialised exception overriding one of its occurrences.
pub fn is_recurring(recurrence: &Option<String>, recurring_event_id: &Option<String>) -> (r: bool)
    ensures
        r == (recurrence is Some || recurring_event_id is Some),
{
    recurrence.is_some() || recurring_event_id.is_some()
}

/// Which Google event an RSVP or an edit targets.
#[derive(Debug, PartialEq, Eq)]
pub enum Target {
    /// Patch this id directly.
    Master(String),
    /// Resolve the occurrence through an instances lookup first; `fallback`
    /// is the stored row's own id, used when the lookup finds nothing and
    /// the row is already a materialised exception.
    Instance { master: String, fallback: String },
}

/// Which Google event id a write with `scope` targets, for a row whose
/// series (if any) is `recurring_event_id` and whose own id is `own_id`.
///
/// `"all"` patches the series master — the row's series, or the row itself
/// when it has none. Any other scope on a row of a series resolves the
/// clicked occurrence first. A row of no series is one event, one id.
pub fn target_event_id(scope: &str, recurring_event_id: Option<&str>, own_id: &str) -> (t: Target)
    ensures
        scope@ == "all"@ ==> (t matches Target::Master(id) && id@ == match recurring_event_id {
            Some(m) => m@,
            None => own_id@,
        }),
        scope@ != "all"@ ==> match recurring_event_id {
            Some(m) => t matches Target::Instance { master, fallback } && master@ == m@
                && fallback@ == own_id@,
            None => t matches Target::Master(id) && id@ == own_id@,
        },
{
    proof {
        reveal_strlit("all");
    }
    if str_eq(scope, "all") {
        match recurring_event_id {
            Some(master) => Target::Master(owned(master)),
            None => Target::Master(owned(own_id)),
        }
    } else {
        match recurring_event_id {
            Some(master) => Target::Instance { master: owned(master), fallback: owned(own_id) },
            None => Target::Master(owned(own_id)),
        }
    }
}

/// The series a row belongs to: the master it is an exception of, or — for
/// a series master, whose own id names the series — its own id; `None` for
/// a one-off.
pub open spec fn series_of(ev: &StoredEvent) -> Option<Seq<char>> {
    match ev.recurring_event_id {
        Some(m) => Some(m@),
        None => match ev.recurrence {
            Some(_) => Some(ev.google_id@),
            None => None,
        },
    }
}

/// [`series_of`], as a write resolves it.
pub fn series_id(ev: &StoredEvent) -> (r: Option<&str>)
    ensures
        match r {
            Some(s) => series_of(ev) == Some(s@),
            None => series_of(ev) is None,
        },
{
    match &ev.recurring_event_id {
        Some(m) => Some(m.as_str()),
        None => match &ev.recurrence {
            Some(_) => Some(ev.google_id.as_str()),
            None => None,
        },
    }
}

/// The `[timeMin, timeMax)` window, in milliseconds, the instances lookup
/// for "this occurrence" is bracketed with: the clicked occurrence's own
/// start, to one second after it.
///
/// `timeMin` bounds an instance's end, exclusively, so starting the window
/// any earlier would admit the occurrence before a back-to-back one — which
/// Google lists first. And the window is the clicked occurrence's, never
/// the stored row's start: every expansion of a series shares that row.
pub fn instance_lookup_window(occurrence_start_ms: i64) -> (w: (i64, i64))
    requires
        occurrence_start_ms + 1000 <= i64::MAX,
    ensures
        w.0 == occurrence_start_ms,
        w.1 == occurrence_start_ms + 1000,
{
    (occurrence_start_ms, occurrence_start_ms + 1000)
}

/// Why an occurrence could not be resolved to a Google event id.
#[derive(Debug, PartialEq, Eq)]
pub enum ResolveError {
    /// The lookup found nothing and the clicked row is the bare series
    /// master: falling back to it would widen "this occurrence" into the
    /// whole series.
    OccurrenceNotFound,
}

impl ResolveError {
    /// What the user is told.
    pub fn message(&self) -> (s: String)
        ensures
            s@ == "could not find that occurrence on the calendar"@,
    {
        owned("could not find that occurrence on the calendar")
    }
}

/// Which id to patch once the instances lookup has answered with `found`,
/// the ids it listed in start order.
///
/// The first one found is the clicked occurrence. When nothing is found the
/// row's own id stands in only if the row is an exception of `master` (its
/// id differs from the master's); on the bare master it fails instead.
pub fn resolve_instance_id(found: &[String], master: &str, fallback: &str) -> (r: Result<
    String,
    ResolveError,
>)
    ensures
        found.len() > 0 ==> (r matches Ok(id) && id@ == found[0]@),
        found.len() == 0 && master@ != fallback@ ==> (r matches Ok(id) && id@ == fallback@),
        found.len() == 0 && master@ == fallback@ ==> r == Err::<String, ResolveError>(
            ResolveError::OccurrenceNotFound,
        ),
{
    if found.len() > 0 {
        Ok(owned(found[0].as_str()))
    } else if !str_eq(master, fallback) {
        Ok(owned(fallback))
    } else {
        Err(ResolveError::OccurrenceNotFound)
    }
}

/// The signed-in user's own answer on a guest list: the first row marked as
/// theirs, or none.
pub open spec fn self_response(s: Seq<AttendeeView>) -> Option<Seq<char>>
    decreases s.len(),
{
    if s.len() == 0 {
        None
    } else if s[0].is_self {
        Some(s[0].response_status)
    } else {
        self_response(s.drop_first())
    }
}

/// [`self_response`], executable: the answer the signed-in user gave, read
/// off the guest list the same way a sync reads it.
pub fn self_response_of(attendees: &[Attendee]) -> (r: Option<String>)
    ensures
        crate::guests::opt_view(r) == self_response(attendee_views(attendees@)),
{
    let ghost s = attendee_views(attendees@);
    assert(s.skip(0) =~= s);
    let mut i: usize = 0;
    while i < attendees.len()
        invariant
            i <= attendees.len(),
            s == attendee_views(attendees@),
            self_response(s) == self_response(s.skip(i as int)),
        decreases attendees.len() - i,
    {
        let ghost rest = s.skip(i as int);
        assert(rest[0] == s[i as int]);
        assert(s[i as int] == attendees@[i as int]@);
        assert(rest.drop_first() =~= s.skip(i + 1));
        if attendees[i].is_self {
            return Some(owned(attendees[i].response_status.as_str()));
        }
        i = i + 1;
    }
    assert(s.skip(i as int).len() == 0);
    None
}

/// Whether `b` is `a` with at most its version (`etag`, `sequence`), its
/// guest list and the user's own answer changed.
pub open spec fn unchanged_but_version(a: StoredEvent, b: StoredEvent) -> bool {
    &&& b.id == a.id
    &&& b.calendar_id == a.calendar_id
    &&& b.google_id == a.google_id
    &&& b.summary == a.summary
    &&& b.location == a.location
    &&& b.start_utc == a.start_utc
    &&& b.end_utc == a.end_utc
    &&& b.start_tz == a.start_tz
    &&& b.end_tz == a.end_tz
    &&& b.is_all_day == a.is_all_day
    &&& b.recurrence == a.recurrence
    &&& b.recurring_event_id == a.recurring_event_id
    &&& b.original_start_utc == a.original_start_utc
    &&& b.status == a.status
    &&& b.conference_uri == a.conference_uri
    &&& b.color_hex == a.color_hex
    &&& b.calendar_timezone == a.calendar_timezone
    &&& b.description == a.description
    &&& b.organizer_email == a.organizer_email
    &&& b.guests_can_modify == a.guests_can_modify
    &&& b.reminders == a.reminders
    &&& b.calendar_default_reminders == a.calendar_default_reminders
}

/// Folds what a patch (or a refresh) response carries back onto the stored
/// row: its version (`etag`, `sequence`), its guest list, and the user's own
/// answer derived from that list — so the grid shows an RSVP at once,
/// without waiting for the next sync. Nothing else on the row changes.
pub fn merge_patched(
    row: &mut StoredEvent,
    etag: Option<String>,
    sequence: i64,
    attendees: Vec<Attendee>,
)
    ensures
        final(row).etag == etag,
        final(row).sequence == sequence,
        final(row).attendees@ == attendees@,
        crate::guests::opt_view(final(row).self_response) == self_response(
            attendee_views(attendees@),
        ),
        unchanged_but_version(*old(row), *final(row)),
{
    let derived = self_response_of(attendees.as_slice());
    row.etag = etag;
    row.sequence = sequence;
    row.attendees = attendees;
    row.self_response = derived;
}

/// Which zone an edit describes both sides of its diff in: a timed event
/// keeps the zone it is stored in, never the editing machine's; an all-day
/// event takes the calendar's, the zone its dates were resolved in.
pub fn edit_zone<'a>(is_all_day: bool, cal_tz: &'a str, event_tz: &'a str) -> (z: &'a str)
    ensures
        z == if is_all_day {
            cal_tz
        } else {
            event_tz
        },
{
    if is_all_day {
        cal_tz
    } else {
        event_tz
    }
}

/// When an event happens: two instants, or — all day — the first day and
/// the exclusive day after the last, as `yyyy-mm-dd`.
#[derive(Debug, PartialEq, Eq)]
pub enum When {
    Timed { start_ms: i64, end_ms: i64 },
    AllDay { start_date: String, end_date: String },
}

impl When {
    /// Whether this is the all-day shape.
    pub fn is_all_day(&self) -> (r: bool)
        ensures
            r == (*self is AllDay),
    {
        match self {
            When::Timed { .. } => false,
            When::AllDay { .. } => true,
        }
    }
}

/// The resource being patched, as a [`When`]: its instants for a timed row,
/// and for an all-day row the dates those instants fall on in `zone`.
pub fn when_of(is_all_day: bool, start_ms: i64, end_ms: i64, zone: &str) -> (w: When)
    ensures
        !is_all_day ==> w == (When::Timed { start_ms, end_ms }),
        is_all_day ==> (w matches When::AllDay { start_date, end_date } && (exists|o: int|
            offset_in_range(o) && #[trigger] names_day(start_date@, local_day(start_ms as int, o)))
            && (exists|o: int|
            offset_in_range(o) && #[trigger] names_day(end_date@, local_day(end_ms as int, o)))),
        names_utc(zone@) ==> reads_as_utc(w, start_ms as int, end_ms as int),
{
    if is_all_day {
        let start_date = date_in_zone(start_ms, zone);
        let end_date = date_in_zone(end_ms, zone);
        let w = When::AllDay { start_date, end_date };
        assert(w matches When::AllDay { start_date: sd, end_date: ed } && sd == start_date
            && ed == end_date);
        w
    } else {
        When::Timed { start_ms, end_ms }
    }
}

/// Whether `r` is the date of `target_ms` moved by the whole days the user
/// moved the date of `from_ms` to `to`: each instant's date read at some
/// offset a zone can have (which one is the zone database's answer), and
/// moved as [`shifted_date`] moves it.
pub open spec fn date_moved(target_ms: int, from_ms: int, to: Seq<char>, r: Seq<char>) -> bool {
    exists|t: Seq<char>, f: Seq<char>, ot: int, of: int|
        #![trigger names_day(t, local_day(target_ms, ot)), names_day(f, local_day(from_ms, of))]
        offset_in_range(ot) && offset_in_range(of) && names_day(t, local_day(target_ms, ot))
            && names_day(f, local_day(from_ms, of)) && shifted_date_result(t, f, to, r)
}

/// Whether `w` is the form's `when` carried onto a target from
/// `target_start`/`target_end` as the movement from the anchor
/// (`anchor`/`anchor_end`): a timed form moves each instant on the zone's
/// clock ([`instant_moved`]), an all-day form moves each date by whole days
/// ([`date_moved`]), and the shape is the form's.
pub open spec fn moved_when(
    form: When,
    target_start: int,
    target_end: int,
    anchor: int,
    anchor_end: int,
    w: When,
) -> bool {
    match form {
        When::Timed { start_ms, end_ms } => w matches When::Timed { start_ms: s, end_ms: e }
            && instant_moved(target_start, anchor, start_ms as int, s as int) && instant_moved(
            target_end,
            anchor_end,
            end_ms as int,
            e as int,
        ),
        When::AllDay { start_date, end_date } => w matches When::AllDay {
            start_date: s,
            end_date: e,
        } && date_moved(target_start, anchor, start_date@, s@) && date_moved(
            target_end,
            anchor_end,
            end_date@,
            e@,
        ),
    }
}

/// Whether `w` is how the resource from `start` to `end` reads in UTC: its
/// instants, or the UTC dates they fall on.
pub open spec fn reads_as_utc(w: When, start: int, end: int) -> bool {
    match w {
        When::Timed { start_ms, end_ms } => start_ms == start && end_ms == end,
        When::AllDay { start_date, end_date } => names_day(start_date@, local_day(start, 0))
            && names_day(end_date@, local_day(end, 0)),
    }
}

/// [`date_moved`] in UTC: both dates read at offset zero.
pub open spec fn date_moved_utc(target_ms: int, from_ms: int, to: Seq<char>, r: Seq<char>) -> bool {
    exists|t: Seq<char>, f: Seq<char>|
        #![trigger names_day(t, local_day(target_ms, 0)), names_day(f, local_day(from_ms, 0))]
        names_day(t, local_day(target_ms, 0)) && names_day(f, local_day(from_ms, 0))
            && shifted_date_result(t, f, to, r)
}

/// [`moved_when`] in UTC, whose offset is zero at every instant: a timed
/// form moves each instant by exactly the milliseconds the user moved the
/// anchor ([`utc_moved`]), an all-day form moves each date by the days
/// between the anchor's UTC date and the form's.
pub open spec fn moved_when_utc(
    form: When,
    target_start: int,
    target_end: int,
    anchor: int,
    anchor_end: int,
    w: When,
) -> bool {
    match form {
        When::Timed { start_ms, end_ms } => w matches When::Timed { start_ms: s, end_ms: e }
            && utc_moved(target_start, anchor, start_ms as int, s as int) && utc_moved(
            target_end,
            anchor_end,
            end_ms as int,
            e as int,
        ),
        When::AllDay { start_date, end_date } => w matches When::AllDay {
            start_date: s,
            end_date: e,
        } && date_moved_utc(target_start, anchor, start_date@, s@) && date_moved_utc(
            target_end,
            anchor_end,
            end_date@,
            e@,
        ),
    }
}

/// An untouched form moves nothing, in UTC whose readings cannot differ:
/// when the form reads as the clicked occurrence did (`anchor` to
/// `anchor_end`), the edit carries the target exactly as it reads — its own
/// instants, or its own dates — whatever the anchor, so a title-only save
/// on a series moves no part of it.
pub proof fn law_an_untouched_form_moves_nothing(
    form: When,
    target_start: int,
    target_end: int,
    anchor: int,
    anchor_end: int,
    w: When,
)
    requires
        i64::MIN <= target_start <= i64::MAX,
        i64::MIN <= target_end <= i64::MAX,
        reads_as_utc(form, anchor, anchor_end),
        moved_when_utc(form, target_start, target_end, anchor, anchor_end, w),
    ensures
        reads_as_utc(w, target_start, target_end),
{
    match form {
        When::Timed { .. } => {},
        When::AllDay { start_date, end_date } => {
            let (t, f) = choose|t: Seq<char>, f: Seq<char>|
                #![trigger names_day(t, local_day(target_start, 0)), names_day(f, local_day(anchor, 0))]
                names_day(t, local_day(target_start, 0)) && names_day(f, local_day(anchor, 0))
                    && shifted_date_result(t, f, start_date@, w->start_date@);
            lemma_names_day_unique(f, start_date@, local_day(anchor, 0));
            let (t2, f2) = choose|t: Seq<char>, f: Seq<char>|
                #![trigger names_day(t, local_day(target_end, 0)), names_day(f, local_day(anchor_end, 0))]
                names_day(t, local_day(target_end, 0)) && names_day(f, local_day(anchor_end, 0))
                    && shifted_date_result(t, f, end_date@, w->end_date@);
            lemma_names_day_unique(f2, end_date@, local_day(anchor_end, 0));
        },
    }
}

/// An untouched all-day form moves nothing: when the form's date is the
/// anchor's date as it was read, the target keeps its own date.
pub proof fn law_an_untouched_all_day_date_moves_nothing(
    target: Seq<char>,
    anchor: Seq<char>,
    r: Seq<char>,
)
    requires
        shifted_date_result(target, anchor, anchor, r),
    ensures
        r == target,
{
}

/// The form's `when`, carried onto the target resource as the movement the
/// user made rather than as the form's own values.
///
/// The anchor is where the clicked occurrence was (`anchor`, `anchor_end`);
/// the form holds where the user put it. A timed form moves the target's
/// start and end by the same wall-clock movements ([`shifted_like`]); an
/// all-day form moves the target's dates by the same number of days
/// ([`shifted_date`]). The shape is the form's, so toggling all-day redefines
/// the event on both ends.
pub fn shifted_when(
    form: &When,
    target_start_ms: i64,
    target_end_ms: i64,
    anchor: i64,
    anchor_end: i64,
    zone: &str,
) -> (w: When)
    ensures
        moved_when(*form, target_start_ms as int, target_end_ms as int, anchor as int, anchor_end as int, w),
        names_utc(zone@) ==> moved_when_utc(
            *form,
            target_start_ms as int,
            target_end_ms as int,
            anchor as int,
            anchor_end as int,
            w,
        ),
        (*form is Timed) == (w is Timed),
        form matches When::Timed { start_ms, end_ms } ==> (w matches When::Timed {
            start_ms: s,
            end_ms: e,
        } && (target_start_ms == anchor ==> s == start_ms) && (target_end_ms == anchor_end ==> e
            == end_ms) && (start_ms == anchor ==> s == target_start_ms) && (end_ms == anchor_end
            ==> e == target_end_ms)),
{
    match form {
        When::Timed { start_ms, end_ms } => When::Timed {
            start_ms: shifted_like(target_start_ms, anchor, *start_ms, zone),
            end_ms: shifted_like(target_end_ms, anchor_end, *end_ms, zone),
        },
        When::AllDay { start_date, end_date } => {
            let target_start_date = date_in_zone(target_start_ms, zone);
            let anchor_date = date_in_zone(anchor, zone);
            let target_end_date = date_in_zone(target_end_ms, zone);
            let anchor_end_date = date_in_zone(anchor_end, zone);
            let s = shifted_date(target_start_date.as_str(), anchor_date.as_str(), start_date.as_str());
            let e = shifted_date(target_end_date.as_str(), anchor_end_date.as_str(), end_date.as_str());
            proof {
                let ot = choose|o: int| offset_in_range(o) && #[trigger] names_day(target_start_date@, local_day(target_start_ms as int, o));
                let of = choose|o: int| offset_in_range(o) && #[trigger] names_day(anchor_date@, local_day(anchor as int, o));
                assert(names_day(target_start_date@, local_day(target_start_ms as int, ot)) && names_day(anchor_date@, local_day(anchor as int, of)));
                assert(date_moved(target_start_ms as int, anchor as int, start_date@, s@));
                let et = choose|o: int| offset_in_range(o) && #[trigger] names_day(target_end_date@, local_day(target_end_ms as int, o));
                let ef = choose|o: int| offset_in_range(o) && #[trigger] names_day(anchor_end_date@, local_day(anchor_end as int, o));
                assert(names_day(target_end_date@, local_day(target_end_ms as int, et)) && names_day(anchor_end_date@, local_day(anchor_end as int, ef)));
                assert(date_moved(target_end_ms as int, anchor_end as int, end_date@, e@));
                if names_utc(zone@) {
                    assert(names_day(target_start_date@, local_day(target_start_ms as int, 0))
                        && names_day(anchor_date@, local_day(anchor as int, 0)));
                    assert(date_moved_utc(target_start_ms as int, anchor as int, start_date@, s@));
                    assert(names_day(target_end_date@, local_day(target_end_ms as int, 0))
                        && names_day(anchor_end_date@, local_day(anchor_end as int, 0)));
                    assert(date_moved_utc(target_end_ms as int, anchor_end as int, end_date@, e@));
                }
            }
            let w = When::AllDay { start_date: s, end_date: e };
            assert(w matches When::AllDay { start_date: ws, end_date: we } && ws == s && we == e);
            w
        },
    }
}

/// The two dates an all-day event covers, read in the calendar's zone
/// `cal_tz`: its first day and its last (inclusive) day; `None` for a timed
/// event, which has an instant rather than a date.
pub fn all_day_dates(event: &StoredEvent, cal_tz: &str) -> (r: Option<(String, String)>)
    ensures
        !event.is_all_day ==> r is None,
        event.is_all_day ==> (r matches Some(p) && exists|os: int, oe: int|
            offset_in_range(os) && offset_in_range(oe) && #[trigger] names_day(
                p.0@,
                span_days(local_day(event.start_utc as int, os), local_day(event.end_utc as int, oe)).0,
            ) && #[trigger] names_day(
                p.1@,
                span_days(local_day(event.start_utc as int, os), local_day(event.end_utc as int, oe)).1,
            )),
{
    if !event.is_all_day {
        return None;
    }
    let p = all_day_span_dates(event.start_utc, event.end_utc, cal_tz);
    let r = Some(p);
    assert(r matches Some(q) && q == p);
    r
}

/// What the popover is told about an event beyond its stored fields: which
/// controls it shows, whether it repeats, and an all-day event's days.
#[derive(Debug, PartialEq, Eq)]
pub struct DetailFlags {
    pub can_respond: bool,
    pub can_edit: bool,
    pub is_recurring: bool,
    /// The first and last (inclusive) day of an all-day event, in the
    /// calendar's zone; none for a timed event.
    pub start_date: Option<String>,
    pub end_date: Option<String>,
}

/// The flags the popover shows `event` with, on a calendar with
/// `access_role` and zone `cal_tz`.
pub fn detail_flags(event: &StoredEvent, access_role: &str, cal_tz: &str, demo: bool) -> (f: DetailFlags)
    ensures
        f.can_respond == (!demo && writable_role(access_role@) && has_self(
            attendee_views(event.attendees@),
        )),
        f.can_edit == (!demo && writable_role(access_role@)),
        f.is_recurring == (event.recurrence is Some || event.recurring_event_id is Some),
        !event.is_all_day ==> f.start_date is None && f.end_date is None,
        event.is_all_day ==> (f.start_date matches Some(s) && f.end_date matches Some(e) && exists|
            os: int,
            oe: int,
        |
            offset_in_range(os) && offset_in_range(oe) && #[trigger] names_day(
                s@,
                span_days(local_day(event.start_utc as int, os), local_day(event.end_utc as int, oe)).0,
            ) && #[trigger] names_day(
                e@,
                span_days(local_day(event.start_utc as int, os), local_day(event.end_utc as int, oe)).1,
            )),
{
    let (start_date, end_date) = match all_day_dates(event, cal_tz) {
        Some(p) => {
            let ghost sv = p.0@;
            let ghost ev = p.1@;
            let (s, e) = p;
            let r = (Some(s), Some(e));
            assert(r.0 matches Some(x) && r.1 matches Some(y) && x@ == sv && y@ == ev);
            r
        },
        None => (None, None),
    };
    DetailFlags {
        can_respond: can_respond(demo, access_role, event.attendees.as_slice()),
        can_edit: can_edit(demo, access_role),
        is_recurring: is_recurring(&event.recurrence, &event.recurring_event_id),
        start_date,
        end_date,
    }
}

} // verus!
