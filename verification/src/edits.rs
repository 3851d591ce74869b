//! An edit's patch: which of the form's fields it carries, the guard that
//! sends nothing when nothing changed, the version and times it is built
//! against, and the single retry after a conflict.

use vstd::prelude::*;
use crate::events::{reminders_view, Reminders, StoredEvent, When};
use crate::guests::{
    attendee_views, for_edit, guest_views, opt_view, verbatim, wire_views, Guest, WireAttendee,
};
use crate::text::{owned, str_eq};
use crate::writes::{guests_to_send, sends_reminders, EditTimes, CONFLICT_GUESTS};

verus! {

/// What the edit form sends back.
pub struct EditForm {
    pub summary: Option<String>,
    pub location: Option<String>,
    pub description: Option<String>,
    /// The form's times, in the clicked occurrence's coordinates.
    pub when: When,
    /// Repeat: `None` untouched, `Some(None)` Never, `Some(Some(rule))` a
    /// chosen rule.
    pub recurrence: Option<Option<String>>,
    /// The guest list, `None` when the form left it alone.
    pub guests: Option<Vec<Guest>>,
    /// The reminder settings, `None` when the form left them alone.
    pub reminders: Option<Reminders>,
}

/// What an edit's patch carries: for each field of the form, whether it
/// goes; the times it goes with, already carried onto the target, and the
/// zone they are described in; and the guest list it goes with.
pub struct EditPatch {
    pub summary: bool,
    pub location: bool,
    pub description: bool,
    pub times: Option<(When, String)>,
    pub recurrence: bool,
    pub attendees: Option<Vec<WireAttendee>>,
    pub reminders: bool,
}

/// A [`When`] as values.
pub open spec fn when_view(w: When) -> (bool, i64, i64, Seq<char>, Seq<char>) {
    match w {
        When::Timed { start_ms, end_ms } => (false, start_ms, end_ms, Seq::empty(), Seq::empty()),
        When::AllDay { start_date, end_date } => (true, 0, 0, start_date@, end_date@),
    }
}

/// Two sides of an edit's times read the same only when they are the same
/// shape with the same start and the same end (instants, or dates): a
/// lengthened meeting, an earlier start, a moved date are all changes.
pub proof fn law_times_compare_by_start_and_end(a: When, b: When)
    requires
        when_view(a) == when_view(b),
    ensures
        (a is Timed) == (b is Timed),
        a matches When::Timed { start_ms: s1, end_ms: e1 } ==> (b matches When::Timed {
            start_ms: s2,
            end_ms: e2,
        } && s1 == s2 && e1 == e2),
        a matches When::AllDay { start_date: s1, end_date: e1 } ==> (b matches When::AllDay {
            start_date: s2,
            end_date: e2,
        } && s1@ == s2@ && e1@ == e2@),
{
}

fn same_text(a: &Option<String>, b: &Option<String>) -> (r: bool)
    ensures
        r == (opt_view(*a) == opt_view(*b)),
{
    match (a, b) {
        (Some(x), Some(y)) => str_eq(x.as_str(), y.as_str()),
        (None, None) => true,
        _ => false,
    }
}

fn same_when(a: &When, b: &When) -> (r: bool)
    ensures
        r == (when_view(*a) == when_view(*b)),
{
    match (a, b) {
        (When::Timed { start_ms: s1, end_ms: e1 }, When::Timed { start_ms: s2, end_ms: e2 }) => *s1
            == *s2 && *e1 == *e2,
        (
            When::AllDay { start_date: s1, end_date: e1 },
            When::AllDay { start_date: s2, end_date: e2 },
        ) => str_eq(s1.as_str(), s2.as_str()) && str_eq(e1.as_str(), e2.as_str()),
        _ => false,
    }
}

/// Whether an edit's patch has nothing in it.
pub open spec fn patch_is_empty(p: EditPatch) -> bool {
    !p.summary && !p.location && !p.description && p.times is None && !p.recurrence
        && p.attendees is None && !p.reminders
}

/// The patch an edit sends: a diff, so a field the user did not touch is
/// absent and somebody else's concurrent change to it survives.
///
/// - The text fields go when the form's value differs from the row the
///   user was looking at.
/// - The times go when the form's `when`, carried onto the target
///   ([`EditTimes::after`]), differs from the target as it stands, or its
///   zone does; they go as carried, never as the form's own values.
/// - Repeat goes whenever the form touched it.
/// - The guest list goes only when the rebuilt list differs from the
///   stored one ([`guests_to_send`]), and the reminders only when they
///   differ from the row's ([`sends_reminders`]).
pub fn edit_patch(row: &StoredEvent, times: EditTimes, form: &EditForm) -> (p: EditPatch)
    ensures
        p.summary == (opt_view(form.summary) != opt_view(row.summary)),
        p.location == (opt_view(form.location) != opt_view(row.location)),
        p.description == (opt_view(form.description) != opt_view(row.description)),
        (p.times is None) == (when_view(times.after) == when_view(times.before) && times.after_zone@
            == times.zone@),
        p.times matches Some(t) ==> when_view(t.0) == when_view(times.after) && t.1@
            == times.after_zone@,
        p.recurrence == (form.recurrence is Some),
        match form.guests {
            None => p.attendees is None,
            Some(w) => if for_edit(attendee_views(row.attendees@), guest_views(w@)) == verbatim(
                attendee_views(row.attendees@),
            ) {
                p.attendees is None
            } else {
                p.attendees matches Some(out) && wire_views(out@) == for_edit(
                    attendee_views(row.attendees@),
                    guest_views(w@),
                )
            },
        },
        p.reminders == (form.reminders matches Some(w) && reminders_view(w) != reminders_view(
            row.reminders,
        )),
{
    let summary = !same_text(&form.summary, &row.summary);
    let location = !same_text(&form.location, &row.location);
    let description = !same_text(&form.description, &row.description);
    let unmoved = same_when(&times.after, &times.before) && str_eq(
        times.after_zone.as_str(),
        times.zone.as_str(),
    );
    let t = if unmoved {
        None
    } else {
        Some((times.after, times.after_zone))
    };
    let attendees = match &form.guests {
        Some(w) => guests_to_send(row.attendees.as_slice(), Some(w.as_slice())),
        None => guests_to_send(row.attendees.as_slice(), None),
    };
    let reminders = match &form.reminders {
        Some(w) => sends_reminders(&row.reminders, Some(w)),
        None => sends_reminders(&row.reminders, None),
    };
    EditPatch {
        summary,
        location,
        description,
        times: t,
        recurrence: form.recurrence.is_some(),
        attendees,
        reminders,
    }
}

impl EditPatch {
    /// Whether there is nothing to send. An empty patch is not harmless: on
    /// the form's path it notifies every guest, about an edit nobody made,
    /// so an edit that changed nothing sends no request at all.
    pub fn is_empty(&self) -> (r: bool)
        ensures
            r == patch_is_empty(*self),
    {
        !self.summary && !self.location && !self.description && self.times.is_none()
            && !self.recurrence && self.attendees.is_none() && !self.reminders
    }

    /// Whether the patch replaces the guest list — the one field a conflict
    /// cannot be retried with.
    pub fn sends_guests(&self) -> (r: bool)
        ensures
            r == (self.attendees is Some),
    {
        self.attendees.is_some()
    }
}

/// The request an edit makes: its patch, or none at all when the patch is
/// empty — the edit then ends without a request, since an empty patch on
/// the form's path would notify every guest about an edit nobody made.
pub fn patch_to_send(p: EditPatch) -> (r: Option<EditPatch>)
    ensures
        patch_is_empty(p) ==> r is None,
        !patch_is_empty(p) ==> r == Some(p),
{
    if p.is_empty() {
        None
    } else {
        Some(p)
    }
}

/// Whether a "this and following" save is refused as changing nothing,
/// before either of the split's writes: the row is a plain occurrence of
/// the series (not one somebody already moved, whose split would change
/// the tail even with the form untouched), and the edit's patch of it,
/// built against the row itself, is empty.
pub fn following_changes_nothing(row: &StoredEvent, patch: &EditPatch) -> (r: bool)
    ensures
        r == (row.original_start_utc is None && patch_is_empty(*patch)),
{
    row.original_start_utc.is_none() && patch.is_empty()
}

/// The version and the times an edit's patch is built against: those of the
/// resource being patched, never the row on screen's unless the patch lands
/// on that row. `event_id` is the resource the patch lands on; `target` is
/// that resource as Google returned it, when it is another one. `None`
/// when it is another one and has not been read yet: read it first.
pub fn edit_basis(event_id: &str, row: &StoredEvent, target: Option<&StoredEvent>) -> (r: Option<
    (i64, i64, Option<String>),
>)
    ensures
        event_id@ == row.google_id@ ==> (r matches Some(b) && b.0 == row.start_utc && b.1
            == row.end_utc && opt_view(b.2) == opt_view(row.etag)),
        event_id@ != row.google_id@ ==> match target {
            Some(t) => r matches Some(b) && b.0 == t.start_utc && b.1 == t.end_utc && opt_view(b.2)
                == opt_view(t.etag),
            None => r is None,
        },
{
    let (source, known) = if str_eq(event_id, row.google_id.as_str()) {
        (row, true)
    } else {
        match target {
            Some(t) => (t, true),
            None => (row, false),
        }
    };
    if !known {
        return None;
    }
    let etag = match &source.etag {
        Some(e) => Some(owned(e.as_str())),
        None => None,
    };
    Some((source.start_utc, source.end_utc, etag))
}

/// How a patch came back.
pub enum PatchOutcome {
    /// Google applied it.
    Landed,
    /// Google refused it as built against an older version (`412`); the
    /// error as the client reported it.
    Conflict(String),
    /// Any other failure, as the client reported it.
    Failed(String),
}

/// What an edit does once its patch comes back.
#[derive(PartialEq, Eq, Debug)]
pub enum EditNext {
    /// The edit is done.
    Done,
    /// Re-read the target, rebuild the patch against where it now is
    /// ([`edit_basis`], [`edit_patch`]) and send it once more.
    RetryAgainstFresh,
    /// Stop and report this.
    Stop(String),
}

/// The one retry after a conflict. A first patch that meets a newer version
/// is rebuilt against it and sent once more, since every field but the
/// guest list is a diff the other edit survives; one that replaces the
/// guest list is refused instead ([`CONFLICT_GUESTS`]), since re-sending
/// the list as it was read would un-invite whoever was added since. The
/// retry itself is never retried: its conflict is reported as the client
/// gave it. Every other failure is reported as given.
pub fn after_patch(first_attempt: bool, sends_guests: bool, outcome: PatchOutcome) -> (n: EditNext)
    ensures
        match outcome {
            PatchOutcome::Landed => n == EditNext::Done,
            PatchOutcome::Failed(e) => n == EditNext::Stop(e),
            PatchOutcome::Conflict(e) => if !first_attempt {
                n == EditNext::Stop(e)
            } else if sends_guests {
                n matches EditNext::Stop(m) && m@ == CONFLICT_GUESTS@
            } else {
                n == EditNext::RetryAgainstFresh
            },
        },
        n is RetryAgainstFresh ==> first_attempt && !sends_guests,
{
    match outcome {
        PatchOutcome::Landed => EditNext::Done,
        PatchOutcome::Failed(e) => EditNext::Stop(e),
        PatchOutcome::Conflict(e) => {
            if !first_attempt {
                EditNext::Stop(e)
            } else if sends_guests {
                EditNext::Stop(owned(CONFLICT_GUESTS))
            } else {
                EditNext::RetryAgainstFresh
            }
        },
    }
}

/// The one retry of an answer (an RSVP) after a conflict. Unlike an edit's
/// guest list, an answer is rebuilt from the newer version's own list
/// ([`crate::writes::answer_retry`]) with only the user's row changed, so
/// nobody added since is dropped: a first conflict is always retried, the
/// retry's own conflict is reported as the client gave it, and every other
/// failure is reported as given.
pub fn after_answer(first_attempt: bool, outcome: PatchOutcome) -> (n: EditNext)
    ensures
        match outcome {
            PatchOutcome::Landed => n == EditNext::Done,
            PatchOutcome::Failed(e) => n == EditNext::Stop(e),
            PatchOutcome::Conflict(e) => if first_attempt {
                n == EditNext::RetryAgainstFresh
            } else {
                n == EditNext::Stop(e)
            },
        },
{
    match outcome {
        PatchOutcome::Landed => EditNext::Done,
        PatchOutcome::Failed(e) => EditNext::Stop(e),
        PatchOutcome::Conflict(e) => {
            if first_attempt {
                EditNext::RetryAgainstFresh
            } else {
                EditNext::Stop(e)
            }
        },
    }
}

} // verus!
