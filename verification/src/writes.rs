//! The decisions a write to Google is made of, between its requests: which
//! writes are refused before anything is read, where a "this and following"
//! write cuts a series, which body and version a patch carries, what a
//! conflict does, and what a delete repairs in the local store.

use vstd::prelude::*;
use crate::events::{moved_when, can_edit, can_respond, edit_zone, is_recurring, reminders_view, shifted_when, when_of, writable_role, Reminders, StoredEvent, When};
use crate::guests::{
    attendee_views, attendees_for_edit, attendees_verbatim, attendees_with_self_response,
    for_edit, guest_views, has_self, opt_view, verbatim, wire_views, with_self_response, Attendee,
    Guest, WireAttendee, WireView,
};
use crate::text::{owned, str_eq};
use crate::zone::{instant_moved, local_day, offset_in_range, shifted_like};
use crate::civil::names_day;

verus! {

/// Which write is being checked.
#[derive(Debug, Clone, Copy, PartialEq, Eq)]
pub enum WriteVerb {
    Update,
    Delete,
}

/// Whether a scope is one the write commands implement.
pub open spec fn known_scope(scope: Seq<char>) -> bool {
    scope == "this"@ || scope == "all"@ || scope == "following"@
}

/// The refusal of a write in demo mode.
pub open spec fn demo_refusal(verb: WriteVerb) -> Seq<char> {
    match verb {
        WriteVerb::Update => "demo mode — there is nothing to save"@,
        WriteVerb::Delete => "demo mode — there is nothing to delete"@,
    }
}

/// The refusal of a scope the write does not implement.
pub open spec fn scope_refusal(verb: WriteVerb) -> Seq<char> {
    match verb {
        WriteVerb::Update => "that edit scope is not available yet"@,
        WriteVerb::Delete => "that delete scope is not available yet"@,
    }
}

/// The checks an edit or a delete passes before the database is touched,
/// in their order: demo mode first, then the scope — every scope named
/// exhaustively, since the target rule reads any scope but `"all"` as "this
/// one", and an unknown scope from a newer UI would quietly act on a single
/// occurrence of a series the user meant something else for.
pub fn write_precheck(verb: WriteVerb, demo: bool, scope: &str) -> (r: Result<(), String>)
    ensures
        demo ==> (r matches Err(m) && m@ == demo_refusal(verb)),
        !demo && !known_scope(scope@) ==> (r matches Err(m) && m@ == scope_refusal(verb)),
        !demo && known_scope(scope@) ==> r is Ok,
{
    proof {
        reveal_strlit("demo mode — there is nothing to save");
        reveal_strlit("demo mode — there is nothing to delete");
        reveal_strlit("that edit scope is not available yet");
        reveal_strlit("that delete scope is not available yet");
        reveal_strlit("this");
        reveal_strlit("all");
        reveal_strlit("following");
    }
    if demo {
        return Err(
            match verb {
                WriteVerb::Update => owned("demo mode — there is nothing to save"),
                WriteVerb::Delete => owned("demo mode — there is nothing to delete"),
            },
        );
    }
    if !(str_eq(scope, "this") || str_eq(scope, "all") || str_eq(scope, "following")) {
        return Err(
            match verb {
                WriteVerb::Update => owned("that edit scope is not available yet"),
                WriteVerb::Delete => owned("that delete scope is not available yet"),
            },
        );
    }
    Ok(())
}

/// The refusal of an edit or a delete on a calendar that is not writable.
pub const NOT_WRITABLE: &'static str = "this calendar is not writable from omacal";

/// The same rule the Edit button is shown by, so a calendar that offers the
/// button cannot silently refuse the write it implies. Demo mode is the
/// precheck's, with its own words, so it is not asked again here.
pub fn writable_check(access_role: &str) -> (r: Result<(), String>)
    ensures
        writable_role(access_role@) ==> r is Ok,
        !writable_role(access_role@) ==> (r matches Err(m) && m@ == NOT_WRITABLE@),
{
    if can_edit(false, access_role) {
        Ok(())
    } else {
        Err(owned(NOT_WRITABLE))
    }
}

/// The refusal of an answer on a calendar, or from a guest list, that
/// cannot carry one.
pub const NOT_ANSWERABLE: &'static str = "this calendar cannot be answered from omacal";

/// The refusal of an answer on an event the user is not a guest on.
pub const NOT_A_GUEST: &'static str = "you are not a guest on this event";

/// Whether an answer may be sent at all: the popover's own rule.
pub fn respond_check(demo: bool, access_role: &str, attendees: &[Attendee]) -> (r: Result<
    (),
    String,
>)
    ensures
        (!demo && writable_role(access_role@) && has_self(attendee_views(attendees@))) ==> r is Ok,
        !(!demo && writable_role(access_role@) && has_self(attendee_views(attendees@))) ==> (r matches Err(m) && m@ == NOT_ANSWERABLE@),
{
    if can_respond(demo, access_role, attendees) {
        Ok(())
    } else {
        Err(owned(NOT_ANSWERABLE))
    }
}

/// Where a "this and following" write cuts the series: the clicked
/// occurrence's slot on the rule's own grid — where the rule put it before
/// anybody moved it, when it is a moved exception, else where it was
/// clicked. `UNTIL` is compared against that grid, not against where a
/// block is drawn.
pub fn split_point(original_start_utc: Option<i64>, occurrence_start_ms: i64) -> (at: i64)
    ensures
        at == match original_start_utc {
            Some(o) => o,
            None => occurrence_start_ms,
        },
{
    match original_start_utc {
        Some(o) => o,
        None => occurrence_start_ms,
    }
}

/// Whether "this and following" at `split_at_ms` really cuts a series whose
/// first occurrence is at `master_start_utc`. At or before the first
/// occurrence there is nothing before the cut to keep — a master cut there
/// would expand to nothing and could never be seen again — so the write is
/// a write to the whole series instead.
pub fn following_splits(split_at_ms: i64, master_start_utc: i64) -> (r: bool)
    ensures
        r == (split_at_ms > master_start_utc),
{
    split_at_ms > master_start_utc
}

/// The scope a "this and following" write on a row of no series comes to:
/// there is one event, and it and everything after it is that event.
pub fn scope_without_series(scope: &str) -> (s: &str)
    ensures
        scope@ == "following"@ ==> s@ == "all"@,
        scope@ != "following"@ ==> s@ == scope@,
{
    proof {
        reveal_strlit("following");
        reveal_strlit("all");
    }
    if str_eq(scope, "following") {
        "all"
    } else {
        scope
    }
}

/// The refusal of a guest-list edit that met a newer version of the event.
pub const CONFLICT_GUESTS: &'static str = "somebody else changed this event while you were editing it, so the guest list was not saved — close the form, let it refresh, and make the change again";

/// What an edit does when its patch meets a newer version (`412`). Every
/// field of an edit is a diff the retry can rebuild against the newer
/// version, except the guest list: that is a whole-list replace built from
/// the list as it was last read, and re-sending it would un-invite anybody
/// added since. So a body that touches the guests is refused and reported;
/// any other body is retried (`Ok`).
pub fn conflict_action(body_sends_guests: bool) -> (r: Result<(), String>)
    ensures
        body_sends_guests ==> (r matches Err(m) && m@ == CONFLICT_GUESTS@),
        !body_sends_guests ==> r is Ok,
{
    if body_sends_guests {
        Err(owned(CONFLICT_GUESTS))
    } else {
        Ok(())
    }
}

/// Whether two wire entries are the same.
fn wire_eq(a: &WireAttendee, b: &WireAttendee) -> (r: bool)
    ensures
        r == (a@ == b@),
{
    let same_name = match (&a.display_name, &b.display_name) {
        (Some(x), Some(y)) => str_eq(x.as_str(), y.as_str()),
        (None, None) => true,
        _ => false,
    };
    let same_comment = match (&a.comment, &b.comment) {
        (Some(x), Some(y)) => str_eq(x.as_str(), y.as_str()),
        (None, None) => true,
        _ => false,
    };
    str_eq(a.email.as_str(), b.email.as_str()) && str_eq(
        a.response_status.as_str(),
        b.response_status.as_str(),
    ) && a.optional == b.optional && a.additional_guests == b.additional_guests && same_name
        && same_comment
}

/// Whether two attendee arrays say the same thing, entry by entry.
pub fn wire_lists_equal(a: &[WireAttendee], b: &[WireAttendee]) -> (r: bool)
    ensures
        r == (wire_views(a@) == wire_views(b@)),
{
    if a.len() != b.len() {
        assert(wire_views(a@).len() != wire_views(b@).len());
        return false;
    }
    let mut i: usize = 0;
    while i < a.len()
        invariant
            a.len() == b.len(),
            i <= a.len(),
            forall|k: int| 0 <= k < i ==> (#[trigger] a@[k])@ == b@[k]@,
        decreases a.len() - i,
    {
        if !wire_eq(&a[i], &b[i]) {
            assert(wire_views(a@)[i as int] != wire_views(b@)[i as int]);
            return false;
        }
        i = i + 1;
    }
    assert(wire_views(a@) =~= wire_views(b@));
    true
}

/// The guest list an edit sends: none when the form left the guests alone,
/// and none when the list it asks for is exactly the stored one — an absent
/// list is a patch's way of saying "leave it", the only safe thing to send
/// for guests nobody touched. Otherwise the rebuilt list.
pub fn guests_to_send(stored: &[Attendee], wanted: Option<&[Guest]>) -> (r: Option<
    Vec<WireAttendee>,
>)
    ensures
        wanted is None ==> r is None,
        wanted matches Some(w) ==> if for_edit(attendee_views(stored@), guest_views(w@)) == verbatim(
            attendee_views(stored@),
        ) {
            r is None
        } else {
            r matches Some(out) && wire_views(out@) == for_edit(
                attendee_views(stored@),
                guest_views(w@),
            )
        },
{
    match wanted {
        None => None,
        Some(w) => {
            let sending = attendees_for_edit(stored, w);
            let unchanged = attendees_verbatim(stored);
            if wire_lists_equal(sending.as_slice(), unchanged.as_slice()) {
                None
            } else {
                Some(sending)
            }
        },
    }
}

/// The guest list the new series of a split is created with: the list the
/// form asked for, reconciled against the master's, or the master's whole
/// list when the form left the guests alone — everyone carried across keeps
/// their answer. An empty list is left out of the insert altogether.
pub fn tail_attendees(master: &[Attendee], wanted: Option<&[Guest]>) -> (r: Option<
    Vec<WireAttendee>,
>)
    ensures
        ({
            let list = match wanted {
                Some(w) => for_edit(attendee_views(master@), guest_views(w@)),
                None => verbatim(attendee_views(master@)),
            };
            &&& list.len() == 0 ==> r is None
            &&& list.len() > 0 ==> (r matches Some(out) && wire_views(out@) == list)
        }),
{
    let list = match wanted {
        Some(w) => attendees_for_edit(master, w),
        None => attendees_verbatim(master),
    };
    if list.len() == 0 {
        None
    } else {
        Some(list)
    }
}

/// What an answer is patched with, by the rule that the body and the
/// version both come from the resource being patched, never from the row
/// on screen. When the patch lands on the row that was loaded (`event_id`
/// is its own id) that is the row's rebuilt list (`row_body`) and its etag;
/// otherwise it is the target's own guest list with the answer applied, and
/// the target's etag — and a target the user is not a guest on is refused
/// rather than sent somebody else's list.
pub fn respond_payload(
    event_id: &str,
    row: &StoredEvent,
    row_body: Vec<WireAttendee>,
    target_attendees: &[Attendee],
    target_etag: Option<String>,
    response: &str,
) -> (r: Result<(Vec<WireAttendee>, Option<String>), String>)
    ensures
        event_id@ == row.google_id@ ==> (r matches Ok(p) && p.0@ == row_body@ && opt_view(p.1)
            == opt_view(row.etag)),
        event_id@ != row.google_id@ && !has_self(attendee_views(target_attendees@)) ==> (r matches Err(
            m,
        ) && m@ == NOT_A_GUEST@),
        event_id@ != row.google_id@ && has_self(attendee_views(target_attendees@)) ==> (r matches Ok(
            p,
        ) && wire_views(p.0@) == with_self_response(attendee_views(target_attendees@), response@)
            && p.1 == target_etag),
{
    if str_eq(event_id, row.google_id.as_str()) {
        let etag = match &row.etag {
            Some(e) => Some(owned(e.as_str())),
            None => None,
        };
        Ok((row_body, etag))
    } else {
        match attendees_with_self_response(target_attendees, response) {
            Some(list) => Ok((list, target_etag)),
            None => Err(owned(NOT_A_GUEST)),
        }
    }
}

/// What an answer's retry sends after a conflict: the newer version's own
/// guest list (`fresh_attendees`) with the user's answer applied, under the
/// newer version's etag — refused when the user is no longer a guest on it.
pub fn answer_retry(fresh_attendees: &[Attendee], fresh_etag: Option<String>, response: &str) -> (r:
    Result<(Vec<WireAttendee>, Option<String>), String>)
    ensures
        !has_self(attendee_views(fresh_attendees@)) ==> (r matches Err(m) && m@ == NOT_A_GUEST@),
        has_self(attendee_views(fresh_attendees@)) ==> (r matches Ok(p) && wire_views(p.0@)
            == with_self_response(attendee_views(fresh_attendees@), response@) && p.1 == fresh_etag),
{
    match attendees_with_self_response(fresh_attendees, response) {
        Some(list) => Ok((list, fresh_etag)),
        None => Err(owned(NOT_A_GUEST)),
    }
}

/// Whether a write's response is folded back onto the row that was loaded:
/// only when the write landed on that row. Another resource's version and
/// guests stamped onto it would corrupt it, since the store is keyed by the
/// Google id; the resource Google just changed is left for the next sync.
pub fn folds_back(event_id: &str, row_google_id: &str) -> (r: bool)
    ensures
        r == (event_id@ == row_google_id@),
{
    str_eq(event_id, row_google_id)
}

/// What a delete repairs in the local store once Google has deleted
/// `deleted_id`.
#[derive(Debug, Clone, Copy, PartialEq, Eq)]
pub enum LocalRepair {
    /// The master's row and every exception of it: Google deleted the
    /// series entire.
    RemoveSeries,
    /// The row stays, marked cancelled: a cancelled exception is the only
    /// record that a slot of the series is empty, and removing it would let
    /// the master expand straight back into the slot.
    MarkCancelled,
    /// The row goes: there was one event, and it is gone.
    RemoveRow,
    /// Nothing: only Google knows the occurrence is gone, and the next sync
    /// brings that in.
    Leave,
}

/// The repair for a delete that deleted `deleted_id`, on the row that was
/// clicked: the whole series when the delete was of the whole series
/// (`whole_series`, a "following" that did not cut included), else by what
/// the row is. A bare series master is never removed for one occurrence.
pub fn delete_repair(whole_series: bool, deleted_id: &str, row: &StoredEvent) -> (r: LocalRepair)
    ensures
        whole_series ==> r == LocalRepair::RemoveSeries,
        !whole_series && deleted_id@ != row.google_id@ ==> r == LocalRepair::Leave,
        !whole_series && deleted_id@ == row.google_id@ ==> r == if row.recurring_event_id is Some {
            LocalRepair::MarkCancelled
        } else if row.recurrence is None {
            LocalRepair::RemoveRow
        } else {
            LocalRepair::Leave
        },
{
    if whole_series {
        LocalRepair::RemoveSeries
    } else if str_eq(deleted_id, row.google_id.as_str()) {
        if row.recurring_event_id.is_some() {
            LocalRepair::MarkCancelled
        } else if row.recurrence.is_none() {
            LocalRepair::RemoveRow
        } else {
            LocalRepair::Leave
        }
    } else {
        LocalRepair::Leave
    }
}

/// Marks a deleted occurrence's row cancelled — what a sync writes for the
/// same event — and changes nothing else about it.
pub fn mark_cancelled(row: &mut StoredEvent)
    ensures
        final(row).status@ == "cancelled"@,
        final(row).id == old(row).id,
        final(row).calendar_id == old(row).calendar_id,
        final(row).google_id == old(row).google_id,
        final(row).summary == old(row).summary,
        final(row).location == old(row).location,
        final(row).start_utc == old(row).start_utc,
        final(row).end_utc == old(row).end_utc,
        final(row).start_tz == old(row).start_tz,
        final(row).end_tz == old(row).end_tz,
        final(row).is_all_day == old(row).is_all_day,
        final(row).recurrence == old(row).recurrence,
        final(row).recurring_event_id == old(row).recurring_event_id,
        final(row).original_start_utc == old(row).original_start_utc,
        final(row).self_response == old(row).self_response,
        final(row).conference_uri == old(row).conference_uri,
        final(row).color_hex == old(row).color_hex,
        final(row).calendar_timezone == old(row).calendar_timezone,
        final(row).description == old(row).description,
        final(row).etag == old(row).etag,
        final(row).sequence == old(row).sequence,
        final(row).organizer_email == old(row).organizer_email,
        final(row).guests_can_modify == old(row).guests_can_modify,
        final(row).attendees == old(row).attendees,
        final(row).reminders == old(row).reminders,
        final(row).calendar_default_reminders == old(row).calendar_default_reminders,
{
    row.status = owned("cancelled");
}

/// The instant an edit's movement is measured from, and the end that goes
/// with it. For a row with occurrences it is the clicked occurrence
/// (`occurrence_start_ms`) — the form was filled from that block — and for
/// a one-off the row's own start, so a wrong occurrence from the caller
/// cannot move an event nobody asked to move. The end is the target's end
/// moved as far as the anchor is from the target's start, which is exactly
/// what an expansion of a series is.
pub fn edit_anchor(
    row: &StoredEvent,
    target_start_ms: i64,
    target_end_ms: i64,
    occurrence_start_ms: i64,
    zone: &str,
) -> (a: (i64, i64))
    ensures
        a.0 == if row.recurrence is Some || row.recurring_event_id is Some {
            occurrence_start_ms
        } else {
            row.start_utc
        },
        a.0 == target_start_ms ==> a.1 == target_end_ms,
        instant_moved(a.0 as int, target_start_ms as int, target_end_ms as int, a.1 as int),
{
    let anchor = if is_recurring(&row.recurrence, &row.recurring_event_id) {
        occurrence_start_ms
    } else {
        row.start_utc
    };
    let anchor_end = shifted_like(anchor, target_start_ms, target_end_ms, zone);
    (anchor, anchor_end)
}

/// The refusal of a split of a series whose rule has gone.
pub const NOTHING_TO_SPLIT: &'static str = "that event no longer repeats, so there is nothing to split";

/// The refusal of a split of a series that ends after a set number of times.
pub const COUNTED_SERIES: &'static str = "omacal cannot split a series that ends after a set number of times — edit all events instead";

/// The refusal of a split that would strand `n` occurrences somebody has
/// already moved or deleted on their own.
pub open spec fn stranded_text(n: nat) -> Seq<char> {
    "some later occurrences of this series were moved or deleted on their own, and a split cannot carry them across — edit all events instead, or re-create them afterwards. Occurrences affected: "@
        + crate::text::decimal(n)
}

/// The checks a split passes before either of its writes, in order: the
/// master still has a rule (`rule_lines` of them), none of them ends after
/// a set number of times (`counted`) — the tail's count would need a full
/// expansion to know — and no later occurrence has been changed on its own
/// (`stranded`, the clicked one not counted), since truncating the master
/// would silently take those changes with it.
pub fn split_check(rule_lines: usize, counted: bool, stranded: u64) -> (r: Result<(), String>)
    ensures
        rule_lines == 0 ==> (r matches Err(m) && m@ == NOTHING_TO_SPLIT@),
        rule_lines > 0 && counted ==> (r matches Err(m) && m@ == COUNTED_SERIES@),
        rule_lines > 0 && !counted && stranded > 0 ==> (r matches Err(m) && m@ == stranded_text(
            stranded as nat,
        )),
        rule_lines > 0 && !counted && stranded == 0 ==> r is Ok,
{
    if rule_lines == 0 {
        return Err(owned(NOTHING_TO_SPLIT));
    }
    if counted {
        return Err(owned(COUNTED_SERIES));
    }
    if stranded > 0 {
        let mut m = owned("some later occurrences of this series were moved or deleted on their own, and a split cannot carry them across — edit all events instead, or re-create them afterwards. Occurrences affected: ");
        crate::text::push_decimal(&mut m, stranded);
        return Err(m);
    }
    Ok(())
}

/// What a split reports when the new series was created but the original
/// could not be shortened: the duplicate exists, and needs a person.
pub const SPLIT_LEFT_DUPLICATE: &'static str = "the new series was created but the original could not be shortened — you now have two overlapping series and should delete one";

/// What has just happened in a "this and following" split.
pub enum SplitEvent {
    /// The split passed its checks; neither write has been made.
    Checked,
    /// Google created the new series.
    TailCreated,
    /// Creating the new series failed, for the reason given.
    TailFailed(String),
    /// Google shortened the original series.
    OriginalShortened,
    /// Shortening the original failed, whatever the reason.
    OriginalFailed,
}

/// What a split does next.
#[derive(PartialEq, Eq, Debug)]
pub enum SplitAction {
    /// Create the new series from the clicked occurrence on.
    CreateTail,
    /// Shorten the original to end before the clicked occurrence.
    ShortenOriginal,
    /// Both writes landed: record the result locally.
    StoreLocally,
    /// Stop and tell the user this.
    Report(String),
}

/// The order of a split's two writes, which is its whole safety argument:
/// the new series is created first and the original shortened second, so a
/// failure in between leaves an overlapping duplicate rather than a lost
/// tail. A failed create reports its own reason, with nothing changed; any
/// failure to shorten, once the tail exists, reports the duplicate; and
/// nothing is stored locally until both writes have landed.
pub fn split_next(event: SplitEvent) -> (a: SplitAction)
    ensures
        match event {
            SplitEvent::Checked => a == SplitAction::CreateTail,
            SplitEvent::TailCreated => a == SplitAction::ShortenOriginal,
            SplitEvent::TailFailed(e) => a == SplitAction::Report(e),
            SplitEvent::OriginalShortened => a == SplitAction::StoreLocally,
            SplitEvent::OriginalFailed => a matches SplitAction::Report(m) && m@
                == SPLIT_LEFT_DUPLICATE@,
        },
        (a is ShortenOriginal) <==> (event is TailCreated),
{
    match event {
        SplitEvent::Checked => SplitAction::CreateTail,
        SplitEvent::TailCreated => SplitAction::ShortenOriginal,
        SplitEvent::TailFailed(e) => SplitAction::Report(e),
        SplitEvent::OriginalShortened => SplitAction::StoreLocally,
        SplitEvent::OriginalFailed => SplitAction::Report(owned(SPLIT_LEFT_DUPLICATE)),
    }
}

/// The texts of a list of lines.
pub open spec fn line_texts(lines: Seq<String>) -> Seq<Seq<char>> {
    lines.map_values(|l: String| l@)
}

/// The lines that are not rules (`is_rule` false at their index), in order.
pub open spec fn other_lines(lines: Seq<Seq<char>>, is_rule: Seq<bool>) -> Seq<Seq<char>>
    decreases lines.len(),
{
    if lines.len() == 0 {
        Seq::empty()
    } else {
        let rest = other_lines(lines.drop_last(), is_rule.take(lines.len() - 1));
        if is_rule[lines.len() - 1] {
            rest
        } else {
            rest.push(lines.last())
        }
    }
}

/// The recurrence the new series of a split carries, by the form's Repeat
/// (`None` untouched, `Some(None)` Never, `Some(Some(rule))` a chosen
/// rule): untouched, the master's own lines; Never, none at all, so what is
/// left is one event; a chosen rule, that rule in place of the master's
/// rule lines, followed by every other line (`EXDATE`, `RDATE`) in order —
/// dropping an `EXDATE` would bring a cancelled occurrence back. `is_rule`
/// says which of `lines` are rules.
pub fn tail_recurrence(lines: &[String], is_rule: &[bool], repeat: &Option<Option<String>>) -> (r:
    Option<Vec<String>>)
    requires
        lines@.len() == is_rule@.len(),
    ensures
        match repeat {
            None => r matches Some(out) && line_texts(out@) == line_texts(lines@),
            Some(None) => r is None,
            Some(Some(chosen)) => r matches Some(out) && line_texts(out@) == seq![chosen@]
                + other_lines(line_texts(lines@), is_rule@),
        },
{
    match repeat {
        None => {
            let mut out: Vec<String> = Vec::new();
            let mut i: usize = 0;
            while i < lines.len()
                invariant
                    i <= lines@.len(),
                    out@.len() == i,
                    forall|j: int| 0 <= j < i ==> (#[trigger] out@[j])@ == lines@[j]@,
                decreases lines@.len() - i,
            {
                out.push(owned(lines[i].as_str()));
                i = i + 1;
            }
            assert(line_texts(out@) =~= line_texts(lines@));
            Some(out)
        },
        Some(None) => None,
        Some(Some(chosen)) => {
            let mut out: Vec<String> = Vec::new();
            out.push(owned(chosen.as_str()));
            let mut i: usize = 0;
            while i < lines.len()
                invariant
                    i <= lines@.len(),
                    lines@.len() == is_rule@.len(),
                    line_texts(out@) == seq![chosen@] + other_lines(
                        line_texts(lines@.take(i as int)),
                        is_rule@.take(i as int),
                    ),
                decreases lines@.len() - i,
            {
                let ghost before = out@;
                let ghost t = line_texts(lines@.take(i as int + 1));
                assert(t.drop_last() =~= line_texts(lines@.take(i as int)));
                assert(is_rule@.take(i as int + 1).take(i as int) =~= is_rule@.take(i as int));
                assert(is_rule@.take(i as int + 1)[i as int] == is_rule@[i as int]);
                assert(t.last() == lines@[i as int]@);
                if !is_rule[i] {
                    out.push(owned(lines[i].as_str()));
                    assert(line_texts(out@) =~= line_texts(before).push(lines@[i as int]@));
                }
                i = i + 1;
            }
            assert(lines@.take(lines@.len() as int) =~= lines@);
            assert(is_rule@.take(is_rule@.len() as int) =~= is_rule@);
            Some(out)
        },
    }
}

/// The refusal of a truncation of a series whose rule has gone: guessing
/// "all events" there would delete the very occurrences the scope keeps.
pub const NOTHING_TO_TRUNCATE: &'static str = "that event no longer repeats, so there is nothing to delete from here";

/// The check a "delete this and following" passes before its one write.
/// Unlike a split, a rule with a count is fine to truncate, and exceptions
/// in the tail are what the user asked to remove.
pub fn truncate_check(rule_lines: usize) -> (r: Result<(), String>)
    ensures
        rule_lines == 0 ==> (r matches Err(m) && m@ == NOTHING_TO_TRUNCATE@),
        rule_lines > 0 ==> r is Ok,
{
    if rule_lines == 0 {
        Err(owned(NOTHING_TO_TRUNCATE))
    } else {
        Ok(())
    }
}

/// Whether two reminder settings say the same thing.
pub fn same_reminders(a: &Reminders, b: &Reminders) -> (r: bool)
    ensures
        r == (reminders_view(*a) == reminders_view(*b)),
{
    if a.use_default != b.use_default || a.overrides.len() != b.overrides.len() {
        proof {
            if a.overrides.len() != b.overrides.len() {
                assert(reminders_view(*a).1.len() != reminders_view(*b).1.len());
            }
        }
        return false;
    }
    let mut i: usize = 0;
    while i < a.overrides.len()
        invariant
            a.overrides.len() == b.overrides.len(),
            a.use_default == b.use_default,
            i <= a.overrides.len(),
            forall|k: int| 0 <= k < i ==> (#[trigger] a.overrides@[k]).method@ == b.overrides@[k].method@
                && a.overrides@[k].minutes == b.overrides@[k].minutes,
        decreases a.overrides.len() - i,
    {
        if !(str_eq(a.overrides[i].method.as_str(), b.overrides[i].method.as_str())
            && a.overrides[i].minutes == b.overrides[i].minutes) {
            assert(reminders_view(*a).1[i as int] != reminders_view(*b).1[i as int]);
            return false;
        }
        i = i + 1;
    }
    assert(reminders_view(*a).1 =~= reminders_view(*b).1);
    true
}

/// Whether an edit sends reminders: only when the form carried them and
/// they differ from the row's own. The object is a whole replace, so a form
/// that always re-sent it would rewrite the event's settings from whatever
/// was last read.
pub fn sends_reminders(stored: &Reminders, wanted: Option<&Reminders>) -> (r: bool)
    ensures
        r == (wanted matches Some(w) && reminders_view(*w) != reminders_view(*stored)),
{
    match wanted {
        Some(w) => !same_reminders(w, stored),
        None => false,
    }
}

/// Both sides of an edit's times, in the terms its patch is diffed in.
#[derive(Debug, PartialEq, Eq)]
pub struct EditTimes {
    /// The zone the event is described in as it stands: the event's own for
    /// a timed event, the calendar's for an all-day one.
    pub zone: String,
    /// The zone the edited event is described in, by the form's shape.
    pub after_zone: String,
    /// Where the movement is measured from, and the end that goes with it.
    pub anchor: (i64, i64),
    /// The resource being patched, as it stands.
    pub before: When,
    /// The form's times carried onto the resource as the movement the user
    /// made.
    pub after: When,
}

/// The times half of an edit's patch: the target resource as it stands
/// (`target_start_ms`, `target_end_ms`), and the form's `when` carried onto
/// it as a movement from the clicked occurrence — never the form's own
/// values, which for a series would drag the master onto the clicked date.
/// An untouched timed form is a movement of zero: the two sides come out
/// equal, and a patch carries no times at all.
pub fn edit_times(
    row: &StoredEvent,
    target_start_ms: i64,
    target_end_ms: i64,
    occurrence_start_ms: i64,
    cal_tz: &str,
    form: &When,
) -> (t: EditTimes)
    ensures
        t.zone@ == if row.is_all_day {
            cal_tz@
        } else {
            row.start_tz@
        },
        t.after_zone@ == if *form is AllDay {
            cal_tz@
        } else {
            row.start_tz@
        },
        t.anchor.0 == if row.recurrence is Some || row.recurring_event_id is Some {
            occurrence_start_ms
        } else {
            row.start_utc
        },
        t.anchor.0 == target_start_ms ==> t.anchor.1 == target_end_ms,
        !row.is_all_day ==> t.before == (When::Timed { start_ms: target_start_ms, end_ms: target_end_ms }),
        row.is_all_day ==> t.before is AllDay,
        instant_moved(t.anchor.0 as int, target_start_ms as int, target_end_ms as int, t.anchor.1 as int),
        row.is_all_day ==> (t.before matches When::AllDay { start_date, end_date } && (exists|o: int|
            offset_in_range(o) && #[trigger] names_day(start_date@, local_day(target_start_ms as int, o)))
            && (exists|o: int|
            offset_in_range(o) && #[trigger] names_day(end_date@, local_day(target_end_ms as int, o)))),
        moved_when(*form, target_start_ms as int, target_end_ms as int, t.anchor.0 as int, t.anchor.1 as int, t.after),
        (*form is Timed) == (t.after is Timed),
        !row.is_all_day ==> match *form {
            When::Timed { start_ms, end_ms } => start_ms == t.anchor.0 && end_ms == t.anchor.1
                ==> t.after == t.before,
            When::AllDay { .. } => true,
        },
{
    let zone = edit_zone(row.is_all_day, cal_tz, row.start_tz.as_str());
    let before = when_of(row.is_all_day, target_start_ms, target_end_ms, zone);
    let anchor = edit_anchor(row, target_start_ms, target_end_ms, occurrence_start_ms, zone);
    let after = shifted_when(form, target_start_ms, target_end_ms, anchor.0, anchor.1, zone);
    let after_zone = edit_zone(form.is_all_day(), cal_tz, row.start_tz.as_str());
    EditTimes { zone: owned(zone), after_zone: owned(after_zone), anchor, before, after }
}

/// The refusal of a create in demo mode.
pub const DEMO_CREATE: &'static str = "demo mode — there is nothing to create";

/// The check a create passes before the calendar is even looked up: none in
/// demo mode, so a demo run never touches the database at all.
pub fn create_precheck(demo: bool) -> (r: Result<(), String>)
    ensures
        demo ==> (r matches Err(m) && m@ == DEMO_CREATE@),
        !demo ==> r is Ok,
{
    if demo {
        Err(owned(DEMO_CREATE))
    } else {
        Ok(())
    }
}

/// What a create reports once Google has the event but the local half did
/// not happen: never a failed create, since trying again would mail every
/// guest a second invitation.
pub const CREATED_NOT_STORED: &'static str = "The event was created on Google, but omacal could not record it locally. The next sync will bring it in — do not create it again.";

/// The guest list a new event is created with: the edit path's own list
/// built against nobody already on the event, so a guest invited here has
/// exactly the shape one invited by an edit has; none for an empty or
/// untouched list, which on a create come to the same event.
pub fn create_attendees(wanted: Option<&[Guest]>) -> (r: Option<Vec<WireAttendee>>)
    ensures
        match wanted {
            Some(w) => if w@.len() > 0 {
                r matches Some(out) && wire_views(out@) == for_edit(
                    Seq::<crate::guests::AttendeeView>::empty(),
                    guest_views(w@),
                )
            } else {
                r is None
            },
            None => r is None,
        },
{
    match wanted {
        Some(w) => {
            if w.len() > 0 {
                let nobody: Vec<Attendee> = Vec::new();
                let out = attendees_for_edit(nobody.as_slice(), w);
                assert(attendee_views(nobody@) =~= Seq::<crate::guests::AttendeeView>::empty());
                Some(out)
            } else {
                None
            }
        },
        None => None,
    }
}

/// The meeting a successful delete erases from the change ledger: its
/// series' root — the master an exception belongs to, or the row itself —
/// so a departure the user chose never comes back as "cancelled" news.
pub fn ledger_root(recurring_event_id: Option<&str>, google_id: &str) -> (r: String)
    ensures
        r@ == match recurring_event_id {
            Some(m) => m@,
            None => google_id@,
        },
{
    match recurring_event_id {
        Some(m) => owned(m),
        None => owned(google_id),
    }
}

} // verus!
