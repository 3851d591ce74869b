use omacal::events::{Reminder, Reminders, StoredEvent};
use omacal::edits::{edit_patch, EditForm, EditPatch};
use omacal::guests::{Attendee, Guest};
use omacal::writes::{
    conflict_action, delete_repair, edit_anchor, folds_back, following_splits, guests_to_send,
    mark_cancelled, respond_check, respond_payload, same_reminders, scope_without_series,
    sends_reminders, split_check, split_point, tail_attendees, truncate_check, writable_check,
    write_precheck, LocalRepair, WriteVerb, CONFLICT_GUESTS, COUNTED_SERIES, NOTHING_TO_SPLIT,
    NOTHING_TO_TRUNCATE, NOT_ANSWERABLE, NOT_A_GUEST, NOT_WRITABLE,
};

fn attendee(email: &str, status: &str, is_self: bool) -> Attendee {
    Attendee {
        email: email.into(),
        display_name: None,
        response_status: status.into(),
        optional: false,
        is_self,
        comment: None,
        additional_guests: 0,
    }
}

fn row() -> StoredEvent {
    StoredEvent {
        id: 1,
        calendar_id: 1,
        google_id: "ev1".into(),
        summary: Some("Standup".into()),
        location: None,
        start_utc: 1_786_352_400_000,
        end_utc: 1_786_354_200_000,
        start_tz: "Europe/Sofia".into(),
        end_tz: "Europe/Sofia".into(),
        is_all_day: false,
        recurrence: None,
        recurring_event_id: None,
        original_start_utc: None,
        status: "confirmed".into(),
        self_response: None,
        conference_uri: None,
        color_hex: None,
        calendar_timezone: "Europe/Sofia".into(),
        description: None,
        etag: Some("\"e1\"".into()),
        sequence: 0,
        organizer_email: None,
        guests_can_modify: false,
        attendees: vec![attendee("ana@x.com", "accepted", false), attendee("me@x.com", "needsAction", true)],
        reminders: Reminders::default(),
        calendar_default_reminders: Vec::new(),
    }
}

#[test]
fn demo_mode_comes_before_the_scope_and_each_verb_says_so_in_its_own_words() {
    assert_eq!(
        write_precheck(WriteVerb::Update, true, "bogus"),
        Err("demo mode — there is nothing to save".to_string())
    );
    assert_eq!(
        write_precheck(WriteVerb::Delete, true, "this"),
        Err("demo mode — there is nothing to delete".to_string())
    );
    assert_eq!(
        write_precheck(WriteVerb::Update, false, "series"),
        Err("that edit scope is not available yet".to_string())
    );
    assert_eq!(
        write_precheck(WriteVerb::Delete, false, ""),
        Err("that delete scope is not available yet".to_string())
    );
    for scope in ["this", "all", "following"] {
        assert_eq!(write_precheck(WriteVerb::Update, false, scope), Ok(()));
        assert_eq!(write_precheck(WriteVerb::Delete, false, scope), Ok(()));
    }
}

#[test]
fn only_a_writable_calendar_takes_a_write() {
    assert_eq!(writable_check("owner"), Ok(()));
    assert_eq!(writable_check("writer"), Ok(()));
    assert_eq!(writable_check("reader"), Err(NOT_WRITABLE.to_string()));
    assert_eq!(respond_check(false, "owner", &row().attendees), Ok(()));
    assert_eq!(respond_check(true, "owner", &row().attendees), Err(NOT_ANSWERABLE.to_string()));
}

#[test]
fn a_moved_occurrence_is_cut_at_its_slot_not_where_it_was_dragged() {
    assert_eq!(split_point(Some(100), 250), 100);
    assert_eq!(split_point(None, 250), 250);
    assert!(following_splits(200, 100));
    assert!(!following_splits(100, 100), "the first occurrence means the whole series");
    assert!(!following_splits(50, 100));
    assert_eq!(scope_without_series("following"), "all");
    assert_eq!(scope_without_series("this"), "this");
}

#[test]
fn a_guest_list_conflict_is_reported_and_anything_else_retried() {
    assert_eq!(conflict_action(true), Err(CONFLICT_GUESTS.to_string()));
    assert_eq!(conflict_action(false), Ok(()));
}

fn guests_of(attendees: &[Attendee]) -> Vec<Guest> {
    attendees.iter().map(|a| Guest { email: a.email.clone(), optional: a.optional }).collect()
}

#[test]
fn an_untouched_guest_list_is_not_sent_and_a_changed_one_is() {
    let ev = row();
    assert_eq!(guests_to_send(&ev.attendees, None), None);
    let same = guests_of(&ev.attendees);
    assert_eq!(guests_to_send(&ev.attendees, Some(&same)), None, "nothing changed, nothing sent");
    let mut reordered = same.clone_list();
    reordered.reverse();
    assert_eq!(guests_to_send(&ev.attendees, Some(&reordered)), None, "order is not a change");
    let mut plus = guests_of(&ev.attendees);
    plus.push(Guest { email: "dan@x.com".into(), optional: false });
    let sent = guests_to_send(&ev.attendees, Some(&plus)).unwrap();
    assert_eq!(sent.len(), 3);
    assert_eq!(sent[0].response_status, "accepted");
    assert_eq!(sent[2].email, "dan@x.com");
}

trait CloneList {
    fn clone_list(&self) -> Vec<Guest>;
}

impl CloneList for Vec<Guest> {
    fn clone_list(&self) -> Vec<Guest> {
        self.iter().map(|g| Guest { email: g.email.clone(), optional: g.optional }).collect()
    }
}

#[test]
fn the_tail_of_a_split_carries_the_masters_list_or_the_forms() {
    let ev = row();
    let all = tail_attendees(&ev.attendees, None).unwrap();
    assert_eq!(all.len(), 2);
    assert_eq!(all[0].response_status, "accepted");
    assert_eq!(tail_attendees(&ev.attendees, Some(&[])), None, "an empty list is left out");
    assert_eq!(tail_attendees(&[], None), None);
}

#[test]
fn an_answer_carries_the_patched_resources_own_list_and_version() {
    let ev = row();
    let body = omacal::guests::attendees_with_self_response(&ev.attendees, "accepted").unwrap();
    let (list, etag) = respond_payload("ev1", &ev, body, &[], None, "accepted").unwrap();
    assert_eq!(list.len(), 2);
    assert_eq!(etag.as_deref(), Some("\"e1\""), "the row's own version");

    let target = vec![attendee("me@x.com", "needsAction", true)];
    let body = omacal::guests::attendees_with_self_response(&ev.attendees, "accepted").unwrap();
    let (list, etag) =
        respond_payload("master1", &ev, body, &target, Some("\"m1\"".into()), "accepted").unwrap();
    assert_eq!(list.len(), 1, "the target's list, not the row's");
    assert_eq!(list[0].response_status, "accepted");
    assert_eq!(etag.as_deref(), Some("\"m1\""));

    let body = omacal::guests::attendees_with_self_response(&ev.attendees, "accepted").unwrap();
    let not_there = vec![attendee("ana@x.com", "accepted", false)];
    assert_eq!(
        respond_payload("master1", &ev, body, &not_there, None, "accepted"),
        Err(NOT_A_GUEST.to_string())
    );
    assert!(folds_back("ev1", "ev1"));
    assert!(!folds_back("master1", "ev1"));
}

#[test]
fn a_delete_repairs_only_what_it_can_name() {
    let mut ev = row();
    assert_eq!(delete_repair(true, "master1", &ev), LocalRepair::RemoveSeries);
    assert_eq!(delete_repair(false, "ev1", &ev), LocalRepair::RemoveRow);
    assert_eq!(delete_repair(false, "other", &ev), LocalRepair::Leave);
    ev.recurring_event_id = Some("master1".into());
    assert_eq!(delete_repair(false, "ev1", &ev), LocalRepair::MarkCancelled);
    ev.recurring_event_id = None;
    ev.recurrence = Some("RRULE:FREQ=DAILY".into());
    assert_eq!(delete_repair(false, "ev1", &ev), LocalRepair::Leave, "a master is never removed for one occurrence");
    mark_cancelled(&mut ev);
    assert_eq!(ev.status, "cancelled");
    assert_eq!(ev.google_id, "ev1");
}

#[test]
fn an_edit_is_anchored_on_the_clicked_occurrence_only_for_a_series() {
    const HOUR: i64 = 3_600_000;
    let mut ev = row();
    let clicked = ev.start_utc + 7 * 24 * HOUR;
    let (a, e) = edit_anchor(&ev, ev.start_utc, ev.end_utc, clicked, "Europe/Sofia");
    assert_eq!((a, e), (ev.start_utc, ev.end_utc), "a one-off ignores the occurrence");
    ev.recurrence = Some("RRULE:FREQ=WEEKLY".into());
    let (a, e) = edit_anchor(&ev, ev.start_utc, ev.end_utc, clicked, "Europe/Sofia");
    assert_eq!(a, clicked);
    assert_eq!(e, clicked + (ev.end_utc - ev.start_utc));
}

#[test]
fn a_split_refuses_what_it_cannot_carry_before_any_write() {
    assert_eq!(split_check(0, false, 0), Err(NOTHING_TO_SPLIT.to_string()));
    assert_eq!(split_check(1, true, 3), Err(COUNTED_SERIES.to_string()));
    let e = split_check(1, false, 3).unwrap_err();
    assert!(e.ends_with("Occurrences affected: 3"), "{e}");
    assert_eq!(split_check(1, false, 0), Ok(()));
    assert_eq!(truncate_check(0), Err(NOTHING_TO_TRUNCATE.to_string()));
    assert_eq!(truncate_check(2), Ok(()));
}

#[test]
fn reminders_are_sent_only_when_they_changed() {
    let stored = Reminders { use_default: false, overrides: vec![Reminder { method: "popup".into(), minutes: 10 }] };
    let same = Reminders { use_default: false, overrides: vec![Reminder { method: "popup".into(), minutes: 10 }] };
    let other = Reminders { use_default: false, overrides: vec![Reminder { method: "email".into(), minutes: 10 }] };
    assert!(same_reminders(&stored, &same));
    assert!(!sends_reminders(&stored, Some(&same)));
    assert!(sends_reminders(&stored, Some(&other)));
    assert!(!sends_reminders(&stored, None));
    assert!(sends_reminders(&stored, Some(&Reminders::default())));
}

use omacal::resolve::{resolve_first, resolve_following, resolve_lookup, FollowingOutcome, Resolution};
use omacal::events::ResolveError;

#[test]
fn a_one_off_is_its_own_target_whatever_the_scope() {
    let ev = row();
    assert_eq!(
        resolve_first("this", 5, &ev),
        Resolution::Target { event_id: "ev1".into(), whole_series: false }
    );
    assert_eq!(
        resolve_first("following", 5, &ev),
        Resolution::Target { event_id: "ev1".into(), whole_series: true },
        "a one-off has no following: it and everything after it is itself"
    );
}

#[test]
fn a_series_resolves_through_its_master_or_its_instance() {
    let mut ev = row();
    ev.recurrence = Some("RRULE:FREQ=DAILY".into());
    assert_eq!(
        resolve_first("all", 5, &ev),
        Resolution::Target { event_id: "ev1".into(), whole_series: true }
    );
    assert_eq!(
        resolve_first("this", 5, &ev),
        Resolution::LookupInstance {
            master: "ev1".into(),
            fallback: "ev1".into(),
            time_min_ms: 5,
            time_max_ms: 1005
        },
        "this occurrence of a master asks Google rather than patching the series"
    );
    ev.recurrence = None;
    ev.recurring_event_id = Some("master1".into());
    assert_eq!(resolve_first("following", 5, &ev), Resolution::ReadMaster { master_id: "master1".into() });
    assert_eq!(
        resolve_lookup(&[], "master1", "ev1"),
        Ok(Resolution::Target { event_id: "ev1".into(), whole_series: false })
    );
    assert_eq!(resolve_lookup(&[], "ev1", "ev1"), Err(ResolveError::OccurrenceNotFound));
    assert_eq!(
        resolve_lookup(&["i1".to_string(), "i2".to_string()], "m", "m"),
        Ok(Resolution::Target { event_id: "i1".into(), whole_series: false })
    );
}

#[test]
fn following_cuts_only_past_the_first_occurrence() {
    let mut ev = row();
    ev.recurring_event_id = Some("master1".into());
    assert_eq!(resolve_following(&ev, 200, "master1", 100), FollowingOutcome::Cut { split_at_ms: 200 });
    assert_eq!(
        resolve_following(&ev, 100, "master1", 100),
        FollowingOutcome::WholeSeries { master_id: "master1".into() }
    );
    ev.original_start_utc = Some(100);
    assert_eq!(
        resolve_following(&ev, 500, "master1", 100),
        FollowingOutcome::WholeSeries { master_id: "master1".into() },
        "a dragged first occurrence is still the first occurrence"
    );
}

use omacal::events::When;
use omacal::writes::edit_times;

#[test]
fn an_untouched_timed_form_is_a_movement_of_zero() {
    const HOUR: i64 = 3_600_000;
    let mut ev = row();
    ev.recurrence = Some("RRULE:FREQ=WEEKLY".into());
    let clicked = ev.start_utc + 14 * 24 * HOUR;
    let form = When::Timed { start_ms: clicked, end_ms: clicked + 30 * 60_000 };
    let t = edit_times(&ev, ev.start_utc, ev.end_utc, clicked, "Pacific/Auckland", &form);
    assert_eq!(t.zone, "Europe/Sofia", "a timed event keeps its own zone");
    assert_eq!(t.anchor, (clicked, clicked + 30 * 60_000));
    assert_eq!(t.before, t.after, "nothing moved, so nothing is sent");

    let moved = When::Timed { start_ms: clicked + HOUR, end_ms: clicked + HOUR + 30 * 60_000 };
    let t = edit_times(&ev, ev.start_utc, ev.end_utc, clicked, "Pacific/Auckland", &moved);
    assert_eq!(t.after, When::Timed { start_ms: ev.start_utc + HOUR, end_ms: ev.end_utc + HOUR });

    let all_day = When::AllDay { start_date: "2026-08-24".into(), end_date: "2026-08-25".into() };
    let t = edit_times(&ev, ev.start_utc, ev.end_utc, clicked, "Pacific/Auckland", &all_day);
    assert_eq!(t.after_zone, "Pacific/Auckland", "an all-day form takes the calendar's zone");
    assert!(t.after.is_all_day());
}

use omacal::writes::{create_attendees, create_precheck, DEMO_CREATE};
use omacal::events::detail_flags;

#[test]
fn a_create_refuses_demo_mode_and_invites_only_a_real_list() {
    assert_eq!(create_precheck(true), Err(DEMO_CREATE.to_string()));
    assert!(DEMO_CREATE.contains("demo"));
    assert_eq!(create_precheck(false), Ok(()));
    assert_eq!(create_attendees(None), None);
    assert_eq!(create_attendees(Some(&[])), None, "an empty list is left out");
    let wanted = vec![
        Guest { email: " Dan@x.com ".into(), optional: true },
        Guest { email: "dan@x.com".into(), optional: false },
    ];
    let out = create_attendees(Some(&wanted)).unwrap();
    assert_eq!(out.len(), 1, "one person, once");
    assert_eq!(out[0].email, "Dan@x.com");
    assert_eq!(out[0].response_status, "needsAction");
    assert_eq!(out[0].optional, true);
}

#[test]
fn the_popover_flags_follow_the_calendar_and_the_guest_list() {
    let mut ev = row();
    let f = detail_flags(&ev, "owner", "Europe/Sofia", false);
    assert!(f.can_respond && f.can_edit && !f.is_recurring);
    assert_eq!(f.start_date, None);
    let f = detail_flags(&ev, "owner", "Europe/Sofia", true);
    assert!(!f.can_respond && !f.can_edit, "demo mode shows neither");
    ev.attendees.clear();
    let f = detail_flags(&ev, "writer", "Europe/Sofia", false);
    assert!(!f.can_respond && f.can_edit, "editing needs no row of ours");
    ev.is_all_day = true;
    ev.start_utc = 1_786_395_600_000;
    ev.end_utc = ev.start_utc + 86_400_000;
    ev.recurring_event_id = Some("m".into());
    let f = detail_flags(&ev, "reader", "Europe/Sofia", false);
    assert!(f.is_recurring);
    assert_eq!((f.start_date.as_deref(), f.end_date.as_deref()), (Some("2026-08-11"), Some("2026-08-11")));
}

const OCCURRENCE: i64 = 1_786_352_400_000;
const HOUR_MS: i64 = 3_600_000;

fn three() -> Vec<Attendee> {
    vec![
        Attendee {
            email: "ana@x.com".into(),
            display_name: Some("Ana".into()),
            response_status: "accepted".into(),
            optional: false,
            is_self: false,
            comment: Some("running 5 late".into()),
            additional_guests: 1,
        },
        attendee("me@x.com", "needsAction", true),
        Attendee {
            email: "petya@x.com".into(),
            display_name: None,
            response_status: "declined".into(),
            optional: true,
            is_self: false,
            comment: None,
            additional_guests: 2,
        },
    ]
}

fn lunch() -> StoredEvent {
    let mut ev = row();
    ev.attendees = three();
    ev.summary = Some("Lunch".into());
    ev.start_utc = OCCURRENCE;
    ev.end_utc = OCCURRENCE + HOUR_MS;
    ev
}

/// The edit form as the popover sends it: this title and these times,
/// nothing else touched.
fn form(summary: &str, start_ms: i64, end_ms: i64) -> EditForm {
    EditForm {
        summary: Some(summary.into()),
        location: None,
        description: None,
        when: When::Timed { start_ms, end_ms },
        recurrence: None,
        guests: None,
        reminders: None,
    }
}

fn form_with_guests(summary: &str, start_ms: i64, end_ms: i64, guests: Vec<Guest>) -> EditForm {
    EditForm { guests: Some(guests), ..form(summary, start_ms, end_ms) }
}

/// The patch an edit of `ev` at `OCCURRENCE` builds from `after`.
fn lunch_patch(ev: &StoredEvent, after: &EditForm) -> EditPatch {
    let t = edit_times(ev, OCCURRENCE, OCCURRENCE + HOUR_MS, OCCURRENCE, "UTC", &after.when);
    edit_patch(ev, t, after)
}

#[test]
fn a_guest_list_that_did_not_change_sends_no_attendees() {
    let ev = lunch();
    let after = form_with_guests("Lunch", OCCURRENCE, OCCURRENCE + HOUR_MS, guests_of(&three()));
    let body = lunch_patch(&ev, &after);
    assert!(body.is_empty(), "an untouched guest list reached the wire");

    let untouched = form("Lunch", OCCURRENCE, OCCURRENCE + HOUR_MS);
    assert!(untouched.guests.is_none());
    let body = lunch_patch(&ev, &untouched);
    assert!(body.is_empty());
}

#[test]
fn reminders_that_did_not_change_send_nothing() {
    let mut ev = lunch();
    ev.reminders = Reminders { use_default: false, overrides: vec![Reminder { method: "popup".into(), minutes: 10 }] };

    let mut after = form("Lunch", OCCURRENCE, OCCURRENCE + HOUR_MS);
    after.reminders = Some(Reminders { use_default: false, overrides: vec![Reminder { method: "popup".into(), minutes: 10 }] });
    let body = lunch_patch(&ev, &after);
    assert!(body.is_empty(), "unchanged reminders reached the wire");

    let untouched = form("Lunch", OCCURRENCE, OCCURRENCE + HOUR_MS);
    assert!(untouched.reminders.is_none());
    let body = lunch_patch(&ev, &untouched);
    assert!(body.is_empty());
}

#[test]
fn a_reminder_change_alone_is_a_real_edit() {
    let mut ev = lunch();
    ev.reminders = Reminders { use_default: true, overrides: Vec::new() };

    let mut after = form("Lunch", OCCURRENCE, OCCURRENCE + HOUR_MS);
    after.reminders = Some(Reminders { use_default: false, overrides: vec![Reminder { method: "popup".into(), minutes: 15 }] });
    let body = lunch_patch(&ev, &after);
    assert!(body.reminders, "the reminders go, whole");
    assert!(!body.summary && !body.location && !body.description && body.times.is_none());
    assert!(!body.recurrence && body.attendees.is_none(), "and nothing else does");
}

#[test]
fn a_guest_change_alone_is_a_real_edit() {
    let ev = lunch();
    let wanted: Vec<Guest> = guests_of(&three()).into_iter().filter(|g| g.email != "petya@x.com").collect();
    let after = form_with_guests("Lunch", OCCURRENCE, OCCURRENCE + HOUR_MS, wanted);
    let body = lunch_patch(&ev, &after);

    assert!(!body.is_empty(), "a removal was read as a no-op and dropped");
    assert_eq!(body.attendees.as_ref().map(Vec::len), Some(2));
    assert!(!body.summary, "an untouched title rode along with the guests");
}

#[test]
fn a_deleted_meetings_ledger_memory_is_kept_under_its_series_root() {
    assert_eq!(omacal::writes::ledger_root(Some("master1"), "ev1"), "master1");
    assert_eq!(omacal::writes::ledger_root(None, "ev1"), "ev1");
}
