use omacal::clock::{date_in_words, TimeFormat};
use omacal::guests::Attendee;
use omacal::invites::{
    invite_notification_with_format, invite_step, may_notify, offers_accept, to_change_notice,
    to_decline_notice, to_pending, Action, ChangedMeeting, DeclinedGuest, InviteCandidate,
    InvitePass, InviteStep, Notification,
};

const NOW: i64 = 1_786_352_400_000; // 2026-08-10T09:00:00Z
const HOUR: i64 = 3_600_000;
const SOFIA: &str = "Europe/Sofia";

fn me() -> Vec<Attendee> {
    vec![Attendee {
        email: "me@x.com".into(),
        display_name: None,
        response_status: "needsAction".into(),
        optional: false,
        is_self: true,
        comment: None,
        additional_guests: 0,
    }]
}

fn candidate() -> InviteCandidate {
    InviteCandidate {
        event_id: 7,
        calendar_id: 1,
        summary: Some("NVP sync meeting".into()),
        start_utc: NOW + HOUR,
        end_utc: NOW + 2 * HOUR,
        is_all_day: false,
        organizer_email: Some("ana@x.com".into()),
        calendar_timezone: SOFIA.into(),
        calendar_selected: true,
        provider: "google".into(),
        access_role: "owner".into(),
        attendees: me(),
        color_hex: Some("#5b8def".into()),
    }
}

/// The announcement as the Linux build posts it, on the 24-hour clock.
fn invite_notification(c: &InviteCandidate, display_tz: &str) -> Notification {
    invite_notification_with_format(c, display_tz, TimeFormat::H24, true)
}

#[test]
fn rows_without_a_working_rsvp_carry_no_buttons() {
    assert!(to_pending(&candidate(), false).can_respond);
    assert!(!to_pending(&candidate(), true).can_respond, "demo answers nothing");

    let mut caldav = candidate();
    caldav.provider = "caldav".into();
    assert!(!to_pending(&caldav, false).can_respond);
}

#[test]
fn an_all_day_invite_carries_its_days_not_just_instants() {
    let mut c = candidate();
    c.is_all_day = true;
    c.start_utc = 1_786_395_600_000;
    c.end_utc = c.start_utc + 24 * HOUR;
    let r = to_pending(&c, false);
    assert_eq!(r.start_date.as_deref(), Some("2026-08-11"));
    assert_eq!(r.end_date.as_deref(), Some("2026-08-11"), "inclusive last day");
}

#[test]
fn a_timed_invitation_reads_in_the_display_zone_with_its_day() {
    let n = invite_notification(&candidate(), SOFIA);
    assert_eq!(n.title, "Invitation: NVP sync meeting");
    assert!(n.body.starts_with("Mon, Aug 10 · 13:00 · from ana@x.com"), "{}", n.body);
}

#[test]
fn a_timed_invitation_uses_the_selected_twelve_hour_clock() {
    let n = invite_notification_with_format(&candidate(), SOFIA, TimeFormat::H12, true);
    assert!(n.body.starts_with("Mon, Aug 10 · 1:00 PM · from ana@x.com"), "{}", n.body);
}

#[test]
fn an_all_day_invitation_reads_its_date_in_the_calendars_zone() {
    let mut c = candidate();
    c.is_all_day = true;
    c.start_utc = 1_786_395_600_000;
    let n = invite_notification(&c, "UTC");
    assert!(n.body.starts_with("Tue, Aug 11 · All day"), "{}", n.body);
}

#[test]
fn an_untitled_invitation_still_has_a_title() {
    let mut c = candidate();
    c.summary = None;
    assert_eq!(invite_notification(&c, SOFIA).title, "Invitation: (no title)");
}

#[test]
fn an_invitation_announcement_stays_until_dealt_with() {
    assert!(invite_notification(&candidate(), SOFIA).sticky);

    let mut caldav = candidate();
    caldav.provider = "caldav".into();
    assert!(invite_notification(&caldav, SOFIA).sticky, "no click, still worth seeing");
}

#[test]
fn the_accepting_click_exists_only_for_an_answerable_google_event() {
    let n = invite_notification(&candidate(), SOFIA);
    assert_eq!(n.actions, vec![Action::AcceptInvite { event_id: 7, start_ms: NOW + HOUR }]);
    assert!(n.body.ends_with("Click to accept · right-click to dismiss"), "{}", n.body);

    let mut caldav = candidate();
    caldav.provider = "caldav".into();
    let n = invite_notification(&caldav, SOFIA);
    assert!(n.actions.is_empty(), "no RSVP write exists for CalDAV");
    assert!(!n.body.contains("Click to accept"), "must not instruct a click that does nothing");
    assert!(n.body.ends_with("Right-click to dismiss"), "{}", n.body);

    let mut reader = candidate();
    reader.access_role = "reader".into();
    assert!(invite_notification(&reader, SOFIA).actions.is_empty());

    let mut not_a_guest = candidate();
    not_a_guest.attendees.clear();
    assert!(invite_notification(&not_a_guest, SOFIA).actions.is_empty());
}

// --- further cases of this library's own ----------------------------------

#[test]
fn the_exact_announcement_of_a_timed_invitation() {
    let n = invite_notification(&candidate(), SOFIA);
    assert_eq!(
        n.body,
        "Mon, Aug 10 · 13:00 · from ana@x.com\nClick to accept · right-click to dismiss"
    );
}

#[test]
fn where_the_platform_draws_its_own_controls_nothing_is_spelled_out() {
    let n = invite_notification_with_format(&candidate(), SOFIA, TimeFormat::H24, false);
    assert!(n.actions.is_empty(), "no click is delivered there");
    assert_eq!(n.body, "Mon, Aug 10 · 13:00 · from ana@x.com");
    let mut c = candidate();
    c.organizer_email = Some(String::new());
    let n = invite_notification_with_format(&c, SOFIA, TimeFormat::H24, false);
    assert_eq!(n.body, "Mon, Aug 10 · 13:00", "an empty organizer says nothing");
}

#[test]
fn midnight_and_noon_on_the_twelve_hour_clock() {
    let mut c = candidate();
    c.start_utc = NOW - 9 * HOUR - 3 * HOUR; // 2026-08-09T21:00Z, midnight in Sofia
    let n = invite_notification_with_format(&c, SOFIA, TimeFormat::H12, false);
    assert!(n.body.starts_with("Mon, Aug 10 · 12:00 AM"), "{}", n.body);
    c.start_utc = NOW; // 12:00 in Sofia
    let n = invite_notification_with_format(&c, SOFIA, TimeFormat::H12, false);
    assert!(n.body.starts_with("Mon, Aug 10 · 12:00 PM"), "{}", n.body);
    let n = invite_notification_with_format(&c, "Asia/Kolkata", TimeFormat::H24, false);
    assert!(n.body.starts_with("Mon, Aug 10 · 14:30"), "{}", n.body);
}

#[test]
fn a_day_in_words_names_weekday_month_and_day() {
    assert_eq!(date_in_words(NOW, SOFIA), "Mon, Aug 10");
    assert_eq!(date_in_words(0, "UTC"), "Thu, Jan 1");
    assert_eq!(date_in_words(NOW, "Not/AZone"), "Mon, Aug 10", "an unknown zone reads as UTC");
    assert_eq!(date_in_words(i64::MAX, "UTC"), "Thu, Jan 1", "beyond the clock reads as the epoch");
}

#[test]
fn offering_the_click_is_the_popovers_rule_on_google() {
    assert!(offers_accept(&candidate()));
    let mut c = candidate();
    c.provider = "caldav".into();
    assert!(!offers_accept(&c));
}

#[test]
fn a_pass_seeds_the_backlog_mutes_hidden_calendars_and_announces_the_rest() {
    assert!(may_notify(false, true));
    assert!(!may_notify(true, true), "demo mode silences the pass");
    assert!(!may_notify(false, false), "the switch silences the pass");

    assert_eq!(invite_step(true, true), InviteStep::Seed);
    assert_eq!(invite_step(true, false), InviteStep::Seed);
    assert_eq!(invite_step(false, false), InviteStep::Wait);
    assert_eq!(invite_step(false, true), InviteStep::Announce);

    let mut pass = InvitePass::new();
    pass.record(InviteStep::Seed, 1);
    pass.record(InviteStep::Wait, 2);
    pass.record(InviteStep::Announce, 3);
    assert_eq!(pass, InvitePass { posted: vec![3], seeded: 1 });
}

#[test]
fn a_decline_lists_with_its_days_in_the_calendars_zone() {
    let d = DeclinedGuest {
        calendar_id: 1,
        gid: "g1".into(),
        email: "bo@x.com".into(),
        display_name: Some("Bo".into()),
        summary: Some("Offsite".into()),
        start_utc: 1_786_395_600_000,
        end_utc: 1_786_395_600_000 + 48 * HOUR,
        is_all_day: true,
        calendar_timezone: SOFIA.into(),
        color_hex: None,
    };
    let n = to_decline_notice(d);
    assert_eq!(n.start_date.as_deref(), Some("2026-08-11"));
    assert_eq!(n.end_date.as_deref(), Some("2026-08-12"));
    assert_eq!(n.title.as_deref(), Some("Offsite"));
    assert_eq!(n.email, "bo@x.com");
}

fn moved() -> ChangedMeeting {
    ChangedMeeting {
        calendar_id: 1,
        gid: "g2".into(),
        kind: "moved".into(),
        summary: Some("Review".into()),
        is_all_day: true,
        old_start_utc: 1_786_395_600_000,
        old_end_utc: None,
        new_start_utc: Some(1_786_395_600_000 + 24 * HOUR),
        new_end_utc: None,
        calendar_timezone: SOFIA.into(),
        color_hex: None,
        event_id: Some(9),
        respond_all: false,
        provider: "google".into(),
        access_role: "owner".into(),
        attendees: me(),
    }
}

#[test]
fn a_moved_meeting_can_be_answered_for_its_new_slot() {
    let n = to_change_notice(moved(), false);
    assert_eq!(n.old_start_date.as_deref(), Some("2026-08-11"));
    assert_eq!(n.new_start_date.as_deref(), Some("2026-08-12"));
    assert_eq!(n.respond_scope, "this");
    assert_eq!(n.respond_start_ms, Some(1_786_395_600_000 + 24 * HOUR));
    assert!(n.can_respond);
    assert!(!to_change_notice(moved(), true).can_respond, "demo answers nothing");

    let mut cancelled = moved();
    cancelled.kind = "cancelled".into();
    cancelled.new_start_utc = None;
    cancelled.event_id = None;
    cancelled.respond_all = true;
    let n = to_change_notice(cancelled, false);
    assert_eq!(n.new_start_date, None);
    assert_eq!(n.respond_scope, "all");
    assert!(!n.can_respond, "a cancellation has nothing left to answer");
}

#[test]
fn the_clock_reads_up_to_the_last_instant_the_time_library_holds() {
    let last = 253_402_207_200_000;
    assert_eq!(date_in_words(last, "UTC"), "Thu, Dec 30");
    assert_eq!(date_in_words(last + 1, "UTC"), "Thu, Jan 1", "one past it reads as the epoch");
    let first = -377_705_023_201_000;
    assert_ne!(date_in_words(first, "UTC"), "Thu, Jan 1");
    assert_eq!(date_in_words(first - 1, "UTC"), "Thu, Jan 1");
}

use omacal::invites::acceptance_notice;

#[test]
fn an_accepted_invitation_says_so_and_a_failed_one_says_where_to_answer() {
    let ok = acceptance_notice(Ok(Some("Review".into())));
    assert_eq!(ok.title, "Review");
    assert_eq!(ok.body, "Invitation accepted");
    assert!(!ok.sticky, "a confirmation is read once");
    assert!(ok.actions.is_empty());
    assert_eq!(acceptance_notice(Ok(Some(String::new()))).title, "(no title)");
    assert_eq!(acceptance_notice(Ok(None)).title, "(no title)");
    let failed = acceptance_notice(Err("that event is no longer here.".into()));
    assert_eq!(failed.title, "Could not accept the invitation");
    assert_eq!(failed.body, "that event is no longer here. Open OmaCal to answer.");
    assert!(failed.sticky, "a failure must not evaporate before it is read");
}
