use omacal::events::{Reminders, StoredEvent, When};
use omacal::edits::{edit_patch, EditForm, EditPatch};
use omacal::zone::date_in_zone;
use omacal::writes::edit_times;

fn midnight_in(date: &str, tz: &str) -> i64 {
    format!("{date}T00:00:00[{tz}]")
        .parse::<jiff::Zoned>()
        .unwrap_or_else(|e| panic!("{date} in {tz}: {e}"))
        .timestamp()
        .as_millisecond()
}

fn ny(wall: &str) -> i64 {
    wall.parse::<jiff::civil::DateTime>()
        .unwrap()
        .in_tz("America/New_York")
        .unwrap()
        .timestamp()
        .as_millisecond()
}

fn stored() -> StoredEvent {
    StoredEvent {
        id: 1,
        calendar_id: 1,
        google_id: "ev1".into(),
        summary: None,
        location: None,
        start_utc: 0,
        end_utc: 0,
        start_tz: "UTC".into(),
        end_tz: "UTC".into(),
        is_all_day: false,
        recurrence: None,
        recurring_event_id: None,
        original_start_utc: None,
        status: "confirmed".into(),
        self_response: None,
        conference_uri: None,
        color_hex: None,
        calendar_timezone: "UTC".into(),
        description: None,
        etag: Some("\"old\"".into()),
        sequence: 1,
        organizer_email: None,
        guests_can_modify: false,
        attendees: Vec::new(),
        reminders: Reminders::default(),
        calendar_default_reminders: Vec::new(),
    }
}

fn all_day_row(start: &str, end: &str, cal_tz: &str) -> StoredEvent {
    let mut ev = stored();
    ev.google_id = "allday1".into();
    ev.summary = Some("Berlin trip".into());
    ev.is_all_day = true;
    ev.start_utc = midnight_in(start, cal_tz);
    ev.end_utc = midnight_in(end, cal_tz);
    ev
}

fn dates(start: &str, end: &str) -> When {
    When::AllDay { start_date: start.into(), end_date: end.into() }
}

/// The edit form with this title and these dates (`end` exclusive), nothing
/// else touched. The browser's own zone is not part of it: the zone an edit
/// is described in is decided from the event and the calendar alone.
fn all_day_form(summary: &str, start: &str, end: &str) -> EditForm {
    EditForm {
        summary: Some(summary.into()),
        location: None,
        description: None,
        when: dates(start, end),
        recurrence: None,
        guests: None,
        reminders: None,
    }
}

/// The patch an edit of `ev` clicked at `occurrence` builds from `after`.
fn patch(ev: &StoredEvent, occurrence: i64, cal_tz: &str, after: &EditForm) -> EditPatch {
    let t = edit_times(ev, ev.start_utc, ev.end_utc, occurrence, cal_tz, &after.when);
    edit_patch(ev, t, after)
}

/// The dates a patch sends, if it sends any.
fn sent_dates(p: &EditPatch) -> Option<&When> {
    p.times.as_ref().map(|t| &t.0)
}

fn sent_start(p: &EditPatch) -> Option<&str> {
    match sent_dates(p) {
        Some(When::AllDay { start_date, .. }) => Some(start_date.as_str()),
        _ => None,
    }
}

fn sent_end(p: &EditPatch) -> Option<&str> {
    match sent_dates(p) {
        Some(When::AllDay { end_date, .. }) => Some(end_date.as_str()),
        _ => None,
    }
}

#[test]
fn an_untouched_all_day_date_sends_no_times_when_the_calendar_zone_is_not_the_browsers() {
    const CAL_TZ: &str = "America/New_York";
    const BROWSER_TZ: &str = "Europe/Sofia";

    let ev = all_day_row("2026-08-10", "2026-08-11", CAL_TZ);
    assert_ne!(
        ev.start_utc,
        midnight_in("2026-08-10", BROWSER_TZ),
        "fixture check: the two zones must genuinely disagree about this date's instant"
    );

    let after = all_day_form("Berlin trip (booked)", "2026-08-10", "2026-08-11");
    let body = patch(&ev, ev.start_utc, CAL_TZ, &after);

    assert!(body.summary, "the edit the user actually made");
    assert_eq!(after.summary.as_deref(), Some("Berlin trip (booked)"));
    assert_eq!(sent_start(&body), None, "the date did not change, so no `start` may be sent");
    assert_eq!(sent_end(&body), None, "no `end` either");
    assert!(body.times.is_none());
}

#[test]
fn an_untouched_all_day_date_sends_no_times_when_both_zones_agree() {
    const TZ: &str = "America/New_York";

    let ev = all_day_row("2026-08-10", "2026-08-11", TZ);
    let after = all_day_form("Berlin trip (booked)", "2026-08-10", "2026-08-11");
    let body = patch(&ev, ev.start_utc, TZ, &after);

    assert!(body.summary);
    assert_eq!(sent_start(&body), None, "an untouched date must send no start");
    assert_eq!(sent_end(&body), None, "an untouched date must send no end");
}

#[test]
fn a_changed_all_day_date_sends_the_dates_the_user_picked() {
    const CAL_TZ: &str = "America/New_York";

    let ev = all_day_row("2026-08-10", "2026-08-11", CAL_TZ);
    let after = all_day_form("Berlin trip", "2026-08-12", "2026-08-14");
    let body = patch(&ev, ev.start_utc, CAL_TZ, &after);

    assert_eq!(sent_start(&body), Some("2026-08-12"));
    assert_eq!(sent_end(&body), Some("2026-08-14"));
}

#[test]
fn a_title_only_edit_of_an_all_day_series_sends_no_dates() {
    const CAL_TZ: &str = "Pacific/Auckland";

    let mut ev = all_day_row("2026-01-05", "2026-01-06", CAL_TZ);
    ev.recurrence = Some("RRULE:FREQ=WEEKLY".into());
    assert_eq!(
        jiff::Timestamp::from_millisecond(ev.start_utc).unwrap().to_string(),
        "2026-01-04T11:00:00Z",
        "fixture check: the stored instant must fall on the *previous* date in UTC"
    );

    let occurrence = midnight_in("2026-08-10", CAL_TZ);
    let after = all_day_form("Berlin trip (booked)", "2026-08-10", "2026-08-11");
    let body = patch(&ev, occurrence, CAL_TZ, &after);

    assert!(body.summary);
    assert_eq!(
        sent_start(&body),
        None,
        "the master's DTSTART would move seven months onto the clicked date"
    );
    assert_eq!(sent_end(&body), None);
}

#[test]
fn moving_an_all_day_series_shifts_the_master_by_the_days_the_user_moved() {
    const CAL_TZ: &str = "Pacific/Auckland";

    let mut ev = all_day_row("2026-01-05", "2026-01-06", CAL_TZ);
    ev.recurrence = Some("RRULE:FREQ=WEEKLY".into());

    let occurrence = midnight_in("2026-08-10", CAL_TZ);
    let after = all_day_form("Berlin trip", "2026-08-11", "2026-08-13");
    let body = patch(&ev, occurrence, CAL_TZ, &after);

    assert_eq!(sent_start(&body), Some("2026-01-06"), "the master moved by one day, which is what the user did");
    assert_eq!(
        sent_end(&body),
        Some("2026-01-08"),
        "the master's end moved by two days — one for the move, one for the extra day of length"
    );
}

#[test]
fn an_all_day_series_reads_its_dates_in_the_calendars_zone_not_utc() {
    const CAL_TZ: &str = "Europe/Lisbon";

    let mut ev = all_day_row("2026-01-05", "2026-01-06", CAL_TZ);
    ev.recurrence = Some("RRULE:FREQ=WEEKLY".into());
    let occurrence = midnight_in("2026-08-10", CAL_TZ);

    assert_eq!(
        jiff::Timestamp::from_millisecond(ev.start_utc).unwrap().to_string(),
        "2026-01-05T00:00:00Z",
        "fixture check: the master's midnight must fall on the *same* UTC date"
    );
    assert_eq!(
        jiff::Timestamp::from_millisecond(occurrence).unwrap().to_string(),
        "2026-08-09T23:00:00Z",
        "fixture check: the occurrence's midnight must fall on the *previous* UTC date"
    );

    let after = all_day_form("Berlin trip (booked)", "2026-08-10", "2026-08-11");
    let body = patch(&ev, occurrence, CAL_TZ, &after);

    assert!(body.summary);
    assert_eq!(
        sent_start(&body),
        None,
        "the dates were derived in the wrong zone: the master's DTSTART moves a day forward"
    );
    assert_eq!(sent_end(&body), None);
}

fn weekly_ny_master() -> StoredEvent {
    let mut ev = stored();
    ev.google_id = "master1".into();
    ev.summary = Some("Standup".into());
    ev.recurrence = Some("RRULE:FREQ=WEEKLY".into());
    ev.start_tz = "America/New_York".into();
    ev.end_tz = "America/New_York".into();
    ev.start_utc = ny("2026-01-05T22:00:00");
    ev.end_utc = ny("2026-01-05T23:00:00");
    ev
}

#[test]
fn turning_on_all_day_for_a_series_lands_on_the_masters_own_date() {
    const CAL_TZ: &str = "America/Argentina/Buenos_Aires";

    let ev = weekly_ny_master();
    let occurrence = ny("2026-08-10T22:00:00");
    assert_ne!(
        date_in_zone(ev.start_utc, CAL_TZ) == "2026-01-05",
        date_in_zone(occurrence, CAL_TZ) == "2026-08-10",
        "fixture check: the calendar's zone must disagree with the event's own on exactly one \
         of these two instants"
    );

    let after = all_day_form("Standup", "2026-08-10", "2026-08-11");
    let body = patch(&ev, occurrence, CAL_TZ, &after);

    assert_eq!(
        sent_start(&body),
        Some("2026-01-05"),
        "the master became all-day on the clicked occurrence's date rather than its own"
    );
    assert_eq!(sent_end(&body), Some("2026-01-06"));
}

#[test]
fn turning_on_all_day_from_a_browser_a_day_ahead_moves_the_master_by_one_day_not_seven_months() {
    let ev = weekly_ny_master();
    let occurrence = ny("2026-08-10T22:00:00");
    assert_eq!(
        date_in_zone(occurrence, "Europe/Sofia"),
        "2026-08-11",
        "fixture check: the browser must genuinely read this occurrence as the next day"
    );

    let after = all_day_form("Standup", "2026-08-11", "2026-08-12");
    let body = patch(&ev, occurrence, "America/Argentina/Buenos_Aires", &after);

    assert_eq!(sent_start(&body), Some("2026-01-06"), "bounded: one day off the master's own date, not 2026-08-11");
    assert_eq!(sent_end(&body), Some("2026-01-07"));
}

const HOUR: i64 = 3_600_000;

#[test]
fn a_timed_shift_across_a_transition_keeps_the_series_time_of_day() {
    let mut ev = weekly_ny_master();
    ev.start_utc = ny("2026-02-07T09:00:00");
    ev.end_utc = ny("2026-02-07T10:00:00");
    let occurrence = ny("2026-03-07T09:00:00");
    let moved = ny("2026-03-08T09:00:00");
    assert_eq!(moved - occurrence, 23 * HOUR, "fixture check: the move must cross the transition");
    let form = When::Timed { start_ms: moved, end_ms: moved + HOUR };
    let t = edit_times(&ev, ev.start_utc, ev.end_utc, occurrence, "UTC", &form);
    assert_eq!(
        t.after,
        When::Timed { start_ms: ny("2026-02-08T09:00:00"), end_ms: ny("2026-02-08T10:00:00") },
        "a day on the calendar, not 23 hours"
    );
    assert_eq!(t.after_zone, "America/New_York", "the event keeps its own zone");
}

#[test]
fn a_one_off_ignores_the_occurrence_anchor_and_takes_the_form_at_face_value() {
    const OCCURRENCE: i64 = 1_786_352_400_000;
    let mut ev = stored();
    ev.start_utc = OCCURRENCE;
    ev.end_utc = OCCURRENCE + HOUR;
    let wrong_anchor = OCCURRENCE - 14 * 24 * HOUR;
    let form = When::Timed { start_ms: OCCURRENCE + HOUR, end_ms: OCCURRENCE + 2 * HOUR };
    let t = edit_times(&ev, ev.start_utc, ev.end_utc, wrong_anchor, "UTC", &form);
    assert_eq!(t.after, When::Timed { start_ms: OCCURRENCE + HOUR, end_ms: OCCURRENCE + 2 * HOUR });
}

fn weekly_all_day_ny_master() -> StoredEvent {
    let mut ev = weekly_ny_master();
    ev.is_all_day = true;
    ev.start_tz = "Europe/Sofia".into(); // ignored: all-day takes the calendar's zone
    ev.start_utc = ny("2026-02-07T00:00:00");
    ev.end_utc = ny("2026-02-08T00:00:00");
    ev
}

#[test]
fn a_title_only_all_day_edit_across_a_fall_back_still_sends_no_dates() {
    let ev = weekly_all_day_ny_master();
    let occurrence = ny("2026-11-01T00:00:00");
    assert_eq!(ny("2026-11-02T00:00:00") - occurrence, 25 * HOUR, "fixture check: a fall-back day");
    let after = all_day_form("Standup (booked)", "2026-11-01", "2026-11-02");
    let t = edit_times(&ev, ev.start_utc, ev.end_utc, occurrence, "America/New_York", &after.when);
    assert_eq!(t.before, dates("2026-02-07", "2026-02-08"));
    let body = patch(&ev, occurrence, "America/New_York", &after);
    assert!(body.summary, "the title goes out");
    assert!(body.times.is_none(), "and nothing else does");
}

#[test]
fn an_all_day_series_moved_across_a_fall_back_shifts_the_master_by_one_day() {
    let ev = weekly_all_day_ny_master();
    let occurrence = ny("2026-11-01T00:00:00");
    let after = all_day_form("Standup", "2026-11-02", "2026-11-03");
    let body = patch(&ev, occurrence, "America/New_York", &after);
    assert_eq!(sent_start(&body), Some("2026-02-08"));
    assert_eq!(sent_end(&body), Some("2026-02-09"));
}
