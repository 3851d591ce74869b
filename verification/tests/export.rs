use omacal::export::{export_uid, file_name};

#[test]
fn a_file_name_is_suggested_from_the_title_and_never_empty() {
    assert_eq!(file_name(Some("Design sync")), "Design sync.ics");
    assert_eq!(file_name(Some("Q3/Q4 planning")), "Q3 Q4 planning.ics");
    assert_eq!(file_name(Some("   ")), "event.ics");
    assert_eq!(file_name(None), "event.ics");
    assert_eq!(file_name(Some(".hidden")), "hidden.ics");
}

// --- further cases of this library's own ----------------------------------

#[test]
fn every_character_a_shell_or_a_path_would_argue_about_becomes_a_space() {
    assert_eq!(file_name(Some("a\\b:c*d?e\"f<g>h|i")), "a b c d e f g h i.ics");
    assert_eq!(file_name(Some("tab\there")), "tab here.ics");
    assert_eq!(file_name(Some(" . .. dots")), "dots.ics", "dots and spaces dropped however mixed");
    assert_eq!(file_name(Some(". .x")), "x.ics");
    assert_eq!(file_name(Some(".\t.x y . ")), "x y ..ics");
    assert_eq!(file_name(Some("...")), "event.ics");
}

#[test]
fn a_one_off_keeps_its_own_uid_and_an_occurrence_gets_a_fresh_one() {
    assert_eq!(export_uid(&None, &None, "abc123"), "abc123");
    let fresh = export_uid(&Some("RRULE:FREQ=DAILY".into()), &None, "abc123");
    assert_ne!(fresh, "abc123", "the master's id must not travel");
    assert_eq!(fresh.len(), 36);
    assert_eq!(&fresh[14..15], "4");
    let other = export_uid(&None, &Some("master".into()), "abc123");
    assert_ne!(other, fresh, "each export is a new identity");
}

use omacal::civil::Date;
use omacal::export::{export_endpoints, ExportError, ExportTime};

#[test]
fn an_all_day_event_takes_its_date_in_the_calendars_zone() {
    // 2026-08-12 00:00 Brisbane — 14:00 the previous day in UTC.
    let (a, b) = export_endpoints(true, "Australia/Brisbane", 1_786_456_800_000, 1_786_543_200_000).unwrap();
    assert_eq!(a, ExportTime::Date(Date { year: 2026, month: 8, day: 12 }));
    assert_eq!(b, ExportTime::Date(Date { year: 2026, month: 8, day: 13 }));
}

#[test]
fn a_timed_event_keeps_the_zone_it_was_authored_in() {
    let (a, _) = export_endpoints(false, "Europe/Sofia", 1_786_352_400_000, 1_786_356_000_000).unwrap();
    assert_eq!(
        a,
        ExportTime::Zoned {
            date: Date { year: 2026, month: 8, day: 10 },
            ms_of_day: 12 * 3_600_000,
            tzid: "Europe/Sofia".into()
        }
    );
    assert_eq!(
        export_endpoints(false, "Not/AZone", 0, 1),
        Err(ExportError::UnknownZone("Not/AZone".into()))
    );
    assert_eq!(ExportError::UnknownZone("X".into()).message(), "unknown time zone X");
    assert_eq!(export_endpoints(true, "UTC", i64::MAX, i64::MAX), Err(ExportError::OutOfRange));
    assert_eq!(
        export_endpoints(false, "Not/AZone", i64::MAX, i64::MAX),
        Err(ExportError::UnknownZone("Not/AZone".into())),
        "an unknown zone is told first"
    );
    assert_eq!(export_endpoints(false, "UTC", i64::MAX, i64::MAX), Err(ExportError::OutOfRange));
}

#[test]
fn a_one_off_exports_as_itself() {
    assert_eq!(export_uid(&None, &None, "abc123"), "abc123", "a one-off keeps its own id");
    let (start, _) = export_endpoints(false, "Europe/Sofia", 1_786_352_400_000, 1_786_356_000_000).unwrap();
    assert_eq!(
        start,
        ExportTime::Zoned {
            date: Date { year: 2026, month: 8, day: 10 },
            ms_of_day: 12 * 3_600_000,
            tzid: "Europe/Sofia".into()
        },
        "DTSTART;TZID=Europe/Sofia:20260810T120000"
    );
}

#[test]
fn an_occurrence_of_a_series_never_carries_the_series_uid() {
    let uid = export_uid(&Some("RRULE:FREQ=DAILY".into()), &None, "abc123");
    assert_ne!(uid, "abc123", "the master's id must not travel");
    let (start, _) = export_endpoints(false, "Europe/Sofia", 1_786_438_800_000, 1_786_442_400_000).unwrap();
    assert_eq!(
        start,
        ExportTime::Zoned {
            date: Date { year: 2026, month: 8, day: 11 },
            ms_of_day: 12 * 3_600_000,
            tzid: "Europe/Sofia".into()
        },
        "the occurrence's own day, a day after the master's"
    );
}
