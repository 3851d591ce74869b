use omacal::config::{clean_client_id, config_without_file, unreadable_config, zoom_client_id_without_file, Config};
use omacal::views::{
    big_year_fetch_window, day_fetch_window, month_fetch_window, name_legend, week_fetch_window,
    year_fetch_window, CalendarName, LegendEntry,
};

#[test]
fn the_embedded_pair_applies_only_when_the_file_is_absent() {
    let cfg = config_without_file("/x/config.toml", "not found", Some("embedded-id"), Some("embedded-secret")).unwrap();
    assert_eq!(cfg.client_id, "embedded-id");
    assert_eq!(cfg.client_secret, "embedded-secret");
    assert_eq!(cfg, Config { client_id: "embedded-id".into(), client_secret: "embedded-secret".into() });
}

#[test]
fn absent_file_and_no_embedded_pair_names_the_path_it_looked_for() {
    for embedded in [None, Some("")] {
        let err = config_without_file("/x/config.toml", "No such file", embedded, embedded).unwrap_err();
        assert!(err.starts_with("no config at "), "unexpected message: {err}");
        assert!(err.contains("/x/config.toml"));
        assert!(err.contains("Create it with client_id and client_secret."));
    }
    let e = config_without_file("/x/config.toml", "No such file", None, None).unwrap_err();
    assert!(e.starts_with("no config at /x/config.toml"), "{e}");
    assert_eq!(
        e,
        "no config at /x/config.toml: No such file. Create it with client_id and client_secret."
    );
    assert!(config_without_file("/p", "r", Some("  "), Some("s")).is_err(), "a blank id is not baked");
    assert!(config_without_file("/p", "r", Some("i"), None).is_err(), "half a pair is no pair");
}

#[test]
fn an_unreadable_file_says_so_and_where() {
    assert_eq!(unreadable_config("/p", "denied"), "config at /p is unreadable: denied");
}

#[test]
fn a_zoom_id_is_kept_only_when_it_says_something() {
    assert_eq!(clean_client_id(Some("zid".into())), Some("zid".into()));
    assert_eq!(clean_client_id(Some("  ".into())), None);
    assert_eq!(clean_client_id(None), None);
    assert_eq!(zoom_client_id_without_file(Some("baked")), Some("baked".into()));
    assert_eq!(zoom_client_id_without_file(Some("")), None);
    assert_eq!(zoom_client_id_without_file(None), None);
}

const DAY: i64 = 86_400_000;

#[test]
fn every_view_reads_a_day_more_on_each_side() {
    let t = 1_786_341_600_000;
    assert_eq!(week_fetch_window(t), (t - DAY, t + 8 * DAY));
    assert_eq!(day_fetch_window(t), (t - DAY, t + 2 * DAY));
    assert_eq!(month_fetch_window(t), (t - DAY, t + 43 * DAY));
    assert_eq!(year_fetch_window(t, t + 365 * DAY), (t - DAY, t + 366 * DAY));
    assert_eq!(big_year_fetch_window(t), (t - DAY, t + 393 * DAY));
}

#[test]
fn the_legend_carries_real_names_and_keeps_a_removed_calendars_placeholder() {
    let mut legend = vec![
        LegendEntry { calendar_id: 1, name: "Calendar".into() },
        LegendEntry { calendar_id: 9, name: "Calendar".into() },
    ];
    let cals = vec![CalendarName { id: 1, summary: "Work".into() }, CalendarName { id: 2, summary: "Home".into() }];
    name_legend(&mut legend, &cals);
    assert_eq!(legend[0].name, "Work");
    assert_eq!(legend[1].name, "Calendar", "a removed calendar keeps its placeholder");
    assert_eq!(legend.len(), 2);
}
