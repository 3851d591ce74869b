use omacal::credentials::{
    cached_access_token, cached_is_usable, forget_stale_credentials, held_refresh_token,
    refreshed_tokens, CachedTokens, ReauthMarks, TokenCache,
};
use omacal::display_tz::{sidecar_zone, tz_action, TzAction};
use omacal::sync::{
    accounts_to_attempt, clock_timestamp, demo_sync_guard, mark_dead, now_ms, sync_result,
    synced_window, SyncFailed, SyncTally, DEMO_SYNC_MESSAGE,
};

#[test]
fn the_tz_decision_sets_clears_ours_and_leaves_theirs() {
    assert_eq!(tz_action(Some("Europe/Sofia"), false), TzAction::Export("Europe/Sofia".into()));
    assert_eq!(
        tz_action(Some("Asia/Kolkata"), true),
        TzAction::Export("Asia/Kolkata".into()),
        "changing zones overwrites the inherited export"
    );
    assert_eq!(tz_action(None, true), TzAction::Clear, "back to system undoes OUR export");
    assert_eq!(tz_action(None, false), TzAction::Leave, "the user's own TZ is not ours to touch");
}

#[test]
fn the_demo_gate_blocks_sync_with_a_friendly_message_and_lets_real_accounts_through() {
    assert_eq!(demo_sync_guard(true), Err(DEMO_SYNC_MESSAGE.to_string()));
    assert!(
        !DEMO_SYNC_MESSAGE.to_lowercase().contains("credential"),
        "the demo-mode message must read as intentional, not as a leaked technical error"
    );
    assert_eq!(demo_sync_guard(false), Ok(()));
}

fn cached(expires_at_ms: i64) -> CachedTokens {
    CachedTokens::new("rt".into(), "at".into(), expires_at_ms)
}

const NOW: i64 = 1_785_715_200_000;

#[test]
fn an_absent_entry_is_never_usable() {
    assert!(!cached_is_usable(None, NOW));
}

#[test]
fn a_live_entry_is_usable_so_the_keychain_is_not_read() {
    assert!(cached_is_usable(Some(&cached(NOW + 60_000)), NOW));
}

#[test]
fn an_expired_entry_is_not_usable() {
    assert!(!cached_is_usable(Some(&cached(NOW - 1)), NOW));
}

#[test]
fn an_entry_expiring_exactly_now_is_not_usable() {
    assert!(!cached_is_usable(Some(&cached(NOW)), NOW));
}

#[test]
fn the_synced_window_is_180_days_back_and_365_forward() {
    const DAY: i64 = 24 * 3_600_000;
    let now = 1_786_341_600_000;
    let (from, to) = synced_window(now);
    assert_eq!(from, now - 180 * DAY);
    assert_eq!(to, now + 365 * DAY);
    assert!(from < now && now < to);
}

#[test]
fn the_demo_message_reads_correctly_for_sign_in_as_well_as_sync() {
    let m = DEMO_SYNC_MESSAGE.to_lowercase();
    assert!(m.contains("connect"), "must cover the Connect button: {DEMO_SYNC_MESSAGE}");
    assert!(m.contains("sync"), "must still cover Sync now: {DEMO_SYNC_MESSAGE}");
}

fn marks(emails: &[&str]) -> ReauthMarks {
    let mut m = ReauthMarks::new();
    for e in emails {
        m.insert(e.to_string());
    }
    m
}

#[test]
fn a_marked_account_is_left_out_of_the_attempt_list() {
    let accounts = vec![(1, "dead@x".to_string()), (2, "healthy@x".to_string())];
    let marked = marks(&["dead@x"]);

    let attempted = accounts_to_attempt(accounts.clone(), &marked);
    assert_eq!(attempted, vec![(2, "healthy@x".to_string())]);

    let nobody_marked = accounts_to_attempt(accounts.clone(), &ReauthMarks::new());
    assert_eq!(nobody_marked, accounts, "an empty mark set must change nothing");
}

#[test]
fn a_sign_in_forgets_the_accounts_stale_credentials_and_mark() {
    let mut tokens = TokenCache::new();
    tokens.insert("dead@x".to_string(), CachedTokens::new("rt-dead".into(), "at-dead".into(), 0));
    tokens.insert("other@x".to_string(), CachedTokens::new("rt-other".into(), "at-other".into(), i64::MAX));
    let mut reauth = marks(&["dead@x", "other@x"]);

    forget_stale_credentials(&mut tokens, &mut reauth, "dead@x");

    assert!(tokens.get("dead@x").is_none(), "the dead pair would be presented again");
    assert!(!reauth.contains("dead@x"), "the account stays out of the sync rotation");
    assert_eq!(
        tokens.get("other@x").map(|t| t.access_token().to_string()),
        Some("at-other".to_string()),
        "another account's cache was logged out"
    );
    assert!(reauth.contains("other@x"), "another account's mark was cleared");
}

#[test]
fn a_clean_sync_reports_what_it_wrote() {
    assert_eq!(sync_result(7, &[]).unwrap(), 7);
    assert_eq!(sync_result(0, &[]).unwrap(), 0, "nothing to do is not a failure");
}

#[test]
fn a_sync_where_everything_failed_is_an_error() {
    assert!(sync_result(0, &["revoked@x".to_string()]).is_err());
}

#[test]
fn a_partial_sync_is_still_reported_as_a_failure() {
    assert!(sync_result(42, &["revoked@x".to_string()]).is_err());
}

#[test]
fn the_reported_failure_carries_a_count_and_no_account() {
    let e = sync_result(
        0,
        &["someone@example.com".to_string(), "someone@example.com / a-calendar".to_string()],
    )
    .unwrap_err();
    let text = e.message();

    assert!(!text.contains("someone@example.com"), "an account email reached a user-facing string: {text}");
    assert!(!text.contains("a-calendar"), "a calendar id reached a user-facing string: {text}");
    assert!(text.contains('2'), "the count is the whole payload: {text}");
}

// --- further cases of this library's own ----------------------------------

#[test]
fn the_failure_report_reads_as_a_sentence() {
    assert_eq!(
        SyncFailed { failed: 3 }.message(),
        "3 of this sync's targets failed; see the log"
    );
}

#[test]
fn a_tally_keeps_dead_tokens_apart_from_failures() {
    let mut t = SyncTally::new();
    t.wrote(4);
    t.needs_reauth("dead@x");
    t.calendar_failed("a@x", "cal-1");
    t.wrote(3);
    assert_eq!(t.total, 7);
    assert_eq!(t.dead, vec!["dead@x".to_string()]);
    assert_eq!(t.failed, vec!["a@x / cal-1".to_string()]);
    assert_eq!(t.result(), Err(SyncFailed { failed: 1 }));

    let mut clean = SyncTally::new();
    clean.wrote(5);
    clean.needs_reauth("dead@x");
    assert_eq!(clean.result(), Ok(5), "a dead token is not a sync failure");
    let mut failing = SyncTally::new();
    failing.account_failed("b@x");
    assert_eq!(failing.failed, vec!["b@x".to_string()]);
}

#[test]
fn marks_are_listed_in_address_order_each_once() {
    let mut m = marks(&["zed@x", "amy@x", "kim@x", "amy@x"]);
    assert_eq!(m.emails(), vec!["amy@x".to_string(), "kim@x".to_string(), "zed@x".to_string()]);
    m.remove("kim@x");
    assert_eq!(m.emails(), vec!["amy@x".to_string(), "zed@x".to_string()]);
    mark_dead(&mut m, &["bob@x".to_string(), "zed@x".to_string()]);
    assert_eq!(
        m.emails(),
        vec!["amy@x".to_string(), "bob@x".to_string(), "zed@x".to_string()]
    );
}

#[test]
fn a_cached_token_is_used_only_while_it_lives() {
    let mut cache = TokenCache::new();
    assert_eq!(cached_access_token(&cache, "a@x", NOW), None);
    assert_eq!(held_refresh_token(&cache, "a@x"), None);
    cache.insert("a@x".to_string(), cached(NOW + 1));
    assert_eq!(cached_access_token(&cache, "a@x", NOW), Some("at".to_string()));
    assert_eq!(cached_access_token(&cache, "a@x", NOW + 1), None);
    assert_eq!(held_refresh_token(&cache, "a@x"), Some("rt".to_string()));
    cache.insert("a@x".to_string(), CachedTokens::new("rt2".into(), "at2".into(), NOW + 5));
    assert_eq!(cached_access_token(&cache, "a@x", NOW), Some("at2".to_string()));
    cache.remove("a@x");
    assert!(cache.get("a@x").is_none());
}

#[test]
fn a_refresh_keeps_the_refresh_token_it_used_unless_a_new_one_came() {
    let kept = refreshed_tokens(None, "used".into(), "fresh".into(), 9);
    assert_eq!(kept.refresh_token(), "used");
    assert_eq!(kept.access_token(), "fresh");
    assert_eq!(kept.expires_at_ms(), 9);
    let replaced = refreshed_tokens(Some("new".into()), "used".into(), "fresh".into(), 9);
    assert_eq!(replaced.refresh_token(), "new");
}

#[test]
fn the_clock_reading_becomes_a_timestamp() {
    assert_eq!(clock_timestamp(None), 0);
    assert_eq!(clock_timestamp(Some(1_786_341_600_000)), 1_786_341_600_000);
    assert!(now_ms() > 1_700_000_000_000);
}

#[test]
fn a_sidecar_names_a_zone_only_when_it_says_something() {
    assert_eq!(sidecar_zone(Some("  Europe/Sofia\n")), Some("Europe/Sofia".to_string()));
    assert_eq!(sidecar_zone(Some(" \n")), None);
    assert_eq!(sidecar_zone(None), None);
}

use omacal::credentials::{
    account_email, check_sign_in_state, require_refresh_token, ListedCalendar, NO_PRIMARY,
    NO_REFRESH_TOKEN, STATE_MISMATCH,
};
use omacal::sync::{accounts_of, AccountRow};

#[test]
fn a_sign_in_checks_its_state_and_learns_the_address_from_the_primary_calendar() {
    assert_eq!(check_sign_in_state("abc", "abc"), Ok(()));
    assert_eq!(check_sign_in_state("abd", "abc"), Err(STATE_MISMATCH.to_string()));
    let cals = vec![
        ListedCalendar { id: "holidays@group".into(), primary: false },
        ListedCalendar { id: "me@x.com".into(), primary: true },
        ListedCalendar { id: "other@x.com".into(), primary: true },
    ];
    assert_eq!(account_email(&cals), Ok("me@x.com".to_string()));
    assert_eq!(account_email(&cals[..1]), Err(NO_PRIMARY.to_string()));
    assert_eq!(require_refresh_token(Some("rt".into())), Ok("rt".to_string()));
    assert_eq!(require_refresh_token(None), Err(NO_REFRESH_TOKEN.to_string()));
}

#[test]
fn a_sync_goes_through_each_providers_accounts_in_order() {
    let all = vec![
        AccountRow { id: 1, email: "a@x".into(), provider: "google".into() },
        AccountRow { id: 2, email: "b@x".into(), provider: "caldav".into() },
        AccountRow { id: 3, email: "c@x".into(), provider: "google".into() },
    ];
    assert_eq!(accounts_of(&all, "google"), vec![(1, "a@x".to_string()), (3, "c@x".to_string())]);
    assert_eq!(accounts_of(&all, "caldav"), vec![(2, "b@x".to_string())]);
}
