use omacal::logging::{log_path, should_rotate, MAX_BYTES};
use omacal::paths::{join, linux_data_dir_from, macos_data_dir_from};

#[test]
fn a_log_is_set_aside_only_once_it_reaches_the_cap() {
    assert!(!should_rotate(0), "a fresh log is not rotated");
    assert!(!should_rotate(MAX_BYTES - 1));
    assert!(should_rotate(MAX_BYTES), "exactly at the cap counts");
    assert!(should_rotate(MAX_BYTES * 10));
}

#[test]
fn the_log_sits_beside_the_database() {
    let data = linux_data_dir_from(None, Some("/home/ana"));
    let Some(dir) = data else {
        panic!("a home directory always gives a data directory");
    };
    let log = log_path(Some(dir.as_str())).unwrap();
    let log = std::path::Path::new(&log);
    assert_eq!(log.parent(), Some(std::path::Path::new(&dir)), "the log left the data directory");
    assert_eq!(log.file_name().unwrap(), "omacal.log");
}

// --- further cases of this library's own ----------------------------------

#[test]
fn the_log_is_two_megabytes_at_most() {
    assert_eq!(MAX_BYTES, 2 * 1024 * 1024);
}

#[test]
fn no_data_directory_means_no_log_file() {
    assert_eq!(log_path(None), None);
}

#[test]
fn paths_join_with_exactly_one_separator() {
    assert_eq!(join("/a", "b"), "/a/b");
    assert_eq!(join("/a/", "b"), "/a/b");
    assert_eq!(join("", "b"), "b");
}

#[test]
fn the_data_directory_follows_the_xdg_rule() {
    assert_eq!(
        linux_data_dir_from(Some("/data"), Some("/home/ana")).as_deref(),
        Some("/data/com.omacal.app")
    );
    assert_eq!(
        linux_data_dir_from(Some("relative"), Some("/home/ana")).as_deref(),
        Some("/home/ana/.local/share/com.omacal.app"),
        "a relative XDG_DATA_HOME is ignored"
    );
    assert_eq!(linux_data_dir_from(None, None), None);
    assert_eq!(
        macos_data_dir_from(Some("/Users/ana")).as_deref(),
        Some("/Users/ana/Library/Application Support/com.omacal.app")
    );
}
