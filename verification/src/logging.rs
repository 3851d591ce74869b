//! Where the log goes: standard output, and a file beside the database, the
//! directory a user already knows how to find.

use vstd::prelude::*;
use crate::paths::{join, joined, opt_string, opt_text};

verus! {

/// How large the log may grow before the next launch sets it aside: two
/// megabytes.
pub const MAX_BYTES: u64 = 2097152;

/// Whether a log of `size` bytes should be set aside before this run appends
/// to it: exactly when it has reached the cap.
pub fn should_rotate(size: u64) -> (rotate: bool)
    ensures
        rotate <==> size >= MAX_BYTES,
{
    size >= MAX_BYTES
}

/// The log's file name.
pub const LOG_FILE: &'static str = "omacal.log";

/// `<data dir>/omacal.log`, beside the database; none without a data
/// directory.
pub fn log_path(data_dir: Option<&str>) -> (p: Option<String>)
    ensures
        match opt_text(data_dir) {
            Some(d) => opt_string(p) == Some(joined(d, LOG_FILE@)),
            None => p is None,
        },
{
    match data_dir {
        Some(d) => Some(join(d, LOG_FILE)),
        None => None,
    }
}

} // verus!
