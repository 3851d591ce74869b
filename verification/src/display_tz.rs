//! How the display zone the user chose reaches the process: as `TZ`,
//! exported before anything reads the local zone, and taken back only when
//! it was this app that exported it.

use vstd::prelude::*;
use crate::text::{owned, trim, trim_str};

verus! {

/// The marker that says this app exported `TZ`, as opposed to the user's
/// own shell: a restart inherits the environment, `TZ` included, so going
/// back to the system zone has to undo our export and only ours.
pub const TZ_MARKER: &'static str = "OMACAL_SET_TZ";

/// What to do to the process environment at launch.
#[derive(Debug, PartialEq, Eq)]
pub enum TzAction {
    /// Export `TZ` with this zone, and the marker with it.
    Export(String),
    /// Remove the `TZ` this app exported, and its marker.
    Clear,
    /// Leave the environment alone: any `TZ` there is the user's own.
    Leave,
}

/// The whole decision: a chosen zone is exported whatever is there already;
/// with none chosen, our own earlier export is cleared and anybody else's is
/// left alone.
pub fn tz_action(sidecar: Option<&str>, we_set_it: bool) -> (a: TzAction)
    ensures
        match sidecar {
            Some(tz) => a matches TzAction::Export(z) && z@ == tz@,
            None => if we_set_it {
                a is Clear
            } else {
                a is Leave
            },
        },
{
    match sidecar {
        Some(tz) => TzAction::Export(owned(tz)),
        None => if we_set_it {
            TzAction::Clear
        } else {
            TzAction::Leave
        },
    }
}

/// The zone a display-zone sidecar file names: its contents trimmed, or
/// none when nothing but white space is left (or there is no file).
pub fn sidecar_zone(contents: Option<&str>) -> (z: Option<String>)
    ensures
        match contents {
            Some(c) => if trim(c@).len() > 0 {
                z matches Some(t) && t@ == trim(c@)
            } else {
                z is None
            },
            None => z is None,
        },
{
    match contents {
        Some(c) => {
            let t = trim_str(c);
            if t.unicode_len() > 0 {
                Some(owned(t))
            } else {
                None
            }
        },
        None => None,
    }
}

} // verus!
