//! Where the Google client credentials come from. A present config file
//! always wins — by failing loudly when it is malformed or unreadable, since
//! falling back on a broken file would sign the user into a client they did
//! not choose. The pair built into a release applies only when the file is
//! absent, and only when the build actually carried one.

use vstd::prelude::*;
use crate::text::{owned, push_str, trim, trim_str};

verus! {

/// The Google Cloud client the app signs in with.
#[derive(Debug, PartialEq, Eq)]
pub struct Config {
    pub client_id: String,
    pub client_secret: String,
}

/// Whether a built-in value counts as present: an empty or blank one does
/// not, the same as none at all.
pub open spec fn present(v: Option<Seq<char>>) -> bool {
    v matches Some(s) && trim(s).len() > 0
}

/// The view of an optional text.
pub open spec fn opt_text(v: Option<&str>) -> Option<Seq<char>> {
    match v {
        Some(s) => Some(s@),
        None => None,
    }
}

/// Whether `v` is there and not blank.
fn is_present(v: Option<&str>) -> (r: bool)
    ensures
        r == present(opt_text(v)),
{
    match v {
        Some(s) => trim_str(s).unicode_len() > 0,
        None => false,
    }
}

/// The text of the error when there is no file and no built-in pair.
pub open spec fn missing_text(path: Seq<char>, reason: Seq<char>) -> Seq<char> {
    "no config at "@ + path + ": "@ + reason + ". Create it with client_id and client_secret."@
}

/// The text of the error when the file is there but cannot be read.
pub open spec fn unreadable_text(path: Seq<char>, reason: Seq<char>) -> Seq<char> {
    "config at "@ + path + " is unreadable: "@ + reason
}

/// The config when the file at `path` does not exist (`reason` is why the
/// read failed): the built-in pair when the build carried both halves,
/// otherwise the error that names the path it looked for.
pub fn config_without_file(
    path: &str,
    reason: &str,
    embedded_id: Option<&str>,
    embedded_secret: Option<&str>,
) -> (r: Result<Config, String>)
    ensures
        present(opt_text(embedded_id)) && present(opt_text(embedded_secret)) ==> (r matches Ok(c)
            && opt_text(embedded_id) == Some(c.client_id@) && opt_text(embedded_secret) == Some(
            c.client_secret@,
        )),
        !(present(opt_text(embedded_id)) && present(opt_text(embedded_secret))) ==> (r matches Err(
            m,
        ) && m@ == missing_text(path@, reason@)),
{
    if is_present(embedded_id) && is_present(embedded_secret) {
        match (embedded_id, embedded_secret) {
            (Some(id), Some(secret)) => {
                return Ok(Config { client_id: owned(id), client_secret: owned(secret) });
            },
            _ => {},
        }
    }
    let mut m = owned("no config at ");
    push_str(&mut m, path);
    push_str(&mut m, ": ");
    push_str(&mut m, reason);
    push_str(&mut m, ". Create it with client_id and client_secret.");
    Err(m)
}

/// The error for a config file that exists but cannot be read.
pub fn unreadable_config(path: &str, reason: &str) -> (m: String)
    ensures
        m@ == unreadable_text(path@, reason@),
{
    let mut m = owned("config at ");
    push_str(&mut m, path);
    push_str(&mut m, " is unreadable: ");
    push_str(&mut m, reason);
    m
}

/// A Zoom client id as configured: kept when it says something, dropped
/// when it is missing or blank.
pub fn clean_client_id(v: Option<String>) -> (r: Option<String>)
    ensures
        match v {
            Some(s) => if trim(s@).len() > 0 {
                r == Some(s)
            } else {
                r is None
            },
            None => r is None,
        },
{
    match v {
        Some(s) => {
            if trim_str(s.as_str()).unicode_len() > 0 {
                Some(s)
            } else {
                None
            }
        },
        None => None,
    }
}

/// The Zoom client id when there is no config file: the built-in one, when
/// the build carried one that says something.
pub fn zoom_client_id_without_file(embedded_id: Option<&str>) -> (r: Option<String>)
    ensures
        present(opt_text(embedded_id)) ==> (r matches Some(s) && opt_text(embedded_id) == Some(
            s@,
        )),
        !present(opt_text(embedded_id)) ==> r is None,
{
    match embedded_id {
        Some(id) => clean_client_id(Some(owned(id))),
        None => None,
    }
}

} // verus!
