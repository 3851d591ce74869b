//! Where the app keeps its files: the data directory the database and the
//! log share, spelled the way the platform's conventions spell it.

use vstd::prelude::*;
use crate::text::{owned, push_str};

verus! {

/// `dir` with `name` appended as one more component, as `Path::join` does
/// it on Unix for a relative `name`: a separator goes between them unless
/// `dir` is empty or already ends in one.
pub open spec fn joined(dir: Seq<char>, name: Seq<char>) -> Seq<char> {
    if dir.len() == 0 || dir.last() == '/' {
        dir + name
    } else {
        dir + "/"@ + name
    }
}

/// [`joined`], executable.
pub fn join(dir: &str, name: &str) -> (p: String)
    ensures
        p@ == joined(dir@, name@),
{
    proof {
        reveal_strlit("/");
    }
    let n = dir.unicode_len();
    let mut p = owned(dir);
    if n > 0 && dir.get_char(n - 1) != '/' {
        push_str(&mut p, "/");
    }
    push_str(&mut p, name);
    p
}

/// Whether a path is absolute: on Unix, whether it starts at the root.
pub open spec fn is_absolute(p: Seq<char>) -> bool {
    p.len() > 0 && p[0] == '/'
}

/// The application's own directory name under the platform's data root.
pub const APP_ID: &'static str = "com.omacal.app";

/// The data directory on Linux: `$XDG_DATA_HOME` when it is set to an
/// absolute path, else `$HOME/.local/share` — the XDG rule — with the app's
/// own directory under it; none when neither variable helps.
pub open spec fn linux_data_dir(xdg_data_home: Option<Seq<char>>, home: Option<Seq<char>>) -> Option<
    Seq<char>,
> {
    match xdg_data_home {
        Some(x) if is_absolute(x) => Some(joined(x, APP_ID@)),
        _ => match home {
            Some(h) => Some(joined(joined(h, ".local/share"@), APP_ID@)),
            None => None,
        },
    }
}

/// The view of an optional text.
pub open spec fn opt_text(v: Option<&str>) -> Option<Seq<char>> {
    match v {
        Some(s) => Some(s@),
        None => None,
    }
}

/// The view of an optional owned text.
pub open spec fn opt_string(v: Option<String>) -> Option<Seq<char>> {
    match v {
        Some(s) => Some(s@),
        None => None,
    }
}

/// [`linux_data_dir`], from the two variables' values.
pub fn linux_data_dir_from(xdg_data_home: Option<&str>, home: Option<&str>) -> (d: Option<String>)
    ensures
        opt_string(d) == linux_data_dir(opt_text(xdg_data_home), opt_text(home)),
{
    if let Some(x) = xdg_data_home {
        if x.unicode_len() > 0 && x.get_char(0) == '/' {
            return Some(join(x, APP_ID));
        }
    }
    match home {
        Some(h) => {
            let share = join(h, ".local/share");
            Some(join(share.as_str(), APP_ID))
        },
        None => None,
    }
}

/// The data directory on macOS: `$HOME/Library/Application Support`, with
/// the app's own directory under it.
pub fn macos_data_dir_from(home: Option<&str>) -> (d: Option<String>)
    ensures
        match home {
            Some(h) => d matches Some(p) && p@ == joined(
                joined(h@, "Library/Application Support"@),
                APP_ID@,
            ),
            None => d is None,
        },
{
    match home {
        Some(h) => {
            let support = join(h, "Library/Application Support");
            Some(join(support.as_str(), APP_ID))
        },
        None => None,
    }
}

} // verus!
