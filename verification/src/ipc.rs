//! The command-line write socket's protocol rules: which requests this
//! build reads at all, where the socket lives, and which calendar a create
//! without one lands on.

use vstd::prelude::*;
use crate::events::writable_role;
use crate::paths::{join, joined, opt_string, opt_text};
use crate::text::{decimal, owned, push_char, push_decimal, push_str};

verus! {

/// Bumped when a request's meaning changes, never for additions, so an old
/// command line against a newer app meets a legible refusal rather than a
/// misread write.
pub const PROTOCOL_VERSION: u64 = 1;

/// Requests are one line; anything past this many bytes is refused unread.
pub const MAX_REQUEST_BYTES: u64 = 65536;

/// The refusal for a line that is not JSON.
pub const NOT_JSON: &'static str = "the request is not JSON";

/// The refusal for a request that names no version.
pub const NO_VERSION: &'static str = "the request names no protocol version";

/// The refusal for a request in version `v`, which this build does not
/// speak.
pub open spec fn unspoken_text(v: nat) -> Seq<char> {
    "protocol v"@ + decimal(v) + " is not spoken here — this OmaCal answers v"@ + decimal(
        PROTOCOL_VERSION as nat,
    )
}

/// The version gate, which answers before the request's shape is looked at
/// so an unsupported version is never misreported as a bad request: the
/// version this build speaks passes, another one and a missing one are
/// refused in their own words.
pub fn version_gate(version: Option<u64>) -> (r: Result<(), String>)
    ensures
        match version {
            Some(v) => if v == PROTOCOL_VERSION {
                r is Ok
            } else {
                r matches Err(m) && m@ == unspoken_text(v as nat)
            },
            None => r matches Err(m) && m@ == NO_VERSION@,
        },
{
    match version {
        Some(v) => {
            if v == PROTOCOL_VERSION {
                Ok(())
            } else {
                let mut m = owned("protocol v");
                push_decimal(&mut m, v);
                push_str(&mut m, " is not spoken here — this OmaCal answers v");
                push_decimal(&mut m, PROTOCOL_VERSION);
                Err(m)
            }
        },
        None => Err(owned(NO_VERSION)),
    }
}

/// The refusal for a request of the right version whose shape does not
/// read: `bad request:` and what the reader said.
pub fn bad_request(detail: &str) -> (m: String)
    ensures
        m@ == "bad request: "@ + detail@,
{
    let mut m = owned("bad request: ");
    push_str(&mut m, detail);
    m
}

/// The lower-case hex digit of `d`.
pub open spec fn hex_digit(d: int) -> char {
    if d == 0 {
        '0'
    } else if d == 1 {
        '1'
    } else if d == 2 {
        '2'
    } else if d == 3 {
        '3'
    } else if d == 4 {
        '4'
    } else if d == 5 {
        '5'
    } else if d == 6 {
        '6'
    } else if d == 7 {
        '7'
    } else if d == 8 {
        '8'
    } else if d == 9 {
        '9'
    } else if d == 10 {
        'a'
    } else if d == 11 {
        'b'
    } else if d == 12 {
        'c'
    } else if d == 13 {
        'd'
    } else if d == 14 {
        'e'
    } else {
        'f'
    }
}

/// How one character is written inside a JSON string: a quote and a
/// backslash behind a backslash, the five controls JSON names by letter,
/// every other control below U+0020 as `\u00XX`, and anything else as
/// itself.
pub open spec fn json_escaped(c: char) -> Seq<char> {
    if c == '"' {
        seq!['\\', '"']
    } else if c == '\\' {
        seq!['\\', '\\']
    } else if c == '\n' {
        seq!['\\', 'n']
    } else if c == '\r' {
        seq!['\\', 'r']
    } else if c == '\t' {
        seq!['\\', 't']
    } else if (c as u32) == 8 {
        seq!['\\', 'b']
    } else if (c as u32) == 12 {
        seq!['\\', 'f']
    } else if (c as u32) < 32 {
        seq!['\\', 'u', '0', '0', hex_digit(((c as u32) / 16) as int), hex_digit(((c as u32) % 16) as int)]
    } else {
        seq![c]
    }
}

/// The characters of `s`, each written as [`json_escaped`] writes it.
pub open spec fn json_escaped_all(s: Seq<char>) -> Seq<char>
    decreases s.len(),
{
    if s.len() == 0 {
        Seq::empty()
    } else {
        json_escaped_all(s.drop_last()) + json_escaped(s.last())
    }
}

/// `s` as a JSON string literal.
pub open spec fn json_string(s: Seq<char>) -> Seq<char> {
    seq!['"'] + json_escaped_all(s) + seq!['"']
}

fn hex_char(d: u32) -> (c: char)
    requires
        d < 16,
    ensures
        c == hex_digit(d as int),
{
    if d == 0 {
        '0'
    } else if d == 1 {
        '1'
    } else if d == 2 {
        '2'
    } else if d == 3 {
        '3'
    } else if d == 4 {
        '4'
    } else if d == 5 {
        '5'
    } else if d == 6 {
        '6'
    } else if d == 7 {
        '7'
    } else if d == 8 {
        '8'
    } else if d == 9 {
        '9'
    } else if d == 10 {
        'a'
    } else if d == 11 {
        'b'
    } else if d == 12 {
        'c'
    } else if d == 13 {
        'd'
    } else if d == 14 {
        'e'
    } else {
        'f'
    }
}

/// Appends `s` to `out` as a JSON string literal.
fn push_json_string(out: &mut String, s: &str)
    ensures
        final(out)@ == old(out)@ + json_string(s@),
{
    push_char(out, '"');
    let ghost start = out@;
    let n = s.unicode_len();
    let mut i: usize = 0;
    while i < n
        invariant
            n == s@.len(),
            i <= n,
            out@ == start + json_escaped_all(s@.take(i as int)),
        decreases n - i,
    {
        let c = s.get_char(i);
        let u = c as u32;
        if c == '"' {
            push_char(out, '\\');
            push_char(out, '"');
        } else if c == '\\' {
            push_char(out, '\\');
            push_char(out, '\\');
        } else if c == '\n' {
            push_char(out, '\\');
            push_char(out, 'n');
        } else if c == '\r' {
            push_char(out, '\\');
            push_char(out, 'r');
        } else if c == '\t' {
            push_char(out, '\\');
            push_char(out, 't');
        } else if u == 8 {
            push_char(out, '\\');
            push_char(out, 'b');
        } else if u == 12 {
            push_char(out, '\\');
            push_char(out, 'f');
        } else if u < 32 {
            push_char(out, '\\');
            push_char(out, 'u');
            push_char(out, '0');
            push_char(out, '0');
            push_char(out, hex_char(u / 16));
            push_char(out, hex_char(u % 16));
        } else {
            push_char(out, c);
        }
        assert(s@.take(i as int + 1).drop_last() =~= s@.take(i as int));
        assert(s@.take(i as int + 1).last() == c);
        assert(out@ =~= start + json_escaped_all(s@.take(i as int + 1)));
        i = i + 1;
    }
    assert(s@.take(n as int) =~= s@);
    push_char(out, '"');
    assert(out@ =~= old(out)@ + json_string(s@));
}

/// The reply to a request that was carried out: `data`, itself JSON text,
/// under `ok: true`.
pub open spec fn ok_envelope(data: Seq<char>) -> Seq<char> {
    "{\"ok\":true,\"data\":"@ + data + "}"@
}

/// The reply to a request that was not: a machine-readable `code` and the
/// words the user is shown, under `ok: false`.
pub open spec fn fail_envelope(code: Seq<char>, message: Seq<char>) -> Seq<char> {
    "{\"ok\":false,\"error\":{\"code\":"@ + json_string(code) + ",\"message\":"@ + json_string(
        message,
    ) + "}}"@
}

/// The socket's reply line for a request that was carried out; `data` is
/// the answer, already written as JSON.
pub fn ok_env(data: &str) -> (r: String)
    ensures
        r@ == ok_envelope(data@),
{
    let mut r = owned("{\"ok\":true,\"data\":");
    push_str(&mut r, data);
    push_str(&mut r, "}");
    proof {
        reveal_strlit("{\"ok\":true,\"data\":");
        reveal_strlit("}");
    }
    r
}

/// The socket's reply line for a request that was refused or failed.
pub fn fail_env(code: &str, message: &str) -> (r: String)
    ensures
        r@ == fail_envelope(code@, message@),
{
    let mut r = owned("{\"ok\":false,\"error\":{\"code\":");
    push_json_string(&mut r, code);
    push_str(&mut r, ",\"message\":");
    push_json_string(&mut r, message);
    push_str(&mut r, "}}");
    r
}

/// Where the socket lives: in the runtime directory when the platform gives
/// an absolute one, else beside the database, in `db_dir`.
pub open spec fn socket_path_of(runtime_dir: Option<Seq<char>>, db_dir: Option<Seq<char>>) -> Option<
    Seq<char>,
> {
    match runtime_dir {
        Some(r) if r.len() > 0 && r[0] == '/' => Some(joined(joined(r, "omacal"@), "ipc.sock"@)),
        _ => match db_dir {
            Some(d) => Some(joined(d, "ipc.sock"@)),
            None => None,
        },
    }
}

/// [`socket_path_of`], from the runtime directory's and the database
/// directory's values. The command line connects through the same rule, so
/// the two ends cannot disagree about the address.
pub fn socket_path(runtime_dir: Option<&str>, db_dir: Option<&str>) -> (p: Option<String>)
    ensures
        opt_string(p) == socket_path_of(opt_text(runtime_dir), opt_text(db_dir)),
{
    if let Some(r) = runtime_dir {
        if r.unicode_len() > 0 && r.get_char(0) == '/' {
            let dir = join(r, "omacal");
            return Some(join(dir.as_str(), "ipc.sock"));
        }
    }
    match db_dir {
        Some(d) => Some(join(d, "ipc.sock")),
        None => None,
    }
}

/// A calendar as the default-calendar rule sees it.
#[derive(Debug)]
pub struct CalendarChoice {
    pub id: i64,
    pub access_role: String,
    pub is_primary: bool,
}

/// Whether the calendar at `i` can be written to.
pub open spec fn writable_at(cals: Seq<CalendarChoice>, i: int) -> bool {
    writable_role(cals[i].access_role@)
}

/// Whether `a` ranks before `b` for the default-calendar rule: the stored
/// choice first, then a primary calendar, then the lower id.
pub open spec fn ranks_before(a: CalendarChoice, b: CalendarChoice, stored: Option<i64>) -> bool {
    let sa = stored == Some(a.id);
    let sb = stored == Some(b.id);
    if sa != sb {
        sa
    } else if a.is_primary != b.is_primary {
        a.is_primary
    } else {
        a.id < b.id
    }
}

/// The refusal for a create with no calendar named and none writable.
pub const NO_WRITABLE_CALENDAR: &'static str =
    "no writable calendar — connect an account in OmaCal first";

/// The default-calendar rule: among the writable calendars, the stored
/// choice when it is one of them, else a primary one, else the one with the
/// lowest id — a calendar no other writable one ranks before; `None` when
/// nothing is writable.
pub fn default_calendar(cals: &[CalendarChoice], stored: Option<i64>) -> (r: Option<i64>)
    ensures
        r is None <==> forall|i: int| 0 <= i < cals.len() ==> !writable_at(cals@, i),
        r matches Some(id) ==> exists|i: int|
            0 <= i < cals.len() && writable_at(cals@, i) && (#[trigger] cals[i]).id == id && forall|j: int|
                0 <= j < cals.len() && writable_at(cals@, j) ==> !ranks_before(
                    #[trigger] cals[j],
                    cals[i],
                    stored,
                ),
{
    let mut best: Option<usize> = None;
    let mut i: usize = 0;
    while i < cals.len()
        invariant
            i <= cals.len(),
            best is None <==> forall|k: int| 0 <= k < i ==> !writable_at(cals@, k),
            best matches Some(b) ==> b < i && writable_at(cals@, b as int) && forall|k: int|
                0 <= k < i && writable_at(cals@, k) ==> !ranks_before(
                    #[trigger] cals[k],
                    cals[b as int],
                    stored,
                ),
        decreases cals.len() - i,
    {
        proof {
            reveal_strlit("owner");
            reveal_strlit("writer");
        }
        let role = cals[i].access_role.as_str();
        let writable = crate::text::str_eq(role, "owner") || crate::text::str_eq(role, "writer");
        assert(writable == writable_at(cals@, i as int));
        proof {
            if let Some(b) = best {
                assert(writable_at(cals@, b as int));
            }
        }
        if writable {
            match best {
                None => {
                    best = Some(i);
                },
                Some(b) => {
                    let c = &cals[i];
                    let cur = &cals[b];
                    let sc = stored == Some(c.id);
                    let sb = stored == Some(cur.id);
                    let better = if sc != sb {
                        sc
                    } else if c.is_primary != cur.is_primary {
                        c.is_primary
                    } else {
                        c.id < cur.id
                    };
                    proof {
                        assert(better == ranks_before(cals[i as int], cals[b as int], stored));
                        if better {
                            assert forall|k: int|
                                0 <= k < i + 1 && writable_at(cals@, k) implies !ranks_before(
                                #[trigger] cals[k],
                                cals[i as int],
                                stored,
                            ) by {
                                if k < i {
                                    assert(!ranks_before(cals[k], cals[b as int], stored));
                                }
                            }
                        }
                    }
                    if better {
                        best = Some(i);
                    }
                },
            }
        }
        i = i + 1;
    }
    match best {
        Some(b) => Some(cals[b].id),
        None => None,
    }
}

/// Whether `id` is the calendar the default-calendar rule picks: a writable
/// one that no other writable one ranks before.
pub open spec fn is_default_calendar(cals: Seq<CalendarChoice>, stored: Option<i64>, id: i64) -> bool {
    exists|i: int|
        0 <= i < cals.len() && writable_at(cals, i) && (#[trigger] cals[i]).id == id && forall|j: int|
            0 <= j < cals.len() && writable_at(cals, j) ==> !ranks_before(
                #[trigger] cals[j],
                cals[i],
                stored,
            )
}

/// The calendar a create from the command line lands on: the one it names,
/// else the default calendar; refused in its own words when it names none
/// and nothing is writable.
pub fn create_calendar(explicit: Option<i64>, cals: &[CalendarChoice], stored: Option<i64>) -> (r:
    Result<i64, String>)
    ensures
        explicit matches Some(id) ==> r == Ok::<i64, String>(id),
        explicit is None ==> ((r is Err) <==> forall|i: int|
            0 <= i < cals.len() ==> !writable_at(cals@, i)),
        r matches Err(m) ==> m@ == NO_WRITABLE_CALENDAR@,
        explicit is None ==> (r matches Ok(id) ==> is_default_calendar(cals@, stored, id)),
{
    match explicit {
        Some(id) => Ok(id),
        None => match default_calendar(cals, stored) {
            Some(id) => Ok(id),
            None => Err(owned(NO_WRITABLE_CALENDAR)),
        },
    }
}

/// The reply line for a request the app carried out or refused: the
/// answer, already JSON, under `ok: true`; or the refusal under the code
/// `refused`.
pub fn reply(outcome: Result<String, String>) -> (r: String)
    ensures
        match outcome {
            Ok(data) => r@ == ok_envelope(data@),
            Err(m) => r@ == fail_envelope("refused"@, m@),
        },
{
    proof {
        reveal_strlit("refused");
    }
    match outcome {
        Ok(data) => ok_env(data.as_str()),
        Err(m) => fail_env("refused", m.as_str()),
    }
}

/// The reply line for a request line that did not read as a request, under
/// the code `usage`.
pub fn usage_reply(message: &str) -> (r: String)
    ensures
        r@ == fail_envelope("usage"@, message@),
{
    proof {
        reveal_strlit("usage");
    }
    fail_env("usage", message)
}

} // verus!
