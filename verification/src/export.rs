//! Exporting one occurrence as an `.ics` file: what the file is called, and
//! which identity the exported event carries.

use vstd::prelude::*;
use crate::text::{is_control, is_dot_or_space, is_white_space, trim_end, trim_start, owned, push_char, push_str, trim, trim_start_dots_spaces, trim_str, trim_start_dots_spaces_str};
use crate::civil::{civil_from_days, lemma_day_number_injective, day_number, valid_date, Date};
use crate::zone::{day_at, in_time_range, local_day, local_time_of_day, offset_in_range, time_of_day_at};

verus! {

/// The characters a path separator or a shell would argue about.
pub open spec fn forbidden_in_name(c: char) -> bool {
    c == '/' || c == '\\' || c == ':' || c == '*' || c == '?' || c == '"' || c == '<' || c == '>'
        || c == '|'
}

/// `s` with every control character and every [`forbidden_in_name`]
/// character replaced by a space.
pub open spec fn sanitized(s: Seq<char>) -> Seq<char> {
    s.map_values(|c: char| if is_control(c) || forbidden_in_name(c) { ' ' } else { c })
}

/// The name an exported file is suggested under: the title, sanitized, with
/// every leading dot (which would hide the file) and white space dropped,
/// however they are mixed, and trailing white space trimmed, then `.ics`;
/// `event.ics` when nothing is left.
pub open spec fn suggested_name(summary: Option<Seq<char>>) -> Seq<char> {
    let title = match summary {
        Some(s) => s,
        None => Seq::empty(),
    };
    let stem = trim(trim_start_dots_spaces(sanitized(title)));
    if stem.len() == 0 {
        "event.ics"@
    } else {
        stem + ".ics"@
    }
}

/// A suggested file name is never empty, and always an `.ics`.
pub proof fn law_a_suggested_name_is_never_empty(summary: Option<Seq<char>>)
    ensures
        suggested_name(summary).len() > 4,
        suggested_name(summary).subrange(
            suggested_name(summary).len() - 4,
            suggested_name(summary).len() as int,
        ) == ".ics"@,
{
    reveal_strlit("event.ics");
    reveal_strlit(".ics");
    let name = suggested_name(summary);
    assert(name.subrange(name.len() - 4, name.len() as int) =~= ".ics"@);
}

/// What is left once leading dots and white space are dropped starts with
/// neither.
proof fn lemma_no_leading_dot(s: Seq<char>)
    ensures
        trim_start_dots_spaces(s).len() > 0 ==> !is_dot_or_space(trim_start_dots_spaces(s)[0]),
    decreases s.len(),
{
    if s.len() > 0 && is_dot_or_space(s[0]) {
        lemma_no_leading_dot(s.drop_first());
    }
}

/// Trimming the end of a text that does not start with white space keeps its
/// first character.
proof fn lemma_trim_end_keeps_first(s: Seq<char>)
    requires
        s.len() > 0,
        !is_white_space(s[0]),
    ensures
        trim_end(s).len() > 0,
        trim_end(s)[0] == s[0],
    decreases s.len(),
{
    if is_white_space(s.last()) {
        assert(s.len() > 1);
        lemma_trim_end_keeps_first(s.drop_last());
    }
}

/// A suggested file name never starts with a dot, so the exported file is
/// never hidden.
pub proof fn law_a_suggested_name_is_never_hidden(summary: Option<Seq<char>>)
    ensures
        suggested_name(summary)[0] != '.',
{
    reveal_strlit("event.ics");
    reveal_strlit(".ics");
    let title = match summary {
        Some(s) => s,
        None => Seq::empty(),
    };
    let u = trim_start_dots_spaces(sanitized(title));
    lemma_no_leading_dot(sanitized(title));
    if u.len() > 0 {
        assert(trim_start(u) == u);
        lemma_trim_end_keeps_first(u);
        assert((trim(u) + ".ics"@)[0] == trim(u)[0]);
    }
}

fn sanitize(s: &str) -> (r: String)
    ensures
        r@ == sanitized(s@),
{
    let n = s.unicode_len();
    let mut out = String::new();
    let mut i: usize = 0;
    while i < n
        invariant
            n == s@.len(),
            i <= n,
            out@ == sanitized(s@.take(i as int)),
        decreases n - i,
    {
        let c = s.get_char(i);
        let bad = crate::text::char_is_control(c) || c == '/' || c == '\\' || c == ':' || c == '*'
            || c == '?' || c == '"' || c == '<' || c == '>' || c == '|';
        let ghost before = out@;
        if bad {
            push_char(&mut out, ' ');
        } else {
            push_char(&mut out, c);
        }
        assert(sanitized(s@.take(i as int + 1)) =~= sanitized(s@.take(i as int)).push(
            if is_control(c) || forbidden_in_name(c) { ' ' } else { c },
        ));
        i = i + 1;
    }
    assert(s@.take(n as int) =~= s@);
    out
}

/// What an exported file is called before the user renames it — see
/// [`suggested_name`]. An untitled event still gets a name, since a chooser
/// opening on an empty field is a worse answer than a dull one.
pub fn file_name(summary: Option<&str>) -> (name: String)
    ensures
        name@ == suggested_name(match summary {
            Some(s) => Some(s@),
            None => None,
        }),
{
    proof {
        reveal_strlit("event.ics");
        reveal_strlit(".ics");
    }
    let title = match summary {
        Some(s) => s,
        None => "",
    };
    proof {
        reveal_strlit("");
    }
    let clean = sanitize(title);
    let stem = trim_str(trim_start_dots_spaces_str(clean.as_str()));
    if stem.unicode_len() == 0 {
        owned("event.ics")
    } else {
        let mut name = owned(stem);
        push_str(&mut name, ".ics");
        name
    }
}

/// Whether `id` has the shape of a random UUID as written out: 36
/// characters, hyphens after the 8th, 12th, 16th and 20th hex digits, and
/// the version digit `4`.
pub open spec fn uuid_v4_shaped(id: Seq<char>) -> bool {
    &&& id.len() == 36
    &&& id[8] == '-' && id[13] == '-' && id[18] == '-' && id[23] == '-'
    &&& id[14] == '4'
}

/// `uuid::Uuid::new_v4`, written out in its hyphenated lower-case form: a
/// fresh random identifier. Its value is chance's; only the shape the
/// crate always writes is claimed.
#[verifier::external_body]
fn new_uuid_v4() -> (id: String)
    ensures
        uuid_v4_shaped(id@),
{
    uuid::Uuid::new_v4().to_string()
}

/// The UID an exported occurrence carries. An occurrence of a series gets a
/// fresh one: a single event wearing the master's UID reads, to the client
/// that imports it, as "the whole series is now this one event". A one-off
/// keeps its own id, since it is that event.
pub fn export_uid(recurrence: &Option<String>, recurring_event_id: &Option<String>, google_id: &str) -> (uid: String)
    ensures
        recurrence is None && recurring_event_id is None ==> uid@ == google_id@,
        recurrence is Some || recurring_event_id is Some ==> uuid_v4_shaped(uid@),
{
    if crate::events::is_recurring(recurrence, recurring_event_id) {
        new_uuid_v4()
    } else {
        owned(google_id)
    }
}

/// One end of an exported occurrence, in the shape a calendar file writes.
#[derive(Debug, PartialEq, Eq)]
pub enum ExportTime {
    /// A bare date, for an all-day event.
    Date(Date),
    /// A wall-clock reading (a date and milliseconds past its midnight) in
    /// the zone named `tzid`.
    Zoned { date: Date, ms_of_day: i64, tzid: String },
}

/// Why an occurrence could not be exported.
#[derive(Debug, PartialEq, Eq)]
pub enum ExportError {
    /// The event's zone is not in the time zone database.
    UnknownZone(String),
    /// An instant beyond what the time library can place.
    OutOfRange,
}

impl ExportError {
    /// What the user is told.
    pub fn message(&self) -> (m: String)
        ensures
            match self {
                ExportError::UnknownZone(tz) => m@ == "unknown time zone "@ + tz@,
                ExportError::OutOfRange => m@ == "that time is outside the range a calendar file can hold"@,
            },
    {
        match self {
            ExportError::UnknownZone(tz) => {
                let mut m = owned("unknown time zone ");
                push_str(&mut m, tz.as_str());
                m
            },
            ExportError::OutOfRange => owned("that time is outside the range a calendar file can hold"),
        }
    }
}

/// Whether `d` is the date of day number `z`.
pub open spec fn is_date_of(d: Date, z: int) -> bool {
    valid_date(d.year as int, d.month as int, d.day as int) && day_number(
        d.year as int,
        d.month as int,
        d.day as int,
    ) == z
}

/// Whether `t` is an all-day end for the instant `ms`: the date it falls on
/// at some offset a zone can have.
pub open spec fn dated(t: ExportTime, ms: int) -> bool {
    t matches ExportTime::Date(d) && exists|o: int|
        offset_in_range(o) && #[trigger] is_date_of(d, local_day(ms, o))
}

/// Whether `t` is a timed end for the instant `ms` in the zone `tzid`: the
/// wall-clock reading there at some offset a zone can have.
pub open spec fn zoned(t: ExportTime, ms: int, tzid: Seq<char>) -> bool {
    t matches ExportTime::Zoned { date, ms_of_day, tzid: z } && z@ == tzid && exists|o: int|
        offset_in_range(o) && #[trigger] is_date_of(date, local_day(ms, o)) && ms_of_day
            == local_time_of_day(ms, o)
}

/// Whether two ends of an export read the same: the same date, or the same
/// date and time of day in the same zone.
pub open spec fn same_reading(x: ExportTime, y: ExportTime) -> bool {
    match (x, y) {
        (ExportTime::Date(d1), ExportTime::Date(d2)) => d1 == d2,
        (
            ExportTime::Zoned { date: d1, ms_of_day: t1, tzid: z1 },
            ExportTime::Zoned { date: d2, ms_of_day: t2, tzid: z2 },
        ) => d1 == d2 && t1 == t2 && z1@ == z2@,
        _ => false,
    }
}

/// Two ends whose dates are both the date of day `z`, at the same time of
/// day in the same zone when they are timed, read the same.
proof fn lemma_same_date(x: ExportTime, y: ExportTime, z: int)
    requires
        match (x, y) {
            (ExportTime::Date(d1), ExportTime::Date(d2)) => is_date_of(d1, z) && is_date_of(d2, z),
            (
                ExportTime::Zoned { date: d1, ms_of_day: t1, tzid: z1 },
                ExportTime::Zoned { date: d2, ms_of_day: t2, tzid: z2 },
            ) => is_date_of(d1, z) && is_date_of(d2, z) && t1 == t2 && z1@ == z2@,
            _ => false,
        },
    ensures
        same_reading(x, y),
{
    match (x, y) {
        (ExportTime::Date(d1), ExportTime::Date(d2)) => {
            lemma_day_number_injective(d1.year as int, d1.month as int, d1.day as int, d2.year as int, d2.month as int, d2.day as int);
        },
        (ExportTime::Zoned { date: d1, .. }, ExportTime::Zoned { date: d2, .. }) => {
            lemma_day_number_injective(d1.year as int, d1.month as int, d1.day as int, d2.year as int, d2.month as int, d2.day as int);
        },
        _ => {},
    }
}

/// The date `ms` falls on at `offset`.
fn date_at(ms: i64, offset: i32) -> (t: ExportTime)
    requires
        offset_in_range(offset as int),
    ensures
        dated(t, ms as int),
        t matches ExportTime::Date(d) && is_date_of(d, local_day(ms as int, offset as int)),
{
    let d = civil_from_days(day_at(ms, offset));
    let ghost dv = d;
    assert(is_date_of(dv, local_day(ms as int, offset as int)));
    let t = ExportTime::Date(d);
    assert(t matches ExportTime::Date(x) && x == dv);
    t
}

/// The reading `ms` gives at `offset`, in the zone `tzid`.
fn reading_at(ms: i64, offset: i32, tzid: &str) -> (t: ExportTime)
    requires
        offset_in_range(offset as int),
    ensures
        zoned(t, ms as int, tzid@),
        t matches ExportTime::Zoned { date, ms_of_day, tzid: z } && is_date_of(
            date,
            local_day(ms as int, offset as int),
        ) && ms_of_day == local_time_of_day(ms as int, offset as int) && z@ == tzid@,
{
    let d = civil_from_days(day_at(ms, offset));
    let ghost dv = d;
    assert(is_date_of(dv, local_day(ms as int, offset as int)));
    let tod = time_of_day_at(ms, offset);
    let t = ExportTime::Zoned { date: d, ms_of_day: tod, tzid: owned(tzid) };
    assert(t matches ExportTime::Zoned { date: x, ms_of_day: y, tzid: z } && x == dv && y == tod && z@ == tzid@);
    t
}

/// An exported occurrence's two ends. All-day events take dates in the
/// event's zone (UTC when the zone is unknown); a timed event keeps the
/// zone it was authored in, and cannot be exported in one the database does
/// not know — which is what it is told first. An instant the time library
/// cannot place cannot be exported.
pub fn export_endpoints(is_all_day: bool, start_tz: &str, start_ms: i64, end_ms: i64) -> (r: Result<
    (ExportTime, ExportTime),
    ExportError,
>)
    ensures
        match r {
            Ok((a, b)) => if is_all_day {
                dated(a, start_ms as int) && dated(b, end_ms as int)
            } else {
                exists|tzid: Seq<char>| #[trigger] zoned(a, start_ms as int, tzid) && zoned(b, end_ms as int, tzid)
            },
            Err(ExportError::UnknownZone(tz)) => !is_all_day && tz@ == start_tz@,
            Err(ExportError::OutOfRange) => !(in_time_range(start_ms as int) && in_time_range(
                end_ms as int,
            )),
        },
        is_all_day && in_time_range(start_ms as int) && in_time_range(end_ms as int) ==> r is Ok,
        r is Ok ==> in_time_range(start_ms as int) && in_time_range(end_ms as int),
        start_ms == end_ms ==> (r matches Ok((a, b)) ==> same_reading(a, b)),
{
    if is_all_day {
        if !crate::clock::representable(start_ms) || !crate::clock::representable(end_ms) {
            return Err(ExportError::OutOfRange);
        }
        let os = crate::zone::offset_or_utc(start_tz, start_ms);
        let oe = if end_ms == start_ms {
            os
        } else {
            crate::zone::offset_or_utc(start_tz, end_ms)
        };
        let a = date_at(start_ms, os);
        let b = date_at(end_ms, oe);
        proof {
            if start_ms == end_ms {
                lemma_same_date(a, b, local_day(start_ms as int, os as int));
            }
        }
        return Ok((a, b));
    }
    let (tzid, os, oe) = match crate::zone::read_named_zone(start_tz, start_ms, end_ms) {
        crate::zone::ZoneReading::Unknown => return Err(ExportError::UnknownZone(owned(start_tz))),
        crate::zone::ZoneReading::OutOfRange => return Err(ExportError::OutOfRange),
        crate::zone::ZoneReading::Found { tzid, first, second } => (tzid, first, second),
    };
    let a = reading_at(start_ms, os, tzid.as_str());
    let b = reading_at(end_ms, oe, tzid.as_str());
    assert(zoned(a, start_ms as int, tzid@) && zoned(b, end_ms as int, tzid@));
    proof {
        if start_ms == end_ms {
            lemma_same_date(a, b, local_day(start_ms as int, os as int));
        }
    }
    Ok((a, b))
}

} // verus!
