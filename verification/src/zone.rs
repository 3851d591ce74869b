//! Reading instants in a named time zone.
//!
//! A zone's rules come from the time zone database the machine carries, read
//! through `jiff`; everything past the offset a zone has at an instant is
//! computed here. A zone the database does not know is read as UTC.

use vstd::prelude::*;
use crate::civil::{day_in_range, day_text, names_day};
use crate::text::{ascii_ci_eq, eq_ignore_ascii_case};

verus! {

/// `jiff`'s time zone: a set of rules looked up in the time zone database.
#[verifier::external_type_specification]
#[verifier::external_body]
pub struct ExTimeZone(jiff::tz::TimeZone);

/// The largest UTC offset, in seconds, a zone can have: 25:59:59.
pub open spec fn max_offset_seconds() -> int {
    93599
}

/// Milliseconds in a day.
pub open spec fn day_ms() -> int {
    86400000
}

/// `jiff::tz::TimeZone::get`: the zone of that IANA name in the machine's
/// time zone database, `None` when the database has no such zone. Nothing is
/// claimed about which names a database knows.
#[verifier::external_body]
fn lookup_zone(name: &str) -> (r: Option<jiff::tz::TimeZone>) {
    jiff::tz::TimeZone::get(name).ok()
}

/// The milliseconds since the epoch a `jiff::Timestamp` can hold: its
/// seconds run from -377705116800 to 253402300799 narrowed by the largest
/// offset, 93599 seconds, at either end.
pub open spec fn in_time_range(ms: int) -> bool {
    -377705023201000 <= ms <= 253402207200000
}

/// `jiff::tz::TimeZone::to_offset`: the zone's offset from UTC, in seconds,
/// at the instant `ms` milliseconds after the epoch; `None` exactly when
/// `ms` lies outside the instants `jiff::Timestamp` can hold, the only
/// failure `Timestamp::from_millisecond` has. What the offset is comes from
/// the database; only its documented range is claimed.
#[verifier::external_body]
fn offset_at(zone: &jiff::tz::TimeZone, ms: i64) -> (r: Option<i32>)
    ensures
        r is Some <==> in_time_range(ms as int),
        r matches Some(o) ==> -max_offset_seconds() <= o <= max_offset_seconds(),
{
    let ts = jiff::Timestamp::from_millisecond(ms).ok()?;
    Some(zone.to_offset(ts).seconds())
}

/// `jiff::tz::TimeZone::to_ambiguous_timestamp` resolved `compatible()`-ly:
/// the instant at which the wall clock in `zone` reads `local_ms` (the civil
/// time written as milliseconds from 1970-01-01T00:00), taking the earlier
/// reading in a fold and the later one across a gap. `None` when the reading
/// is out of `jiff`'s range. Either way the instant is the reading less one
/// of the zone's offsets (whole seconds, at most 25:59:59 either way); which
/// offset is the database's, and that is all that is claimed.
#[verifier::external_body]
fn instant_at_reading(zone: &jiff::tz::TimeZone, local_ms: i64) -> (r: Option<i64>)
    ensures
        r matches Some(t) ==> exists|o: int| offset_in_range(o) && t == local_ms - o * 1000,
{
    let reading = jiff::tz::Offset::UTC.to_datetime(jiff::Timestamp::from_millisecond(local_ms).ok()?);
    Some(zone.to_ambiguous_timestamp(reading).compatible().ok()?.as_millisecond())
}

/// Whether `o` is an offset a zone can have.
pub open spec fn offset_in_range(o: int) -> bool {
    -max_offset_seconds() <= o <= max_offset_seconds()
}

/// Whether `zone` names UTC, in any case of its letters.
pub open spec fn names_utc(zone: Seq<char>) -> bool {
    ascii_ci_eq(zone, "UTC"@)
}

/// Whether `zone` names UTC. `jiff::tz::TimeZone::get` documents that such
/// a name, whenever it is found, is UTC itself — offset zero at every
/// instant — and a name that is not found is read as UTC here anyway, so
/// the zone named UTC is read at zero without a lookup.
fn is_utc_name(zone: &str) -> (r: bool)
    ensures
        r == names_utc(zone@),
{
    proof {
        reveal_strlit("UTC");
    }
    eq_ignore_ascii_case(zone, "UTC")
}

/// The offset, in seconds, that `ms` is read with in the zone named `zone`:
/// the zone's own, or UTC's — zero — when the zone is UTC, when the
/// database does not know the zone, or when `ms` is outside the instants it
/// can place.
pub fn offset_or_utc(zone: &str, ms: i64) -> (o: i32)
    ensures
        offset_in_range(o as int),
        !in_time_range(ms as int) ==> o == 0,
        names_utc(zone@) ==> o == 0,
{
    if is_utc_name(zone) {
        return 0;
    }
    match lookup_zone(zone) {
        Some(z) => match offset_at(&z, ms) {
            Some(o) => o,
            None => 0,
        },
        None => 0,
    }
}

/// The day number (days since 1970-01-01) on which the instant `ms` falls
/// when read at UTC offset `offset` seconds.
pub open spec fn local_day(ms: int, offset: int) -> int {
    (ms + offset * 1000) / day_ms()
}

/// The milliseconds since local midnight at which `ms` falls when read at
/// UTC offset `offset` seconds.
pub open spec fn local_time_of_day(ms: int, offset: int) -> int {
    (ms + offset * 1000) % day_ms()
}

/// [`local_day`], executable.
pub fn day_at(ms: i64, offset: i32) -> (z: i64)
    requires
        offset_in_range(offset as int),
    ensures
        z == local_day(ms as int, offset as int),
        day_in_range(z as int),
{
    let local: i128 = ms as i128 + (offset as i128) * 1000;
    // Shifted to be non-negative, so that integer division floors.
    let shift: i128 = 0x40_0000_0000;
    let shifted: i128 = local + shift * 86400000;
    assert(shifted >= 0);
    let q: i128 = shifted / 86400000;
    assert(q - shift == local / 86400000);
    (q - shift) as i64
}

/// [`local_time_of_day`], executable.
pub fn time_of_day_at(ms: i64, offset: i32) -> (t: i64)
    requires
        offset_in_range(offset as int),
    ensures
        t == local_time_of_day(ms as int, offset as int),
        0 <= t < 86400000,
{
    let local: i128 = ms as i128 + (offset as i128) * 1000;
    let shift: i128 = 0x40_0000_0000;
    let shifted: i128 = local + shift * 86400000;
    assert(shifted >= 0);
    assert(shifted % 86400000 == local % 86400000);
    (shifted % 86400000) as i64
}

/// The date, `yyyy-mm-dd`, on which `ms` falls when read at UTC offset
/// `offset` seconds.
pub fn date_at_offset(ms: i64, offset: i32) -> (s: String)
    requires
        offset_in_range(offset as int),
    ensures
        names_day(s@, local_day(ms as int, offset as int)),
{
    day_text(day_at(ms, offset))
}

/// The date, `yyyy-mm-dd`, on which `ms` falls in the zone named `zone`
/// (UTC when the zone is unknown): the day the zone's offset at that
/// instant puts it on.
pub fn date_in_zone(ms: i64, zone: &str) -> (s: String)
    ensures
        exists|o: int| offset_in_range(o) && #[trigger] names_day(s@, local_day(ms as int, o)),
        names_utc(zone@) ==> names_day(s@, local_day(ms as int, 0)),
{
    let o = offset_or_utc(zone, ms);
    let s = date_at_offset(ms, o);
    assert(names_day(s@, local_day(ms as int, o as int)));
    s
}

/// The first and last day an all-day event covers, given the day numbers
/// its start and its (exclusive) end fall on: the start's day, and the day
/// before the end's — never earlier than the first, so a one-day event
/// names the same day twice.
pub open spec fn span_days(start_day: int, end_day: int) -> (int, int) {
    (start_day, if end_day - 1 < start_day { start_day } else { end_day - 1 })
}

/// [`span_days`] for the instants `start_ms` and `end_ms` read at the given
/// offsets, as `yyyy-mm-dd` text.
pub fn span_dates_at(start_ms: i64, end_ms: i64, start_offset: i32, end_offset: i32) -> (r: (
    String,
    String,
))
    requires
        offset_in_range(start_offset as int),
        offset_in_range(end_offset as int),
    ensures
        names_day(
            r.0@,
            span_days(
                local_day(start_ms as int, start_offset as int),
                local_day(end_ms as int, end_offset as int),
            ).0,
        ),
        names_day(
            r.1@,
            span_days(
                local_day(start_ms as int, start_offset as int),
                local_day(end_ms as int, end_offset as int),
            ).1,
        ),
{
    let first = day_at(start_ms, start_offset);
    let end = day_at(end_ms, end_offset);
    let last = if end - 1 < first {
        first
    } else {
        end - 1
    };
    (day_text(first), day_text(last))
}

/// The two dates, `yyyy-mm-dd`, an all-day event from `start_ms` to its
/// exclusive end `end_ms` covers, read in the zone named `zone`: the first
/// day, and the last day — the one a user would point at, the day before
/// the exclusive end.
pub fn all_day_span_dates(start_ms: i64, end_ms: i64, zone: &str) -> (r: (String, String))
    ensures
        exists|os: int, oe: int|
            offset_in_range(os) && offset_in_range(oe) && #[trigger] names_day(
                r.0@,
                span_days(local_day(start_ms as int, os), local_day(end_ms as int, oe)).0,
            ) && #[trigger] names_day(
                r.1@,
                span_days(local_day(start_ms as int, os), local_day(end_ms as int, oe)).1,
            ),
{
    let os = offset_or_utc(zone, start_ms);
    let oe = offset_or_utc(zone, end_ms);
    let r = span_dates_at(start_ms, end_ms, os, oe);
    assert(offset_in_range(os as int) && offset_in_range(oe as int) && names_day(
        r.0@,
        span_days(local_day(start_ms as int, os as int), local_day(end_ms as int, oe as int)).0,
    ) && names_day(
        r.1@,
        span_days(local_day(start_ms as int, os as int), local_day(end_ms as int, oe as int)).1,
    ));
    r
}

/// Whether `v` fits in an `i64`.
pub open spec fn fits_i64(v: int) -> bool {
    i64::MIN <= v <= i64::MAX
}

/// The wall-clock reading `to` is moved from `from`, applied to `target`:
/// each instant read at its own offset, so the movement is measured on the
/// clock rather than in elapsed milliseconds.
pub open spec fn moved_reading(
    target: int,
    from: int,
    to: int,
    target_offset: int,
    from_offset: int,
    to_offset: int,
) -> int {
    (target + target_offset * 1000) + ((to + to_offset * 1000) - (from + from_offset * 1000))
}

/// The instant at which a reading `reading` is placed when the zone's offset
/// there is `offset` seconds.
pub open spec fn placed(reading: int, offset: int) -> int {
    reading - offset * 1000
}

/// Whether `r` is `target` moved on a zone's wall clock as far as `from`
/// was moved to `to`: `to` itself for a target at `from`, `target` itself
/// for a movement of nothing, and otherwise the reading of `target` moved
/// by the clock movement, placed back in the zone — each instant read at
/// some offset a zone can have (which ones is the zone database's answer),
/// and `to` unchanged when no instant can hold the result.
pub open spec fn instant_moved(target: int, from: int, to: int, r: int) -> bool {
    &&& target == from ==> r == to
    &&& to == from ==> r == target
    &&& target != from && to != from ==> exists|ot: int, of: int, oto: int, back: int|
        #![trigger placed(moved_reading(target, from, to, ot, of, oto), back)]
        offset_in_range(ot) && offset_in_range(of) && offset_in_range(oto) && offset_in_range(back)
            && (if fits_i64(moved_reading(target, from, to, ot, of, oto)) && fits_i64(
            placed(moved_reading(target, from, to, ot, of, oto), back),
        ) {
            r == placed(moved_reading(target, from, to, ot, of, oto), back)
        } else {
            r == to
        })
}

/// Whether `r` is `target` moved as far as `from` was moved to `to`, in
/// plain milliseconds — the movement on UTC's clock, which never changes
/// offset — and `to` unchanged when no instant can hold the result.
pub open spec fn utc_moved(target: int, from: int, to: int, r: int) -> bool {
    if fits_i64(target + (to - from)) {
        r == target + (to - from)
    } else {
        r == to
    }
}

/// `target` moved on the wall clock of the zone named `zone` by the movement
/// the user made from `from` to `to`.
///
/// A target at the anchor goes where the user put the anchor, and a
/// movement of nothing leaves the target where it is. Otherwise each of the three instants
/// is read on the zone's clock, the reading `target` moved by the same clock
/// movement is found, and that reading is placed back in the zone — so a
/// move across a daylight-saving change keeps its wall-clock meaning. A
/// zone the database does not know is read as UTC; a result no instant can
/// hold answers `to` unchanged.
pub fn shifted_like(target: i64, from: i64, to: i64, zone: &str) -> (r: i64)
    ensures
        instant_moved(target as int, from as int, to as int, r as int),
        names_utc(zone@) ==> utc_moved(target as int, from as int, to as int, r as int),
        target == from ==> r == to,
        to == from ==> r == target,
        target != from && to != from ==> exists|ot: int, of: int, oto: int, back: int|
            #![trigger placed(moved_reading(target as int, from as int, to as int, ot, of, oto), back)]
            offset_in_range(ot) && offset_in_range(of) && offset_in_range(oto) && offset_in_range(
                back,
            ) && (if fits_i64(moved_reading(target as int, from as int, to as int, ot, of, oto))
                && fits_i64(placed(moved_reading(target as int, from as int, to as int, ot, of, oto), back)) {
                r == placed(moved_reading(target as int, from as int, to as int, ot, of, oto), back)
            } else {
                r == to
            }),
{
    if target == from {
        return to;
    }
    if to == from {
        return target;
    }
    let ot = offset_or_utc(zone, target);
    let of = offset_or_utc(zone, from);
    let oto = offset_or_utc(zone, to);
    let reading: i128 = (target as i128 + ot as i128 * 1000) + ((to as i128 + oto as i128 * 1000)
        - (from as i128 + of as i128 * 1000));
    let ghost m = moved_reading(target as int, from as int, to as int, ot as int, of as int, oto as int);
    assert(reading == m);
    if reading < i64::MIN as i128 || reading > i64::MAX as i128 {
        assert(!fits_i64(m));
        assert(offset_in_range(0));
        assert(placed(m, 0) == m);
        return to;
    }
    let reading = reading as i64;
    let found: Option<i64> = if is_utc_name(zone) {
        proof {
            assert(reading == reading - 0 * 1000);
        }
        Some(reading)
    } else {
        match lookup_zone(zone) {
            Some(z) => instant_at_reading(&z, reading),
            None => None,
        }
    };
    match found {
        Some(t) => {
            proof {
                let back = choose|o: int| offset_in_range(o) && t == reading - o * 1000;
                assert(fits_i64(placed(m, back)));
                assert(t == placed(m, back));
            }
            t
        },
        None => {
            let back: i128 = ot as i128;
            let r: i128 = reading as i128 - back * 1000;
            assert(offset_in_range(ot as int));
            assert(r == placed(m, ot as int));
            if r < i64::MIN as i128 || r > i64::MAX as i128 {
                return to;
            }
            r as i64
        },
    }
}

/// `jiff::tz::TimeZone::iana_name`: the IANA name the zone was found under,
/// when it has one. Nothing is claimed of it.
#[verifier::external_body]
fn iana_name_of(zone: &jiff::tz::TimeZone) -> Option<String> {
    zone.iana_name().map(|n| n.to_string())
}

/// A named zone read at two instants.
pub enum ZoneReading {
    /// The database has no zone of that name.
    Unknown,
    /// One of the instants is beyond what the time library can place.
    OutOfRange,
    /// The zone's `TZID` (its IANA name, or `UTC` when it has none) and its
    /// offsets at the two instants.
    Found { tzid: String, first: i32, second: i32 },
}

/// The zone named `zone` read at the instants `a` and `b`.
pub(crate) fn read_named_zone(zone: &str, a: i64, b: i64) -> (r: ZoneReading)
    ensures
        r is OutOfRange ==> !(in_time_range(a as int) && in_time_range(b as int)),
        r matches ZoneReading::Found { first, second, .. } ==> offset_in_range(first as int)
            && offset_in_range(second as int),
        in_time_range(a as int) && in_time_range(b as int) ==> !(r is OutOfRange),
        r is Found ==> in_time_range(a as int) && in_time_range(b as int),
        a == b ==> (r matches ZoneReading::Found { first, second, .. } ==> first == second),
{
    match lookup_zone(zone) {
        None => ZoneReading::Unknown,
        Some(z) => {
            let first = offset_at(&z, a);
            let second = if b == a {
                first
            } else {
                offset_at(&z, b)
            };
            match (first, second) {
            (Some(first), Some(second)) => {
                let tzid = match iana_name_of(&z) {
                    Some(n) => n,
                    None => crate::text::owned("UTC"),
                };
                ZoneReading::Found { tzid, first, second }
            },
            _ => ZoneReading::OutOfRange,
            }
        },
    }
}

} // verus!
