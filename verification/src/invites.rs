//! Invitations: what a new one's announcement says, which ones a pass
//! announces, and how each lists in the app's invitation tray.

use vstd::prelude::*;
use crate::clock::{clock_text, day_in_words_at, names_day_in_words, read_instant, readable_instant, time_at_offset, TimeFormat};
use crate::events::{can_respond, writable_role};
use crate::guests::{attendee_views, has_self, opt_view, Attendee};
use crate::text::{owned, push_str, str_eq};
use crate::zone::{all_day_span_dates, local_day, local_time_of_day, offset_in_range, offset_or_utc, span_days};
use crate::civil::names_day;

verus! {

/// An unanswered invitation, as the store lists it for announcing.
#[derive(Debug)]
pub struct InviteCandidate {
    pub event_id: i64,
    pub calendar_id: i64,
    pub summary: Option<String>,
    pub start_utc: i64,
    pub end_utc: i64,
    pub is_all_day: bool,
    pub organizer_email: Option<String>,
    pub calendar_timezone: String,
    /// Whether the calendar is shown; a hidden one is muted.
    pub calendar_selected: bool,
    pub provider: String,
    pub access_role: String,
    pub attendees: Vec<Attendee>,
    pub color_hex: Option<String>,
}

/// What clicking a notification does.
#[derive(Debug, Clone, Copy, PartialEq, Eq)]
pub enum Action {
    /// Accepts the invitation to the whole series the event belongs to.
    AcceptInvite { event_id: i64, start_ms: i64 },
}

/// A notification as the transport posts it.
#[derive(Debug, PartialEq, Eq)]
pub struct Notification {
    pub title: String,
    pub body: String,
    pub actions: Vec<Action>,
    /// Stays on screen until dealt with, rather than expiring.
    pub sticky: bool,
}

/// The title an event without one is announced under.
pub const NO_TITLE: &'static str = "(no title)";

/// Whether the announcement can carry the accepting click: an answer can be
/// written only to Google, and past the provider it is the popover's own
/// rule (with demo mode, which never announces, taken as off).
pub open spec fn accepts(c: &InviteCandidate) -> bool {
    c.provider@ == "google"@ && writable_role(c.access_role@) && has_self(
        attendee_views(c.attendees@),
    )
}

/// [`accepts`], executable.
pub fn offers_accept(c: &InviteCandidate) -> (r: bool)
    ensures
        r == accepts(c),
{
    proof {
        reveal_strlit("google");
    }
    str_eq(c.provider.as_str(), "google") && can_respond(
        false,
        c.access_role.as_str(),
        c.attendees.as_slice(),
    )
}

/// What an invitation is titled: its own title when it has one that says
/// something, `(no title)` otherwise.
pub open spec fn title_of(summary: Option<Seq<char>>) -> Seq<char> {
    match summary {
        Some(s) => if s.len() > 0 {
            s
        } else {
            NO_TITLE@
        },
        None => NO_TITLE@,
    }
}

/// The organizer part of an announcement: ` · from` and the address, when
/// there is one.
pub open spec fn from_text(organizer: Option<Seq<char>>) -> Seq<char> {
    match organizer {
        Some(o) => if o.len() > 0 {
            " · from "@ + o
        } else {
            Seq::empty()
        },
        None => Seq::empty(),
    }
}

/// The last line of an announcement, which spells out how to get rid of a
/// sticky card whose shell draws no controls: how to accept and dismiss
/// when the click accepts, how to dismiss on Linux otherwise, and nothing
/// where the platform draws its own controls.
pub open spec fn ways_out(clickable: bool, linux: bool) -> Seq<char> {
    if clickable {
        "\nClick to accept · right-click to dismiss"@
    } else if linux {
        "\nRight-click to dismiss"@
    } else {
        Seq::empty()
    }
}

/// What follows the day: ` · All day`, or ` · ` and the time of day on the
/// user's clock.
pub open spec fn time_part(all_day: bool, t: int, o: int, format: TimeFormat) -> Seq<char> {
    if all_day {
        " · All day"@
    } else {
        " · "@ + clock_text(local_time_of_day(t, o) / 60000, format)
    }
}

/// What one invitation's announcement says.
///
/// The day (and, for a timed event, the time) is read where the user is,
/// `display_tz`, for a timed event and in the calendar's own zone for an
/// all-day one, whose date the store anchors at midnight there. The click
/// accepts only where [`offers_accept`] says an answer can be written and
/// the platform (`linux`) delivers clicks; the card stays until dealt with
/// either way.
pub fn invite_notification_with_format(
    c: &InviteCandidate,
    display_tz: &str,
    time_format: TimeFormat,
    linux: bool,
) -> (n: Notification)
    ensures
        n.title@ == "Invitation: "@ + title_of(opt_view(c.summary)),
        n.sticky,
        accepts(c) && linux ==> n.actions@ == seq![
            Action::AcceptInvite { event_id: c.event_id, start_ms: c.start_utc },
        ],
        !(accepts(c) && linux) ==> n.actions@.len() == 0,
        exists|d: Seq<char>, t: int, o: int|
            t == read_instant(c.start_utc as int) && offset_in_range(o) && #[trigger] names_day_in_words(
                d,
                local_day(t, o),
            ) && n.body@ == d + time_part(c.is_all_day, t, o, time_format) + from_text(
                opt_view(c.organizer_email),
            ) + ways_out(accepts(c) && linux, linux),
{
    proof {
        reveal_strlit(" · All day");
        reveal_strlit(" · ");
        reveal_strlit(" · from ");
        reveal_strlit("\nClick to accept · right-click to dismiss");
        reveal_strlit("\nRight-click to dismiss");
        reveal_strlit("Invitation: ");
        reveal_strlit("(no title)");
    }
    let t = readable_instant(c.start_utc);
    let zone = if c.is_all_day {
        c.calendar_timezone.as_str()
    } else {
        display_tz
    };
    let o = offset_or_utc(zone, t);
    let day = day_in_words_at(t, o);
    let mut body = owned(day.as_str());
    if c.is_all_day {
        push_str(&mut body, " · All day");
    } else {
        push_str(&mut body, " · ");
        let clock = time_at_offset(t, o, time_format);
        push_str(&mut body, clock.as_str());
    }
    assert(body@ == day@ + time_part(c.is_all_day, t as int, o as int, time_format));
    let ghost with_time = body@;
    match &c.organizer_email {
        Some(org) => {
            if org.as_str().unicode_len() > 0 {
                push_str(&mut body, " · from ");
                push_str(&mut body, org.as_str());
            }
        },
        None => {},
    }
    assert(body@ == with_time + from_text(opt_view(c.organizer_email)));
    let ghost with_from = body@;
    let clickable = offers_accept(c) && linux;
    let mut actions: Vec<Action> = Vec::new();
    if clickable {
        actions.push(Action::AcceptInvite { event_id: c.event_id, start_ms: c.start_utc });
        push_str(&mut body, "\nClick to accept · right-click to dismiss");
    } else if linux {
        push_str(&mut body, "\nRight-click to dismiss");
    }
    assert(body@ =~= with_from + ways_out(accepts(c) && linux, linux));
    assert(actions@.len() == 0 || actions@ =~= seq![
        Action::AcceptInvite { event_id: c.event_id, start_ms: c.start_utc },
    ]);
    let mut title = owned("Invitation: ");
    match &c.summary {
        Some(s) => {
            if s.as_str().unicode_len() > 0 {
                push_str(&mut title, s.as_str());
            } else {
                push_str(&mut title, NO_TITLE);
            }
        },
        None => push_str(&mut title, NO_TITLE),
    }
    assert(names_day_in_words(day@, local_day(t as int, o as int)));
    assert(body@ == day@ + time_part(c.is_all_day, t as int, o as int, time_format) + from_text(
        opt_view(c.organizer_email),
    ) + ways_out(accepts(c) && linux, linux));
    Notification { title, body, actions, sticky: true }
}

/// What the user is told after clicking to accept: the event's title and
/// "Invitation accepted", a card read once and left to expire; or, when the
/// answer failed (`reason` already in the user's words), a card that stays
/// until read and says where to answer instead.
pub fn acceptance_notice(outcome: Result<Option<String>, String>) -> (n: Notification)
    ensures
        n.actions@.len() == 0,
        match outcome {
            Ok(title) => n.title@ == title_of(opt_view(title)) && n.body@ == "Invitation accepted"@
                && !n.sticky,
            Err(reason) => n.title@ == "Could not accept the invitation"@ && n.body@ == reason@
                + " Open OmaCal to answer."@ && n.sticky,
        },
{
    proof {
        reveal_strlit("Invitation accepted");
        reveal_strlit("Could not accept the invitation");
        reveal_strlit(" Open OmaCal to answer.");
        reveal_strlit("(no title)");
    }
    match outcome {
        Ok(title) => {
            let shown = match title {
                Some(t) => if t.as_str().unicode_len() > 0 {
                    t
                } else {
                    owned(NO_TITLE)
                },
                None => owned(NO_TITLE),
            };
            Notification {
                title: shown,
                body: owned("Invitation accepted"),
                actions: Vec::new(),
                sticky: false,
            }
        },
        Err(reason) => {
            let mut body = reason;
            push_str(&mut body, " Open OmaCal to answer.");
            Notification {
                title: owned("Could not accept the invitation"),
                body,
                actions: Vec::new(),
                sticky: true,
            }
        },
    }
}

/// Whether notifications may be posted at all: never in demo mode, and
/// never with the notifications switch off.
pub fn may_notify(demo: bool, notifications_enabled: bool) -> (r: bool)
    ensures
        r == (!demo && notifications_enabled),
{
    !demo && notifications_enabled
}

/// What a pass does with one unanswered invitation.
#[derive(Debug, Clone, Copy, PartialEq, Eq)]
pub enum InviteStep {
    /// Its calendar's backlog has not been seeded yet: record it without a
    /// word — what predates the watch is not news.
    Seed,
    /// Its calendar is hidden: mute it, but leave it unrecorded, so showing
    /// the calendar again surfaces it while it is still unanswered.
    Wait,
    /// News: post it, then record it (a refused post is recorded too).
    Announce,
}

/// The step a pass takes for an invitation on a calendar that is or is not
/// yet seeded, and is or is not shown.
pub fn invite_step(calendar_unseeded: bool, calendar_selected: bool) -> (s: InviteStep)
    ensures
        calendar_unseeded ==> s == InviteStep::Seed,
        !calendar_unseeded && !calendar_selected ==> s == InviteStep::Wait,
        !calendar_unseeded && calendar_selected ==> s == InviteStep::Announce,
{
    if calendar_unseeded {
        InviteStep::Seed
    } else if !calendar_selected {
        InviteStep::Wait
    } else {
        InviteStep::Announce
    }
}

/// What one pass did: the invitations it announced, in order, and how many
/// backlog rows it recorded silently.
#[derive(Debug, PartialEq, Eq)]
pub struct InvitePass {
    pub posted: Vec<i64>,
    pub seeded: usize,
}

impl InvitePass {
    /// Nothing announced, nothing seeded — also what a silenced pass reports.
    pub fn new() -> (p: Self)
        ensures
            p.posted@.len() == 0,
            p.seeded == 0,
    {
        InvitePass { posted: Vec::new(), seeded: 0 }
    }

    /// Accounts for `step`, taken for the invitation `event_id`.
    pub fn record(&mut self, step: InviteStep, event_id: i64)
        requires
            step == InviteStep::Seed ==> old(self).seeded < usize::MAX,
        ensures
            step == InviteStep::Seed ==> final(self).seeded == old(self).seeded + 1
                && final(self).posted@ == old(self).posted@,
            step == InviteStep::Wait ==> final(self).seeded == old(self).seeded
                && final(self).posted@ == old(self).posted@,
            step == InviteStep::Announce ==> final(self).seeded == old(self).seeded
                && final(self).posted@ == old(self).posted@.push(event_id),
    {
        match step {
            InviteStep::Seed => {
                self.seeded = self.seeded + 1;
            },
            InviteStep::Wait => {},
            InviteStep::Announce => {
                self.posted.push(event_id);
            },
        }
    }
}

/// One row of the app's invitation tray, ready to render.
#[derive(Debug, PartialEq, Eq)]
pub struct PendingInvite {
    pub id: i64,
    pub title: Option<String>,
    pub start_ms: i64,
    pub end_ms: i64,
    pub is_all_day: bool,
    /// The first and last (inclusive) day an all-day invitation covers, in
    /// the calendar's zone; none for a timed one.
    pub start_date: Option<String>,
    pub end_date: Option<String>,
    pub organizer_email: Option<String>,
    pub color: Option<String>,
    /// Whether the tray offers the RSVP buttons: the popover's own gate,
    /// provider included.
    pub can_respond: bool,
}

fn copy_opt(o: &Option<String>) -> (r: Option<String>)
    ensures
        opt_view(r) == opt_view(*o),
{
    match o {
        Some(s) => Some(owned(s.as_str())),
        None => None,
    }
}

/// The first and last day an all-day event covers in `zone`, as the tray
/// lists them; none for a timed event.
fn span_if_all_day(is_all_day: bool, start_ms: i64, end_ms: i64, zone: &str) -> (r: (
    Option<String>,
    Option<String>,
))
    ensures
        !is_all_day ==> r.0 is None && r.1 is None,
        is_all_day ==> (r.0 matches Some(s) && r.1 matches Some(e) && exists|os: int, oe: int|
            offset_in_range(os) && offset_in_range(oe) && #[trigger] names_day(
                s@,
                span_days(local_day(start_ms as int, os), local_day(end_ms as int, oe)).0,
            ) && #[trigger] names_day(
                e@,
                span_days(local_day(start_ms as int, os), local_day(end_ms as int, oe)).1,
            )),
{
    if is_all_day {
        let span = all_day_span_dates(start_ms, end_ms, zone);
        let ghost sv = span.0@;
        let ghost ev = span.1@;
        let (s, e) = span;
        let r = (Some(s), Some(e));
        assert(r.0 matches Some(x) && r.1 matches Some(y) && x@ == sv && y@ == ev);
        r
    } else {
        (None, None)
    }
}

/// The tray's row for `c`.
pub fn to_pending(c: &InviteCandidate, demo: bool) -> (p: PendingInvite)
    ensures
        p.id == c.event_id,
        opt_view(p.title) == opt_view(c.summary),
        p.start_ms == c.start_utc,
        p.end_ms == c.end_utc,
        p.is_all_day == c.is_all_day,
        opt_view(p.organizer_email) == opt_view(c.organizer_email),
        opt_view(p.color) == opt_view(c.color_hex),
        p.can_respond == (!demo && accepts(c)),
        !c.is_all_day ==> p.start_date is None && p.end_date is None,
        c.is_all_day ==> (p.start_date matches Some(s) && p.end_date matches Some(e) && exists|
            os: int,
            oe: int,
        |
            offset_in_range(os) && offset_in_range(oe) && #[trigger] names_day(
                s@,
                span_days(local_day(c.start_utc as int, os), local_day(c.end_utc as int, oe)).0,
            ) && #[trigger] names_day(
                e@,
                span_days(local_day(c.start_utc as int, os), local_day(c.end_utc as int, oe)).1,
            )),
{
    proof {
        reveal_strlit("google");
    }
    let (start_date, end_date) = span_if_all_day(c.is_all_day, c.start_utc, c.end_utc, c.calendar_timezone.as_str());
    let answerable = str_eq(c.provider.as_str(), "google") && can_respond(
        demo,
        c.access_role.as_str(),
        c.attendees.as_slice(),
    );
    PendingInvite {
        id: c.event_id,
        title: copy_opt(&c.summary),
        start_ms: c.start_utc,
        end_ms: c.end_utc,
        is_all_day: c.is_all_day,
        start_date,
        end_date,
        organizer_email: copy_opt(&c.organizer_email),
        color: copy_opt(&c.color_hex),
        can_respond: answerable,
    }
}

/// One guest who declined one of the user's own meetings, as the store
/// lists them.
#[derive(Debug)]
pub struct DeclinedGuest {
    pub calendar_id: i64,
    pub gid: String,
    pub email: String,
    pub display_name: Option<String>,
    pub summary: Option<String>,
    pub start_utc: i64,
    pub end_utc: i64,
    pub is_all_day: bool,
    pub calendar_timezone: String,
    pub color_hex: Option<String>,
}

/// The tray's row for a declined guest.
#[derive(Debug, PartialEq, Eq)]
pub struct DeclineNotice {
    pub calendar_id: i64,
    pub gid: String,
    pub email: String,
    pub display_name: Option<String>,
    pub title: Option<String>,
    pub start_ms: i64,
    pub end_ms: i64,
    pub is_all_day: bool,
    pub start_date: Option<String>,
    pub end_date: Option<String>,
    pub color: Option<String>,
}

/// The tray's row for `d`: the meeting as the store has it, with an
/// all-day meeting's days worked out in the calendar's zone.
pub fn to_decline_notice(d: DeclinedGuest) -> (n: DeclineNotice)
    ensures
        n.calendar_id == d.calendar_id,
        n.gid == d.gid,
        n.email == d.email,
        n.display_name == d.display_name,
        n.title == d.summary,
        n.start_ms == d.start_utc,
        n.end_ms == d.end_utc,
        n.is_all_day == d.is_all_day,
        n.color == d.color_hex,
        !d.is_all_day ==> n.start_date is None && n.end_date is None,
        d.is_all_day ==> (n.start_date matches Some(s) && n.end_date matches Some(e) && exists|
            os: int,
            oe: int,
        |
            offset_in_range(os) && offset_in_range(oe) && #[trigger] names_day(
                s@,
                span_days(local_day(d.start_utc as int, os), local_day(d.end_utc as int, oe)).0,
            ) && #[trigger] names_day(
                e@,
                span_days(local_day(d.start_utc as int, os), local_day(d.end_utc as int, oe)).1,
            )),
{
    let (start_date, end_date) = span_if_all_day(
        d.is_all_day,
        d.start_utc,
        d.end_utc,
        d.calendar_timezone.as_str(),
    );
    DeclineNotice {
        calendar_id: d.calendar_id,
        gid: d.gid,
        email: d.email,
        display_name: d.display_name,
        title: d.summary,
        start_ms: d.start_utc,
        end_ms: d.end_utc,
        is_all_day: d.is_all_day,
        start_date,
        end_date,
        color: d.color_hex,
    }
}

/// One meeting that moved (a new slot) or was cancelled (none) under the
/// user, as the store lists it.
#[derive(Debug)]
pub struct ChangedMeeting {
    pub calendar_id: i64,
    pub gid: String,
    /// `moved` or `cancelled`.
    pub kind: String,
    pub summary: Option<String>,
    pub is_all_day: bool,
    pub old_start_utc: i64,
    pub old_end_utc: Option<i64>,
    pub new_start_utc: Option<i64>,
    pub new_end_utc: Option<i64>,
    pub calendar_timezone: String,
    pub color_hex: Option<String>,
    /// The live row to answer, for a move.
    pub event_id: Option<i64>,
    /// A moved master answers the series; a moved exception one occurrence.
    pub respond_all: bool,
    pub provider: String,
    pub access_role: String,
    pub attendees: Vec<Attendee>,
}

/// The tray's row for a changed meeting.
#[derive(Debug, PartialEq, Eq)]
pub struct ChangeNotice {
    pub calendar_id: i64,
    pub gid: String,
    pub kind: String,
    pub title: Option<String>,
    pub is_all_day: bool,
    pub old_start_ms: i64,
    pub old_end_ms: Option<i64>,
    pub new_start_ms: Option<i64>,
    pub new_end_ms: Option<i64>,
    /// The first day of the old and the new slot of an all-day meeting, in
    /// the calendar's zone; none for a timed one.
    pub old_start_date: Option<String>,
    pub new_start_date: Option<String>,
    pub color: Option<String>,
    pub event_id: Option<i64>,
    /// `this` or `all`, the popover's own scope words.
    pub respond_scope: String,
    /// The occurrence an answer names: the slot the meeting now occupies.
    pub respond_start_ms: Option<i64>,
    pub can_respond: bool,
}

/// The first day of a slot from `start` to `end` in `zone`: the day its
/// start falls on there.
fn first_day(start: i64, end: i64, zone: &str) -> (s: String)
    ensures
        exists|os: int| offset_in_range(os) && #[trigger] names_day(s@, local_day(start as int, os)),
{
    let span = all_day_span_dates(start, end, zone);
    let ghost sv = span.0@;
    let (first, _last) = span;
    assert(first@ == sv);
    first
}

/// The end of a slot whose end may be unknown: a day after its start then.
fn slot_end(start: i64, end: Option<i64>) -> (e: i64)
    requires
        start + 86400000 <= i64::MAX,
    ensures
        e == match end {
            Some(x) => x as int,
            None => start + 86400000,
        },
{
    match end {
        Some(x) => x,
        None => start + 86400000,
    }
}

/// The first days of a changed all-day meeting's old and new slots in
/// `zone`; none for a timed meeting, and no new one for a cancellation.
fn slot_days(
    is_all_day: bool,
    old_start: i64,
    old_end: Option<i64>,
    new_start: Option<i64>,
    new_end: Option<i64>,
    zone: &str,
) -> (r: (Option<String>, Option<String>))
    requires
        is_all_day ==> old_start + 86400000 <= i64::MAX,
        is_all_day ==> (new_start matches Some(s) ==> s + 86400000 <= i64::MAX),
    ensures
        !is_all_day ==> r.0 is None && r.1 is None,
        is_all_day ==> (r.0 matches Some(d) && exists|os: int|
            offset_in_range(os) && #[trigger] names_day(d@, local_day(old_start as int, os))),
        is_all_day ==> match new_start {
            Some(t) => r.1 matches Some(d) && exists|os: int|
                offset_in_range(os) && #[trigger] names_day(d@, local_day(t as int, os)),
            None => r.1 is None,
        },
{
    if !is_all_day {
        return (None, None);
    }
    let old = first_day(old_start, slot_end(old_start, old_end), zone);
    let ghost ov = old@;
    match new_start {
        Some(t) => {
            let new = first_day(t, slot_end(t, new_end), zone);
            let ghost nv = new@;
            let r = (Some(old), Some(new));
            assert(r.0 matches Some(x) && r.1 matches Some(y) && x@ == ov && y@ == nv);
            r
        },
        None => {
            let r = (Some(old), None);
            assert(r.0 matches Some(x) && x@ == ov);
            r
        },
    }
}

/// The tray's row for `m`. Buttons appear exactly where an answer can be
/// sent: a moved meeting with a live row, on Google, passing the popover's
/// own gate.
pub fn to_change_notice(m: ChangedMeeting, demo: bool) -> (n: ChangeNotice)
    requires
        m.is_all_day ==> m.old_start_utc + 86400000 <= i64::MAX,
        m.is_all_day ==> (m.new_start_utc matches Some(s) ==> s + 86400000 <= i64::MAX),
    ensures
        n.calendar_id == m.calendar_id,
        n.gid == m.gid,
        n.kind == m.kind,
        n.title == m.summary,
        n.is_all_day == m.is_all_day,
        n.old_start_ms == m.old_start_utc,
        n.old_end_ms == m.old_end_utc,
        n.new_start_ms == m.new_start_utc,
        n.new_end_ms == m.new_end_utc,
        n.color == m.color_hex,
        n.event_id == m.event_id,
        n.respond_scope@ == if m.respond_all {
            "all"@
        } else {
            "this"@
        },
        n.respond_start_ms == m.new_start_utc,
        n.can_respond == (m.event_id is Some && m.provider@ == "google"@ && !demo && writable_role(
            m.access_role@,
        ) && has_self(attendee_views(m.attendees@))),
        !m.is_all_day ==> n.old_start_date is None && n.new_start_date is None,
        m.is_all_day ==> (n.old_start_date matches Some(d) && exists|os: int|
            offset_in_range(os) && #[trigger] names_day(d@, local_day(m.old_start_utc as int, os))),
        m.is_all_day ==> match m.new_start_utc {
            Some(t) => n.new_start_date matches Some(d) && exists|os: int|
                offset_in_range(os) && #[trigger] names_day(d@, local_day(t as int, os)),
            None => n.new_start_date is None,
        },
{
    proof {
        reveal_strlit("google");
        reveal_strlit("all");
        reveal_strlit("this");
    }
    let (old_start_date, new_start_date) = slot_days(
        m.is_all_day,
        m.old_start_utc,
        m.old_end_utc,
        m.new_start_utc,
        m.new_end_utc,
        m.calendar_timezone.as_str(),
    );
    let answerable = m.event_id.is_some() && str_eq(m.provider.as_str(), "google") && can_respond(
        demo,
        m.access_role.as_str(),
        m.attendees.as_slice(),
    );
    let respond_scope = if m.respond_all {
        owned("all")
    } else {
        owned("this")
    };
    ChangeNotice {
        calendar_id: m.calendar_id,
        gid: m.gid,
        kind: m.kind,
        title: m.summary,
        is_all_day: m.is_all_day,
        old_start_ms: m.old_start_utc,
        old_end_ms: m.old_end_utc,
        new_start_ms: m.new_start_utc,
        new_end_ms: m.new_end_utc,
        old_start_date,
        new_start_date,
        color: m.color_hex,
        event_id: m.event_id,
        respond_scope,
        respond_start_ms: m.new_start_utc,
        can_respond: answerable,
    }
}

} // verus!
