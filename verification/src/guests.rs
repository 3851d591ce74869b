//! Guest lists, as a write sends them.
//!
//! Google replaces an event's attendee array wholesale on every insert and
//! patch, so a guest list going out is always the whole list, and anybody
//! staying on it must go out carrying every field they already had — their
//! answer, their name, their comment, their extra guests. This module builds
//! that list for the three writes that send one: an RSVP, an edit of the
//! guest list, and a copy onto another event.

use vstd::prelude::*;
use crate::text::{ascii_ci_eq, ascii_lower, trim, trim_end, trim_start, is_white_space};
use crate::text::{char_ascii_lower, eq_ignore_ascii_case, owned, trim_str};

verus! {

/// One guest of a stored event.
#[derive(Debug)]
pub struct Attendee {
    pub email: String,
    pub display_name: Option<String>,
    pub response_status: String,
    pub optional: bool,
    /// The row of the signed-in user.
    pub is_self: bool,
    pub comment: Option<String>,
    pub additional_guests: i64,
}

/// One guest as the edit form lists them: an address and whether they are
/// optional. Nothing else about a guest can be set from the form.
#[derive(Debug)]
pub struct Guest {
    pub email: String,
    pub optional: bool,
}

/// One entry of the attendee array a write sends.
///
/// `is_self` is not among its fields: it is Google's own annotation of the
/// signed-in user's row, and sending it back means nothing.
#[derive(Debug, PartialEq, Eq)]
pub struct WireAttendee {
    pub email: String,
    pub response_status: String,
    pub optional: bool,
    pub additional_guests: i64,
    /// Sent only when present.
    pub display_name: Option<String>,
    /// Sent only when present.
    pub comment: Option<String>,
}

/// An [`Attendee`] as text and values.
pub struct AttendeeView {
    pub email: Seq<char>,
    pub display_name: Option<Seq<char>>,
    pub response_status: Seq<char>,
    pub optional: bool,
    pub is_self: bool,
    pub comment: Option<Seq<char>>,
    pub additional_guests: i64,
}

/// A [`Guest`] as text and values.
pub struct GuestView {
    pub email: Seq<char>,
    pub optional: bool,
}

/// A [`WireAttendee`] as text and values.
pub struct WireView {
    pub email: Seq<char>,
    pub response_status: Seq<char>,
    pub optional: bool,
    pub additional_guests: i64,
    pub display_name: Option<Seq<char>>,
    pub comment: Option<Seq<char>>,
}

/// The text of an optional string.
pub open spec fn opt_view(o: Option<String>) -> Option<Seq<char>> {
    match o {
        Some(s) => Some(s@),
        None => None,
    }
}

impl View for Attendee {
    type V = AttendeeView;

    open spec fn view(&self) -> AttendeeView {
        AttendeeView {
            email: self.email@,
            display_name: opt_view(self.display_name),
            response_status: self.response_status@,
            optional: self.optional,
            is_self: self.is_self,
            comment: opt_view(self.comment),
            additional_guests: self.additional_guests,
        }
    }
}

impl View for Guest {
    type V = GuestView;

    open spec fn view(&self) -> GuestView {
        GuestView { email: self.email@, optional: self.optional }
    }
}

impl View for WireAttendee {
    type V = WireView;

    open spec fn view(&self) -> WireView {
        WireView {
            email: self.email@,
            response_status: self.response_status@,
            optional: self.optional,
            additional_guests: self.additional_guests,
            display_name: opt_view(self.display_name),
            comment: opt_view(self.comment),
        }
    }
}

/// The views of a list of attendees.
pub open spec fn attendee_views(s: Seq<Attendee>) -> Seq<AttendeeView> {
    s.map_values(|a: Attendee| a@)
}

/// The views of a guest list.
pub open spec fn guest_views(s: Seq<Guest>) -> Seq<GuestView> {
    s.map_values(|g: Guest| g@)
}

/// The views of an attendee array.
pub open spec fn wire_views(s: Seq<WireAttendee>) -> Seq<WireView> {
    s.map_values(|w: WireAttendee| w@)
}

/// Whether any attendee is the signed-in user.
pub open spec fn has_self(s: Seq<AttendeeView>) -> bool {
    exists|i: int| 0 <= i < s.len() && (#[trigger] s[i]).is_self
}

/// `a` as it goes out, answering `status`: every field it has, echoed.
pub open spec fn wire_of(a: AttendeeView, status: Seq<char>) -> WireView {
    WireView {
        email: a.email,
        response_status: status,
        optional: a.optional,
        additional_guests: a.additional_guests,
        display_name: a.display_name,
        comment: a.comment,
    }
}

/// The array with the signed-in user's answer set to `response` and every
/// other guest exactly as stored.
pub open spec fn with_self_response(s: Seq<AttendeeView>, response: Seq<char>) -> Seq<WireView> {
    Seq::new(
        s.len(),
        |i: int|
            wire_of(
                s[i],
                if s[i].is_self {
                    response
                } else {
                    s[i].response_status
                },
            ),
    )
}

/// Answering an invitation sends every guest's row with every field they
/// have on the event — address, name, note, `optional`, extra guests —
/// and changes nothing but the signed-in user's own answer: the user's
/// row keeps its note too, and everybody else keeps their answer.
pub proof fn law_an_answer_keeps_every_field_but_the_answer(s: Seq<AttendeeView>, response: Seq<char>)
    ensures
        with_self_response(s, response).len() == s.len(),
        forall|i: int|
            #![trigger with_self_response(s, response)[i]]
            0 <= i < s.len() ==> {
                let w = with_self_response(s, response)[i];
                &&& w.email == s[i].email
                &&& w.display_name == s[i].display_name
                &&& w.comment == s[i].comment
                &&& w.optional == s[i].optional
                &&& w.additional_guests == s[i].additional_guests
                &&& w.response_status == if s[i].is_self {
                    response
                } else {
                    s[i].response_status
                }
            },
        forall|i: int|
            #![trigger verbatim(s)[i]]
            0 <= i < s.len() ==> {
                let w = verbatim(s)[i];
                &&& w.email == s[i].email
                &&& w.display_name == s[i].display_name
                &&& w.comment == s[i].comment
                &&& w.optional == s[i].optional
                &&& w.additional_guests == s[i].additional_guests
                &&& w.response_status == s[i].response_status
            },
{
}

/// The array exactly as stored: everybody, with the answer they gave.
pub open spec fn verbatim(s: Seq<AttendeeView>) -> Seq<WireView> {
    Seq::new(s.len(), |i: int| wire_of(s[i], s[i].response_status))
}

/// Whether two addresses name one person: equal once trimmed and with ASCII
/// letters folded to lower case.
pub open spec fn same_person(a: Seq<char>, b: Seq<char>) -> bool {
    ascii_ci_eq(trim(a), trim(b))
}

/// The first guest on the form whose address names the same person as
/// `email`.
pub open spec fn first_match(wanted: Seq<GuestView>, email: Seq<char>) -> Option<int>
    decreases wanted.len(),
{
    if wanted.len() == 0 {
        None
    } else if same_person(wanted[0].email, email) {
        Some(0)
    } else {
        match first_match(wanted.drop_first(), email) {
            Some(j) => Some(j + 1),
            None => None,
        }
    }
}

/// Whether somebody stored on the event is the person `email` names.
pub open spec fn on_event(stored: Seq<AttendeeView>, email: Seq<char>) -> bool {
    exists|i: int| 0 <= i < stored.len() && same_person(email, (#[trigger] stored[i]).email)
}

/// The guests who were on the event and stay on it, in the event's order:
/// each echoed whole, with the `optional` the form gives them.
pub open spec fn kept(stored: Seq<AttendeeView>, wanted: Seq<GuestView>) -> Seq<WireView>
    decreases stored.len(),
{
    if stored.len() == 0 {
        seq![]
    } else {
        let rest = kept(stored.drop_last(), wanted);
        let a = stored.last();
        match first_match(wanted, a.email) {
            Some(j) => rest.push(
                wire_of(AttendeeView { optional: wanted[j].optional, ..a }, a.response_status),
            ),
            None => rest,
        }
    }
}

/// A newly invited guest: the address trimmed, no answer yet.
pub open spec fn invited(g: GuestView) -> WireView {
    WireView {
        email: trim(g.email),
        response_status: "needsAction"@,
        optional: g.optional,
        additional_guests: 0,
        display_name: None,
        comment: None,
    }
}

/// Whether an entry of `out` already names the person `email` names.
pub open spec fn listed(out: Seq<WireView>, email: Seq<char>) -> bool {
    exists|k: int| 0 <= k < out.len() && same_person((#[trigger] out[k]).email, email)
}

/// The newly invited, in the form's order, each address once and nobody who
/// was already on the event.
pub open spec fn added(stored: Seq<AttendeeView>, wanted: Seq<GuestView>) -> Seq<WireView>
    decreases wanted.len(),
{
    if wanted.len() == 0 {
        seq![]
    } else {
        let prior = added(stored, wanted.drop_last());
        let g = wanted.last();
        if on_event(stored, g.email) || listed(prior, g.email) {
            prior
        } else {
            prior.push(invited(g))
        }
    }
}

/// The guest list an edit sends: those kept, then those added.
pub open spec fn for_edit(stored: Seq<AttendeeView>, wanted: Seq<GuestView>) -> Seq<WireView> {
    kept(stored, wanted) + added(stored, wanted)
}

fn copy_string(s: &String) -> (r: String)
    ensures
        r@ == s@,
{
    s.clone()
}

fn copy_opt(o: &Option<String>) -> (r: Option<String>)
    ensures
        opt_view(r) == opt_view(*o),
{
    match o {
        Some(s) => Some(s.clone()),
        None => None,
    }
}

/// One attendee as the wire shape, answering `response_status`.
///
/// The single field list every write sends an attendee through: a field
/// missing here would be erased from the real event on every write, for
/// every guest.
pub fn attendee_json(a: &Attendee, response_status: &str) -> (w: WireAttendee)
    ensures
        w@ == wire_of(a@, response_status@),
{
    WireAttendee {
        email: copy_string(&a.email),
        response_status: owned(response_status),
        optional: a.optional,
        additional_guests: a.additional_guests,
        display_name: copy_opt(&a.display_name),
        comment: copy_opt(&a.comment),
    }
}

/// The attendee array with only the signed-in user's answer changed;
/// `None` when nobody on it is the signed-in user, since there is then no
/// row of ours to edit and sending the list would rewrite other people's.
pub fn attendees_with_self_response(attendees: &[Attendee], response: &str) -> (r: Option<
    Vec<WireAttendee>,
>)
    ensures
        r is None <==> !has_self(attendee_views(attendees@)),
        r matches Some(out) ==> wire_views(out@) == with_self_response(
            attendee_views(attendees@),
            response@,
        ),
{
    let ghost s = attendee_views(attendees@);
    let mut any = false;
    let mut i: usize = 0;
    while i < attendees.len()
        invariant
            i <= attendees.len(),
            s == attendee_views(attendees@),
            any <==> exists|k: int| 0 <= k < i && (#[trigger] s[k]).is_self,
        decreases attendees.len() - i,
    {
        if attendees[i].is_self {
            any = true;
            assert(s[i as int].is_self);
        }
        i = i + 1;
    }
    if !any {
        return None;
    }
    let mut out: Vec<WireAttendee> = Vec::new();
    let mut i: usize = 0;
    while i < attendees.len()
        invariant
            i <= attendees.len(),
            s == attendee_views(attendees@),
            wire_views(out@) =~= with_self_response(s, response@).take(i as int),
        decreases attendees.len() - i,
    {
        let a = &attendees[i];
        assert(s[i as int] == attendees@[i as int]@);
        let w = if a.is_self {
            attendee_json(a, response)
        } else {
            attendee_json(a, a.response_status.as_str())
        };
        let ghost before = out@;
        out.push(w);
        assert(wire_views(out@) =~= wire_views(before).push(w@));
        i = i + 1;
        assert(wire_views(out@) =~= with_self_response(s, response@).take(i as int));
    }
    assert(with_self_response(s, response@).take(attendees.len() as int) =~= with_self_response(
        s,
        response@,
    ));
    Some(out)
}

/// The attendee array unchanged: everybody, with the answer they already
/// gave — for carrying a guest list onto a different event. A list with
/// nobody on it who is the signed-in user is still carried whole.
pub fn attendees_verbatim(attendees: &[Attendee]) -> (out: Vec<WireAttendee>)
    ensures
        wire_views(out@) == verbatim(attendee_views(attendees@)),
{
    let ghost s = attendee_views(attendees@);
    let mut out: Vec<WireAttendee> = Vec::new();
    let mut i: usize = 0;
    while i < attendees.len()
        invariant
            i <= attendees.len(),
            s == attendee_views(attendees@),
            wire_views(out@) =~= verbatim(s).take(i as int),
        decreases attendees.len() - i,
    {
        let a = &attendees[i];
        assert(s[i as int] == attendees@[i as int]@);
        let row = attendee_json(a, a.response_status.as_str());
        let ghost before = out@;
        out.push(row);
        assert(wire_views(out@) =~= wire_views(before).push(row@));
        i = i + 1;
        assert(wire_views(out@) =~= verbatim(s).take(i as int));
    }
    assert(verbatim(s).take(attendees.len() as int) =~= verbatim(s));
    out
}

/// Whether two addresses name one person: case-insensitive over ASCII and
/// trimmed, so `Ana@X.com` and ` ana@x.com ` are one guest.
pub fn same_address(a: &str, b: &str) -> (r: bool)
    ensures
        r == same_person(a@, b@),
{
    eq_ignore_ascii_case(trim_str(a), trim_str(b))
}

/// An optional index moved `by` places along.
pub open spec fn shifted_index(o: Option<int>, by: int) -> Option<int> {
    match o {
        Some(k) => Some(k + by),
        None => None,
    }
}

/// [`first_match`], executable.
fn find_guest(wanted: &[Guest], email: &str) -> (r: Option<usize>)
    ensures
        match r {
            Some(j) => first_match(guest_views(wanted@), email@) == Some(j as int) && j
                < wanted.len(),
            None => first_match(guest_views(wanted@), email@) is None,
        },
{
    let ghost w = guest_views(wanted@);
    assert(w.skip(0) =~= w);
    let mut j: usize = 0;
    while j < wanted.len()
        invariant
            j <= wanted.len(),
            w == guest_views(wanted@),
            first_match(w, email@) == shifted_index(first_match(w.skip(j as int), email@), j as int),
        decreases wanted.len() - j,
    {
        let ghost rest = w.skip(j as int);
        assert(rest[0] == w[j as int]);
        assert(w[j as int] == wanted@[j as int]@);
        assert(rest.drop_first() =~= w.skip(j + 1));
        if same_address(wanted[j].email.as_str(), email) {
            return Some(j);
        }
        j = j + 1;
    }
    assert(w.skip(j as int).len() == 0);
    None
}

/// Whether anybody on `attendees` is the person `email` names.
fn is_on_event(attendees: &[Attendee], email: &str) -> (r: bool)
    ensures
        r == on_event(attendee_views(attendees@), email@),
{
    let ghost s = attendee_views(attendees@);
    let mut i: usize = 0;
    while i < attendees.len()
        invariant
            i <= attendees.len(),
            s == attendee_views(attendees@),
            forall|k: int| 0 <= k < i ==> !same_person(email@, (#[trigger] s[k]).email),
        decreases attendees.len() - i,
    {
        if same_address(email, attendees[i].email.as_str()) {
            assert(same_person(email@, s[i as int].email));
            return true;
        }
        i = i + 1;
    }
    false
}

/// Whether an entry of `out` already names the person `email` names.
fn is_listed(out: &Vec<WireAttendee>, email: &str) -> (r: bool)
    ensures
        r == listed(wire_views(out@), email@),
{
    let ghost s = wire_views(out@);
    let mut k: usize = 0;
    while k < out.len()
        invariant
            k <= out.len(),
            s == wire_views(out@),
            forall|m: int| 0 <= m < k ==> !same_person((#[trigger] s[m]).email, email@),
        decreases out.len() - k,
    {
        if same_address(out[k].email.as_str(), email) {
            assert(same_person(s[k as int].email, email@));
            return true;
        }
        k = k + 1;
    }
    false
}

/// [`ascii_ci_eq`] is symmetric and transitive.
pub proof fn lemma_ascii_ci_eq_equivalence(a: Seq<char>, b: Seq<char>, c: Seq<char>)
    ensures
        ascii_ci_eq(a, a),
        ascii_ci_eq(a, b) ==> ascii_ci_eq(b, a),
        ascii_ci_eq(a, b) && ascii_ci_eq(b, c) ==> ascii_ci_eq(a, c),
{
    if ascii_ci_eq(a, b) {
        assert forall|i: int| 0 <= i < b.len() implies ascii_lower(#[trigger] b[i]) == ascii_lower(
            a[i],
        ) by {
            assert(ascii_lower(a[i]) == ascii_lower(b[i]));
        }
    }
    if ascii_ci_eq(a, b) && ascii_ci_eq(b, c) {
        assert forall|i: int| 0 <= i < a.len() implies ascii_lower(#[trigger] a[i]) == ascii_lower(
            c[i],
        ) by {
            assert(ascii_lower(a[i]) == ascii_lower(b[i]));
            assert(ascii_lower(b[i]) == ascii_lower(c[i]));
        }
    }
}

proof fn lemma_trim_start_shape(s: Seq<char>)
    ensures
        exists|i: int| 0 <= i <= s.len() && trim_start(s) == s.subrange(i, s.len() as int),
        trim_start(s).len() > 0 ==> !is_white_space(trim_start(s)[0]),
    decreases s.len(),
{
    if s.len() > 0 && is_white_space(s[0]) {
        lemma_trim_start_shape(s.drop_first());
        let i = choose|i: int|
            0 <= i <= s.drop_first().len() && trim_start(s.drop_first()) == s.drop_first().subrange(
                i,
                s.drop_first().len() as int,
            );
        assert(s.drop_first().subrange(i, s.drop_first().len() as int) =~= s.subrange(
            i + 1,
            s.len() as int,
        ));
    } else {
        assert(s.subrange(0, s.len() as int) =~= s);
    }
}

proof fn lemma_trim_end_shape(s: Seq<char>)
    ensures
        exists|j: int| 0 <= j <= s.len() && trim_end(s) == s.subrange(0, j),
        trim_end(s).len() > 0 ==> !is_white_space(trim_end(s).last()),
    decreases s.len(),
{
    if s.len() > 0 && is_white_space(s.last()) {
        lemma_trim_end_shape(s.drop_last());
        let j = choose|j: int|
            0 <= j <= s.drop_last().len() && trim_end(s.drop_last()) == s.drop_last().subrange(
                0,
                j,
            );
        assert(s.drop_last().subrange(0, j) =~= s.subrange(0, j));
    } else {
        assert(s.subrange(0, s.len() as int) =~= s);
    }
}

/// Trimming twice is trimming once.
pub proof fn lemma_trim_idempotent(s: Seq<char>)
    ensures
        trim(trim(s)) == trim(s),
{
    let u = trim_start(s);
    lemma_trim_start_shape(s);
    let v = trim_end(u);
    lemma_trim_end_shape(u);
    let j = choose|j: int| 0 <= j <= u.len() && trim_end(u) == u.subrange(0, j);
    if v.len() > 0 {
        assert(v[0] == u[0]);
        assert(trim_start(v) == v);
    } else {
        assert(trim_start(v) == v);
    }
    assert(trim_end(v) == v);
}

/// [`same_person`] is an equivalence.
pub proof fn lemma_same_person_equivalence(a: Seq<char>, b: Seq<char>, c: Seq<char>)
    ensures
        same_person(a, a),
        same_person(a, b) ==> same_person(b, a),
        same_person(a, b) && same_person(b, c) ==> same_person(a, c),
{
    lemma_ascii_ci_eq_equivalence(trim(a), trim(b), trim(c));
}

/// An address and its trimmed self name the same person.
pub proof fn lemma_trimmed_same_person(a: Seq<char>, b: Seq<char>)
    ensures
        same_person(trim(a), b) == same_person(a, b),
{
    lemma_trim_idempotent(a);
}

/// Every entry [`kept`] sends is an address stored on the event.
proof fn lemma_kept_from_stored(stored: Seq<AttendeeView>, wanted: Seq<GuestView>, k: int)
    requires
        0 <= k < kept(stored, wanted).len(),
    ensures
        exists|i: int|
            0 <= i < stored.len() && kept(stored, wanted)[k].email == (#[trigger] stored[i]).email,
    decreases stored.len(),
{
    let rest = kept(stored.drop_last(), wanted);
    if k < rest.len() {
        lemma_kept_from_stored(stored.drop_last(), wanted, k);
        let i = choose|i: int|
            0 <= i < stored.drop_last().len() && rest[k].email == (
            #[trigger] stored.drop_last()[i]).email;
        assert(stored[i] == stored.drop_last()[i]);
    } else {
        assert(stored[stored.len() - 1] == stored.last());
    }
}

/// The guest list an edit sends, given what is stored and what the form
/// asked for.
///
/// Everyone already on the event who is still wanted goes out first, in the
/// event's order, echoed whole — answer, name, comment and additional guests
/// as stored — with only `optional` taken from the form. Then the newly
/// invited, in the form's order, with no answer yet. An address that names
/// somebody already listed, in any case or spacing, adds no second row.
pub fn attendees_for_edit(attendees: &[Attendee], wanted: &[Guest]) -> (out: Vec<WireAttendee>)
    ensures
        wire_views(out@) == for_edit(attendee_views(attendees@), guest_views(wanted@)),
{
    let ghost s = attendee_views(attendees@);
    let ghost w = guest_views(wanted@);
    let mut out: Vec<WireAttendee> = Vec::new();
    let mut i: usize = 0;
    while i < attendees.len()
        invariant
            i <= attendees.len(),
            s == attendee_views(attendees@),
            w == guest_views(wanted@),
            wire_views(out@) =~= kept(s.take(i as int), w),
        decreases attendees.len() - i,
    {
        let a = &attendees[i];
        assert(s[i as int] == attendees@[i as int]@);
        let ghost before = out@;
        assert(s.take(i + 1).drop_last() =~= s.take(i as int));
        assert(s.take(i + 1).last() == a@);
        match find_guest(wanted, a.email.as_str()) {
            Some(j) => {
                let mut kept_row = attendee_json(a, a.response_status.as_str());
                kept_row.optional = wanted[j].optional;
                assert(w[j as int] == wanted@[j as int]@);
                out.push(kept_row);
                assert(wire_views(out@) =~= wire_views(before).push(kept_row@));
            },
            None => {},
        }
        i = i + 1;
        assert(wire_views(out@) =~= kept(s.take(i as int), w));
    }
    assert(s.take(attendees.len() as int) =~= s);
    let ghost kept_part = kept(s, w);
    let mut j: usize = 0;
    while j < wanted.len()
        invariant
            j <= wanted.len(),
            s == attendee_views(attendees@),
            w == guest_views(wanted@),
            kept_part == kept(s, w),
            wire_views(out@) =~= kept_part + added(s, w.take(j as int)),
        decreases wanted.len() - j,
    {
        let g = &wanted[j];
        assert(w[j as int] == wanted@[j as int]@);
        let ghost before = out@;
        let ghost prior = added(s, w.take(j as int));
        assert(w.take(j + 1).drop_last() =~= w.take(j as int));
        assert(w.take(j + 1).last() == g@);
        let already_on_event = is_on_event(attendees, g.email.as_str());
        let already_added = is_listed(&out, g.email.as_str());
        proof {
            let whole = wire_views(out@);
            if already_added && !already_on_event {
                let k = choose|k: int|
                    0 <= k < whole.len() && same_person((#[trigger] whole[k]).email, g.email@);
                if k < kept_part.len() {
                    lemma_kept_from_stored(s, w, k);
                    let i = choose|i: int|
                        0 <= i < s.len() && kept_part[k].email == (#[trigger] s[i]).email;
                    assert(whole[k] == kept_part[k]);
                    lemma_same_person_equivalence(kept_part[k].email, g.email@, g.email@);
                    assert(same_person(g.email@, s[i].email));
                    assert(false);
                } else {
                    assert(whole[k] == prior[k - kept_part.len()]);
                    assert(listed(prior, g.email@));
                }
            }
            if listed(prior, g.email@) {
                let k = choose|k: int|
                    0 <= k < prior.len() && same_person((#[trigger] prior[k]).email, g.email@);
                assert(whole[k + kept_part.len()] == prior[k]);
                assert(listed(whole, g.email@));
            }
        }
        if !(already_on_event || already_added) {
            let new_row = WireAttendee {
                email: owned(trim_str(g.email.as_str())),
                response_status: owned("needsAction"),
                optional: g.optional,
                additional_guests: 0,
                display_name: None,
                comment: None,
            };
            proof {
                reveal_strlit("needsAction");
            }
            assert(new_row@ == invited(g@));
            out.push(new_row);
            assert(wire_views(out@) =~= wire_views(before).push(new_row@));
            assert(added(s, w.take(j + 1)) == prior.push(invited(g@)));
        } else {
            assert(added(s, w.take(j + 1)) == prior);
        }
        j = j + 1;
        assert(wire_views(out@) =~= kept_part + added(s, w.take(j as int)));
    }
    assert(w.take(wanted.len() as int) =~= w);
    out
}

/// Answering an invitation touches the signed-in user's own answer and
/// nothing else: every other guest goes out exactly as stored, and the
/// user's own row keeps every field but its answer.
pub proof fn law_responding_changes_only_your_own_row(s: Seq<AttendeeView>, response: Seq<char>)
    ensures
        with_self_response(s, response).len() == s.len(),
        forall|i: int|
            0 <= i < s.len() && !s[i].is_self ==> #[trigger] with_self_response(s, response)[i]
                == verbatim(s)[i],
        forall|i: int|
            0 <= i < s.len() && s[i].is_self ==> #[trigger] with_self_response(s, response)[i]
                == (WireView { response_status: response, ..verbatim(s)[i] }),
{
}

/// An edit that removes everybody sends an empty list, not the old one.
pub proof fn law_removing_everyone_sends_nobody(stored: Seq<AttendeeView>)
    ensures
        for_edit(stored, Seq::<GuestView>::empty()).len() == 0,
    decreases stored.len(),
{
    if stored.len() > 0 {
        law_removing_everyone_sends_nobody(stored.drop_last());
    }
    assert(added(stored, Seq::<GuestView>::empty()) =~= Seq::<WireView>::empty());
}

proof fn lemma_kept_all(stored: Seq<AttendeeView>, wanted: Seq<GuestView>)
    requires
        forall|i: int|
            0 <= i < stored.len() ==> (#[trigger] first_match(wanted, stored[i].email) matches Some(
                j,
            ) && 0 <= j < wanted.len() && wanted[j].optional == stored[i].optional),
    ensures
        kept(stored, wanted) == verbatim(stored),
    decreases stored.len(),
{
    if stored.len() > 0 {
        let t = stored.drop_last();
        assert forall|i: int| 0 <= i < t.len() implies (#[trigger] first_match(
            wanted,
            t[i].email,
        ) matches Some(j) && 0 <= j < wanted.len() && wanted[j].optional == t[i].optional) by {
            assert(t[i] == stored[i]);
        }
        lemma_kept_all(t, wanted);
        let a = stored.last();
        assert(a == stored[stored.len() - 1]);
        assert(verbatim(t).push(wire_of(a, a.response_status)) =~= verbatim(stored));
    } else {
        assert(verbatim(stored) =~= seq![]);
    }
}

proof fn lemma_added_none(stored: Seq<AttendeeView>, wanted: Seq<GuestView>)
    requires
        forall|j: int| 0 <= j < wanted.len() ==> on_event(stored, #[trigger] wanted[j].email),
    ensures
        added(stored, wanted) == Seq::<WireView>::empty(),
    decreases wanted.len(),
{
    if wanted.len() > 0 {
        let t = wanted.drop_last();
        assert forall|j: int| 0 <= j < t.len() implies on_event(stored, #[trigger] t[j].email) by {
            assert(t[j] == wanted[j]);
        }
        lemma_added_none(stored, t);
        assert(wanted.last() == wanted[wanted.len() - 1]);
    }
}

/// A guest list the user did not change goes out exactly as the stored one
/// serializes, whatever order the form lists it in: when everybody stored is
/// still on the form with the `optional` they had, and nobody new is, the
/// edit's list equals the verbatim copy — so equality means "nothing
/// changed".
pub proof fn law_an_unchanged_list_serializes_as_stored(
    stored: Seq<AttendeeView>,
    wanted: Seq<GuestView>,
)
    requires
        forall|i: int|
            0 <= i < stored.len() ==> (#[trigger] first_match(wanted, stored[i].email) matches Some(
                j,
            ) && 0 <= j < wanted.len() && wanted[j].optional == stored[i].optional),
        forall|j: int| 0 <= j < wanted.len() ==> on_event(stored, #[trigger] wanted[j].email),
    ensures
        for_edit(stored, wanted) == verbatim(stored),
{
    lemma_kept_all(stored, wanted);
    lemma_added_none(stored, wanted);
    assert(for_edit(stored, wanted) =~= verbatim(stored));
}

/// The first guest on the form naming `email`'s person is found whenever
/// one is on the form, and names that person.
proof fn lemma_first_match_found(wanted: Seq<GuestView>, email: Seq<char>)
    ensures
        (exists|j: int| 0 <= j < wanted.len() && same_person((#[trigger] wanted[j]).email, email))
            ==> first_match(wanted, email) is Some,
        first_match(wanted, email) matches Some(k) ==> 0 <= k < wanted.len() && same_person(
            wanted[k].email,
            email,
        ),
    decreases wanted.len(),
{
    if wanted.len() > 0 {
        let t = wanted.drop_first();
        lemma_first_match_found(t, email);
        if !same_person(wanted[0].email, email) {
            if exists|j: int| 0 <= j < wanted.len() && same_person((#[trigger] wanted[j]).email, email) {
                let j = choose|j: int| 0 <= j < wanted.len() && same_person((#[trigger] wanted[j]).email, email);
                assert(j > 0);
                assert(t[j - 1] == wanted[j]);
            }
            match first_match(t, email) {
                Some(k) => {
                    assert(t[k] == wanted[k + 1]);
                },
                None => {},
            }
        }
    }
}

/// A guest list the user did not change reads as no change, however the
/// form reorders or re-spells it: when every stored attendee's person is on
/// the form, everybody on the form is a stored attendee's person, and each
/// keeps that attendee's `optional`, the edit's list is the verbatim copy —
/// and the stored spelling is the one sent.
/// Whether every stored attendee's person is on the form.
#[verifier::opaque]
pub open spec fn every_stored_on_form(stored: Seq<AttendeeView>, wanted: Seq<GuestView>) -> bool {
    forall|i: int|
            0 <= i < stored.len() ==> exists|j: int|
                0 <= j < wanted.len() && same_person(
                    (#[trigger] wanted[j]).email,
                    (#[trigger] stored[i]).email,
                )
}

/// Whether everybody on the form is a stored attendee's person.
#[verifier::opaque]
pub open spec fn everyone_on_form_stored(stored: Seq<AttendeeView>, wanted: Seq<GuestView>) -> bool {
    forall|j: int|
            0 <= j < wanted.len() ==> exists|i: int|
                0 <= i < stored.len() && same_person(
                    (#[trigger] wanted[j]).email,
                    (#[trigger] stored[i]).email,
                )
}

/// Whether the form gives each stored attendee's person that attendee's
/// `optional`.
pub open spec fn optional_kept(stored: Seq<AttendeeView>, wanted: Seq<GuestView>) -> bool {
    forall|i: int, j: int|
            0 <= i < stored.len() && 0 <= j < wanted.len() && same_person(
                (#[trigger] wanted[j]).email,
                (#[trigger] stored[i]).email,
            ) ==> wanted[j].optional == stored[i].optional
}

/// Each stored attendee's person is found on a form that lists them all,
/// with the `optional` that person has there.
proof fn lemma_each_stored_found(stored: Seq<AttendeeView>, wanted: Seq<GuestView>)
    requires
        every_stored_on_form(stored, wanted),
        optional_kept(stored, wanted),
    ensures
        forall|i: int|
            0 <= i < stored.len() ==> (#[trigger] first_match(wanted, stored[i].email) matches Some(
                j,
            ) && 0 <= j < wanted.len() && wanted[j].optional == stored[i].optional),
{
    assert forall|i: int| 0 <= i < stored.len() implies (#[trigger] first_match(
        wanted,
        stored[i].email,
    ) matches Some(j) && 0 <= j < wanted.len() && wanted[j].optional == stored[i].optional) by {
        reveal(every_stored_on_form);
        assert(stored[i] == stored[i]);
        lemma_first_match_found(wanted, stored[i].email);
        let j = first_match(wanted, stored[i].email)->0;
        assert(same_person(wanted[j].email, stored[i].email));
    }
}

/// Everybody on a form that lists only stored attendees' persons is on the
/// event.
proof fn lemma_each_wanted_stored(stored: Seq<AttendeeView>, wanted: Seq<GuestView>)
    requires
        everyone_on_form_stored(stored, wanted),
    ensures
        forall|j: int| 0 <= j < wanted.len() ==> on_event(stored, #[trigger] wanted[j].email),
{
    assert forall|j: int| 0 <= j < wanted.len() implies on_event(stored, #[trigger] wanted[j].email) by {
        reveal(everyone_on_form_stored);
        assert(wanted[j] == wanted[j]);
        let i = choose|i: int|
            0 <= i < stored.len() && same_person((#[trigger] wanted[j]).email, (#[trigger] stored[i]).email);
        assert(same_person(wanted[j].email, stored[i].email));
    }
}

/// A guest list the user did not change reads as no change, however the
/// form reorders or re-spells it: when every stored attendee's person is on
/// the form, everybody on the form is a stored attendee's person, and each
/// keeps that attendee's `optional`, the edit's list is the verbatim copy —
/// and the stored spelling is the one sent.
pub proof fn law_a_reordered_unchanged_list_reads_as_no_change(
    stored: Seq<AttendeeView>,
    wanted: Seq<GuestView>,
)
    requires
        every_stored_on_form(stored, wanted),
        everyone_on_form_stored(stored, wanted),
        optional_kept(stored, wanted),
    ensures
        for_edit(stored, wanted) == verbatim(stored),
{
    lemma_each_stored_found(stored, wanted);
    lemma_each_wanted_stored(stored, wanted);
    law_an_unchanged_list_serializes_as_stored(stored, wanted);
}

proof fn lemma_added_shape(stored: Seq<AttendeeView>, wanted: Seq<GuestView>)
    ensures
        forall|k: int|
            0 <= k < added(stored, wanted).len() ==> !on_event(
                stored,
                (#[trigger] added(stored, wanted)[k]).email,
            ),
        forall|k: int, l: int|
            0 <= k < l < added(stored, wanted).len() ==> !same_person(
                (#[trigger] added(stored, wanted)[k]).email,
                (#[trigger] added(stored, wanted)[l]).email,
            ),
        forall|k: int|
            0 <= k < added(stored, wanted).len() ==> exists|j: int|
                0 <= j < wanted.len() && (#[trigger] added(stored, wanted)[k]).email == trim(
                    (#[trigger] wanted[j]).email,
                ),
    decreases wanted.len(),
{
    if wanted.len() > 0 {
        let t = wanted.drop_last();
        lemma_added_shape(stored, t);
        let prior = added(stored, t);
        let g = wanted.last();
        let cur = added(stored, wanted);
        assert forall|k: int| 0 <= k < cur.len() implies exists|j: int|
            0 <= j < wanted.len() && (#[trigger] cur[k]).email == trim(
                (#[trigger] wanted[j]).email,
            ) by {
            if k < prior.len() {
                let j = choose|j: int|
                    0 <= j < t.len() && (#[trigger] prior[k]).email == trim((#[trigger] t[j]).email);
                assert(wanted[j] == t[j]);
            } else {
                assert(wanted[wanted.len() - 1] == g);
            }
        }
        if !(on_event(stored, g.email) || listed(prior, g.email)) {
            let n = invited(g);
            assert(cur == prior.push(n));
            assert forall|k: int| 0 <= k < cur.len() implies !on_event(
                stored,
                (#[trigger] cur[k]).email,
            ) by {
                if k == prior.len() {
                    if on_event(stored, n.email) {
                        let i = choose|i: int|
                            0 <= i < stored.len() && same_person(
                                n.email,
                                (#[trigger] stored[i]).email,
                            );
                        lemma_trimmed_same_person(g.email, stored[i].email);
                        assert(on_event(stored, g.email));
                    }
                } else {
                    assert(cur[k] == prior[k]);
                }
            }
            assert forall|k: int, l: int| 0 <= k < l < cur.len() implies !same_person(
                (#[trigger] cur[k]).email,
                (#[trigger] cur[l]).email,
            ) by {
                if l == prior.len() {
                    assert(cur[k] == prior[k]);
                    lemma_same_person_equivalence(trim(g.email), prior[k].email, prior[k].email);
                    lemma_trimmed_same_person(g.email, prior[k].email);
                    lemma_same_person_equivalence(prior[k].email, g.email, g.email);
                    if same_person(prior[k].email, n.email) {
                        assert(same_person(n.email, prior[k].email));
                        assert(same_person(g.email, prior[k].email));
                        assert(same_person(prior[k].email, g.email));
                        assert(listed(prior, g.email));
                    }
                } else {
                    assert(cur[k] == prior[k]);
                    assert(cur[l] == prior[l]);
                }
            }
        }
    }
}

/// Nobody is invited twice: the newly added part of an edit's list names
/// nobody already on the event, and no two of its entries name the same
/// person, however the form spelled or repeated an address.
pub proof fn law_no_address_is_added_twice(stored: Seq<AttendeeView>, wanted: Seq<GuestView>)
    ensures
        forall|k: int|
            kept(stored, wanted).len() <= k < for_edit(stored, wanted).len() ==> !on_event(
                stored,
                (#[trigger] for_edit(stored, wanted)[k]).email,
            ),
        forall|k: int, l: int|
            kept(stored, wanted).len() <= k < l < for_edit(stored, wanted).len() ==> !same_person(
                (#[trigger] for_edit(stored, wanted)[k]).email,
                (#[trigger] for_edit(stored, wanted)[l]).email,
            ),
{
    lemma_added_shape(stored, wanted);
    let kp = kept(stored, wanted);
    let ad = added(stored, wanted);
    let all = for_edit(stored, wanted);
    assert forall|k: int| kp.len() <= k < all.len() implies !on_event(
        stored,
        (#[trigger] all[k]).email,
    ) by {
        assert(all[k] == ad[k - kp.len()]);
    }
    assert forall|k: int, l: int| kp.len() <= k < l < all.len() implies !same_person(
        (#[trigger] all[k]).email,
        (#[trigger] all[l]).email,
    ) by {
        assert(all[k] == ad[k - kp.len()]);
        assert(all[l] == ad[l - kp.len()]);
    }
}

} // verus!
