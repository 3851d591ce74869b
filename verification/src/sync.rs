//! What a sync is allowed to do and what it reports: the demo gate, the
//! window kept synced, which accounts are attempted, and how the outcome of
//! every account and calendar adds up to one answer.

use vstd::prelude::*;
use crate::credentials::{ReauthMarks, text_set};
use crate::text::{decimal, owned, push_decimal, push_str};

verus! {

/// What every Google-reaching command answers in demo mode, before any
/// config or keyring is touched. Worded for both buttons it guards: Sync
/// now, and Connect Google Calendar.
pub const DEMO_SYNC_MESSAGE: &'static str =
    "Demo mode — this is synthetic data, so there is nothing to connect or sync.";

/// `Err` with [`DEMO_SYNC_MESSAGE`] in demo mode, `Ok` otherwise — a plain
/// function of the flag, so nothing that checks it first can reach config
/// or keyring I/O in demo mode.
pub fn demo_sync_guard(demo: bool) -> (r: Result<(), String>)
    ensures
        demo ==> (r matches Err(m) && m@ == DEMO_SYNC_MESSAGE@),
        !demo ==> r is Ok,
{
    if demo {
        Err(owned(DEMO_SYNC_MESSAGE))
    } else {
        Ok(())
    }
}

/// A day, in milliseconds.
pub const DAY_MS: i64 = 86400000;

/// The window the app keeps synced around `now_ms`: 180 days back and 365
/// forward. One definition, so the year views (is this date fetched?) and
/// the sync loop (what should be asked for?) cannot disagree about the edge.
pub fn synced_window(now_ms: i64) -> (w: (i64, i64))
    requires
        i64::MIN + 180 * DAY_MS <= now_ms <= i64::MAX - 365 * DAY_MS,
    ensures
        w.0 == now_ms - 180 * DAY_MS,
        w.1 == now_ms + 365 * DAY_MS,
{
    (now_ms - 180 * DAY_MS, now_ms + 365 * DAY_MS)
}

/// An account as a sync names it: its row id and its address.
pub open spec fn account_view(a: (i64, String)) -> (i64, Seq<char>) {
    (a.0, a.1@)
}

/// The accounts of `s` not in `marked`, in their order.
pub open spec fn unmarked(s: Seq<(i64, String)>, marked: Set<Seq<char>>) -> Seq<(i64, Seq<char>)>
    decreases s.len(),
{
    if s.len() == 0 {
        Seq::empty()
    } else if marked.contains(s.last().1@) {
        unmarked(s.drop_last(), marked)
    } else {
        unmarked(s.drop_last(), marked).push(account_view(s.last()))
    }
}

/// The views of a list of accounts.
pub open spec fn account_views(s: Seq<(i64, String)>) -> Seq<(i64, Seq<char>)> {
    s.map_values(|a: (i64, String)| account_view(a))
}

/// The accounts a sync should even attempt: everyone not marked as needing
/// re-consent, in the order given. A marked account's refresh is a request
/// whose answer is already known.
pub fn accounts_to_attempt(accounts: Vec<(i64, String)>, marked: &ReauthMarks) -> (r: Vec<
    (i64, String),
>)
    ensures
        account_views(r@) == unmarked(accounts@, marked@),
{
    let mut out: Vec<(i64, String)> = Vec::new();
    let mut i: usize = 0;
    while i < accounts.len()
        invariant
            i <= accounts@.len(),
            account_views(out@) == unmarked(accounts@.take(i as int), marked@),
        decreases accounts@.len() - i,
    {
        let ghost prefix = accounts@.take(i as int + 1);
        assert(prefix.drop_last() =~= accounts@.take(i as int));
        assert(prefix.last() == accounts@[i as int]);
        if !marked.contains(accounts[i].1.as_str()) {
            let ghost before = out@;
            out.push((accounts[i].0, accounts[i].1.clone()));
            assert(account_views(out@) =~= account_views(before).push(
                account_view(accounts@[i as int]),
            ));
        }
        i = i + 1;
    }
    assert(accounts@.take(accounts@.len() as int) =~= accounts@);
    out
}

/// With no account marked, a sync attempts every account, in order.
pub proof fn law_no_marks_attempts_everyone(accounts: Seq<(i64, String)>)
    ensures
        unmarked(accounts, Set::empty()) == account_views(accounts),
    decreases accounts.len(),
{
    if accounts.len() > 0 {
        law_no_marks_attempts_everyone(accounts.drop_last());
        assert(account_views(accounts) =~= account_views(accounts.drop_last()).push(
            account_view(accounts.last()),
        ));
    } else {
        assert(account_views(accounts) =~= Seq::empty());
    }
}

/// A marked account is never attempted, and every account attempted was
/// one of those given.
pub proof fn law_a_marked_account_is_never_attempted(
    accounts: Seq<(i64, String)>,
    marked: Set<Seq<char>>,
)
    ensures
        forall|i: int|
            0 <= i < unmarked(accounts, marked).len() ==> !marked.contains(
                (#[trigger] unmarked(accounts, marked)[i]).1,
            ) && account_views(accounts).contains(unmarked(accounts, marked)[i]),
    decreases accounts.len(),
{
    if accounts.len() > 0 {
        let rest = accounts.drop_last();
        law_a_marked_account_is_never_attempted(rest, marked);
        assert(account_views(accounts) =~= account_views(rest).push(account_view(accounts.last())));
        let u = unmarked(accounts, marked);
        assert forall|i: int| 0 <= i < u.len() implies !marked.contains((#[trigger] u[i]).1)
            && account_views(accounts).contains(u[i]) by {
            if i < unmarked(rest, marked).len() {
                assert(u[i] == unmarked(rest, marked)[i]);
                let j = choose|j: int| 0 <= j < account_views(rest).len() && account_views(rest)[j]
                    == u[i];
                assert(account_views(accounts)[j] == u[i]);
            } else {
                assert(u[i] == account_view(accounts.last()));
                assert(account_views(accounts)[accounts.len() - 1] == u[i]);
            }
        }
    }
}

/// An account stays in the rotation exactly while it is not marked: once a
/// sign-in clears its mark, the next sync attempts it again.
pub proof fn law_a_cleared_mark_rejoins_the_rotation(
    accounts: Seq<(i64, String)>,
    marked: Set<Seq<char>>,
    email: Seq<char>,
)
    ensures
        forall|i: int|
            0 <= i < accounts.len() && (#[trigger] accounts[i]).1@ == email ==> unmarked(
                accounts,
                marked.remove(email),
            ).contains(account_view(accounts[i])),
    decreases accounts.len(),
{
    if accounts.len() > 0 {
        let rest = accounts.drop_last();
        law_a_cleared_mark_rejoins_the_rotation(rest, marked, email);
        let u = unmarked(accounts, marked.remove(email));
        let ur = unmarked(rest, marked.remove(email));
        assert forall|i: int|
            0 <= i < accounts.len() && (#[trigger] accounts[i]).1@ == email implies u.contains(
            account_view(accounts[i]),
        ) by {
            if i < accounts.len() - 1 {
                assert(rest[i] == accounts[i]);
                assert(ur.contains(account_view(rest[i])));
                let j = choose|j: int| 0 <= j < ur.len() && ur[j] == account_view(rest[i]);
                if marked.remove(email).contains(accounts.last().1@) {
                    assert(u == ur);
                } else {
                    assert(u == ur.push(account_view(accounts.last())));
                    assert(u[j] == ur[j]);
                }
            } else {
                assert(!marked.remove(email).contains(accounts.last().1@));
                assert(u == ur.push(account_view(accounts.last())));
                assert(u[ur.len() as int] == account_view(accounts.last()));
            }
        }
    }
}

/// An account as the store lists it for a sync.
#[derive(Debug)]
pub struct AccountRow {
    pub id: i64,
    pub email: String,
    /// `google` or `caldav`.
    pub provider: String,
}

/// The accounts of `all` with provider `provider`, in order.
pub open spec fn of_provider(all: Seq<AccountRow>, provider: Seq<char>) -> Seq<(i64, Seq<char>)>
    decreases all.len(),
{
    if all.len() == 0 {
        Seq::empty()
    } else if all.last().provider@ == provider {
        of_provider(all.drop_last(), provider).push((all.last().id, all.last().email@))
    } else {
        of_provider(all.drop_last(), provider)
    }
}

/// The accounts of one provider, as a sync goes through them.
pub fn accounts_of(all: &[AccountRow], provider: &str) -> (r: Vec<(i64, String)>)
    ensures
        account_views(r@) == of_provider(all@, provider@),
{
    let mut out: Vec<(i64, String)> = Vec::new();
    let mut i: usize = 0;
    while i < all.len()
        invariant
            i <= all@.len(),
            account_views(out@) == of_provider(all@.take(i as int), provider@),
        decreases all@.len() - i,
    {
        let ghost prefix = all@.take(i as int + 1);
        assert(prefix.drop_last() =~= all@.take(i as int));
        assert(prefix.last() == all@[i as int]);
        if crate::text::str_eq(all[i].provider.as_str(), provider) {
            let ghost before = out@;
            out.push((all[i].id, all[i].email.clone()));
            assert(account_views(out@) =~= account_views(before).push(
                (all@[i as int].id, all@[i as int].email@),
            ));
        }
        i = i + 1;
    }
    assert(all@.take(all@.len() as int) =~= all@);
    out
}

/// A sync in which something failed: how many of its targets did.
#[derive(Debug, PartialEq, Eq)]
pub struct SyncFailed {
    pub failed: usize,
}

/// The text of a failure report for `n` targets.
pub open spec fn failure_text(n: nat) -> Seq<char> {
    decimal(n) + " of this sync's targets failed; see the log"@
}

impl SyncFailed {
    /// What the user reads: a count, never the labels — they are account
    /// addresses, and the detail is already in the log.
    pub fn message(&self) -> (s: String)
        ensures
            s@ == failure_text(self.failed as nat),
    {
        let mut s = String::new();
        push_decimal(&mut s, self.failed as u64);
        push_str(&mut s, " of this sync's targets failed; see the log");
        s
    }
}

/// What a sync reports: the rows it wrote when nothing failed, and a
/// failure otherwise — a partial success included, since the rows the
/// healthy accounts wrote do not make the failed one any less stale.
pub fn sync_result(total: u64, failed: &[String]) -> (r: Result<u64, SyncFailed>)
    ensures
        failed@.len() == 0 ==> r == Ok::<u64, SyncFailed>(total),
        failed@.len() > 0 ==> r == Err::<u64, SyncFailed>(SyncFailed { failed: failed@.len() as usize }),
{
    if failed.len() > 0 {
        Err(SyncFailed { failed: failed.len() })
    } else {
        Ok(total)
    }
}

/// The running account of one sync over many accounts and calendars: the
/// rows written, a label for each account or calendar that failed, and the
/// accounts whose refresh token is dead for good. No failure stops the
/// others; each is only recorded.
pub struct SyncTally {
    pub total: u64,
    pub failed: Vec<String>,
    pub dead: Vec<String>,
}

/// The texts of a list of labels.
pub open spec fn texts(s: Seq<String>) -> Seq<Seq<char>> {
    s.map_values(|t: String| t@)
}

impl SyncTally {
    /// Nothing written, nothing failed.
    pub fn new() -> (t: Self)
        ensures
            t.total == 0,
            t.failed@.len() == 0,
            t.dead@.len() == 0,
    {
        SyncTally { total: 0, failed: Vec::new(), dead: Vec::new() }
    }

    /// The token endpoint pronounced `email`'s refresh token dead. Its own
    /// list, not a failure: retrying cannot help, and the fix is a sign-in.
    pub fn needs_reauth(&mut self, email: &str)
        ensures
            final(self).total == old(self).total,
            texts(final(self).failed@) == texts(old(self).failed@),
            texts(final(self).dead@) == texts(old(self).dead@).push(email@),
    {
        let ghost before = self.dead@;
        self.dead.push(owned(email));
        assert(texts(self.dead@) =~= texts(before).push(email@));
    }

    /// `email` could not be synced at all: no usable token, or its
    /// calendars could not be listed.
    pub fn account_failed(&mut self, email: &str)
        ensures
            final(self).total == old(self).total,
            texts(final(self).failed@) == texts(old(self).failed@).push(email@),
            texts(final(self).dead@) == texts(old(self).dead@),
    {
        let ghost before = self.failed@;
        self.failed.push(owned(email));
        assert(texts(self.failed@) =~= texts(before).push(email@));
    }

    /// One of `email`'s calendars failed; its label names both.
    pub fn calendar_failed(&mut self, email: &str, calendar: &str)
        ensures
            final(self).total == old(self).total,
            texts(final(self).failed@) == texts(old(self).failed@).push(
                email@ + " / "@ + calendar@,
            ),
            texts(final(self).dead@) == texts(old(self).dead@),
    {
        let ghost before = self.failed@;
        let mut label = owned(email);
        push_str(&mut label, " / ");
        push_str(&mut label, calendar);
        self.failed.push(label);
        assert(texts(self.failed@) =~= texts(before).push(email@ + " / "@ + calendar@));
    }

    /// `rows` more rows written.
    pub fn wrote(&mut self, rows: u64)
        requires
            old(self).total + rows <= u64::MAX,
        ensures
            final(self).total == old(self).total + rows,
            texts(final(self).failed@) == texts(old(self).failed@),
            texts(final(self).dead@) == texts(old(self).dead@),
    {
        self.total = self.total + rows;
    }

    /// What the whole sync reports; see [`sync_result`].
    pub fn result(&self) -> (r: Result<u64, SyncFailed>)
        ensures
            self.failed@.len() == 0 ==> r == Ok::<u64, SyncFailed>(self.total),
            self.failed@.len() > 0 ==> r == Err::<u64, SyncFailed>(
                SyncFailed { failed: self.failed@.len() as usize },
            ),
    {
        sync_result(self.total, self.failed.as_slice())
    }
}

/// Marks every account in `dead`, so the next sync leaves them alone until
/// a sign-in clears them.
pub fn mark_dead(reauth: &mut ReauthMarks, dead: &[String])
    ensures
        final(reauth)@ == old(reauth)@.union(text_set(dead@)),
{
    let mut i: usize = 0;
    while i < dead.len()
        invariant
            i <= dead@.len(),
            reauth@ == old(reauth)@.union(text_set(dead@.take(i as int))),
        decreases dead@.len() - i,
    {
        reauth.insert(dead[i].clone());
        proof {
            let next = dead@.take(i as int + 1);
            assert(text_set(next) =~= text_set(dead@.take(i as int)).insert(dead@[i as int]@)) by {
                assert forall|k: Seq<char>| #[trigger] text_set(next).contains(k) implies text_set(
                    dead@.take(i as int),
                ).insert(dead@[i as int]@).contains(k) by {
                    let w = choose|w: int| 0 <= w < next.len() && (#[trigger] next[w])@ == k;
                    if w < i {
                        assert(dead@.take(i as int)[w] == next[w]);
                    }
                }
                assert forall|k: Seq<char>| #[trigger] text_set(dead@.take(i as int)).contains(k)
                    implies text_set(next).contains(k) by {
                    let w = choose|w: int|
                        0 <= w < dead@.take(i as int).len() && (#[trigger] dead@.take(
                            i as int,
                        )[w])@ == k;
                    assert(next[w] == dead@.take(i as int)[w]);
                }
                assert(next[i as int] == dead@[i as int]);
            }
            assert(reauth@ =~= old(reauth)@.union(text_set(next)));
        }
        i = i + 1;
    }
    assert(dead@.take(dead@.len() as int) =~= dead@);
}

/// What the system clock reading `ms` (milliseconds since the epoch, or
/// `None` for a clock set before it) becomes as a timestamp: the reading
/// cut to 64 bits, and 0 for a clock before the epoch.
pub open spec fn timestamp_of(ms: Option<u128>) -> i64 {
    match ms {
        Some(m) => m as i64,
        None => 0,
    }
}

/// [`timestamp_of`], executable.
pub fn clock_timestamp(ms: Option<u128>) -> (t: i64)
    ensures
        t == timestamp_of(ms),
{
    match ms {
        Some(m) => #[verifier::truncate] (m as i64),
        None => 0,
    }
}

#[verifier::external_type_specification]
#[verifier::external_body]
pub struct ExSystemTime(std::time::SystemTime);

/// `std::time::SystemTime::now`: the system clock's current reading.
/// Nothing is claimed of it: it is whatever the clock says.
#[verifier::external_body]
fn system_time_now() -> std::time::SystemTime {
    std::time::SystemTime::now()
}

/// `SystemTime::duration_since(UNIX_EPOCH)`, in whole milliseconds: `None`
/// when the reading lies before the epoch. Nothing more is claimed of it.
#[verifier::external_body]
fn millis_since_epoch(t: &std::time::SystemTime) -> Option<u128> {
    t.duration_since(std::time::UNIX_EPOCH).ok().map(|d| d.as_millis())
}

/// Now, in milliseconds since the epoch, as [`timestamp_of`] reads the
/// system clock.
pub fn now_ms() -> (t: i64)
    ensures
        exists|ms: Option<u128>| t == timestamp_of(ms),
{
    let reading = millis_since_epoch(&system_time_now());
    clock_timestamp(reading)
}

} // verus!
