//! The credentials held for each signed-in account while the app runs: the
//! token pair per account, the accounts whose refresh token Google has
//! pronounced dead, and the decisions a token request is made of.

use vstd::prelude::*;
use crate::text::{lex_lt, lemma_lex_lt_total, lemma_lex_lt_transitive, str_eq, str_lt};

verus! {

/// Live credentials for one account, held for the process lifetime.
///
/// It has no `Debug`: a derived one would print both secrets, and a leaked
/// refresh token never expires.
pub struct CachedTokens {
    refresh_token: String,
    access_token: String,
    /// When the access token stops being usable, its safety margin included.
    expires_at_ms: i64,
}

/// What a [`CachedTokens`] holds.
pub struct TokensView {
    pub refresh_token: Seq<char>,
    pub access_token: Seq<char>,
    pub expires_at_ms: int,
}

impl View for CachedTokens {
    type V = TokensView;

    closed spec fn view(&self) -> TokensView {
        TokensView {
            refresh_token: self.refresh_token@,
            access_token: self.access_token@,
            expires_at_ms: self.expires_at_ms as int,
        }
    }
}

impl CachedTokens {
    /// A token pair, and the instant the access token stops being usable.
    pub fn new(refresh_token: String, access_token: String, expires_at_ms: i64) -> (t: Self)
        ensures
            t@ == (TokensView {
                refresh_token: refresh_token@,
                access_token: access_token@,
                expires_at_ms: expires_at_ms as int,
            }),
    {
        CachedTokens { refresh_token, access_token, expires_at_ms }
    }

    /// The access token.
    pub fn access_token(&self) -> (r: &str)
        ensures
            r@ == self@.access_token,
    {
        self.access_token.as_str()
    }

    /// The refresh token.
    pub fn refresh_token(&self) -> (r: &str)
        ensures
            r@ == self@.refresh_token,
    {
        self.refresh_token.as_str()
    }

    /// When the access token stops being usable.
    pub fn expires_at_ms(&self) -> (r: i64)
        ensures
            r == self@.expires_at_ms,
    {
        self.expires_at_ms
    }
}

/// Whether a cached entry can be used as it is: there is one, and its access
/// token outlives `now_ms` — strictly, since a token expiring this very
/// millisecond is not worth a request that will fail.
pub fn cached_is_usable(entry: Option<&CachedTokens>, now_ms: i64) -> (r: bool)
    ensures
        r == (entry matches Some(t) && t@.expires_at_ms > now_ms),
{
    match entry {
        Some(t) => t.expires_at_ms() > now_ms,
        None => false,
    }
}

/// What is filed in the cache reads back as filed, and filing one
/// account's pair leaves every other account's entry as it was.
pub proof fn law_a_cached_pair_reads_back(
    cache: Map<Seq<char>, TokensView>,
    email: Seq<char>,
    tokens: TokensView,
)
    ensures
        cache.insert(email, tokens).contains_key(email),
        cache.insert(email, tokens)[email] == tokens,
        forall|other: Seq<char>|
            other != email ==> (#[trigger] cache.insert(email, tokens).contains_key(other)
                == cache.contains_key(other) && (cache.contains_key(other) ==> cache.insert(
                email,
                tokens,
            )[other] == cache[other])),
{
}

/// Forgetting an account's credentials leaves it with nothing usable, and
/// leaves every other account's entry and mark exactly as they were.
pub proof fn law_forgetting_touches_only_that_account(
    cache: Map<Seq<char>, TokensView>,
    marks: Set<Seq<char>>,
    email: Seq<char>,
)
    ensures
        !cache.remove(email).contains_key(email),
        !marks.remove(email).contains(email),
        forall|other: Seq<char>|
            other != email ==> (#[trigger] cache.remove(email).contains_key(other)
                == cache.contains_key(other) && (cache.contains_key(other) ==> cache.remove(
                email,
            )[other] == cache[other]) && marks.remove(email).contains(other) == marks.contains(
                other,
            )),
{
}

/// Marking an account that is already marked changes nothing.
pub proof fn law_marking_twice_is_marking_once(marks: Set<Seq<char>>, email: Seq<char>)
    ensures
        marks.insert(email).insert(email) == marks.insert(email),
{
    assert(marks.insert(email).insert(email) =~= marks.insert(email));
}

/// Whether no two entries are filed under the same address.
pub open spec fn keys_unique(e: Seq<(String, CachedTokens)>) -> bool {
    forall|i: int, j: int| 0 <= i < j < e.len() ==> (#[trigger] e[i]).0@ != (#[trigger] e[j]).0@
}

/// Whether some entry is filed under `k`.
pub open spec fn has_key(e: Seq<(String, CachedTokens)>, k: Seq<char>) -> bool {
    exists|i: int| 0 <= i < e.len() && (#[trigger] e[i]).0@ == k
}

/// Where the entry filed under `k` is.
pub open spec fn index_of_key(e: Seq<(String, CachedTokens)>, k: Seq<char>) -> int {
    choose|i: int| 0 <= i < e.len() && (#[trigger] e[i]).0@ == k
}

/// The entries as a map from address to tokens.
pub open spec fn entries_map(e: Seq<(String, CachedTokens)>) -> Map<Seq<char>, TokensView> {
    Map::new(|k: Seq<char>| has_key(e, k), |k: Seq<char>| e[index_of_key(e, k)].1@)
}

/// With addresses unique, the entry at `i` is what the map files under its
/// address.
pub proof fn lemma_entry_in_map(e: Seq<(String, CachedTokens)>, i: int)
    requires
        keys_unique(e),
        0 <= i < e.len(),
    ensures
        entries_map(e).contains_key(e[i].0@),
        entries_map(e)[e[i].0@] == e[i].1@,
{
    assert(has_key(e, e[i].0@));
    let j = index_of_key(e, e[i].0@);
    if j != i {
        if j < i {
            assert(e[j].0@ != e[i].0@);
        } else {
            assert(e[i].0@ != e[j].0@);
        }
    }
}

/// The token pairs of the signed-in accounts, keyed by account address.
pub struct TokenCache {
    entries: Vec<(String, CachedTokens)>,
}

impl View for TokenCache {
    type V = Map<Seq<char>, TokensView>;

    closed spec fn view(&self) -> Map<Seq<char>, TokensView> {
        entries_map(self.entries@)
    }
}

impl TokenCache {
    #[verifier::type_invariant]
    spec fn unique(&self) -> bool {
        keys_unique(self.entries@)
    }

    /// An empty cache.
    pub fn new() -> (c: Self)
        ensures
            c@ == Map::<Seq<char>, TokensView>::empty(),
    {
        let c = TokenCache { entries: Vec::new() };
        assert(c@ =~= Map::<Seq<char>, TokensView>::empty());
        c
    }

    /// Where the entry for `email` is, if there is one.
    fn position(&self, email: &str) -> (r: Option<usize>)
        ensures
            match r {
                Some(i) => i < self.entries@.len() && self.entries@[i as int].0@ == email@,
                None => !has_key(self.entries@, email@),
            },
    {
        let mut i: usize = 0;
        while i < self.entries.len()
            invariant
                i <= self.entries@.len(),
                forall|k: int| 0 <= k < i ==> (#[trigger] self.entries@[k]).0@ != email@,
            decreases self.entries@.len() - i,
        {
            if str_eq(self.entries[i].0.as_str(), email) {
                return Some(i);
            }
            i = i + 1;
        }
        None
    }

    /// The tokens held for `email`.
    pub fn get(&self, email: &str) -> (r: Option<&CachedTokens>)
        ensures
            match r {
                Some(t) => self@.contains_key(email@) && t@ == self@[email@],
                None => !self@.contains_key(email@),
            },
    {
        proof {
            use_type_invariant(self);
        }
        match self.position(email) {
            Some(i) => {
                proof {
                    lemma_entry_in_map(self.entries@, i as int);
                }
                Some(&self.entries[i].1)
            },
            None => None,
        }
    }

    /// Files `tokens` under `email`, replacing what was there.
    pub fn insert(&mut self, email: String, tokens: CachedTokens)
        ensures
            final(self)@ == old(self)@.insert(email@, tokens@),
    {
        proof {
            use_type_invariant(&*self);
        }
        let ghost before = self.entries@;
        let ghost k = email@;
        let ghost v = tokens@;
        match self.position(email.as_str()) {
            Some(i) => {
                let mut entries: Vec<(String, CachedTokens)> = Vec::new();
                std::mem::swap(&mut entries, &mut self.entries);
                assert(entries@ == before);
                entries.set(i, (email, tokens));
                let ghost after = entries@;
                assert(after == before.update(i as int, after[i as int]));
                assert(keys_unique(after)) by {
                    assert forall|a: int, b: int| 0 <= a < b < after.len() implies (
                    #[trigger] after[a]).0@ != (#[trigger] after[b]).0@ by {
                        if a == i {
                            assert(before[b].0@ != before[a].0@);
                        } else if b == i {
                            assert(before[a].0@ != before[b].0@);
                        } else {
                            assert(before[a].0@ != before[b].0@);
                        }
                    }
                }
                proof {
                    lemma_entry_in_map(after, i as int);
                    assert forall|key: Seq<char>| key != k implies (has_key(after, key)
                        == has_key(before, key)) by {
                        if has_key(before, key) {
                            let w = choose|w: int| 0 <= w < before.len() && (#[trigger] before[w]).0@ == key;
                            assert(after[w] == before[w]);
                        }
                        if has_key(after, key) {
                            let w = choose|w: int| 0 <= w < after.len() && (#[trigger] after[w]).0@ == key;
                            assert(after[w] == before[w]);
                        }
                    }
                    assert forall|key: Seq<char>| key != k && #[trigger] has_key(before, key) implies
                        entries_map(after)[key] == entries_map(before)[key] by {
                        let w = choose|w: int| 0 <= w < before.len() && (#[trigger] before[w]).0@ == key;
                        assert(after[w] == before[w]);
                        lemma_entry_in_map(before, w);
                        lemma_entry_in_map(after, w);
                    }
                    assert(entries_map(after) =~= entries_map(before).insert(k, v));
                }
                self.entries = entries;
            },
            None => {
                let mut entries: Vec<(String, CachedTokens)> = Vec::new();
                std::mem::swap(&mut entries, &mut self.entries);
                assert(entries@ == before);
                entries.push((email, tokens));
                let ghost after = entries@;
                assert(keys_unique(after)) by {
                    assert forall|a: int, b: int| 0 <= a < b < after.len() implies (
                    #[trigger] after[a]).0@ != (#[trigger] after[b]).0@ by {
                        if b == before.len() {
                            assert(before[a] == after[a]);
                            if before[a].0@ == k {
                                assert(has_key(before, k));
                            }
                        } else {
                            assert(before[a].0@ != before[b].0@);
                        }
                    }
                }
                proof {
                    lemma_entry_in_map(after, before.len() as int);
                    assert forall|key: Seq<char>| key != k implies (has_key(after, key)
                        == has_key(before, key)) by {
                        if has_key(before, key) {
                            let w = choose|w: int| 0 <= w < before.len() && (#[trigger] before[w]).0@ == key;
                            assert(after[w] == before[w]);
                        }
                        if has_key(after, key) {
                            let w = choose|w: int| 0 <= w < after.len() && (#[trigger] after[w]).0@ == key;
                            assert(w < before.len());
                            assert(after[w] == before[w]);
                        }
                    }
                    assert forall|key: Seq<char>| key != k && #[trigger] has_key(before, key) implies
                        entries_map(after)[key] == entries_map(before)[key] by {
                        let w = choose|w: int| 0 <= w < before.len() && (#[trigger] before[w]).0@ == key;
                        assert(after[w] == before[w]);
                        lemma_entry_in_map(before, w);
                        lemma_entry_in_map(after, w);
                    }
                    assert(entries_map(after) =~= entries_map(before).insert(k, v));
                }
                self.entries = entries;
            },
        }
    }

    /// Drops whatever is filed under `email`; every other account's entry
    /// stays as it was.
    pub fn remove(&mut self, email: &str)
        ensures
            final(self)@ == old(self)@.remove(email@),
    {
        proof {
            use_type_invariant(&*self);
        }
        let ghost before = self.entries@;
        match self.position(email) {
            Some(i) => {
                let mut entries: Vec<(String, CachedTokens)> = Vec::new();
                std::mem::swap(&mut entries, &mut self.entries);
                assert(entries@ == before);
                let _gone = entries.remove(i);
                let ghost after = entries@;
                assert(after == before.remove(i as int));
                assert(keys_unique(after)) by {
                    assert forall|a: int, b: int| 0 <= a < b < after.len() implies (
                    #[trigger] after[a]).0@ != (#[trigger] after[b]).0@ by {
                        let oa = if a < i { a } else { a + 1 };
                        let ob = if b < i { b } else { b + 1 };
                        assert(after[a] == before[oa]);
                        assert(after[b] == before[ob]);
                        assert(before[oa].0@ != before[ob].0@);
                    }
                }
                proof {
                    let k = email@;
                    assert forall|key: Seq<char>| key != k implies (has_key(after, key)
                        == has_key(before, key)) by {
                        if has_key(before, key) {
                            let w = choose|w: int| 0 <= w < before.len() && (#[trigger] before[w]).0@ == key;
                            assert(w != i);
                            let nw = if w < i { w } else { w - 1 };
                            assert(after[nw] == before[w]);
                        }
                        if has_key(after, key) {
                            let w = choose|w: int| 0 <= w < after.len() && (#[trigger] after[w]).0@ == key;
                            let ow = if w < i { w } else { w + 1 };
                            assert(after[w] == before[ow]);
                        }
                    }
                    assert(!has_key(after, k)) by {
                        if has_key(after, k) {
                            let w = choose|w: int| 0 <= w < after.len() && (#[trigger] after[w]).0@ == k;
                            let ow = if w < i { w } else { w + 1 };
                            assert(after[w] == before[ow]);
                            if ow < i {
                                assert(before[ow].0@ != before[i as int].0@);
                            } else {
                                assert(before[i as int].0@ != before[ow].0@);
                            }
                        }
                    }
                    assert forall|key: Seq<char>| key != k && #[trigger] has_key(before, key) implies
                        entries_map(after)[key] == entries_map(before)[key] by {
                        let w = choose|w: int| 0 <= w < before.len() && (#[trigger] before[w]).0@ == key;
                        assert(w != i);
                        let nw = if w < i { w } else { w - 1 };
                        assert(after[nw] == before[w]);
                        lemma_entry_in_map(before, w);
                        lemma_entry_in_map(after, nw);
                    }
                    assert(entries_map(after) =~= entries_map(before).remove(k));
                }
                self.entries = entries;
            },
            None => {
                assert(entries_map(before) =~= entries_map(before).remove(email@));
            },
        }
    }
}

/// Whether each text sorts strictly before every one after it.
pub open spec fn strictly_sorted(e: Seq<String>) -> bool {
    forall|i: int, j: int| 0 <= i < j < e.len() ==> lex_lt((#[trigger] e[i])@, (#[trigger] e[j])@)
}

/// The texts a list holds.
pub open spec fn text_set(e: Seq<String>) -> Set<Seq<char>> {
    Set::new(|k: Seq<char>| exists|i: int| 0 <= i < e.len() && (#[trigger] e[i])@ == k)
}

/// The accounts whose refresh token the token endpoint has pronounced dead
/// — `invalid_grant` and its siblings, answers that never change on retry.
/// Sync skips them, and the status payload lists them, in address order, so
/// the UI can offer the one thing that helps: signing in again.
pub struct ReauthMarks {
    emails: Vec<String>,
}

impl View for ReauthMarks {
    type V = Set<Seq<char>>;

    closed spec fn view(&self) -> Set<Seq<char>> {
        text_set(self.emails@)
    }
}

impl ReauthMarks {
    #[verifier::type_invariant]
    spec fn sorted(&self) -> bool {
        strictly_sorted(self.emails@)
    }

    /// No account marked.
    pub fn new() -> (m: Self)
        ensures
            m@ == Set::<Seq<char>>::empty(),
    {
        let m = ReauthMarks { emails: Vec::new() };
        assert(m@ =~= Set::<Seq<char>>::empty());
        m
    }

    /// Whether `email` is marked.
    pub fn contains(&self, email: &str) -> (r: bool)
        ensures
            r == self@.contains(email@),
    {
        let mut i: usize = 0;
        while i < self.emails.len()
            invariant
                i <= self.emails@.len(),
                forall|k: int| 0 <= k < i ==> (#[trigger] self.emails@[k])@ != email@,
            decreases self.emails@.len() - i,
        {
            if str_eq(self.emails[i].as_str(), email) {
                assert(text_set(self.emails@).contains(email@));
                return true;
            }
            i = i + 1;
        }
        false
    }

    /// Marks `email`; marking it twice is marking it once.
    pub fn insert(&mut self, email: String)
        ensures
            final(self)@ == old(self)@.insert(email@),
    {
        proof {
            use_type_invariant(&*self);
        }
        let ghost before = self.emails@;
        let ghost x = email@;
        let mut i: usize = 0;
        while i < self.emails.len() && str_lt(self.emails[i].as_str(), email.as_str())
            invariant
                self.emails@ == before,
                strictly_sorted(before),
                i <= before.len(),
                x == email@,
                forall|k: int| 0 <= k < i ==> lex_lt((#[trigger] before[k])@, x),
            decreases before.len() - i,
        {
            i = i + 1;
        }
        if i < self.emails.len() && str_eq(self.emails[i].as_str(), email.as_str()) {
            assert(text_set(before) =~= text_set(before).insert(x));
            return;
        }
        proof {
            if i < before.len() {
                lemma_lex_lt_total(before[i as int]@, x);
            }
        }
        let mut emails: Vec<String> = Vec::new();
        std::mem::swap(&mut emails, &mut self.emails);
        emails.insert(i, email);
        let ghost after = emails@;
        assert(after == before.insert(i as int, after[i as int]));
        assert(after[i as int]@ == x);
        assert(strictly_sorted(after)) by {
            assert forall|a: int, b: int| 0 <= a < b < after.len() implies lex_lt(
                (#[trigger] after[a])@,
                (#[trigger] after[b])@,
            ) by {
                if b < i {
                    assert(after[a] == before[a] && after[b] == before[b]);
                } else if b == i {
                    assert(after[a] == before[a]);
                } else if a < i {
                    assert(after[a] == before[a] && after[b] == before[b - 1]);
                    assert(lex_lt(before[a]@, before[b - 1]@));
                } else if a == i {
                    assert(after[b] == before[b - 1]);
                    if b - 1 > i {
                        assert(lex_lt(before[i as int]@, before[b - 1]@));
                        lemma_lex_lt_transitive(x, before[i as int]@, before[b - 1]@);
                    }
                } else {
                    assert(after[a] == before[a - 1] && after[b] == before[b - 1]);
                    assert(lex_lt(before[a - 1]@, before[b - 1]@));
                }
            }
        }
        assert(text_set(after) =~= text_set(before).insert(x)) by {
            assert forall|k: Seq<char>| #[trigger] text_set(before).contains(k) implies text_set(
                after,
            ).contains(k) by {
                let w = choose|w: int| 0 <= w < before.len() && (#[trigger] before[w])@ == k;
                if w < i {
                    assert(after[w] == before[w]);
                } else {
                    assert(after[w + 1] == before[w]);
                }
            }
            assert forall|k: Seq<char>| #[trigger] text_set(after).contains(k) implies text_set(
                before,
            ).insert(x).contains(k) by {
                let w = choose|w: int| 0 <= w < after.len() && (#[trigger] after[w])@ == k;
                if w < i {
                    assert(after[w] == before[w]);
                } else if w > i {
                    assert(after[w] == before[w - 1]);
                }
            }
        }
        self.emails = emails;
    }

    /// Clears the mark on `email`; every other mark stays.
    pub fn remove(&mut self, email: &str)
        ensures
            final(self)@ == old(self)@.remove(email@),
    {
        proof {
            use_type_invariant(&*self);
        }
        let ghost before = self.emails@;
        let ghost x = email@;
        let mut i: usize = 0;
        while i < self.emails.len()
            invariant
                self.emails@ == before,
                old(self)@ == text_set(before),
                strictly_sorted(before),
                x == email@,
                i <= before.len(),
                forall|k: int| 0 <= k < i ==> (#[trigger] before[k])@ != x,
            decreases before.len() - i,
        {
            if str_eq(self.emails[i].as_str(), email) {
                let mut emails: Vec<String> = Vec::new();
                std::mem::swap(&mut emails, &mut self.emails);
                let _gone = emails.remove(i);
                let ghost after = emails@;
                assert(after == before.remove(i as int));
                assert(strictly_sorted(after)) by {
                    assert forall|a: int, b: int| 0 <= a < b < after.len() implies lex_lt(
                        (#[trigger] after[a])@,
                        (#[trigger] after[b])@,
                    ) by {
                        let oa = if a < i { a } else { a + 1 };
                        let ob = if b < i { b } else { b + 1 };
                        assert(after[a] == before[oa] && after[b] == before[ob]);
                        assert(lex_lt(before[oa]@, before[ob]@));
                    }
                }
                assert(text_set(after) =~= text_set(before).remove(x)) by {
                    assert forall|k: Seq<char>| #[trigger] text_set(after).contains(k) implies k
                        != x by {
                        let w = choose|w: int| 0 <= w < after.len() && (#[trigger] after[w])@ == k;
                        let ow = if w < i { w } else { w + 1 };
                        assert(after[w] == before[ow]);
                        crate::text::lemma_lex_lt_irreflexive(x);
                        if ow < i {
                            assert(lex_lt(before[ow]@, before[i as int]@));
                        } else {
                            assert(lex_lt(before[i as int]@, before[ow]@));
                        }
                    }
                    assert forall|k: Seq<char>| #[trigger] text_set(after).contains(k) implies text_set(
                        before,
                    ).contains(k) by {
                        let w = choose|w: int| 0 <= w < after.len() && (#[trigger] after[w])@ == k;
                        let ow = if w < i { w } else { w + 1 };
                        assert(after[w] == before[ow]);
                    }
                    assert forall|k: Seq<char>| #[trigger] text_set(before).contains(k) && k != x implies text_set(
                        after,
                    ).contains(k) by {
                        let w = choose|w: int| 0 <= w < before.len() && (#[trigger] before[w])@ == k;
                        assert(w != i);
                        if w < i {
                            assert(after[w] == before[w]);
                        } else {
                            assert(after[w - 1] == before[w]);
                        }
                    }
                }
                self.emails = emails;
                return;
            }
            i = i + 1;
        }
        assert(text_set(before) =~= text_set(before).remove(x));
    }

    /// The marked addresses, in address order.
    pub fn emails(&self) -> (r: Vec<String>)
        ensures
            strictly_sorted(r@),
            text_set(r@) == self@,
    {
        proof {
            use_type_invariant(self);
        }
        self.emails.clone()
    }
}

/// What a successful sign-in resets for its account: the cached token pair,
/// which would otherwise go on presenting the dead pair that forced the
/// sign-in, and the account's reauth mark, so it rejoins the sync rotation.
/// Every other account's entry and mark stays as it was.
pub fn forget_stale_credentials(tokens: &mut TokenCache, reauth: &mut ReauthMarks, email: &str)
    ensures
        final(tokens)@ == old(tokens)@.remove(email@),
        final(reauth)@ == old(reauth)@.remove(email@),
{
    tokens.remove(email);
    reauth.remove(email);
}

/// The access token a request for `email` can use without asking anyone:
/// the cached one, while it is still usable at `now_ms`. `None` sends the
/// caller to the token endpoint.
pub fn cached_access_token(cache: &TokenCache, email: &str, now_ms: i64) -> (r: Option<String>)
    ensures
        match r {
            Some(a) => cache@.contains_key(email@) && cache@[email@].expires_at_ms > now_ms
                && a@ == cache@[email@].access_token,
            None => !(cache@.contains_key(email@) && cache@[email@].expires_at_ms > now_ms),
        },
{
    let entry = cache.get(email);
    if cached_is_usable(entry, now_ms) {
        match entry {
            Some(t) => Some(t.access_token().to_owned()),
            None => None,
        }
    } else {
        None
    }
}

/// The refresh token already held for `email`. Only when there is none does
/// a refresh read the keyring — the read that raises the system's access
/// prompt.
pub fn held_refresh_token(cache: &TokenCache, email: &str) -> (r: Option<String>)
    ensures
        match r {
            Some(rt) => cache@.contains_key(email@) && rt@ == cache@[email@].refresh_token,
            None => !cache@.contains_key(email@),
        },
{
    match cache.get(email) {
        Some(t) => Some(t.refresh_token().to_owned()),
        None => None,
    }
}

/// The entry a refresh leaves in the cache. Google omits the refresh token
/// from a refresh's answer, so the one that was used is kept unless a new
/// one came back.
pub fn refreshed_tokens(
    fresh_refresh_token: Option<String>,
    used_refresh_token: String,
    access_token: String,
    expires_at_ms: i64,
) -> (t: CachedTokens)
    ensures
        t@.refresh_token == match fresh_refresh_token {
            Some(f) => f@,
            None => used_refresh_token@,
        },
        t@.access_token == access_token@,
        t@.expires_at_ms == expires_at_ms,
{
    let refresh_token = match fresh_refresh_token {
        Some(f) => f,
        None => used_refresh_token,
    };
    CachedTokens::new(refresh_token, access_token, expires_at_ms)
}

/// What the user reads when no browser could be started for sign-in.
pub const BROWSER_FAILED: &'static str = "Could not open a browser. Open your browser once and try again.";

/// The refusal of a sign-in whose redirect carried another state.
pub const STATE_MISMATCH: &'static str = "state mismatch — possible CSRF, sign-in aborted";

/// A sign-in goes on only when the redirect brings back the state it was
/// sent with; anything else may be somebody else's request.
pub fn check_sign_in_state(returned: &str, sent: &str) -> (r: Result<(), String>)
    ensures
        returned@ == sent@ ==> r is Ok,
        returned@ != sent@ ==> (r matches Err(m) && m@ == STATE_MISMATCH@),
{
    if str_eq(returned, sent) {
        Ok(())
    } else {
        Err(crate::text::owned(STATE_MISMATCH))
    }
}

/// A calendar as sign-in lists it: its id, and whether it is the primary.
#[derive(Debug)]
pub struct ListedCalendar {
    pub id: String,
    pub primary: bool,
}

/// The refusal of an account with no primary calendar.
pub const NO_PRIMARY: &'static str = "account has no primary calendar";

/// The first primary calendar of `cals`, if any.
pub open spec fn first_primary(cals: Seq<ListedCalendar>) -> Option<int>
    decreases cals.len(),
{
    if cals.len() == 0 {
        None
    } else if cals[0].primary {
        Some(0)
    } else {
        match first_primary(cals.drop_first()) {
            Some(i) => Some(i + 1),
            None => None,
        }
    }
}

/// The signed-in account's address: the primary calendar's id is the
/// account's email, so no identity scope is needed to learn it.
pub fn account_email(cals: &[ListedCalendar]) -> (r: Result<String, String>)
    ensures
        match first_primary(cals@) {
            Some(i) => r matches Ok(e) && 0 <= i < cals@.len() && cals@[i].primary && e@
                == cals@[i].id@,
            None => r matches Err(m) && m@ == NO_PRIMARY@,
        },
{
    let mut i: usize = 0;
    assert(cals@.skip(0) =~= cals@);
    while i < cals.len()
        invariant
            i <= cals@.len(),
            first_primary(cals@) == match first_primary(cals@.skip(i as int)) {
                Some(j) => Some(j + i),
                None => None::<int>,
            },
        decreases cals@.len() - i,
    {
        let ghost rest = cals@.skip(i as int);
        assert(rest[0] == cals@[i as int]);
        assert(rest.drop_first() =~= cals@.skip(i + 1));
        if cals[i].primary {
            return Ok(crate::text::owned(cals[i].id.as_str()));
        }
        i = i + 1;
    }
    Err(crate::text::owned(NO_PRIMARY))
}

/// The refusal of a sign-in Google answered without a refresh token.
pub const NO_REFRESH_TOKEN: &'static str = "Google returned no refresh token — revoke the app's access and retry";

/// The refresh token a sign-in keeps, or its refusal: without one the app
/// could not sync past the first hour.
pub fn require_refresh_token(refresh_token: Option<String>) -> (r: Result<String, String>)
    ensures
        match refresh_token {
            Some(t) => r == Ok::<String, String>(t),
            None => r matches Err(m) && m@ == NO_REFRESH_TOKEN@,
        },
{
    match refresh_token {
        Some(t) => Ok(t),
        None => Err(crate::text::owned(NO_REFRESH_TOKEN)),
    }
}

} // verus!
