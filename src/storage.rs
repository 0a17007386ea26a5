//! The in-memory result store: per-user histories kept newest-first, and a
//! global cache of vetted (non-generated) results keyed by preset and prompt.

use vstd::prelude::*;
use crate::models::{
    Saying, SayingSource, Millis, answers, key_of, opt_str, opt_as_str, same_text,
    same_opt_text, same_key,
};

verus! {

/// Entries are ordered from the newest to the oldest `created_at`.
pub open spec fn newest_first(s: Seq<Saying>) -> bool {
    forall|i: int, j: int| 0 <= i < j < s.len() ==> s[i].created_at >= s[j].created_at
}

/// `p` is the place for an entry made at `t` in the newest-first sequence `s`:
/// after every entry at least as new, before every older one.
pub open spec fn newest_first_slot(s: Seq<Saying>, p: int, t: Millis) -> bool {
    &&& 0 <= p <= s.len()
    &&& forall|j: int| 0 <= j < p ==> s[j].created_at >= t
    &&& forall|j: int| p <= j < s.len() ==> s[j].created_at < t
}

/// `after` is `before` with `r` put in its newest-first place.
pub open spec fn inserted_newest_first(before: Seq<Saying>, after: Seq<Saying>, r: Saying) -> bool {
    exists|p: int| newest_first_slot(before, p, r.created_at) && after == before.insert(p, r)
}

/// No two entries share a cache key.
pub open spec fn distinct_keys(s: Seq<Saying>) -> bool {
    forall|i: int, j: int| 0 <= i < s.len() && 0 <= j < s.len() && i != j ==> key_of(s[i]) != key_of(s[j])
}

/// Puts `s` into the newest-first vector `v` after every entry at least as new.
pub fn insert_newest_first(v: &mut Vec<Saying>, s: Saying)
    requires
        newest_first(old(v)@),
    ensures
        inserted_newest_first(old(v)@, final(v)@, s),
        newest_first(final(v)@),
{
    let mut p: usize = 0;
    while p < v.len() && v[p].created_at >= s.created_at
        invariant
            0 <= p <= v.len(),
            forall|j: int| 0 <= j < p ==> v@[j].created_at >= s.created_at,
        decreases v.len() - p,
    {
        p = p + 1;
    }
    let ghost before = v@;
    proof {
        assert(newest_first_slot(before, p as int, s.created_at));
        before.insert_ensures(p as int, s);
    }
    v.insert(p, s);
    proof {
        let after = v@;
        assert forall|i: int, j: int| 0 <= i < j < after.len() implies after[i].created_at
            >= after[j].created_at by {
            if j < p {
            } else if j == p {
            } else if i < p {
                assert(after[j] == before[j - 1]);
            } else if i == p {
                assert(after[j] == before[j - 1]);
            } else {
                assert(after[i] == before[i - 1]);
                assert(after[j] == before[j - 1]);
            }
        }
    }
}

/// Whether some entry of `all` has the cache key of `s`.
fn holds_key(all: &Vec<Saying>, s: &Saying) -> (r: bool)
    ensures
        r == exists|i: int| 0 <= i < all@.len() && key_of(#[trigger] all@[i]) == key_of(*s),
{
    let mut i: usize = 0;
    while i < all.len()
        invariant
            0 <= i <= all.len(),
            forall|j: int| 0 <= j < i ==> key_of(#[trigger] all@[j]) != key_of(*s),
        decreases all.len() - i,
    {
        if same_key(&all[i], s) {
            return true;
        }
        i = i + 1;
    }
    false
}

/// Some entry of `s` has cache key `k`.
pub open spec fn key_held(s: Seq<Saying>, k: (Option<Seq<char>>, Seq<char>)) -> bool {
    exists|i: int| 0 <= i < s.len() && key_of(#[trigger] s[i]) == k
}

proof fn lemma_key_held_grows(before: Seq<Saying>, after: Seq<Saying>)
    requires
        forall|y: int| 0 <= y < before.len() ==> after.contains(#[trigger] before[y]),
    ensures
        forall|k: (Option<Seq<char>>, Seq<char>)| key_held(before, k) ==> #[trigger] key_held(after, k),
{
    assert forall|k: (Option<Seq<char>>, Seq<char>)| key_held(before, k) implies #[trigger] key_held(
        after,
        k,
    ) by {
        let i = choose|i: int| 0 <= i < before.len() && key_of(#[trigger] before[i]) == k;
        assert(after.contains(before[i]));
        let j = choose|j: int| 0 <= j < after.len() && after[j] == before[i];
        assert(key_of(after[j]) == k);
    }
}

proof fn lemma_contains_grows(before: Seq<Saying>, after: Seq<Saying>)
    requires
        forall|y: int| 0 <= y < before.len() ==> after.contains(#[trigger] before[y]),
    ensures
        forall|v: Saying| before.contains(v) ==> #[trigger] after.contains(v),
{
    assert forall|v: Saying| before.contains(v) implies #[trigger] after.contains(v) by {
        let y = choose|y: int| 0 <= y < before.len() && before[y] == v;
        assert(after.contains(before[y]));
    }
}

/// Puts `s` into the newest-first vector `all` unless `all` already holds
/// its cache key.
fn add_if_new_key(all: &mut Vec<Saying>, s: Saying)
    requires
        newest_first(old(all)@),
        distinct_keys(old(all)@),
    ensures
        newest_first(final(all)@),
        distinct_keys(final(all)@),
        old(all)@.len() <= final(all)@.len(),
        final(all)@.len() > 0,
        forall|x: int|
            0 <= x < final(all)@.len() ==> #[trigger] final(all)@[x] == s || old(all)@.contains(
                final(all)@[x],
            ),
        forall|y: int| 0 <= y < old(all)@.len() ==> final(all)@.contains(#[trigger] old(all)@[y]),
        key_held(final(all)@, key_of(s)),
        key_held(old(all)@, key_of(s)) ==> final(all)@ == old(all)@,
        final(all)@.len() <= old(all)@.len() + 1,
{
    if holds_key(all, &s) {
        return;
    }
    let ghost before = all@;
    insert_newest_first(all, s);
    proof {
        let p = choose|p: int|
            newest_first_slot(before, p, s.created_at) && all@ == before.insert(p, s);
        before.insert_ensures(p, s);
        assert forall|x: int| 0 <= x < all@.len() implies #[trigger] all@[x] == s || before.contains(
            all@[x],
        ) by {
            if x < p {
                assert(all@[x] == before[x]);
            } else if x > p {
                assert(all@[x] == before[x - 1]);
            }
        }
        assert forall|y: int| 0 <= y < before.len() implies all@.contains(#[trigger] before[y]) by {
            if y < p {
                assert(all@[y] == before[y]);
            } else {
                assert(all@[y + 1] == before[y]);
            }
        }
        assert(all@[p] == s);
        assert forall|x: int, y: int|
            0 <= x < all@.len() && 0 <= y < all@.len() && x != y implies key_of(all@[x]) != key_of(
                all@[y],
            ) by {
            let xo = if x < p { x } else { x - 1 };
            let yo = if y < p { y } else { y - 1 };
            if x != p && y != p {
                assert(all@[x] == before[xo]);
                assert(all@[y] == before[yo]);
            } else if x == p {
                assert(all@[y] == before[yo]);
            } else {
                assert(all@[x] == before[xo]);
            }
        }
    }
}

struct UserHistory {
    user_id: String,
    sayings: Vec<Saying>,
}

/// `post` is `pre` after recording `saying` for `user`: the saying joins that
/// user's history in its newest-first place, other histories stay, and
/// unless it was generated it becomes the global cache entry for its key.
pub open spec fn recorded(pre: MemoryStorage, post: MemoryStorage, user: Seq<char>, saying: Saying) -> bool {
    &&& inserted_newest_first(pre.history(user), post.history(user), saying)
    &&& forall|u: Seq<char>| u != user ==> post.history(u) == pre.history(u)
    &&& forall|k: (Option<Seq<char>>, Seq<char>)|
        #[trigger] post.cache_entry(k) == if saying.source != SayingSource::LLM && k == key_of(saying) {
            Some(saying)
        } else {
            pre.cache_entry(k)
        }
}

/// `r` answers a cache lookup of `(prompt, preset)` in `s`: the global cache
/// entry under that key if there is one; otherwise a non-generated history
/// entry with that key, present exactly when one exists. Whatever is found
/// is vetted, has the key, and is held by the store.
pub open spec fn cached_lookup(
    s: MemoryStorage,
    prompt: Seq<char>,
    preset: Option<Seq<char>>,
    r: Option<Saying>,
) -> bool {
    &&& s.cache_entry((preset, prompt)) is Some ==> r == s.cache_entry((preset, prompt))
    &&& s.cache_entry((preset, prompt)) is None ==> (r is Some <==> s.has_stored_answer(prompt, preset))
    &&& r matches Some(x) ==> x.source != SayingSource::LLM && answers(x, prompt, preset) && s.stores(x)
}

/// The first `limit` entries of the history of `user` in `s`.
pub open spec fn history_page(s: MemoryStorage, user: Seq<char>, limit: usize) -> Seq<Saying> {
    s.history(user).take(
        if limit < s.history(user).len() {
            limit as int
        } else {
            s.history(user).len() as int
        },
    )
}

impl MemoryStorage {
    /// Every history of a well-formed store is ordered newest first.
    pub proof fn lemma_histories_newest_first(&self, user: Seq<char>)
        requires
            self.wf(),
        ensures
            newest_first(self.history(user)),
    {
        if self.has_user(user) {
            let c = choose|c: int| 0 <= c < self.users@.len() && self.users@[c].user_id@ == user;
        }
    }
}

/// A store of results that lives in process memory.
pub struct MemoryStorage {
    users: Vec<UserHistory>,
    global_cache: Vec<Saying>,
}

impl MemoryStorage {
    /// Whether `user` has a history.
    pub closed spec fn has_user(&self, user: Seq<char>) -> bool {
        exists|i: int| 0 <= i < self.users@.len() && self.users@[i].user_id@ == user
    }

    /// The history of `user`, newest first; empty for a user never seen.
    pub closed spec fn history(&self, user: Seq<char>) -> Seq<Saying> {
        if self.has_user(user) {
            self.users@[choose|i: int|
                0 <= i < self.users@.len() && self.users@[i].user_id@ == user].sayings@
        } else {
            Seq::empty()
        }
    }

    /// The global cache entry under `key`, if any.
    pub closed spec fn cache_entry(&self, key: (Option<Seq<char>>, Seq<char>)) -> Option<Saying> {
        if exists|i: int| 0 <= i < self.global_cache@.len() && key_of(self.global_cache@[i]) == key {
            Some(
                self.global_cache@[choose|i: int|
                    0 <= i < self.global_cache@.len() && key_of(self.global_cache@[i]) == key],
            )
        } else {
            None
        }
    }

    /// The store's internal consistency.
    pub closed spec fn wf(&self) -> bool {
        &&& forall|i: int, j: int|
            0 <= i < self.users@.len() && 0 <= j < self.users@.len() && i != j
                ==> self.users@[i].user_id@ != self.users@[j].user_id@
        &&& forall|i: int| 0 <= i < self.users@.len() ==> newest_first(self.users@[i].sayings@)
        &&& distinct_keys(self.global_cache@)
        &&& forall|i: int|
            0 <= i < self.global_cache@.len() ==> self.global_cache@[i].source != SayingSource::LLM
    }

    /// `s` is in some user's history.
    pub open spec fn in_history(&self, s: Saying) -> bool {
        exists|u: Seq<char>, j: int| 0 <= j < self.history(u).len() && #[trigger] self.history(u)[j] == s
    }

    /// `s` is an entry of the global cache.
    pub open spec fn in_cache(&self, s: Saying) -> bool {
        exists|k: (Option<Seq<char>>, Seq<char>)| #[trigger] self.cache_entry(k) == Some(s)
    }

    /// `s` is held by the store, in a history or in the global cache.
    pub open spec fn stores(&self, s: Saying) -> bool {
        self.in_cache(s) || self.in_history(s)
    }

    /// A non-generated result for `(prompt, preset)` sits in some history.
    pub open spec fn has_stored_answer(&self, prompt: Seq<char>, preset: Option<Seq<char>>) -> bool {
        exists|u: Seq<char>, j: int|
            0 <= j < self.history(u).len() && answers(#[trigger] self.history(u)[j], prompt, preset)
                && self.history(u)[j].source != SayingSource::LLM
    }

    /// Nothing is stored: no cache entry and no history entry.
    pub open spec fn is_empty(&self) -> bool {
        &&& forall|k: (Option<Seq<char>>, Seq<char>)| #[trigger] self.cache_entry(k).is_none()
        &&& forall|u: Seq<char>| #[trigger] self.history(u).len() == 0
    }

    proof fn lemma_history_at(&self, i: int)
        requires
            self.wf(),
            0 <= i < self.users@.len(),
        ensures
            self.has_user(self.users@[i].user_id@),
            self.history(self.users@[i].user_id@) == self.users@[i].sayings@,
    {
        let u = self.users@[i].user_id@;
        assert(self.has_user(u));
        let c = choose|c: int| 0 <= c < self.users@.len() && self.users@[c].user_id@ == u;
        assert(c == i);
    }

    proof fn lemma_cache_at(&self, i: int)
        requires
            self.wf(),
            0 <= i < self.global_cache@.len(),
        ensures
            self.cache_entry(key_of(self.global_cache@[i])) == Some(self.global_cache@[i]),
    {
        let k = key_of(self.global_cache@[i]);
        assert(0 <= i < self.global_cache@.len() && key_of(self.global_cache@[i]) == k);
        let c = choose|c: int| 0 <= c < self.global_cache@.len() && key_of(self.global_cache@[c]) == k;
        assert(c == i);
    }

    /// An empty store.
    pub fn new() -> (r: MemoryStorage)
        ensures
            r.wf(),
            r.is_empty(),
    {
        let r = MemoryStorage { users: Vec::new(), global_cache: Vec::new() };
        assert forall|u: Seq<char>| #[trigger] r.history(u).len() == 0 by {
            assert(!r.has_user(u));
        }
        r
    }

    fn find_user(&self, user_id: &str) -> (r: Option<usize>)
        ensures
            match r {
                Some(i) => i < self.users@.len() && self.users@[i as int].user_id@ == user_id@,
                None => !self.has_user(user_id@),
            },
    {
        let mut i: usize = 0;
        while i < self.users.len()
            invariant
                0 <= i <= self.users@.len(),
                forall|j: int| 0 <= j < i ==> self.users@[j].user_id@ != user_id@,
            decreases self.users@.len() - i,
        {
            if same_text(self.users[i].user_id.as_str(), user_id) {
                return Some(i);
            }
            i = i + 1;
        }
        None
    }

    fn find_cache_slot(&self, prompt: &str, preset_id: Option<&str>) -> (r: Option<usize>)
        ensures
            match r {
                Some(i) => i < self.global_cache@.len() && key_of(self.global_cache@[i as int]) == (
                opt_str(preset_id), prompt@),
                None => forall|i: int|
                    0 <= i < self.global_cache@.len() ==> key_of(#[trigger] self.global_cache@[i])
                        != (opt_str(preset_id), prompt@),
            },
    {
        let mut i: usize = 0;
        while i < self.global_cache.len()
            invariant
                0 <= i <= self.global_cache@.len(),
                forall|j: int|
                    0 <= j < i ==> key_of(#[trigger] self.global_cache@[j]) != (
                    opt_str(preset_id), prompt@),
            decreases self.global_cache@.len() - i,
        {
            let entry = &self.global_cache[i];
            if same_text(entry.prompt.as_str(), prompt) && same_opt_text(&entry.preset_id, preset_id) {
                return Some(i);
            }
            i = i + 1;
        }
        None
    }
    /// Appends `saying` to the history of `user_id` in its newest-first place
    /// and, unless it was generated, makes it the global cache entry for its
    /// key, replacing any earlier one. Returns the saying.
    pub fn save_saying(&mut self, user_id: &str, saying: Saying) -> (r: Saying)
        requires
            old(self).wf(),
        ensures
            final(self).wf(),
            r == saying,
            recorded(*old(self), *final(self), user_id@, saying),
    {
        self.record_in_history(user_id, saying.clone());
        if !saying.source.is_generated() {
            self.put_in_cache(saying.clone());
        }
        saying
    }

    fn record_in_history(&mut self, user_id: &str, saying: Saying)
        requires
            old(self).wf(),
        ensures
            final(self).wf(),
            final(self).global_cache == old(self).global_cache,
            inserted_newest_first(old(self).history(user_id@), final(self).history(user_id@), saying),
            forall|u: Seq<char>| u != user_id@ ==> final(self).history(u) == old(self).history(u),
    {
        let ghost pre = *self;
        match self.find_user(user_id) {
            Some(i) => {
                proof {
                    pre.lemma_history_at(i as int);
                }
                let entry = self.users.remove(i);
                let UserHistory { user_id: uid, sayings: mut list } = entry;
                insert_newest_first(&mut list, saying);
                self.users.insert(i, UserHistory { user_id: uid, sayings: list });
                proof {
                    assert(self.users@ =~= pre.users@.update(i as int, self.users@[i as int]));
                    self.lemma_history_at(i as int);
                    assert forall|u: Seq<char>| u != user_id@ implies self.history(u) == pre.history(
                        u,
                    ) by {
                        if pre.has_user(u) {
                            let c = choose|c: int|
                                0 <= c < pre.users@.len() && pre.users@[c].user_id@ == u;
                            pre.lemma_history_at(c);
                            self.lemma_history_at(c);
                        } else {
                            if self.has_user(u) {
                                let c = choose|c: int|
                                    0 <= c < self.users@.len() && self.users@[c].user_id@ == u;
                                assert(pre.users@[c].user_id@ == u);
                            }
                        }
                    }
                }
            },
            None => {
                let mut list: Vec<Saying> = Vec::new();
                list.push(saying);
                let n = self.users.len();
                self.users.push(UserHistory { user_id: user_id.to_owned(), sayings: list });
                proof {
                    assert(self.users@ =~= pre.users@.push(self.users@[n as int]));
                    assert forall|i: int, j: int|
                        0 <= i < self.users@.len() && 0 <= j < self.users@.len() && i != j
                            implies self.users@[i].user_id@ != self.users@[j].user_id@ by {
                        if i == n {
                            assert(pre.users@[j].user_id@ != user_id@);
                        } else if j == n {
                            assert(pre.users@[i].user_id@ != user_id@);
                        }
                    }
                    self.lemma_history_at(n as int);
                    assert(Seq::<Saying>::empty().insert(0, saying) =~= list@);
                    assert(newest_first_slot(Seq::<Saying>::empty(), 0, saying.created_at));
                    assert forall|u: Seq<char>| u != user_id@ implies self.history(u) == pre.history(
                        u,
                    ) by {
                        if pre.has_user(u) {
                            let c = choose|c: int|
                                0 <= c < pre.users@.len() && pre.users@[c].user_id@ == u;
                            pre.lemma_history_at(c);
                            self.lemma_history_at(c);
                        } else {
                            if self.has_user(u) {
                                let c = choose|c: int|
                                    0 <= c < self.users@.len() && self.users@[c].user_id@ == u;
                                assert(c != n);
                                assert(pre.users@[c].user_id@ == u);
                            }
                        }
                    }
                }
            },
        }
    }

    fn put_in_cache(&mut self, saying: Saying)
        requires
            old(self).wf(),
            saying.source != SayingSource::LLM,
        ensures
            final(self).wf(),
            final(self).users == old(self).users,
            forall|k: (Option<Seq<char>>, Seq<char>)|
                #[trigger] final(self).cache_entry(k) == if k == key_of(saying) {
                    Some(saying)
                } else {
                    old(self).cache_entry(k)
                },
    {
        let ghost pre = *self;
        let slot = self.find_cache_slot(saying.prompt.as_str(), opt_as_str(&saying.preset_id));
        match slot {
            Some(i) => {
                self.global_cache.set(i, saying);
                proof {
                    assert forall|k: (Option<Seq<char>>, Seq<char>)|
                        #[trigger] self.cache_entry(k) == if k == key_of(saying) {
                            Some(saying)
                        } else {
                            pre.cache_entry(k)
                        } by {
                        self.lemma_cache_at(i as int);
                        if k != key_of(saying) {
                            if exists|c: int|
                                0 <= c < pre.global_cache@.len() && key_of(pre.global_cache@[c])
                                    == k {
                                let c = choose|c: int|
                                    0 <= c < pre.global_cache@.len() && key_of(
                                        pre.global_cache@[c],
                                    ) == k;
                                pre.lemma_cache_at(c);
                                self.lemma_cache_at(c);
                            } else {
                                assert forall|c: int|
                                    0 <= c < self.global_cache@.len() implies key_of(
                                        self.global_cache@[c],
                                    ) != k by {
                                    if c != i {
                                        assert(self.global_cache@[c] == pre.global_cache@[c]);
                                    }
                                }
                            }
                        }
                    }
                }
            },
            None => {
                let n = self.global_cache.len();
                self.global_cache.push(saying);
                proof {
                    assert forall|k: (Option<Seq<char>>, Seq<char>)|
                        #[trigger] self.cache_entry(k) == if k == key_of(saying) {
                            Some(saying)
                        } else {
                            pre.cache_entry(k)
                        } by {
                        self.lemma_cache_at(n as int);
                        if k != key_of(saying) {
                            if exists|c: int|
                                0 <= c < pre.global_cache@.len() && key_of(pre.global_cache@[c])
                                    == k {
                                let c = choose|c: int|
                                    0 <= c < pre.global_cache@.len() && key_of(
                                        pre.global_cache@[c],
                                    ) == k;
                                pre.lemma_cache_at(c);
                                self.lemma_cache_at(c);
                            } else {
                                assert forall|c: int|
                                    0 <= c < self.global_cache@.len() implies key_of(
                                        self.global_cache@[c],
                                    ) != k by {
                                    if c != n {
                                        assert(self.global_cache@[c] == pre.global_cache@[c]);
                                    }
                                }
                            }
                        }
                    }
                }
            },
        }
    }
    /// The most recent result of `user_id`, if any.
    pub fn get_last_saying(&self, user_id: &str) -> (r: Option<Saying>)
        requires
            self.wf(),
        ensures
            r == if self.history(user_id@).len() > 0 {
                Some(self.history(user_id@)[0])
            } else {
                None
            },
    {
        match self.find_user(user_id) {
            Some(i) => {
                proof {
                    self.lemma_history_at(i as int);
                }
                if self.users[i].sayings.len() > 0 {
                    Some(self.users[i].sayings[0].clone())
                } else {
                    None
                }
            },
            None => None,
        }
    }

    /// The history of `user_id`, newest first, cut to at most `limit` entries.
    pub fn get_sayings(&self, user_id: &str, limit: usize) -> (r: Vec<Saying>)
        requires
            self.wf(),
        ensures
            r@ == history_page(*self, user_id@, limit),
    {
        let mut out: Vec<Saying> = Vec::new();
        match self.find_user(user_id) {
            Some(i) => {
                proof {
                    self.lemma_history_at(i as int);
                }
                let list = &self.users[i].sayings;
                let mut j: usize = 0;
                while j < list.len() && j < limit
                    invariant
                        0 <= j <= list@.len(),
                        j <= limit,
                        out@ =~= list@.take(j as int),
                    decreases list@.len() - j,
                {
                    out.push(list[j].clone());
                    j = j + 1;
                }
                assert(out@ =~= list@.take(
                    if limit < list@.len() {
                        limit as int
                    } else {
                        list@.len() as int
                    },
                ));
            },
            None => {
                assert(out@ =~= Seq::<Saying>::empty().take(0));
            },
        }
        out
    }

    /// A vetted result for `(prompt, preset_id)`: the global cache entry under
    /// that exact key if there is one; otherwise some non-generated result with
    /// that key from any user's history; otherwise nothing.
    pub fn find_cached_saying(&self, prompt: &str, preset_id: Option<&str>) -> (r: Option<Saying>)
        requires
            self.wf(),
        ensures
            cached_lookup(*self, prompt@, opt_str(preset_id), r),
    {
        let ghost key = (opt_str(preset_id), prompt@);
        if let Some(i) = self.find_cache_slot(prompt, preset_id) {
            proof {
                self.lemma_cache_at(i as int);
                assert(key_of(self.global_cache@[i as int]) == key);
                assert(self.cache_entry(key) == Some(self.global_cache@[i as int]));
            }
            let found = self.global_cache[i].clone();
            proof {
                assert(self.stores(found));
            }
            return Some(found);
        }
        assert(self.cache_entry(key) is None);
        let mut i: usize = 0;
        while i < self.users.len()
            invariant
                self.wf(),
                self.cache_entry((opt_str(preset_id), prompt@)) is None,
                0 <= i <= self.users@.len(),
                forall|a: int, b: int|
                    0 <= a < i && 0 <= b < self.users@[a].sayings@.len() ==> !(answers(
                        #[trigger] self.users@[a].sayings@[b],
                        prompt@,
                        opt_str(preset_id),
                    ) && self.users@[a].sayings@[b].source != SayingSource::LLM),
            decreases self.users@.len() - i,
        {
            let list = &self.users[i].sayings;
            let mut j: usize = 0;
            while j < list.len()
                invariant
                    self.wf(),
                    self.cache_entry((opt_str(preset_id), prompt@)) is None,
                    0 <= i < self.users@.len(),
                    list@ == self.users@[i as int].sayings@,
                    0 <= j <= list@.len(),
                    forall|b: int|
                        0 <= b < j ==> !(answers(#[trigger] list@[b], prompt@, opt_str(preset_id))
                            && list@[b].source != SayingSource::LLM),
                decreases list@.len() - j,
            {
                let s = &list[j];
                if same_text(s.prompt.as_str(), prompt) && same_opt_text(&s.preset_id, preset_id)
                    && !s.source.is_generated() {
                    proof {
                        self.lemma_history_at(i as int);
                        let u = self.users@[i as int].user_id@;
                        assert(self.history(u)[j as int] == *s);
                    }
                    return Some(s.clone());
                }
                j = j + 1;
            }
            i = i + 1;
        }
        proof {
            assert forall|u: Seq<char>, b: int|
                0 <= b < self.history(u).len() && answers(
                    #[trigger] self.history(u)[b],
                    prompt@,
                    opt_str(preset_id),
                ) implies self.history(u)[b].source == SayingSource::LLM by {
                let c = choose|c: int| 0 <= c < self.users@.len() && self.users@[c].user_id@ == u;
                assert(self.users@[c].sayings@[b] == self.history(u)[b]);
            }
        }
        None
    }
    /// Every entry of `s` whose key has a global cache entry is that entry.
    spec fn cache_faithful(&self, s: Seq<Saying>) -> bool {
        forall|i: int|
            0 <= i < s.len() && (#[trigger] self.cache_entry(key_of(s[i]))) is Some
                ==> self.cache_entry(key_of(s[i])) == Some(s[i])
    }

    /// Every generated entry of `s` has a key that no vetted history entry has.
    spec fn generated_unvetted(&self, s: Seq<Saying>) -> bool {
        forall|i: int, a: int, b: int|
            0 <= i < s.len() && s[i].source == SayingSource::LLM && 0 <= a < self.users@.len() && 0
                <= b < self.users@[a].sayings@.len() && key_of(#[trigger] self.users@[a].sayings@[b])
                == key_of(#[trigger] s[i]) ==> self.users@[a].sayings@[b].source == SayingSource::LLM
    }

    /// Adds to `all` each history entry whose generated flag is `generated`
    /// and whose key `all` does not hold yet, scanning users in order.
    fn gather_from_histories(&self, all: &mut Vec<Saying>, generated: bool)
        requires
            self.wf(),
            newest_first(old(all)@),
            distinct_keys(old(all)@),
            forall|x: int| 0 <= x < old(all)@.len() ==> self.stores(#[trigger] old(all)@[x]),
            forall|c: int|
                0 <= c < self.global_cache@.len() ==> key_held(
                    old(all)@,
                    key_of(#[trigger] self.global_cache@[c]),
                ),
            generated ==> forall|a: int, b: int|
                0 <= a < self.users@.len() && 0 <= b < self.users@[a].sayings@.len()
                    && self.users@[a].sayings@[b].source != SayingSource::LLM ==> key_held(
                    old(all)@,
                    key_of(#[trigger] self.users@[a].sayings@[b]),
                ),
            self.cache_faithful(old(all)@),
            self.generated_unvetted(old(all)@),
        ensures
            newest_first(final(all)@),
            distinct_keys(final(all)@),
            forall|x: int| 0 <= x < final(all)@.len() ==> self.stores(#[trigger] final(all)@[x]),
            old(all)@.len() <= final(all)@.len(),
            forall|y: int| 0 <= y < old(all)@.len() ==> final(all)@.contains(#[trigger] old(all)@[y]),
            forall|a: int, b: int|
                0 <= a < self.users@.len() && 0 <= b < self.users@[a].sayings@.len() && ((
                #[trigger] self.users@[a].sayings@[b]).source == SayingSource::LLM) == generated
                    ==> key_held(final(all)@, key_of(self.users@[a].sayings@[b])),
            self.cache_faithful(final(all)@),
            self.generated_unvetted(final(all)@),
    {
        let ghost start = all@;
        let mut i: usize = 0;
        while i < self.users.len()
            invariant
                self.wf(),
                0 <= i <= self.users@.len(),
                newest_first(all@),
                distinct_keys(all@),
                forall|x: int| 0 <= x < all@.len() ==> self.stores(#[trigger] all@[x]),
                start.len() <= all@.len(),
                forall|y: int| 0 <= y < start.len() ==> all@.contains(#[trigger] start[y]),
                forall|c: int|
                    0 <= c < self.global_cache@.len() ==> key_held(
                        all@,
                        key_of(#[trigger] self.global_cache@[c]),
                    ),
                generated ==> forall|a: int, b: int|
                    0 <= a < self.users@.len() && 0 <= b < self.users@[a].sayings@.len()
                        && self.users@[a].sayings@[b].source != SayingSource::LLM ==> key_held(
                        all@,
                        key_of(#[trigger] self.users@[a].sayings@[b]),
                    ),
                self.cache_faithful(all@),
                self.generated_unvetted(all@),
                forall|a: int, b: int|
                    0 <= a < i && 0 <= b < self.users@[a].sayings@.len() && ((
                    #[trigger] self.users@[a].sayings@[b]).source == SayingSource::LLM) == generated
                        ==> key_held(all@, key_of(self.users@[a].sayings@[b])),
            decreases self.users@.len() - i,
        {
            let list = &self.users[i].sayings;
            proof {
                self.lemma_history_at(i as int);
            }
            let mut j: usize = 0;
            while j < list.len()
                invariant
                    self.wf(),
                    0 <= i < self.users@.len(),
                    list@ == self.users@[i as int].sayings@,
                    self.history(self.users@[i as int].user_id@) == list@,
                    0 <= j <= list@.len(),
                    newest_first(all@),
                    distinct_keys(all@),
                    forall|x: int| 0 <= x < all@.len() ==> self.stores(#[trigger] all@[x]),
                    start.len() <= all@.len(),
                    forall|y: int| 0 <= y < start.len() ==> all@.contains(#[trigger] start[y]),
                    forall|c: int|
                        0 <= c < self.global_cache@.len() ==> key_held(
                            all@,
                            key_of(#[trigger] self.global_cache@[c]),
                        ),
                    generated ==> forall|a: int, b: int|
                        0 <= a < self.users@.len() && 0 <= b < self.users@[a].sayings@.len()
                            && self.users@[a].sayings@[b].source != SayingSource::LLM ==> key_held(
                            all@,
                            key_of(#[trigger] self.users@[a].sayings@[b]),
                        ),
                    self.cache_faithful(all@),
                    self.generated_unvetted(all@),
                    forall|a: int, b: int|
                        0 <= a < i && 0 <= b < self.users@[a].sayings@.len() && ((
                        #[trigger] self.users@[a].sayings@[b]).source == SayingSource::LLM)
                            == generated ==> key_held(all@, key_of(self.users@[a].sayings@[b])),
                    forall|b: int|
                        0 <= b < j && ((#[trigger] list@[b]).source == SayingSource::LLM)
                            == generated ==> key_held(all@, key_of(list@[b])),
                decreases list@.len() - j,
            {
                if list[j].source.is_generated() == generated {
                    let s = list[j].clone();
                    proof {
                        let u = self.users@[i as int].user_id@;
                        assert(self.history(u)[j as int] == s);
                        assert(self.stores(s));
                    }
                    let ghost before = all@;
                    let ghost held_before = key_held(before, key_of(s));
                    add_if_new_key(all, s);
                    proof {
                        lemma_key_held_grows(before, all@);
                        assert forall|y: int| 0 <= y < start.len() implies all@.contains(
                            #[trigger] start[y],
                        ) by {
                            let q = choose|q: int| 0 <= q < before.len() && before[q] == start[y];
                            assert(all@.contains(before[q]));
                        }
                        if !held_before {
                            assert forall|x: int| 0 <= x < all@.len() implies self.stores(
                                #[trigger] all@[x],
                            ) by {
                                if all@[x] != s {
                                    let y = choose|y: int|
                                        0 <= y < before.len() && before[y] == all@[x];
                                    assert(self.stores(before[y]));
                                }
                            }
                            assert forall|x: int|
                                0 <= x < all@.len() && (#[trigger] self.cache_entry(
                                    key_of(all@[x]),
                                )) is Some implies self.cache_entry(key_of(all@[x])) == Some(
                                all@[x],
                            ) by {
                                if all@[x] != s {
                                    let y = choose|y: int|
                                        0 <= y < before.len() && before[y] == all@[x];
                                    assert(self.cache_entry(key_of(before[y])) is Some);
                                } else {
                                    let c = choose|c: int|
                                        0 <= c < self.global_cache@.len() && key_of(
                                            self.global_cache@[c],
                                        ) == key_of(s);
                                    assert(key_held(before, key_of(self.global_cache@[c])));
                                }
                            }
                            assert forall|x: int, a: int, b: int|
                                0 <= x < all@.len() && all@[x].source == SayingSource::LLM && 0 <= a
                                    < self.users@.len() && 0 <= b < self.users@[a].sayings@.len()
                                    && key_of(#[trigger] self.users@[a].sayings@[b]) == key_of(
                                    #[trigger] all@[x],
                                ) implies self.users@[a].sayings@[b].source
                                == SayingSource::LLM by {
                                if all@[x] != s {
                                    let y = choose|y: int|
                                        0 <= y < before.len() && before[y] == all@[x];
                                    assert(key_of(self.users@[a].sayings@[b]) == key_of(before[y]));
                                } else if self.users@[a].sayings@[b].source != SayingSource::LLM {
                                    assert(key_held(before, key_of(self.users@[a].sayings@[b])));
                                }
                            }
                        }
                    }
                }
                j = j + 1;
            }
            i = i + 1;
        }
    }

    /// The tier of a candidate for the fallback sample: a global cache entry
    /// first, then a non-generated result, then a generated one.
    spec fn tier(&self, x: Saying) -> int {
        if self.cache_entry(key_of(x)) is Some {
            0
        } else if x.source != SayingSource::LLM {
            1
        } else {
            2
        }
    }

    /// Every candidate of `all` below tier `t` is in `out`.
    spec fn taken_below(&self, all: Seq<Saying>, out: Seq<Saying>, t: int) -> bool {
        forall|j: int| 0 <= j < all.len() && self.tier(all[j]) < t ==> out.contains(#[trigger] all[j])
    }

    /// An entry of `out` in some tier comes only after every candidate of
    /// `all` in a lower tier.
    spec fn prefers(&self, all: Seq<Saying>, out: Seq<Saying>) -> bool {
        forall|x: int, j: int|
            0 <= x < out.len() && 0 <= j < all.len() && self.tier(#[trigger] all[j]) < self.tier(
                #[trigger] out[x],
            ) ==> out.contains(all[j])
    }

    proof fn lemma_cache_entry(&self, k: (Option<Seq<char>>, Seq<char>))
        requires
            self.wf(),
        ensures
            self.cache_entry(k) matches Some(y) ==> key_of(y) == k && y.source != SayingSource::LLM
                && self.global_cache@.contains(y),
    {
        if self.cache_entry(k) is Some {
            let c = choose|c: int| 0 <= c < self.global_cache@.len() && key_of(self.global_cache@[c]) == k;
            assert(self.global_cache@[c].source != SayingSource::LLM);
        }
    }

    fn tier_of(&self, x: &Saying) -> (t: u8)
        ensures
            t as int == self.tier(*x),
    {
        match self.find_cache_slot(x.prompt.as_str(), opt_as_str(&x.preset_id)) {
            Some(i) => {
                assert(key_of(self.global_cache@[i as int]) == key_of(*x));
                0
            },
            None => if !x.source.is_generated() {
                1
            } else {
                2
            },
        }
    }

    /// Moves the candidates of tier `t` from `all` into `out`, newest first,
    /// while `out` holds fewer than `limit`.
    fn take_tier(&self, all: &Vec<Saying>, t: u8, limit: usize, out: &mut Vec<Saying>)
        requires
            self.wf(),
            distinct_keys(all@),
            newest_first(old(out)@),
            distinct_keys(old(out)@),
            old(out)@.len() <= limit,
            forall|x: int| 0 <= x < old(out)@.len() ==> all@.contains(#[trigger] old(out)@[x]),
            forall|x: int| 0 <= x < old(out)@.len() ==> self.tier(#[trigger] old(out)@[x]) < t,
            old(out)@.len() < limit ==> self.taken_below(all@, old(out)@, t as int),
            self.prefers(all@, old(out)@),
        ensures
            newest_first(final(out)@),
            distinct_keys(final(out)@),
            final(out)@.len() <= limit,
            forall|x: int| 0 <= x < final(out)@.len() ==> all@.contains(#[trigger] final(out)@[x]),
            forall|x: int| 0 <= x < final(out)@.len() ==> self.tier(#[trigger] final(out)@[x]) <= t,
            final(out)@.len() < limit ==> self.taken_below(all@, final(out)@, t + 1),
            self.prefers(all@, final(out)@),
    {
        let ghost start = out@;
        let ghost started_short = out@.len() < limit;
        let mut j: usize = 0;
        while j < all.len()
            invariant
                self.wf(),
                distinct_keys(all@),
                0 <= j <= all@.len(),
                newest_first(out@),
                distinct_keys(out@),
                out@.len() <= limit,
                start.len() <= out@.len(),
                started_short == (start.len() < limit),
                forall|x: int| 0 <= x < out@.len() ==> all@.contains(#[trigger] out@[x]),
                forall|x: int| 0 <= x < out@.len() ==> self.tier(#[trigger] out@[x]) <= t,
                started_short ==> self.taken_below(all@, out@, t as int),
                self.prefers(all@, out@),
                out@.len() < limit ==> forall|m: int|
                    0 <= m < j && self.tier(all@[m]) == t ==> out@.contains(#[trigger] all@[m]),
            decreases all@.len() - j,
        {
            if out.len() < limit && self.tier_of(&all[j]) == t {
                let s = all[j].clone();
                let ghost before = out@;
                add_if_new_key(out, s);
                proof {
                    lemma_contains_grows(before, out@);
                    if !out@.contains(s) {
                        let q = choose|q: int| 0 <= q < out@.len() && key_of(#[trigger] out@[q]) == key_of(s);
                        if out@[q] != s {
                            assert(before.contains(out@[q]));
                            let b = choose|b: int| 0 <= b < before.len() && before[b] == out@[q];
                            assert(all@.contains(before[b]));
                            let m = choose|m: int| 0 <= m < all@.len() && all@[m] == before[b];
                            assert(m == j);
                        }
                    }
                    assert forall|x: int| 0 <= x < out@.len() implies all@.contains(#[trigger] out@[x])
                        && self.tier(out@[x]) <= t by {
                        if out@[x] != s {
                            let b = choose|b: int| 0 <= b < before.len() && before[b] == out@[x];
                            assert(all@.contains(before[b]));
                        } else {
                            assert(all@[j as int] == s);
                        }
                    }
                    assert forall|x: int, m: int|
                        0 <= x < out@.len() && 0 <= m < all@.len() && self.tier(#[trigger] all@[m])
                            < self.tier(#[trigger] out@[x]) implies out@.contains(all@[m]) by {
                        if out@[x] != s {
                            let b = choose|b: int| 0 <= b < before.len() && before[b] == out@[x];
                            assert(before.contains(all@[m]));
                        } else {
                            assert(before.contains(all@[m]));
                        }
                    }
                }
            }
            j = j + 1;
        }
    }

    /// Up to `limit` results to serve when nothing targeted is available.
    /// The candidates are every global cache entry, then for each key not
    /// taken yet a non-generated history entry, then for each key still not
    /// taken a generated one. The pick takes the global cache entries first,
    /// then the non-generated history entries, then the generated ones, the
    /// newest of each group first, until it holds `limit`; it comes ordered
    /// newest first.
    pub fn get_any_cached_sayings(&self, limit: usize) -> (r: Vec<Saying>)
        requires
            self.wf(),
        ensures
            r@.len() <= limit,
            newest_first(r@),
            distinct_keys(r@),
            forall|x: int| 0 <= x < r@.len() ==> self.stores(#[trigger] r@[x]),
            limit > 0 && !self.is_empty() ==> r@.len() > 0,
            r@.len() < limit ==> forall|x: Saying| #[trigger] self.stores(x) ==> key_held(r@, key_of(x)),
            forall|i: int|
                0 <= i < r@.len() && (#[trigger] self.cache_entry(key_of(r@[i]))) is Some
                    ==> self.cache_entry(key_of(r@[i])) == Some(r@[i]),
            forall|i: int, x: Saying|
                0 <= i < r@.len() && (#[trigger] r@[i]).source == SayingSource::LLM
                    && #[trigger] self.stores(x) && key_of(x) == key_of(r@[i]) ==> x.source
                    == SayingSource::LLM,
            forall|i: int, k: (Option<Seq<char>>, Seq<char>)|
                0 <= i < r@.len() && !self.in_cache(#[trigger] r@[i]) && (#[trigger] self.cache_entry(k)) is Some
                    ==> r@.contains(self.cache_entry(k)->Some_0),
            forall|i: int, x: Saying|
                0 <= i < r@.len() && (#[trigger] r@[i]).source == SayingSource::LLM
                    && #[trigger] self.stores(x) && x.source != SayingSource::LLM ==> key_held(r@, key_of(x)),
    {
        let mut all: Vec<Saying> = Vec::new();
        let mut i: usize = 0;
        while i < self.global_cache.len()
            invariant
                self.wf(),
                0 <= i <= self.global_cache@.len(),
                newest_first(all@),
                distinct_keys(all@),
                forall|x: int| 0 <= x < all@.len() ==> self.stores(#[trigger] all@[x]),
                forall|x: int| 0 <= x < all@.len() ==> (#[trigger] all@[x]).source != SayingSource::LLM,
                forall|c: int| 0 <= c < i ==> key_held(all@, key_of(#[trigger] self.global_cache@[c])),
                self.cache_faithful(all@),
                i > 0 ==> all@.len() > 0,
            decreases self.global_cache@.len() - i,
        {
            let s = self.global_cache[i].clone();
            proof {
                self.lemma_cache_at(i as int);
                assert(self.cache_entry(key_of(s)) == Some(s));
                assert(self.stores(s));
            }
            let ghost before = all@;
            add_if_new_key(&mut all, s);
            proof {
                lemma_key_held_grows(before, all@);
                assert forall|x: int| 0 <= x < all@.len() implies self.stores(#[trigger] all@[x])
                    && all@[x].source != SayingSource::LLM && (self.cache_entry(key_of(all@[x])) is Some
                    ==> self.cache_entry(key_of(all@[x])) == Some(all@[x])) by {
                    if all@[x] != s {
                        let y = choose|y: int| 0 <= y < before.len() && before[y] == all@[x];
                        assert(self.stores(before[y]));
                        assert(before[y].source != SayingSource::LLM);
                        if self.cache_entry(key_of(before[y])) is Some {
                        }
                    }
                }
            }
            i = i + 1;
        }
        let ghost after_cache = all@;
        self.gather_from_histories(&mut all, false);
        let ghost after_vetted = all@;
        self.gather_from_histories(&mut all, true);
        proof {
            lemma_key_held_grows(after_vetted, all@);
            lemma_key_held_grows(after_cache, all@);
            assert forall|x: Saying| #[trigger] self.stores(x) implies key_held(all@, key_of(x)) by {
                if self.in_cache(x) {
                    let k = choose|k: (Option<Seq<char>>, Seq<char>)| #[trigger] self.cache_entry(k)
                        == Some(x);
                    let c = choose|c: int|
                        0 <= c < self.global_cache@.len() && key_of(self.global_cache@[c]) == k;
                    assert(key_held(after_cache, key_of(self.global_cache@[c])));
                } else {
                    let (u, j) = choose|u: Seq<char>, j: int|
                        0 <= j < self.history(u).len() && #[trigger] self.history(u)[j] == x;
                    let c = choose|c: int| 0 <= c < self.users@.len() && self.users@[c].user_id@ == u;
                    assert(self.users@[c].sayings@[j] == x);
                    assert(key_held(all@, key_of(self.users@[c].sayings@[j])));
                }
            }
            if limit > 0 && !self.is_empty() {
                if exists|k: (Option<Seq<char>>, Seq<char>)| #[trigger] self.cache_entry(k) is Some {
                    let k = choose|k: (Option<Seq<char>>, Seq<char>)|
                        #[trigger] self.cache_entry(k) is Some;
                    self.lemma_cache_entry(k);
                    assert(self.stores(self.cache_entry(k)->Some_0));
                } else {
                    let u = choose|u: Seq<char>| #[trigger] self.history(u).len() != 0;
                    assert(self.stores(self.history(u)[0]));
                }
                assert(all@.len() > 0);
            }
        }
        let mut out: Vec<Saying> = Vec::new();
        self.take_tier(&all, 0, limit, &mut out);
        self.take_tier(&all, 1, limit, &mut out);
        self.take_tier(&all, 2, limit, &mut out);
        proof {
            let r = out@;
            assert forall|m: int| 0 <= m < all@.len() implies self.tier(#[trigger] all@[m]) < 3 by {}
            assert forall|x: int| 0 <= x < r.len() implies self.stores(#[trigger] r[x])
                && (self.cache_entry(key_of(r[x])) is Some ==> self.cache_entry(key_of(r[x])) == Some(r[x])) by {
                let m = choose|m: int| 0 <= m < all@.len() && all@[m] == r[x];
                assert(self.stores(all@[m]));
                if self.cache_entry(key_of(all@[m])) is Some {
                }
            }
            assert forall|i: int, x: Saying|
                0 <= i < r.len() && (#[trigger] r[i]).source == SayingSource::LLM
                    && #[trigger] self.stores(x) && key_of(x) == key_of(r[i]) implies x.source
                == SayingSource::LLM by {
                let m = choose|m: int| 0 <= m < all@.len() && all@[m] == r[i];
                if self.in_cache(x) {
                    let k = choose|k: (Option<Seq<char>>, Seq<char>)| #[trigger] self.cache_entry(k)
                        == Some(x);
                    self.lemma_cache_entry(k);
                    assert(self.cache_entry(key_of(all@[m])) is Some);
                } else {
                    let (u, j) = choose|u: Seq<char>, j: int|
                        0 <= j < self.history(u).len() && #[trigger] self.history(u)[j] == x;
                    let c = choose|c: int| 0 <= c < self.users@.len() && self.users@[c].user_id@ == u;
                    assert(self.users@[c].sayings@[j] == x);
                    assert(key_of(self.users@[c].sayings@[j]) == key_of(all@[m]));
                }
            }
            assert forall|i: int, k: (Option<Seq<char>>, Seq<char>)|
                0 <= i < r.len() && !self.in_cache(#[trigger] r[i]) && (#[trigger] self.cache_entry(k)) is Some
                    implies r.contains(self.cache_entry(k)->Some_0) by {
                self.lemma_cache_entry(k);
                let g = self.cache_entry(k)->Some_0;
                let c = choose|c: int| 0 <= c < self.global_cache@.len() && self.global_cache@[c] == g;
                assert(key_held(after_cache, key_of(self.global_cache@[c])));
                let e = choose|e: int| 0 <= e < all@.len() && key_of(#[trigger] all@[e]) == k;
                assert(self.cache_entry(key_of(all@[e])) is Some);
                assert(all@[e] == g);
                if self.cache_entry(key_of(r[i])) is Some {
                    assert(self.cache_entry(key_of(r[i])) == Some(r[i]));
                    assert(self.in_cache(r[i]));
                }
                assert(self.tier(all@[e]) < self.tier(r[i]));
            }
            assert forall|i: int, x: Saying|
                0 <= i < r.len() && (#[trigger] r[i]).source == SayingSource::LLM
                    && #[trigger] self.stores(x) && x.source != SayingSource::LLM implies key_held(r, key_of(x)) by {
                let e = choose|e: int| 0 <= e < all@.len() && key_of(#[trigger] all@[e]) == key_of(x);
                if self.cache_entry(key_of(r[i])) is Some {
                    self.lemma_cache_entry(key_of(r[i]));
                }
                if self.cache_entry(key_of(all@[e])) is None && all@[e].source == SayingSource::LLM {
                    if self.in_cache(x) {
                        let k = choose|k: (Option<Seq<char>>, Seq<char>)| #[trigger] self.cache_entry(k)
                            == Some(x);
                        self.lemma_cache_entry(k);
                    } else {
                        let (u, j) = choose|u: Seq<char>, j: int|
                            0 <= j < self.history(u).len() && #[trigger] self.history(u)[j] == x;
                        let c = choose|c: int| 0 <= c < self.users@.len() && self.users@[c].user_id@ == u;
                        assert(self.users@[c].sayings@[j] == x);
                        assert(key_of(self.users@[c].sayings@[j]) == key_of(all@[e]));
                    }
                }
                assert(self.tier(all@[e]) < self.tier(r[i]));
                assert(r.contains(all@[e]));
                let q = choose|q: int| 0 <= q < r.len() && r[q] == all@[e];
                assert(key_of(r[q]) == key_of(x));
            }
            if r.len() < limit {
                assert forall|x: Saying| #[trigger] self.stores(x) implies key_held(r, key_of(x)) by {
                    let e = choose|e: int| 0 <= e < all@.len() && key_of(#[trigger] all@[e]) == key_of(x);
                    assert(r.contains(all@[e]));
                    let q = choose|q: int| 0 <= q < r.len() && r[q] == all@[e];
                    assert(key_of(r[q]) == key_of(x));
                }
                if limit > 0 && !self.is_empty() {
                    assert(r.contains(all@[0]));
                }
            }
        }
        out
    }

    /// Puts `saying` back into the history of `user_id`, in its newest-first
    /// place, leaving the global cache alone; used to rebuild a store from
    /// saved histories.
    pub fn restore_history(&mut self, user_id: &str, saying: Saying)
        requires
            old(self).wf(),
        ensures
            final(self).wf(),
            inserted_newest_first(old(self).history(user_id@), final(self).history(user_id@), saying),
            forall|u: Seq<char>| u != user_id@ ==> final(self).history(u) == old(self).history(u),
            forall|k: (Option<Seq<char>>, Seq<char>)| #[trigger] final(self).cache_entry(k) == old(self).cache_entry(k),
    {
        let ghost pre = *self;
        self.record_in_history(user_id, saying);
        assert forall|k: (Option<Seq<char>>, Seq<char>)| #[trigger] self.cache_entry(k) == pre.cache_entry(k) by {
        }
    }

    /// Puts a vetted `saying` back into the global cache under its key,
    /// replacing any entry there; used to rebuild a store from a saved cache.
    pub fn restore_cache_entry(&mut self, saying: Saying)
        requires
            old(self).wf(),
            saying.source != SayingSource::LLM,
        ensures
            final(self).wf(),
            forall|u: Seq<char>| #[trigger] final(self).history(u) == old(self).history(u),
            forall|k: (Option<Seq<char>>, Seq<char>)|
                #[trigger] final(self).cache_entry(k) == if k == key_of(saying) {
                    Some(saying)
                } else {
                    old(self).cache_entry(k)
                },
    {
        let ghost pre = *self;
        self.put_in_cache(saying);
        assert forall|u: Seq<char>| #[trigger] self.history(u) == pre.history(u) by {
        }
    }
}

} // verus!
