//! Caches: a key/value store with per-entry time-to-live, and a small owned
//! text buffer.
//!
//! A `TtlCache` entry is *valid* at time `t` exactly when `t` lies strictly
//! before `stored_at + ttl`; an invalid entry is treated as absent by `get`
//! even before `evict_expired` physically removes it. Callers supply the
//! current time.

use vstd::prelude::*;

verus! {

/// One stored value with the time it was stored and how long it lives.
#[derive(Clone, Debug)]
pub struct CacheEntry {
    pub value: String,
    pub stored_at: u64,
    pub ttl: u64,
}

/// Whether entry `e` is still valid at time `now`: strictly less than `ttl`
/// time has passed since it was stored.
pub open spec fn valid_at(e: CacheEntry, now: u64) -> bool {
    now - e.stored_at < e.ttl
}

/// The entries of `s` that are valid at `now`, in order.
pub open spec fn valid_of(s: Seq<(u64, CacheEntry)>, now: u64) -> Seq<(u64, CacheEntry)>
    decreases s.len(),
{
    if s.len() == 0 {
        Seq::empty()
    } else {
        let rest = valid_of(s.drop_last(), now);
        if valid_at(s.last().1, now) {
            rest.push(s.last())
        } else {
            rest
        }
    }
}

/// The mathematical content of a TTL cache: keyed entries in storage order.
#[verifier::ext_equal]
pub ghost struct CacheView {
    pub entries: Seq<(u64, CacheEntry)>,
}

impl CacheView {
    /// Keys are unique.
    pub open spec fn wf(self) -> bool {
        forall|i: int, j: int|
            0 <= i < j < self.entries.len() ==> (#[trigger] self.entries[i]).0 != (
            #[trigger] self.entries[j]).0
    }

    pub open spec fn has_key(self, key: u64) -> bool {
        exists|i: int| 0 <= i < self.entries.len() && (#[trigger] self.entries[i]).0 == key
    }

    /// The index holding `key`; meaningful only when `has_key` holds and,
    /// under `wf`, unique.
    pub open spec fn key_at(self, key: u64) -> int {
        choose|i: int| 0 <= i < self.entries.len() && (#[trigger] self.entries[i]).0 == key
    }

    /// The entry stored under `key`, whether or not it is still valid.
    pub open spec fn lookup(self, key: u64) -> Option<CacheEntry> {
        if self.has_key(key) {
            Some(self.entries[self.key_at(key)].1)
        } else {
            None
        }
    }

    /// What `get` answers at time `now`: the stored value, if the key holds
    /// an entry still valid.
    pub open spec fn spec_get(self, key: u64, now: u64) -> Option<String> {
        match self.lookup(key) {
            Some(e) => if valid_at(e, now) {
                Some(e.value)
            } else {
                None
            },
            None => None,
        }
    }

    /// What `set` leaves behind: the entry under `key` is overwritten in
    /// place, or appended when the key is new.
    pub open spec fn spec_set(self, key: u64, value: String, ttl: u64, now: u64) -> CacheView {
        let e = CacheEntry { value: value, stored_at: now, ttl: ttl };
        if self.has_key(key) {
            CacheView { entries: self.entries.update(self.key_at(key), (key, e)) }
        } else {
            CacheView { entries: self.entries.push((key, e)) }
        }
    }
}

/// A key/value store whose entries expire `ttl` time after they are stored.
pub struct TtlCache {
    entries: Vec<(u64, CacheEntry)>,
}

impl View for TtlCache {
    type V = CacheView;

    closed spec fn view(&self) -> CacheView {
        CacheView { entries: self.entries@ }
    }
}

impl TtlCache {
    /// An empty cache.
    pub fn new() -> (r: TtlCache)
        ensures
            r@.wf(),
            r@.entries.len() == 0,
    {
        TtlCache { entries: Vec::new() }
    }

    /// How many entries are physically stored, expired ones included.
    pub fn len(&self) -> (r: usize)
        ensures
            r == self@.entries.len(),
    {
        self.entries.len()
    }

    /// The index of `key` in the backing store, if present.
    fn find_index(&self, key: u64) -> (r: Option<usize>)
        requires
            self@.wf(),
        ensures
            match r {
                Some(i) => i < self@.entries.len() && self@.entries[i as int].0 == key
                    && self@.has_key(key) && self@.key_at(key) == i,
                None => !self@.has_key(key),
            },
    {
        let n = self.entries.len();
        let mut i: usize = 0;
        while i < n
            invariant
                0 <= i <= n,
                n == self@.entries.len(),
                self@.wf(),
                forall|j: int| 0 <= j < i ==> (#[trigger] self@.entries[j]).0 != key,
            decreases n - i,
        {
            if self.entries[i].0 == key {
                return Some(i);
            }
            i = i + 1;
        }
        None
    }

    /// The value stored under `key`, if one is there and still valid at
    /// `now`. Nothing is removed on a miss.
    pub fn get(&self, key: u64, now: u64) -> (r: Option<String>)
        requires
            self@.wf(),
        ensures
            r == self@.spec_get(key, now),
    {
        match self.find_index(key) {
            Some(i) => {
                let e = &self.entries[i].1;
                let fresh = if now >= e.stored_at {
                    now - e.stored_at < e.ttl
                } else {
                    true
                };
                if fresh {
                    Some(e.value.clone())
                } else {
                    None
                }
            },
            None => None,
        }
    }

    /// Stores `value` under `key` with time-to-live `ttl`, unconditionally
    /// overwriting and restamping any entry already there. No other key is
    /// touched.
    pub fn set(&mut self, key: u64, value: String, ttl: u64, now: u64)
        requires
            old(self)@.wf(),
        ensures
            final(self)@.wf(),
            final(self)@ == old(self)@.spec_set(key, value, ttl, now),
            final(self)@.lookup(key) == Some(CacheEntry { value: value, stored_at: now, ttl: ttl }),
            forall|k2: u64| k2 != key ==> final(self)@.lookup(k2) == old(self)@.lookup(k2),
    {
        let ghost gvalue = value;
        let e = CacheEntry { value, stored_at: now, ttl };
        match self.find_index(key) {
            Some(i) => {
                self.entries[i] = (key, e);
            },
            None => {
                self.entries.push((key, e));
            },
        }
        proof {
            assert(self@ =~= old(self)@.spec_set(key, gvalue, ttl, now));
            lemma_set_shape(old(self)@, key, gvalue, ttl, now);
        }
    }

    /// Sweeps the whole store and removes every entry no longer valid at
    /// `now`. Returns how many entries there were before and how many —
    /// all of them valid — are left.
    #[verifier::rlimit(50)]
    pub fn evict_expired(&mut self, now: u64) -> (r: (usize, usize))
        requires
            old(self)@.wf(),
        ensures
            final(self)@.wf(),
            final(self)@.entries == valid_of(old(self)@.entries, now),
            r.0 == old(self)@.entries.len(),
            r.1 == final(self)@.entries.len(),
            forall|i: int|
                0 <= i < final(self)@.entries.len() ==> valid_at(
                    (#[trigger] final(self)@.entries[i]).1,
                    now,
                ),
    {
        let before = self.entries.len();
        let n = self.entries.len();
        let mut kept: Vec<(u64, CacheEntry)> = Vec::new();
        let mut i: usize = 0;
        while i < n
            invariant
                0 <= i <= n,
                n == self@.entries.len(),
                self == old(self),
                kept@ == valid_of(self@.entries.subrange(0, i as int), now),
            decreases n - i,
        {
            proof {
                assert(self@.entries.subrange(0, i + 1).drop_last() =~= self@.entries.subrange(
                    0,
                    i as int,
                ));
            }
            let e = &self.entries[i];
            let fresh = if now >= e.1.stored_at {
                now - e.1.stored_at < e.1.ttl
            } else {
                true
            };
            if fresh {
                let pair = (e.0, CacheEntry { value: e.1.value.clone(), stored_at: e.1.stored_at, ttl: e.1.ttl });
                proof {
                    assert(pair == self@.entries[i as int]);
                }
                kept.push(pair);
            }
            i = i + 1;
        }
        proof {
            assert(self@.entries.subrange(0, n as int) =~= self@.entries);
            lemma_valid_of_wf(old(self)@.entries, now);
        }
        self.entries = kept;
        let after = self.entries.len();
        (before, after)
    }

    /// How many entries are stored, and how many of them are still valid at
    /// `now`; nothing is changed.
    pub fn cache_stats(&self, now: u64) -> (r: (usize, usize))
        requires
            self@.wf(),
        ensures
            r.0 == self@.entries.len(),
            r.1 == valid_of(self@.entries, now).len(),
    {
        let n = self.entries.len();
        let mut valid: usize = 0;
        let mut i: usize = 0;
        while i < n
            invariant
                0 <= i <= n,
                n == self@.entries.len(),
                valid == valid_of(self@.entries.subrange(0, i as int), now).len(),
                valid <= i,
            decreases n - i,
        {
            proof {
                assert(self@.entries.subrange(0, i + 1).drop_last() =~= self@.entries.subrange(
                    0,
                    i as int,
                ));
            }
            let e = &self.entries[i];
            let fresh = if now >= e.1.stored_at {
                now - e.1.stored_at < e.1.ttl
            } else {
                true
            };
            if fresh {
                valid = valid + 1;
            }
            i = i + 1;
        }
        proof {
            assert(self@.entries.subrange(0, n as int) =~= self@.entries);
        }
        (n, valid)
    }

    /// Looks `key` up at time `now`; on a hit the cached value comes back
    /// and nothing changes, on a miss `fetch` is invoked, its result stored
    /// under `key` with time-to-live `ttl` and returned.
    pub fn fetch_with_cache<F: FnOnce(u64) -> String>(
        &mut self,
        key: u64,
        fetch: F,
        ttl: u64,
        now: u64,
    ) -> (r: String)
        requires
            old(self)@.wf(),
            call_requires(fetch, (key,)),
        ensures
            final(self)@.wf(),
            old(self)@.spec_get(key, now) matches Some(v) ==> r == v && final(self)@ == old(self)@,
            old(self)@.spec_get(key, now) is None ==> call_ensures(fetch, (key,), r)
                && final(self)@ == old(self)@.spec_set(key, r, ttl, now),
    {
        match self.get(key, now) {
            Some(v) => v,
            None => {
                let fetched = fetch(key);
                let copy = fetched.clone();
                self.set(key, copy, ttl, now);
                fetched
            },
        }
    }
}

/// A small owned text buffer: it takes ownership of a piece of text and
/// hands out views and edits of it.
#[derive(Debug)]
pub struct Cache {
    data: String,
}

impl View for Cache {
    type V = Seq<char>;

    closed spec fn view(&self) -> Seq<char> {
        self.data@
    }
}

impl Cache {
    /// A cache owning `data`.
    pub fn new(data: String) -> (r: Cache)
        ensures
            r@ == data@,
    {
        Cache { data }
    }

    /// A read-only view of the buffered text.
    pub fn get_data(&self) -> (r: &str)
        ensures
            r@ == self@,
    {
        self.data.as_str()
    }

    /// Replaces the buffered text.
    pub fn update_data(&mut self, new_data: String)
        ensures
            final(self)@ == new_data@,
    {
        self.data = new_data;
    }

    /// Appends to the buffered text.
    pub fn append_data(&mut self, additional_data: &str)
        ensures
            final(self)@ == old(self)@ + additional_data@,
    {
        self.data.append(additional_data);
    }

    /// Empties the buffer.
    pub fn clear(&mut self)
        ensures
            final(self)@ == Seq::<char>::empty(),
    {
        self.data = String::new();
    }

    /// Whether the buffer holds nothing.
    pub fn is_empty(&self) -> (r: bool)
        ensures
            r == (self@.len() == 0),
    {
        self.data.as_str().is_empty()
    }

    /// How many characters the buffer holds.
    pub fn len(&self) -> (r: usize)
        ensures
            r == self@.len(),
    {
        self.data.as_str().unicode_len()
    }
}

/// Overwriting or appending under one key keeps keys unique, puts the new
/// entry under that key, and leaves every other key's entry alone.
pub proof fn lemma_set_shape(pre: CacheView, key: u64, value: String, ttl: u64, now: u64)
    requires
        pre.wf(),
    ensures
        pre.spec_set(key, value, ttl, now).wf(),
        pre.spec_set(key, value, ttl, now).lookup(key) == Some(
            CacheEntry { value: value, stored_at: now, ttl: ttl },
        ),
        forall|k2: u64|
            k2 != key ==> pre.spec_set(key, value, ttl, now).lookup(k2) == pre.lookup(k2),
{
    let post = pre.spec_set(key, value, ttl, now);
    assert(post.has_key(key)) by {
        if pre.has_key(key) {
            assert(post.entries[pre.key_at(key)].0 == key);
        } else {
            assert(post.entries[pre.entries.len() as int].0 == key);
        }
    }
    assert forall|k2: u64| k2 != key implies post.lookup(k2) == pre.lookup(k2) by {
        if pre.has_key(k2) {
            let i = pre.key_at(k2);
            assert(post.entries[i].0 == k2 && post.entries[i].1 == pre.entries[i].1);
            assert(post.has_key(k2));
            assert(post.entries[post.key_at(k2)] == post.entries[i]);
        } else {
            if post.has_key(k2) {
                let i = post.key_at(k2);
                assert(pre.entries[i].0 == k2);
            }
        }
    }
}

/// A value stored at `t0` with time-to-live `ttl` is served for every time
/// `t` with `t0 <= t < t0 + ttl`, and reported missing from `t0 + ttl` on.
pub proof fn lemma_entry_lifetime(v: CacheView, key: u64, value: String, ttl: u64, t0: u64, t: u64)
    requires
        v.wf(),
        t0 <= t,
    ensures
        t < t0 + ttl ==> v.spec_set(key, value, ttl, t0).spec_get(key, t) == Some(value),
        t >= t0 + ttl ==> v.spec_set(key, value, ttl, t0).spec_get(key, t) is None,
{
    lemma_set_shape(v, key, value, ttl, t0);
}

/// Entries stored with a time-to-live of zero are all swept out by an
/// eviction at any time not before they were stored: none of them is valid.
pub proof fn lemma_zero_ttl_all_evicted(s: Seq<(u64, CacheEntry)>, now: u64)
    requires
        forall|i: int|
            0 <= i < s.len() ==> (#[trigger] s[i]).1.ttl == 0 && s[i].1.stored_at <= now,
    ensures
        valid_of(s, now) == Seq::<(u64, CacheEntry)>::empty(),
    decreases s.len(),
{
    if s.len() > 0 {
        assert forall|i: int|
            0 <= i < s.drop_last().len() implies (#[trigger] s.drop_last()[i]).1.ttl == 0
            && s.drop_last()[i].1.stored_at <= now by {
            assert(s.drop_last()[i] == s[i]);
        }
        lemma_zero_ttl_all_evicted(s.drop_last(), now);
        assert(valid_of(s, now) =~= Seq::<(u64, CacheEntry)>::empty());
    }
}

/// Pruning the invalid entries never lengthens the store, keeps exactly
/// the valid entries that stood in it, and keeps unique keys unique.
pub proof fn lemma_valid_of_wf(s: Seq<(u64, CacheEntry)>, now: u64)
    ensures
        valid_of(s, now).len() <= s.len(),
        forall|i: int|
            0 <= i < valid_of(s, now).len() ==> valid_at((#[trigger] valid_of(s, now)[i]).1, now),
        forall|i: int|
            0 <= i < valid_of(s, now).len() ==> exists|j: int|
                0 <= j < s.len() && #[trigger] valid_of(s, now)[i] == s[j],
        forall|j: int|
            0 <= j < s.len() && valid_at((#[trigger] s[j]).1, now) ==> exists|i: int|
                0 <= i < valid_of(s, now).len() && valid_of(s, now)[i] == s[j],
        (forall|i: int, j: int| 0 <= i < j < s.len() ==> (#[trigger] s[i]).0 != (#[trigger] s[j]).0)
            ==> forall|i: int, j: int|
            0 <= i < j < valid_of(s, now).len() ==> (#[trigger] valid_of(s, now)[i]).0 != (
            #[trigger] valid_of(s, now)[j]).0,
    decreases s.len(),
{
    if s.len() > 0 {
        lemma_valid_of_wf(s.drop_last(), now);
        let prev = valid_of(s.drop_last(), now);
        assert forall|i: int|
            0 <= i < valid_of(s, now).len() implies exists|j: int|
            0 <= j < s.len() && #[trigger] valid_of(s, now)[i] == s[j] by {
            if i < prev.len() {
                let j = choose|j: int| 0 <= j < s.drop_last().len() && prev[i] == s.drop_last()[j];
                assert(valid_of(s, now)[i] == s[j]);
            } else {
                assert(valid_of(s, now)[i] == s[s.len() - 1]);
            }
        }
        assert forall|j: int|
            0 <= j < s.len() && valid_at((#[trigger] s[j]).1, now) implies exists|i: int|
            0 <= i < valid_of(s, now).len() && valid_of(s, now)[i] == s[j] by {
            if j < s.len() - 1 {
                assert(s.drop_last()[j] == s[j]);
                let i = choose|i: int| 0 <= i < prev.len() && prev[i] == s.drop_last()[j];
                assert(valid_of(s, now)[i] == s[j]);
            } else {
                assert(valid_of(s, now)[valid_of(s, now).len() - 1] == s[j]);
            }
        }
        if forall|i: int, j: int| 0 <= i < j < s.len() ==> (#[trigger] s[i]).0 != (#[trigger] s[j]).0 {
            assert forall|i: int, j: int|
                0 <= i < j < s.drop_last().len() implies (#[trigger] s.drop_last()[i]).0 != (
            #[trigger] s.drop_last()[j]).0 by {
                assert(s.drop_last()[i] == s[i] && s.drop_last()[j] == s[j]);
            }
            if valid_at(s.last().1, now) {
                assert forall|i: int|
                    0 <= i < prev.len() implies (#[trigger] prev[i]).0 != s.last().0 by {
                    let j = choose|j: int|
                        0 <= j < s.drop_last().len() && prev[i] == s.drop_last()[j];
                    assert(prev[i] == s[j] && j < s.len() - 1);
                    assert(s[j].0 != s[s.len() - 1].0);
                }
            }
        }
    }
}

/// Physically sweeping the expired entries out changes no answer: an
/// entry that is no longer valid already counts as absent before the
/// sweep.
pub proof fn lemma_eviction_preserves_answers(v: CacheView, now: u64)
    requires
        v.wf(),
    ensures
        forall|key: u64| #[trigger] (CacheView { entries: valid_of(v.entries, now) }).spec_get(
            key,
            now,
        ) == v.spec_get(key, now),
{
    lemma_valid_of_wf(v.entries, now);
    let w = CacheView { entries: valid_of(v.entries, now) };
    assert forall|key: u64| #[trigger] w.spec_get(key, now) == v.spec_get(key, now) by {
        if v.has_key(key) {
            let j = v.key_at(key);
            let e = v.entries[j].1;
            if valid_at(e, now) {
                let i = choose|i: int|
                    0 <= i < w.entries.len() && w.entries[i] == v.entries[j];
                assert(w.has_key(key));
                let i2 = w.key_at(key);
                if i2 != i {
                    let jj = choose|jj: int|
                        0 <= jj < v.entries.len() && w.entries[i2] == v.entries[jj];
                    assert(v.entries[jj].0 == key);
                    assert(jj == j);
                }
                assert(w.entries[i2] == v.entries[j]);
            } else {
                if w.has_key(key) {
                    let i2 = w.key_at(key);
                    let jj = choose|jj: int|
                        0 <= jj < v.entries.len() && w.entries[i2] == v.entries[jj];
                    assert(v.entries[jj].0 == key);
                    assert(jj == j);
                    assert(valid_at(w.entries[i2].1, now));
                }
                assert(!w.has_key(key));
            }
        } else {
            if w.has_key(key) {
                let i2 = w.key_at(key);
                let jj = choose|jj: int|
                    0 <= jj < v.entries.len() && w.entries[i2] == v.entries[jj];
                assert(v.entries[jj].0 == key);
            }
            assert(!w.has_key(key));
        }
    }
}

} // verus!
