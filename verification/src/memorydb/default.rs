//! The in-process key-value backend: a map of string keys to string values
//! with optional absolute expiry timestamps, lazy removal of expired
//! entries on the read path, and, when a capacity is configured,
//! eviction of expired entries first and earliest-expiring entries second.

use vstd::prelude::*;

use crate::error::Error;
use crate::memorydb::interface::{entry_valid_at, evict_ok, key_set, SEntry};
use crate::pattern::glob_match;
use crate::strutil::str_eq;

verus! {

use vstd::multiset::Multiset;

broadcast use vstd::multiset::group_multiset_axioms;

/// One stored value with its optional absolute expiry timestamp (seconds).
pub struct Data {
    pub value: String,
    pub expiry: Option<i64>,
}

impl View for Data {
    type V = SEntry;

    open spec fn view(&self) -> SEntry {
        SEntry {
            value: self.value@,
            expiry: match self.expiry {
                Some(x) => Some(x as int),
                None => None,
            },
        }
    }
}

impl Data {
    /// Turns a relative time-to-live into an absolute expiry timestamp,
    /// refusing arithmetic that would overflow.
    pub fn parse_ttl(now: i64, ttl: Option<i64>) -> (r: Result<Option<i64>, Error>)
        ensures
            match r {
                Ok(None) => ttl is None,
                Ok(Some(e)) => ttl is Some && e == now + ttl->0,
                Err(e) => e == Error::Timestamp && ttl is Some && !(i64::MIN <= now + ttl->0
                    <= i64::MAX),
            },
    {
        match ttl {
            None => Ok(None),
            Some(t) => match now.checked_add(t) {
                Some(e) => Ok(Some(e)),
                None => Err(Error::Timestamp),
            },
        }
    }

    /// A fresh entry whose expiry, if any, is `now` + `ttl`.
    pub fn new(value: String, ttl: Option<i64>, now: i64) -> (r: Result<Data, Error>)
        ensures
            match r {
                Ok(d) => d@.value == value@ && match ttl {
                    None => d@.expiry is None,
                    Some(t) => d@.expiry == Some(now + t),
                },
                Err(e) => e == Error::Timestamp && ttl is Some && !(i64::MIN <= now + ttl->0
                    <= i64::MAX),
            },
    {
        let expiry = Self::parse_ttl(now, ttl)?;
        Ok(Data { value, expiry })
    }

    /// Replaces the expiry with `now` + `ttl`; the value is untouched.
    pub fn set_ttl(&mut self, now: i64, ttl: Option<i64>) -> (r: Result<(), Error>)
        ensures
            final(self)@.value == old(self)@.value,
            match r {
                Ok(()) => match ttl {
                    None => final(self)@.expiry is None,
                    Some(t) => final(self)@.expiry == Some(now + t),
                },
                Err(e) => e == Error::Timestamp && final(self)@ == old(self)@ && ttl is Some && !(
                i64::MIN <= now + ttl->0 <= i64::MAX),
            },
    {
        let expiry = Self::parse_ttl(now, ttl)?;
        self.expiry = expiry;
        Ok(())
    }

    /// The remaining time-to-live at `now`, for an entry that has an expiry.
    pub fn get_ttl(&self, now: i64) -> (r: Result<Option<i64>, Error>)
        ensures
            match r {
                Ok(None) => self@.expiry is None,
                Ok(Some(t)) => self@.expiry is Some && t == self@.expiry->0 - now,
                Err(e) => e == Error::Timestamp && self@.expiry is Some && !(i64::MIN
                    <= self@.expiry->0 - now <= i64::MAX),
            },
    {
        match self.expiry {
            None => Ok(None),
            Some(x) => match x.checked_sub(now) {
                Some(t) => Ok(Some(t)),
                None => Err(Error::Timestamp),
            },
        }
    }

    /// Whether the entry is still live at `now`.
    pub fn valid(&self, now: i64) -> (r: bool)
        ensures
            r == entry_valid_at(self@, now as int),
    {
        match self.expiry {
            Some(x) => x > now,
            None => true,
        }
    }
}

/// The map denoted by an association list of entries, later bindings
/// winning.
pub open spec fn kv_map(s: Seq<(String, Data)>) -> Map<Seq<char>, SEntry>
    decreases s.len(),
{
    if s.len() == 0 {
        Map::empty()
    } else {
        kv_map(s.drop_last()).insert(s.last().0@, s.last().1@)
    }
}

/// No two entries share a key.
pub open spec fn keys_unique(s: Seq<(String, Data)>) -> bool {
    forall|i: int, j: int| 0 <= i < j < s.len() ==> (#[trigger] s[i]).0@ != (#[trigger] s[j]).0@
}

/// The eviction batch size for a store of capacity `c`: a tenth of the
/// capacity, at least one, so eviction cost is amortized over writes.
pub open spec fn eviction_batch(c: int) -> int {
    if c / 10 < 1 {
        1
    } else {
        c / 10
    }
}

/// `post` is `pre` after the eviction pass of a write at time `now` with
/// batch size `num`: an eviction outcome (`evict_ok`) that stops at the
/// batch — fewer than `num` evictions only once no surviving entry
/// carries an expiry, more than `num` only to flush expired entries.
pub open spec fn evicted_batch_ok(
    pre: Map<Seq<char>, SEntry>,
    post: Map<Seq<char>, SEntry>,
    now: int,
    num: int,
) -> bool {
    &&& evict_ok(pre, post, now)
    &&& pre.dom().len() < post.dom().len() + num ==> (forall|k: Seq<char>|
        #[trigger] post.contains_key(k) ==> post[k].expiry is None)
    &&& pre.dom().len() > post.dom().len() + num ==> (forall|k: Seq<char>|
        #![trigger pre.contains_key(k), post.contains_key(k)]
        pre.contains_key(k) && !post.contains_key(k) ==> !entry_valid_at(pre[k], now))
}

proof fn lemma_kv_map_contains(s: Seq<(String, Data)>, k: Seq<char>)
    ensures
        kv_map(s).contains_key(k) <==> exists|i: int| 0 <= i < s.len() && (#[trigger] s[i]).0@
            == k,
    decreases s.len(),
{
    if s.len() > 0 {
        lemma_kv_map_contains(s.drop_last(), k);
        if s.last().0@ == k {
            assert((s[s.len() - 1]).0@ == k);
        } else {
            let dl = s.drop_last();
            if kv_map(s).contains_key(k) {
                let i = choose|i: int| 0 <= i < dl.len() && (#[trigger] dl[i]).0@ == k;
                assert((s[i]).0@ == k);
            }
            if exists|i: int| 0 <= i < s.len() && (#[trigger] s[i]).0@ == k {
                let i = choose|i: int| 0 <= i < s.len() && (#[trigger] s[i]).0@ == k;
                assert(i < s.len() - 1);
                assert((dl[i]).0@ == k);
            }
        }
    }
}

proof fn lemma_kv_map_index(s: Seq<(String, Data)>, i: int)
    requires
        keys_unique(s),
        0 <= i < s.len(),
    ensures
        kv_map(s).contains_key(s[i].0@),
        kv_map(s)[s[i].0@] == s[i].1@,
    decreases s.len(),
{
    if i == s.len() - 1 {
    } else {
        assert(s.drop_last()[i] == s[i]);
        lemma_kv_map_index(s.drop_last(), i);
        assert(s[i].0@ != s.last().0@);
    }
}

proof fn lemma_kv_map_len(s: Seq<(String, Data)>)
    requires
        keys_unique(s),
    ensures
        kv_map(s).dom().finite(),
        kv_map(s).dom().len() == s.len(),
    decreases s.len(),
{
    if s.len() > 0 {
        lemma_kv_map_len(s.drop_last());
        lemma_kv_map_contains(s.drop_last(), s.last().0@);
        assert(!kv_map(s.drop_last()).contains_key(s.last().0@));
    }
}

proof fn lemma_kv_map_remove(s: Seq<(String, Data)>, i: int)
    requires
        keys_unique(s),
        0 <= i < s.len(),
    ensures
        keys_unique(s.remove(i)),
        kv_map(s.remove(i)) == kv_map(s).remove(s[i].0@),
    decreases s.len(),
{
    assert(keys_unique(s.remove(i)));
    if i == s.len() - 1 {
        assert(s.remove(i) =~= s.drop_last());
        lemma_kv_map_contains(s.drop_last(), s.last().0@);
        assert(!kv_map(s.drop_last()).contains_key(s.last().0@));
        assert(kv_map(s).remove(s[i].0@) =~= kv_map(s.drop_last()));
    } else {
        assert(s.remove(i).drop_last() =~= s.drop_last().remove(i));
        assert(s.remove(i).last() == s.last());
        lemma_kv_map_remove(s.drop_last(), i);
        assert(s.drop_last()[i] == s[i]);
        assert(s[i].0@ != s.last().0@);
        assert(kv_map(s.remove(i)) =~= kv_map(s).remove(s[i].0@));
    }
}

proof fn lemma_kv_map_update(s: Seq<(String, Data)>, i: int, p: (String, Data))
    requires
        keys_unique(s),
        0 <= i < s.len(),
        p.0@ == s[i].0@,
    ensures
        keys_unique(s.update(i, p)),
        kv_map(s.update(i, p)) == kv_map(s).insert(p.0@, p.1@),
    decreases s.len(),
{
    assert(keys_unique(s.update(i, p)));
    if i == s.len() - 1 {
        assert(s.update(i, p).drop_last() =~= s.drop_last());
        assert(s.update(i, p).last() == p);
        assert(kv_map(s.update(i, p)) =~= kv_map(s).insert(p.0@, p.1@));
    } else {
        assert(s.update(i, p).drop_last() =~= s.drop_last().update(i, p));
        assert(s.update(i, p).last() == s.last());
        assert(s.drop_last()[i] == s[i]);
        lemma_kv_map_update(s.drop_last(), i, p);
        assert(s[i].0@ != s.last().0@);
        assert(kv_map(s.update(i, p)) =~= kv_map(s).insert(p.0@, p.1@));
    }
}

proof fn lemma_kv_map_push(s: Seq<(String, Data)>, p: (String, Data))
    requires
        keys_unique(s),
        forall|i: int| 0 <= i < s.len() ==> (#[trigger] s[i]).0@ != p.0@,
    ensures
        keys_unique(s.push(p)),
        kv_map(s.push(p)) == kv_map(s).insert(p.0@, p.1@),
{
    assert(s.push(p).drop_last() =~= s);
    assert(s.push(p).last() == p);
    assert(forall|i: int| 0 <= i < s.len() ==> (#[trigger] s.push(p)[i]) == s[i]);
}

/// A queue of (tag, expiry) pairs that hands out the pair with the least
/// expiry first. It wraps a max-priority queue on `Reverse`d expiries; the
/// tags index a side table of key names kept by the eviction pass.
#[verifier::external_body]
pub struct TtlQueue {
    inner: priority_queue::PriorityQueue<u64, core::cmp::Reverse<i64>>,
}

/// What the eviction queue holds: its (tag, expiry) pairs.
pub uninterp spec fn queue_contents(q: &TtlQueue) -> Multiset<(u64, int)>;

/// Relies on priority_queue::PriorityQueue::new: an empty queue.
#[verifier::external_body]
fn ttl_queue_new() -> (q: TtlQueue)
    ensures
        queue_contents(&q) == Multiset::<(u64, int)>::empty(),
{
    TtlQueue { inner: priority_queue::PriorityQueue::new() }
}

/// Relies on priority_queue::PriorityQueue::push: inserts the item with its
/// priority. Tags are never reused, so the priority-update case of `push`
/// cannot arise.
#[verifier::external_body]
fn ttl_queue_push(q: &mut TtlQueue, tag: u64, expiry: i64)
    requires
        forall|p: (u64, int)| queue_contents(old(q)).count(p) > 0 ==> p.0 != tag,
    ensures
        queue_contents(final(q)) == queue_contents(old(q)).insert((tag, expiry as int)),
{
    q.inner.push(tag, core::cmp::Reverse(expiry));
}

/// Relies on priority_queue::PriorityQueue::pop: removes and returns an
/// item with the greatest priority, so under `Reverse` one with the least
/// expiry; `None` exactly when the queue is empty. Which of several items
/// with equal expiry comes out is not specified.
#[verifier::external_body]
fn ttl_queue_pop(q: &mut TtlQueue) -> (r: Option<(u64, i64)>)
    ensures
        match r {
            None => queue_contents(old(q)) == Multiset::<(u64, int)>::empty() && queue_contents(
                final(q),
            ) == queue_contents(old(q)),
            Some((tag, e)) => {
                &&& queue_contents(old(q)).count((tag, e as int)) > 0
                &&& queue_contents(final(q)) == queue_contents(old(q)).remove((tag, e as int))
                &&& forall|p: (u64, int)| queue_contents(old(q)).count(p) > 0 ==> e as int <= p.1
            },
        },
{
    match q.inner.pop() {
        Some((tag, core::cmp::Reverse(e))) => Some((tag, e)),
        None => None,
    }
}

/// The in-process backend: an association list of entries with unique keys,
/// an optional capacity bound, and the specification-only record of the
/// time-to-live each key was last written with.
pub struct DefaultBackend {
    entries: Vec<(String, Data)>,
    capacity: Option<usize>,
    requested: Ghost<Map<Seq<char>, int>>,
}

impl View for DefaultBackend {
    type V = Map<Seq<char>, SEntry>;

    closed spec fn view(&self) -> Map<Seq<char>, SEntry> {
        kv_map(self.entries@)
    }
}

impl DefaultBackend {
    /// Internal well-formedness: entry keys are pairwise distinct, and a
    /// configured capacity is never exceeded.
    pub closed spec fn wf(&self) -> bool {
        keys_unique(self.entries@) && match self.capacity {
            Some(c) => self.entries@.len() <= c,
            None => true,
        }
    }

    /// The configured capacity bound, if any.
    pub closed spec fn cap(&self) -> Option<usize> {
        self.capacity
    }

    /// A backend with no entries; `capacity`, if given, bounds the number
    /// of entries that may be stored at once.
    pub fn new(capacity: Option<usize>) -> (r: Self)
        ensures
            r.wf(),
            r@ == Map::<Seq<char>, SEntry>::empty(),
            r.cap() == capacity,
    {
        DefaultBackend { entries: Vec::new(), capacity, requested: Ghost(Map::empty()) }
    }

    /// The contents of a well-formed backend form a finite map with as many
    /// keys as entries.
    pub proof fn lemma_wf_finite(&self)
        requires
            self.wf(),
        ensures
            self@.dom().finite(),
            self.cap() matches Some(c) ==> self@.dom().len() <= c,
    {
        lemma_kv_map_len(self.entries@);
    }

    /// Every stored expiry is a machine integer: entries hold `i64`
    /// timestamps, so no contents of a well-formed store carry an expiry
    /// outside that range.
    pub proof fn lemma_expiry_representable(&self)
        requires
            self.wf(),
        ensures
            forall|k: Seq<char>|
                #[trigger] self@.contains_key(k) ==> match self@[k].expiry {
                    Some(e) => i64::MIN <= e <= i64::MAX,
                    None => true,
                },
    {
        assert forall|k: Seq<char>| #[trigger] self@.contains_key(k) implies match self@[k].expiry {
            Some(e) => i64::MIN <= e <= i64::MAX,
            None => true,
        } by {
            lemma_kv_map_contains(self.entries@, k);
            let i = choose|i: int|
                0 <= i < self.entries@.len() && (#[trigger] self.entries@[i]).0@ == k;
            lemma_kv_map_index(self.entries@, i);
        }
    }

    fn find_index(&self, key: &String) -> (r: Option<usize>)
        ensures
            match r {
                Some(i) => i < self.entries@.len() && self.entries@[i as int].0@ == key@,
                None => forall|i: int|
                    0 <= i < self.entries@.len() ==> (#[trigger] self.entries@[i]).0@ != key@,
            },
    {
        let n = self.entries.len();
        let mut i: usize = 0;
        while i < n
            invariant
                n == self.entries@.len(),
                i <= n,
                forall|j: int| 0 <= j < i ==> (#[trigger] self.entries@[j]).0@ != key@,
            decreases n - i,
        {
            if str_eq(self.entries[i].0.as_str(), key.as_str()) {
                return Some(i);
            }
            i = i + 1;
        }
        None
    }

    /// Remove the entry stored under `key`, if any; reports whether one was
    /// there.
    fn remove_key(&mut self, key: &String) -> (r: bool)
        requires
            old(self).wf(),
        ensures
            final(self).wf(),
            final(self).cap() == old(self).cap(),
            final(self)@ == old(self)@.remove(key@),
            r == old(self)@.contains_key(key@),
            final(self).entries@.len() == old(self).entries@.len() - (if r {
                1int
            } else {
                0int
            }),
    {
        proof {
            lemma_kv_map_contains(self.entries@, key@);
        }
        match self.find_index(key) {
            Some(i) => {
                proof {
                    lemma_kv_map_remove(self.entries@, i as int);
                }
                let _ = self.entries.remove(i);
                true
            },
            None => {
                proof {
                    assert(self@.remove(key@) =~= self@);
                }
                false
            },
        }
    }

    /// Read `key` as of time `now`. An entry that has expired reads as
    /// absent and is removed on the way.
    pub fn get_at(&mut self, now: i64, key: &str) -> (r: Result<Option<String>, Error>)
        requires
            old(self).wf(),
        ensures
            final(self).wf(),
            final(self).cap() == old(self).cap(),
            match r {
                Ok(Some(v)) => old(self)@.contains_key(key@) && entry_valid_at(
                    old(self)@[key@],
                    now as int,
                ) && v@ == old(self)@[key@].value && final(self)@ == old(self)@,
                Ok(None) => !(old(self)@.contains_key(key@) && entry_valid_at(
                    old(self)@[key@],
                    now as int,
                )) && final(self)@ == (if old(self)@.contains_key(key@) {
                    old(self)@.remove(key@)
                } else {
                    old(self)@
                }),
                Err(_) => false,
            },
    {
        let key_s = key.to_owned();
        proof {
            lemma_kv_map_contains(self.entries@, key@);
        }
        match self.find_index(&key_s) {
            Some(i) => {
                proof {
                    lemma_kv_map_index(self.entries@, i as int);
                }
                if self.entries[i].1.valid(now) {
                    Ok(Some(self.entries[i].1.value.clone()))
                } else {
                    proof {
                        lemma_kv_map_remove(self.entries@, i as int);
                    }
                    let _ = self.entries.remove(i);
                    Ok(None)
                }
            },
            None => Ok(None),
        }
    }

    /// Atomically read and remove `key` as of time `now`; the value comes
    /// back only if the entry was still live.
    pub fn get_del_at(&mut self, now: i64, key: &str) -> (r: Result<Option<String>, Error>)
        requires
            old(self).wf(),
        ensures
            final(self).wf(),
            final(self).cap() == old(self).cap(),
            final(self)@ == old(self)@.remove(key@),
            match r {
                Ok(Some(v)) => old(self)@.contains_key(key@) && entry_valid_at(
                    old(self)@[key@],
                    now as int,
                ) && v@ == old(self)@[key@].value,
                Ok(None) => !(old(self)@.contains_key(key@) && entry_valid_at(
                    old(self)@[key@],
                    now as int,
                )),
                Err(_) => false,
            },
    {
        let key_s = key.to_owned();
        proof {
            lemma_kv_map_contains(self.entries@, key@);
        }
        match self.find_index(&key_s) {
            Some(i) => {
                proof {
                    lemma_kv_map_index(self.entries@, i as int);
                    lemma_kv_map_remove(self.entries@, i as int);
                }
                let p = self.entries.remove(i);
                if p.1.valid(now) {
                    Ok(Some(p.1.value))
                } else {
                    Ok(None)
                }
            },
            None => {
                proof {
                    assert(self@.remove(key@) =~= self@);
                }
                Ok(None)
            },
        }
    }

    /// Remove `key`; reports whether anything (live or expired) was stored.
    pub fn del(&mut self, key: &str) -> (r: Result<bool, Error>)
        requires
            old(self).wf(),
        ensures
            final(self).wf(),
            final(self).cap() == old(self).cap(),
            final(self)@ == old(self)@.remove(key@),
            r == Ok::<bool, Error>(old(self)@.contains_key(key@)),
    {
        let key_s = key.to_owned();
        Ok(self.remove_key(&key_s))
    }

    /// Atomically read `key` and refresh its time-to-live to `now` +
    /// `ttl_secs`, with `get_at`'s validity rules.
    pub fn get_ex_at(&mut self, now: i64, key: &str, ttl_secs: u64) -> (r: Result<
        Option<String>,
        Error,
    >)
        requires
            old(self).wf(),
        ensures
            final(self).wf(),
            final(self).cap() == old(self).cap(),
            match r {
                Ok(Some(v)) => old(self)@.contains_key(key@) && entry_valid_at(
                    old(self)@[key@],
                    now as int,
                ) && v@ == old(self)@[key@].value && ttl_secs <= i64::MAX && now + ttl_secs
                    <= i64::MAX && final(self)@ == old(self)@.insert(
                    key@,
                    (SEntry { value: v@, expiry: Some(now + ttl_secs) }),
                ),
                Ok(None) => !(old(self)@.contains_key(key@) && entry_valid_at(
                    old(self)@[key@],
                    now as int,
                )) && final(self)@ == (if old(self)@.contains_key(key@) {
                    old(self)@.remove(key@)
                } else {
                    old(self)@
                }),
                Err(e) => e == Error::Timestamp && old(self)@.contains_key(key@)
                    && entry_valid_at(old(self)@[key@], now as int) && (ttl_secs > i64::MAX || now
                    + ttl_secs > i64::MAX) && final(self)@ == old(self)@,
            },
    {
        let key_s = key.to_owned();
        proof {
            lemma_kv_map_contains(self.entries@, key@);
        }
        match self.find_index(&key_s) {
            Some(i) => {
                proof {
                    lemma_kv_map_index(self.entries@, i as int);
                }
                if self.entries[i].1.valid(now) {
                    if ttl_secs > 0x7fff_ffff_ffff_ffff {
                        return Err(Error::Timestamp);
                    }
                    let t: i64 = ttl_secs as i64;
                    let e: i64 = match now.checked_add(t) {
                        Some(e) => e,
                        None => {
                            return Err(Error::Timestamp);
                        },
                    };
                    let value = self.entries[i].1.value.clone();
                    let new_key = self.entries[i].0.clone();
                    proof {
                        lemma_kv_map_update(
                            self.entries@,
                            i as int,
                            (new_key, Data { value: value, expiry: Some(e) }),
                        );
                    }
                    let d = Data { value: value.clone(), expiry: Some(e) };
                    self.entries[i] = (new_key, d);
                    Ok(Some(value))
                } else {
                    proof {
                        lemma_kv_map_remove(self.entries@, i as int);
                    }
                    let _ = self.entries.remove(i);
                    Ok(None)
                }
            },
            None => Ok(None),
        }
    }

    /// Reset the time-to-live of `key` to `now` + `ttl`. A non-positive
    /// `ttl` removes the key like `del`. Either way the call reports
    /// whether a live entry was stored: an expired leftover reads as
    /// missing, as it does everywhere else.
    pub fn expire_at(&mut self, now: i64, key: &str, ttl: i64) -> (r: Result<bool, Error>)
        requires
            old(self).wf(),
        ensures
            final(self).wf(),
            final(self).cap() == old(self).cap(),
            ttl <= 0 ==> r == Ok::<bool, Error>(
                old(self)@.contains_key(key@) && entry_valid_at(old(self)@[key@], now as int),
            ) && final(self)@ == old(self)@.remove(key@),
            ttl > 0 ==> match r {
                Ok(true) => old(self)@.contains_key(key@) && entry_valid_at(
                    old(self)@[key@],
                    now as int,
                ) && now + ttl <= i64::MAX && final(self)@ == old(self)@.insert(
                    key@,
                    (SEntry { value: old(self)@[key@].value, expiry: Some(now + ttl) }),
                ),
                Ok(false) => !(old(self)@.contains_key(key@) && entry_valid_at(
                    old(self)@[key@],
                    now as int,
                )) && final(self)@ == (if old(self)@.contains_key(key@) {
                    old(self)@.remove(key@)
                } else {
                    old(self)@
                }),
                Err(e) => e == Error::Timestamp && old(self)@.contains_key(key@)
                    && entry_valid_at(old(self)@[key@], now as int) && now + ttl > i64::MAX
                    && final(self)@ == old(self)@,
            },
    {
        if ttl <= 0 {
            let key_s = key.to_owned();
            proof {
                lemma_kv_map_contains(self.entries@, key@);
            }
            match self.find_index(&key_s) {
                Some(i) => {
                    proof {
                        lemma_kv_map_index(self.entries@, i as int);
                        lemma_kv_map_remove(self.entries@, i as int);
                    }
                    let p = self.entries.remove(i);
                    Ok(p.1.valid(now))
                },
                None => {
                    proof {
                        assert(self@.remove(key@) =~= self@);
                    }
                    Ok(false)
                },
            }
        } else {
            let key_s = key.to_owned();
            proof {
                lemma_kv_map_contains(self.entries@, key@);
            }
            match self.find_index(&key_s) {
                Some(i) => {
                    proof {
                        lemma_kv_map_index(self.entries@, i as int);
                    }
                    if self.entries[i].1.valid(now) {
                        let e: i64 = match now.checked_add(ttl) {
                            Some(e) => e,
                            None => {
                                return Err(Error::Timestamp);
                            },
                        };
                        let value = self.entries[i].1.value.clone();
                        let new_key = self.entries[i].0.clone();
                        proof {
                            lemma_kv_map_update(
                                self.entries@,
                                i as int,
                                (new_key, Data { value: value, expiry: Some(e) }),
                            );
                        }
                        let d = Data { value, expiry: Some(e) };
                        self.entries[i] = (new_key, d);
                        Ok(true)
                    } else {
                        proof {
                            lemma_kv_map_remove(self.entries@, i as int);
                        }
                        let _ = self.entries.remove(i);
                        Ok(false)
                    }
                },
                None => Ok(false),
            }
        }
    }

    /// The remaining time-to-live of `key` at `now`: absent for missing,
    /// expired (removed on the way) or never-expiring entries.
    pub fn ttl_at(&mut self, now: i64, key: &str) -> (r: Result<Option<i64>, Error>)
        requires
            old(self).wf(),
        ensures
            final(self).wf(),
            final(self).cap() == old(self).cap(),
            match r {
                Ok(Some(t)) => old(self)@.contains_key(key@) && entry_valid_at(
                    old(self)@[key@],
                    now as int,
                ) && old(self)@[key@].expiry is Some && t == old(self)@[key@].expiry->0 - now
                    && final(self)@ == old(self)@,
                Ok(None) => !(old(self)@.contains_key(key@) && entry_valid_at(
                    old(self)@[key@],
                    now as int,
                ) && old(self)@[key@].expiry is Some) && final(self)@ == (if old(
                    self,
                )@.contains_key(key@) && !entry_valid_at(old(self)@[key@], now as int) {
                    old(self)@.remove(key@)
                } else {
                    old(self)@
                }),
                Err(e) => e == Error::Timestamp && final(self)@ == old(self)@ && old(
                    self,
                )@.contains_key(key@) && entry_valid_at(old(self)@[key@], now as int) && old(
                    self,
                )@[key@].expiry is Some && !(i64::MIN <= old(self)@[key@].expiry->0 - now
                    <= i64::MAX),
            },
    {
        let key_s = key.to_owned();
        proof {
            lemma_kv_map_contains(self.entries@, key@);
        }
        match self.find_index(&key_s) {
            Some(i) => {
                proof {
                    lemma_kv_map_index(self.entries@, i as int);
                }
                if self.entries[i].1.valid(now) {
                    match self.entries[i].1.get_ttl(now) {
                        Ok(t) => Ok(t),
                        Err(e) => Err(e),
                    }
                } else {
                    proof {
                        lemma_kv_map_remove(self.entries@, i as int);
                    }
                    let _ = self.entries.remove(i);
                    Ok(None)
                }
            },
            None => Ok(None),
        }
    }

    /// The stored keys that are live at `now` and match the glob `pattern`,
    /// without duplicates.
    #[verifier::spinoff_prover]
    pub fn keys_at(&self, now: i64, pattern: &str) -> (r: Result<Vec<String>, Error>)
        requires
            self.wf(),
        ensures
            r is Ok,
            forall|i: int|
                0 <= i < r->Ok_0@.len() ==> self@.contains_key((#[trigger] r->Ok_0@[i])@)
                    && entry_valid_at(self@[r->Ok_0@[i]@], now as int) && glob_match(
                    pattern@,
                    r->Ok_0@[i]@,
                ),
            forall|i: int, j: int| 0 <= i < j < r->Ok_0@.len() ==> r->Ok_0@[i]@ != r->Ok_0@[j]@,
            forall|k: Seq<char>|
                #[trigger] self@.contains_key(k) && entry_valid_at(self@[k], now as int)
                    && glob_match(pattern@, k) ==> exists|i: int|
                    0 <= i < r->Ok_0@.len() && (#[trigger] r->Ok_0@[i])@ == k,
    {
        let mut out: Vec<String> = Vec::new();
        let n = self.entries.len();
        let mut i: usize = 0;
        while i < n
            invariant
                self.wf(),
                n == self.entries@.len(),
                i <= n,
                forall|a: int|
                    0 <= a < out@.len() ==> exists|j: int|
                        0 <= j < i && (#[trigger] out@[a])@ == (#[trigger] self.entries@[j]).0@,
                forall|a: int|
                    0 <= a < out@.len() ==> self@.contains_key((#[trigger] out@[a])@)
                        && entry_valid_at(self@[out@[a]@], now as int) && glob_match(
                        pattern@,
                        out@[a]@,
                    ),
                forall|a: int, b: int| 0 <= a < b < out@.len() ==> out@[a]@ != out@[b]@,
                forall|j: int|
                    0 <= j < i && entry_valid_at((#[trigger] self.entries@[j]).1@, now as int)
                        && glob_match(pattern@, self.entries@[j].0@) ==> exists|a: int|
                        0 <= a < out@.len() && (#[trigger] out@[a])@ == self.entries@[j].0@,
            decreases n - i,
        {
            proof {
                lemma_kv_map_index(self.entries@, i as int);
            }
            if self.entries[i].1.valid(now) && crate::pattern::matches_pattern(
                pattern,
                self.entries[i].0.as_str(),
            ) {
                let k = self.entries[i].0.clone();
                let ghost prev = out@;
                proof {
                    // a repeated key would contradict key uniqueness
                    assert forall|a: int| 0 <= a < prev.len() implies (#[trigger] prev[a])@
                        != self.entries@[i as int].0@ by {
                        let j = choose|j: int|
                            0 <= j < i && (#[trigger] prev[a])@ == (#[trigger] self.entries@[j]).0@;
                        assert(self.entries@[j].0@ != self.entries@[i as int].0@);
                    }
                }
                out.push(k);
                proof {
                    let last = prev.len() as int;
                    assert(out@[last]@ == self.entries@[i as int].0@);
                    assert forall|a: int, b: int| 0 <= a < b < out@.len() implies out@[a]@
                        != out@[b]@ by {
                        if b < last {
                            assert(out@[a] == prev[a]);
                            assert(out@[b] == prev[b]);
                        } else {
                            assert(out@[a] == prev[a]);
                            assert(prev[a]@ != self.entries@[i as int].0@);
                        }
                    }
                    assert forall|a: int| 0 <= a < out@.len() implies exists|j: int|
                        0 <= j < i + 1 && (#[trigger] out@[a])@ == (#[trigger] self.entries@[j]).0@
                        by {
                        if a < last {
                            let j = choose|j: int|
                                0 <= j < i && (#[trigger] prev[a])@ == (
                                #[trigger] self.entries@[j]).0@;
                            assert(out@[a] == prev[a]);
                            assert(0 <= j < i + 1 && out@[a]@ == self.entries@[j].0@);
                        } else {
                            assert(0 <= i < i + 1 && out@[a]@ == (self.entries@[i as int]).0@);
                        }
                    }
                    assert forall|j: int|
                        0 <= j < i + 1 && entry_valid_at(
                            (#[trigger] self.entries@[j]).1@,
                            now as int,
                        ) && glob_match(pattern@, self.entries@[j].0@) implies exists|a: int|
                        0 <= a < out@.len() && (#[trigger] out@[a])@ == self.entries@[j].0@ by {
                        if j < i {
                            let a = choose|a: int|
                                0 <= a < prev.len() && (#[trigger] prev[a])@
                                    == self.entries@[j].0@;
                            assert(out@[a] == prev[a]);
                            assert(0 <= a < out@.len() && out@[a]@ == self.entries@[j].0@);
                        } else {
                            assert(0 <= last < out@.len() && out@[last]@ == self.entries@[j].0@);
                        }
                    }
                }
            }
            i = i + 1;
        }
        proof {
            assert forall|k: Seq<char>|
                #[trigger] self@.contains_key(k) && entry_valid_at(self@[k], now as int)
                    && glob_match(pattern@, k) implies exists|i: int|
                0 <= i < out@.len() && (#[trigger] out@[i])@ == k by {
                lemma_kv_map_contains(self.entries@, k);
                let j = choose|j: int| 0 <= j < self.entries@.len() && (#[trigger] self.entries@[j]).0@ == k;
                lemma_kv_map_index(self.entries@, j);
                assert(entry_valid_at(self.entries@[j].1@, now as int));
            }
            assert(forall|i: int|
                0 <= i < out@.len() ==> self@.contains_key((#[trigger] out@[i])@)
                    && entry_valid_at(self@[out@[i]@], now as int) && glob_match(
                    pattern@,
                    out@[i]@,
                ));
            assert(forall|i: int, j: int| 0 <= i < j < out@.len() ==> out@[i]@ != out@[j]@);
        }
        let res: Result<Vec<String>, Error> = Ok(out);
        proof {
            assert forall|k: Seq<char>|
                #[trigger] self@.contains_key(k) && entry_valid_at(self@[k], now as int)
                    && glob_match(pattern@, k) implies exists|i: int|
                0 <= i < res->Ok_0@.len() && (#[trigger] res->Ok_0@[i])@ == k by {
                let a = choose|a: int| 0 <= a < res->Ok_0@.len() && (#[trigger] res->Ok_0@[a])@ == k;
                assert(0 <= a < res->Ok_0@.len() && (res->Ok_0@[a])@ == k);
            }
        }
        res
    }

    /// Remove a batch of keys; returns how many entries were actually
    /// removed (a key listed twice counts once).
    pub fn dels(&mut self, keys: &[String]) -> (r: Result<u64, Error>)
        requires
            old(self).wf(),
        ensures
            final(self).wf(),
            final(self).cap() == old(self).cap(),
            final(self)@ == old(self)@.remove_keys(key_set(keys@)),
            match r {
                Ok(n) => n as int == old(self)@.dom().intersect(key_set(keys@)).len() as int,
                Err(_) => false,
            },
    {
        proof {
            lemma_kv_map_len(self.entries@);
            vstd::set_lib::lemma_len_intersect(self@.dom(), key_set(keys@));
        }
        let ghost orig = self@;
        proof {
            assert(key_set(keys@.subrange(0, 0)) =~= Set::<Seq<char>>::empty());
            assert(orig.remove_keys(key_set(keys@.subrange(0, 0))) =~= orig);
            assert(orig.dom().intersect(key_set(keys@.subrange(0, 0))) =~= Set::<
                Seq<char>,
            >::empty());
        }
        let mut count: u64 = 0;
        let n = keys.len();
        let mut i: usize = 0;
        while i < n
            invariant
                self.wf(),
                self.cap() == old(self).cap(),
                n == keys@.len(),
                i <= n,
                orig == old(self)@,
                orig.dom().finite(),
                self@ == orig.remove_keys(key_set(keys@.subrange(0, i as int))),
                count as int == orig.dom().intersect(key_set(keys@.subrange(0, i as int))).len(),
                count <= i,
            decreases n - i,
        {
            let ghost pre = key_set(keys@.subrange(0, i as int));
            let ghost post = key_set(keys@.subrange(0, i + 1));
            proof {
                assert(keys@.subrange(0, i + 1)[i as int] == keys@[i as int]);
                assert forall|k: Seq<char>| #[trigger] post.contains(k) implies pre.insert(
                    keys@[i as int]@,
                ).contains(k) by {
                    let a = choose|a: int|
                        0 <= a < i + 1 && (#[trigger] keys@.subrange(0, i + 1)[a])@ == k;
                    if a < i {
                        assert(keys@.subrange(0, i as int)[a]@ == k);
                    }
                }
                assert forall|k: Seq<char>| #[trigger] pre.insert(keys@[i as int]@).contains(
                    k,
                ) implies post.contains(k) by {
                    if k == keys@[i as int]@ {
                        assert(keys@.subrange(0, i + 1)[i as int]@ == k);
                    } else {
                        let a = choose|a: int|
                            0 <= a < i && (#[trigger] keys@.subrange(0, i as int)[a])@ == k;
                        assert(keys@.subrange(0, i + 1)[a]@ == k);
                    }
                }
                assert(post =~= pre.insert(keys@[i as int]@));
            }
            let removed = self.remove_key(&keys[i]);
            proof {
                assert(self@ =~= orig.remove_keys(post));
                let kk = keys@[i as int]@;
                vstd::set_lib::lemma_len_intersect(orig.dom(), pre);
                if removed {
                    // the key was still present, so it is in orig and not in pre
                    assert(orig.dom().contains(kk));
                    assert(!pre.contains(kk));
                    assert(orig.dom().intersect(post) =~= orig.dom().intersect(pre).insert(kk));
                } else {
                    assert(orig.dom().intersect(post) =~= orig.dom().intersect(pre));
                }
            }
            if removed {
                count = count + 1;
            }
            i = i + 1;
        }
        proof {
            assert(keys@.subrange(0, n as int) =~= keys@);
        }
        Ok(count)
    }

    /// Remove every entry.
    pub fn flush(&mut self) -> (r: Result<(), Error>)
        requires
            old(self).wf(),
        ensures
            final(self).wf(),
            final(self).cap() == old(self).cap(),
            final(self)@ == Map::<Seq<char>, SEntry>::empty(),
            r is Ok,
    {
        self.entries.clear();
        Ok(())
    }

    /// Store `d` under `key`, replacing any previous entry.
    fn upsert(&mut self, key: String, d: Data)
        requires
            old(self).wf(),
            !old(self)@.contains_key(key@) && old(self).cap() is Some ==> old(
                self,
            ).entries@.len() < old(self).cap()->0,
        ensures
            final(self).wf(),
            final(self).cap() == old(self).cap(),
            final(self)@ == old(self)@.insert(key@, d@),
    {
        proof {
            lemma_kv_map_contains(self.entries@, key@);
        }
        match self.find_index(&key) {
            Some(i) => {
                proof {
                    lemma_kv_map_update(self.entries@, i as int, (key, d));
                }
                self.entries[i] = (key, d);
            },
            None => {
                proof {
                    lemma_kv_map_push(self.entries@, (key, d));
                }
                self.entries.push((key, d));
            },
        }
    }

    /// Evict up to `num` entries at time `now`: every expired entry goes
    /// first; if fewer than `num` expired, live entries with the earliest
    /// expiry follow, never entries without one. Returns how many entries
    /// were evicted.
    #[verifier::rlimit(100)]
    #[verifier::spinoff_prover]
    fn gc(&mut self, now: i64, num: usize) -> (r: usize)
        requires
            old(self).wf(),
        ensures
            final(self).wf(),
            final(self).cap() == old(self).cap(),
            evict_ok(old(self)@, final(self)@, now as int),
            final(self).entries@.len() + r == old(self).entries@.len(),
            r == 0 ==> final(self)@ == old(self)@,
            num >= 1 && r == 0 ==> forall|k: Seq<char>|
                #[trigger] old(self)@.contains_key(k) ==> old(self)@[k].expiry is None,
            // the pass stops at `num`: fewer evictions only once no entry
            // with an expiry is left, more only to flush expired entries
            r < num ==> forall|k: Seq<char>|
                #[trigger] final(self)@.contains_key(k) ==> final(self)@[k].expiry is None,
            r > num ==> forall|k: Seq<char>|
                #![trigger old(self)@.contains_key(k), final(self)@.contains_key(k)]
                old(self)@.contains_key(k) && !final(self)@.contains_key(k) ==> !entry_valid_at(
                    old(self)@[k],
                    now as int,
                ),
    {
        let ghost orig = self@;
        let ghost orig_seq = self.entries@;
        let mut expired: Vec<String> = Vec::new();
        let mut names: Vec<String> = Vec::new();
        let ghost mut exp_src: Seq<int> = Seq::empty();
        let ghost mut nm_src: Seq<int> = Seq::empty();
        let mut queue = ttl_queue_new();
        let n = self.entries.len();
        let mut i: usize = 0;
        while i < n
            invariant
                self.wf(),
                self@ == orig,
                self.entries@ == orig_seq,
                self.cap() == old(self).cap(),
                n == orig_seq.len(),
                i <= n,
                exp_src.len() == expired@.len(),
                nm_src.len() == names@.len(),
                // each listed expired key names a dead prefix entry
                forall|a: int|
                    0 <= a < expired@.len() ==> 0 <= #[trigger] exp_src[a] < i && (expired@[a])@
                        == orig_seq[exp_src[a]].0@ && !entry_valid_at(
                        orig_seq[exp_src[a]].1@,
                        now as int,
                    ),
                forall|a: int, b: int| 0 <= a < b < exp_src.len() ==> exp_src[a] < exp_src[b],
                // every dead prefix entry is listed
                forall|j: int|
                    0 <= j < i && !entry_valid_at((#[trigger] orig_seq[j]).1@, now as int)
                        ==> exists|a: int|
                        0 <= a < expired@.len() && (#[trigger] expired@[a])@ == orig_seq[j].0@,
                // each name is a live prefix entry that carries an expiry
                forall|a: int|
                    0 <= a < names@.len() ==> 0 <= #[trigger] nm_src[a] < i && (names@[a])@
                        == orig_seq[nm_src[a]].0@ && entry_valid_at(
                        orig_seq[nm_src[a]].1@,
                        now as int,
                    ) && orig_seq[nm_src[a]].1@.expiry is Some,
                forall|a: int, b: int| 0 <= a < b < nm_src.len() ==> nm_src[a] < nm_src[b],
                // every live prefix entry with an expiry is named
                forall|j: int|
                    0 <= j < i && entry_valid_at((#[trigger] orig_seq[j]).1@, now as int)
                        && orig_seq[j].1@.expiry is Some ==> exists|a: int|
                        0 <= a < names@.len() && (#[trigger] names@[a])@ == orig_seq[j].0@,
                // queue pairs point into names and carry that entry's expiry
                forall|p: (u64, int)|
                    #[trigger] queue_contents(&queue).count(p) > 0 ==> 0 <= p.0 < names@.len()
                        && orig.contains_key((names@[p.0 as int])@)
                        && orig[names@[p.0 as int]@].expiry == Some(p.1) && entry_valid_at(
                        orig[names@[p.0 as int]@],
                        now as int,
                    ),
                // every name has its pair in the queue
                forall|a: int|
                    0 <= a < names@.len() ==> queue_contents(&queue).count(
                        ((a as u64), orig[(#[trigger] names@[a])@].expiry->0),
                    ) > 0,
                // a tag determines its pair, and pairs are not duplicated
                forall|p: (u64, int), q: (u64, int)|
                    queue_contents(&queue).count(p) > 0 && queue_contents(&queue).count(q) > 0
                        && p.0 == q.0 ==> p == q,
                forall|p: (u64, int)| queue_contents(&queue).count(p) <= 1,
            decreases n - i,
        {
            proof {
                lemma_kv_map_index(self.entries@, i as int);
            }
            let ghost prev_expired = expired@;
            let ghost prev_names = names@;
            if !self.entries[i].1.valid(now) {
                expired.push(self.entries[i].0.clone());
                proof {
                    exp_src = exp_src.push(i as int);
                    let last = prev_expired.len() as int;
                    assert(expired@[last]@ == orig_seq[i as int].0@);
                    assert forall|a: int| 0 <= a < expired@.len() implies 0 <= #[trigger] exp_src[a]
                        < i + 1 && (expired@[a])@ == orig_seq[exp_src[a]].0@ && !entry_valid_at(
                        orig_seq[exp_src[a]].1@,
                        now as int,
                    ) by {
                        if a < last {
                            assert(expired@[a] == prev_expired[a]);
                        }
                    }
                    assert forall|j: int|
                        0 <= j < i + 1 && !entry_valid_at(
                            (#[trigger] orig_seq[j]).1@,
                            now as int,
                        ) implies exists|a: int|
                        0 <= a < expired@.len() && (#[trigger] expired@[a])@ == orig_seq[j].0@ by {
                        if j < i {
                            let a = choose|a: int|
                                0 <= a < prev_expired.len() && (#[trigger] prev_expired[a])@
                                    == orig_seq[j].0@;
                            assert(expired@[a] == prev_expired[a]);
                            assert(0 <= a < expired@.len() && expired@[a]@ == orig_seq[j].0@);
                        } else {
                            assert(0 <= last < expired@.len() && expired@[last]@
                                == orig_seq[j].0@);
                        }
                    }
                }
            } else {
                let has_expiry = match self.entries[i].1.expiry {
                    Some(_) => true,
                    None => false,
                };
                if has_expiry {
                    let x: i64 = match self.entries[i].1.expiry {
                        Some(x) => x,
                        None => 0,  // unreachable: the entry has an expiry
                    };
                    let tag: u64 = names.len() as u64;
                    proof {
                        assert forall|p: (u64, int)| queue_contents(&queue).count(p)
                            > 0 implies p.0 != tag by {
                            assert(0 <= p.0 < names@.len());
                        }
                    }
                    names.push(self.entries[i].0.clone());
                    ttl_queue_push(&mut queue, tag, x);
                    proof {
                        nm_src = nm_src.push(i as int);
                        let last = prev_names.len() as int;
                        assert(names@[last]@ == orig_seq[i as int].0@);
                        assert(orig[names@[last]@].expiry == Some(x as int));
                        assert forall|a: int| 0 <= a < names@.len() implies 0 <= #[trigger] nm_src[a]
                            < i + 1 && (names@[a])@ == orig_seq[nm_src[a]].0@ && entry_valid_at(
                            orig_seq[nm_src[a]].1@,
                            now as int,
                        ) && orig_seq[nm_src[a]].1@.expiry is Some by {
                            if a < last {
                                assert(names@[a] == prev_names[a]);
                            }
                        }
                        assert forall|j: int|
                            0 <= j < i + 1 && entry_valid_at(
                                (#[trigger] orig_seq[j]).1@,
                                now as int,
                            ) && orig_seq[j].1@.expiry is Some implies exists|a: int|
                            0 <= a < names@.len() && (#[trigger] names@[a])@ == orig_seq[j].0@ by {
                            if j < i {
                                let a = choose|a: int|
                                    0 <= a < prev_names.len() && (#[trigger] prev_names[a])@
                                        == orig_seq[j].0@;
                                assert(names@[a] == prev_names[a]);
                                assert(0 <= a < names@.len() && names@[a]@ == orig_seq[j].0@);
                            } else {
                                assert(0 <= last < names@.len() && names@[last]@
                                    == orig_seq[j].0@);
                            }
                        }
                        assert forall|p: (u64, int)| #[trigger] queue_contents(&queue).count(p)
                            > 0 implies 0 <= p.0 < names@.len() && orig.contains_key(
                            (names@[p.0 as int])@,
                        ) && orig[names@[p.0 as int]@].expiry == Some(p.1) && entry_valid_at(
                            orig[names@[p.0 as int]@],
                            now as int,
                        ) by {
                            if (p.0 as int) < last {
                                assert(names@[p.0 as int] == prev_names[p.0 as int]);
                            } else {
                                assert(p == ((tag, x as int)));
                                assert(names@[p.0 as int]@ == orig_seq[i as int].0@);
                            }
                        }
                        assert forall|a: int| 0 <= a < names@.len() implies queue_contents(
                            &queue,
                        ).count(((a as u64), orig[(#[trigger] names@[a])@].expiry->0)) > 0 by {
                            if a < last {
                                assert(names@[a] == prev_names[a]);
                            } else {
                                assert(orig[names@[a]@].expiry->0 == x as int);
                            }
                        }
                    }
                }
            }
            i = i + 1;
        }
        // remove the expired entries
        let ghost expired_all = expired@;
        let m = expired.len();
        let mut a: usize = 0;
        proof {
            assert(key_set(expired_all.subrange(0, 0)) =~= Set::<Seq<char>>::empty());
            assert(orig.remove_keys(key_set(expired_all.subrange(0, 0))) =~= orig);
        }
        while a < m
            invariant
                self.wf(),
                self.cap() == old(self).cap(),
                m == expired_all.len(),
                a <= m,
                expired@ == expired_all,
                self@ == orig.remove_keys(key_set(expired_all.subrange(0, a as int))),
                self.entries@.len() + a == orig_seq.len(),
                orig == kv_map(orig_seq),
                keys_unique(orig_seq),
                exp_src.len() == m,
                forall|b: int|
                    0 <= b < m ==> 0 <= #[trigger] exp_src[b] < orig_seq.len() && (
                    expired_all[b])@ == orig_seq[exp_src[b]].0@ && !entry_valid_at(
                        orig_seq[exp_src[b]].1@,
                        now as int,
                    ),
                forall|b: int, c: int| 0 <= b < c < exp_src.len() ==> exp_src[b] < exp_src[c],
            decreases m - a,
        {
            let ghost pre = key_set(expired_all.subrange(0, a as int));
            let ghost post = key_set(expired_all.subrange(0, a + 1));
            proof {
                assert(expired_all.subrange(0, a + 1)[a as int] == expired_all[a as int]);
                assert forall|k: Seq<char>| #[trigger] post.contains(k) implies pre.insert(
                    expired_all[a as int]@,
                ).contains(k) by {
                    let b = choose|b: int|
                        0 <= b < a + 1 && (#[trigger] expired_all.subrange(0, a + 1)[b])@ == k;
                    if b < a {
                        assert(expired_all.subrange(0, a as int)[b]@ == k);
                    }
                }
                assert forall|k: Seq<char>| #[trigger] pre.insert(expired_all[a as int]@).contains(
                    k,
                ) implies post.contains(k) by {
                    if k == expired_all[a as int]@ {
                        assert(expired_all.subrange(0, a + 1)[a as int]@ == k);
                    } else {
                        let b = choose|b: int|
                            0 <= b < a && (#[trigger] expired_all.subrange(0, a as int)[b])@ == k;
                        assert(expired_all.subrange(0, a + 1)[b]@ == k);
                    }
                }
                assert(post =~= pre.insert(expired_all[a as int]@));
                // the key is still present: it is in orig and not in the prefix
                lemma_kv_map_index(orig_seq, exp_src[a as int]);
                assert(orig.contains_key(expired_all[a as int]@));
                assert(!pre.contains(expired_all[a as int]@)) by {
                    if pre.contains(expired_all[a as int]@) {
                        let b = choose|b: int|
                            0 <= b < a && (#[trigger] expired_all.subrange(0, a as int)[b])@
                                == expired_all[a as int]@;
                        assert(expired_all[b]@ == expired_all[a as int]@);
                        assert(exp_src[b] < exp_src[a as int]);
                        assert(orig_seq[exp_src[b]].0@ != orig_seq[exp_src[a as int]].0@);
                    }
                }
                assert(self@.contains_key(expired_all[a as int]@));
            }
            let removed = self.remove_key(&expired[a]);
            proof {
                assert(removed);
                assert(self@ =~= orig.remove_keys(post));
            }
            a = a + 1;
        }
        let names_len = names.len();
        proof {
            assert(names@.len() == names_len as int);
            assert(expired_all.subrange(0, m as int) =~= expired_all);
            // a key is listed exactly when its entry is dead
            assert forall|k: Seq<char>| #[trigger] key_set(expired_all).contains(
                k,
            ) implies orig.contains_key(k) && !entry_valid_at(orig[k], now as int) by {
                let b = choose|b: int|
                    0 <= b < expired_all.len() && (#[trigger] expired_all[b])@ == k;
                lemma_kv_map_index(orig_seq, exp_src[b]);
            }
            assert forall|k: Seq<char>| #[trigger] orig.contains_key(k) && !entry_valid_at(
                orig[k],
                now as int,
            ) implies key_set(expired_all).contains(k) by {
                lemma_kv_map_contains(orig_seq, k);
                let j = choose|j: int| 0 <= j < orig_seq.len() && (#[trigger] orig_seq[j]).0@ == k;
                lemma_kv_map_index(orig_seq, j);
                let b = choose|b: int|
                    0 <= b < expired_all.len() && (#[trigger] expired_all[b])@ == orig_seq[j].0@;
                assert(0 <= b < expired_all.len() && expired_all[b]@ == k);
            }
            // the names are pairwise distinct keys
            assert forall|a1: int, b1: int| 0 <= a1 < b1 < names@.len() implies names@[a1]@
                != names@[b1]@ by {
                assert(nm_src[a1] < nm_src[b1]);
                assert(orig_seq[nm_src[a1]].0@ != orig_seq[nm_src[b1]].0@);
            }
            // queue pairs now point at surviving live entries
            assert forall|p: (u64, int)| #[trigger] queue_contents(&queue).count(p)
                > 0 implies 0 <= p.0 < names@.len() && self@.contains_key(
                (names@[p.0 as int])@,
            ) && self@[names@[p.0 as int]@].expiry == Some(p.1) && entry_valid_at(
                self@[names@[p.0 as int]@],
                now as int,
            ) by {
                let kq = names@[p.0 as int]@;
                assert(orig.contains_key(kq) && orig[kq].expiry == Some(p.1) && entry_valid_at(
                    orig[kq],
                    now as int,
                ));
                assert(!key_set(expired_all).contains(kq));
                assert(self@.contains_key(kq) && self@[kq] == orig[kq]);
            }
            // every surviving entry with an expiry is queued
            assert forall|k: Seq<char>| #[trigger] self@.contains_key(k) && self@[k].expiry
                is Some implies exists|p: (u64, int)|
                queue_contents(&queue).count(p) > 0 && (#[trigger] names@[p.0 as int])@ == k by {
                assert(orig.contains_key(k) && self@[k] == orig[k]);
                assert(!key_set(expired_all).contains(k));
                assert(entry_valid_at(orig[k], now as int));
                lemma_kv_map_contains(orig_seq, k);
                let j = choose|j: int| 0 <= j < orig_seq.len() && (#[trigger] orig_seq[j]).0@ == k;
                lemma_kv_map_index(orig_seq, j);
                let a2 = choose|a2: int|
                    0 <= a2 < names@.len() && (#[trigger] names@[a2])@ == orig_seq[j].0@;
                assert(queue_contents(&queue).count(
                    ((a2 as u64), orig[(names@[a2])@].expiry->0),
                ) > 0);
                assert(((a2 as u64) as int) == a2);
                assert((names@[(a2 as u64) as int])@ == k);
            }
            assert forall|k: Seq<char>| #[trigger] self@.contains_key(k) implies entry_valid_at(
                orig[k],
                now as int,
            ) by {
                assert(!key_set(expired_all).contains(k));
            }
            assert forall|k: Seq<char>|
                #[trigger] orig.contains_key(k) && orig[k].expiry
                    is None implies self@.contains_key(k) by {
                assert(entry_valid_at(orig[k], now as int));
                assert(!key_set(expired_all).contains(k));
            }
            assert forall|k: Seq<char>, p: (u64, int)|
                #![trigger orig.contains_key(k), queue_contents(&queue).count(p)]
                orig.contains_key(k) && !self@.contains_key(k) && entry_valid_at(
                    orig[k],
                    now as int,
                ) && queue_contents(&queue).count(p) > 0 implies orig[k].expiry is Some
                && orig[k].expiry->0 <= p.1 by {
                assert(key_set(expired_all).contains(k));
                assert(false);
            }
        }
        let ghost mid2 = self@;
        let mut ret: usize = m;
        // evict live entries with the earliest expiry until `num` is reached
        let mut done = false;
        while ret < num && !done
            invariant
                self.wf(),
                self.cap() == old(self).cap(),
                ret >= m,
                ret <= num || ret == m,
                ret == m ==> self@ == mid2,
                self.entries@.len() + ret == orig_seq.len(),
                orig == kv_map(orig_seq),
                // survivors are original entries, unchanged
                self@.dom().subset_of(orig.dom()),
                forall|k: Seq<char>| #[trigger] self@.contains_key(k) ==> self@[k] == orig[k],
                // entries without an expiry always survive, dead ones never
                forall|k: Seq<char>|
                    #[trigger] orig.contains_key(k) && orig[k].expiry is None
                        ==> self@.contains_key(k),
                forall|k: Seq<char>|
                    #[trigger] self@.contains_key(k) ==> entry_valid_at(orig[k], now as int),
                forall|a1: int, b1: int| 0 <= a1 < b1 < names@.len() ==> names@[a1]@ != names@[b1]@,
                // queue pairs point into names at live survivors
                forall|p: (u64, int)|
                    #[trigger] queue_contents(&queue).count(p) > 0 ==> 0 <= p.0 < names@.len()
                        && self@.contains_key((names@[p.0 as int])@)
                        && self@[names@[p.0 as int]@].expiry == Some(p.1) && entry_valid_at(
                        self@[names@[p.0 as int]@],
                        now as int,
                    ),
                // every surviving entry with an expiry is still queued
                forall|k: Seq<char>|
                    #[trigger] self@.contains_key(k) && self@[k].expiry is Some ==> exists|
                        p: (u64, int),
                    |
                        queue_contents(&queue).count(p) > 0 && (#[trigger] names@[p.0 as int])@
                            == k,
                forall|p: (u64, int), q: (u64, int)|
                    queue_contents(&queue).count(p) > 0 && queue_contents(&queue).count(q) > 0
                        && p.0 == q.0 ==> p == q,
                forall|p: (u64, int)| queue_contents(&queue).count(p) <= 1,
                // evicted live entries expire no later than anything queued
                forall|k: Seq<char>, p: (u64, int)|
                    #![trigger orig.contains_key(k), queue_contents(&queue).count(p)]
                    orig.contains_key(k) && !self@.contains_key(k) && entry_valid_at(
                        orig[k],
                        now as int,
                    ) && queue_contents(&queue).count(p) > 0 ==> orig[k].expiry is Some
                        && orig[k].expiry->0 <= p.1,
                // once the queue is drained every survivor is persistent
                done ==> forall|k: Seq<char>|
                    #[trigger] self@.contains_key(k) ==> self@[k].expiry is None,
            decreases num - ret, (if done {
                0int
            } else {
                1int
            }),
        {
            let ghost qpre = queue_contents(&queue);
            let ghost spre = self@;
            match ttl_queue_pop(&mut queue) {
                Some((tag, e)) => {
                    let idx: usize = tag as usize;
                    let ghost kk = names@[tag as int]@;
                    proof {
                        assert(qpre.count((tag, e as int)) > 0);
                        assert(spre.contains_key(kk) && spre[kk].expiry == Some(e as int));
                    }
                    let removed = self.remove_key(&names[idx]);
                    proof {
                        assert(removed);
                        assert(self@ == spre.remove(kk));
                        assert forall|p: (u64, int)| #[trigger] queue_contents(&queue).count(p)
                            > 0 implies 0 <= p.0 < names@.len() && self@.contains_key(
                            (names@[p.0 as int])@,
                        ) && self@[names@[p.0 as int]@].expiry == Some(p.1) && entry_valid_at(
                            self@[names@[p.0 as int]@],
                            now as int,
                        ) by {
                            assert(qpre.count(p) > 0);
                            if p.0 == tag {
                                assert(p == ((tag, e as int)));
                                assert(queue_contents(&queue).count(p) == qpre.count(p) - 1);
                                assert(qpre.count(p) <= 1);
                                assert(false);
                            } else {
                                assert(names@[p.0 as int]@ != kk);
                            }
                        }
                        assert forall|k: Seq<char>|
                            #[trigger] self@.contains_key(k) && self@[k].expiry
                                is Some implies exists|p: (u64, int)|
                            queue_contents(&queue).count(p) > 0 && (#[trigger] names@[p.0 as int])@
                                == k by {
                            assert(k != kk);
                            assert(spre.contains_key(k) && spre[k] == self@[k]);
                            let q = choose|q: (u64, int)|
                                qpre.count(q) > 0 && (#[trigger] names@[q.0 as int])@ == k;
                            assert(q.0 != tag);
                            assert(q != ((tag, e as int)));
                            assert(queue_contents(&queue).count(q) == qpre.count(q));
                        }
                        assert forall|k: Seq<char>, p: (u64, int)|
                            #![trigger orig.contains_key(k), queue_contents(&queue).count(p)]
                            orig.contains_key(k) && !self@.contains_key(k) && entry_valid_at(
                                orig[k],
                                now as int,
                            ) && queue_contents(&queue).count(p) > 0 implies orig[k].expiry
                            is Some && orig[k].expiry->0 <= p.1 by {
                            assert(qpre.count(p) > 0);
                            if spre.contains_key(k) {
                                assert(k == kk);
                                assert(spre[kk] == orig[kk]);
                                assert(orig[kk].expiry == Some(e as int));
                                assert(e as int <= p.1);
                            }
                        }
                    }
                    ret = ret + 1;
                },
                None => {
                    done = true;
                    proof {
                        assert forall|k: Seq<char>| #[trigger] self@.contains_key(
                            k,
                        ) implies self@[k].expiry is None by {
                            if self@[k].expiry is Some {
                                let q = choose|q: (u64, int)|
                                    qpre.count(q) > 0 && (#[trigger] names@[q.0 as int])@ == k;
                                assert(qpre.count(q) > 0);
                                assert(false);
                            }
                        }
                    }
                },
            }
        }
        proof {
            lemma_kv_map_len(orig_seq);
            lemma_kv_map_len(self.entries@);
            // any live evicted entry expires no later than any surviving one
            assert forall|k1: Seq<char>, k2: Seq<char>|
                #![trigger self@.contains_key(k1), self@.contains_key(k2)]
                orig.contains_key(k1) && !self@.contains_key(k1) && entry_valid_at(
                    orig[k1],
                    now as int,
                ) && self@.contains_key(k2) && self@[k2].expiry
                is Some implies orig[k1].expiry->0 <= orig[k2].expiry->0 by {
                let q = choose|q: (u64, int)|
                    queue_contents(&queue).count(q) > 0 && (#[trigger] names@[q.0 as int])@ == k2;
                assert(queue_contents(&queue).count(q) > 0);
                assert(self@[k2].expiry == Some(q.1));
                assert(self@[k2] == orig[k2]);
            }
            assert(evict_ok(orig, self@, now as int));
            if ret == 0 {
                assert forall|k: Seq<char>| #[trigger] orig.contains_key(
                    k,
                ) implies self@.contains_key(k) by {
                    if !self@.contains_key(k) {
                        self@.dom().lemma_subset_not_in_lt(orig.dom(), k);
                    }
                }
                assert(self@ =~= orig);
            }
            if num >= 1 && ret == 0 {
                assert forall|k: Seq<char>| #[trigger] orig.contains_key(k) implies orig[k].expiry
                    is None by {
                    if orig[k].expiry is Some {
                        assert(self@.contains_key(k));
                        assert(self@[k] == orig[k]);
                    }
                }
            }
            if ret < num {
                assert(done);
            }
            if ret > num {
                assert(ret == m);
                assert(self@ == mid2);
                assert forall|k: Seq<char>|
                    #![trigger orig.contains_key(k), self@.contains_key(k)]
                    orig.contains_key(k) && !self@.contains_key(k) implies !entry_valid_at(
                    orig[k],
                    now as int,
                ) by {
                    assert(key_set(expired_all).contains(k));
                }
            }
        }
        ret
    }


    /// Unconditional upsert without a time-to-live. When the store is at
    /// capacity an eviction pass runs first; the write is refused only if
    /// eviction freed nothing and `key` is new, which happens exactly when
    /// every stored entry is live without an expiry.
    pub fn set_at(&mut self, now: i64, key: &str, value: &str) -> (r: Result<(), Error>)
        requires
            old(self).wf(),
        ensures
            final(self).wf(),
            final(self).cap() == old(self).cap(),
            match r {
                Ok(()) => exists|mid: Map<Seq<char>, SEntry>|
                    (mid == old(self)@ || evicted_batch_ok(
                        old(self)@,
                        mid,
                        now as int,
                        eviction_batch(old(self).cap()->0 as int),
                    )) && final(self)@ == #[trigger] mid.insert(
                        key@,
                        (SEntry { value: value@, expiry: None }),
                    ),
                Err(e) => {
                    &&& e == Error::Capacity
                    &&& final(self)@ == old(self)@
                    &&& old(self).cap() is Some
                    &&& old(self)@.dom().len() == old(self).cap()->0
                    &&& !old(self)@.contains_key(key@)
                    &&& forall|k: Seq<char>|
                        #[trigger] old(self)@.contains_key(k) ==> old(self)@[k].expiry is None
                },
            },
            !(old(self).cap() is Some && old(self)@.dom().len() == old(self).cap()->0) ==> r is Ok
                && final(self)@ == old(self)@.insert(key@, (SEntry { value: value@, expiry: None })),
            old(self).cap() is Some && old(self)@.dom().len() == old(self).cap()->0 && !old(
                self,
            )@.contains_key(key@) && (forall|k: Seq<char>|
                #[trigger] old(self)@.contains_key(k) ==> old(self)@[k].expiry is None) ==> r
                is Err,
    {
        let d = Data { value: value.to_owned(), expiry: None };
        self.set_data(now, key, d)
    }

    /// Upsert with an absolute expiry of `now` + `ttl_secs`, refusing
    /// time-to-live values whose expiry would overflow; the capacity rules
    /// are those of `set_at`.
    pub fn set_ex_at(&mut self, now: i64, key: &str, value: &str, ttl_secs: u64) -> (r: Result<
        (),
        Error,
    >)
        requires
            old(self).wf(),
        ensures
            final(self).wf(),
            final(self).cap() == old(self).cap(),
            match r {
                Ok(()) => ttl_secs <= i64::MAX && now + ttl_secs <= i64::MAX && exists|
                    mid: Map<Seq<char>, SEntry>,
                |
                    (mid == old(self)@ || evicted_batch_ok(
                        old(self)@,
                        mid,
                        now as int,
                        eviction_batch(old(self).cap()->0 as int),
                    )) && final(self)@ == #[trigger] mid.insert(
                        key@,
                        (SEntry { value: value@, expiry: Some(now + ttl_secs) }),
                    ),
                Err(Error::Timestamp) => (ttl_secs > i64::MAX || now + ttl_secs > i64::MAX)
                    && final(self)@ == old(self)@,
                Err(Error::Capacity) => {
                    &&& ttl_secs <= i64::MAX && now + ttl_secs <= i64::MAX
                    &&& final(self)@ == old(self)@
                    &&& old(self).cap() is Some
                    &&& old(self)@.dom().len() == old(self).cap()->0
                    &&& !old(self)@.contains_key(key@)
                    &&& forall|k: Seq<char>|
                        #[trigger] old(self)@.contains_key(k) ==> old(self)@[k].expiry is None
                },
                Err(_) => false,
            },
            ttl_secs <= i64::MAX && now + ttl_secs <= i64::MAX && old(self).cap() is Some && old(
                self,
            )@.dom().len() == old(self).cap()->0 && !old(self)@.contains_key(key@) && (forall|
                k: Seq<char>,
            |
                #[trigger] old(self)@.contains_key(k) ==> old(self)@[k].expiry is None) ==> r
                is Err,
    {
        if ttl_secs > 0x7fff_ffff_ffff_ffff {
            return Err(Error::Timestamp);
        }
        let e: i64 = match now.checked_add(ttl_secs as i64) {
            Some(e) => e,
            None => {
                return Err(Error::Timestamp);
            },
        };
        let d = Data { value: value.to_owned(), expiry: Some(e) };
        self.set_data(now, key, d)
    }

    /// The shared write path: run the capacity check and eviction pass,
    /// then store `d` under `key`.
    fn set_data(&mut self, now: i64, key: &str, d: Data) -> (r: Result<(), Error>)
        requires
            old(self).wf(),
        ensures
            final(self).wf(),
            final(self).cap() == old(self).cap(),
            match r {
                Ok(()) => exists|mid: Map<Seq<char>, SEntry>|
                    (mid == old(self)@ || evicted_batch_ok(
                        old(self)@,
                        mid,
                        now as int,
                        eviction_batch(old(self).cap()->0 as int),
                    )) && final(self)@ == #[trigger] mid.insert(key@, d@),
                Err(e) => {
                    &&& e == Error::Capacity
                    &&& final(self)@ == old(self)@
                    &&& old(self).cap() is Some
                    &&& old(self)@.dom().len() == old(self).cap()->0
                    &&& !old(self)@.contains_key(key@)
                    &&& forall|k: Seq<char>|
                        #[trigger] old(self)@.contains_key(k) ==> old(self)@[k].expiry is None
                },
            },
            !(old(self).cap() is Some && old(self)@.dom().len() == old(self).cap()->0) ==> r is Ok
                && final(self)@ == old(self)@.insert(key@, d@),
            old(self).cap() is Some && old(self)@.dom().len() == old(self).cap()->0 && !old(
                self,
            )@.contains_key(key@) && (forall|k: Seq<char>|
                #[trigger] old(self)@.contains_key(k) ==> old(self)@[k].expiry is None) ==> r
                is Err,
    {
        let key_s = key.to_owned();
        proof {
            lemma_kv_map_len(self.entries@);
            lemma_kv_map_contains(self.entries@, key@);
        }
        let at_capacity = match self.capacity {
            Some(x) => x == self.entries.len(),
            None => false,
        };
        if at_capacity {
            let x = match self.capacity {
                Some(x) => x,
                None => 0,  // unreachable: the store is at capacity
            };
            let num = if x / 10 < 1 {
                1
            } else {
                x / 10
            };
            let ghost pre = self@;
            let freed = self.gc(now, num);
            proof {
                lemma_kv_map_len(self.entries@);
                lemma_kv_map_contains(self.entries@, key@);
                assert(num as int == eviction_batch(x as int));
                assert(evicted_batch_ok(pre, self@, now as int, num as int));
                // with every entry live and permanent, eviction frees nothing
                if forall|k: Seq<char>| #[trigger] pre.contains_key(k) ==> pre[k].expiry is None {
                    assert forall|k: Seq<char>| #[trigger] pre.contains_key(
                        k,
                    ) implies self@.contains_key(k) by {}
                    assert(pre.dom() =~= self@.dom());
                    assert(freed == 0);
                }
            }
            if freed == 0 {
                let missing = match self.find_index(&key_s) {
                    Some(_) => false,
                    None => true,
                };
                if missing {
                    return Err(Error::Capacity);
                }
            }
            let ghost mid = self@;
            self.upsert(key_s, d);
            proof {
                assert((mid == pre || evicted_batch_ok(
                    pre,
                    mid,
                    now as int,
                    eviction_batch(old(self).cap()->0 as int),
                )) && self@ == mid.insert(key@, d@));
            }
            Ok(())
        } else {
            let ghost mid = self@;
            self.upsert(key_s, d);
            proof {
                assert(mid == old(self)@ && self@ == mid.insert(key@, d@));
            }
            Ok(())
        }
    }
}

impl Default for DefaultBackend {
    /// An unbounded backend with no entries.
    fn default() -> (r: Self)
        ensures
            r.wf(),
            r@ == Map::<Seq<char>, SEntry>::empty(),
            r.cap() is None,
    {
        DefaultBackend::new(None)
    }
}

/// Relies on chrono's Utc::now: the current time, as whole seconds since
/// the Unix epoch.
#[verifier::external_body]
fn unix_now() -> i64 {
    chrono::Utc::now().timestamp()
}

impl crate::memorydb::interface::MemoryDB for DefaultBackend {
    open spec fn contents(&self) -> Map<Seq<char>, SEntry> {
        self@
    }

    open spec fn inv(&self) -> bool {
        self.wf()
    }

    closed spec fn requested_ttl(&self) -> Map<Seq<char>, int> {
        self.requested@
    }

    fn set(&mut self, key: &str, value: &str) -> (r: Result<(), Error>) {
        let now = unix_now();
        match self.set_at(now, key, value) {
            Ok(()) => Ok(()),
            Err(e) => Err(e),
        }
    }

    fn set_ex(&mut self, key: &str, value: &str, ttl_secs: u64) -> (r: Result<(), Error>) {
        let now = unix_now();
        let ghost pre_requested = self.requested@;
        match self.set_ex_at(now, key, value, ttl_secs) {
            Ok(()) => {
                self.requested = Ghost(pre_requested.insert(key@, ttl_secs as int));
                Ok(())
            },
            Err(e) => Err(e),
        }
    }

    fn get(&mut self, key: &str) -> (r: Result<Option<String>, Error>) {
        let now = unix_now();
        self.get_at(now, key)
    }

    fn get_del(&mut self, key: &str) -> (r: Result<Option<String>, Error>) {
        let now = unix_now();
        self.get_del_at(now, key)
    }

    fn get_ex(&mut self, key: &str, ttl_secs: u64) -> (r: Result<Option<String>, Error>) {
        let now = unix_now();
        self.get_ex_at(now, key, ttl_secs)
    }

    fn del(&mut self, key: &str) -> (r: Result<bool, Error>) {
        DefaultBackend::del(self, key)
    }

    fn expire(&mut self, key: &str, ttl: i64) -> (r: Result<bool, Error>) {
        let now = unix_now();
        self.expire_at(now, key, ttl)
    }

    fn flush(&mut self) -> (r: Result<(), Error>) {
        DefaultBackend::flush(self)
    }

    fn keys(&mut self, pattern: &str) -> (r: Result<Vec<String>, Error>) {
        let now = unix_now();
        self.keys_at(now, pattern)
    }

    fn dels(&mut self, keys: &[String]) -> (r: Result<u64, Error>) {
        DefaultBackend::dels(self, keys)
    }

    fn ttl(&mut self, key: &str) -> (r: Result<Option<i64>, Error>) {
        let now = unix_now();
        self.ttl_at(now, key)
    }
}

} // verus!
