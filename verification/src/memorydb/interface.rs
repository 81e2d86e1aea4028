//! The pluggable key-value backend interface: get/set/delete/expire/scan
//! primitives with per-key time-to-live, shared by the in-process store and
//! by remote implementations supplied by the embedding application.

use vstd::prelude::*;

use crate::error::Error;
use crate::pattern::glob_match;

verus! {

/// One stored entry as specifications see it: the value and the absolute
/// expiry timestamp (seconds), if any.
pub struct SEntry {
    pub value: Seq<char>,
    pub expiry: Option<int>,
}

/// Whether an entry is still live at time `now`: entries without an expiry
/// never die; others die the moment `now` reaches the expiry.
pub open spec fn entry_valid_at(e: SEntry, now: int) -> bool {
    match e.expiry {
        Some(x) => x > now,
        None => true,
    }
}

/// What a read of key `k` at time `now` observes in contents `m`: the value
/// if the key is present and live, absent otherwise. An expired entry is
/// indistinguishable from a missing one.
pub open spec fn lookup_at(m: Map<Seq<char>, SEntry>, k: Seq<char>, now: int) -> Option<
    Seq<char>,
> {
    if m.contains_key(k) && entry_valid_at(m[k], now) {
        Some(m[k].value)
    } else {
        None
    }
}

/// `post` is `pre` after an eviction pass at time `now`: survivors keep
/// their entries, entries without an expiry always survive, no expired
/// entry survives, and any live entry that was evicted had an expiry no
/// later than every surviving entry that has one.
pub open spec fn evict_ok(
    pre: Map<Seq<char>, SEntry>,
    post: Map<Seq<char>, SEntry>,
    now: int,
) -> bool {
    &&& post.dom().subset_of(pre.dom())
    &&& forall|k: Seq<char>| #[trigger] post.contains_key(k) ==> post[k] == pre[k]
    &&& forall|k: Seq<char>|
        #[trigger] pre.contains_key(k) && pre[k].expiry is None ==> post.contains_key(k)
    &&& forall|k: Seq<char>| #[trigger] post.contains_key(k) ==> entry_valid_at(pre[k], now)
    &&& forall|k1: Seq<char>, k2: Seq<char>|
        #![trigger post.contains_key(k1), post.contains_key(k2)]
        pre.contains_key(k1) && !post.contains_key(k1) && entry_valid_at(pre[k1], now)
            && post.contains_key(k2) && post[k2].expiry is Some ==> pre[k1].expiry->0
            <= post[k2].expiry->0
}

/// The set of character-sequence views of a sequence of key strings.
pub open spec fn key_set(ks: Seq<String>) -> Set<Seq<char>> {
    Set::new(|k: Seq<char>| exists|i: int| 0 <= i < ks.len() && (#[trigger] ks[i])@ == k)
}

/// A key-value store with per-key time-to-live.
///
/// All operations are fallible; an implementation backed by a remote store
/// may return an error whenever the backend is unavailable. The contracts
/// relate each call to the abstract contents: a map from keys to entries.
/// Because the clock advances between calls, contracts mention concrete
/// expiry timestamps only existentially; the in-process implementation
/// offers exact clock-explicit variants of each operation.
///
/// Only implementations inside this library are verified against these
/// contracts. An implementation written outside it keeps the default
/// `contents` (the empty map), so nothing these contracts promise carries
/// over to it: whatever is proved about the session layer holds, for such
/// a backend, only on trust in that implementation.
pub trait MemoryDB: Sized {
    /// The abstract contents: every physically stored entry, including
    /// entries that have expired but have not been cleaned up yet. An
    /// implementation outside the verified world keeps the default, about
    /// which nothing is promised.
    open spec fn contents(&self) -> Map<Seq<char>, SEntry> {
        Map::empty()
    }

    /// The implementation's internal well-formedness condition.
    open spec fn inv(&self) -> bool {
        true
    }

    /// The relative time-to-live each key was last written with, where the
    /// implementation keeps that record — specification-only bookkeeping
    /// that lets callers state which time-to-live a write used.
    open spec fn requested_ttl(&self) -> Map<Seq<char>, int> {
        Map::empty()
    }

    /// Unconditional upsert without a time-to-live; the entry persists until
    /// deleted or evicted. May evict other entries when at capacity, but
    /// never changes a surviving entry.
    fn set(&mut self, key: &str, value: &str) -> (r: Result<(), Error>)
        requires
            old(self).inv(),
        ensures
            final(self).inv(),
            r is Ok ==> final(self).contents().contains_key(key@) && final(self).contents()[key@] == (SEntry {
                value: value@,
                expiry: None,
            }),
            r is Ok ==> final(self).contents().dom().subset_of(old(self).contents().dom().insert(key@)),
            r is Ok ==> forall|k: Seq<char>|
                k != key@ && #[trigger] final(self).contents().contains_key(k) ==> old(
                    self,
                ).contents().contains_key(k) && final(self).contents()[k] == old(self).contents()[k],
    ;

    /// Upsert with an absolute expiry of now + `ttl_secs`.
    fn set_ex(&mut self, key: &str, value: &str, ttl_secs: u64) -> (r: Result<(), Error>)
        requires
            old(self).inv(),
        ensures
            final(self).inv(),
            r is Ok ==> final(self).requested_ttl() == old(self).requested_ttl().insert(
                key@,
                ttl_secs as int,
            ),
            r is Ok ==> final(self).contents().contains_key(key@) && final(self).contents()[key@].value
                == value@ && final(self).contents()[key@].expiry is Some,
            r is Ok ==> final(self).contents().dom().subset_of(old(self).contents().dom().insert(key@)),
            r is Ok ==> forall|k: Seq<char>|
                k != key@ && #[trigger] final(self).contents().contains_key(k) ==> old(
                    self,
                ).contents().contains_key(k) && final(self).contents()[k] == old(self).contents()[k],
    ;

    /// Read a key. Expired entries read as absent and may be removed on the
    /// way; a hit never changes the contents.
    fn get(&mut self, key: &str) -> (r: Result<Option<String>, Error>)
        requires
            old(self).inv(),
        ensures
            final(self).inv(),
            final(self).contents() == old(self).contents() || final(self).contents() == old(
                self,
            ).contents().remove(key@),
            match r {
                Ok(Some(v)) => old(self).contents().contains_key(key@) && old(
                    self,
                ).contents()[key@].value == v@ && final(self).contents() == old(self).contents(),
                Ok(None) => !(old(self).contents().contains_key(key@) && old(
                    self,
                ).contents()[key@].expiry is None),
                Err(_) => true,
            },
    ;

    /// Atomic read-and-remove; returns the value only if it was live at
    /// removal time.
    fn get_del(&mut self, key: &str) -> (r: Result<Option<String>, Error>)
        requires
            old(self).inv(),
        ensures
            final(self).inv(),
            r is Ok ==> final(self).contents() == old(self).contents().remove(key@),
            match r {
                Ok(Some(v)) => old(self).contents().contains_key(key@) && old(
                    self,
                ).contents()[key@].value == v@,
                Ok(None) => !(old(self).contents().contains_key(key@) && old(
                    self,
                ).contents()[key@].expiry is None),
                Err(_) => true,
            },
    ;

    /// Atomic read plus time-to-live refresh, with `get`'s validity rules.
    fn get_ex(&mut self, key: &str, ttl_secs: u64) -> (r: Result<Option<String>, Error>)
        requires
            old(self).inv(),
        ensures
            final(self).inv(),
            match r {
                Ok(Some(v)) => old(self).contents().contains_key(key@) && old(
                    self,
                ).contents()[key@].value == v@ && exists|e: int|
                    final(self).contents() == old(self).contents().insert(
                        key@,
                        SEntry { value: v@, expiry: Some(e) },
                    ),
                Ok(None) => !(old(self).contents().contains_key(key@) && old(
                    self,
                ).contents()[key@].expiry is None) && (final(self).contents() == old(self).contents()
                    || final(self).contents() == old(self).contents().remove(key@)),
                Err(_) => true,
            },
    ;

    /// Remove a key; reports whether anything was stored under it, expired
    /// or not.
    fn del(&mut self, key: &str) -> (r: Result<bool, Error>)
        requires
            old(self).inv(),
        ensures
            final(self).inv(),
            r is Ok ==> final(self).contents() == old(self).contents().remove(key@) && r->Ok_0 == old(
                self,
            ).contents().contains_key(key@),
    ;

    /// Reset the time-to-live of a key; a non-positive `ttl` removes it
    /// like `del`. Either way the call reports whether a live entry was
    /// found: an expired leftover reads as missing.
    fn expire(&mut self, key: &str, ttl: i64) -> (r: Result<bool, Error>)
        requires
            old(self).inv(),
        ensures
            final(self).inv(),
            ttl <= 0 && r is Ok ==> final(self).contents() == old(self).contents().remove(key@)
                && (r->Ok_0 ==> old(self).contents().contains_key(key@)) && (old(
                self,
            ).contents().contains_key(key@) && old(self).contents()[key@].expiry is None
                ==> r->Ok_0),
            ttl > 0 ==> match r {
                Ok(true) => old(self).contents().contains_key(key@) && exists|e: int|
                    final(self).contents() == old(self).contents().insert(
                        key@,
                        SEntry { value: old(self).contents()[key@].value, expiry: Some(e) },
                    ),
                Ok(false) => (final(self).contents() == old(self).contents() || final(self).contents() == old(
                    self,
                ).contents().remove(key@)) && !(old(self).contents().contains_key(key@) && old(
                    self,
                ).contents()[key@].expiry is None),
                Err(_) => true,
            },
    ;

    /// Remove every entry unconditionally.
    fn flush(&mut self) -> (r: Result<(), Error>)
        requires
            old(self).inv(),
        ensures
            final(self).inv(),
            r is Ok ==> final(self).contents() == Map::<Seq<char>, SEntry>::empty(),
    ;

    /// The stored keys that are live and match the glob `pattern`
    /// (`*` and `?` wildcards), without duplicates. Every never-expiring
    /// matching key is listed; expired keys never are.
    fn keys(&mut self, pattern: &str) -> (r: Result<Vec<String>, Error>)
        requires
            old(self).inv(),
        ensures
            final(self).inv(),
            final(self).contents() == old(self).contents(),
            match r {
                Ok(v) => {
                    &&& forall|i: int|
                        0 <= i < v@.len() ==> old(self).contents().contains_key(
                            (#[trigger] v@[i])@,
                        ) && glob_match(pattern@, v@[i]@)
                    &&& forall|i: int, j: int| 0 <= i < j < v@.len() ==> v@[i]@ != v@[j]@
                    &&& forall|k: Seq<char>|
                        #[trigger] old(self).contents().contains_key(k) && old(
                            self,
                        ).contents()[k].expiry is None && glob_match(pattern@, k) ==> exists|i: int|
                            0 <= i < v@.len() && (#[trigger] v@[i])@ == k
                },
                Err(_) => true,
            },
    ;

    /// Remove a batch of keys; returns how many entries were actually
    /// removed.
    fn dels(&mut self, keys: &[String]) -> (r: Result<u64, Error>)
        requires
            old(self).inv(),
        ensures
            final(self).inv(),
            r is Ok ==> final(self).contents() == old(self).contents().remove_keys(key_set(keys@))
                && r->Ok_0 as int == old(self).contents().dom().intersect(
                key_set(keys@),
            ).len() as int,
    ;

    /// The remaining time-to-live of a key, in seconds; absent for missing,
    /// expired or never-expiring entries.
    fn ttl(&mut self, key: &str) -> (r: Result<Option<i64>, Error>)
        requires
            old(self).inv(),
        ensures
            final(self).inv(),
            final(self).contents() == old(self).contents() || final(self).contents() == old(
                self,
            ).contents().remove(key@),
            match r {
                Ok(Some(t)) => old(self).contents().contains_key(key@) && old(
                    self,
                ).contents()[key@].expiry is Some && final(self).contents() == old(self).contents(),
                Ok(None) => true,
                Err(_) => true,
            },
    ;
}

/// Setting a key without a time-to-live and reading it back yields that
/// value, however much the clock has advanced in between: entries without
/// an expiry persist until removed.
pub proof fn lemma_set_then_get(m: Map<Seq<char>, SEntry>, k: Seq<char>, v: Seq<char>, now: int)
    ensures
        lookup_at(m.insert(k, SEntry { value: v, expiry: None }), k, now) == Some(v),
{
}

/// Deleting a key makes it read as absent, at any time.
pub proof fn lemma_del_then_get(m: Map<Seq<char>, SEntry>, k: Seq<char>, now: int)
    ensures
        lookup_at(m.remove(k), k, now) is None,
{
}

/// Setting a key with an absolute expiry reads back as the value strictly
/// before the expiry, and as absent from the expiry on.
pub proof fn lemma_set_ex_then_get(
    m: Map<Seq<char>, SEntry>,
    k: Seq<char>,
    v: Seq<char>,
    e: int,
    now: int,
)
    ensures
        lookup_at(m.insert(k, SEntry { value: v, expiry: Some(e) }), k, now) == (if e > now {
            Some(v)
        } else {
            None
        }),
{
}

} // verus!
