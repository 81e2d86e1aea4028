//! The session store: maps session keys to serialized session state
//! through a pluggable key-value backend, handling serialization, the
//! backend-key derivation and time-to-live bookkeeping.

use vstd::prelude::*;

use crate::error::Error;
use crate::memorydb::interface::{lookup_at, MemoryDB, SEntry};
use crate::session::json::{dec_state, enc_state};
use crate::session::key::{generate_session_key, SessionKey};
use crate::session::state::{pair_keys_unique_views, SessionState};
use crate::utils::is_alnum_char;

verus! {

/// How a session key is turned into the backend key it is stored under;
/// the default leaves it untouched, a prefix lets several deployments
/// share one backend without key collisions. The derivations are a closed
/// set on purpose: each one is a plain function the store contracts can
/// state exactly, so every caller knows which backend key an operation
/// touches.
#[derive(Debug, Clone)]
pub enum KeyTransform {
    /// The backend key is the session key itself.
    Identity,
    /// The backend key is the given prefix followed by the session key.
    Prefixed(String),
}

/// The backend key derived from session key `k`.
pub open spec fn apply_transform(t: KeyTransform, k: Seq<char>) -> Seq<char> {
    match t {
        KeyTransform::Identity => k,
        KeyTransform::Prefixed(p) => p@ + k,
    }
}

fn transform_key(t: &KeyTransform, k: &str) -> (r: String)
    ensures
        r@ == apply_transform(*t, k@),
{
    match t {
        KeyTransform::Identity => k.to_owned(),
        KeyTransform::Prefixed(p) => {
            let mut out = p.clone();
            out.append(k);
            out
        },
    }
}

/// What a stored state value decodes to: the decoded pairs, provided they
/// carry no duplicate key (the canonical encoding never does).
pub open spec fn decoded_state(v: Seq<char>) -> Option<Seq<(Seq<char>, Seq<char>)>> {
    match dec_state(v) {
        Some(ps) => if pair_keys_unique_views(ps) {
            Some(ps)
        } else {
            None
        },
        None => None,
    }
}

/// Decoding a canonically encoded state recovers exactly the original
/// pairs: persisting session state loses no information.
pub proof fn lemma_store_roundtrip(ps: Seq<(Seq<char>, Seq<char>)>)
    requires
        pair_keys_unique_views(ps),
    ensures
        decoded_state(enc_state(ps)) == Some(ps),
{
    crate::session::json::lemma_state_roundtrip(ps);
}

/// A hit after a save recovers exactly the saved pairs: when the backend
/// still holds the entry a save wrote — the canonical encoding of `ps` —
/// and a later load decodes that entry to `qs`, then `qs` is `ps`. With
/// the pair/map bridge of the state module this is the store round trip,
/// conditioned only on the entry's survival under the clock.
pub proof fn lemma_save_then_load_hit(
    b: Map<Seq<char>, SEntry>,
    ck: Seq<char>,
    ps: Seq<(Seq<char>, Seq<char>)>,
    qs: Seq<(Seq<char>, Seq<char>)>,
)
    requires
        pair_keys_unique_views(ps),
        b.contains_key(ck),
        b[ck].value == enc_state(ps),
        decoded_state(b[ck].value) == Some(qs),
    ensures
        qs == ps,
{
    lemma_store_roundtrip(ps);
}

/// The session fixation defence, in one statement: after a renewal whose
/// fresh backend key differs from the old one, the old key's entry is no
/// longer stored — so the old key reads as absent at every time — while a
/// hit on the fresh entry recovers exactly the renewed session's pairs.
pub proof fn lemma_renewed_key_supersedes(
    post: Map<Seq<char>, SEntry>,
    ck_old: Seq<char>,
    ck_new: Seq<char>,
    ps: Seq<(Seq<char>, Seq<char>)>,
    qs: Seq<(Seq<char>, Seq<char>)>,
    now: int,
)
    requires
        !post.contains_key(ck_old),
        pair_keys_unique_views(ps),
        post.contains_key(ck_new),
        post[ck_new].value == enc_state(ps),
        decoded_state(post[ck_new].value) == Some(qs),
    ensures
        lookup_at(post, ck_old, now) is None,
        qs == ps,
{
    lemma_store_roundtrip(ps);
}

/// Maps session keys to session state through a key-value backend.
pub struct SessionStore<M: MemoryDB> {
    client: M,
    keygen: KeyTransform,
}

impl<M: MemoryDB> SessionStore<M> {
    /// The store is usable: its backend is.
    pub closed spec fn inv(&self) -> bool {
        self.client.inv()
    }

    /// The backend contents.
    pub closed spec fn backend(&self) -> Map<Seq<char>, SEntry> {
        self.client.contents()
    }

    /// The configured backend-key derivation.
    pub closed spec fn transform(&self) -> KeyTransform {
        self.keygen
    }

    /// The backend's record of the time-to-live each key was last written
    /// with.
    pub closed spec fn requested(&self) -> Map<Seq<char>, int> {
        self.client.requested_ttl()
    }

    /// The backend key a session key is stored under.
    pub open spec fn cache_key(&self, k: Seq<char>) -> Seq<char> {
        apply_transform(self.transform(), k)
    }

    /// A store over `client` with the identity key derivation.
    pub fn new(client: M) -> (r: SessionStore<M>)
        requires
            client.inv(),
        ensures
            r.inv(),
            r.backend() == client.contents(),
            r.transform() is Identity,
    {
        SessionStore { client, keygen: KeyTransform::Identity }
    }

    /// Replaces the backend-key derivation, for callers that namespace
    /// their backend keys.
    pub fn cache_keygen(&mut self, keygen: KeyTransform)
        requires
            old(self).inv(),
        ensures
            final(self).inv(),
            final(self).backend() == old(self).backend(),
            final(self).transform() == keygen,
    {
        self.keygen = keygen;
    }

    /// Loads the state stored under `session_key`. A missing, expired or
    /// undecodable entry reads as an absent session, never as an error:
    /// the caller treats it as "session state lost".
    pub fn load(&mut self, session_key: &SessionKey) -> (r: Result<Option<SessionState>, Error>)
        requires
            old(self).inv(),
        ensures
            final(self).inv(),
            final(self).transform() == old(self).transform(),
            final(self).backend() == old(self).backend() || final(self).backend() == old(
                self,
            ).backend().remove(old(self).cache_key(session_key@)),
            match r {
                Ok(Some(st)) => {
                    &&& old(self).backend().contains_key(old(self).cache_key(session_key@))
                    &&& decoded_state(
                        old(self).backend()[old(self).cache_key(session_key@)].value,
                    ) == Some(st.pairs())
                    &&& st.wf()
                },
                Ok(None) => !(old(self).backend().contains_key(old(self).cache_key(session_key@))
                    && old(self).backend()[old(self).cache_key(session_key@)].expiry is None
                    && decoded_state(
                    old(self).backend()[old(self).cache_key(session_key@)].value,
                ) is Some),
                Err(_) => true,
            },
    {
        let cache_key = transform_key(&self.keygen, session_key.as_str());
        match self.client.get(cache_key.as_str()) {
            Ok(None) => Ok(None),
            Ok(Some(v)) => match crate::session::json::decode_pairs(v.as_str()) {
                Some(pairs) => match SessionState::from_pairs(pairs) {
                    Some(st) => Ok(Some(st)),
                    None => Ok(None),
                },
                None => Ok(None),
            },
            Err(e) => Err(e),
        }
    }

    /// Persists `state` under a freshly generated session key with the
    /// given time-to-live (negative values are clamped to zero), and
    /// returns the new key.
    pub fn save(&mut self, state: &SessionState, ttl: i64) -> (r: Result<SessionKey, Error>)
        requires
            old(self).inv(),
            state.wf(),
        ensures
            final(self).inv(),
            final(self).transform() == old(self).transform(),
            match r {
                Ok(k) => {
                    &&& k.wf() && k@.len() == 64
                    &&& forall|i: int| 0 <= i < k@.len() ==> is_alnum_char(#[trigger] k@[i])
                    &&& final(self).backend().contains_key(final(self).cache_key(k@))
                    &&& final(self).backend()[final(self).cache_key(k@)].value == enc_state(
                        state.pairs(),
                    )
                    &&& final(self).backend()[final(self).cache_key(k@)].expiry is Some
                    &&& final(self).backend().dom().subset_of(
                        old(self).backend().dom().insert(final(self).cache_key(k@)),
                    )
                    &&& forall|k2: Seq<char>|
                        k2 != final(self).cache_key(k@)
                            && #[trigger] final(self).backend().contains_key(k2) ==> old(
                            self,
                        ).backend().contains_key(k2) && final(self).backend()[k2] == old(
                            self,
                        ).backend()[k2]
                    &&& final(self).requested().contains_key(final(self).cache_key(k@))
                    &&& final(self).requested()[final(self).cache_key(k@)] == (if ttl < 0 {
                        0int
                    } else {
                        ttl as int
                    })
                },
                Err(_) => true,
            },
    {
        let body = crate::session::json::encode_pairs(state.entries());
        let session_key = generate_session_key();
        let cache_key = transform_key(&self.keygen, session_key.as_str());
        let ttl_secs: u64 = if ttl < 0 {
            0
        } else {
            ttl as u64
        };
        match self.client.set_ex(cache_key.as_str(), body.as_str(), ttl_secs) {
            Ok(()) => Ok(session_key),
            Err(e) => Err(e),
        }
    }

    /// Overwrites the state stored under `session_key`, refreshing its
    /// time-to-live, and hands the same key back.
    pub fn update(&mut self, session_key: SessionKey, state: &SessionState, ttl: i64) -> (r:
        Result<SessionKey, Error>)
        requires
            old(self).inv(),
            state.wf(),
        ensures
            final(self).inv(),
            final(self).transform() == old(self).transform(),
            match r {
                Ok(k) => {
                    &&& k@ == session_key@
                    &&& final(self).backend().contains_key(final(self).cache_key(k@))
                    &&& final(self).backend()[final(self).cache_key(k@)].value == enc_state(
                        state.pairs(),
                    )
                    &&& final(self).backend()[final(self).cache_key(k@)].expiry is Some
                    &&& final(self).backend().dom().subset_of(
                        old(self).backend().dom().insert(final(self).cache_key(k@)),
                    )
                    &&& forall|k2: Seq<char>|
                        k2 != final(self).cache_key(k@)
                            && #[trigger] final(self).backend().contains_key(k2) ==> old(
                            self,
                        ).backend().contains_key(k2) && final(self).backend()[k2] == old(
                            self,
                        ).backend()[k2]
                    &&& final(self).requested().contains_key(final(self).cache_key(k@))
                    &&& final(self).requested()[final(self).cache_key(k@)] == (if ttl < 0 {
                        0int
                    } else {
                        ttl as int
                    })
                },
                Err(_) => true,
            },
    {
        let body = crate::session::json::encode_pairs(state.entries());
        let cache_key = transform_key(&self.keygen, session_key.as_str());
        let ttl_secs: u64 = if ttl < 0 {
            0
        } else {
            ttl as u64
        };
        match self.client.set_ex(cache_key.as_str(), body.as_str(), ttl_secs) {
            Ok(()) => Ok(session_key),
            Err(e) => Err(e),
        }
    }

    /// Refreshes the time-to-live of the entry stored under `session_key`
    /// without touching its value; a non-positive `ttl` removes it.
    pub fn update_ttl(&mut self, session_key: &SessionKey, ttl: i64) -> (r: Result<(), Error>)
        requires
            old(self).inv(),
        ensures
            final(self).inv(),
            final(self).transform() == old(self).transform(),
            ttl <= 0 && r is Ok ==> final(self).backend() == old(self).backend().remove(
                old(self).cache_key(session_key@),
            ),
            ttl > 0 && r is Ok ==> {
                let ck = old(self).cache_key(session_key@);
                (old(self).backend().contains_key(ck) && exists|e: int|
                    final(self).backend() == old(self).backend().insert(
                        ck,
                        (SEntry { value: old(self).backend()[ck].value, expiry: Some(e) }),
                    )) || ((final(self).backend() == old(self).backend() || final(self).backend()
                    == old(self).backend().remove(ck)) && !(old(self).backend().contains_key(ck)
                    && old(self).backend()[ck].expiry is None))
            },
    {
        let cache_key = transform_key(&self.keygen, session_key.as_str());
        match self.client.expire(cache_key.as_str(), ttl) {
            Ok(_) => Ok(()),
            Err(e) => Err(e),
        }
    }

    /// Removes the entry stored under `session_key`; a missing entry is
    /// not an error.
    pub fn delete(&mut self, session_key: &SessionKey) -> (r: Result<(), Error>)
        requires
            old(self).inv(),
        ensures
            final(self).inv(),
            final(self).transform() == old(self).transform(),
            r is Ok ==> final(self).backend() == old(self).backend().remove(
                old(self).cache_key(session_key@),
            ),
    {
        let cache_key = transform_key(&self.keygen, session_key.as_str());
        match self.client.del(cache_key.as_str()) {
            Ok(_) => Ok(()),
            Err(e) => Err(e),
        }
    }

    /// A mutable borrow of the backend, for direct backend operations.
    pub fn client_mut(&mut self) -> (r: &mut M)
        ensures
            *r == old(self).client_view(),
            final(self).client_view() == *final(r),
            final(self).transform() == old(self).transform(),
    {
        &mut self.client
    }

    /// The backend value itself, for contracts that relate it to borrows.
    pub closed spec fn client_view(&self) -> M {
        self.client
    }
}

} // verus!
