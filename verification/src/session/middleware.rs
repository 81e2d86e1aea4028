//! The session middleware state machine. Per request: extract and verify
//! the session cookie, load the stored state, hand a session container to
//! the handler, and afterwards reconcile what the handler did with the
//! backend and decide what cookie, if any, goes out with the response.

use vstd::prelude::*;

use crate::error::Error;
use crate::memorydb::interface::{lookup_at, MemoryDB, SEntry};
use crate::session::config::{
    Configuration, CookieConfiguration, CookieContentSecurity, SameSitePolicy,
    SessionMiddlewareBuilder, TtlExtensionPolicy,
};
use crate::session::json::enc_state;
use crate::session::key::SessionKey;
use crate::session::state::{Session, SessionState, SessionStatus};
use crate::session::storage::SessionStore;
use crate::strutil::{parse_i64, spec_parse_i64};
use vstd::utf8::encode_utf8;

verus! {

/// The cookie the application should attach to the response: either a
/// fresh session cookie carrying a sealed value, or a removal cookie that
/// tells the client to drop the session.
#[derive(Debug)]
pub struct CookiePlan {
    pub name: String,
    pub value: String,
    pub secure: bool,
    pub http_only: bool,
    pub same_site: SameSitePolicy,
    pub path: String,
    pub domain: Option<String>,
    pub max_age: Option<i64>,
    /// When set, the cookie removes the session: empty value, immediate
    /// expiry.
    pub removal: bool,
}

/// What cookie verification yields for given key material, mode, cookie
/// name and raw value: the inner value when the signature check (or
/// authenticated decryption) succeeds, absent otherwise. Verification is
/// deterministic — a function of these arguments alone — so its result
/// carries a name; only sealing draws randomness.
pub uninterp spec fn open_of(
    key: Seq<u8>,
    signed: bool,
    name: Seq<char>,
    raw: Seq<char>,
) -> Option<Seq<char>>;

/// Relies on the cookie crate's `CookieJar::signed_mut` / `private_mut`
/// (re-exported by the host web framework): the cookie value sealed with
/// the given master key — a MAC-protected token when signing, an
/// AEAD-encrypted token otherwise. The crate's jars verify what they
/// themselves sealed, whatever nonce the encryption drew, so the result
/// always opens back to `value` under the same key, mode and name.
#[verifier::external_body]
fn seal_cookie(key: &[u8], signed: bool, name: &str, value: &str) -> (r: String)
    requires
        key@.len() >= 64,
    ensures
        open_of(key@, signed, name@, r@) == Some(value@),
{
    let k = cookie::Key::from(key);
    let mut jar = cookie::CookieJar::new();
    let c = cookie::Cookie::new(name.to_owned(), value.to_owned());
    if signed {
        jar.signed_mut(&k).add(c);
    } else {
        jar.private_mut(&k).add(c);
    }
    match jar.delta().next() {
        Some(c) => c.value().to_owned(),
        None => String::new(),
    }
}

/// Relies on the cookie crate's `SignedJar::get` / `PrivateJar::get`: the
/// verified (or authentically decrypted) cookie value, or nothing when the
/// check fails.
#[verifier::external_body]
fn open_cookie(key: &[u8], signed: bool, name: &str, raw_value: &str) -> (r: Option<String>)
    requires
        key@.len() >= 64,
    ensures
        match r {
            Some(v) => open_of(key@, signed, name@, raw_value@) == Some(v@),
            None => open_of(key@, signed, name@, raw_value@) is None,
        },
{
    let k = cookie::Key::from(key);
    let mut jar = cookie::CookieJar::new();
    jar.add_original(cookie::Cookie::new(name.to_owned(), raw_value.to_owned()));
    let got = if signed {
        jar.signed(&k).get(name)
    } else {
        jar.private(&k).get(name)
    };
    got.map(|c| c.value().to_owned())
}

/// The per-request time-to-live: a numeric value stored under the
/// reserved `_ttl` state key overrides the configured default for this
/// reconciliation pass.
pub open spec fn effective_ttl(state: Map<Seq<char>, Seq<char>>, default_ttl: int) -> int {
    if state.contains_key("_ttl"@) && spec_parse_i64(state["_ttl"@]) is Some {
        spec_parse_i64(state["_ttl"@])->0
    } else {
        default_ttl
    }
}

/// Whether the state carries a valid per-request time-to-live override.
pub open spec fn has_ttl_override(state: Map<Seq<char>, Seq<char>>) -> bool {
    state.contains_key("_ttl"@) && spec_parse_i64(state["_ttl"@]) is Some
}

/// An optional machine integer, widened for specifications.
pub open spec fn opt_int(v: Option<i64>) -> Option<int> {
    match v {
        Some(x) => Some(x as int),
        None => None,
    }
}

/// An optional string slice, viewed.
pub open spec fn opt_str_view(v: Option<&str>) -> Option<Seq<char>> {
    match v {
        Some(x) => Some(x@),
        None => None,
    }
}

/// The session key a configuration extracts from an optional raw cookie
/// value: the verified inner value, provided it fits the session key size
/// ceiling; anything else — absence, tamper, oversize — extracts nothing.
pub open spec fn extracted_key(c: CookieConfiguration, raw: Option<Seq<char>>) -> Option<
    Seq<char>,
> {
    match raw {
        Some(v) => match open_of(c.key@, c.content_security is Signed, c.name@, v) {
            Some(k) => if encode_utf8(k).len() <= 4064 {
                Some(k)
            } else {
                None
            },
            None => None,
        },
        None => None,
    }
}

/// What a positive time-to-live refresh leaves of backend `pre` at key
/// `ck`: a live entry keeps its value under a new expiry; a missing or
/// expired entry reads as absent — unchanged or lazily removed — and a
/// live entry without expiry is never reported missing.
pub open spec fn ttl_refresh_ok(
    pre: Map<Seq<char>, SEntry>,
    post: Map<Seq<char>, SEntry>,
    ck: Seq<char>,
) -> bool {
    ||| pre.contains_key(ck) && exists|e: int|
        post == pre.insert(ck, (SEntry { value: pre[ck].value, expiry: Some(e) }))
    ||| (post == pre || post == pre.remove(ck)) && !(pre.contains_key(ck) && pre[ck].expiry
        is None)
}

/// The cookie value `v` opens, under configuration `c`, to exactly the
/// session key `k`: the issued token is valid and carries that key.
pub open spec fn seals_key(c: CookieConfiguration, v: Seq<char>, k: Seq<char>) -> bool {
    open_of(c.key@, c.content_security is Signed, c.name@, v) == Some(k)
}

/// The cookie attributes a plan carries match the configuration.
pub open spec fn plan_matches_config(p: CookiePlan, c: CookieConfiguration) -> bool {
    &&& p.name@ == c.name@
    &&& p.secure == c.secure
    &&& p.http_only == c.http_only
    &&& p.same_site == c.same_site
    &&& p.path@ == c.path@
    &&& p.domain == c.domain
}

/// A key that is not stored never resolves to a session, whatever the
/// clock says: once the renewal or purge of a session removes its backend
/// entry, the old session key presents as "no session".
pub proof fn lemma_absent_never_resolves(m: Map<Seq<char>, SEntry>, k: Seq<char>, now: int)
    ensures
        !m.contains_key(k) ==> lookup_at(m, k, now) is None,
{
}

/// Session management middleware: wires a session store and a cookie
/// configuration into the request lifecycle.
pub struct SessionMiddleware<M: MemoryDB> {
    pub store: SessionStore<M>,
    pub configuration: Configuration,
}

impl<M: MemoryDB> SessionMiddleware<M> {
    /// The middleware is usable: its store is, and the master key is long
    /// enough.
    pub open spec fn inv(&self) -> bool {
        self.store.inv() && self.configuration.wf()
    }

    /// The session store.
    pub open spec fn store(&self) -> SessionStore<M> {
        self.store
    }

    /// The configuration.
    pub open spec fn config(&self) -> Configuration {
        self.configuration
    }

    /// A middleware over `client` with the default configuration; `key` is
    /// the master key for cookie signing/encryption (at least 64 bytes).
    pub fn new(client: M, key: Vec<u8>) -> (r: Self)
        requires
            client.inv(),
            key@.len() >= 64,
        ensures
            r.inv(),
            r.store().backend() == client.contents(),
            r.store().transform() is Identity,
            r.config().cookie.secure == true,
            r.config().cookie.http_only == true,
            r.config().cookie.name@ == "id"@,
            r.config().cookie.same_site == SameSitePolicy::Lax,
            r.config().cookie.path@ == "/"@,
            r.config().cookie.domain is None,
            r.config().cookie.max_age is None,
            r.config().cookie.content_security == CookieContentSecurity::Private,
            r.config().cookie.key@ == key@,
            r.config().session.state_ttl == 86400,
            r.config().ttl_extension_policy == TtlExtensionPolicy::OnStateChanges,
    {
        Self::builder(client, key).build()
    }

    /// A builder for a customized middleware.
    pub fn builder(client: M, key: Vec<u8>) -> (r: SessionMiddlewareBuilder<M>)
        requires
            client.inv(),
            key@.len() >= 64,
        ensures
            r.storage_backend.inv(),
            r.configuration.wf(),
            r.storage_backend.backend() == client.contents(),
            r.storage_backend.transform() is Identity,
            r.configuration.cookie.secure == true,
            r.configuration.cookie.http_only == true,
            r.configuration.cookie.name@ == "id"@,
            r.configuration.cookie.same_site == SameSitePolicy::Lax,
            r.configuration.cookie.path@ == "/"@,
            r.configuration.cookie.domain is None,
            r.configuration.cookie.max_age is None,
            r.configuration.cookie.content_security == CookieContentSecurity::Private,
            r.configuration.cookie.key@ == key@,
            r.configuration.session.state_ttl == 86400,
            r.configuration.ttl_extension_policy == TtlExtensionPolicy::OnStateChanges,
    {
        SessionMiddlewareBuilder::new(
            SessionStore::new(client),
            crate::session::config::default_configuration(key),
        )
    }

    /// Assembles a middleware from its parts.
    pub fn from_parts(store: SessionStore<M>, configuration: Configuration) -> (r: Self)
        requires
            store.inv(),
            configuration.wf(),
        ensures
            r.inv(),
            r.store() == store,
            r.config() == configuration,
    {
        SessionMiddleware { store, configuration }
    }

    /// Examines the session cookie value attached to the incoming request,
    /// if any, and tries to extract the session key: the cookie value must
    /// pass the signature check (or authenticated decryption) and the
    /// session key size limit. Any failure reads as "no session" — the
    /// request is never failed over a bad cookie.
    pub fn extract_session_key(&self, raw_cookie: Option<&str>) -> (r: Option<SessionKey>)
        requires
            self.inv(),
        ensures
            match r {
                Some(k) => k.wf() && extracted_key(self.config().cookie, opt_str_view(raw_cookie))
                    == Some(k@),
                None => extracted_key(self.config().cookie, opt_str_view(raw_cookie)) is None,
            },
    {
        let raw = match raw_cookie {
            Some(v) => v,
            None => {
                return None;
            },
        };
        let signed = match self.configuration.cookie.content_security {
            CookieContentSecurity::Signed => true,
            CookieContentSecurity::Private => false,
        };
        let opened = open_cookie(
            self.configuration.cookie.key.as_slice(),
            signed,
            self.configuration.cookie.name.as_str(),
            raw,
        );
        match opened {
            Some(v) => match SessionKey::try_from(v) {
                Ok(k) => Some(k),
                Err(_) => None,
            },
            None => None,
        }
    }

    /// The first half of the request lifecycle: extract the session key
    /// from the cookie value and load its state. A missing, invalid or
    /// expired session yields a fresh empty one with no key, so that a
    /// later save creates a new entry instead of resurrecting a dead key.
    /// Only a backend failure is an error.
    pub fn begin_request(&mut self, raw_cookie: Option<&str>) -> (r: Result<
        (Option<SessionKey>, Session),
        Error,
    >)
        requires
            old(self).inv(),
        ensures
            final(self).inv(),
            final(self).config() == old(self).config(),
            final(self).store().transform() == old(self).store().transform(),
            final(self).store().backend() == old(self).store().backend() || exists|c: Seq<char>|
                final(self).store().backend() == old(self).store().backend().remove(c),
            // a request without an extractable key cannot fail and starts a
            // fresh anonymous session, leaving the backend untouched
            extracted_key(old(self).config().cookie, opt_str_view(raw_cookie)) is None ==> {
                &&& r is Ok
                &&& r->Ok_0.0 is None
                &&& r->Ok_0.1.state_map() == Map::<Seq<char>, Seq<char>>::empty()
                &&& r->Ok_0.1.spec_status() == SessionStatus::Unchanged
                &&& final(self).store().backend() == old(self).store().backend()
            },
            r is Err ==> extracted_key(old(self).config().cookie, opt_str_view(raw_cookie))
                is Some,
            match r {
                Ok((k, session)) => {
                    &&& session.wf()
                    &&& session.spec_status() == SessionStatus::Unchanged
                    &&& (k matches Some(sk) ==> sk.wf() && Some(sk@) == extracted_key(
                        old(self).config().cookie,
                        opt_str_view(raw_cookie),
                    ) && old(self).store().backend().contains_key(
                        old(self).store().cache_key(sk@),
                    ) && crate::session::storage::decoded_state(
                        old(self).store().backend()[old(self).store().cache_key(sk@)].value,
                    ) == Some(session.state_pairs()))
                    &&& (k is None ==> session.state_map() == Map::<Seq<char>, Seq<char>>::empty())
                    &&& (extracted_key(old(self).config().cookie, opt_str_view(raw_cookie))
                        matches Some(ek) ==> (k is None ==> !(old(
                        self,
                    ).store().backend().contains_key(old(self).store().cache_key(ek)) && old(
                        self,
                    ).store().backend()[old(self).store().cache_key(ek)].expiry is None
                        && crate::session::storage::decoded_state(
                        old(self).store().backend()[old(self).store().cache_key(ek)].value,
                    ) is Some)))
                },
                Err(_) => true,
            },
    {
        let key = self.extract_session_key(raw_cookie);
        match key {
            None => Ok((None, Session::new(SessionState::new()))),
            Some(k) => match self.store.load(&k) {
                Ok(Some(state)) => Ok((Some(k), Session::new(state))),
                Ok(None) => Ok((None, Session::new(SessionState::new()))),
                Err(e) => Err(e),
            },
        }
    }

    fn make_plan(&self, key: &SessionKey, max_age: Option<i64>) -> (r: CookiePlan)
        requires
            self.inv(),
        ensures
            r.name@ == self.config().cookie.name@,
            r.secure == self.config().cookie.secure,
            r.http_only == self.config().cookie.http_only,
            r.same_site == self.config().cookie.same_site,
            r.path@ == self.config().cookie.path@,
            r.domain == self.config().cookie.domain,
            r.max_age == max_age,
            r.removal == false,
            seals_key(self.config().cookie, r.value@, key@),
    {
        let signed = match self.configuration.cookie.content_security {
            CookieContentSecurity::Signed => true,
            CookieContentSecurity::Private => false,
        };
        let value = seal_cookie(
            self.configuration.cookie.key.as_slice(),
            signed,
            self.configuration.cookie.name.as_str(),
            key.as_str(),
        );
        CookiePlan {
            name: self.configuration.cookie.name.clone(),
            value,
            secure: self.configuration.cookie.secure,
            http_only: self.configuration.cookie.http_only,
            same_site: self.configuration.cookie.same_site,
            path: self.configuration.cookie.path.clone(),
            domain: self.configuration.cookie.domain.clone(),
            max_age,
            removal: false,
        }
    }

    fn removal_plan(&self) -> (r: CookiePlan)
        requires
            self.inv(),
        ensures
            r.name@ == self.config().cookie.name@,
            r.secure == self.config().cookie.secure,
            r.http_only == self.config().cookie.http_only,
            r.same_site == self.config().cookie.same_site,
            r.path@ == self.config().cookie.path@,
            r.domain == self.config().cookie.domain,
            r.removal == true,
            r.value@ == Seq::<char>::empty(),
            r.max_age == Some(0i64),
    {
        CookiePlan {
            name: self.configuration.cookie.name.clone(),
            value: String::new(),
            secure: self.configuration.cookie.secure,
            http_only: self.configuration.cookie.http_only,
            same_site: self.configuration.cookie.same_site,
            path: self.configuration.cookie.path.clone(),
            domain: self.configuration.cookie.domain.clone(),
            max_age: Some(0),
            removal: true,
        }
    }

    /// The second half of the request lifecycle: reconcile what the
    /// handler did to the session with the backend, and decide the cookie
    /// carried by the response.
    ///
    /// With `b` for the backend before the call and `ck` for the
    /// backend-key derivation, the six cases are:
    /// - no key, state still empty: nothing is written, no cookie is set;
    /// - no key, state non-empty: the state is saved under a fresh key,
    ///   whose cookie goes out;
    /// - a key and `Changed`: the state is written under the same key,
    ///   whose cookie goes out;
    /// - a key and `Purged`: the entry is deleted and a removal cookie
    ///   goes out;
    /// - a key and `Renewed`: the old entry is deleted, the state is saved
    ///   under a fresh key whose cookie goes out, and the old key — if its
    ///   backend key differs from the new one — is no longer stored, so it
    ///   can no longer resolve to a session (no fixation);
    /// - a key and `Unchanged`: under `OnEveryRequest` the time-to-live is
    ///   refreshed and the cookie is reissued only for persistent
    ///   sessions; under `OnStateChanges` nothing happens.
    ///
    /// A numeric value under the reserved `_ttl` state key overrides the
    /// configured time-to-live for this pass, for both the backend entry
    /// and the cookie `Max-Age`.
    pub fn finish_request(&mut self, session_key: Option<SessionKey>, session: Session) -> (r:
        Result<Option<CookiePlan>, Error>)
        requires
            old(self).inv(),
            session.wf(),
        ensures
            final(self).inv(),
            final(self).config() == old(self).config(),
            final(self).store().transform() == old(self).store().transform(),
            // every emitted cookie carries the configured attributes; a
            // removal cookie carries the empty value and immediate expiry
            r matches Ok(Some(plan)) ==> plan_matches_config(plan, old(self).config().cookie),
            (r matches Ok(Some(plan)) ==> (plan.removal ==> plan.value@ == Seq::<char>::empty()
                && plan.max_age == Some(0i64))),
            ({
                let b = old(self).store().backend();
                let pairs = session.state_pairs();
                let st = session.spec_status();
                let override_age: Option<int> = if has_ttl_override(session.state_map()) {
                    Some(effective_ttl(session.state_map(), old(self).config().session.state_ttl as int))
                } else {
                    opt_int(old(self).config().cookie.max_age)
                };
                let eff_store: int = if effective_ttl(
                    session.state_map(),
                    old(self).config().session.state_ttl as int,
                ) < 0 {
                    0int
                } else {
                    effective_ttl(session.state_map(), old(self).config().session.state_ttl as int)
                };
                &&& (session_key is None && session.state_map() == Map::<
                    Seq<char>,
                    Seq<char>,
                >::empty() ==> r == Ok::<Option<CookiePlan>, Error>(None) && final(self).store().backend() == b)
                &&& (session_key is None && session.state_map() != Map::<
                    Seq<char>,
                    Seq<char>,
                >::empty() && r is Ok ==> {
                    &&& r->Ok_0 matches Some(plan)
                    &&& plan.removal == false
                    &&& opt_int(plan.max_age) == override_age
                    &&& exists|nk: Seq<char>|
                        {
                            &&& nk.len() == 64
                            &&& #[trigger] final(self).store().backend().contains_key(
                                final(self).store().cache_key(nk),
                            )
                            &&& final(self).store().backend()[final(self).store().cache_key(
                                nk,
                            )].value == enc_state(pairs)
                            &&& final(self).store().backend()[final(self).store().cache_key(
                                nk,
                            )].expiry is Some
                            &&& final(self).store().backend().dom().subset_of(
                                b.dom().insert(final(self).store().cache_key(nk)),
                            )
                            &&& forall|k2: Seq<char>|
                                k2 != final(self).store().cache_key(nk)
                                    && #[trigger] final(self).store().backend().contains_key(k2)
                                    ==> b.contains_key(k2) && final(self).store().backend()[k2]
                                    == b[k2]
                            &&& seals_key(old(self).config().cookie, plan.value@, nk)
                            &&& final(self).store().requested()[final(self).store().cache_key(nk)]
                                == eff_store
                        }
                })
                &&& (session_key matches Some(k) ==> (st == SessionStatus::Changed && r is Ok
                    ==> {
                    &&& r->Ok_0 matches Some(plan)
                    &&& plan.removal == false
                    &&& opt_int(plan.max_age) == override_age
                    &&& final(self).store().backend().contains_key(final(self).store().cache_key(k@))
                    &&& final(self).store().backend()[final(self).store().cache_key(k@)].value
                        == enc_state(pairs)
                    &&& final(self).store().backend()[final(self).store().cache_key(k@)].expiry
                        is Some
                    &&& final(self).store().backend().dom().subset_of(
                        b.dom().insert(final(self).store().cache_key(k@)),
                    )
                    &&& forall|k2: Seq<char>|
                        k2 != final(self).store().cache_key(k@)
                            && #[trigger] final(self).store().backend().contains_key(k2)
                            ==> b.contains_key(k2) && final(self).store().backend()[k2] == b[k2]
                    &&& seals_key(old(self).config().cookie, plan.value@, k@)
                    &&& final(self).store().requested()[final(self).store().cache_key(k@)]
                        == eff_store
                }))
                &&& (session_key matches Some(k) ==> (st == SessionStatus::Purged && r is Ok
                    ==> {
                    &&& r->Ok_0 matches Some(plan)
                    &&& plan.removal == true
                    &&& final(self).store().backend() == b.remove(old(self).store().cache_key(k@))
                }))
                &&& (session_key matches Some(k) ==> (st == SessionStatus::Renewed && r is Ok
                    ==> {
                    &&& r->Ok_0 matches Some(plan)
                    &&& plan.removal == false
                    &&& exists|nk: Seq<char>|
                        {
                            &&& nk.len() == 64
                            &&& #[trigger] final(self).store().backend().contains_key(
                                final(self).store().cache_key(nk),
                            )
                            &&& final(self).store().backend()[final(self).store().cache_key(
                                nk,
                            )].value == enc_state(pairs)
                            &&& final(self).store().backend()[final(self).store().cache_key(
                                nk,
                            )].expiry is Some
                            &&& (old(self).store().cache_key(k@) != final(self).store().cache_key(
                                nk,
                            ) ==> !final(self).store().backend().contains_key(
                                old(self).store().cache_key(k@),
                            ))
                            &&& final(self).store().backend().dom().subset_of(
                                b.remove(old(self).store().cache_key(k@)).dom().insert(
                                    final(self).store().cache_key(nk),
                                ),
                            )
                            &&& forall|k2: Seq<char>|
                                k2 != final(self).store().cache_key(nk)
                                    && #[trigger] final(self).store().backend().contains_key(k2)
                                    ==> b.remove(old(self).store().cache_key(k@)).contains_key(k2)
                                    && final(self).store().backend()[k2] == b[k2]
                            &&& seals_key(old(self).config().cookie, plan.value@, nk)
                            &&& final(self).store().requested()[final(self).store().cache_key(nk)]
                                == eff_store
                        }
                }))
                &&& (session_key is Some ==> (st == SessionStatus::Unchanged && old(
                    self,
                ).config().ttl_extension_policy == TtlExtensionPolicy::OnStateChanges ==> r
                    == Ok::<Option<CookiePlan>, Error>(None) && final(self).store().backend()
                    == b))
                &&& (session_key is Some ==> (st == SessionStatus::Unchanged && old(
                    self,
                ).config().ttl_extension_policy == TtlExtensionPolicy::OnEveryRequest && r is Ok
                    ==> (r->Ok_0 is Some <==> old(self).config().cookie.max_age is Some)))
                &&& (session_key matches Some(k) ==> (st == SessionStatus::Unchanged && r is Ok
                    ==> (r->Ok_0 matches Some(plan) ==> seals_key(
                    old(self).config().cookie,
                    plan.value@,
                    k@,
                ))))
                &&& (session_key matches Some(k) ==> (st == SessionStatus::Unchanged && old(
                    self,
                ).config().ttl_extension_policy == TtlExtensionPolicy::OnEveryRequest && r is Ok
                    ==> {
                    let eff = effective_ttl(
                        session.state_map(),
                        old(self).config().session.state_ttl as int,
                    );
                    &&& (eff <= 0 ==> final(self).store().backend() == b.remove(
                        old(self).store().cache_key(k@),
                    ))
                    &&& (eff > 0 ==> ttl_refresh_ok(
                        b,
                        final(self).store().backend(),
                        old(self).store().cache_key(k@),
                    ))
                }))
            }),
    {
        let (status, state) = session.into_parts();
        let default_ttl = self.configuration.session.state_ttl;
        let mut ttl = default_ttl;
        let mut max_age = self.configuration.cookie.max_age;
        match state.get("_ttl") {
            Some(x) => match parse_i64(x.as_str()) {
                Some(v) => {
                    ttl = v;
                    max_age = Some(v);
                },
                None => {},
            },
            None => {},
        }
        match session_key {
            None => {
                if state.is_empty() {
                    proof {
                        assert(session.state_map() =~= Map::<Seq<char>, Seq<char>>::empty());
                    }
                    Ok(None)
                } else {
                    let key = match self.store.save(&state, ttl) {
                        Ok(k) => k,
                        Err(e) => {
                            return Err(e);
                        },
                    };
                    let plan = self.make_plan(&key, max_age);
                    proof {
                        assert(session.state_map() != Map::<Seq<char>, Seq<char>>::empty());
                    }
                    Ok(Some(plan))
                }
            },
            Some(key) => {
                match status {
                    SessionStatus::Changed => {
                        let key = match self.store.update(key, &state, ttl) {
                            Ok(k) => k,
                            Err(e) => {
                                return Err(e);
                            },
                        };
                        let plan = self.make_plan(&key, max_age);
                        Ok(Some(plan))
                    },
                    SessionStatus::Purged => {
                        match self.store.delete(&key) {
                            Ok(()) => {},
                            Err(e) => {
                                return Err(e);
                            },
                        }
                        Ok(Some(self.removal_plan()))
                    },
                    SessionStatus::Renewed => {
                        match self.store.delete(&key) {
                            Ok(()) => {},
                            Err(e) => {
                                return Err(e);
                            },
                        }
                        let new_key = match self.store.save(&state, ttl) {
                            Ok(k) => k,
                            Err(e) => {
                                return Err(e);
                            },
                        };
                        let plan = self.make_plan(&new_key, max_age);
                        Ok(Some(plan))
                    },
                    SessionStatus::Unchanged => {
                        match self.configuration.ttl_extension_policy {
                            TtlExtensionPolicy::OnEveryRequest => {
                                match self.store.update_ttl(&key, ttl) {
                                    Ok(()) => {},
                                    Err(e) => {
                                        return Err(e);
                                    },
                                }
                                let reissue = match self.configuration.cookie.max_age {
                                    Some(_) => true,
                                    None => false,
                                };
                                if reissue {
                                    let plan = self.make_plan(&key, max_age);
                                    Ok(Some(plan))
                                } else {
                                    Ok(None)
                                }
                            },
                            TtlExtensionPolicy::OnStateChanges => Ok(None),
                        }
                    },
                }
            },
        }
    }

}

} // verus!
