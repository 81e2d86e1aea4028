//! Configuration for the session middleware: cookie attributes, the
//! content-security mode, the session time-to-live and its extension
//! policy, and the fluent builder.

use vstd::prelude::*;

use crate::memorydb::interface::MemoryDB;
use crate::session::storage::{KeyTransform, SessionStore};

verus! {

/// When the time-to-live of a session should be extended.
#[derive(Debug, Clone, Copy, PartialEq, Eq, Structural)]
pub enum TtlExtensionPolicy {
    /// The TTL is refreshed on every request carrying the session.
    OnEveryRequest,
    /// The TTL is refreshed only when the session state changes or the
    /// session key is renewed.
    OnStateChanges,
}

/// How the content of the session cookie is secured.
#[derive(Debug, Clone, Copy, PartialEq, Eq, Structural)]
pub enum CookieContentSecurity {
    /// The cookie content is encrypted: confidential and tamper-evident.
    Private,
    /// The cookie content is signed: readable but tamper-evident.
    Signed,
}

/// The `SameSite` attribute of the session cookie.
#[derive(Debug, Clone, Copy, PartialEq, Eq, Structural)]
pub enum SameSitePolicy {
    /// The cookie is only sent on same-site requests.
    Strict,
    /// The cookie is also sent on top-level cross-site navigation.
    Lax,
    /// The cookie is sent on all requests (`SameSite=None`).
    NoRestriction,
}

/// The per-instance cookie settings: name, scope attributes, security
/// flags, content-security mode, optional `Max-Age`, and the master key
/// used for signing or encryption.
#[derive(Debug, Clone)]
pub struct CookieConfiguration {
    pub secure: bool,
    pub http_only: bool,
    pub name: String,
    pub same_site: SameSitePolicy,
    pub path: String,
    pub domain: Option<String>,
    pub max_age: Option<i64>,
    pub content_security: CookieContentSecurity,
    pub key: Vec<u8>,
}

impl CookieConfiguration {
    /// The master key is long enough for the cookie cryptography.
    pub open spec fn wf(&self) -> bool {
        self.key@.len() >= 64
    }
}

/// Session-state settings: the backend time-to-live, in seconds.
#[derive(Debug, Clone)]
pub struct SessionConfiguration {
    pub state_ttl: i64,
}

/// Everything the middleware needs to know.
#[derive(Debug, Clone)]
pub struct Configuration {
    pub cookie: CookieConfiguration,
    pub session: SessionConfiguration,
    pub ttl_extension_policy: TtlExtensionPolicy,
}

impl Configuration {
    pub open spec fn wf(&self) -> bool {
        self.cookie.wf()
    }
}

/// The default session time-to-live: one day, in seconds.
pub fn default_ttl() -> (r: i64)
    ensures
        r == 86400,
{
    86400
}

/// The default extension policy: refresh only on state changes.
pub fn default_ttl_extension_policy() -> (r: TtlExtensionPolicy)
    ensures
        r == TtlExtensionPolicy::OnStateChanges,
{
    TtlExtensionPolicy::OnStateChanges
}

/// The most secure defaults: secure, HTTP-only, `Lax`, encrypted content,
/// cookie named `id`, path `/`, no domain, browser-session cookie.
pub fn default_configuration(key: Vec<u8>) -> (r: Configuration)
    requires
        key@.len() >= 64,
    ensures
        r.wf(),
        r.cookie.secure == true,
        r.cookie.http_only == true,
        r.cookie.name@ == "id"@,
        r.cookie.same_site == SameSitePolicy::Lax,
        r.cookie.path@ == "/"@,
        r.cookie.domain is None,
        r.cookie.max_age is None,
        r.cookie.content_security == CookieContentSecurity::Private,
        r.cookie.key@ == key@,
        r.session.state_ttl == 86400,
        r.ttl_extension_policy == TtlExtensionPolicy::OnStateChanges,
{
    Configuration {
        cookie: CookieConfiguration {
            secure: true,
            http_only: true,
            name: "id".to_owned(),
            same_site: SameSitePolicy::Lax,
            path: "/".to_owned(),
            domain: None,
            max_age: None,
            content_security: CookieContentSecurity::Private,
            key,
        },
        session: SessionConfiguration { state_ttl: default_ttl() },
        ttl_extension_policy: default_ttl_extension_policy(),
    }
}

/// A session lifecycle where the session cookie is persistent: it carries
/// a `Max-Age` and survives the end of the browser session.
#[derive(Debug, Clone)]
pub struct PersistentSession {
    pub session_ttl: i64,
    pub ttl_extension_policy: TtlExtensionPolicy,
}

impl PersistentSession {
    /// How long the session should live, in seconds; also the backend
    /// time-to-live for the stored state.
    pub fn session_ttl(self, session_ttl: i64) -> (r: Self)
        ensures
            r.session_ttl == session_ttl,
            r.ttl_extension_policy == self.ttl_extension_policy,
    {
        PersistentSession { session_ttl, ..self }
    }

    /// When the time-to-live should be extended.
    pub fn session_ttl_extension_policy(self, ttl_extension_policy: TtlExtensionPolicy) -> (r:
        Self)
        ensures
            r.ttl_extension_policy == ttl_extension_policy,
            r.session_ttl == self.session_ttl,
    {
        PersistentSession { ttl_extension_policy, ..self }
    }
}

impl Default for PersistentSession {
    /// One day of time-to-live, extended only on state changes.
    fn default() -> (r: Self)
        ensures
            r.session_ttl == 86400,
            r.ttl_extension_policy == TtlExtensionPolicy::OnStateChanges,
    {
        PersistentSession {
            session_ttl: default_ttl(),
            ttl_extension_policy: default_ttl_extension_policy(),
        }
    }
}

/// A fluent builder for the session middleware.
pub struct SessionMiddlewareBuilder<M: MemoryDB> {
    pub storage_backend: SessionStore<M>,
    pub configuration: Configuration,
}

impl<M: MemoryDB> SessionMiddlewareBuilder<M> {
    /// A builder over an existing store and configuration.
    pub fn new(store: SessionStore<M>, configuration: Configuration) -> (r: Self)
        requires
            store.inv(),
            configuration.wf(),
        ensures
            r.storage_backend == store,
            r.configuration == configuration,
            r.storage_backend.inv(),
            r.configuration.wf(),
    {
        SessionMiddlewareBuilder { storage_backend: store, configuration }
    }

    /// Sets a custom backend-key derivation.
    pub fn cache_keygen(self, keygen: KeyTransform) -> (r: Self)
        requires
            self.storage_backend.inv(),
        ensures
            r.storage_backend.inv(),
            r.storage_backend.backend() == self.storage_backend.backend(),
            r.storage_backend.transform() == keygen,
            r.configuration == self.configuration,
    {
        let SessionMiddlewareBuilder { mut storage_backend, configuration } = self;
        storage_backend.cache_keygen(keygen);
        SessionMiddlewareBuilder { storage_backend, configuration }
    }

    /// Sets the name of the session cookie; the default is `id`.
    pub fn cookie_name(self, name: String) -> (r: Self)
        ensures
            r.configuration.cookie.name == name,
            r.configuration.cookie.key == self.configuration.cookie.key,
            r.storage_backend == self.storage_backend,
            r.configuration.cookie.wf() == self.configuration.cookie.wf(),
    {
        let SessionMiddlewareBuilder { storage_backend, mut configuration } = self;
        configuration.cookie.name = name;
        SessionMiddlewareBuilder { storage_backend, configuration }
    }

    /// Sets the `Secure` attribute; the default is on.
    pub fn cookie_secure(self, secure: bool) -> (r: Self)
        ensures
            r.configuration.cookie.secure == secure,
            r.configuration.cookie.key == self.configuration.cookie.key,
            r.storage_backend == self.storage_backend,
            r.configuration.cookie.wf() == self.configuration.cookie.wf(),
    {
        let SessionMiddlewareBuilder { storage_backend, mut configuration } = self;
        configuration.cookie.secure = secure;
        SessionMiddlewareBuilder { storage_backend, configuration }
    }

    /// Makes the session persistent: the cookie carries the lifecycle's
    /// time-to-live as `Max-Age`, and the same value becomes the backend
    /// time-to-live.
    pub fn session_lifecycle(self, session_lifecycle: PersistentSession) -> (r: Self)
        ensures
            r.configuration.cookie.max_age == Some(session_lifecycle.session_ttl),
            r.configuration.session.state_ttl == session_lifecycle.session_ttl,
            r.configuration.ttl_extension_policy == session_lifecycle.ttl_extension_policy,
            r.configuration.cookie.key == self.configuration.cookie.key,
            r.storage_backend == self.storage_backend,
            r.configuration.cookie.wf() == self.configuration.cookie.wf(),
    {
        let SessionMiddlewareBuilder { storage_backend, mut configuration } = self;
        configuration.cookie.max_age = Some(session_lifecycle.session_ttl);
        configuration.session.state_ttl = session_lifecycle.session_ttl;
        configuration.ttl_extension_policy = session_lifecycle.ttl_extension_policy;
        SessionMiddlewareBuilder { storage_backend, configuration }
    }

    /// Sets the `SameSite` attribute; the default is `Lax`.
    pub fn cookie_same_site(self, same_site: SameSitePolicy) -> (r: Self)
        ensures
            r.configuration.cookie.same_site == same_site,
            r.configuration.cookie.key == self.configuration.cookie.key,
            r.storage_backend == self.storage_backend,
            r.configuration.cookie.wf() == self.configuration.cookie.wf(),
    {
        let SessionMiddlewareBuilder { storage_backend, mut configuration } = self;
        configuration.cookie.same_site = same_site;
        SessionMiddlewareBuilder { storage_backend, configuration }
    }

    /// Sets the `Path` attribute; the default is `/`.
    pub fn cookie_path(self, path: String) -> (r: Self)
        ensures
            r.configuration.cookie.path == path,
            r.configuration.cookie.key == self.configuration.cookie.key,
            r.storage_backend == self.storage_backend,
            r.configuration.cookie.wf() == self.configuration.cookie.wf(),
    {
        let SessionMiddlewareBuilder { storage_backend, mut configuration } = self;
        configuration.cookie.path = path;
        SessionMiddlewareBuilder { storage_backend, configuration }
    }

    /// Sets the `Domain` attribute; by default it is left unspecified.
    pub fn cookie_domain(self, domain: Option<String>) -> (r: Self)
        ensures
            r.configuration.cookie.domain == domain,
            r.configuration.cookie.key == self.configuration.cookie.key,
            r.storage_backend == self.storage_backend,
            r.configuration.cookie.wf() == self.configuration.cookie.wf(),
    {
        let SessionMiddlewareBuilder { storage_backend, mut configuration } = self;
        configuration.cookie.domain = domain;
        SessionMiddlewareBuilder { storage_backend, configuration }
    }

    /// Chooses between encrypted and signed cookie content; the default is
    /// encrypted.
    pub fn cookie_content_security(self, content_security: CookieContentSecurity) -> (r: Self)
        ensures
            r.configuration.cookie.content_security == content_security,
            r.configuration.cookie.key == self.configuration.cookie.key,
            r.storage_backend == self.storage_backend,
            r.configuration.cookie.wf() == self.configuration.cookie.wf(),
    {
        let SessionMiddlewareBuilder { storage_backend, mut configuration } = self;
        configuration.cookie.content_security = content_security;
        SessionMiddlewareBuilder { storage_backend, configuration }
    }

    /// Sets the `HttpOnly` attribute; the default is on.
    pub fn cookie_http_only(self, http_only: bool) -> (r: Self)
        ensures
            r.configuration.cookie.http_only == http_only,
            r.configuration.cookie.key == self.configuration.cookie.key,
            r.storage_backend == self.storage_backend,
            r.configuration.cookie.wf() == self.configuration.cookie.wf(),
    {
        let SessionMiddlewareBuilder { storage_backend, mut configuration } = self;
        configuration.cookie.http_only = http_only;
        SessionMiddlewareBuilder { storage_backend, configuration }
    }

    /// Finalizes the builder into a middleware instance.
    pub fn build(self) -> (r: crate::session::middleware::SessionMiddleware<M>)
        requires
            self.storage_backend.inv(),
            self.configuration.wf(),
        ensures
            r.inv(),
            r.store() == self.storage_backend,
            r.config() == self.configuration,
    {
        crate::session::middleware::SessionMiddleware::from_parts(
            self.storage_backend,
            self.configuration,
        )
    }
}

} // verus!
