use actix_cloud::memorydb::default::DefaultBackend;
use actix_cloud::memorydb::MemoryDB;
use actix_cloud::session::json::{decode_pairs, encode_pairs};
use actix_cloud::session::key::{generate_session_key, SessionKey};
use actix_cloud::session::config::{PersistentSession, TtlExtensionPolicy};
use actix_cloud::session::middleware::SessionMiddleware;
use actix_cloud::session::state::{Session, SessionState, SessionStatus};
use actix_cloud::session::storage::SessionStore;

fn master_key() -> Vec<u8> {
    (0u8..64u8).collect()
}

fn middleware() -> SessionMiddleware<DefaultBackend> {
    SessionMiddleware::new(DefaultBackend::new(None), master_key())
}

fn backend_keys(mw: &mut SessionMiddleware<DefaultBackend>) -> Vec<String> {
    mw.store.client_mut().keys("*").unwrap()
}

#[test]
fn json_roundtrip_simple_state() {
    // session state {a: "1", b: "2"} saved then loaded yields the same map
    let pairs = vec![
        ("a".to_owned(), "1".to_owned()),
        ("b".to_owned(), "2".to_owned()),
    ];
    let text = encode_pairs(&pairs);
    assert_eq!(text, "{\"a\":\"1\",\"b\":\"2\"}");
    let back = decode_pairs(&text).unwrap();
    assert_eq!(back, pairs);
}

#[test]
fn json_roundtrip_with_escapes() {
    let pairs = vec![
        ("quote\"key".to_owned(), "back\\slash".to_owned()),
        ("line\nbreak".to_owned(), "tab\tand\rreturn".to_owned()),
        ("unicode \u{00e9}\u{4e16}".to_owned(), String::new()),
    ];
    let text = encode_pairs(&pairs);
    let back = decode_pairs(&text).unwrap();
    assert_eq!(back, pairs);
}

#[test]
fn json_encoding_is_real_json() {
    // the canonical encoding parses as a JSON object with the same pairs
    let pairs = vec![
        ("user".to_owned(), "42".to_owned()),
        ("note".to_owned(), "a \"quoted\"\nvalue\\".to_owned()),
    ];
    let text = encode_pairs(&pairs);
    let parsed: std::collections::HashMap<String, String> =
        serde_json::from_str(&text).unwrap();
    assert_eq!(parsed.len(), 2);
    assert_eq!(parsed["user"], "42");
    assert_eq!(parsed["note"], "a \"quoted\"\nvalue\\");
}

#[test]
fn json_decoder_rejects_garbage() {
    assert!(decode_pairs("").is_none());
    assert!(decode_pairs("{").is_none());
    assert!(decode_pairs("[]").is_none());
    assert!(decode_pairs("{\"a\":1}").is_none());
    assert!(decode_pairs("{\"a\":\"1\",}").is_none());
    assert_eq!(decode_pairs("{}").unwrap(), Vec::<(String, String)>::new());
}

#[test]
fn store_roundtrip_state() {
    let mut store = SessionStore::new(DefaultBackend::new(None));
    let mut state = SessionState::new();
    state.insert("a".to_owned(), "1".to_owned());
    state.insert("b".to_owned(), "2".to_owned());
    let key = store.save(&state, 3600).unwrap();
    let loaded = store.load(&key).unwrap().unwrap();
    assert_eq!(loaded.get("a").unwrap(), "1");
    assert_eq!(loaded.get("b").unwrap(), "2");
    assert!(loaded.get("c").is_none());
}

#[test]
fn store_delete_makes_load_absent() {
    let mut store = SessionStore::new(DefaultBackend::new(None));
    let mut state = SessionState::new();
    state.insert("a".to_owned(), "1".to_owned());
    let key = store.save(&state, 3600).unwrap();
    store.delete(&key).unwrap();
    assert!(store.load(&key).unwrap().is_none());
}

#[test]
fn session_key_size_limit() {
    assert!(SessionKey::try_from("x".repeat(4064)).is_ok());
    assert!(SessionKey::try_from("x".repeat(4065)).is_err());
    let k = generate_session_key();
    assert_eq!(k.as_str().len(), 64);
    assert!(k.as_str().chars().all(|c| c.is_ascii_alphanumeric()));
}

#[test]
fn session_status_transitions() {
    let mut s = Session::new(SessionState::new());
    assert_eq!(s.status(), SessionStatus::Unchanged);
    s.insert("k".to_owned(), "v".to_owned());
    assert_eq!(s.status(), SessionStatus::Changed);
    s.renew();
    assert_eq!(s.status(), SessionStatus::Renewed);
    s.purge();
    assert_eq!(s.status(), SessionStatus::Purged);
    assert!(s.get("k").is_none());
}

#[test]
fn anonymous_request_sets_no_cookie_and_writes_nothing() {
    // anonymous request, handler does not touch the session
    let mut mw = middleware();
    let (key, session) = mw.begin_request(None).unwrap();
    assert!(key.is_none());
    let plan = mw.finish_request(key, session).unwrap();
    assert!(plan.is_none());
    assert_eq!(backend_keys(&mut mw).len(), 0);
}

#[test]
fn populated_session_sets_cookie_and_stores_state() {
    // the handler sets state["user"] = "42"
    let mut mw = middleware();
    let (key, mut session) = mw.begin_request(None).unwrap();
    session.insert("user".to_owned(), "42".to_owned());
    let plan = mw.finish_request(key, session).unwrap().unwrap();
    assert!(!plan.removal);
    assert_eq!(plan.name, "id");
    // the backend holds exactly one entry, the serialized state
    let keys = backend_keys(&mut mw);
    assert_eq!(keys.len(), 1);
    let stored = mw.store.client_mut().get(&keys[0]).unwrap().unwrap();
    assert_eq!(stored, "{\"user\":\"42\"}");
    // the sealed cookie value is a valid token: presenting it loads the
    // session back
    let (key2, session2) = mw.begin_request(Some(&plan.value)).unwrap();
    assert!(key2.is_some());
    assert_eq!(session2.get("user").unwrap(), "42");
    // and it is not the bare session key: presenting the raw key fails
    // the cookie verification and reads as "no session"
    assert_ne!(plan.value, keys[0]);
    let (key3, session3) = mw.begin_request(Some(&keys[0])).unwrap();
    assert!(key3.is_none());
    assert!(session3.get("user").is_none());
}

#[test]
fn renewal_defeats_session_fixation() {
    let mut mw = middleware();
    // build a session
    let (key, mut session) = mw.begin_request(None).unwrap();
    session.insert("user".to_owned(), "42".to_owned());
    let plan = mw.finish_request(key, session).unwrap().unwrap();
    let old_cookie = plan.value.clone();
    // a later request renews the key
    let (key2, mut session2) = mw.begin_request(Some(&old_cookie)).unwrap();
    assert!(key2.is_some());
    let old_raw_key = key2.as_ref().unwrap().as_str().to_owned();
    session2.renew();
    let plan2 = mw.finish_request(key2, session2).unwrap().unwrap();
    assert!(!plan2.removal);
    assert_ne!(plan2.value, old_cookie);
    // the old cookie no longer resolves to a session
    let (key3, session3) = mw.begin_request(Some(&old_cookie)).unwrap();
    assert!(key3.is_none());
    assert!(session3.get("user").is_none());
    // the old backend entry is gone; only the new key's entry remains
    let keys = backend_keys(&mut mw);
    assert_eq!(keys.len(), 1);
    assert_ne!(keys[0], old_raw_key);
    // the new cookie still carries the state
    let (key4, session4) = mw.begin_request(Some(&plan2.value)).unwrap();
    assert!(key4.is_some());
    assert_eq!(session4.get("user").unwrap(), "42");
}

#[test]
fn purging_twice_is_harmless() {
    let mut mw = middleware();
    let (key, mut session) = mw.begin_request(None).unwrap();
    session.insert("user".to_owned(), "42".to_owned());
    let plan = mw.finish_request(key, session).unwrap().unwrap();
    // first purge: entry deleted, removal cookie emitted
    let (key2, mut session2) = mw.begin_request(Some(&plan.value)).unwrap();
    session2.purge();
    let plan2 = mw.finish_request(key2, session2).unwrap().unwrap();
    assert!(plan2.removal);
    assert_eq!(backend_keys(&mut mw).len(), 0);
    // second purge arrives with no cookie (it was removed): behaves as
    // "no session", not an error
    let (key3, mut session3) = mw.begin_request(None).unwrap();
    assert!(key3.is_none());
    session3.purge();
    let plan3 = mw.finish_request(key3, session3).unwrap();
    assert!(plan3.is_none());
    assert_eq!(backend_keys(&mut mw).len(), 0);
}

#[test]
fn ttl_hint_overrides_cookie_max_age() {
    let mut mw = middleware();
    let (key, mut session) = mw.begin_request(None).unwrap();
    session.insert("_ttl".to_owned(), "120".to_owned());
    session.insert("user".to_owned(), "42".to_owned());
    let plan = mw.finish_request(key, session).unwrap().unwrap();
    assert_eq!(plan.max_age, Some(120));
    // the backend entry's remaining time-to-live follows the hint
    let keys = backend_keys(&mut mw);
    let ttl = mw.store.client_mut().ttl(&keys[0]).unwrap().unwrap();
    assert!(ttl <= 120 && ttl > 100);
}

#[test]
fn changed_session_updates_same_key() {
    let mut mw = middleware();
    let (key, mut session) = mw.begin_request(None).unwrap();
    session.insert("n".to_owned(), "1".to_owned());
    let plan = mw.finish_request(key, session).unwrap().unwrap();
    let keys_before = backend_keys(&mut mw);
    let (key2, mut session2) = mw.begin_request(Some(&plan.value)).unwrap();
    session2.insert("n".to_owned(), "2".to_owned());
    assert_eq!(session2.status(), SessionStatus::Changed);
    mw.finish_request(key2, session2).unwrap().unwrap();
    let keys_after = backend_keys(&mut mw);
    assert_eq!(keys_before, keys_after);
    let stored = mw.store.client_mut().get(&keys_after[0]).unwrap().unwrap();
    assert_eq!(stored, "{\"n\":\"2\"}");
}

#[test]
fn tampered_cookie_reads_as_no_session() {
    let mut mw = middleware();
    let (key, mut session) = mw.begin_request(None).unwrap();
    session.insert("user".to_owned(), "42".to_owned());
    let plan = mw.finish_request(key, session).unwrap().unwrap();
    let mut tampered = plan.value.clone();
    tampered.push('x');
    let (key2, session2) = mw.begin_request(Some(&tampered)).unwrap();
    assert!(key2.is_none());
    assert!(session2.get("user").is_none());
}

#[test]
fn persistent_session_refreshes_ttl_on_every_request() {
    let builder = SessionMiddleware::builder(DefaultBackend::new(None), master_key());
    let mut mw = builder
        .session_lifecycle(
            PersistentSession::default()
                .session_ttl(1000)
                .session_ttl_extension_policy(TtlExtensionPolicy::OnEveryRequest),
        )
        .build();
    let (key, mut session) = mw.begin_request(None).unwrap();
    session.insert("user".to_owned(), "42".to_owned());
    let plan = mw.finish_request(key, session).unwrap().unwrap();
    assert_eq!(plan.max_age, Some(1000));
    // a read-only request under OnEveryRequest refreshes the TTL and, for
    // a persistent session, reissues the cookie
    let keys = backend_keys(&mut mw);
    mw.store.client_mut().expire(&keys[0], 5).unwrap();
    let (key2, session2) = mw.begin_request(Some(&plan.value)).unwrap();
    let plan2 = mw.finish_request(key2, session2).unwrap();
    assert!(plan2.is_some());
    let ttl = mw.store.client_mut().ttl(&keys[0]).unwrap().unwrap();
    assert!(ttl > 900);
}

#[test]
fn json_control_characters_encode_as_unicode_escapes() {
    // controls without a named escape go out as \u00.. and come back
    let pairs = vec![("ctl".to_owned(), "a\u{1}b\u{1f}c".to_owned())];
    let text = encode_pairs(&pairs);
    assert_eq!(text, "{\"ctl\":\"a\\u0001b\\u001fc\"}");
    assert_eq!(decode_pairs(&text).unwrap(), pairs);
    let parsed: std::collections::HashMap<String, String> =
        serde_json::from_str(&text).unwrap();
    assert_eq!(parsed["ctl"], "a\u{1}b\u{1f}c");
}
