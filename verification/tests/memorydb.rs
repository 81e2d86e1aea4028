use actix_cloud::memorydb::default::DefaultBackend;
use actix_cloud::memorydb::MemoryDB;
use actix_cloud::Error;

fn setup_default() -> DefaultBackend {
    DefaultBackend::new(None)
}

#[test]
fn test_normal() {
    let key = "_actix_cloud_key1";
    let value1 = "value1";
    let value2 = "value2";

    let mut r = setup_default();
    let _ = r.del(key);

    assert_eq!(r.get(key).unwrap(), None);

    r.set(key, value1).unwrap();
    assert_eq!(r.get(key).unwrap().unwrap(), value1);
    r.set(key, value2).unwrap();
    assert_eq!(r.get(key).unwrap().unwrap(), value2);

    assert_eq!(r.del(key).unwrap(), true);
    assert_eq!(r.del(key).unwrap(), false);
    assert_eq!(r.get(key).unwrap(), None);
}

#[test]
fn test_ex() {
    let key = "_actix_cloud_key2";
    let value = "value";

    // the clock is explicit: advancing `now` stands in for sleeping
    let mut r = setup_default();
    let mut now: i64 = 1_000_000;
    let _ = r.del(key);

    r.set_at(now, key, value).unwrap();
    assert_eq!(r.get_del_at(now, key).unwrap().unwrap(), value);
    assert_eq!(r.get_at(now, key).unwrap(), None);

    r.set_ex_at(now, key, value, 2).unwrap();
    assert_eq!(r.get_at(now, key).unwrap().unwrap(), value);
    now += 1;
    assert_eq!(r.get_ex_at(now, key, 2).unwrap().unwrap(), value);
    now += 1;
    assert_eq!(r.get_at(now, key).unwrap().unwrap(), value);
    now += 2;
    assert_eq!(r.get_at(now, key).unwrap(), None);
}

#[test]
fn test_expire() {
    let key = "_actix_cloud_key3";
    let value = "value";

    let mut r = setup_default();
    let mut now: i64 = 2_000_000;
    let _ = r.del(key);

    r.set_at(now, key, value).unwrap();
    assert_eq!(r.get_at(now, key).unwrap().unwrap(), value);
    assert_eq!(r.expire_at(now, key, 1).unwrap(), true);
    now += 2;
    assert_eq!(r.get_at(now, key).unwrap(), None);
    assert_eq!(r.expire_at(now, key, 1).unwrap(), false);

    r.set_ex_at(now, key, value, 1).unwrap();
    assert_eq!(r.expire_at(now, key, 3).unwrap(), true);
    now += 2;
    assert_eq!(r.get_at(now, key).unwrap().unwrap(), value);
    assert_eq!(r.expire_at(now, key, -1).unwrap(), true);
    assert_eq!(r.get_at(now, key).unwrap(), None);
    assert_eq!(r.expire_at(now, key, 0).unwrap(), false);
}

#[test]
fn test_batch() {
    let key1 = "_actix_cloud_bkey1";
    let key2 = "_actix_cloud_bkey2";
    let value = "value";

    let mut r = setup_default();
    let _ = r.del(key1);
    let _ = r.del(key2);

    r.set(key1, value).unwrap();
    r.set(key2, value).unwrap();
    let ret = r.keys("_actix_cl?ud_bkey*").unwrap();
    assert_eq!(ret.len(), 2);
    assert_eq!(
        (ret[0] == key1 && ret[1] == key2) || (ret[1] == key1 && ret[0] == key2),
        true
    );
    assert_eq!(
        r.dels(&[key1.to_owned(), key2.to_owned()]).unwrap(),
        2
    );
    assert_eq!(r.keys("_actix_cl?ud_bkey*").unwrap().len(), 0);
}

#[test]
fn set_then_get_returns_value_and_del_makes_absent() {
    // set(k, v) then get(k) yields v at any later time; del(k) then get(k)
    // yields absent
    let mut r = setup_default();
    r.set_at(10, "k", "v").unwrap();
    assert_eq!(r.get_at(1_000_000, "k").unwrap().unwrap(), "v");
    assert_eq!(r.del("k").unwrap(), true);
    assert_eq!(r.get_at(1_000_000, "k").unwrap(), None);
}

#[test]
fn set_ex_expiry_boundary_and_keys_exclusion() {
    let mut r = setup_default();
    r.set_ex_at(100, "k", "v", 10).unwrap();
    // strictly before the expiry timestamp (110) the value is visible
    assert_eq!(r.get_at(109, "k").unwrap().unwrap(), "v");
    assert!(r.keys_at(109, "k").unwrap().contains(&"k".to_owned()));
    // from the expiry on the entry is logically absent
    let mut r2 = setup_default();
    r2.set_ex_at(100, "k", "v", 10).unwrap();
    assert_eq!(r2.keys_at(110, "k").unwrap().len(), 0);
    assert_eq!(r2.get_at(110, "k").unwrap(), None);
}

#[test]
fn ttl_reports_remaining_seconds() {
    let mut r = setup_default();
    r.set_ex_at(100, "k", "v", 30).unwrap();
    assert_eq!(r.ttl_at(110, "k").unwrap(), Some(20));
    r.set_at(100, "p", "v").unwrap();
    assert_eq!(r.ttl_at(110, "p").unwrap(), None);
    assert_eq!(r.ttl_at(110, "absent").unwrap(), None);
}

#[test]
fn flush_removes_everything() {
    let mut r = setup_default();
    r.set_at(1, "a", "1").unwrap();
    r.set_at(1, "b", "2").unwrap();
    r.flush().unwrap();
    assert_eq!(r.keys_at(1, "*").unwrap().len(), 0);
}

#[test]
fn capacity_evicts_smallest_remaining_ttl_first() {
    // at capacity, with all entries live and distinct TTLs, inserting a
    // new key evicts the entry with the smallest remaining TTL
    let mut r = DefaultBackend::new(Some(5));
    let now = 1000;
    r.set_ex_at(now, "t30", "v", 30).unwrap();
    r.set_ex_at(now, "t10", "v", 10).unwrap();
    r.set_ex_at(now, "t50", "v", 50).unwrap();
    r.set_ex_at(now, "t20", "v", 20).unwrap();
    r.set_ex_at(now, "t40", "v", 40).unwrap();
    // full; batch size is max(5 / 10, 1) = 1, so exactly the earliest
    // expiry (t10) leaves
    r.set_at(now, "fresh", "v").unwrap();
    assert_eq!(r.get_at(now, "t10").unwrap(), None);
    assert_eq!(r.get_at(now, "t20").unwrap().unwrap(), "v");
    assert_eq!(r.get_at(now, "t30").unwrap().unwrap(), "v");
    assert_eq!(r.get_at(now, "t40").unwrap().unwrap(), "v");
    assert_eq!(r.get_at(now, "t50").unwrap().unwrap(), "v");
    assert_eq!(r.get_at(now, "fresh").unwrap().unwrap(), "v");
}

#[test]
fn capacity_evicts_expired_before_live() {
    let mut r = DefaultBackend::new(Some(3));
    r.set_ex_at(100, "dead", "v", 5).unwrap();
    r.set_ex_at(100, "live1", "v", 1000).unwrap();
    r.set_at(100, "live2", "v").unwrap();
    // at 200 the first entry is expired; inserting evicts it, not the
    // live ones
    r.set_at(200, "fresh", "v").unwrap();
    assert_eq!(r.get_at(200, "dead").unwrap(), None);
    assert_eq!(r.get_at(200, "live1").unwrap().unwrap(), "v");
    assert_eq!(r.get_at(200, "live2").unwrap().unwrap(), "v");
    assert_eq!(r.get_at(200, "fresh").unwrap().unwrap(), "v");
}

#[test]
fn capacity_full_of_persistent_entries_refuses_new_key() {
    let mut r = DefaultBackend::new(Some(2));
    r.set_at(1, "a", "1").unwrap();
    r.set_at(1, "b", "2").unwrap();
    // nothing can be evicted: every entry is live without an expiry
    assert_eq!(r.set_at(1, "c", "3"), Err(Error::Capacity));
    // but updating an existing key still succeeds
    r.set_at(1, "a", "updated").unwrap();
    assert_eq!(r.get_at(1, "a").unwrap().unwrap(), "updated");
}

#[test]
fn timestamp_overflow_is_refused() {
    let mut r = setup_default();
    assert_eq!(
        r.set_ex_at(i64::MAX - 1, "k", "v", 100),
        Err(Error::Timestamp)
    );
    assert_eq!(r.get_at(0, "k").unwrap(), None);
    r.set_ex_at(0, "k", "v", 10).unwrap();
    assert_eq!(
        r.expire_at(i64::MAX - 1, "k2", 0),
        Ok(false)
    );
}

#[test]
fn get_del_removes_and_reports_validity() {
    let mut r = setup_default();
    r.set_ex_at(100, "k", "v", 10).unwrap();
    // expired at removal time: removed, but reported absent
    assert_eq!(r.get_del_at(200, "k").unwrap(), None);
    assert_eq!(r.get_at(200, "k").unwrap(), None);
}

#[test]
fn dels_counts_distinct_removed_keys() {
    let mut r = setup_default();
    r.set_at(1, "a", "1").unwrap();
    r.set_at(1, "b", "2").unwrap();
    let n = r
        .dels(&[
            "a".to_owned(),
            "b".to_owned(),
            "a".to_owned(),
            "missing".to_owned(),
        ])
        .unwrap();
    assert_eq!(n, 2);
}

#[test]
fn expire_treats_expired_leftover_as_missing() {
    // an expired entry that is still physically stored reads as missing
    // everywhere, including the delete-like expire path
    let mut r = setup_default();
    r.set_ex_at(100, "k", "v", 5).unwrap();
    assert_eq!(r.expire_at(200, "k", 0).unwrap(), false);
    assert_eq!(r.get_at(200, "k").unwrap(), None);
    // a live entry still reports true on the same path
    r.set_at(100, "p", "v").unwrap();
    assert_eq!(r.expire_at(200, "p", -1).unwrap(), true);
    // plain del, by contrast, reports physical presence
    r.set_ex_at(100, "q", "v", 5).unwrap();
    assert_eq!(r.del("q").unwrap(), true);
}

#[test]
fn error_messages_name_their_cause() {
    assert_eq!(Error::Timestamp.message(), "timestamp error");
    assert_eq!(Error::Capacity.message(), "capacity is full");
    assert_eq!(Error::Json.message(), "json error");
    assert_eq!(Error::Session("s".to_owned()).message(), "s");
    assert_eq!(Error::Backend("b".to_owned()).message(), "b");
}
