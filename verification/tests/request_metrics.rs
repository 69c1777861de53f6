use rust_py_monitor::aggregator::count_errors;
use rust_py_monitor::request_metrics::{RequestStore, DEFAULT_MAX_REQUESTS};
use std::time::{SystemTime, UNIX_EPOCH};

#[test]
fn record_and_get_all() {
    let mut store: RequestStore<f64> = RequestStore::new();
    store.record("GET", "/ping", 200, 12.5);
    store.record("POST", "/users", 201, 45.0);

    let all = store.get_all();
    assert_eq!(all.len(), 2);
    assert_eq!(all[0].method, "GET");
    assert_eq!(all[0].path, "/ping");
    assert_eq!(all[0].status_code, 200);
    assert!(all[0].duration_ms > 0.0);
    assert_eq!(all[1].status_code, 201);
}

#[test]
fn clear_empties_store() {
    let mut store: RequestStore<f64> = RequestStore::new();
    store.record("DELETE", "/item/1", 204, 8.0);
    store.clear();
    assert_eq!(store.get_all().len(), 0);
}

#[test]
fn store_is_bounded_by_capacity() {
    let mut store: RequestStore<f64> = RequestStore::new();
    store.set_max_requests(5);
    for i in 0..20 {
        store.record("GET", "/x", 200, i as f64);
    }
    let all = store.get_all();
    assert_eq!(all.len(), 5);
    assert_eq!(all[0].duration_ms, 15.0);
    assert_eq!(all[4].duration_ms, 19.0);
    store.set_max_requests(DEFAULT_MAX_REQUESTS);
}

#[test]
fn shrinking_cap_evicts_oldest_immediately() {
    let mut store: RequestStore<f64> = RequestStore::new();
    store.set_max_requests(DEFAULT_MAX_REQUESTS);
    for i in 0..10 {
        store.record("GET", "/x", 200, i as f64);
    }
    store.set_max_requests(3);
    let all = store.get_all();
    assert_eq!(all.len(), 3);
    assert_eq!(all[0].duration_ms, 7.0);
    assert_eq!(all[2].duration_ms, 9.0);
}

#[test]
fn timestamp_is_populated() {
    let mut store: RequestStore<f64> = RequestStore::new();
    let before = SystemTime::now().duration_since(UNIX_EPOCH).unwrap().as_secs();
    store.record("GET", "/ts", 200, 1.0);
    let after = SystemTime::now().duration_since(UNIX_EPOCH).unwrap().as_secs();
    let ts = store.get_all()[0].timestamp;
    assert!(ts >= before && ts <= after);
}

#[test]
fn new_store_has_default_capacity() {
    let store: RequestStore<f64> = RequestStore::new();
    assert_eq!(store.max_requests(), 10_000);
    assert_eq!(store.len(), 0);
}

#[test]
fn capacity_below_one_clamps_to_one() {
    let mut store: RequestStore<u32> = RequestStore::new();
    for i in 0..4u32 {
        store.record_at("GET", "/c", 200, i, 7);
    }
    store.set_max_requests(0);
    assert_eq!(store.max_requests(), 1);
    let all = store.get_all();
    assert_eq!(all.len(), 1);
    assert_eq!(all[0].duration_ms, 3);
    store.record_at("GET", "/c", 200, 9, 7);
    let all = store.get_all();
    assert_eq!(all.len(), 1);
    assert_eq!(all[0].duration_ms, 9);
}

#[test]
fn window_matches_newest_of_history() {
    // Recording 1..=12 with a capacity of 4, then growing the capacity,
    // keeps exactly the newest four of everything recorded, oldest first.
    let mut store: RequestStore<u32> = RequestStore::new();
    store.set_max_requests(4);
    for i in 1..=12u32 {
        store.record_at("GET", "/w", 200, i, u64::from(i));
        assert!(store.len() <= 4);
    }
    store.set_max_requests(100);
    let all: Vec<u32> = store.get_all().iter().map(|m| m.duration_ms).collect();
    assert_eq!(all, vec![9, 10, 11, 12]);
}

#[test]
fn record_at_keeps_given_fields() {
    let mut store: RequestStore<f64> = RequestStore::new();
    store.record_at("PUT", "/item/7", 404, 3.25, 1_700_000_000);
    let all = store.get_all();
    assert_eq!(all[0].method, "PUT");
    assert_eq!(all[0].path, "/item/7");
    assert_eq!(all[0].status_code, 404);
    assert_eq!(all[0].duration_ms, 3.25);
    assert_eq!(all[0].timestamp, 1_700_000_000);
}

#[test]
fn clear_keeps_capacity() {
    let mut store: RequestStore<f64> = RequestStore::new();
    store.set_max_requests(7);
    store.record("GET", "/", 200, 1.0);
    store.clear();
    assert_eq!(store.max_requests(), 7);
    assert_eq!(store.len(), 0);
}

#[test]
fn errors_are_statuses_from_400() {
    let mut store: RequestStore<f64> = RequestStore::new();
    store.record("GET", "/ok", 200, 5.0);
    store.record("GET", "/nf", 404, 3.0);
    store.record("POST", "/err", 500, 8.0);
    store.record("GET", "/redirect", 399, 1.0);
    store.record("GET", "/bad", 400, 1.0);
    assert_eq!(count_errors(&store.get_all()), 3);
    let empty: RequestStore<f64> = RequestStore::new();
    assert_eq!(count_errors(&empty.get_all()), 0);
}
