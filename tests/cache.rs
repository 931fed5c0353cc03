use srcomapi::cache::{Cache, CacheEntry};
use srcomapi::fetch::{plan_fetch, FetchStep};
use srcomapi::rate::{RATE_LIMIT_INTERVAL, RATE_LIMIT_NUM_REQUESTS};
use srcomapi::timeout::{timestamp_is_valid, valid_for_draw, Timeout};
use srcomapi::ApiError;

fn entry(ts: u64, body: &str) -> CacheEntry {
    CacheEntry { timestamp: ts, data: body.to_string() }
}

#[test]
fn fixed_timeout_valid_before_and_invalid_at_expiry() {
    let t = Some(Timeout::fixed(1000));
    let mut c = Cache::empty(t, false);
    c.insert("https://x/a".to_string(), entry(5000, "{\"data\":1}"));
    let url = "https://x/a".to_string();
    assert_eq!(c.get(&url, 5000), Some("{\"data\":1}".to_string()));
    assert_eq!(c.get(&url, 5999), Some("{\"data\":1}".to_string()));
    assert_eq!(c.get(&url, 6000), None);
    assert_eq!(c.get(&url, 9000), None);
    // a stamp in the future is never valid
    assert_eq!(c.get(&url, 4999), None);
}

#[test]
fn missing_url_is_none() {
    let c = Cache::empty(None, false);
    assert_eq!(c.get(&"https://x/b".to_string(), 0), None);
}

#[test]
fn no_timeout_never_expires() {
    let mut c = Cache::empty(None, false);
    c.insert("u".to_string(), entry(0, "[]"));
    assert_eq!(c.get(&"u".to_string(), u64::MAX), Some("[]".to_string()));
}

#[test]
fn degenerate_range_matches_fixed() {
    let range = Some(Timeout::range(300, 300));
    let fixed = Some(Timeout::fixed(300));
    for now in [100u64, 399, 400, 401, 1000] {
        for draw in [0u64, 1, 7, 1_000_000] {
            assert_eq!(
                valid_for_draw(&range, 100, now, draw),
                valid_for_draw(&fixed, 100, now, draw)
            );
        }
        assert_eq!(timestamp_is_valid(&range, 100, now), now - 100 < 300);
    }
}

#[test]
fn range_decays_linearly_with_draw() {
    // low = 100, high = 200: at age 150, draws 0..50 keep the entry, 50..100 drop it
    let t = Some(Timeout::range(100, 200));
    assert!(valid_for_draw(&t, 0, 150, 0));
    assert!(valid_for_draw(&t, 0, 150, 49));
    assert!(!valid_for_draw(&t, 0, 150, 50));
    assert!(!valid_for_draw(&t, 0, 150, 99));
    // below low and at high the draw does not matter
    assert!(valid_for_draw(&t, 0, 99, 99));
    assert!(!valid_for_draw(&t, 0, 200, 0));
    assert!(timestamp_is_valid(&t, 0, 99));
    assert!(!timestamp_is_valid(&t, 0, 200));
}

#[test]
fn up_to_starts_at_zero() {
    let t = Timeout::up_to(50);
    assert_eq!(t, Timeout { low: 0, high: 50 });
}

#[test]
fn repeated_get_is_identical_and_leaves_rate_state() {
    let mut c = Cache::empty(Some(Timeout::fixed(60_000)), false);
    c.insert("k".to_string(), entry(10, "{\"data\":{\"id\":\"x\"}}"));
    let before = c.rate_limited(20).unwrap();
    let a = c.get(&"k".to_string(), 20);
    let b = c.get(&"k".to_string(), 30);
    assert!(a.is_some());
    assert_eq!(a, b);
    assert_eq!(c.rate_limited(20).unwrap(), before);
    assert_eq!(c.export().len(), 1);
}

#[test]
fn insert_overwrites_same_url() {
    let mut c = Cache::empty(None, false);
    c.insert("k".to_string(), entry(1, "1"));
    c.insert("k".to_string(), entry(2, "2"));
    let all = c.export();
    assert_eq!(all.len(), 1);
    assert_eq!(all[0].0, "k");
    assert_eq!(all[0].1.timestamp, 2);
    assert_eq!(all[0].1.data, "2");
}

#[test]
fn persist_due_after_sixteen_inserts() {
    let mut c = Cache::empty(None, true);
    for i in 0..15u64 {
        assert!(!c.insert(format!("u{}", i), entry(i, "0")));
    }
    assert!(c.insert("u15".to_string(), entry(15, "0")));
    assert_eq!(c.changes(), 16);
    c.mark_persisted();
    assert_eq!(c.changes(), 0);
}

#[test]
fn memory_cache_resets_change_count() {
    let mut c = Cache::empty(None, false);
    for i in 0..16u64 {
        assert!(!c.insert(format!("u{}", i), entry(i, "0")));
    }
    assert_eq!(c.changes(), 0);
}

#[test]
fn reload_keeps_what_get_would_return() {
    let t = Some(Timeout::range(100, 200));
    let mut c = Cache::empty(t, true);
    c.insert("fresh".to_string(), entry(950, "a"));
    c.insert("maybe".to_string(), entry(850, "b"));
    c.insert("dead".to_string(), entry(700, "c"));
    let written = c.export();
    let mut reloaded = Cache::from_entries(&written, t, true);
    reloaded.retain_fresh(1000);
    let urls: Vec<String> = reloaded.export().into_iter().map(|p| p.0).collect();
    assert_eq!(urls, vec!["fresh".to_string(), "maybe".to_string()]);
    assert_eq!(reloaded.get(&"fresh".to_string(), 1000), Some("a".to_string()));
    assert_eq!(reloaded.get(&"dead".to_string(), 1000), None);
    assert_eq!(c.get(&"dead".to_string(), 1000), None);
}

#[test]
fn from_entries_later_pair_wins() {
    let v = vec![
        ("a".to_string(), entry(1, "x")),
        ("a".to_string(), entry(2, "y")),
    ];
    let c = Cache::from_entries(&v, None, false);
    assert_eq!(c.get(&"a".to_string(), 5), Some("y".to_string()));
}

#[test]
fn burst_must_wait_then_proceeds() {
    let mut c = Cache::empty(None, false);
    let now = 1_000_000u64;
    for i in 0..RATE_LIMIT_NUM_REQUESTS {
        c.insert(format!("u{}", i), entry(now, "0"));
    }
    let d = c.rate_limited(now).unwrap().expect("must wait");
    assert_eq!(d, RATE_LIMIT_INTERVAL);
    assert!(d <= RATE_LIMIT_INTERVAL);
    assert_eq!(c.rate_limited(now + d).unwrap(), None);
}

#[test]
fn rate_wait_counts_from_oldest_recent() {
    let mut c = Cache::empty(None, false);
    for i in 0..RATE_LIMIT_NUM_REQUESTS as u64 {
        c.insert(format!("u{}", i), entry(100_000 + i, "0"));
    }
    // an old request outside the window does not count
    c.insert("old".to_string(), entry(0, "0"));
    let now = 100_500;
    assert_eq!(c.rate_limited(now).unwrap(), Some(RATE_LIMIT_INTERVAL - 500));
    // once the oldest counted request leaves the window, the next one proceeds
    assert_eq!(c.rate_limited(now + RATE_LIMIT_INTERVAL - 500).unwrap(), None);
}

#[test]
fn under_quota_proceeds() {
    let mut c = Cache::empty(None, false);
    for i in 0..(RATE_LIMIT_NUM_REQUESTS - 1) {
        c.insert(format!("u{}", i), entry(5, "0"));
    }
    assert_eq!(c.rate_limited(5).unwrap(), None);
}

#[test]
fn future_request_is_clock_error() {
    let mut c = Cache::empty(None, false);
    for i in 0..RATE_LIMIT_NUM_REQUESTS {
        c.insert(format!("u{}", i), entry(500, "0"));
    }
    assert!(matches!(c.rate_limited(100), Err(ApiError::SystemTime)));
}

#[test]
fn plan_serves_cache_then_rate_then_send() {
    let mut c = Cache::empty(Some(Timeout::fixed(1000)), false);
    c.insert("hit".to_string(), entry(0, "\"v\""));
    match plan_fetch(&c, &"hit".to_string(), 10) {
        Ok(FetchStep::Cached(v)) => assert_eq!(v, "\"v\""),
        _ => panic!("expected a cached response"),
    }
    assert!(matches!(plan_fetch(&c, &"miss".to_string(), 10), Ok(FetchStep::Send)));
    let mut full = Cache::empty(Some(Timeout::fixed(10)), false);
    for i in 0..RATE_LIMIT_NUM_REQUESTS {
        full.insert(format!("u{}", i), entry(100, "0"));
    }
    match plan_fetch(&full, &"u0".to_string(), 150) {
        Ok(FetchStep::Wait(d)) => assert_eq!(d, RATE_LIMIT_INTERVAL - 50),
        _ => panic!("expected a wait"),
    }
}

#[test]
fn uncertain_zone_of_width_one_keeps_the_entry() {
    // the only draw in 0..1 is 0, which keeps an entry of age 0
    let t = Some(Timeout::range(0, 1));
    assert!(timestamp_is_valid(&t, 5, 5));
    assert!(!timestamp_is_valid(&t, 5, 6));
}

#[test]
fn full_cache_evicts_oldest_once_out_of_window() {
    let mut c = Cache::empty(None, false);
    for i in 0..RATE_LIMIT_NUM_REQUESTS as u64 {
        c.insert(format!("u{}", i), entry(1000 + i, "0"));
    }
    assert_eq!(c.len(), RATE_LIMIT_NUM_REQUESTS);
    // the oldest entry (stamped 1000) is still inside the window: nothing is evicted
    c.insert_bounded("new1".to_string(), entry(2000, "1"), 1000 + RATE_LIMIT_INTERVAL - 1);
    assert_eq!(c.len(), RATE_LIMIT_NUM_REQUESTS + 1);
    assert!(c.get(&"u0".to_string(), 0).is_some());
    // once it has left the window it makes room for the next new URL
    c.insert_bounded("new2".to_string(), entry(3000, "2"), 1000 + RATE_LIMIT_INTERVAL);
    assert_eq!(c.len(), RATE_LIMIT_NUM_REQUESTS + 1);
    assert!(c.get(&"u0".to_string(), 0).is_none());
    assert_eq!(c.get(&"new2".to_string(), 0), Some("2".to_string()));
    // overwriting a present URL evicts nothing
    c.insert_bounded("u1".to_string(), entry(4000, "3"), u64::MAX);
    assert_eq!(c.len(), RATE_LIMIT_NUM_REQUESTS + 1);
    assert!(c.get(&"u2".to_string(), 0).is_some());
}
