use linkpreview::cache::{
    cache_marker, generate_cache_key, plan_request, record_response, CachePlan, MemoryCache,
};

fn headers() -> Vec<(String, String)> {
    vec![("content-type".to_string(), "application/json".to_string())]
}

#[test]
fn get_returns_value_before_expiry() {
    let mut cache = MemoryCache::new();
    assert!(cache.get("GET:/v1/extract?url=x", 0).is_none());

    cache.set(
        "GET:/v1/extract?url=x".to_string(),
        vec![1, 2, 3],
        headers(),
        1000,
        50,
    );
    let (h, d) = cache.get("GET:/v1/extract?url=x", 1049).expect("visible before expiry");
    assert_eq!(d, vec![1, 2, 3]);
    assert_eq!(h, headers());

    // At and after the expiry instant the entry reads as absent.
    assert!(cache.get("GET:/v1/extract?url=x", 1050).is_none());
    assert!(cache.get("GET:/v1/extract?url=x", 2000).is_none());
    // A different key was never present.
    assert!(cache.get("GET:/v1/extract?url=y", 100).is_none());
}

#[test]
fn set_overwrites_existing_entry() {
    let mut cache = MemoryCache::new();
    cache.set("k".to_string(), vec![1], headers(), 100, 0);
    cache.set("k".to_string(), vec![2], headers(), 100, 10);
    let (_, d) = cache.get("k", 50).unwrap();
    assert_eq!(d, vec![2]);
}

#[test]
fn sweep_keeps_exactly_unexpired_entries() {
    let mut cache = MemoryCache::new();
    cache.set("a".to_string(), vec![1], headers(), 100, 0); // expires at 100
    cache.set("b".to_string(), vec![2], headers(), 500, 0); // expires at 500
    cache.set("c".to_string(), vec![3], headers(), 200, 0); // expires at 200

    cache.sweep(200);
    // Exactly the entries whose expiry was > 200 remain.
    assert!(cache.get("a", 0).is_none());
    assert!(cache.get("b", 0).is_some());
    assert!(cache.get("c", 0).is_none());
}

#[test]
fn miss_then_hit_and_post_bypasses() {
    let mut cache = MemoryCache::new();
    let paq = "/v1/extract?url=https%3A%2F%2Fexample.com";

    // First GET: miss.
    match plan_request(&cache, "GET", paq, 0) {
        CachePlan::Miss => {}
        _ => panic!("expected a miss on the first request"),
    }

    // The handler's fixed payload is recorded.
    let key = generate_cache_key("GET", paq);
    assert_eq!(key, format!("GET:{}", paq));
    let stored = record_response(&mut cache, key, 200, headers(), vec![9, 9], 3600, 0);
    assert!(stored);

    // Second GET: hit, serving the stored payload with the HIT marker.
    match plan_request(&cache, "GET", paq, 1000) {
        CachePlan::Hit(h, d) => {
            assert_eq!(d, vec![9, 9]);
            let marker = h.last().expect("marker present");
            assert_eq!(marker.0, "x-gizo-cache");
            assert_eq!(marker.1, "HIT");
            assert_eq!(h[0], headers()[0]);
        }
        _ => panic!("expected a hit on the second request"),
    }

    // An identical-path POST never touches the cache in either direction.
    match plan_request(&cache, "POST", paq, 1000) {
        CachePlan::Bypass => {}
        _ => panic!("expected a bypass for POST"),
    }
}

#[test]
fn non_success_responses_are_not_stored() {
    let mut cache = MemoryCache::new();
    let key = generate_cache_key("GET", "/v1/extract?url=x");
    let stored = record_response(&mut cache, key.clone(), 404, headers(), vec![1], 3600, 0);
    assert!(!stored);
    assert!(cache.get(&key, 1).is_none());

    let stored = record_response(&mut cache, key.clone(), 301, headers(), vec![1], 3600, 0);
    assert!(!stored);
}

#[test]
fn marker_values() {
    assert_eq!(
        cache_marker(true),
        ("x-gizo-cache".to_string(), "HIT".to_string())
    );
    assert_eq!(
        cache_marker(false),
        ("x-gizo-cache".to_string(), "MISS".to_string())
    );
}
