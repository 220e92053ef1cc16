use handlebars_response_cache::Fingerprint;
use handlebars_response_cache::RenderCache;

fn entry(text: &str) -> (String, Fingerprint) {
    (text.to_string(), Fingerprint { weak: true, tag: format!("tag-{text}") })
}

#[test]
fn capacity_invariant_and_lru_eviction() {
    let mut cache = RenderCache::with_capacity(3);
    let (c1, f1) = entry("one");
    let (c2, f2) = entry("two");
    let (c3, f3) = entry("three");
    let (c4, f4) = entry("four");
    assert!(cache.insert("a".to_string(), c1, f1).is_none());
    assert!(cache.insert("b".to_string(), c2, f2).is_none());
    assert!(cache.insert("c".to_string(), c3, f3).is_none());
    assert_eq!(cache.size(), 3);
    // a fourth distinct key evicts exactly the least recently written key
    assert!(cache.insert("d".to_string(), c4, f4).is_none());
    assert_eq!(cache.size(), 3);
    assert!(!cache.contains_key("a"));
    assert!(cache.contains_key("b"));
    assert!(cache.contains_key("c"));
    assert!(cache.contains_key("d"));
}

#[test]
fn insert_idempotent() {
    let mut cache = RenderCache::with_capacity(4);
    let (c, f) = entry("body");
    cache.insert("k".to_string(), c.clone(), f.clone());
    cache.insert("k".to_string(), c.clone(), f.clone());
    assert_eq!(cache.size(), 1);
    let (content, etag) = cache.get("k").expect("cached entry");
    assert_eq!(content, "body");
    assert_eq!(etag.tag, "tag-body");
}

#[test]
fn insert_returns_previous_value() {
    let mut cache = RenderCache::with_capacity(2);
    let (c1, f1) = entry("old");
    let (c2, f2) = entry("new");
    assert!(cache.insert("k".to_string(), c1, f1).is_none());
    let previous = cache.insert("k".to_string(), c2, f2).expect("previous value");
    assert_eq!(previous.0, "old");
    assert_eq!(previous.1.tag, "tag-old");
    let (content, _) = cache.get("k").expect("cached entry");
    assert_eq!(content, "new");
}

#[test]
fn reinserting_promotes_recency() {
    let mut cache = RenderCache::with_capacity(2);
    let (c1, f1) = entry("one");
    let (c2, f2) = entry("two");
    let (c3, f3) = entry("three");
    cache.insert("a".to_string(), c1.clone(), f1.clone());
    cache.insert("b".to_string(), c2, f2);
    // re-writing "a" makes "b" the least recently written
    cache.insert("a".to_string(), c1, f1);
    cache.insert("c".to_string(), c3, f3);
    assert!(cache.contains_key("a"));
    assert!(!cache.contains_key("b"));
    assert!(cache.contains_key("c"));
}

#[test]
fn get_does_not_promote() {
    let mut cache = RenderCache::with_capacity(2);
    let (c1, f1) = entry("one");
    let (c2, f2) = entry("two");
    let (c3, f3) = entry("three");
    cache.insert("a".to_string(), c1, f1);
    cache.insert("b".to_string(), c2, f2);
    // reading "a" must not save it from eviction: recency moves on writes only
    assert!(cache.get("a").is_some());
    cache.insert("c".to_string(), c3, f3);
    assert!(!cache.contains_key("a"));
    assert!(cache.contains_key("b"));
    assert!(cache.contains_key("c"));
}

#[test]
fn capacity_zero_disables_caching() {
    let mut cache = RenderCache::with_capacity(0);
    let (c1, f1) = entry("one");
    let (c2, f2) = entry("two");
    assert!(cache.insert("a".to_string(), c1, f1).is_none());
    assert!(cache.insert("a".to_string(), c2, f2).is_none());
    assert!(!cache.contains_key("a"));
    assert!(cache.get("a").is_none());
    assert_eq!(cache.size(), 0);
}

#[test]
fn clear_empties_but_keeps_capacity() {
    let mut cache = RenderCache::with_capacity(2);
    let (c1, f1) = entry("one");
    cache.insert("a".to_string(), c1, f1);
    cache.clear();
    assert_eq!(cache.size(), 0);
    assert!(!cache.contains_key("a"));
    // capacity is unchanged: two inserts still fit, a third evicts
    let (c2, f2) = entry("two");
    let (c3, f3) = entry("three");
    let (c4, f4) = entry("four");
    cache.insert("x".to_string(), c2, f2);
    cache.insert("y".to_string(), c3, f3);
    cache.insert("z".to_string(), c4, f4);
    assert_eq!(cache.size(), 2);
}
