use jjwt::llm_cache::{evict_at, get, get_at, put, put_at, CachedSummary, LlmCache};

#[test]
fn missing_entry_returns_none() {
    let cache = LlmCache::default();

    assert_eq!(get(&cache, "nonexistent"), None);
}

#[test]
fn expired_entry_returns_none() {
    let mut cache = LlmCache::default();

    cache.summaries.insert("old".into(), CachedSummary { text: "old summary".into(), created: 0 });

    assert_eq!(get(&cache, "old"), None);
}

#[test]
fn fresh_entry_is_returned_until_a_week_has_passed() {
    let mut cache = LlmCache::default();

    put_at(&mut cache, "abc".into(), "Add login".into(), 1_000);

    assert_eq!(get_at(&cache, "abc", 1_000 + 604_799), Some("Add login"));
    assert_eq!(get_at(&cache, "abc", 1_000 + 604_800), None);
}

#[test]
fn put_then_get_now() {
    let mut cache = LlmCache::default();

    put(&mut cache, "abc123".into(), "Add login feature".into());

    assert_eq!(get(&cache, "abc123"), Some("Add login feature"));
}

#[test]
fn eviction_keeps_only_fresh_entries() {
    let mut cache = LlmCache::default();

    cache.summaries.insert("old".into(), CachedSummary { text: "old".into(), created: 0 });
    put_at(&mut cache, "new".into(), "new".into(), 2_000_000);
    evict_at(&mut cache, 2_000_000);

    assert!(!cache.summaries.contains_key("old"));
    assert!(cache.summaries.contains_key("new"));
}
