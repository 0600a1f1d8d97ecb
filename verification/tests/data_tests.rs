use djbot::data::PrefixCache;

#[test]
fn cache_miss_then_hit() {
    let mut cache = PrefixCache::new();
    assert!(cache.cached(7).is_none());
    // A miss resolved against a stored row caches that row.
    assert_eq!(cache.resolve_miss(7, Some(String::from("!"))), "!");
    assert_eq!(cache.cached(7).as_deref(), Some("!"));
    // A miss resolved against no row caches the default prefix.
    assert_eq!(cache.resolve_miss(8, None), "~");
    assert_eq!(cache.cached(8).as_deref(), Some("~"));
    assert!(cache.cached(9).is_none());
}

#[test]
fn noting_and_resetting_prefixes() {
    let mut cache = PrefixCache::new();
    cache.note_prefix(7, "$");
    assert_eq!(cache.cached(7).as_deref(), Some("$"));
    cache.note_prefix(7, "!");
    assert_eq!(cache.cached(7).as_deref(), Some("!"));
    cache.reset_prefix(7);
    assert_eq!(cache.cached(7).as_deref(), Some("~"));
}
