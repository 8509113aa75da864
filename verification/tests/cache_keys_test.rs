use memcore_storage::cache_keys::{
    ContextCacheKey, RedisContextCache, redis_context_cache_key, redis_context_index_key,
    redis_entry_ttl_seconds, sanitize_key_prefix,
};
use memcore_storage::hashing::sha256_hex;

fn stable_sha256_hex(text: &str) -> String {
    sha256_hex(text)
}

fn sample_key(org_id: &str, user_id: &str, query: &str, options: &str) -> ContextCacheKey {
    ContextCacheKey {
        org_id: org_id.to_string(),
        user_id: user_id.to_string(),
        query_hash: stable_sha256_hex(query),
        options_hash: stable_sha256_hex(options),
    }
}

#[test]
fn redis_key_builder_is_deterministic() {
    let key = sample_key("org_a", "user_a", "query", "options");
    let first = redis_context_cache_key("memcore", &key);
    let second = redis_context_cache_key("memcore", &key);
    assert_eq!(first, second);
}

#[test]
fn redis_key_includes_org_user_isolation() {
    let base = sample_key("org_a", "user_a", "same", "same");
    let other_org = sample_key("org_b", "user_a", "same", "same");
    let other_user = sample_key("org_a", "user_b", "same", "same");

    let base_key = redis_context_cache_key("memcore", &base);
    assert_ne!(base_key, redis_context_cache_key("memcore", &other_org));
    assert_ne!(base_key, redis_context_cache_key("memcore", &other_user));
    assert_ne!(
        redis_context_index_key("memcore", "org_a", "user_a"),
        redis_context_index_key("memcore", "org_b", "user_a")
    );
}

#[test]
fn redis_key_changes_when_query_or_options_hash_changes() {
    let base = sample_key("org_a", "user_a", "alpha", "opts");
    let query_changed = sample_key("org_a", "user_a", "beta", "opts");
    let options_changed = sample_key("org_a", "user_a", "alpha", "other_opts");

    assert_ne!(
        redis_context_cache_key("memcore", &base),
        redis_context_cache_key("memcore", &query_changed)
    );
    assert_ne!(
        redis_context_cache_key("memcore", &base),
        redis_context_cache_key("memcore", &options_changed)
    );
}

#[test]
fn redis_key_does_not_include_raw_org_user_or_query() {
    let raw_org = "org_with_secret_name";
    let raw_user = "user_with_secret_id";
    let raw_query = "very long sensitive query string that should not appear verbatim";
    let key = sample_key(raw_org, raw_user, raw_query, "opts");
    let redis_key = redis_context_cache_key("memcore", &key);

    assert!(!redis_key.contains(raw_org));
    assert!(!redis_key.contains(raw_user));
    assert!(!redis_key.contains(raw_query));
    assert!(!redis_key.contains("mc_live_"));
    assert!(!redis_key.contains("Bearer "));
}

#[test]
fn empty_prefix_defaults_to_memcore() {
    let key = sample_key("org", "user", "q", "o");
    assert!(redis_context_cache_key("", &key).starts_with("memcore:context:"));
}

#[test]
fn key_layout_is_exact() {
    let key = ContextCacheKey {
        org_id: "".to_string(),
        user_id: "abc".to_string(),
        query_hash: "q".to_string(),
        options_hash: "o".to_string(),
    };
    assert_eq!(
        redis_context_cache_key("  app  ", &key),
        "app:context:e3b0c44298fc1c149afbf4c8996fb92427ae41e4649b934ca495991b7852b855:ba7816bf8f01cfea414140de5dae2223b00361a396177a9cb410ff61f20015ad:q:o"
    );
    assert_eq!(
        redis_context_index_key(" \t", "", "abc"),
        "memcore:context:index:e3b0c44298fc1c149afbf4c8996fb92427ae41e4649b934ca495991b7852b855:ba7816bf8f01cfea414140de5dae2223b00361a396177a9cb410ff61f20015ad"
    );
    assert_eq!(sanitize_key_prefix(" x y "), "x y");
    assert_eq!(sanitize_key_prefix("   "), "memcore");
}

#[test]
fn entry_ttl_rounds_down_to_whole_seconds_with_floor_of_one() {
    let now: i128 = 1_000_000_000_000;
    assert_eq!(redis_entry_ttl_seconds(now + 90_500_000_000, now, 300), 90);
    assert_eq!(redis_entry_ttl_seconds(now + 500_000_000, now, 300), 1);
    assert_eq!(redis_entry_ttl_seconds(now, now, 300), 300);
    assert_eq!(redis_entry_ttl_seconds(now - 5, now, 0), 1);
    assert_eq!(redis_entry_ttl_seconds(i128::MAX, i128::MIN, 5), u64::MAX);
    assert_eq!(redis_entry_ttl_seconds(-1_000_000_000, -3_000_000_000, 5), 2);
    let cache = RedisContextCache::new("pre", 60);
    assert_eq!(cache.entry_ttl_seconds(now - 1, now), 60);
    let key = sample_key("o", "u", "q", "p");
    assert_eq!(cache.entry_key(&key), redis_context_cache_key("pre", &key));
    assert_eq!(cache.index_key("o", "u"), redis_context_index_key("pre", "o", "u"));
}
