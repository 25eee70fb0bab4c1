use tabularis_dynamodb_plugin::dynamodb::pool::{plan_config, resolve_region, ConfigPool, ConnectionParams, POOL_TTL_MS};

fn params(region: Option<&str>, akid: Option<&str>, sak: Option<&str>, token: Option<&str>) -> ConnectionParams {
    ConnectionParams {
        region: region.map(|s| s.to_string()),
        access_key_id: akid.map(|s| s.to_string()),
        secret_access_key: sak.map(|s| s.to_string()),
        session_token: token.map(|s| s.to_string()),
        profile: None,
        endpoint: Some("http://localhost:8000".to_string()),
    }
}

#[test]
fn cache_key_writes_each_setting_with_its_length() {
    let p = params(Some("us-east-1"), Some("AKID"), Some("SAK"), None);
    assert_eq!(p.cache_key(), "9:us-east-14:AKID3:SAK--21:http://localhost:8000");
    assert_eq!(params(None, None, None, None).cache_key(), "-----21:http://localhost:8000");
}

#[test]
fn cache_keys_of_different_settings_differ() {
    let a = params(Some("x:y"), None, None, None);
    let b = params(Some("x"), Some("y:"), None, None);
    assert_ne!(a.cache_key(), b.cache_key());
    assert_ne!(params(None, None, None, None).cache_key(), params(Some(""), None, None, None).cache_key());
    assert_eq!(a.cache_key(), a.clone().cache_key());
}

#[test]
fn plan_uses_explicit_credentials_only_with_both_keys() {
    let plan = plan_config(&params(Some("us-east-1"), Some("AKID"), Some("SAK"), Some("TOK")));
    let creds = plan.credentials.unwrap();
    assert_eq!(creds.access_key_id, "AKID");
    assert_eq!(creds.secret_access_key, "SAK");
    assert_eq!(creds.session_token.as_deref(), Some("TOK"));
    assert_eq!(plan.region.as_deref(), Some("us-east-1"));
    assert_eq!(plan.endpoint.as_deref(), Some("http://localhost:8000"));
    assert!(plan_config(&params(Some("us-east-1"), Some("AKID"), None, None)).credentials.is_none());
}

#[test]
fn region_defaults_to_us_east_1() {
    assert_eq!(resolve_region(None), "us-east-1");
    assert_eq!(resolve_region(Some("eu-west-1".into())), "eu-west-1");
}

#[test]
fn pool_finds_what_was_cached_and_forgets_stale_entries() {
    let mut pool: ConfigPool<u32> = ConfigPool::new();
    assert_eq!(pool.get("k"), None);
    assert!(!pool.touch("k", 5));
    pool.insert("k".to_string(), 7, 0);
    pool.insert("other".to_string(), 8, 0);
    assert_eq!(pool.get("k"), Some(&7));
    pool.insert("k".to_string(), 9, 10);
    assert_eq!(pool.get("k"), Some(&9));
    assert!(pool.touch("k", POOL_TTL_MS));
    pool.cleanup(POOL_TTL_MS, POOL_TTL_MS);
    assert_eq!(pool.get("k"), Some(&9));
    assert_eq!(pool.get("other"), None);
    pool.cleanup(2 * POOL_TTL_MS, POOL_TTL_MS);
    assert_eq!(pool.get("k"), None);
}

#[test]
fn reuse_hands_back_the_cached_config_and_keeps_it_fresh() {
    let mut pool: ConfigPool<u32> = ConfigPool::new();
    assert_eq!(pool.reuse("k", 0), None);
    pool.insert("k".to_string(), 7, 0);
    assert_eq!(pool.reuse("k", POOL_TTL_MS - 1), Some(&7));
    pool.cleanup(POOL_TTL_MS + 1, POOL_TTL_MS);
    assert_eq!(pool.get("k"), Some(&7));
    assert_eq!(pool.reuse("other", 5), None);
}

#[test]
fn config_for_reuses_only_what_was_cached_for_the_same_settings() {
    let mut pool: ConfigPool<u32> = ConfigPool::new();
    let a = params(Some("x:y"), None, None, None);
    let b = params(Some("x"), Some("y:"), None, None);
    match pool.config_for(&a, 0) {
        Err(plan) => assert_eq!(plan.region.as_deref(), Some("x:y")),
        Ok(c) => panic!("nothing was cached, got {c}"),
    }
    pool.insert(a.cache_key(), 1, 0);
    assert_eq!(pool.config_for(&a, 5).ok(), Some(&1));
    match pool.config_for(&b, 5) {
        Err(plan) => {
            assert_eq!(plan.region.as_deref(), Some("x"));
            assert!(plan.credentials.is_none());
        },
        Ok(c) => panic!("settings {b:?} must not reuse {c}"),
    }
}
