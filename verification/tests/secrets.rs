use blueshoes::edge::secrets::{LocalFirstSecretProvider, SecretSource, SovereignSecretManager};

#[test]
fn test_missing_local_cache_returns_explicit_error() {
    let key = [42u8; 32];
    let provider = LocalFirstSecretProvider::new("/tmp/test_missing_cache.json", &key);
    let result = provider.resolve_local("missing_key", false);
    assert!(result.is_err());
    assert_eq!(
        result.err().unwrap(),
        "Offline Mode Error: Secret missing_key missing from local vault."
    );
}

#[test]
fn sealed_vaults_open_again() {
    let key = [42u8; 32];
    let mut vault = SovereignSecretManager::new("/tmp/test_sovereign_cache.json", &key);
    let sealed = vault.insert_and_seal("my_api_key", "super_secret_value".to_string()).unwrap();
    assert_eq!(sealed.nonce.len(), 12);
    assert_eq!(vault.secrets_json_text(), r#"{"my_api_key":"super_secret_value"}"#);
    let mut reopened = SovereignSecretManager::new("/tmp/test_sovereign_cache.json", &key);
    reopened.hydrate_from_vault(&sealed).unwrap();
    assert_eq!(reopened.get_cached("my_api_key").as_deref(), Some("super_secret_value"));
    let other = SovereignSecretManager::new("/tmp/x", &[7u8; 32]);
    let mut wrong = other;
    assert_eq!(
        wrong.hydrate_from_vault(&sealed).unwrap_err(),
        "Cryptographic key error: Unable to unlock local sovereign secrets."
    );
    let json = sealed.to_json();
    assert!(json.starts_with("{\"nonce\":["));
    assert!(json.contains("],\"ciphertext\":["));
}

#[test]
fn provider_prefers_the_vault() {
    let key = [1u8; 32];
    let mut provider = LocalFirstSecretProvider::new("/tmp/p.json", &key);
    assert!(matches!(provider.resolve_local("k", true), Ok(SecretSource::Upstream)));
    provider.accept_upstream("k", "v".to_string()).unwrap();
    match provider.resolve_local("k", false) {
        Ok(SecretSource::Local(v)) => assert_eq!(v, "v"),
        _ => panic!("expected the vault's secret"),
    }
    let mut vault = SovereignSecretManager::new("/tmp/q", &key);
    vault.insert("a", "1".to_string());
    vault.insert("a", "2".to_string());
    assert_eq!(vault.get_cached("a").as_deref(), Some("2"));
    assert_eq!(vault.secrets_json_text(), r#"{"a":"2"}"#);
}

#[test]
fn test_offline_cache_read_works_without_network() {
    let path = "/tmp/test_sovereign_cache.json";
    let key = [42u8; 32];
    let mut provider = LocalFirstSecretProvider::new(path, &key);
    let stored = provider.cache_mut().insert_and_seal("my_api_key", "super_secret_value".to_string()).unwrap();

    let mut offline_provider = LocalFirstSecretProvider::new(path, &key);
    offline_provider.cache_mut().hydrate_from_vault(&stored).unwrap();
    match offline_provider.resolve_local("my_api_key", false) {
        Ok(SecretSource::Local(v)) => assert_eq!(v, "super_secret_value"),
        _ => panic!("expected the vault's secret"),
    }
}

#[test]
fn vaults_with_several_secrets_restore_every_one() {
    let key = [9u8; 32];
    let mut vault = SovereignSecretManager::new("/tmp/several", &key);
    vault.insert("a", "1".to_string());
    vault.insert("b", "quote \" and \\ slash".to_string());
    vault.insert("c", "".to_string());
    let sealed = vault.seal_vault().unwrap();
    let mut back = SovereignSecretManager::new("/tmp/several", &key);
    back.insert("stale", "x".to_string());
    back.hydrate_from_vault(&sealed).unwrap();
    assert_eq!(back.get_cached("a").as_deref(), Some("1"));
    assert_eq!(back.get_cached("b").as_deref(), Some("quote \" and \\ slash"));
    assert_eq!(back.get_cached("c").as_deref(), Some(""));
    assert_eq!(back.get_cached("stale"), None);
}
