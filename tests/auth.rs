use meritocrab::auth::{GithubAppAuth, InstallationToken, InstallationTokenManager};
use std::time::{SystemTime, UNIX_EPOCH};

fn now() -> u64 {
    SystemTime::now().duration_since(UNIX_EPOCH).unwrap().as_secs()
}

#[test]
fn test_github_app_auth_new() {
    let auth = GithubAppAuth::new(12345, "private-key".to_string());
    assert_eq!(auth.app_id(), 12345);
    assert_eq!(auth.private_key(), "private-key");
}

#[test]
fn test_generate_jwt() {
    let auth = GithubAppAuth::new(12345, "private-key".to_string());
    let jwt_str = auth.generate_jwt(1700000000);
    assert!(jwt_str.contains("12345"));
    assert_eq!(jwt_str, "PLACEHOLDER_JWT_FOR_APP_12345_AT_1700000000");
}

#[test]
fn test_installation_token_is_expired() {
    let expired_time = now() - 60;
    let token = InstallationToken::new("token".to_string(), expired_time);
    assert!(token.is_expired(now()));
}

#[test]
fn test_installation_token_not_expired() {
    let future_time = now() + 3600;
    let token = InstallationToken::new("token".to_string(), future_time);
    assert!(!token.is_expired(now()));
}

#[test]
fn test_installation_token_is_expiring_soon() {
    let soon_time = now() + 120; // 2 minutes
    let token = InstallationToken::new("token".to_string(), soon_time);
    assert!(token.is_expiring_soon(now()));
}

#[test]
fn test_installation_token_not_expiring_soon() {
    let future_time = now() + 3600; // 1 hour
    let token = InstallationToken::new("token".to_string(), future_time);
    assert!(!token.is_expiring_soon(now()));
}

#[test]
fn test_installation_token_manager() {
    let auth = GithubAppAuth::new(12345, "private-key".to_string());
    let mut manager = InstallationTokenManager::new(auth);

    let token = manager.get_token(67890, now());
    assert!(token.contains("67890"));
}

#[test]
fn test_installation_token_manager_caching() {
    let auth = GithubAppAuth::new(12345, "private-key".to_string());
    let mut manager = InstallationTokenManager::new(auth);

    let token1 = manager.get_token(67890, now());
    let token2 = manager.get_token(67890, now());

    assert_eq!(token1, token2);
}

#[test]
fn test_installation_token_manager_clear_cache() {
    let auth = GithubAppAuth::new(12345, "private-key".to_string());
    let mut manager = InstallationTokenManager::new(auth);

    let _token1 = manager.get_token(67890, now());
    manager.clear_cache();
    let token2 = manager.get_token(67890, now());
    assert!(token2.contains("67890"));
}

#[test]
fn token_expiry_boundaries() {
    let token = InstallationToken::new("t".to_string(), 1000);
    assert!(token.is_expired(1000));
    assert!(!token.is_expired(999));
    assert!(token.is_expiring_soon(701));
    assert!(!token.is_expiring_soon(700));
    assert!(token.is_expiring_soon(2000));
    assert_eq!(token.token(), "t");
}

#[test]
fn manager_renews_expiring_token() {
    let mut manager = InstallationTokenManager::new(GithubAppAuth::new(1, "k".to_string()));
    assert_eq!(manager.get_token(5, 1000), "ghs_installation_token_for_5");
    // still cached for another installation while fresh
    assert_eq!(manager.get_token(6, 1000 + 3600 - 301), "ghs_installation_token_for_5");
    // within the refresh margin a new token is issued
    assert_eq!(manager.get_token(6, 1000 + 3600 - 299), "ghs_installation_token_for_6");
}

#[test]
fn jwt_renders_negative_and_extreme_numbers() {
    let auth = GithubAppAuth::new(-7, "k".to_string());
    assert_eq!(auth.generate_jwt(i64::MIN), "PLACEHOLDER_JWT_FOR_APP_-7_AT_-9223372036854775808");
    assert_eq!(GithubAppAuth::new(0, "k".to_string()).generate_jwt(i64::MAX), "PLACEHOLDER_JWT_FOR_APP_0_AT_9223372036854775807");
}
