use meritocrab::paths::extract_repo_from_path;
use meritocrab::types::{
    default_max_concurrent_llm_evals, default_oauth_client_id, default_oauth_client_secret,
    default_oauth_redirect_url, default_page, default_per_page, uptime_seconds, DatabaseConfig,
    DatabaseStatus, HealthResponse, LlmProviderStatus, PaginatedResponse, PaginationQuery,
    ServerConfig,
};

#[test]
fn test_extract_repo_from_path() {
    assert_eq!(
        extract_repo_from_path("/api/repos/owner/repo/evaluations"),
        Some(("owner", "repo"))
    );

    assert_eq!(
        extract_repo_from_path("/api/repos/my-org/my-repo/contributors"),
        Some(("my-org", "my-repo"))
    );

    assert_eq!(extract_repo_from_path("/api/repos/owner"), None);

    assert_eq!(extract_repo_from_path("/webhooks/github"), None);

    assert_eq!(extract_repo_from_path("/health"), None);
}

#[test]
fn extract_repo_from_path_edges() {
    assert_eq!(extract_repo_from_path("/api/repos/o/r"), Some(("o", "r")));
    assert_eq!(extract_repo_from_path("/api/repos//"), Some(("", "")));
    assert_eq!(extract_repo_from_path("/API/repos/o/r"), None);
}

#[test]
fn config_test_config_types() {
    let server_config = ServerConfig {
        host: "127.0.0.1".to_string(),
        port: 8080,
    };
    assert_eq!(server_config.host, "127.0.0.1");
    assert_eq!(server_config.port, 8080);

    let db_config = DatabaseConfig {
        url: "sqlite://test.db".to_string(),
        max_connections: 10,
    };
    assert_eq!(db_config.url, "sqlite://test.db");
    assert_eq!(db_config.max_connections, 10);
}

#[test]
fn configuration_defaults() {
    let server = ServerConfig::default();
    assert_eq!(server.host, "127.0.0.1");
    assert_eq!(server.port, 8080);
    assert_eq!(default_max_concurrent_llm_evals(), 10);
    assert_eq!(default_oauth_client_id(), "");
    assert_eq!(default_oauth_client_secret(), "");
    assert_eq!(default_oauth_redirect_url(), "http://localhost:8080/auth/callback");
    assert_eq!(default_page(), 1);
    assert_eq!(default_per_page(), 20);
}

#[test]
fn pagination_arithmetic() {
    let q = PaginationQuery { page: 3, per_page: 20, status: None };
    assert_eq!(q.offset(), 40);
    let page: PaginatedResponse<u8> = PaginatedResponse::new(vec![1, 2], 1, 20, 41);
    assert_eq!(page.total_pages, 3);
    let empty: PaginatedResponse<u8> = PaginatedResponse::new(vec![], 1, 20, 0);
    assert_eq!(empty.total_pages, 0);
}

#[test]
fn health_is_degraded_when_a_probe_fails() {
    let up = HealthResponse::new(
        "0.1.0".to_string(),
        5,
        DatabaseStatus { connected: true, driver: "sqlite".to_string() },
        LlmProviderStatus { provider: "mock".to_string(), available: true },
    );
    assert_eq!(up.status, "healthy");
    let down = HealthResponse::new(
        "0.1.0".to_string(),
        5,
        DatabaseStatus { connected: false, driver: "sqlite".to_string() },
        LlmProviderStatus { provider: "mock".to_string(), available: true },
    );
    assert_eq!(down.status, "degraded");
    assert_eq!(uptime_seconds(100, 250), 150);
    assert_eq!(uptime_seconds(250, 100), 0);
}
