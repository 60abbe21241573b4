use rodan_sse::config::{
    AppConfig, EventsConfig, HttpConfig, SecurityConfig, ServerConfig,
};
use sha2::Digest;

fn good_security() -> SecurityConfig {
    SecurityConfig { jwt_secret: "12345678".to_string() }
}

fn good_server() -> ServerConfig {
    ServerConfig {
        host: "127.0.0.1".to_string(),
        port: 8080,
        production: false,
        cors_url: vec!["http://localhost:3000".to_string()],
        security: good_security(),
    }
}

fn sha256_hex_reference(s: &str) -> String {
    let digest = sha2::Sha256::digest(s.as_bytes());
    digest.as_slice().iter().map(|b| format!("{:02x}", b)).collect::<Vec<_>>().join("")
}

#[test]
fn test_server_validate_ok() {
    assert!(good_server().validate().is_ok());
}

#[test]
fn test_server_validate_blank_host() {
    let mut cfg = good_server();
    cfg.host = "   ".to_string();
    assert_eq!(cfg.validate().unwrap_err(), "server.host cannot be empty");
}

#[test]
fn test_server_validate_zero_port() {
    let mut cfg = good_server();
    cfg.port = 0;
    assert_eq!(cfg.validate().unwrap_err(), "server.port must be greater than 0");
}

#[test]
fn test_server_validate_empty_cors() {
    let mut cfg = good_server();
    cfg.cors_url = vec![];
    assert_eq!(cfg.validate().unwrap_err(), "server.cors-url must contain at least one entry");
}

#[test]
fn test_security_validate_short_secret() {
    let cfg = SecurityConfig { jwt_secret: "short".to_string() };
    assert_eq!(
        cfg.validate().unwrap_err(),
        "server.security.jwt-secret must be at least 8 characters"
    );
    let cfg = SecurityConfig { jwt_secret: "  ".to_string() };
    assert_eq!(cfg.validate().unwrap_err(), "server.security.jwt-secret cannot be empty");
}

#[test]
fn test_http_config_hashes_api_key_at_load() {
    let cfg = HttpConfig::from_raw(
        "/ingest/event".to_string(),
        Some("1234567890123456".to_string()),
    );
    assert_eq!(cfg.api_key.as_deref(), Some("1234567890123456"));
    assert_eq!(
        cfg.hashed_api_key.as_deref(),
        Some(sha256_hex_reference("1234567890123456").as_str())
    );
    assert!(cfg.validate().is_ok());
}

#[test]
fn test_http_config_without_key() {
    let cfg = HttpConfig::from_raw("/ingest/event".to_string(), None);
    assert!(cfg.hashed_api_key.is_none());
    assert!(cfg.validate().is_ok());
}

#[test]
fn test_http_validate_short_key() {
    let cfg = HttpConfig::from_raw("/ingest/event".to_string(), Some("short".to_string()));
    assert_eq!(
        cfg.validate().unwrap_err(),
        "events.http.api-key must be at least 16 characters"
    );
}

#[test]
fn test_http_validate_blank_endpoint() {
    let cfg = HttpConfig::from_raw(" ".to_string(), None);
    assert_eq!(cfg.validate().unwrap_err(), "events.http.endpoint cannot be empty");
}

#[test]
fn test_http_validate_endpoint_needs_leading_slash() {
    let cfg = HttpConfig::from_raw("ingest/event".to_string(), None);
    assert_eq!(cfg.validate().unwrap_err(), "events.http.endpoint must begin with '/'");
}

#[test]
fn test_events_validate_requires_http() {
    let cfg = EventsConfig { http: None };
    assert_eq!(
        cfg.validate().unwrap_err(),
        "events: at least one event type (http) must be configured"
    );
    let cfg = EventsConfig {
        http: Some(HttpConfig::from_raw("/ingest/event".to_string(), None)),
    };
    assert!(cfg.validate().is_ok());
}

#[test]
fn test_app_validate() {
    let mut cfg = AppConfig {
        auth_required: false,
        events: Some(EventsConfig {
            http: Some(HttpConfig::from_raw("/ingest/event".to_string(), None)),
        }),
        event_logging: false,
        events_logfile: None,
        event_log_rotation: None,
        event_segment_size: Some(100),
        event_max_segments: Some(10),
    };
    assert!(cfg.validate().is_ok());
    cfg.event_logging = true;
    assert_eq!(
        cfg.validate().unwrap_err(),
        "app: event-logging is enabled but no log file is given"
    );
    cfg.event_logging = false;
    cfg.event_segment_size = Some(0);
    assert_eq!(cfg.validate().unwrap_err(), "app: event-segment-size must be greater than 0");
    cfg.event_segment_size = Some(100);
    cfg.event_max_segments = Some(0);
    assert_eq!(cfg.validate().unwrap_err(), "app: event-max-segments must be greater than 0");
}
