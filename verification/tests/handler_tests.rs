use rodan_sse::array::EventArray;
use rodan_sse::config::{AppConfig, Config, EventsConfig, HttpConfig, ServerConfig, SecurityConfig};
use rodan_sse::events::{get_events, push_event};
use rodan_sse::handlers::{
    authorize_ingest, cors_allow_any_origin, http_log_level, parse_since_header,
    sse_message_line, IngestDecision,
};
use rodan_sse::responses::{bad_request, not_found_handler, ping_response, unauthorized, EventResponse};

const NOW: i64 = 1_700_000_000_000;
const RAW_KEY: &str = "1234567890123456";

fn config_with_key(key: Option<&str>) -> Config {
    Config {
        server: ServerConfig {
            host: "127.0.0.1".to_string(),
            port: 8080,
            production: false,
            cors_url: vec!["http://localhost:3000".to_string()],
            security: SecurityConfig { jwt_secret: "12345678".to_string() },
        },
        app: AppConfig {
            auth_required: false,
            events: Some(EventsConfig {
                http: Some(HttpConfig::from_raw(
                    "/ingest/event".to_string(),
                    key.map(|k| k.to_string()),
                )),
            }),
            event_logging: false,
            events_logfile: None,
            event_log_rotation: None,
            event_segment_size: Some(100),
            event_max_segments: Some(10),
        },
    }
}

#[test]
fn test_ping() {
    let body = ping_response();
    assert_eq!(body.msg, "pong");
}

#[test]
fn test_not_found_body() {
    assert_eq!(not_found_handler().error, "Resource not found");
    assert_eq!(unauthorized("Invalid API key").error, "Invalid API key");
    assert_eq!(bad_request("Invalid Last-Received-Update header").error, "Invalid Last-Received-Update header");
}

#[test]
fn test_events_ingest() {
    let cfg = config_with_key(Some(RAW_KEY));
    let decision = authorize_ingest(&cfg, Some(RAW_KEY));
    assert_eq!(decision, IngestDecision::Accepted);
    let mut arr = EventArray::new(100, 10);
    for (i, name) in ["user_logged_in", "file_uploaded"].iter().enumerate() {
        push_event(&mut arr, name.to_string(), NOW + i as i64);
    }
    assert_eq!(get_events(&arr, None).len(), 2);
}

#[test]
fn test_events_retrieval() {
    let cfg = config_with_key(Some(RAW_KEY));
    assert_eq!(authorize_ingest(&cfg, Some(RAW_KEY)), IngestDecision::Accepted);
    let mut arr = EventArray::new(100, 10);
    for (i, name) in ["user_logged_in", "file_uploaded", "notification_sent"].iter().enumerate() {
        push_event(&mut arr, name.to_string(), NOW + i as i64);
    }
    let names: Vec<String> = get_events(&arr, None).into_iter().map(|e| e.payload).collect();
    assert_eq!(names, vec!["user_logged_in", "file_uploaded", "notification_sent"]);
}

#[test]
fn test_events_since_last_received_update() {
    let mut arr = EventArray::new(100, 10);
    push_event(&mut arr, "user_logged_in".to_string(), NOW);
    let t = NOW + 50;
    push_event(&mut arr, "user_logged_out".to_string(), NOW + 100);
    let header = chrono::DateTime::<chrono::Utc>::from_timestamp_millis(t)
        .unwrap()
        .to_rfc3339();
    let since = parse_since_header(Some(header.as_str())).unwrap();
    assert_eq!(since, Some(t));
    let names: Vec<String> = get_events(&arr, since).into_iter().map(|e| e.payload).collect();
    assert_eq!(names, vec!["user_logged_out"]);
}

#[test]
fn test_bad_timestamp_header() {
    assert!(parse_since_header(Some("not-a-date")).is_err());
}

#[test]
fn test_missing_header_queries_everything() {
    assert_eq!(parse_since_header(None), Ok(None));
}

#[test]
fn test_unauthorized_ingestion() {
    let cfg = config_with_key(Some(RAW_KEY));
    // no key presented
    assert_eq!(authorize_ingest(&cfg, None), IngestDecision::InvalidKey);
    // wrong key presented
    assert_eq!(authorize_ingest(&cfg, Some("0000000000000000")), IngestDecision::InvalidKey);
    // presenting the stored hash itself must not pass: the raw key is hashed
    let hashed = cfg
        .app
        .events
        .as_ref()
        .unwrap()
        .http
        .as_ref()
        .unwrap()
        .hashed_api_key
        .clone()
        .unwrap();
    assert_eq!(authorize_ingest(&cfg, Some(hashed.as_str())), IngestDecision::InvalidKey);
}

#[test]
fn test_ingest_without_configuration() {
    let mut cfg = config_with_key(None);
    assert_eq!(authorize_ingest(&cfg, None), IngestDecision::Accepted);
    cfg.app.events = Some(EventsConfig { http: None });
    assert_eq!(authorize_ingest(&cfg, None), IngestDecision::HttpNotConfigured);
    cfg.app.events = None;
    assert_eq!(authorize_ingest(&cfg, None), IngestDecision::EventsNotEnabled);
}

#[test]
fn test_cors_allow_any_origin() {
    let wild = vec!["*".to_string()];
    assert!(cors_allow_any_origin(&wild, false));
    assert!(!cors_allow_any_origin(&wild, true));
    let listed = vec!["http://localhost:3000".to_string()];
    assert!(!cors_allow_any_origin(&listed, false));
    let two = vec!["*".to_string(), "http://a".to_string()];
    assert!(!cors_allow_any_origin(&two, false));
}

#[test]
fn test_http_log_level() {
    assert_eq!(http_log_level(404), "trace");
    assert_eq!(http_log_level(500), "warn");
    assert_eq!(http_log_level(503), "warn");
    assert_eq!(http_log_level(599), "warn");
    assert_eq!(http_log_level(200), "info");
    assert_eq!(http_log_level(400), "info");
}

#[test]
fn test_sse_message_lines() {
    assert_eq!(
        sse_message_line("event", "user_logged_in"),
        "{\"type\":\"event\",\"data\":\"user_logged_in\"}\n"
    );
    assert_eq!(
        sse_message_line("heartbeat", "ping"),
        "{\"type\":\"heartbeat\",\"data\":\"ping\"}\n"
    );
    // payloads are JSON-escaped, not spliced in raw
    assert_eq!(
        sse_message_line("event", "say \"hi\"\n"),
        "{\"type\":\"event\",\"data\":\"say \\\"hi\\\"\\n\"}\n"
    );
}

#[test]
fn test_event_response_from_event() {
    let e = rodan_sse::event::Event { timestamp: NOW, payload: "x".to_string() };
    let r = EventResponse::from(e);
    assert_eq!(r.timestamp, NOW);
    assert_eq!(r.message, "x");
}
