use rodan_sse::batch::LogBuffer;
use rodan_sse::logging::{log_event, log_line, Log};

const NOW: i64 = 1_700_000_000_000;

fn expected_line(ts_ms: i64, message: &str) -> String {
    let ts = chrono::DateTime::<chrono::Utc>::from_timestamp_millis(ts_ms)
        .unwrap()
        .to_rfc3339();
    format!(
        "{{\"timestamp\":{},\"level\":{},\"target\":{},\"message\":{},\"type\":{}}}",
        serde_json::to_string(&ts).unwrap(),
        serde_json::to_string("INFO").unwrap(),
        serde_json::to_string("rodan.events").unwrap(),
        serde_json::to_string(message).unwrap(),
        serde_json::to_string("notifications").unwrap(),
    )
}

#[test]
fn test_add_event() {
    let mut log = Log::new();
    log.add_event("Test message 1".to_string(), NOW);
    log.add_event("Test message 2".to_string(), NOW);
    assert_eq!(log.len(), 2);
    let messages = log.messages();
    assert_eq!(messages[0], "Test message 1");
    assert_eq!(messages[1], "Test message 2");
}

#[test]
fn test_flush_events_clears_log() {
    let mut log = Log::new();
    log.add_event("Flush test 1".to_string(), NOW);
    log.add_event("Flush test 2".to_string(), NOW);
    let batch = log.serialize_events();
    assert!(batch.is_some());
    assert_eq!(log.len(), 0);
}

#[test]
fn test_serialize_events_writes_json_lines_in_order() {
    let mut log = Log::new();
    log.add_event("first".to_string(), NOW);
    log.add_event("second \"quoted\"".to_string(), NOW + 1);
    let batch = log.serialize_events().unwrap();
    let expected = format!(
        "{}\n{}\n",
        expected_line(NOW, "first"),
        expected_line(NOW + 1, "second \"quoted\"")
    );
    assert_eq!(batch, expected);
}

#[test]
fn test_serialize_events_empty_is_noop() {
    let mut log = Log::new();
    assert!(log.serialize_events().is_none());
    // and doing it twice changes nothing
    assert!(log.serialize_events().is_none());
}

#[test]
fn test_log_event_record_fields() {
    let record = log_event("hello".to_string(), NOW);
    let line = log_line(&record);
    assert_eq!(line, expected_line(NOW, "hello"));
}

#[test]
fn test_push_to_batch_primary_and_secondary() {
    let mut buf = LogBuffer::new();
    buf.push_to_batch(log_event("p1".to_string(), NOW), true);
    buf.push_to_batch(log_event("s1".to_string(), NOW), false);
    buf.push_to_batch(log_event("p2".to_string(), NOW), true);
    assert_eq!(buf.primary_len(), 2);
    assert_eq!(buf.secondary_len(), 1);
}

#[test]
fn test_drain_batch_joins_both_slots_in_order() {
    let mut buf = LogBuffer::new();
    buf.push_to_batch(log_event("p1".to_string(), NOW), true);
    buf.push_to_batch(log_event("s1".to_string(), NOW + 1), false);
    buf.push_to_batch(log_event("p2".to_string(), NOW + 2), true);
    let text = buf.drain_batch(true).unwrap();
    let expected = format!(
        "{}\n{}\n{}\n",
        expected_line(NOW, "p1"),
        expected_line(NOW + 2, "p2"),
        expected_line(NOW + 1, "s1")
    );
    assert_eq!(text, expected);
    assert_eq!(buf.primary_len(), 0);
    assert_eq!(buf.secondary_len(), 0);
    assert!(buf.drain_batch(true).is_none());
}

#[test]
fn test_drain_batch_contended_primary_stays() {
    let mut buf = LogBuffer::new();
    buf.push_to_batch(log_event("p1".to_string(), NOW), true);
    buf.push_to_batch(log_event("s1".to_string(), NOW + 1), false);
    let text = buf.drain_batch(false).unwrap();
    assert_eq!(text, format!("{}\n", expected_line(NOW + 1, "s1")));
    assert_eq!(buf.primary_len(), 1, "a contended drain must not lose the primary slot");
    assert_eq!(buf.secondary_len(), 0);
    let rest = buf.drain_batch(true).unwrap();
    assert_eq!(rest, format!("{}\n", expected_line(NOW, "p1")));
}

#[test]
fn test_drain_batch_empty_is_noop() {
    let mut buf = LogBuffer::new();
    assert!(buf.drain_batch(true).is_none());
    assert!(buf.drain_batch(false).is_none());
}
