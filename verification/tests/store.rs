use rodan_sse::array::EventArray;
use rodan_sse::event::{Event, EventQueue};

const NOW: i64 = 1_700_000_000_000;

fn ev(ts: i64, payload: &str) -> Event {
    Event { timestamp: ts, payload: payload.to_string() }
}

fn payloads(events: Vec<Event>) -> Vec<String> {
    events.into_iter().map(|e| e.payload).collect()
}

#[test]
fn test_append_and_query_all() {
    let mut arr = EventArray::new(2, 3);
    arr.append(ev(NOW, "E1"));
    arr.append(ev(NOW, "E2"));
    let all = arr.query_all();
    assert_eq!(all.len(), 2);
    assert_eq!(all[0].payload, "E1");
    assert_eq!(all[1].payload, "E2");
}

#[test]
fn test_segment_rollover() {
    let mut arr = EventArray::new(2, 2);
    for i in 1..=5 {
        arr.append(ev(NOW + i, &format!("E{}", i)));
    }
    assert_eq!(arr.segment_count(), 2);
    assert_eq!(payloads(arr.query_all()), vec!["E3", "E4", "E5"]);
}

#[test]
fn test_query_since() {
    let mut arr = EventArray::new(2, 3);
    arr.append(ev(NOW, "E1"));
    arr.append(ev(NOW + 10_000, "E2"));
    arr.append(ev(NOW + 20_000, "E3"));
    let results = arr.query_since(NOW + 10_000);
    assert_eq!(payloads(results), vec!["E2", "E3"]);
}

#[test]
fn test_empty_query() {
    let arr = EventArray::new(2, 2);
    assert!(arr.query_all().is_empty());
    assert!(arr.query_since(NOW).is_empty());
}

#[test]
fn test_flush_all() {
    let mut arr = EventArray::new(2, 3);
    for i in 1..=3 {
        arr.append(ev(NOW, &format!("Flush{}", i)));
    }
    let before_flush = arr.query_all();
    assert_eq!(before_flush.len(), 3);
    arr.flush_all();
    assert_eq!(arr.segment_count(), 0);
    assert!(arr.query_all().is_empty());
}

#[test]
fn test_segment_capacity_limits() {
    let mut arr = EventArray::new(2, 3);
    for i in 1..=6 {
        arr.append(ev(NOW + i, &format!("E{}", i)));
    }
    assert_eq!(arr.segment_count(), 3);
    assert_eq!(payloads(arr.query_all()), vec!["E1", "E2", "E3", "E4", "E5", "E6"]);
}

#[test]
fn test_query_since_before_all() {
    let mut arr = EventArray::new(2, 2);
    arr.append(ev(NOW + 10_000, "E1"));
    arr.append(ev(NOW + 20_000, "E2"));
    let results = arr.query_since(NOW);
    assert_eq!(payloads(results), vec!["E1", "E2"]);
}

#[test]
fn test_query_since_after_all() {
    let mut arr = EventArray::new(2, 2);
    arr.append(ev(NOW, "E1"));
    arr.append(ev(NOW + 10_000, "E2"));
    let results = arr.query_since(NOW + 20_000);
    assert!(results.is_empty());
}

#[test]
fn test_query_since_boundary_is_inclusive() {
    let mut arr = EventArray::new(4, 2);
    arr.append(ev(NOW, "E1"));
    arr.append(ev(NOW + 5_000, "E2"));
    let results = arr.query_since(NOW + 5_000);
    assert_eq!(payloads(results), vec!["E2"]);
}

#[test]
fn test_retention_exact_bound() {
    // with capacity for 4 events, the 4th append evicts nothing
    let mut arr = EventArray::new(2, 2);
    for i in 1..=4 {
        arr.append(ev(NOW + i, &format!("E{}", i)));
    }
    assert_eq!(payloads(arr.query_all()), vec!["E1", "E2", "E3", "E4"]);
}

#[test]
fn test_event_queue_push_and_is_full() {
    let mut queue = EventQueue::new(2);
    assert!(!queue.is_full());
    assert!(queue.push(ev(NOW, "Event 1")));
    assert!(!queue.is_full());
    assert!(queue.push(ev(NOW, "Event 2")));
    assert!(queue.is_full());
    assert!(!queue.push(ev(NOW, "Event 3")));
}

#[test]
fn test_event_queue_reset() {
    let mut queue = EventQueue::new(2);
    queue.push(ev(NOW, "Event 1"));
    queue.reset();
    assert_eq!(queue.len(), 0);
    assert!(queue.start_timestamp().is_none());
    assert!(queue.end_timestamp().is_none());
}

#[test]
fn test_event_queue_flush_to_global_log() {
    let mut queue = EventQueue::new(2);
    queue.push(ev(NOW, "Flush Event 1"));
    queue.push(ev(NOW, "Flush Event 2"));
    let drained = queue.pop();
    assert_eq!(drained.len(), 2);
    assert_eq!(drained[0].payload, "Flush Event 1");
    assert_eq!(drained[1].payload, "Flush Event 2");
    assert_eq!(queue.len(), 0);
    assert!(queue.start_timestamp().is_none());
    assert!(queue.end_timestamp().is_none());
}

#[test]
fn test_event_queue_boundaries_and_is_before() {
    let mut queue = EventQueue::new(3);
    queue.push(ev(NOW, "a"));
    queue.push(ev(NOW + 1, "b"));
    assert_eq!(queue.start_timestamp(), Some(NOW));
    assert_eq!(queue.end_timestamp(), Some(NOW + 1));
    assert!(queue.is_before(NOW + 2));
    assert!(!queue.is_before(NOW + 1));
    let empty = EventQueue::new(3);
    assert!(empty.is_before(i64::MIN));
}

#[test]
fn test_event_queue_get_events_filters() {
    let mut queue = EventQueue::new(3);
    queue.push(ev(NOW, "a"));
    queue.push(ev(NOW + 1, "b"));
    queue.push(ev(NOW + 2, "c"));
    let all = queue.get_events(None);
    assert_eq!(payloads(all), vec!["a", "b", "c"]);
    let some = queue.get_events(Some(NOW + 1));
    assert_eq!(payloads(some), vec!["b", "c"]);
}
