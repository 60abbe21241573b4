use rodan_sse::array::EventArray;
use rodan_sse::events::{flush_events, get_events, push_event};

const NOW: i64 = 1_700_000_000_000;

fn payload_list(arr: &EventArray) -> Vec<String> {
    get_events(arr, None).into_iter().map(|e| e.payload).collect::<Vec<_>>()
}

#[test]
fn test_push_event_adds_to_global_array() {
    let mut arr = EventArray::new(100, 10);
    push_event(&mut arr, "Event A".to_string(), NOW);
    push_event(&mut arr, "Event B".to_string(), NOW + 1);
    assert_eq!(payload_list(&arr), vec!["Event A", "Event B"]);
}

#[test]
fn test_flush_events_clears_global_array() {
    let mut arr = EventArray::new(100, 10);
    push_event(&mut arr, "Event 1".to_string(), NOW);
    push_event(&mut arr, "Event 2".to_string(), NOW + 1);
    assert_eq!(get_events(&arr, None).len(), 2);
    flush_events(&mut arr);
    assert!(get_events(&arr, None).is_empty(), "Events should be empty after flush");
}

#[test]
fn test_push_event_multiple_times_and_persist() {
    let mut arr = EventArray::new(100, 10);
    for i in 0..5 {
        push_event(&mut arr, format!("Msg {}", i), NOW + i);
    }
    assert_eq!(payload_list(&arr), vec!["Msg 0", "Msg 1", "Msg 2", "Msg 3", "Msg 4"]);
}

#[test]
fn test_flush_is_idempotent() {
    let mut arr = EventArray::new(2, 2);
    push_event(&mut arr, "Event".to_string(), NOW);
    flush_events(&mut arr);
    assert!(get_events(&arr, None).is_empty());
    flush_events(&mut arr);
    assert!(get_events(&arr, None).is_empty());
    push_event(&mut arr, "After".to_string(), NOW + 1);
    assert_eq!(payload_list(&arr), vec!["After"]);
}

#[test]
fn test_get_events_since_filters_by_timestamp() {
    let mut arr = EventArray::new(100, 10);
    push_event(&mut arr, "old".to_string(), NOW);
    push_event(&mut arr, "new".to_string(), NOW + 200);
    let since = get_events(&arr, Some(NOW + 100));
    let names: Vec<String> = since.into_iter().map(|e| e.payload).collect();
    assert_eq!(names, vec!["new"]);
}
