use vstd::prelude::*;

use crate::array::{all_at_or_before, spec_append, EventArray};
use crate::event::{events_since_spec, Event};

verus! {

/// The body of an ingestion request: the payloads to record, in order.
pub struct EventsPayload {
    pub events: Vec<String>,
}

/// Records one payload: stamps it with `now_ms` and appends it to the
/// store. The caller hands the same payload to the broadcast channel
/// and, when event logging is on, to the log buffer.
pub fn push_event(arr: &mut EventArray, message: String, now_ms: i64)
    requires
        old(arr).wf(),
        all_at_or_before(old(arr)@, now_ms),
    ensures
        final(arr).wf(),
        final(arr).spec_segment_capacity() == old(arr).spec_segment_capacity(),
        final(arr).spec_max_segments() == old(arr).spec_max_segments(),
        final(arr)@ == spec_append(
            old(arr)@,
            (Event { timestamp: now_ms, payload: message }),
            old(arr).spec_segment_capacity() as int,
            old(arr).spec_max_segments() as int,
        ),
        all_at_or_before(final(arr)@, now_ms),
{
    let event = Event { timestamp: now_ms, payload: message };
    arr.append(event);
}

/// Empties the store.
pub fn flush_events(arr: &mut EventArray)
    requires
        old(arr).wf(),
    ensures
        final(arr).wf(),
        final(arr)@ == Seq::<Seq<Event>>::empty(),
        final(arr).spec_segment_capacity() == old(arr).spec_segment_capacity(),
        final(arr).spec_max_segments() == old(arr).spec_max_segments(),
{
    arr.flush_all();
}

/// The retained events at or after `time`, oldest first; all of them
/// when no bound is given.
pub fn get_events(arr: &EventArray, time: Option<i64>) -> (r: Vec<Event>)
    requires
        arr.wf(),
    ensures
        r@ == events_since_spec(arr@.flatten(), time),
{
    match time {
        Some(since) => arr.query_since(since),
        None => arr.query_all(),
    }
}

} // verus!
