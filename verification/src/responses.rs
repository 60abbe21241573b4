use vstd::prelude::*;

use crate::event::Event;

verus! {

/// The JSON body of an error reply.
pub struct ErrorResponse {
    pub error: String,
}

/// The JSON body of the liveness reply.
pub struct PingResponse {
    pub msg: String,
}

/// One retained event as the retrieval endpoint reports it.
pub struct EventResponse {
    pub timestamp: i64,
    pub message: String,
}

impl From<Event> for EventResponse {
    fn from(event: Event) -> (r: Self) {
        EventResponse { timestamp: event.timestamp, message: event.payload }
    }
}

impl vstd::std_specs::convert::FromSpecImpl<Event> for EventResponse {
    open spec fn obeys_from_spec() -> bool {
        true
    }

    open spec fn from_spec(event: Event) -> Self {
        EventResponse { timestamp: event.timestamp, message: event.payload }
    }
}

/// The body of the liveness reply: always pong.
pub fn ping_response() -> (r: PingResponse)
    ensures
        r.msg@ == "pong"@,
{
    PingResponse { msg: "pong".to_owned() }
}

/// The body every unknown route is answered with.
pub fn not_found_handler() -> (r: ErrorResponse)
    ensures
        r.error@ == "Resource not found"@,
{
    ErrorResponse { error: "Resource not found".to_owned() }
}

/// The body of an unauthorized reply carrying `msg`.
pub fn unauthorized(msg: &str) -> (r: ErrorResponse)
    ensures
        r.error@ == msg@,
{
    ErrorResponse { error: msg.to_owned() }
}

/// The body of a bad-request reply carrying `msg`.
pub fn bad_request(msg: &str) -> (r: ErrorResponse)
    ensures
        r.error@ == msg@,
{
    ErrorResponse { error: msg.to_owned() }
}

} // verus!
