use vstd::prelude::*;
use vstd::string::StringExecFns;

use crate::config::Config;
use crate::hashing::{sha256_hex, sha256_hex_of};
use crate::json::{json_encode_string, json_string_of};
use crate::timeutil::{parse_rfc3339_millis, parse_rfc3339_of};

verus! {

/// The view of an optional borrowed text.
pub open spec fn opt_str_view(o: Option<&str>) -> Option<Seq<char>> {
    match o {
        None => None,
        Some(s) => Some(s@),
    }
}

/// How an ingestion request is decided before any event is recorded.
#[derive(PartialEq, Eq, Structural, Debug)]
pub enum IngestDecision {
    /// No event section is configured: the route cannot serve.
    EventsNotEnabled,
    /// No HTTP transport is configured under the event section.
    HttpNotConfigured,
    /// A key is required and the request carried none, or a wrong one.
    InvalidKey,
    /// The request may record its events.
    Accepted,
}

/// The decision the ingestion endpoint owes a request: refuse when the
/// transport is not configured; when a hashed key is stored, admit
/// exactly the requests whose presented raw key hashes to it.
pub open spec fn ingest_decision_spec(cfg: Config, key: Option<Seq<char>>) -> IngestDecision {
    match cfg.app.events {
        None => IngestDecision::EventsNotEnabled,
        Some(events) => match events.http {
            None => IngestDecision::HttpNotConfigured,
            Some(http) => match http.hashed_api_key {
                None => IngestDecision::Accepted,
                Some(hashed) => match key {
                    None => IngestDecision::InvalidKey,
                    Some(k) => if sha256_hex_of(k) == hashed@ {
                        IngestDecision::Accepted
                    } else {
                        IngestDecision::InvalidKey
                    },
                },
            },
        },
    }
}

/// Decides an ingestion request: the presented raw key is hashed and
/// compared against the stored hash; the store is only touched on
/// `Accepted`.
pub fn authorize_ingest(cfg: &Config, provided_key: Option<&str>) -> (r: IngestDecision)
    ensures
        r == ingest_decision_spec(*cfg, opt_str_view(provided_key)),
{
    let events = match &cfg.app.events {
        Some(ev) => ev,
        None => {
            return IngestDecision::EventsNotEnabled;
        },
    };
    let http = match &events.http {
        Some(h) => h,
        None => {
            return IngestDecision::HttpNotConfigured;
        },
    };
    let hashed = match &http.hashed_api_key {
        Some(h) => h,
        None => {
            return IngestDecision::Accepted;
        },
    };
    let provided = match provided_key {
        Some(k) => k,
        None => {
            return IngestDecision::InvalidKey;
        },
    };
    let presented = sha256_hex(provided);
    if presented == *hashed {
        IngestDecision::Accepted
    } else {
        IngestDecision::InvalidKey
    }
}

/// What the retrieval endpoint makes of the lower-bound header: no
/// header means an unbounded query; a header that parses as RFC 3339
/// bounds the query; anything else is a client error, answered before
/// the store is consulted.
pub open spec fn since_header_spec(h: Option<Seq<char>>) -> Result<Option<i64>, ()> {
    match h {
        None => Ok(None),
        Some(s) => match parse_rfc3339_of(s) {
            Some(t) => Ok(Some(t)),
            None => Err(()),
        },
    }
}

/// Parses the optional lower-bound header of a retrieval request.
pub fn parse_since_header(header: Option<&str>) -> (r: Result<Option<i64>, ()>)
    ensures
        r == since_header_spec(opt_str_view(header)),
{
    match header {
        None => Ok(None),
        Some(h) => match parse_rfc3339_millis(h) {
            Some(t) => Ok(Some(t)),
            None => Err(()),
        },
    }
}

/// Whether the CORS layer may answer any origin: only when exactly one
/// permitted origin is configured, it is the wildcard, and the server
/// is not in production.
pub fn cors_allow_any_origin(cors_url: &Vec<String>, production: bool) -> (r: bool)
    ensures
        r == (cors_url@.len() == 1 && cors_url@[0]@ == "*"@ && !production),
{
    let star: String = "*".to_owned();
    cors_url.len() == 1 && cors_url[0] == star && !production
}

/// The level an access-log line is written at for a response status.
pub open spec fn http_log_level_spec(status: u16) -> Seq<char> {
    if status == 404 {
        "trace"@
    } else if 500 <= status <= 599 {
        "warn"@
    } else {
        "info"@
    }
}

pub fn http_log_level(status: u16) -> (r: &'static str)
    ensures
        r@ == http_log_level_spec(status),
{
    if status == 404 {
        "trace"
    } else if 500 <= status && status <= 599 {
        "warn"
    } else {
        "info"
    }
}

/// One message of the live stream, as it goes on the wire: a JSON
/// object with its discriminator and payload, then a newline.
pub open spec fn sse_message_of(event_type: Seq<char>, data: Seq<char>) -> Seq<char> {
    "{\"type\":"@ + json_string_of(event_type) + ",\"data\":"@ + json_string_of(data) + "}\n"@
}

/// Serialises one live-stream message: `event` messages carry a
/// payload, `heartbeat` messages carry "ping".
pub fn sse_message_line(event_type: &str, data: &str) -> (r: String)
    ensures
        r@ == sse_message_of(event_type@, data@),
{
    let mut s = String::new();
    s.append("{\"type\":");
    s.append(json_encode_string(event_type).as_str());
    s.append(",\"data\":");
    s.append(json_encode_string(data).as_str());
    s.append("}\n");
    s
}

} // verus!
