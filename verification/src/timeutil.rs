use vstd::prelude::*;

verus! {

/// The RFC 3339 rendering of a millisecond UTC timestamp, as chrono
/// writes it; the empty text when the timestamp is out of chrono's
/// range.
pub uninterp spec fn rfc3339_of(ms: i64) -> Seq<char>;

/// The compact `YYYYMMDDHHMMSS` UTC rendering of a millisecond
/// timestamp, as chrono formats it; the empty text when the timestamp is
/// out of chrono's range.
pub uninterp spec fn compact_utc_of(ms: i64) -> Seq<char>;

/// What chrono's RFC 3339 parser makes of a text: the UTC timestamp in
/// milliseconds when the text parses, nothing otherwise.
pub uninterp spec fn parse_rfc3339_of(s: Seq<char>) -> Option<i64>;

/// Relies on chrono's DateTime::from_timestamp_millis and to_rfc3339:
/// the rendering depends on the timestamp alone.
#[verifier::external_body]
pub(crate) fn to_rfc3339_millis(ms: i64) -> (r: String)
    ensures
        r@ == rfc3339_of(ms),
{
    match chrono::DateTime::<chrono::Utc>::from_timestamp_millis(ms) {
        Some(dt) => dt.to_rfc3339(),
        None => String::new(),
    }
}

/// Relies on chrono's DateTime::from_timestamp_millis and its
/// `%Y%m%d%H%M%S` formatter: the rendering depends on the timestamp
/// alone.
#[verifier::external_body]
pub(crate) fn format_compact_utc(ms: i64) -> (r: String)
    ensures
        r@ == compact_utc_of(ms),
{
    match chrono::DateTime::<chrono::Utc>::from_timestamp_millis(ms) {
        Some(dt) => dt.format("%Y%m%d%H%M%S").to_string(),
        None => String::new(),
    }
}

/// Relies on chrono's DateTime::parse_from_rfc3339: what a text parses
/// to depends on its characters alone.
#[verifier::external_body]
pub(crate) fn parse_rfc3339_millis(s: &str) -> (r: Option<i64>)
    ensures
        r == parse_rfc3339_of(s@),
{
    match chrono::DateTime::parse_from_rfc3339(s) {
        Ok(dt) => Some(dt.with_timezone(&chrono::Utc).timestamp_millis()),
        Err(_) => None,
    }
}

} // verus!
