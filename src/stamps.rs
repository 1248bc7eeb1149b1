use vstd::prelude::*;

use chrono::{DateTime, Utc};

verus! {

/// An instant in UTC: whole seconds since the Unix epoch and the nanoseconds
/// past that second.
#[derive(Debug, Clone, Copy, PartialEq, Eq, Structural)]
pub struct Timestamp {
    pub secs: i64,
    pub nanos: u32,
}

/// The RFC 3339 text of the instant `(secs, nanos)`, or `None` where the
/// instant lies outside the representable range.
pub uninterp spec fn rfc3339_of(t: Timestamp) -> Option<Seq<char>>;

/// The instant that an RFC 3339 text denotes, or `None` where it is malformed.
pub uninterp spec fn instant_of(s: Seq<char>) -> Option<Timestamp>;

/// Relies on chrono::Utc::now for the current instant; nothing is assumed of it.
#[verifier::external_body]
pub(crate) fn now() -> Timestamp {
    let t = Utc::now();
    Timestamp { secs: t.timestamp(), nanos: t.timestamp_subsec_nanos() }
}

/// Relies on chrono::DateTime::to_rfc3339 (after DateTime::from_timestamp) for
/// the sortable text form of an instant.
#[verifier::external_body]
pub(crate) fn rfc3339_text(t: Timestamp) -> (r: Option<String>)
    ensures
        match r {
            Some(s) => rfc3339_of(t) == Some(s@),
            None => rfc3339_of(t) is None,
        },
{
    DateTime::from_timestamp(t.secs, t.nanos).map(|d| d.to_rfc3339())
}

/// Relies on chrono::DateTime::parse_from_rfc3339 to read an instant back from
/// its text form.
#[verifier::external_body]
pub(crate) fn parse_rfc3339(s: &str) -> (r: Option<Timestamp>)
    ensures
        r == instant_of(s@),
{
    DateTime::parse_from_rfc3339(s).ok().map(
        |d| Timestamp { secs: d.timestamp(), nanos: d.timestamp_subsec_nanos() },
    )
}

/// Relies on uuid::Uuid::new_v4 and its hyphenated text form for a fresh random
/// identifier; nothing is assumed of its value.
#[verifier::external_body]
pub(crate) fn fresh_id() -> String {
    uuid::Uuid::new_v4().to_string()
}

} // verus!
