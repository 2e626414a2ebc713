use vstd::prelude::*;

verus! {

/// The RFC 3339 text of a UTC instant given in milliseconds since the Unix
/// epoch, or `None` where the instant lies outside the representable range.
pub uninterp spec fn rfc3339_of_millis(ms: i64) -> Option<Seq<char>>;

/// The instant, in milliseconds since the Unix epoch, that an RFC 3339 text
/// denotes, or `None` where the text does not parse.
pub uninterp spec fn millis_of_rfc3339(s: Seq<char>) -> Option<i64>;

/// Relies on chrono's `Utc.timestamp_millis_opt` and `DateTime::to_rfc3339`:
/// the text depends on the instant alone, and there is none for an instant
/// out of range.
#[verifier::external_body]
pub(crate) fn format_rfc3339_millis(ms: i64) -> (r: Option<String>)
    ensures
        r is Some <==> rfc3339_of_millis(ms) is Some,
        r is Some ==> r->0@ == rfc3339_of_millis(ms)->0,
{
    chrono::TimeZone::timestamp_millis_opt(&chrono::Utc, ms).single().map(|d| d.to_rfc3339())
}

/// Relies on chrono's `DateTime::parse_from_rfc3339` and
/// `DateTime::timestamp_millis`: the instant depends on the text alone.
#[verifier::external_body]
pub(crate) fn parse_rfc3339_millis(s: &str) -> (r: Option<i64>)
    ensures
        r == millis_of_rfc3339(s@),
{
    chrono::DateTime::parse_from_rfc3339(s).ok().map(|d| d.timestamp_millis())
}

} // verus!
