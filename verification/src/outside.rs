//! The two external collaborators of the parser: URI syntax validation and
//! date-time parsing. Each is reached through one trusted wrapper whose
//! result is named by an uninterpreted function of the input text.

use vstd::prelude::*;

verus! {

/// Whether `s` matches the `URI-reference` grammar of RFC 3986.
pub uninterp spec fn uri_reference_ok(s: Seq<char>) -> bool;

/// Relies on fluent_uri's `UriRef::parse`, which returns `Ok` exactly when
/// the input matches the `URI-reference` ABNF rule of RFC 3986; the outcome
/// depends on the characters of the input alone.
#[verifier::external_body]
pub(crate) fn check_uri_reference(s: &str) -> (r: bool)
    ensures
        r == uri_reference_ok(s@),
{
    fluent_uri::UriRef::parse(s).is_ok()
}

/// The instant an `EXT-X-PROGRAM-DATE-TIME` value denotes, in milliseconds
/// since the Unix epoch, when the text parses as a date-time with offset.
pub uninterp spec fn date_time_millis(s: Seq<char>) -> Option<i64>;

/// Relies on chrono's `FromStr for DateTime<Utc>` (RFC 3339 with offset, a
/// space accepted as date/time separator) and on
/// `DateTime::timestamp_millis`; both depend on the characters of the input
/// alone.
#[verifier::external_body]
pub(crate) fn parse_date_time(s: &str) -> (r: Option<i64>)
    ensures
        r == date_time_millis(s@),
{
    match s.parse::<chrono::DateTime<chrono::Utc>>() {
        Ok(dt) => Some(dt.timestamp_millis()),
        Err(_) => None,
    }
}

} // verus!
