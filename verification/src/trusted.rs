//! The two outside collaborators: the best-effort date parser and the
//! identifier source of time and randomness. Only the contracts here are
//! taken on trust; everything that uses them is verified.

use vstd::prelude::*;

verus! {

/// What the date parser returns for a given string: the parsed instant as
/// milliseconds since the Unix epoch (sub-millisecond truncated), or `None`
/// when the string has no date interpretation. The parser tries a fixed
/// list of formats, so the result is a function of the string alone.
pub uninterp spec fn parse_millis_of(s: Seq<char>) -> Option<i64>;

/// Relies on `diligent_date_parser::parse_date` to interpret a date/time
/// string by trying its fixed list of formats, and on chrono's
/// `DateTime::timestamp_millis` to convert the parsed instant to
/// milliseconds since the Unix epoch.
#[verifier::external_body]
pub(crate) fn parse_date_millis(s: &str) -> (r: Option<i64>)
    ensures
        r == parse_millis_of(s@),
{
    diligent_date_parser::parse_date(s).map(|d| d.timestamp_millis())
}

/// Relies on `ulid::Ulid::generate`: a fresh identifier value built from
/// the current wall clock and the process random generator. Nothing is
/// promised of the result, since both time and randomness differ per call.
#[verifier::external_body]
pub(crate) fn ulid_value_now() -> u128 {
    ulid::Ulid::generate().0
}

/// Relies on `ulid::Ulid::from_datetime`: the returned value's high 48
/// bits are the given millisecond timestamp masked to 48 bits, and its low
/// 80 bits come from the process random generator.
#[verifier::external_body]
pub(crate) fn ulid_value_from_millis(ms: u64) -> (r: u128)
    ensures
        r >> 80 == (ms & 0xFFFF_FFFF_FFFF) as u128,
{
    let at = std::time::SystemTime::UNIX_EPOCH + std::time::Duration::from_millis(ms);
    ulid::Ulid::from_datetime(at).0
}

} // verus!
