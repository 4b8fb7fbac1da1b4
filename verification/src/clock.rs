//! RFC 3339 timestamps, read and compared through `chrono`.
use vstd::prelude::*;

verus! {

/// Whether `chrono::DateTime::parse_from_rfc3339` accepts `text`.
pub uninterp spec fn rfc3339_valid(text: Seq<char>) -> bool;

/// `now - then` for two accepted timestamps, as chrono's
/// `signed_duration_since` gives it: whole seconds and the signed remainder
/// in nanoseconds (`num_seconds`, `subsec_nanos`).
pub uninterp spec fn rfc3339_age(now: Seq<char>, then: Seq<char>) -> (i64, i32);

/// `to_rfc3339` of the parsed timestamp.
pub uninterp spec fn rfc3339_normal(text: Seq<char>) -> Seq<char>;

/// The age in nanoseconds that a pair of seconds and nanoseconds stands for.
pub open spec fn age_nanos(age: (i64, i32)) -> int {
    age.0 * 1_000_000_000 + age.1
}

/// Calls `chrono::DateTime::parse_from_rfc3339`; the contract claims only
/// that the answer is the one named `rfc3339_valid`.
#[verifier::external_body]
pub(crate) fn timestamp_valid(text: &str) -> (r: bool)
    ensures
        r == rfc3339_valid(text@),
{
    chrono::DateTime::parse_from_rfc3339(text).is_ok()
}

/// Calls chrono's `signed_duration_since` on the two parsed timestamps. The
/// contract claims that a result comes exactly when both parse, and that it
/// is the pair named `rfc3339_age`.
#[verifier::external_body]
pub(crate) fn timestamp_age(now: &str, then: &str) -> (r: Option<(i64, i32)>)
    ensures
        r is Some <==> (rfc3339_valid(now@) && rfc3339_valid(then@)),
        r matches Some(a) ==> a == rfc3339_age(now@, then@),
{
    match (chrono::DateTime::parse_from_rfc3339(now), chrono::DateTime::parse_from_rfc3339(then)) {
        (Ok(n), Ok(t)) => {
            let d = n.signed_duration_since(t);
            Some((d.num_seconds(), d.subsec_nanos()))
        }
        _ => None,
    }
}

/// Calls chrono's `to_rfc3339` on the parsed timestamp; the contract claims
/// that the text is the one named `rfc3339_normal`.
#[verifier::external_body]
pub(crate) fn timestamp_normal(text: &str) -> (r: String)
    requires
        rfc3339_valid(text@),
    ensures
        r@ == rfc3339_normal(text@),
{
    match chrono::DateTime::parse_from_rfc3339(text) {
        Ok(t) => t.to_rfc3339(),
        Err(_) => String::new(),
    }
}

/// Reads the system clock in whole seconds since the Unix epoch, through
/// `std::time::SystemTime::now`. Nothing is claimed of the value, which is
/// the time; a clock set before the epoch reads as zero.
#[verifier::external_body]
pub(crate) fn unix_seconds() -> u64 {
    match std::time::SystemTime::now().duration_since(std::time::UNIX_EPOCH) {
        Ok(d) => d.as_secs(),
        Err(_) => 0,
    }
}

} // verus!
