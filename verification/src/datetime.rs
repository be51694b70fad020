use vstd::prelude::*;

verus! {

/// The outcome of parsing `s` as an ISO-8601 date-time without an offset
/// (`%Y-%m-%dT%H:%M:%S`), as seconds since the Unix epoch. The outcome
/// depends on the input text alone.
pub uninterp spec fn parsed_deadline(s: Seq<char>) -> Option<i64>;

/// Relies on chrono::NaiveDateTime::parse_from_str with a fixed format
/// string, followed by the epoch-seconds conversion of the parsed value:
/// both are functions of the input text alone.
#[verifier::external_body]
pub(crate) fn parse_deadline(s: &String) -> (r: Option<i64>)
    ensures
        r == parsed_deadline(s@),
{
    chrono::NaiveDateTime::parse_from_str(s, "%Y-%m-%dT%H:%M:%S")
        .ok()
        .map(|d| d.and_utc().timestamp())
}

} // verus!
