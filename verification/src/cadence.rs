//! Reading a cadence: from an ISO 8601 duration to a count of seconds.

use vstd::prelude::*;
use crate::site::SchedulerError;

verus! {

/// The whole seconds that the `iso8601_duration` crate reads out of `text`:
/// `None` where the text is no duration in its grammar, or where the
/// duration holds years or months, which have no fixed length.
pub uninterp spec fn iso8601_total_seconds(text: Seq<char>) -> Option<u64>;

/// Parses `text` with `iso8601_duration::Duration::from_str` and totals the
/// duration with `Duration::num_seconds`. The total is cut down to whole
/// seconds by a cast: a fraction is dropped, a total below zero counts as
/// zero and one beyond the range as the largest value. All of it is a
/// function of the text alone; the contract gives the result its name and
/// claims nothing more about it.
#[verifier::external_body]
fn total_seconds(text: &str) -> (seconds: Option<u64>)
    ensures
        seconds == iso8601_total_seconds(text@),
{
    match text.parse::<iso8601_duration::Duration>() {
        Ok(duration) => match duration.num_seconds() {
            Some(seconds) => Some(seconds as u64),
            None => None,
        },
        Err(_) => None,
    }
}

/// What a cadence is once its duration has been totalled: the seconds, or
/// the error for a text that has none.
pub open spec fn cadence_of(total: Option<u64>) -> Result<u64, SchedulerError> {
    match total {
        Some(seconds) => Ok(seconds),
        None => Err(SchedulerError::InvalidCadence),
    }
}

/// Reads a cadence such as `P1D` or `PT6H` as a count of seconds. A text
/// that is no ISO 8601 duration is rejected, and so is a duration with
/// years or months: calendar units have no length in seconds without a
/// reference date, and none is assumed.
pub fn parse_cadence(text: &str) -> (cadence: Result<u64, SchedulerError>)
    ensures
        cadence == cadence_of(iso8601_total_seconds(text@)),
{
    match total_seconds(text) {
        Some(seconds) => Ok(seconds),
        None => Err(SchedulerError::InvalidCadence),
    }
}

} // verus!
