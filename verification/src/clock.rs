//! The time of day of the machine.

use vstd::prelude::*;

verus! {

#[verifier::external_type_specification]
#[verifier::external_body]
pub struct ExSystemTime(std::time::SystemTime);

/// `SystemTime::now` is the time of the machine's clock, of which nothing is known.
pub assume_specification[ std::time::SystemTime::now ]() -> (r: std::time::SystemTime)
;

/// `Duration::as_millis` is the length of a span in whole milliseconds. Spans are opaque here,
/// so nothing is said of it.
pub assume_specification[ std::time::Duration::as_millis ](d: &std::time::Duration) -> (r: u128)
;

/// `SystemTime::duration_since`, asked for the start of 1970, is the span from then to a time,
/// and nothing for an earlier time. Times are opaque here, so nothing is said of it.
#[verifier::external_body]
pub(crate) fn since_epoch(t: std::time::SystemTime) -> (r: Option<std::time::Duration>)
{
    t.duration_since(std::time::UNIX_EPOCH).ok()
}

/// The milliseconds of a span since the start of 1970 as a moment: zero where there is no span,
/// and the last moment there is for a span that is too long.
pub open spec fn moment_after(span: Option<u128>) -> i64 {
    match span {
        Some(ms) => if ms <= i64::MAX {
            ms as i64
        } else {
            i64::MAX
        },
        None => 0,
    }
}

/// The moment so many milliseconds after the start of 1970; without a span, the start of 1970.
pub fn moment_of(span: Option<u128>) -> (r: i64)
    ensures
        r == moment_after(span),
        r >= 0,
        span is None ==> r == 0,
        span is Some && span->0 <= i64::MAX ==> r == span->0,
        span is Some && span->0 > i64::MAX ==> r == i64::MAX,
{
    match span {
        Some(ms) => if ms <= i64::MAX as u128 {
            ms as i64
        } else {
            i64::MAX
        },
        None => 0,
    }
}

/// The milliseconds from the start of 1970 to now, by the machine's clock; zero before 1970.
pub fn now_ms() -> (r: i64)
    ensures
        r >= 0,
{
    let span: Option<u128> = match since_epoch(std::time::SystemTime::now()) {
        Some(d) => Some(d.as_millis()),
        None => None,
    };
    moment_of(span)
}

} // verus!
