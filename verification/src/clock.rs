//! Points in time, as milliseconds since the epoch.

use chrono::{DateTime, Utc};
use vstd::prelude::*;

verus! {

/// The first second that a date can name: the beginning of the year -262143.
pub const FIRST_SECOND: i64 = -8334601228800;

/// The last second that a date can name: the end of the year 262142.
pub const LAST_SECOND: i64 = 8210266876799;

/// Whether a point in time lies in the range of dates.
pub open spec fn is_date_millis(ms: int) -> bool {
    FIRST_SECOND * 1000 <= ms <= LAST_SECOND * 1000 + 999
}

/// Whether a second lies in the range of dates.
pub open spec fn is_date_second(s: int) -> bool {
    FIRST_SECOND <= s <= LAST_SECOND
}

/// The date at a number of milliseconds, by
/// `chrono::DateTime::from_timestamp_millis`, read back by `timestamp_millis`.
///
/// Taken on trust: there is a date for exactly the milliseconds from the first to
/// the last that `DateTime<Utc>` can hold, and it is read back unchanged.
#[verifier::external_body]
pub(crate) fn date_from_millis(ms: i64) -> (r: Option<i64>)
    ensures
        r == if is_date_millis(ms as int) {
            Some(ms)
        } else {
            None
        },
{
    DateTime::<Utc>::from_timestamp_millis(ms).map(|d| d.timestamp_millis())
}

/// The date at a number of seconds, by `chrono::DateTime::from_timestamp` with no
/// nanoseconds, read by `timestamp_millis`.
///
/// Taken on trust: there is a date for exactly the seconds from the first to the
/// last that `DateTime<Utc>` can hold, and it stands a thousand times as many
/// milliseconds from the epoch.
#[verifier::external_body]
pub(crate) fn date_from_secs(s: i64) -> (r: Option<i64>)
    ensures
        r == if is_date_second(s as int) {
            Some((s * 1000) as i64)
        } else {
            None
        },
{
    DateTime::<Utc>::from_timestamp(s, 0).map(|d| d.timestamp_millis())
}

/// The second in which a point in time lies.
pub fn second_of(ms: i64) -> (r: i64)
    ensures
        r == ms as int / 1000,
{
    ms.checked_div_euclid(1000).unwrap()
}

/// Dates run from the first second of the year -262143 to the last of the year 262142; a
/// point in time has a date exactly where its second has one.
pub proof fn dates_are_those_of_their_seconds(ms: int, s: int)
    ensures
        is_date_millis(ms) <==> is_date_second(ms / 1000),
        is_date_second(s) <==> -8334601228800 <= s <= 8210266876799,
{
}

} // verus!
