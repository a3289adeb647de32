//! Reading date-time text as a timestamp.
use chrono::{DateTime, NaiveDateTime, Utc};
use vstd::prelude::*;

verus! {

/// What `chrono` makes of `text` under the `strftime` layout `layout`:
/// `None` where the text does not parse as a date and time without a time
/// zone; otherwise the nanoseconds from 1970-01-01 00:00:00 to that moment
/// taken as UTC, or `Some(None)` where that count does not fit in 64 bits.
pub uninterp spec fn datetime_reading(text: Seq<char>, layout: Seq<char>) -> Option<Option<i64>>;

/// `chrono::NaiveDateTime::parse_from_str`, its result turned to
/// nanoseconds since the epoch by `DateTime::<Utc>::from_naive_utc_and_offset`
/// and `timestamp_nanos_opt`. The parse depends on the two texts alone, so
/// the contract only gives the result its name.
#[verifier::external_body]
fn read_datetime(text: &str, layout: &str) -> (r: Option<Option<i64>>)
    ensures
        r == datetime_reading(text@, layout@),
{
    match NaiveDateTime::parse_from_str(text, layout) {
        Ok(naive) => Some(
            DateTime::<Utc>::from_naive_utc_and_offset(naive, Utc).timestamp_nanos_opt(),
        ),
        Err(_) => None,
    }
}

/// The timestamp that two readings of one text give: the first reading
/// where the text parsed under the first layout, else the second.
/// A reading that parsed but does not fit gives no timestamp, and is not
/// replaced by the other.
pub open spec fn reading_choice(first: Option<Option<i64>>, second: Option<Option<i64>>) -> Option<
    i64,
> {
    match first {
        Some(nanos) => nanos,
        None => match second {
            Some(nanos) => nanos,
            None => None,
        },
    }
}

/// Chooses between the readings of one text under the two layouts.
pub fn choose_reading(first: Option<Option<i64>>, second: Option<Option<i64>>) -> (r: Option<i64>)
    ensures
        r == reading_choice(first, second),
{
    match first {
        Some(nanos) => nanos,
        None => match second {
            Some(nanos) => nanos,
            None => None,
        },
    }
}

/// The layout of a date with a time to the second.
pub open spec fn date_time_layout() -> Seq<char> {
    "%Y-%m-%d %H:%M:%S"@
}

/// The layout of a date alone.
pub open spec fn date_layout() -> Seq<char> {
    "%Y-%m-%d"@
}

/// The timestamp that `text` stands for, in nanoseconds since the epoch:
/// read as a date with a time, and failing that as a date alone.
pub open spec fn timestamp_of(text: Seq<char>) -> Option<i64> {
    reading_choice(
        datetime_reading(text, date_time_layout()),
        datetime_reading(text, date_layout()),
    )
}

/// Reads `text` as a timestamp in nanoseconds since the epoch.
pub fn parse_timestamp(text: &str) -> (r: Option<i64>)
    ensures
        r == timestamp_of(text@),
{
    match read_datetime(text, "%Y-%m-%d %H:%M:%S") {
        Some(nanos) => nanos,
        None => choose_reading(None, read_datetime(text, "%Y-%m-%d")),
    }
}

} // verus!
