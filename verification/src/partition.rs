//! Partition keys: the coarse `year_month` label under which a record is
//! stored, derived from its timestamp in UTC.

use vstd::prelude::*;
use vstd::string::StringExecFns;
use crate::decimal::{decimal_text, push_decimal, push_signed_decimal, two_digit_text};

verus! {

/// The label `<year>_<month>` with the month written in two digits.
pub open spec fn year_month_text(year: int, month: nat) -> Seq<char> {
    decimal_text(year) + seq!['_'] + two_digit_text(month)
}

/// The second in which an instant falls: the instant is given in
/// milliseconds since the epoch, the second in seconds since the epoch.
/// Before the epoch as after it, this is the greatest whole second that is
/// not later than the instant.
pub open spec fn whole_seconds(timestamp_ms: int) -> int {
    timestamp_ms / 1000
}

/// Year and month, in UTC and in the proleptic Gregorian calendar, of the
/// instant `secs` seconds after 1970-01-01T00:00:00Z; `None` where the
/// calendar library cannot represent the instant.
pub uninterp spec fn utc_year_month(secs: i64) -> Option<(i32, u32)>;

/// The partition key that a calendar reading gives: `<year>_<month>`, or
/// `unknown` where there is no reading.
pub open spec fn partition_label(reading: Option<(i32, u32)>) -> Seq<char> {
    match reading {
        Some((year, month)) => year_month_text(year as int, month as nat),
        None => "unknown"@,
    }
}

/// The partition key of a record with this timestamp, in milliseconds since
/// the epoch.
pub open spec fn partition_key_text(timestamp_ms: i64) -> Seq<char> {
    partition_label(utc_year_month(whole_seconds(timestamp_ms as int) as i64))
}

/// Asks chrono for the calendar date of a UNIX timestamp:
/// `DateTime::from_timestamp(secs, 0)`, then `Datelike::year` and
/// `Datelike::month` of the result. Nothing is proved of the calendar
/// arithmetic; the contract only gives the outcome its name.
#[verifier::external_body]
fn calendar_reading(secs: i64) -> (reading: Option<(i32, u32)>)
    ensures
        reading == utc_year_month(secs),
{
    match chrono::DateTime::from_timestamp(secs, 0) {
        Some(instant) => Some((chrono::Datelike::year(&instant), chrono::Datelike::month(&instant))),
        None => None,
    }
}

/// Writes the label of a calendar reading: `<year>_<month>` with a two-digit
/// month, or `unknown` where there is none.
pub fn format_partition_key(reading: Option<(i32, u32)>) -> (key: String)
    ensures
        key@ == partition_label(reading),
{
    match reading {
        Some((year, month)) => {
            proof {
                reveal_strlit("_");
                reveal_strlit("0");
            }
            let mut key = String::new();
            push_signed_decimal(&mut key, year as i64);
            key.append("_");
            if month < 10 {
                key.append("0");
            }
            push_decimal(&mut key, month as u64);
            assert(key@ =~= year_month_text(year as int, month as nat));
            key
        },
        None => String::from_str("unknown"),
    }
}

/// The second in which an instant falls, for an instant in milliseconds
/// since the epoch.
pub fn timestamp_seconds(timestamp_ms: i64) -> (secs: i64)
    ensures
        secs == whole_seconds(timestamp_ms as int),
{
    if timestamp_ms >= 0 {
        timestamp_ms / 1000
    } else {
        let back: i64 = -(timestamp_ms + 1);
        -(back / 1000) - 1
    }
}

/// The partition key of a record with this timestamp: the UTC year and
/// month of the instant, before the epoch as after it, or `unknown` where
/// the calendar cannot represent the instant.
pub fn partition_key_for(timestamp_ms: i64) -> (key: String)
    ensures
        key@ == partition_key_text(timestamp_ms),
{
    format_partition_key(calendar_reading(timestamp_seconds(timestamp_ms)))
}

} // verus!
