//! Parsing of dates.
use chrono::NaiveDateTime;
use vstd::prelude::*;

verus! {

/// Why a date could not be parsed.
#[derive(Debug)]
pub struct DateTimeError {
    pub message: String,
}

/// What `NaiveDateTime::parse_from_str` makes of a text under a format: seconds since 1970, in
/// universal time, or the text of its error.
pub uninterp spec fn parsed_timestamp(tm: Seq<char>, fmt: Seq<char>) -> Result<i64, Seq<char>>;

/// Parses a date with `chrono::NaiveDateTime::parse_from_str` and takes its timestamp. What it gives
/// is a function of the text and the format alone.
#[verifier::external_body]
fn parse_timestamp(tm: &str, fmt: &str) -> (r: Result<i64, String>)
    ensures
        match r {
            Ok(t) => parsed_timestamp(tm@, fmt@) == Ok::<i64, Seq<char>>(t),
            Err(e) => parsed_timestamp(tm@, fmt@) == Err::<i64, Seq<char>>(e@),
        },
{
    match NaiveDateTime::parse_from_str(tm, fmt) {
        Ok(dt) => Ok(dt.and_utc().timestamp()),
        Err(e) => Err(e.to_string()),
    }
}

/// The seconds since 1970 that a timestamp stands for; a date before 1970 counts as 1970.
pub open spec fn epoch_seconds(timestamp: i64) -> u64 {
    if timestamp < 0 {
        0
    } else {
        timestamp as u64
    }
}

/// Converts a timestamp into seconds since 1970; a date before 1970 counts as 1970.
pub fn seconds_since_epoch(timestamp: i64) -> (r: u64)
    ensures
        r == epoch_seconds(timestamp),
{
    if timestamp < 0 {
        0
    } else {
        timestamp as u64
    }
}

/// Parses the text of a date and time into seconds since 1970.
pub fn parse_datetime(tm: &str, fmt: &str) -> (r: Result<u64, DateTimeError>)
    ensures
        match parsed_timestamp(tm@, fmt@) {
            Ok(t) => r == Ok::<u64, DateTimeError>(epoch_seconds(t)),
            Err(e) => r is Err && r->Err_0.message@ == e,
        },
{
    match parse_timestamp(tm, fmt) {
        Ok(t) => Ok(seconds_since_epoch(t)),
        Err(message) => Err(DateTimeError { message }),
    }
}

} // verus!
