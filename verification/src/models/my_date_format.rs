//! The written form of a point in time: `YYYY-MM-DD hh:mm:ss`, in UTC.

use vstd::prelude::*;

verus! {

/// The format of a written point in time.
pub const FORMAT: &'static str = "%Y-%m-%d %H:%M:%S";

/// The error with which a written point in time is refused.
#[verifier::external_type_specification]
#[verifier::external_body]
pub struct ExParseError(chrono::ParseError);

/// Why a point in time cannot be written or read.
#[derive(Debug, Clone, Copy, PartialEq, Eq, Structural)]
pub enum DateError {
    /// The point in time lies outside of what can be written.
    OutOfRange,
    /// The text is not a point in time in the format.
    Unreadable,
}

/// How the point in time `millis` milliseconds after the Unix epoch is
/// written: what `chrono`'s `format` gives with `FORMAT` for the time that
/// `DateTime::from_timestamp_millis` makes of it; nothing where that makes
/// none.
pub uninterp spec fn written(millis: int) -> Option<Seq<char>>;

/// The point in time that `text` writes, in milliseconds after the Unix
/// epoch: what `chrono`'s `NaiveDateTime::parse_from_str` reads with
/// `FORMAT`, taken as UTC; nothing where it refuses the text.
pub uninterp spec fn read(text: Seq<char>) -> Option<int>;

/// `chrono::DateTime::from_timestamp_millis`, then `naive_utc` and `format`
/// with `FORMAT`.
///
/// Trusted: that the result depends on `millis` alone. It is named, not
/// stated.
#[verifier::external_body]
fn write_millis(millis: i64) -> (r: Option<String>)
    ensures
        r.deep_view() == written(millis as int),
{
    match chrono::DateTime::from_timestamp_millis(millis) {
        Some(at) => Some(at.naive_utc().format(FORMAT).to_string()),
        None => None,
    }
}

/// `chrono::NaiveDateTime::parse_from_str` with `FORMAT`, then `and_utc` and
/// `timestamp_millis`.
///
/// Trusted: that the result depends on `text` alone. It is named, not
/// stated.
#[verifier::external_body]
fn read_millis(text: &str) -> (r: Result<i64, chrono::ParseError>)
    ensures
        match r {
            Ok(millis) => read(text@) == Some(millis as int),
            Err(_) => read(text@) is None,
        },
{
    match chrono::NaiveDateTime::parse_from_str(text, FORMAT) {
        Ok(at) => Ok(at.and_utc().timestamp_millis()),
        Err(error) => Err(error),
    }
}

/// Writes a point in time, given in milliseconds after the Unix epoch.
/// Fractions of a second are not written.
pub fn serialize(date: i64) -> (r: Result<String, DateError>)
    ensures
        match r {
            Ok(text) => written(date as int) == Some(text@),
            Err(error) => error == DateError::OutOfRange && written(date as int) is None,
        },
{
    match write_millis(date) {
        Some(text) => Ok(text),
        None => Err(DateError::OutOfRange),
    }
}

/// Reads a written point in time, in milliseconds after the Unix epoch.
pub fn deserialize(text: &str) -> (r: Result<i64, DateError>)
    ensures
        match r {
            Ok(date) => read(text@) == Some(date as int),
            Err(error) => error == DateError::Unreadable && read(text@) is None,
        },
{
    match read_millis(text) {
        Ok(date) => Ok(date),
        Err(_) => Err(DateError::Unreadable),
    }
}

} // verus!
