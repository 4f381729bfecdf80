//! Dates given as text, `%Y-%m-%d %H:%M:%S`, turned into UNIX seconds.
use vstd::prelude::*;
use crate::pallet::Pallet;
use ascii::AsciiStr;
use chrono::NaiveDateTime;

verus! {

/// Every byte is an ASCII character.
pub open spec fn all_ascii(bytes: Seq<u8>) -> bool {
    forall|i: int| 0 <= i < bytes.len() ==> bytes[i] < 128
}

/// The characters of ASCII bytes.
pub open spec fn ascii_chars(bytes: Seq<u8>) -> Seq<char> {
    bytes.map_values(|b: u8| b as char)
}

/// What chrono's `NaiveDateTime::parse_from_str(text, format)` gives, as the
/// UNIX seconds of the parsed date and time: `None` where parsing fails.
pub uninterp spec fn parsed_datetime_seconds(text: Seq<char>, format: Seq<char>) -> Option<i64>;

/// `AsciiStr::from_ascii` of the ascii crate, then `as_str`: the text of the
/// bytes where all of them are ASCII.
#[verifier::external_body]
fn ascii_text(bytes: &[u8]) -> (r: Option<&str>)
    ensures
        r is Some <==> all_ascii(bytes@),
        r is Some ==> r->0@ == ascii_chars(bytes@),
{
    match AsciiStr::from_ascii(bytes) {
        Ok(s) => Some(s.as_str()),
        Err(_) => None,
    }
}

/// chrono's `NaiveDateTime::parse_from_str`, the parsed value taken as its
/// UNIX seconds in UTC (`and_utc().timestamp()`). The result is named.
#[verifier::external_body]
fn parse_datetime_seconds(text: &str, format: &str) -> (r: Option<i64>)
    ensures
        r == parsed_datetime_seconds(text@, format@),
{
    match NaiveDateTime::parse_from_str(text, format) {
        Ok(dt) => Some(dt.and_utc().timestamp()),
        Err(_) => None,
    }
}

/// The format of dates handed to the pallet.
pub open spec fn date_format() -> Seq<char> {
    "%Y-%m-%d %H:%M:%S"@
}

/// What a parse outcome becomes: error code 1 where parsing failed, else the
/// seconds taken as `u64` (a date before 1970 wraps around, as `as u64` does).
pub open spec fn timestamp_of_parse(parsed: Option<i64>) -> Result<u64, u8> {
    match parsed {
        None => Err(1u8),
        Some(t) => Ok(t as u64),
    }
}

/// The result of a date in bytes: error code 0 for bytes that are not all
/// ASCII, else the outcome of parsing it.
pub open spec fn date_timestamp(v: Seq<u8>) -> Result<u64, u8> {
    if !all_ascii(v) {
        Err(0u8)
    } else {
        timestamp_of_parse(parsed_datetime_seconds(ascii_chars(v), date_format()))
    }
}

/// Turns the outcome of parsing a date into the pallet's result.
pub fn timestamp_from_parse(parsed: Option<i64>) -> (r: Result<u64, u8>)
    ensures
        r == timestamp_of_parse(parsed),
{
    match parsed {
        None => Err(1u8),
        Some(t) => Ok(t as u64),
    }
}

impl Pallet {
    /// The UNIX seconds of a date written `%Y-%m-%d %H:%M:%S`.
    pub fn date_to_timestamp(v: Vec<u8>) -> (r: Result<u64, u8>)
        ensures
            r == date_timestamp(v@),
    {
        let dt = match ascii_text(v.as_slice()) {
            Some(s) => s,
            None => {
                return Err(0u8);
            },
        };
        let fmt = "%Y-%m-%d %H:%M:%S";
        timestamp_from_parse(parse_datetime_seconds(dt, fmt))
    }
}

} // verus!
