//! Points in time as plain numbers, read from and written as text by the
//! `humantime` and `chrono` crates.

use vstd::prelude::*;

verus! {

/// A point in time: whole seconds since the Unix epoch and the nanoseconds
/// of the running second.
#[derive(Debug, Clone, Copy, PartialEq, Eq, Structural)]
pub struct Timestamp {
    pub secs: i64,
    pub nanos: u32,
}

impl Timestamp {
    /// Whether `self` is earlier than `other`.
    pub open spec fn spec_is_before(self, other: Timestamp) -> bool {
        self.secs < other.secs || (self.secs == other.secs && self.nanos < other.nanos)
    }

    /// Whether `self` is earlier than `other`.
    pub fn is_before(&self, other: &Timestamp) -> (r: bool)
        ensures
            r == self.spec_is_before(*other),
    {
        self.secs < other.secs || (self.secs == other.secs && self.nanos < other.nanos)
    }
}

/// Why a date could not be read.
#[derive(Debug, Clone, Copy, PartialEq, Eq, Structural)]
pub enum DateError {
    /// A component of the date is out of its range.
    OutOfRange,
    /// A character stands where a digit was expected.
    InvalidDigit,
    /// The text is not laid out as a date.
    InvalidFormat,
}

/// What `humantime::parse_rfc3339_weak` makes of a text: the seconds and
/// nanoseconds since the Unix epoch, or its error.
pub uninterp spec fn rfc3339_weak(text: Seq<char>) -> Result<(u64, u32), DateError>;

/// Reads a date by `humantime::parse_rfc3339_weak`. The crate reads
/// `2018-02-14T00:28:07Z`, with a space for the `T`, with or without `Z` or
/// `+00:00` and with any number of fractional digits, always as UTC, and
/// accepts no year before 1970: the result counts from the Unix epoch.
#[verifier::external_body]
pub(crate) fn parse_rfc3339_weak(text: &str) -> (r: Result<(u64, u32), DateError>)
    ensures
        r == rfc3339_weak(text@),
{
    match humantime::parse_rfc3339_weak(text) {
        Ok(time) => match time.duration_since(std::time::UNIX_EPOCH) {
            Ok(since) => Ok((since.as_secs(), since.subsec_nanos())),
            Err(_) => Err(DateError::OutOfRange),
        },
        Err(humantime::TimestampError::OutOfRange) => Err(DateError::OutOfRange),
        Err(humantime::TimestampError::InvalidDigit) => Err(DateError::InvalidDigit),
        Err(humantime::TimestampError::InvalidFormat) => Err(DateError::InvalidFormat),
    }
}

/// What reading a date gives: the point in time that `humantime` read, an
/// error where it gave one or where the seconds do not fit the timestamp.
pub open spec fn spec_parse_date(text: Seq<char>) -> Result<Timestamp, DateError> {
    match rfc3339_weak(text) {
        Ok((secs, nanos)) => if secs <= i64::MAX {
            Ok(Timestamp { secs: secs as i64, nanos })
        } else {
            Err(DateError::OutOfRange)
        },
        Err(e) => Err(e),
    }
}

/// What a date filter of the command line gives: nothing where the option
/// is absent, else the date that its text reads as.
pub open spec fn spec_date_filter(value: Option<Seq<char>>) -> Result<Option<Timestamp>, DateError> {
    match value {
        None => Ok(None),
        Some(text) => match spec_parse_date(text) {
            Ok(t) => Ok(Some(t)),
            Err(e) => Err(e),
        },
    }
}

/// Reads a date in the relaxed RFC 3339 form.
pub fn parse_date(text: &str) -> (r: Result<Timestamp, DateError>)
    ensures
        r == spec_parse_date(text@),
{
    match parse_rfc3339_weak(text) {
        Ok((secs, nanos)) => {
            if secs <= i64::MAX as u64 {
                Ok(Timestamp { secs: secs as i64, nanos })
            } else {
                Err(DateError::OutOfRange)
            }
        },
        Err(e) => Err(e),
    }
}

/// What `chrono` shows a timestamp as in UTC, `2016-11-15 07:39:24` with the
/// fraction of the second where there is one; nothing for a timestamp
/// outside the range of dates that `chrono` holds.
pub uninterp spec fn datetime_text(secs: i64, nanos: u32) -> Option<Seq<char>>;

/// What `chrono` shows a timestamp as in UTC to the second,
/// `2016-11-15 07:39:24`; nothing for a timestamp outside its range.
pub uninterp spec fn datetime_seconds_text(secs: i64, nanos: u32) -> Option<Seq<char>>;

/// Shows a timestamp by `chrono`: `DateTime::from_timestamp`, which refuses
/// what is out of range, then `NaiveDateTime`'s `Display`.
#[verifier::external_body]
pub(crate) fn format_datetime(secs: i64, nanos: u32) -> (r: Option<String>)
    ensures
        match r {
            Some(text) => datetime_text(secs, nanos) == Some(text@),
            None => datetime_text(secs, nanos).is_none(),
        },
{
    chrono::DateTime::from_timestamp(secs, nanos).map(|t| t.naive_utc().to_string())
}

/// Shows a timestamp to the second by `chrono`: `DateTime::from_timestamp`,
/// then `NaiveDateTime::format` with `%Y-%m-%d %H:%M:%S`.
#[verifier::external_body]
pub(crate) fn format_datetime_seconds(secs: i64, nanos: u32) -> (r: Option<String>)
    ensures
        match r {
            Some(text) => datetime_seconds_text(secs, nanos) == Some(text@),
            None => datetime_seconds_text(secs, nanos).is_none(),
        },
{
    chrono::DateTime::from_timestamp(secs, nanos).map(
        |t| t.naive_utc().format("%Y-%m-%d %H:%M:%S").to_string(),
    )
}

impl Timestamp {
    /// The timestamp as text, by `chrono`.
    pub fn to_text(&self) -> (r: Option<String>)
        ensures
            match r {
                Some(text) => datetime_text(self.secs, self.nanos) == Some(text@),
                None => datetime_text(self.secs, self.nanos).is_none(),
            },
    {
        format_datetime(self.secs, self.nanos)
    }

    /// The timestamp as text to the second, by `chrono`.
    pub fn to_seconds_text(&self) -> (r: Option<String>)
        ensures
            match r {
                Some(text) => datetime_seconds_text(self.secs, self.nanos) == Some(text@),
                None => datetime_seconds_text(self.secs, self.nanos).is_none(),
            },
    {
        format_datetime_seconds(self.secs, self.nanos)
    }
}

} // verus!
