//! Points in time, kept in UTC, and their written form, a date and a time of
//! day with an offset such as `2024-11-14T09:30:00Z`.

use vstd::prelude::*;
use crate::error::DecodeError;
use crate::text::text_view;

verus! {

/// A point in time: the seconds since the beginning of 1970 in UTC, leap
/// seconds not counted, and the nanoseconds of the second that has begun.
#[derive(Clone, Copy, Debug, PartialEq, Eq, Structural)]
pub struct Timestamp {
    pub secs: i64,
    pub nanos: u32,
}

/// The point in time that the parser reads from a text, where it reads one,
/// brought to UTC.
pub uninterp spec fn timestamp_of_text(text: Seq<char>) -> Option<Timestamp>;

/// The text that the formatter writes for a point in time, where the calendar
/// reaches that far.
pub uninterp spec fn text_of_timestamp(stamp: Timestamp) -> Option<Seq<char>>;

impl Timestamp {
    /// A valid point in time has a written form, and that form reads back as
    /// the point itself.
    pub open spec fn valid(self) -> bool {
        match text_of_timestamp(self) {
            Some(text) => timestamp_of_text(text) == Some(self),
            None => false,
        }
    }
}

/// What decoding `text` as a point in time gives: the point that the parser
/// reads from it, where it reads one and that point is valid; a failure
/// everywhere else.
pub open spec fn decoded_timestamp(text: Seq<char>) -> Result<Timestamp, DecodeError> {
    match timestamp_of_text(text) {
        Some(stamp) if stamp.valid() => Ok(stamp),
        _ => Err(DecodeError::FormatError),
    }
}

/// `str::parse` to a `chrono::DateTime<chrono::Utc>`, with the point split
/// into `DateTime::timestamp` and `DateTime::timestamp_subsec_nanos`.
///
/// The parser reads a date, a time of day and an offset, and moves the
/// point to UTC. What it reads depends on the text alone.
#[verifier::external_body]
fn parse_timestamp(text: &str) -> (out: Option<Timestamp>)
    ensures
        out == timestamp_of_text(text@),
{
    text.parse::<chrono::DateTime<chrono::Utc>>().ok().map(
        |at| Timestamp { secs: at.timestamp(), nanos: at.timestamp_subsec_nanos() },
    )
}

/// `chrono::DateTime::from_timestamp`, then `DateTime::to_rfc3339_opts` with
/// the shortest fraction that loses nothing and `Z` for the offset.
///
/// Nothing is written where the calendar does not reach the point. What is
/// written depends on the point alone.
#[verifier::external_body]
fn format_timestamp(stamp: Timestamp) -> (out: Option<String>)
    ensures
        text_view(out) == text_of_timestamp(stamp),
{
    chrono::DateTime::from_timestamp(stamp.secs, stamp.nanos).map(
        |at| at.to_rfc3339_opts(chrono::SecondsFormat::AutoSi, true),
    )
}

/// Settles a decode once the point has been written and read again: the
/// point is admitted where the second reading gave the same point, and
/// refused everywhere else.
pub fn admit_timestamp(stamp: Timestamp, reread: Option<Timestamp>) -> (out: Result<
    Timestamp,
    DecodeError,
>)
    ensures
        out == if reread == Some(stamp) {
            Ok::<Timestamp, DecodeError>(stamp)
        } else {
            Err(DecodeError::FormatError)
        },
{
    match reread {
        Some(again) if again.secs == stamp.secs && again.nanos == stamp.nanos => Ok(stamp),
        _ => Err(DecodeError::FormatError),
    }
}

impl Timestamp {
    /// Whether the point is valid: it is written and read again, and must
    /// come back as it was.
    pub fn is_valid(&self) -> (ok: bool)
        ensures
            ok == self.valid(),
    {
        match format_timestamp(*self) {
            Some(written) => {
                let reread = parse_timestamp(written.as_str());
                admit_timestamp(*self, reread).is_ok()
            },
            None => false,
        }
    }

    /// Decodes a point in time from its written form. A text that the parser
    /// does not read, or whose point is not valid, is refused.
    pub fn decode(text: &str) -> (out: Result<Timestamp, DecodeError>)
        ensures
            out == decoded_timestamp(text@),
    {
        match parse_timestamp(text) {
            Some(stamp) => {
                if stamp.is_valid() {
                    Ok(stamp)
                } else {
                    Err(DecodeError::FormatError)
                }
            },
            None => Err(DecodeError::FormatError),
        }
    }

    /// Encodes the point in its written form where it is valid, and gives
    /// nothing where it is not.
    pub fn try_encode(&self) -> (out: Option<String>)
        ensures
            text_view(out) == if self.valid() {
                text_of_timestamp(*self)
            } else {
                None
            },
    {
        if self.is_valid() {
            Some(self.encode())
        } else {
            None
        }
    }

    /// Encodes the point in its written form.
    pub fn encode(&self) -> (text: String)
        requires
            self.valid(),
        ensures
            Some(text@) == text_of_timestamp(*self),
    {
        match format_timestamp(*self) {
            Some(text) => text,
            None => vstd::pervasive::unreached(),
        }
    }
}

/// Decoding what was encoded gives the point in time back, for every valid
/// point.
pub proof fn lemma_timestamp_round_trip(stamp: Timestamp)
    requires
        stamp.valid(),
    ensures
        text_of_timestamp(stamp) matches Some(text) && decoded_timestamp(text) == Ok::<
            Timestamp,
            DecodeError,
        >(stamp),
{
}

/// A text that decodes gives a point in time whose written form decodes to
/// the same point: the text may change, the value does not.
pub proof fn lemma_timestamp_stable(text: Seq<char>)
    ensures
        decoded_timestamp(text) matches Ok(stamp) ==> stamp.valid() && decoded_timestamp(
            text_of_timestamp(stamp).unwrap(),
        ) == decoded_timestamp(text),
{
}

} // verus!
