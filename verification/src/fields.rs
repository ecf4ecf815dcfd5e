//! Members of a record that hold a scalar in its written form: a time span,
//! a point in time, an identifier or a locator.

use vstd::prelude::*;
use crate::document::{Doc, Value};
use crate::error::{decoded_view, DecodeError};
use crate::identifier::{decoded_identifier, Identifier};
use crate::locator::{decoded_locator, Locator};
use crate::span::{decoded_span, Span};
use crate::timestamp::{decoded_timestamp, Timestamp};

verus! {

/// The time span that the member called `name` holds as a text.
pub open spec fn member_span(doc: Doc, name: Seq<char>) -> Result<Span, DecodeError> {
    match doc.member_text(name) {
        Ok(text) => decoded_span(text),
        Err(e) => Err(e),
    }
}

/// The point in time that the member called `name` holds as a text.
pub open spec fn member_timestamp(doc: Doc, name: Seq<char>) -> Result<Timestamp, DecodeError> {
    match doc.member_text(name) {
        Ok(text) => decoded_timestamp(text),
        Err(e) => Err(e),
    }
}

/// The identifier that the member called `name` holds as a text.
pub open spec fn member_identifier(doc: Doc, name: Seq<char>) -> Result<Identifier, DecodeError> {
    match doc.member_text(name) {
        Ok(text) => decoded_identifier(text),
        Err(e) => Err(e),
    }
}

/// The locator that the member called `name` holds as a text.
pub open spec fn member_locator(doc: Doc, name: Seq<char>) -> Result<Seq<char>, DecodeError> {
    match doc.member_text(name) {
        Ok(text) => decoded_locator(text),
        Err(e) => Err(e),
    }
}

/// Reads the time span that the member called `name` holds as a text.
pub fn read_span(doc: &Value, name: &str) -> (out: Result<Span, DecodeError>)
    ensures
        out == member_span(doc@, name@),
{
    match doc.member_text(name) {
        Ok(text) => Span::decode(text.as_str()),
        Err(e) => Err(e),
    }
}

/// Reads the point in time that the member called `name` holds as a text.
pub fn read_timestamp(doc: &Value, name: &str) -> (out: Result<Timestamp, DecodeError>)
    ensures
        out == member_timestamp(doc@, name@),
{
    match doc.member_text(name) {
        Ok(text) => Timestamp::decode(text.as_str()),
        Err(e) => Err(e),
    }
}

/// Reads the identifier that the member called `name` holds as a text.
pub fn read_identifier(doc: &Value, name: &str) -> (out: Result<Identifier, DecodeError>)
    ensures
        out == member_identifier(doc@, name@),
{
    match doc.member_text(name) {
        Ok(text) => Identifier::decode(text.as_str()),
        Err(e) => Err(e),
    }
}

/// Reads the locator that the member called `name` holds as a text.
pub fn read_locator(doc: &Value, name: &str) -> (out: Result<Locator, DecodeError>)
    ensures
        decoded_view(out) == member_locator(doc@, name@),
        out matches Ok(locator) ==> locator.valid(),
{
    match doc.member_text(name) {
        Ok(text) => Locator::decode(text.as_str()),
        Err(e) => Err(e),
    }
}

} // verus!
