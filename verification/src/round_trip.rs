//! The acceptance trial of the codecs: a record is encoded, decoded back,
//! and must come out as it went in.

use vstd::prelude::*;
use crate::document::{Doc, Value};
use crate::error::{decoded_view, DecodeError};
use crate::event::{decoded_event, lemma_event_round_trip, Event, EventView};
use crate::request::{decoded_request, lemma_request_round_trip, Request, RequestView};

verus! {

/// Encodes an event and decodes it back. The decode never fails, and gives
/// an event equal to the one that went in.
pub fn replay_event(event: &Event) -> (out: Result<Event, DecodeError>)
    ensures
        decoded_view(out) == Ok::<EventView, DecodeError>(event@),
{
    proof {
        lemma_event_round_trip(event@);
    }
    let doc = event.encode();
    Event::decode(&doc)
}

/// Encodes a valid request and decodes it back. The decode never fails, and
/// gives a request equal to the one that went in.
pub fn replay_request(request: &Request) -> (out: Result<Request, DecodeError>)
    requires
        request@.valid(),
    ensures
        decoded_view(out) == Ok::<RequestView, DecodeError>(request@),
{
    proof {
        lemma_request_round_trip(request@);
    }
    let doc = request.encode();
    Request::decode(&doc)
}

/// What the trial of an event document comes to: the failure of its decode,
/// or the word that the event in it came out as it went in.
pub open spec fn demonstrated_event(doc: Doc) -> Result<bool, DecodeError> {
    match decoded_event(doc) {
        Ok(_) => Ok(true),
        Err(e) => Err(e),
    }
}

/// What the trial of a request document comes to: the failure of its decode,
/// or the word that the request in it came out as it went in.
pub open spec fn demonstrated_request(doc: Doc) -> Result<bool, DecodeError> {
    match decoded_request(doc) {
        Ok(_) => Ok(true),
        Err(e) => Err(e),
    }
}

/// Loads an event from a document, encodes it, decodes it back and says
/// whether it came out as it went in. A document that does not decode is
/// refused with the failure of its decode; every event that is loaded passes.
pub fn demonstrate_event(doc: &Value) -> (out: Result<bool, DecodeError>)
    ensures
        out == demonstrated_event(doc@),
{
    match Event::decode(doc) {
        Ok(event) => match replay_event(&event) {
            Ok(back) => Ok(back == event),
            Err(_) => Ok(false),
        },
        Err(e) => Err(e),
    }
}

/// Loads a request from a document, encodes it, decodes it back and says
/// whether it came out as it went in. A document that does not decode is
/// refused with the failure of its decode; every request that is loaded
/// passes.
pub fn demonstrate_request(doc: &Value) -> (out: Result<bool, DecodeError>)
    ensures
        out == demonstrated_request(doc@),
{
    match Request::decode(doc) {
        Ok(request) => match replay_request(&request) {
            Ok(back) => Ok(back == request),
            Err(_) => Ok(false),
        },
        Err(e) => Err(e),
    }
}

} // verus!
