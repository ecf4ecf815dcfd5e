//! The event record: a name, and a date that is written behind a tag.

use vstd::prelude::*;
use crate::date_field::{deserialize_date, lemma_read_after_write, serialize_date, tagged, untagged};
use crate::document::{lacks, lemma_lacking_member, lemma_lookup_finds, Doc, Field, Value};
use crate::error::{decoded_view, DecodeError};

verus! {

/// An event. The date is kept raw, without the tag of its written form.
#[derive(Debug)]
pub struct Event {
    pub name: String,
    pub date: String,
}

/// An event as a mathematical value.
pub ghost struct EventView {
    pub name: Seq<char>,
    pub date: Seq<char>,
}

impl View for Event {
    type V = EventView;

    open spec fn view(&self) -> EventView {
        EventView { name: self.name@, date: self.date@ }
    }
}

impl Clone for Event {
    /// A copy that is equal to what it copies.
    fn clone(&self) -> (copy: Event)
        ensures
            copy@ == self@,
    {
        Event { name: self.name.clone(), date: self.date.clone() }
    }
}

impl PartialEq for Event {
    /// Two events are equal where their names and their dates are.
    fn eq(&self, other: &Event) -> (equal: bool) {
        self.name == other.name && self.date == other.date
    }
}

impl vstd::std_specs::cmp::PartialEqSpecImpl for Event {
    open spec fn obeys_eq_spec() -> bool {
        true
    }

    open spec fn eq_spec(&self, other: &Event) -> bool {
        self@ == other@
    }
}

/// What decoding `doc` as an event gives: the fields are read in the order
/// `name`, `date`, the tag is taken off the date, and the first failure is
/// the outcome.
pub open spec fn decoded_event(doc: Doc) -> Result<EventView, DecodeError> {
    match doc.member_text("name"@) {
        Err(e) => Err(e),
        Ok(name) => match doc.member_text("date"@) {
            Err(e) => Err(e),
            Ok(date) => Ok(EventView { name, date: untagged(date) }),
        },
    }
}

/// The document of an event: a record of its two fields under their names,
/// the date behind its tag.
pub open spec fn encoded_event(event: EventView) -> Doc {
    Doc::Record(seq![("name"@, Doc::Text(event.name)), ("date"@, Doc::Text(tagged(event.date)))])
}

impl Event {
    /// Decodes an event from a record.
    pub fn decode(doc: &Value) -> (out: Result<Event, DecodeError>)
        ensures
            decoded_view(out) == decoded_event(doc@),
    {
        let name = match doc.member_text("name") {
            Ok(text) => text.clone(),
            Err(e) => return Err(e),
        };
        let date = match doc.member_text("date") {
            Ok(text) => deserialize_date(text.as_str()),
            Err(e) => return Err(e),
        };
        Ok(Event { name, date })
    }

    /// Encodes the event as a record.
    pub fn encode(&self) -> (doc: Value)
        ensures
            doc@ == encoded_event(self@),
    {
        let date = serialize_date(self.date.as_str());
        let mut fields: Vec<Field> = Vec::new();
        fields.push(Field::new("name", Value::text(self.name.as_str())));
        fields.push(Field::new("date", Value::text(date.as_str())));
        let doc = Value::Record(fields);
        proof {
            assert(doc@->Record_0 =~= encoded_event(self@)->Record_0);
        }
        doc
    }
}

/// Decoding what was encoded gives the event back, for every event.
pub proof fn lemma_event_round_trip(event: EventView)
    ensures
        decoded_event(encoded_event(event)) == Ok::<EventView, DecodeError>(event),
{
    reveal_strlit("name");
    reveal_strlit("date");
    assert("name"@[0] == 'n' && "date"@[0] == 'd');
    lemma_read_after_write(event.date);
    let members = encoded_event(event)->Record_0;
    lemma_lookup_finds(members, "name"@, 0);
    lemma_lookup_finds(members, "date"@, 1);
}

/// A record that lacks a field of an event does not decode: the failure is
/// `MissingField` where the fields before the lacking one are in order.
pub proof fn lemma_event_missing_field(doc: Doc)
    ensures
        lacks(doc, "name"@) || lacks(doc, "date"@) ==> decoded_event(doc) is Err,
        lacks(doc, "name"@) ==> decoded_event(doc) matches Err(DecodeError::MissingField),
        lacks(doc, "date"@) && doc.member_text("name"@) is Ok
            ==> decoded_event(doc) matches Err(DecodeError::MissingField),
{
    if lacks(doc, "name"@) {
        lemma_lacking_member(doc, "name"@);
    }
    if lacks(doc, "date"@) {
        lemma_lacking_member(doc, "date"@);
    }
}

} // verus!
