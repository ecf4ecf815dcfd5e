//! The request: the aggregate of a stream, the gifts on offer and a
//! diagnostic record, under a type tag.

use vstd::prelude::*;
use crate::document::{
    items_view, lacks, lemma_lacking_member, lemma_lookup_finds, Doc, Field, Value,
};
use crate::error::{decoded_view, DecodeError};
use crate::fields::{member_span, member_timestamp, read_span, read_timestamp};
use crate::span::{text_of_span, Span};
use crate::stream::{decoded_stream, encoded_stream, lemma_stream_round_trip, Stream, StreamView};
use crate::tariff::{decoded_gift, encoded_gift, lemma_gift_round_trip, Gift, GiftView};
use crate::text::same_text;
use crate::timestamp::{text_of_timestamp, Timestamp};

verus! {

/// Diagnostics of a request: how long it took, and when it was made.
#[derive(Clone, Copy, Debug, PartialEq, Eq, Structural)]
pub struct Debug {
    pub duration: Span,
    pub at: Timestamp,
}

impl Debug {
    /// Valid diagnostics hold a valid time span and a valid point in time.
    pub open spec fn valid(self) -> bool {
        self.duration.valid() && self.at.valid()
    }
}

/// What decoding `doc` as diagnostics gives: the fields are read in the
/// order `duration`, `at`, and the first failure is the outcome.
pub open spec fn decoded_debug(doc: Doc) -> Result<Debug, DecodeError> {
    match member_span(doc, "duration"@) {
        Err(e) => Err(e),
        Ok(duration) => match member_timestamp(doc, "at"@) {
            Err(e) => Err(e),
            Ok(at) => Ok(Debug { duration, at }),
        },
    }
}

/// The document of valid diagnostics: a record of the two fields under
/// their names, each in its written form.
pub open spec fn encoded_debug(debug: Debug) -> Doc {
    Doc::Record(
        seq![
            ("duration"@, Doc::Text(text_of_span(debug.duration))),
            ("at"@, Doc::Text(text_of_timestamp(debug.at).unwrap())),
        ],
    )
}

impl Debug {
    /// Whether the diagnostics are valid.
    pub fn is_valid(&self) -> (ok: bool)
        ensures
            ok == self.valid(),
    {
        self.duration.is_valid() && self.at.is_valid()
    }

    /// Decodes diagnostics from a record.
    pub fn decode(doc: &Value) -> (out: Result<Debug, DecodeError>)
        ensures
            out == decoded_debug(doc@),
            out matches Ok(debug) ==> debug.valid(),
    {
        let duration = match read_span(doc, "duration") {
            Ok(duration) => duration,
            Err(e) => return Err(e),
        };
        let at = match read_timestamp(doc, "at") {
            Ok(at) => at,
            Err(e) => return Err(e),
        };
        Ok(Debug { duration, at })
    }

    /// Encodes the diagnostics as a record where they are valid, and gives
    /// nothing where they are not.
    pub fn try_encode(&self) -> (out: Option<Value>)
        ensures
            match out {
                Some(doc) => self.valid() && doc@ == encoded_debug(*self),
                None => !self.valid(),
            },
    {
        if self.is_valid() {
            Some(self.encode())
        } else {
            None
        }
    }

    /// Encodes the diagnostics as a record.
    pub fn encode(&self) -> (doc: Value)
        requires
            self.valid(),
        ensures
            doc@ == encoded_debug(*self),
    {
        let duration = self.duration.encode();
        let at = self.at.encode();
        let mut fields: Vec<Field> = Vec::new();
        fields.push(Field::new("duration", Value::text(duration.as_str())));
        fields.push(Field::new("at", Value::text(at.as_str())));
        let doc = Value::Record(fields);
        proof {
            assert(doc@->Record_0 =~= encoded_debug(*self)->Record_0);
        }
        doc
    }
}

/// The type of a request: a closed enumeration.
#[derive(Clone, Copy, Debug, PartialEq, Eq, Structural)]
pub enum RequestType {
    /// Written as `success`.
    Success,
}

/// What decoding `text` as a request type gives: the one variant for its
/// one tag, and a failure for every other text.
pub open spec fn decoded_request_type(text: Seq<char>) -> Result<RequestType, DecodeError> {
    if text == "success"@ {
        Ok(RequestType::Success)
    } else {
        Err(DecodeError::UnknownVariant)
    }
}

/// The tag of a request type.
pub open spec fn request_type_tag(request_type: RequestType) -> Seq<char> {
    match request_type {
        RequestType::Success => "success"@,
    }
}

/// The request type that the member called `name` holds as a text.
pub open spec fn member_request_type(doc: Doc, name: Seq<char>) -> Result<
    RequestType,
    DecodeError,
> {
    match doc.member_text(name) {
        Ok(text) => decoded_request_type(text),
        Err(e) => Err(e),
    }
}

impl RequestType {
    /// Decodes a request type from its tag. Any text but the tag of a
    /// variant is refused.
    pub fn decode(text: &str) -> (out: Result<RequestType, DecodeError>)
        ensures
            out == decoded_request_type(text@),
    {
        if same_text(text, "success") {
            Ok(RequestType::Success)
        } else {
            Err(DecodeError::UnknownVariant)
        }
    }

    /// Encodes the request type as its tag.
    pub fn encode(&self) -> (text: &'static str)
        ensures
            text@ == request_type_tag(*self),
    {
        match self {
            RequestType::Success => "success",
        }
    }
}

/// Decoding the tag of a request type gives the type back.
pub proof fn lemma_request_type_round_trip(request_type: RequestType)
    ensures
        decoded_request_type(request_type_tag(request_type)) matches Ok(back)
            && back == request_type,
{
}

/// A request.
#[derive(Debug)]
pub struct Request {
    pub request_type: RequestType,
    pub stream: Stream,
    /// The gifts on offer, in the order in which the document lists them.
    pub gifts: Vec<Gift>,
    pub debug: Debug,
}

/// A request as a mathematical value.
pub ghost struct RequestView {
    pub request_type: RequestType,
    pub stream: StreamView,
    pub gifts: Seq<GiftView>,
    pub debug: Debug,
}

impl RequestView {
    /// A valid request has a valid stream and valid diagnostics.
    pub open spec fn valid(self) -> bool {
        self.stream.valid() && self.debug.valid()
    }
}

/// The gifts of a row as mathematical values.
pub open spec fn gifts_view(gifts: Seq<Gift>) -> Seq<GiftView> {
    Seq::new(gifts.len(), |i: int| gifts[i]@)
}

impl View for Request {
    type V = RequestView;

    open spec fn view(&self) -> RequestView {
        RequestView {
            request_type: self.request_type,
            stream: self.stream@,
            gifts: gifts_view(self.gifts@),
            debug: self.debug,
        }
    }
}

/// A copy of a row of gifts, place by place.
pub fn clone_gifts(gifts: &Vec<Gift>) -> (copy: Vec<Gift>)
    ensures
        gifts_view(copy@) == gifts_view(gifts@),
{
    let mut copy: Vec<Gift> = Vec::new();
    let mut at: usize = 0;
    while at < gifts.len()
        invariant
            at <= gifts.len(),
            copy.len() == at,
            forall|i: int| 0 <= i < at ==> (#[trigger] copy[i])@ == gifts[i]@,
        decreases gifts.len() - at,
    {
        copy.push(gifts[at].clone());
        at = at + 1;
    }
    copy
}

/// Whether two rows hold equal gifts at every place.
pub fn same_gifts(a: &Vec<Gift>, b: &Vec<Gift>) -> (equal: bool)
    ensures
        equal == (gifts_view(a@) == gifts_view(b@)),
{
    if a.len() != b.len() {
        proof {
            assert(gifts_view(a@).len() == a.len() && gifts_view(b@).len() == b.len());
        }
        return false;
    }
    let mut at: usize = 0;
    while at < a.len()
        invariant
            at <= a.len(),
            a.len() == b.len(),
            forall|i: int| 0 <= i < at ==> a[i]@ == b[i]@,
        decreases a.len() - at,
    {
        if !(a[at] == b[at]) {
            proof {
                assert(gifts_view(b@)[at as int] == b[at as int]@);
            }
            return false;
        }
        at = at + 1;
    }
    proof {
        assert(gifts_view(a@) =~= gifts_view(b@));
    }
    true
}

impl Clone for Request {
    /// A copy that is equal to what it copies.
    fn clone(&self) -> (copy: Request)
        ensures
            copy@ == self@,
    {
        Request {
            request_type: self.request_type,
            stream: self.stream.clone(),
            gifts: clone_gifts(&self.gifts),
            debug: self.debug,
        }
    }
}

impl PartialEq for Request {
    /// Two requests are equal where all their fields are, the gifts place
    /// by place.
    fn eq(&self, other: &Request) -> (equal: bool) {
        self.request_type == other.request_type && self.stream == other.stream && same_gifts(
            &self.gifts,
            &other.gifts,
        ) && self.debug == other.debug
    }
}

impl vstd::std_specs::cmp::PartialEqSpecImpl for Request {
    open spec fn obeys_eq_spec() -> bool {
        true
    }

    open spec fn eq_spec(&self, other: &Request) -> bool {
        self@ == other@
    }
}

/// What decoding a row of documents as gifts gives: each is decoded in
/// turn, and the first failure is the outcome.
pub open spec fn decoded_gifts(items: Seq<Doc>) -> Result<Seq<GiftView>, DecodeError>
    decreases items.len(),
{
    if items.len() == 0 {
        Ok(Seq::empty())
    } else {
        match decoded_gifts(items.drop_last()) {
            Err(e) => Err(e),
            Ok(gifts) => match decoded_gift(items.last()) {
                Err(e) => Err(e),
                Ok(gift) => Ok(gifts.push(gift)),
            },
        }
    }
}

/// The documents of a row of gifts, in the same order.
pub open spec fn encoded_gifts(gifts: Seq<GiftView>) -> Seq<Doc> {
    Seq::new(gifts.len(), |i: int| encoded_gift(gifts[i]))
}

/// The stream that the member called `name` holds as a record.
pub open spec fn member_stream(doc: Doc, name: Seq<char>) -> Result<StreamView, DecodeError> {
    match doc.member(name) {
        Ok(found) => decoded_stream(found),
        Err(e) => Err(e),
    }
}

/// The gifts that the member called `name` holds as a sequence of records.
pub open spec fn member_gifts(doc: Doc, name: Seq<char>) -> Result<Seq<GiftView>, DecodeError> {
    match doc.member(name) {
        Ok(found) => match found.as_list() {
            Ok(items) => decoded_gifts(items),
            Err(e) => Err(e),
        },
        Err(e) => Err(e),
    }
}

/// The diagnostics that the member called `name` holds as a record.
pub open spec fn member_debug(doc: Doc, name: Seq<char>) -> Result<Debug, DecodeError> {
    match doc.member(name) {
        Ok(found) => decoded_debug(found),
        Err(e) => Err(e),
    }
}

/// What decoding `doc` as a request gives: the fields are read in the order
/// `type`, `stream`, `gifts`, `debug`, and the first failure is the outcome.
pub open spec fn decoded_request(doc: Doc) -> Result<RequestView, DecodeError> {
    match member_request_type(doc, "type"@) {
        Err(e) => Err(e),
        Ok(request_type) => match member_stream(doc, "stream"@) {
            Err(e) => Err(e),
            Ok(stream) => match member_gifts(doc, "gifts"@) {
                Err(e) => Err(e),
                Ok(gifts) => match member_debug(doc, "debug"@) {
                    Err(e) => Err(e),
                    Ok(debug) => Ok(RequestView { request_type, stream, gifts, debug }),
                },
            },
        },
    }
}

/// The document of a request: a record of its four fields under their
/// names, the type as its tag and the gifts as a sequence of records.
pub open spec fn encoded_request(request: RequestView) -> Doc {
    Doc::Record(
        seq![
            ("type"@, Doc::Text(request_type_tag(request.request_type))),
            ("stream"@, encoded_stream(request.stream)),
            ("gifts"@, Doc::List(encoded_gifts(request.gifts))),
            ("debug"@, encoded_debug(request.debug)),
        ],
    )
}

/// The outcome of decoding a row of gifts, with the gifts taken by their
/// views.
pub open spec fn gifts_outcome(out: Result<Vec<Gift>, DecodeError>) -> Result<
    Seq<GiftView>,
    DecodeError,
> {
    match out {
        Ok(gifts) => Ok(gifts_view(gifts@)),
        Err(e) => Err(e),
    }
}

/// Decodes a row of documents as gifts, in their order.
pub fn decode_gifts(items: &Vec<Value>) -> (out: Result<Vec<Gift>, DecodeError>)
    ensures
        gifts_outcome(out) == decoded_gifts(items_view(items@)),
{
    let ghost docs = items_view(items@);
    let mut gifts: Vec<Gift> = Vec::new();
    let mut at: usize = 0;
    proof {
        assert(gifts_view(gifts@) =~= Seq::<GiftView>::empty());
    }
    while at < items.len()
        invariant
            at <= items.len(),
            docs == items_view(items@),
            gifts_outcome(Ok(gifts)) == decoded_gifts(docs.take(at as int)),
        decreases items.len() - at,
    {
        proof {
            assert(docs.take(at + 1).drop_last() =~= docs.take(at as int));
        }
        match Gift::decode(&items[at]) {
            Ok(gift) => {
                let ghost before = gifts_view(gifts@);
                gifts.push(gift);
                proof {
                    assert(gifts_view(gifts@) =~= before.push(gift@));
                }
            },
            Err(e) => {
                proof {
                    lemma_gifts_fail_on(docs, at as int);
                }
                return Err(e);
            },
        }
        at = at + 1;
    }
    proof {
        assert(docs.take(at as int) =~= docs);
    }
    Ok(gifts)
}

/// Encodes a row of gifts as documents, in their order.
pub fn encode_gifts(gifts: &Vec<Gift>) -> (items: Vec<Value>)
    ensures
        items_view(items@) == encoded_gifts(gifts_view(gifts@)),
{
    let mut items: Vec<Value> = Vec::new();
    let mut at: usize = 0;
    while at < gifts.len()
        invariant
            at <= gifts.len(),
            items.len() == at,
            forall|i: int| 0 <= i < at ==> (#[trigger] items[i])@ == encoded_gift(gifts[i]@),
        decreases gifts.len() - at,
    {
        items.push(gifts[at].encode());
        at = at + 1;
    }
    items
}

impl Request {
    /// Whether the request is valid.
    pub fn is_valid(&self) -> (ok: bool)
        ensures
            ok == self@.valid(),
    {
        self.stream.is_valid() && self.debug.is_valid()
    }

    /// Decodes a request from a record. Nothing is decoded in part: the
    /// outcome is the whole request or the first failure.
    pub fn decode(doc: &Value) -> (out: Result<Request, DecodeError>)
        ensures
            decoded_view(out) == decoded_request(doc@),
            out matches Ok(request) ==> request@.valid(),
    {
        let request_type = match doc.member_text("type") {
            Ok(text) => match RequestType::decode(text.as_str()) {
                Ok(request_type) => request_type,
                Err(e) => return Err(e),
            },
            Err(e) => return Err(e),
        };
        let stream = match doc.member("stream") {
            Ok(found) => match Stream::decode(found) {
                Ok(stream) => stream,
                Err(e) => return Err(e),
            },
            Err(e) => return Err(e),
        };
        let gifts = match doc.member("gifts") {
            Ok(found) => match found.as_list() {
                Ok(items) => match decode_gifts(items) {
                    Ok(gifts) => gifts,
                    Err(e) => return Err(e),
                },
                Err(e) => return Err(e),
            },
            Err(e) => return Err(e),
        };
        let debug = match doc.member("debug") {
            Ok(found) => match Debug::decode(found) {
                Ok(debug) => debug,
                Err(e) => return Err(e),
            },
            Err(e) => return Err(e),
        };
        Ok(Request { request_type, stream, gifts, debug })
    }

    /// Encodes the request as a record where it is valid, and gives nothing
    /// where it is not.
    pub fn try_encode(&self) -> (out: Option<Value>)
        ensures
            match out {
                Some(doc) => self@.valid() && doc@ == encoded_request(self@),
                None => !self@.valid(),
            },
    {
        if self.is_valid() {
            Some(self.encode())
        } else {
            None
        }
    }

    /// Encodes the request as a record.
    pub fn encode(&self) -> (doc: Value)
        requires
            self@.valid(),
        ensures
            doc@ == encoded_request(self@),
    {
        let items = encode_gifts(&self.gifts);
        let list = Value::List(items);
        proof {
            assert(list@->List_0 =~= items_view(items@));
        }
        let mut fields: Vec<Field> = Vec::new();
        fields.push(Field::new("type", Value::text(self.request_type.encode())));
        fields.push(Field::new("stream", self.stream.encode()));
        fields.push(Field::new("gifts", list));
        fields.push(Field::new("debug", self.debug.encode()));
        let doc = Value::Record(fields);
        proof {
            assert(doc@->Record_0 =~= encoded_request(self@)->Record_0);
        }
        doc
    }
}

/// Where one document of a row fails to decode as a gift and all before it
/// decode, the row fails with that failure.
pub proof fn lemma_gifts_fail_on(items: Seq<Doc>, at: int)
    requires
        0 <= at < items.len(),
        decoded_gifts(items.take(at)) is Ok,
        decoded_gift(items[at]) is Err,
    ensures
        decoded_gifts(items) == Err::<Seq<GiftView>, DecodeError>(decoded_gift(items[at])->Err_0),
    decreases items.len(),
{
    if at < items.len() - 1 {
        assert(items.drop_last().take(at) =~= items.take(at));
        lemma_gifts_fail_on(items.drop_last(), at);
    }
}

/// Decoding keeps the order of the gifts: a row that decodes gives as many
/// gifts as it has documents, and each gift is the one decoded from the
/// document at its own place.
pub proof fn lemma_gifts_in_order(items: Seq<Doc>)
    ensures
        decoded_gifts(items) matches Ok(gifts) ==> gifts.len() == items.len() && forall|i: int|
            0 <= i < items.len() ==> decoded_gift(#[trigger] items[i]) == Ok::<
                GiftView,
                DecodeError,
            >(gifts[i]),
    decreases items.len(),
{
    if items.len() > 0 {
        lemma_gifts_in_order(items.drop_last());
        if let Ok(gifts) = decoded_gifts(items) {
            assert forall|i: int| 0 <= i < items.len() implies decoded_gift(#[trigger] items[i])
                == Ok::<GiftView, DecodeError>(gifts[i]) by {
                if i < items.len() - 1 {
                    assert(items.drop_last()[i] == items[i]);
                }
            }
        }
    }
}

/// Decoding the documents of a row of gifts gives the row back.
pub proof fn lemma_gifts_round_trip(gifts: Seq<GiftView>)
    ensures
        decoded_gifts(encoded_gifts(gifts)) == Ok::<Seq<GiftView>, DecodeError>(gifts),
    decreases gifts.len(),
{
    let docs = encoded_gifts(gifts);
    if gifts.len() == 0 {
        assert(gifts =~= Seq::<GiftView>::empty());
    } else {
        lemma_gifts_round_trip(gifts.drop_last());
        lemma_gift_round_trip(gifts.last());
        assert(docs.drop_last() =~= encoded_gifts(gifts.drop_last()));
        assert(gifts.drop_last().push(gifts.last()) =~= gifts);
    }
}

/// The names of the fields of a request and of its diagnostics differ from
/// one another.
proof fn lemma_request_names()
    ensures
        "type"@.len() == 4,
        "stream"@.len() == 6,
        "gifts"@.len() == 5,
        "debug"@.len() == 5,
        "gifts"@[0] == 'g',
        "debug"@[0] == 'd',
        "duration"@.len() == 8,
        "at"@.len() == 2,
        "success"@.len() == 7,
{
    reveal_strlit("type");
    reveal_strlit("stream");
    reveal_strlit("gifts");
    reveal_strlit("debug");
    reveal_strlit("duration");
    reveal_strlit("at");
    reveal_strlit("success");
}

/// Decoding what was encoded gives the diagnostics back, for all valid
/// diagnostics.
pub proof fn lemma_debug_round_trip(debug: Debug)
    requires
        debug.valid(),
    ensures
        decoded_debug(encoded_debug(debug)) == Ok::<Debug, DecodeError>(debug),
{
    lemma_request_names();
    let members = encoded_debug(debug)->Record_0;
    lemma_lookup_finds(members, "duration"@, 0);
    lemma_lookup_finds(members, "at"@, 1);
}

/// Decoding what was encoded gives the request back, for every valid
/// request.
pub proof fn lemma_request_round_trip(request: RequestView)
    requires
        request.valid(),
    ensures
        decoded_request(encoded_request(request)) == Ok::<RequestView, DecodeError>(request),
{
    lemma_request_names();
    lemma_stream_round_trip(request.stream);
    lemma_gifts_round_trip(request.gifts);
    lemma_debug_round_trip(request.debug);
    let members = encoded_request(request)->Record_0;
    lemma_lookup_finds(members, "type"@, 0);
    lemma_lookup_finds(members, "stream"@, 1);
    lemma_lookup_finds(members, "gifts"@, 2);
    lemma_lookup_finds(members, "debug"@, 3);
}

/// A record that lacks a field of the diagnostics does not decode: the
/// failure is `MissingField` where the fields before the lacking one are in
/// order.
pub proof fn lemma_debug_missing_field(doc: Doc)
    ensures
        lacks(doc, "duration"@) || lacks(doc, "at"@) ==> decoded_debug(doc) is Err,
        lacks(doc, "duration"@) ==> decoded_debug(doc) matches Err(DecodeError::MissingField),
        lacks(doc, "at"@) && member_span(doc, "duration"@) is Ok
            ==> decoded_debug(doc) matches Err(DecodeError::MissingField),
{
    if lacks(doc, "duration"@) {
        lemma_lacking_member(doc, "duration"@);
    }
    if lacks(doc, "at"@) {
        lemma_lacking_member(doc, "at"@);
    }
}

/// A record that lacks a field of a request does not decode: the failure is
/// `MissingField` where the fields before the lacking one are in order.
pub proof fn lemma_request_missing_field(doc: Doc)
    ensures
        lacks(doc, "type"@) || lacks(doc, "stream"@) || lacks(doc, "gifts"@) || lacks(doc, "debug"@)
            ==> decoded_request(doc) is Err,
        lacks(doc, "type"@) ==> decoded_request(doc) matches Err(DecodeError::MissingField),
        lacks(doc, "stream"@) && member_request_type(doc, "type"@) is Ok
            ==> decoded_request(doc) matches Err(DecodeError::MissingField),
        lacks(doc, "gifts"@) && member_request_type(doc, "type"@) is Ok
            && member_stream(doc, "stream"@) is Ok
            ==> decoded_request(doc) matches Err(DecodeError::MissingField),
        lacks(doc, "debug"@) && member_request_type(doc, "type"@) is Ok
            && member_stream(doc, "stream"@) is Ok && member_gifts(doc, "gifts"@) is Ok
            ==> decoded_request(doc) matches Err(DecodeError::MissingField),
{
    if lacks(doc, "type"@) {
        lemma_lacking_member(doc, "type"@);
    }
    if lacks(doc, "stream"@) {
        lemma_lacking_member(doc, "stream"@);
    }
    if lacks(doc, "gifts"@) {
        lemma_lacking_member(doc, "gifts"@);
    }
    if lacks(doc, "debug"@) {
        lemma_lacking_member(doc, "debug"@);
    }
}

/// A failure inside a nested record is the failure of the whole request,
/// unchanged, where the fields before that record are in order.
pub proof fn lemma_request_propagates(doc: Doc, e: DecodeError)
    ensures
        member_request_type(doc, "type"@) == Err::<RequestType, DecodeError>(e)
            ==> decoded_request(doc) == Err::<RequestView, DecodeError>(e),
        member_request_type(doc, "type"@) is Ok
            && member_stream(doc, "stream"@) == Err::<StreamView, DecodeError>(e)
            ==> decoded_request(doc) == Err::<RequestView, DecodeError>(e),
        member_request_type(doc, "type"@) is Ok && member_stream(doc, "stream"@) is Ok
            && member_gifts(doc, "gifts"@) == Err::<Seq<GiftView>, DecodeError>(e)
            ==> decoded_request(doc) == Err::<RequestView, DecodeError>(e),
        member_request_type(doc, "type"@) is Ok && member_stream(doc, "stream"@) is Ok
            && member_gifts(doc, "gifts"@) is Ok
            && member_debug(doc, "debug"@) == Err::<Debug, DecodeError>(e)
            ==> decoded_request(doc) == Err::<RequestView, DecodeError>(e),
{
}

} // verus!
