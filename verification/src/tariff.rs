//! Gifts and the two tariffs: records of a few numbers, a time span and a
//! description.

use vstd::prelude::*;
use crate::document::{lacks, lemma_lacking_member, lemma_lookup_finds, Doc, Field, Value};
use crate::error::{decoded_view, DecodeError};
use crate::fields::{member_span, read_span};
use crate::span::{text_of_span, Span};

verus! {

/// A gift that a viewer can send.
#[derive(Debug)]
pub struct Gift {
    pub id: u32,
    pub price: u32,
    pub description: String,
}

/// A gift as a mathematical value.
pub ghost struct GiftView {
    pub id: u32,
    pub price: u32,
    pub description: Seq<char>,
}

impl View for Gift {
    type V = GiftView;

    open spec fn view(&self) -> GiftView {
        GiftView { id: self.id, price: self.price, description: self.description@ }
    }
}

impl Clone for Gift {
    /// A copy that is equal to what it copies.
    fn clone(&self) -> (copy: Gift)
        ensures
            copy@ == self@,
    {
        Gift { id: self.id, price: self.price, description: self.description.clone() }
    }
}

impl PartialEq for Gift {
    /// Two gifts are equal where all their fields are.
    fn eq(&self, other: &Gift) -> (equal: bool) {
        self.id == other.id && self.price == other.price && self.description == other.description
    }
}

impl vstd::std_specs::cmp::PartialEqSpecImpl for Gift {
    open spec fn obeys_eq_spec() -> bool {
        true
    }

    open spec fn eq_spec(&self, other: &Gift) -> bool {
        self@ == other@
    }
}

/// What decoding `doc` as a gift gives: the fields are read in the order
/// `id`, `price`, `description`, and the first failure is the outcome.
pub open spec fn decoded_gift(doc: Doc) -> Result<GiftView, DecodeError> {
    match doc.member_u32("id"@) {
        Err(e) => Err(e),
        Ok(id) => match doc.member_u32("price"@) {
            Err(e) => Err(e),
            Ok(price) => match doc.member_text("description"@) {
                Err(e) => Err(e),
                Ok(description) => Ok(GiftView { id, price, description }),
            },
        },
    }
}

/// The document of a gift: a record of its three fields under their names.
pub open spec fn encoded_gift(gift: GiftView) -> Doc {
    Doc::Record(
        seq![
            ("id"@, Doc::Number(gift.id as u64)),
            ("price"@, Doc::Number(gift.price as u64)),
            ("description"@, Doc::Text(gift.description)),
        ],
    )
}

impl Gift {
    /// Decodes a gift from a record.
    pub fn decode(doc: &Value) -> (out: Result<Gift, DecodeError>)
        ensures
            decoded_view(out) == decoded_gift(doc@),
    {
        let id = match doc.member_u32("id") {
            Ok(id) => id,
            Err(e) => return Err(e),
        };
        let price = match doc.member_u32("price") {
            Ok(price) => price,
            Err(e) => return Err(e),
        };
        let description = match doc.member_text("description") {
            Ok(text) => text.clone(),
            Err(e) => return Err(e),
        };
        Ok(Gift { id, price, description })
    }

    /// Encodes the gift as a record.
    pub fn encode(&self) -> (doc: Value)
        ensures
            doc@ == encoded_gift(self@),
    {
        let mut fields: Vec<Field> = Vec::new();
        fields.push(Field::new("id", Value::number(self.id)));
        fields.push(Field::new("price", Value::number(self.price)));
        fields.push(Field::new("description", Value::text(self.description.as_str())));
        let doc = Value::Record(fields);
        proof {
            assert(doc@->Record_0 =~= encoded_gift(self@)->Record_0);
        }
        doc
    }
}

/// Decoding what was encoded gives the gift back, for every gift.
pub proof fn lemma_gift_round_trip(gift: GiftView)
    ensures
        decoded_gift(encoded_gift(gift)) == Ok::<GiftView, DecodeError>(gift),
{
    lemma_tariff_names();
    let members = encoded_gift(gift)->Record_0;
    lemma_lookup_finds(members, "id"@, 0);
    lemma_lookup_finds(members, "price"@, 1);
    lemma_lookup_finds(members, "description"@, 2);
}

/// A record that lacks a field of a gift does not decode: the failure is
/// `MissingField` where the fields before the lacking one are in order.
pub proof fn lemma_gift_missing_field(doc: Doc)
    ensures
        lacks(doc, "id"@) || lacks(doc, "price"@) || lacks(doc, "description"@)
            ==> decoded_gift(doc) is Err,
        lacks(doc, "id"@) ==> decoded_gift(doc) matches Err(DecodeError::MissingField),
        lacks(doc, "price"@) && doc.member_u32("id"@) is Ok
            ==> decoded_gift(doc) matches Err(DecodeError::MissingField),
        lacks(doc, "description"@) && doc.member_u32("id"@) is Ok && doc.member_u32("price"@) is Ok
            ==> decoded_gift(doc) matches Err(DecodeError::MissingField),
{
    if lacks(doc, "id"@) {
        lemma_lacking_member(doc, "id"@);
    }
    if lacks(doc, "price"@) {
        lemma_lacking_member(doc, "price"@);
    }
    if lacks(doc, "description"@) {
        lemma_lacking_member(doc, "description"@);
    }
}

/// A tariff that every viewer of a stream pays.
#[derive(Debug)]
pub struct PublicTariff {
    pub id: u32,
    pub price: u32,
    pub duration: Span,
    pub description: String,
}

/// A public tariff as a mathematical value.
pub ghost struct PublicTariffView {
    pub id: u32,
    pub price: u32,
    pub duration: Span,
    pub description: Seq<char>,
}

impl PublicTariffView {
    /// A valid tariff lasts a valid time span.
    pub open spec fn valid(self) -> bool {
        self.duration.valid()
    }
}

impl View for PublicTariff {
    type V = PublicTariffView;

    open spec fn view(&self) -> PublicTariffView {
        PublicTariffView {
            id: self.id,
            price: self.price,
            duration: self.duration,
            description: self.description@,
        }
    }
}

impl Clone for PublicTariff {
    /// A copy that is equal to what it copies.
    fn clone(&self) -> (copy: PublicTariff)
        ensures
            copy@ == self@,
    {
        PublicTariff {
            id: self.id,
            price: self.price,
            duration: self.duration,
            description: self.description.clone(),
        }
    }
}

impl PartialEq for PublicTariff {
    /// Two tariffs are equal where all their fields are.
    fn eq(&self, other: &PublicTariff) -> (equal: bool) {
        self.id == other.id && self.price == other.price && self.duration == other.duration
            && self.description == other.description
    }
}

impl vstd::std_specs::cmp::PartialEqSpecImpl for PublicTariff {
    open spec fn obeys_eq_spec() -> bool {
        true
    }

    open spec fn eq_spec(&self, other: &PublicTariff) -> bool {
        self@ == other@
    }
}

/// What decoding `doc` as a public tariff gives: the fields are read in the
/// order `id`, `price`, `duration`, `description`, and the first failure is
/// the outcome.
pub open spec fn decoded_public_tariff(doc: Doc) -> Result<PublicTariffView, DecodeError> {
    match doc.member_u32("id"@) {
        Err(e) => Err(e),
        Ok(id) => match doc.member_u32("price"@) {
            Err(e) => Err(e),
            Ok(price) => match member_span(doc, "duration"@) {
                Err(e) => Err(e),
                Ok(duration) => match doc.member_text("description"@) {
                    Err(e) => Err(e),
                    Ok(description) => Ok(PublicTariffView { id, price, duration, description }),
                },
            },
        },
    }
}

/// The document of a public tariff: a record of its four fields under their
/// names, the time span in its written form.
pub open spec fn encoded_public_tariff(tariff: PublicTariffView) -> Doc {
    Doc::Record(
        seq![
            ("id"@, Doc::Number(tariff.id as u64)),
            ("price"@, Doc::Number(tariff.price as u64)),
            ("duration"@, Doc::Text(text_of_span(tariff.duration))),
            ("description"@, Doc::Text(tariff.description)),
        ],
    )
}

impl PublicTariff {
    /// Whether the tariff is valid.
    pub fn is_valid(&self) -> (ok: bool)
        ensures
            ok == self@.valid(),
    {
        self.duration.is_valid()
    }

    /// Decodes a public tariff from a record.
    pub fn decode(doc: &Value) -> (out: Result<PublicTariff, DecodeError>)
        ensures
            decoded_view(out) == decoded_public_tariff(doc@),
            out matches Ok(tariff) ==> tariff@.valid(),
    {
        let id = match doc.member_u32("id") {
            Ok(id) => id,
            Err(e) => return Err(e),
        };
        let price = match doc.member_u32("price") {
            Ok(price) => price,
            Err(e) => return Err(e),
        };
        let duration = match read_span(doc, "duration") {
            Ok(duration) => duration,
            Err(e) => return Err(e),
        };
        let description = match doc.member_text("description") {
            Ok(text) => text.clone(),
            Err(e) => return Err(e),
        };
        Ok(PublicTariff { id, price, duration, description })
    }

    /// Encodes the tariff as a record where it is valid, and gives nothing
    /// where it is not.
    pub fn try_encode(&self) -> (out: Option<Value>)
        ensures
            match out {
                Some(doc) => self@.valid() && doc@ == encoded_public_tariff(self@),
                None => !self@.valid(),
            },
    {
        if self.is_valid() {
            Some(self.encode())
        } else {
            None
        }
    }

    /// Encodes the tariff as a record.
    pub fn encode(&self) -> (doc: Value)
        requires
            self@.valid(),
        ensures
            doc@ == encoded_public_tariff(self@),
    {
        let duration = self.duration.encode();
        let mut fields: Vec<Field> = Vec::new();
        fields.push(Field::new("id", Value::number(self.id)));
        fields.push(Field::new("price", Value::number(self.price)));
        fields.push(Field::new("duration", Value::text(duration.as_str())));
        fields.push(Field::new("description", Value::text(self.description.as_str())));
        let doc = Value::Record(fields);
        proof {
            assert(doc@->Record_0 =~= encoded_public_tariff(self@)->Record_0);
        }
        doc
    }
}

/// The names of a tariff's fields differ from one another.
proof fn lemma_tariff_names()
    ensures
        "id"@.len() == 2,
        "price"@.len() == 5,
        "duration"@.len() == 8,
        "description"@.len() == 11,
        "client_price"@.len() == 12,
{
    reveal_strlit("id");
    reveal_strlit("price");
    reveal_strlit("duration");
    reveal_strlit("description");
    reveal_strlit("client_price");
}

/// Decoding what was encoded gives the tariff back, for every valid public
/// tariff.
pub proof fn lemma_public_tariff_round_trip(tariff: PublicTariffView)
    requires
        tariff.valid(),
    ensures
        decoded_public_tariff(encoded_public_tariff(tariff)) matches Ok(back) && back == tariff,
{
    lemma_tariff_names();
    let members = encoded_public_tariff(tariff)->Record_0;
    lemma_lookup_finds(members, "id"@, 0);
    lemma_lookup_finds(members, "price"@, 1);
    lemma_lookup_finds(members, "duration"@, 2);
    lemma_lookup_finds(members, "description"@, 3);
}

/// A record that lacks a field of a public tariff does not decode: the
/// failure is `MissingField` where the fields before the lacking one are in
/// order.
pub proof fn lemma_public_tariff_missing_field(doc: Doc)
    ensures
        lacks(doc, "id"@) || lacks(doc, "price"@) || lacks(doc, "duration"@)
            || lacks(doc, "description"@)
            ==> decoded_public_tariff(doc) is Err,
        lacks(doc, "id"@) ==> decoded_public_tariff(doc) matches Err(DecodeError::MissingField),
        lacks(doc, "price"@) && doc.member_u32("id"@) is Ok
            ==> decoded_public_tariff(doc) matches Err(DecodeError::MissingField),
        lacks(doc, "duration"@) && doc.member_u32("id"@) is Ok && doc.member_u32("price"@) is Ok
            ==> decoded_public_tariff(doc) matches Err(DecodeError::MissingField),
        lacks(doc, "description"@) && doc.member_u32("id"@) is Ok && doc.member_u32("price"@) is Ok
            && member_span(doc, "duration"@) is Ok
            ==> decoded_public_tariff(doc) matches Err(DecodeError::MissingField),
{
    if lacks(doc, "id"@) {
        lemma_lacking_member(doc, "id"@);
    }
    if lacks(doc, "price"@) {
        lemma_lacking_member(doc, "price"@);
    }
    if lacks(doc, "duration"@) {
        lemma_lacking_member(doc, "duration"@);
    }
    if lacks(doc, "description"@) {
        lemma_lacking_member(doc, "description"@);
    }
}

/// A tariff that one viewer pays for a private stream.
#[derive(Debug)]
pub struct PrivateTariff {
    pub client_price: u32,
    pub duration: Span,
    pub description: String,
}

/// A private tariff as a mathematical value.
pub ghost struct PrivateTariffView {
    pub client_price: u32,
    pub duration: Span,
    pub description: Seq<char>,
}

impl PrivateTariffView {
    /// A valid tariff lasts a valid time span.
    pub open spec fn valid(self) -> bool {
        self.duration.valid()
    }
}

impl View for PrivateTariff {
    type V = PrivateTariffView;

    open spec fn view(&self) -> PrivateTariffView {
        PrivateTariffView {
            client_price: self.client_price,
            duration: self.duration,
            description: self.description@,
        }
    }
}

impl Clone for PrivateTariff {
    /// A copy that is equal to what it copies.
    fn clone(&self) -> (copy: PrivateTariff)
        ensures
            copy@ == self@,
    {
        PrivateTariff {
            client_price: self.client_price,
            duration: self.duration,
            description: self.description.clone(),
        }
    }
}

impl PartialEq for PrivateTariff {
    /// Two tariffs are equal where all their fields are.
    fn eq(&self, other: &PrivateTariff) -> (equal: bool) {
        self.client_price == other.client_price && self.duration == other.duration
            && self.description == other.description
    }
}

impl vstd::std_specs::cmp::PartialEqSpecImpl for PrivateTariff {
    open spec fn obeys_eq_spec() -> bool {
        true
    }

    open spec fn eq_spec(&self, other: &PrivateTariff) -> bool {
        self@ == other@
    }
}

/// What decoding `doc` as a private tariff gives: the fields are read in
/// the order `client_price`, `duration`, `description`, and the first failure
/// is the outcome.
pub open spec fn decoded_private_tariff(doc: Doc) -> Result<PrivateTariffView, DecodeError> {
    match doc.member_u32("client_price"@) {
        Err(e) => Err(e),
        Ok(client_price) => match member_span(doc, "duration"@) {
            Err(e) => Err(e),
            Ok(duration) => match doc.member_text("description"@) {
                Err(e) => Err(e),
                Ok(description) => Ok(PrivateTariffView { client_price, duration, description }),
            },
        },
    }
}

/// The document of a private tariff: a record of its three fields under
/// their names, the time span in its written form.
pub open spec fn encoded_private_tariff(tariff: PrivateTariffView) -> Doc {
    Doc::Record(
        seq![
            ("client_price"@, Doc::Number(tariff.client_price as u64)),
            ("duration"@, Doc::Text(text_of_span(tariff.duration))),
            ("description"@, Doc::Text(tariff.description)),
        ],
    )
}

impl PrivateTariff {
    /// Whether the tariff is valid.
    pub fn is_valid(&self) -> (ok: bool)
        ensures
            ok == self@.valid(),
    {
        self.duration.is_valid()
    }

    /// Decodes a private tariff from a record.
    pub fn decode(doc: &Value) -> (out: Result<PrivateTariff, DecodeError>)
        ensures
            decoded_view(out) == decoded_private_tariff(doc@),
            out matches Ok(tariff) ==> tariff@.valid(),
    {
        let client_price = match doc.member_u32("client_price") {
            Ok(price) => price,
            Err(e) => return Err(e),
        };
        let duration = match read_span(doc, "duration") {
            Ok(duration) => duration,
            Err(e) => return Err(e),
        };
        let description = match doc.member_text("description") {
            Ok(text) => text.clone(),
            Err(e) => return Err(e),
        };
        Ok(PrivateTariff { client_price, duration, description })
    }

    /// Encodes the tariff as a record where it is valid, and gives nothing
    /// where it is not.
    pub fn try_encode(&self) -> (out: Option<Value>)
        ensures
            match out {
                Some(doc) => self@.valid() && doc@ == encoded_private_tariff(self@),
                None => !self@.valid(),
            },
    {
        if self.is_valid() {
            Some(self.encode())
        } else {
            None
        }
    }

    /// Encodes the tariff as a record.
    pub fn encode(&self) -> (doc: Value)
        requires
            self@.valid(),
        ensures
            doc@ == encoded_private_tariff(self@),
    {
        let duration = self.duration.encode();
        let mut fields: Vec<Field> = Vec::new();
        fields.push(Field::new("client_price", Value::number(self.client_price)));
        fields.push(Field::new("duration", Value::text(duration.as_str())));
        fields.push(Field::new("description", Value::text(self.description.as_str())));
        let doc = Value::Record(fields);
        proof {
            assert(doc@->Record_0 =~= encoded_private_tariff(self@)->Record_0);
        }
        doc
    }
}

/// Decoding what was encoded gives the tariff back, for every valid private
/// tariff.
pub proof fn lemma_private_tariff_round_trip(tariff: PrivateTariffView)
    requires
        tariff.valid(),
    ensures
        decoded_private_tariff(encoded_private_tariff(tariff)) matches Ok(back) && back == tariff,
{
    lemma_tariff_names();
    let members = encoded_private_tariff(tariff)->Record_0;
    lemma_lookup_finds(members, "client_price"@, 0);
    lemma_lookup_finds(members, "duration"@, 1);
    lemma_lookup_finds(members, "description"@, 2);
}

/// A record that lacks a field of a private tariff does not decode: the
/// failure is `MissingField` where the fields before the lacking one are in
/// order.
pub proof fn lemma_private_tariff_missing_field(doc: Doc)
    ensures
        lacks(doc, "client_price"@) || lacks(doc, "duration"@) || lacks(doc, "description"@)
            ==> decoded_private_tariff(doc) is Err,
        lacks(doc, "client_price"@)
            ==> decoded_private_tariff(doc) matches Err(DecodeError::MissingField),
        lacks(doc, "duration"@) && doc.member_u32("client_price"@) is Ok
            ==> decoded_private_tariff(doc) matches Err(DecodeError::MissingField),
        lacks(doc, "description"@) && doc.member_u32("client_price"@) is Ok
            && member_span(doc, "duration"@) is Ok
            ==> decoded_private_tariff(doc) matches Err(DecodeError::MissingField),
{
    if lacks(doc, "client_price"@) {
        lemma_lacking_member(doc, "client_price"@);
    }
    if lacks(doc, "duration"@) {
        lemma_lacking_member(doc, "duration"@);
    }
    if lacks(doc, "description"@) {
        lemma_lacking_member(doc, "description"@);
    }
}

} // verus!
