//! The stream record: who streams, under which settings, where the stream
//! is shared, and at which tariffs.

use vstd::prelude::*;
use crate::document::{lacks, lemma_lacking_member, lemma_lookup_finds, Doc, Field, Value};
use crate::error::{decoded_view, DecodeError};
use crate::fields::{member_identifier, member_locator, read_identifier, read_locator};
use crate::identifier::{grouped_text, lemma_identifier_round_trip, Identifier};
use crate::locator::{is_normal_url, Locator};
use crate::tariff::{
    decoded_private_tariff, decoded_public_tariff, encoded_private_tariff, encoded_public_tariff,
    lemma_private_tariff_round_trip, lemma_public_tariff_round_trip, PrivateTariff,
    PrivateTariffView, PublicTariff, PublicTariffView,
};

verus! {

/// A live stream.
#[derive(Debug)]
pub struct Stream {
    pub user_id: Identifier,
    pub is_private: bool,
    /// Flags whose meaning lies with the caller.
    pub settings: u32,
    pub shared_url: Locator,
    pub public_tariff: PublicTariff,
    pub private_tariff: PrivateTariff,
}

/// A stream as a mathematical value.
pub ghost struct StreamView {
    pub user_id: Identifier,
    pub is_private: bool,
    pub settings: u32,
    pub shared_url: Seq<char>,
    pub public_tariff: PublicTariffView,
    pub private_tariff: PrivateTariffView,
}

impl StreamView {
    /// A valid stream is shared at a URL in normal form and has valid
    /// tariffs.
    pub open spec fn valid(self) -> bool {
        &&& is_normal_url(self.shared_url)
        &&& self.public_tariff.valid()
        &&& self.private_tariff.valid()
    }
}

impl View for Stream {
    type V = StreamView;

    open spec fn view(&self) -> StreamView {
        StreamView {
            user_id: self.user_id,
            is_private: self.is_private,
            settings: self.settings,
            shared_url: self.shared_url@,
            public_tariff: self.public_tariff@,
            private_tariff: self.private_tariff@,
        }
    }
}

impl Clone for Stream {
    /// A copy that is equal to what it copies.
    fn clone(&self) -> (copy: Stream)
        ensures
            copy@ == self@,
    {
        Stream {
            user_id: self.user_id,
            is_private: self.is_private,
            settings: self.settings,
            shared_url: self.shared_url.clone(),
            public_tariff: self.public_tariff.clone(),
            private_tariff: self.private_tariff.clone(),
        }
    }
}

impl PartialEq for Stream {
    /// Two streams are equal where all their fields are.
    fn eq(&self, other: &Stream) -> (equal: bool) {
        self.user_id == other.user_id && self.is_private == other.is_private && self.settings
            == other.settings && self.shared_url == other.shared_url && self.public_tariff
            == other.public_tariff && self.private_tariff == other.private_tariff
    }
}

impl vstd::std_specs::cmp::PartialEqSpecImpl for Stream {
    open spec fn obeys_eq_spec() -> bool {
        true
    }

    open spec fn eq_spec(&self, other: &Stream) -> bool {
        self@ == other@
    }
}

/// The public tariff that the member called `name` holds as a record.
pub open spec fn member_public_tariff(doc: Doc, name: Seq<char>) -> Result<
    PublicTariffView,
    DecodeError,
> {
    match doc.member(name) {
        Ok(found) => decoded_public_tariff(found),
        Err(e) => Err(e),
    }
}

/// The private tariff that the member called `name` holds as a record.
pub open spec fn member_private_tariff(doc: Doc, name: Seq<char>) -> Result<
    PrivateTariffView,
    DecodeError,
> {
    match doc.member(name) {
        Ok(found) => decoded_private_tariff(found),
        Err(e) => Err(e),
    }
}

/// What decoding `doc` as a stream gives: the fields are read in the order
/// `user_id`, `is_private`, `settings`, `shared_url`, `public_tariff`,
/// `private_tariff`, and the first failure is the outcome.
pub open spec fn decoded_stream(doc: Doc) -> Result<StreamView, DecodeError> {
    match member_identifier(doc, "user_id"@) {
        Err(e) => Err(e),
        Ok(user_id) => match doc.member_bool("is_private"@) {
            Err(e) => Err(e),
            Ok(is_private) => match doc.member_u32("settings"@) {
                Err(e) => Err(e),
                Ok(settings) => match member_locator(doc, "shared_url"@) {
                    Err(e) => Err(e),
                    Ok(shared_url) => match member_public_tariff(doc, "public_tariff"@) {
                        Err(e) => Err(e),
                        Ok(public_tariff) => match member_private_tariff(doc, "private_tariff"@) {
                            Err(e) => Err(e),
                            Ok(private_tariff) => Ok(
                                StreamView {
                                    user_id,
                                    is_private,
                                    settings,
                                    shared_url,
                                    public_tariff,
                                    private_tariff,
                                },
                            ),
                        },
                    },
                },
            },
        },
    }
}

/// The document of a stream: a record of its six fields under their names,
/// the identifier in its grouped form and the tariffs as records.
pub open spec fn encoded_stream(stream: StreamView) -> Doc {
    Doc::Record(
        seq![
            ("user_id"@, Doc::Text(grouped_text(stream.user_id.value as nat))),
            ("is_private"@, Doc::Bool(stream.is_private)),
            ("settings"@, Doc::Number(stream.settings as u64)),
            ("shared_url"@, Doc::Text(stream.shared_url)),
            ("public_tariff"@, encoded_public_tariff(stream.public_tariff)),
            ("private_tariff"@, encoded_private_tariff(stream.private_tariff)),
        ],
    )
}

impl Stream {
    /// Whether the stream is valid.
    pub fn is_valid(&self) -> (ok: bool)
        ensures
            ok == self@.valid(),
    {
        self.shared_url.is_valid() && self.public_tariff.is_valid()
            && self.private_tariff.is_valid()
    }

    /// Decodes a stream from a record.
    pub fn decode(doc: &Value) -> (out: Result<Stream, DecodeError>)
        ensures
            decoded_view(out) == decoded_stream(doc@),
            out matches Ok(stream) ==> stream@.valid(),
    {
        let user_id = match read_identifier(doc, "user_id") {
            Ok(id) => id,
            Err(e) => return Err(e),
        };
        let is_private = match doc.member_bool("is_private") {
            Ok(flag) => flag,
            Err(e) => return Err(e),
        };
        let settings = match doc.member_u32("settings") {
            Ok(settings) => settings,
            Err(e) => return Err(e),
        };
        let shared_url = match read_locator(doc, "shared_url") {
            Ok(url) => url,
            Err(e) => return Err(e),
        };
        let public_tariff = match doc.member("public_tariff") {
            Ok(found) => match PublicTariff::decode(found) {
                Ok(tariff) => tariff,
                Err(e) => return Err(e),
            },
            Err(e) => return Err(e),
        };
        let private_tariff = match doc.member("private_tariff") {
            Ok(found) => match PrivateTariff::decode(found) {
                Ok(tariff) => tariff,
                Err(e) => return Err(e),
            },
            Err(e) => return Err(e),
        };
        Ok(Stream { user_id, is_private, settings, shared_url, public_tariff, private_tariff })
    }

    /// Encodes the stream as a record where it is valid, and gives nothing
    /// where it is not.
    pub fn try_encode(&self) -> (out: Option<Value>)
        ensures
            match out {
                Some(doc) => self@.valid() && doc@ == encoded_stream(self@),
                None => !self@.valid(),
            },
    {
        if self.is_valid() {
            Some(self.encode())
        } else {
            None
        }
    }

    /// Encodes the stream as a record.
    pub fn encode(&self) -> (doc: Value)
        requires
            self@.valid(),
        ensures
            doc@ == encoded_stream(self@),
    {
        let user_id = self.user_id.encode();
        let shared_url = self.shared_url.encode();
        let mut fields: Vec<Field> = Vec::new();
        fields.push(Field::new("user_id", Value::text(user_id.as_str())));
        fields.push(Field::new("is_private", Value::boolean(self.is_private)));
        fields.push(Field::new("settings", Value::number(self.settings)));
        fields.push(Field::new("shared_url", Value::text(shared_url.as_str())));
        fields.push(Field::new("public_tariff", self.public_tariff.encode()));
        fields.push(Field::new("private_tariff", self.private_tariff.encode()));
        let doc = Value::Record(fields);
        proof {
            assert(doc@->Record_0 =~= encoded_stream(self@)->Record_0);
        }
        doc
    }
}

/// The names of a stream's fields differ from one another.
proof fn lemma_stream_names()
    ensures
        "user_id"@.len() == 7,
        "is_private"@.len() == 10,
        "settings"@.len() == 8,
        "shared_url"@.len() == 10,
        "public_tariff"@.len() == 13,
        "private_tariff"@.len() == 14,
        "is_private"@[0] == 'i',
        "shared_url"@[0] == 's',
{
    reveal_strlit("user_id");
    reveal_strlit("is_private");
    reveal_strlit("settings");
    reveal_strlit("shared_url");
    reveal_strlit("public_tariff");
    reveal_strlit("private_tariff");
}

/// Decoding what was encoded gives the stream back, for every valid stream.
pub proof fn lemma_stream_round_trip(stream: StreamView)
    requires
        stream.valid(),
    ensures
        decoded_stream(encoded_stream(stream)) == Ok::<StreamView, DecodeError>(stream),
{
    lemma_stream_names();
    lemma_identifier_round_trip(stream.user_id);
    lemma_public_tariff_round_trip(stream.public_tariff);
    lemma_private_tariff_round_trip(stream.private_tariff);
    let members = encoded_stream(stream)->Record_0;
    lemma_lookup_finds(members, "user_id"@, 0);
    lemma_lookup_finds(members, "is_private"@, 1);
    lemma_lookup_finds(members, "settings"@, 2);
    lemma_lookup_finds(members, "shared_url"@, 3);
    lemma_lookup_finds(members, "public_tariff"@, 4);
    lemma_lookup_finds(members, "private_tariff"@, 5);
}

/// A record that lacks a field of a stream does not decode: the failure is
/// `MissingField` where the fields before the lacking one are in order.
pub proof fn lemma_stream_missing_field(doc: Doc)
    ensures
        lacks(doc, "user_id"@) || lacks(doc, "is_private"@) || lacks(doc, "settings"@)
            || lacks(doc, "shared_url"@) || lacks(doc, "public_tariff"@)
            || lacks(doc, "private_tariff"@)
            ==> decoded_stream(doc) is Err,
        lacks(doc, "user_id"@) ==> decoded_stream(doc) matches Err(DecodeError::MissingField),
        lacks(doc, "is_private"@) && member_identifier(doc, "user_id"@) is Ok
            ==> decoded_stream(doc) matches Err(DecodeError::MissingField),
        lacks(doc, "settings"@) && member_identifier(doc, "user_id"@) is Ok
            && doc.member_bool("is_private"@) is Ok
            ==> decoded_stream(doc) matches Err(DecodeError::MissingField),
        lacks(doc, "shared_url"@) && member_identifier(doc, "user_id"@) is Ok
            && doc.member_bool("is_private"@) is Ok && doc.member_u32("settings"@) is Ok
            ==> decoded_stream(doc) matches Err(DecodeError::MissingField),
        lacks(doc, "public_tariff"@) && member_identifier(doc, "user_id"@) is Ok
            && doc.member_bool("is_private"@) is Ok && doc.member_u32("settings"@) is Ok
            && member_locator(doc, "shared_url"@) is Ok
            ==> decoded_stream(doc) matches Err(DecodeError::MissingField),
        lacks(doc, "private_tariff"@) && member_identifier(doc, "user_id"@) is Ok
            && doc.member_bool("is_private"@) is Ok && doc.member_u32("settings"@) is Ok
            && member_locator(doc, "shared_url"@) is Ok
            && member_public_tariff(doc, "public_tariff"@) is Ok
            ==> decoded_stream(doc) matches Err(DecodeError::MissingField),
{
    if lacks(doc, "user_id"@) {
        lemma_lacking_member(doc, "user_id"@);
    }
    if lacks(doc, "is_private"@) {
        lemma_lacking_member(doc, "is_private"@);
    }
    if lacks(doc, "settings"@) {
        lemma_lacking_member(doc, "settings"@);
    }
    if lacks(doc, "shared_url"@) {
        lemma_lacking_member(doc, "shared_url"@);
    }
    if lacks(doc, "public_tariff"@) {
        lemma_lacking_member(doc, "public_tariff"@);
    }
    if lacks(doc, "private_tariff"@) {
        lemma_lacking_member(doc, "private_tariff"@);
    }
}

} // verus!
