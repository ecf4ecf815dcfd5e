//! The ways in which decoding a document can fail.

use vstd::prelude::*;

verus! {

/// Why a document, or one value in it, could not be decoded.
///
/// A decode stops at its first failure and reports that one alone.
#[derive(Clone, Copy, Debug, PartialEq, Eq, Structural)]
pub enum DecodeError {
    /// The text of a time span or of a timestamp does not follow its grammar.
    FormatError,
    /// The text is not a unique identifier in the grouped 8-4-4-4-12 form.
    InvalidIdentifier,
    /// The text is not an absolute URL.
    InvalidUrl,
    /// A record lacks a field that its schema requires.
    MissingField,
    /// A value is of another kind than the schema declares.
    TypeMismatch,
    /// The text names no variant of a closed enumeration.
    UnknownVariant,
}

impl DecodeError {
    /// A short description of the failure, for messages.
    pub fn describe(&self) -> (text: &'static str)
        ensures
            text@ == describe_spec(*self),
    {
        match self {
            DecodeError::FormatError => "text does not follow the expected grammar",
            DecodeError::InvalidIdentifier => "not a unique identifier in grouped form",
            DecodeError::InvalidUrl => "not an absolute URL",
            DecodeError::MissingField => "a required field is missing",
            DecodeError::TypeMismatch => "a value has the wrong type",
            DecodeError::UnknownVariant => "unknown variant of an enumeration",
        }
    }
}

/// The description that belongs to each failure.
pub open spec fn describe_spec(error: DecodeError) -> Seq<char> {
    match error {
        DecodeError::FormatError => "text does not follow the expected grammar"@,
        DecodeError::InvalidIdentifier => "not a unique identifier in grouped form"@,
        DecodeError::InvalidUrl => "not an absolute URL"@,
        DecodeError::MissingField => "a required field is missing"@,
        DecodeError::TypeMismatch => "a value has the wrong type"@,
        DecodeError::UnknownVariant => "unknown variant of an enumeration"@,
    }
}

/// The outcome of a decode, with the decoded value taken by its view.
pub open spec fn decoded_view<T: View>(out: Result<T, DecodeError>) -> Result<T::V, DecodeError> {
    match out {
        Ok(value) => Ok(value@),
        Err(e) => Err(e),
    }
}

} // verus!
