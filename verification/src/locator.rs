//! Locators: absolute URLs, kept in their normal form.

use vstd::prelude::*;
use crate::error::{decoded_view, DecodeError};
use crate::text::text_view;

verus! {

/// An absolute URL, held as its normal form.
#[derive(Debug)]
pub struct Locator {
    pub text: String,
}

impl View for Locator {
    type V = Seq<char>;

    open spec fn view(&self) -> Seq<char> {
        self.text@
    }
}

/// The normal form of the URL that the parser reads from a text, where it
/// reads one.
pub uninterp spec fn url_normal_form(text: Seq<char>) -> Option<Seq<char>>;

/// Whether `text` holds no colon. Such a text has no scheme, and is no
/// absolute URL.
pub open spec fn lacks_colon(text: Seq<char>) -> bool {
    forall|i: int| 0 <= i < text.len() ==> text[i] != ':'
}

/// Whether `text` is a URL in normal form: the parser reads it, and writes
/// it as it stands.
pub open spec fn is_normal_url(text: Seq<char>) -> bool {
    url_normal_form(text) == Some(text)
}

impl Locator {
    /// A valid locator holds a URL in normal form.
    pub open spec fn valid(&self) -> bool {
        is_normal_url(self@)
    }
}

/// What decoding `text` as a locator gives: the normal form of the URL that
/// the parser reads from it, where it reads one and that form is stable; a
/// failure everywhere else.
pub open spec fn decoded_locator(text: Seq<char>) -> Result<Seq<char>, DecodeError> {
    match url_normal_form(text) {
        Some(normal) if is_normal_url(normal) => Ok(normal),
        _ => Err(DecodeError::InvalidUrl),
    }
}

/// `url::Url::parse`, and the text of the URL as `String::from` gives it.
///
/// The parser takes absolute URLs only: it reads a scheme up to the first
/// colon and refuses a text in which it finds none, as it does any text that
/// the URL grammar does not admit. What it writes is the URL with its parts
/// normalized, and depends on the text alone.
#[verifier::external_body]
fn normalize_url(text: &str) -> (out: Option<String>)
    ensures
        text_view(out) == url_normal_form(text@),
        lacks_colon(text@) ==> out is None,
{
    url::Url::parse(text).ok().map(String::from)
}

/// Settles a decode once the normal form has been read again: it is admitted
/// as a locator where the second reading wrote the same text, and refused
/// everywhere else.
pub fn admit_locator(normal: String, reread: Option<String>) -> (out: Result<Locator, DecodeError>)
    ensures
        match out {
            Ok(locator) => locator@ == normal@ && text_view(reread) == Some(normal@),
            Err(e) => e == DecodeError::InvalidUrl && text_view(reread) != Some(normal@),
        },
{
    match reread {
        Some(again) => {
            if again == normal {
                Ok(Locator { text: normal })
            } else {
                Err(DecodeError::InvalidUrl)
            }
        },
        None => Err(DecodeError::InvalidUrl),
    }
}

impl Locator {
    /// Decodes a locator from the text of a URL. A text that is no absolute
    /// URL, or whose normal form would not read back as itself, is refused.
    pub fn decode(text: &str) -> (out: Result<Locator, DecodeError>)
        ensures
            decoded_view(out) == decoded_locator(text@),
            out matches Ok(locator) ==> locator.valid(),
            lacks_colon(text@) ==> out matches Err(DecodeError::InvalidUrl),
    {
        match normalize_url(text) {
            None => Err(DecodeError::InvalidUrl),
            Some(normal) => {
                let reread = normalize_url(normal.as_str());
                admit_locator(normal, reread)
            },
        }
    }

    /// Whether the locator is valid: its text is read as a URL, and must be
    /// written as it stands.
    pub fn is_valid(&self) -> (ok: bool)
        ensures
            ok == self.valid(),
    {
        match normalize_url(self.text.as_str()) {
            Some(again) => again == self.text,
            None => false,
        }
    }

    /// Encodes the locator as the text of its URL.
    pub fn encode(&self) -> (text: String)
        ensures
            text@ == self@,
    {
        self.text.clone()
    }
}

impl Clone for Locator {
    /// A copy that is equal to what it copies.
    fn clone(&self) -> (copy: Locator)
        ensures
            copy@ == self@,
    {
        Locator { text: self.text.clone() }
    }
}

impl PartialEq for Locator {
    /// Two locators are equal where they hold the same URL.
    fn eq(&self, other: &Locator) -> (equal: bool) {
        self.text == other.text
    }
}

impl vstd::std_specs::cmp::PartialEqSpecImpl for Locator {
    open spec fn obeys_eq_spec() -> bool {
        true
    }

    open spec fn eq_spec(&self, other: &Locator) -> bool {
        self@ == other@
    }
}

/// Decoding what was encoded gives the locator back, for every valid
/// locator.
pub proof fn lemma_locator_round_trip(url: Seq<char>)
    requires
        is_normal_url(url),
    ensures
        decoded_locator(url) == Ok::<Seq<char>, DecodeError>(url),
{
}

/// A text that decodes gives a locator whose text decodes to the same
/// locator: the text may change, the URL does not.
pub proof fn lemma_locator_stable(text: Seq<char>)
    ensures
        decoded_locator(text) matches Ok(url) ==> decoded_locator(url) == decoded_locator(text),
{
}

} // verus!
