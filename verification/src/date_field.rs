//! The codec of the event's date field: a raw date is written behind a fixed
//! tag, and read back by taking that tag off again.

use vstd::prelude::*;

verus! {

/// The tag that stands before a date in its written form.
pub open spec fn date_tag() -> Seq<char> {
    seq!['D', 'a', 't', 'e', ':', ' ']
}

/// Whether `text` begins with the tag.
pub open spec fn has_date_tag(text: Seq<char>) -> bool {
    text.len() >= date_tag().len() && text.subrange(0, date_tag().len() as int) == date_tag()
}

/// The written form of a raw date: the tag, then the date.
pub open spec fn tagged(date: Seq<char>) -> Seq<char> {
    date_tag() + date
}

/// The raw date of a written form: what follows the tag where the text begins
/// with it, and the whole text where it does not.
pub open spec fn untagged(text: Seq<char>) -> Seq<char> {
    if has_date_tag(text) {
        text.subrange(date_tag().len() as int, text.len() as int)
    } else {
        text
    }
}

/// Writes a raw date: the tag is put in front of it, whatever it holds.
pub fn serialize_date(date: &str) -> (text: String)
    ensures
        text@ == tagged(date@),
{
    proof {
        reveal_strlit("Date: ");
    }
    String::from_str("Date: ").concat(date)
}

/// Reads a written date: one tag is taken off the front where there is one,
/// and a text without the tag passes through unchanged.
pub fn deserialize_date(data: &str) -> (date: String)
    ensures
        date@ == untagged(data@),
{
    let n: usize = data.unicode_len();
    if n >= 6 && data.get_char(0) == 'D' && data.get_char(1) == 'a' && data.get_char(2) == 't'
        && data.get_char(3) == 'e' && data.get_char(4) == ':' && data.get_char(5) == ' ' {
        proof {
            assert(data@.subrange(0, 6) =~= date_tag());
        }
        data.substring_char(6, n).to_owned()
    } else {
        data.to_owned()
    }
}

/// Reading what was written gives the raw date back, for every date.
pub proof fn lemma_read_after_write(date: Seq<char>)
    ensures
        untagged(tagged(date)) == date,
{
    let text = tagged(date);
    assert(text.subrange(0, 6) =~= date_tag());
}

/// Writing what was read gives the text back exactly when the text began
/// with the tag: a text without the tag comes back with one in front.
pub proof fn lemma_write_after_read(text: Seq<char>)
    ensures
        tagged(untagged(text)) == text <==> has_date_tag(text),
{
    if has_date_tag(text) {
        assert(tagged(untagged(text)) =~= text);
    }
}

} // verus!
