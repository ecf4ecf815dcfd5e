//! Time spans and their written form, a row of counts with units such as
//! `2h 37m` or `234ms`.

use vstd::prelude::*;
use vstd::utf8::{encode_scalar, encode_utf8};
use crate::error::DecodeError;

verus! {

/// The nanoseconds in one second.
pub const NANOS_PER_SEC: u32 = 1_000_000_000;

/// The largest digit load of a text that is handed to the parser: the whole
/// years, of 31 557 600 seconds each, in the largest count of seconds that 64
/// bits hold.
pub const MAX_DIGIT_LOAD: u64 = 584_542_046_090;

/// A time span that is not negative: whole seconds and the nanoseconds of the
/// second that has begun.
#[derive(Clone, Copy, Debug, PartialEq, Eq, Structural)]
pub struct Span {
    pub secs: u64,
    pub nanos: u32,
}

/// The span that the parser reads from a text, where it reads one.
pub uninterp spec fn span_of_text(text: Seq<char>) -> Option<Span>;

/// The text that the formatter writes for a span.
pub uninterp spec fn text_of_span(span: Span) -> Seq<char>;

/// Whether `c` is a decimal digit.
pub open spec fn is_digit(c: char) -> bool {
    '0' <= c <= '9'
}

/// Whether `c` ends the number before it: a letter or a full stop.
pub open spec fn ends_number(c: char) -> bool {
    ('A' <= c <= 'Z') || ('a' <= c <= 'z') || c == '.'
}

/// The digit load of `text`, where the digits read before it since the last
/// letter or full stop spell `run`, and the numbers ended before them add up
/// to `sum`.
pub open spec fn digit_load_from(text: Seq<char>, run: nat, sum: nat) -> nat
    decreases text.len(),
{
    if text.len() == 0 {
        sum + run
    } else if is_digit(text[0]) {
        digit_load_from(text.drop_first(), run * 10 + (text[0] as int - '0' as int) as nat, sum)
    } else if ends_number(text[0]) {
        digit_load_from(text.drop_first(), 0, sum + run)
    } else {
        digit_load_from(text.drop_first(), run, sum)
    }
}

/// The digit load of a text: the sum of the numbers that its digits spell,
/// where a number goes on until a letter or a full stop ends it, whatever
/// else stands between its digits.
pub open spec fn digit_load(text: Seq<char>) -> nat {
    digit_load_from(text, 0, 0)
}

/// Whether the numbers in `text` are small enough for the parser: even if
/// each of them counted years, the longest unit, the span would stay below
/// the largest count of seconds.
pub open spec fn span_text_in_range(text: Seq<char>) -> bool {
    digit_load(text) <= MAX_DIGIT_LOAD
}

impl Span {
    /// A valid span has fewer nanoseconds than a second holds, and its written
    /// form is in range and reads back as the span itself.
    pub open spec fn valid(self) -> bool {
        &&& self.nanos < NANOS_PER_SEC
        &&& span_text_in_range(text_of_span(self))
        &&& span_of_text(text_of_span(self)) == Some(self)
    }
}

/// What decoding `text` as a span gives: the span that the parser reads from
/// it, where the text is in range, the parser reads a span and that span is
/// valid; a failure everywhere else.
pub open spec fn decoded_span(text: Seq<char>) -> Result<Span, DecodeError> {
    if !span_text_in_range(text) {
        Err(DecodeError::FormatError)
    } else {
        match span_of_text(text) {
            Some(span) if span.valid() => Ok(span),
            _ => Err(DecodeError::FormatError),
        }
    }
}

/// `humantime::parse_duration`, with the span split into `Duration::as_secs`
/// and `Duration::subsec_nanos`.
///
/// The parser adds up seconds with checked arithmetic, but hands a full
/// second of nanoseconds on to `Duration::new`, which panics where the
/// seconds are already at their largest. A text in range cannot bring the
/// seconds there: the parser takes each count from digits that only white
/// space parts, so every count lies within one number of the digit load, and
/// no unit is longer than a year. What it reads depends on the text alone.
#[verifier::external_body]
fn parse_span(text: &str) -> (out: Option<Span>)
    requires
        span_text_in_range(text@),
    ensures
        out == span_of_text(text@),
{
    humantime::parse_duration(text).ok().map(
        |d| Span { secs: d.as_secs(), nanos: d.subsec_nanos() },
    )
}

/// `humantime::format_duration` on `Duration::new`, and its `to_string`.
///
/// `Duration::new` panics only where nanoseconds carry over into seconds that
/// are at their largest; with less than a second of them nothing carries.
/// What is written depends on the span alone.
#[verifier::external_body]
fn format_span(span: Span) -> (text: String)
    requires
        span.nanos < NANOS_PER_SEC,
    ensures
        text@ == text_of_span(span),
{
    humantime::format_duration(std::time::Duration::new(span.secs, span.nanos)).to_string()
}

/// The digit load as it is read from the bytes of a text in UTF-8: the
/// digits, the letters and the full stop are bytes below 128, and every other
/// byte is passed over.
spec fn byte_load_from(bytes: Seq<u8>, run: nat, sum: nat) -> nat
    decreases bytes.len(),
{
    if bytes.len() == 0 {
        sum + run
    } else if 48 <= bytes[0] <= 57 {
        byte_load_from(bytes.drop_first(), run * 10 + (bytes[0] - 48) as nat, sum)
    } else if (65 <= bytes[0] <= 90) || (97 <= bytes[0] <= 122) || bytes[0] == 46 {
        byte_load_from(bytes.drop_first(), 0, sum + run)
    } else {
        byte_load_from(bytes.drop_first(), run, sum)
    }
}

/// Bytes from 128 on change nothing in the load.
proof fn lemma_high_bytes_pass(head: Seq<u8>, tail: Seq<u8>, run: nat, sum: nat)
    requires
        forall|i: int| 0 <= i < head.len() ==> #[trigger] head[i] >= 128,
    ensures
        byte_load_from(head + tail, run, sum) == byte_load_from(tail, run, sum),
    decreases head.len(),
{
    if head.len() > 0 {
        assert((head + tail).drop_first() =~= head.drop_first() + tail);
        lemma_high_bytes_pass(head.drop_first(), tail, run, sum);
    }
}

/// A character below 128 is one byte in UTF-8, the byte of its own number;
/// every other character is a row of bytes from 128 on.
proof fn lemma_bytes_of_char(c: char)
    ensures
        c as u32 <= 0x7f ==> encode_scalar(c as u32) =~= seq![c as u8],
        c as u32 > 0x7f ==> forall|i: int|
            0 <= i < encode_scalar(c as u32).len() ==> #[trigger] encode_scalar(c as u32)[i] >= 128,
{
    let v = c as u32;
    if v <= 0x7f {
        assert((v & 0x7F) as u8 == v as u8) by (bit_vector)
            requires
                v <= 0x7f,
        ;
    } else {
        assert(0xC0u8 | ((v >> 6) & 0x1F) as u8 >= 128) by (bit_vector);
        assert(0xE0u8 | ((v >> 12) & 0x0F) as u8 >= 128) by (bit_vector);
        assert(0xF0u8 | ((v >> 18) & 0x7) as u8 >= 128) by (bit_vector);
        assert(0x80u8 | (v & 0x3F) as u8 >= 128) by (bit_vector);
        assert(0x80u8 | ((v >> 6) & 0x3F) as u8 >= 128) by (bit_vector);
        assert(0x80u8 | ((v >> 12) & 0x3F) as u8 >= 128) by (bit_vector);
    }
}

/// A character below 128 has the number of its byte.
proof fn lemma_low_char(c: char)
    requires
        c as u32 <= 0x7f,
    ensures
        (c as u8) as int == c as int,
{
}

/// Reading the load from the bytes of a text in UTF-8 gives the digit load
/// of the text.
proof fn lemma_byte_load_is_digit_load(text: Seq<char>, run: nat, sum: nat)
    ensures
        byte_load_from(encode_utf8(text), run, sum) == digit_load_from(text, run, sum),
    decreases text.len(),
{
    if text.len() > 0 {
        let c = text[0];
        let head = encode_scalar(c as u32);
        let tail = encode_utf8(text.drop_first());
        lemma_bytes_of_char(c);
        if c as u32 <= 0x7f {
            lemma_low_char(c);
            assert((head + tail).drop_first() =~= tail);
            if is_digit(c) {
                let digit = (c as int - '0' as int) as nat;
                lemma_byte_load_is_digit_load(text.drop_first(), run * 10 + digit, sum);
            } else if ends_number(c) {
                lemma_byte_load_is_digit_load(text.drop_first(), 0, sum + run);
            } else {
                lemma_byte_load_is_digit_load(text.drop_first(), run, sum);
            }
        } else {
            lemma_high_bytes_pass(head, tail, run, sum);
            lemma_byte_load_is_digit_load(text.drop_first(), run, sum);
        }
    }
}

/// The load of the bytes never falls below what has been read so far.
proof fn lemma_byte_load_grows(bytes: Seq<u8>, run: nat, sum: nat)
    ensures
        byte_load_from(bytes, run, sum) >= sum + run,
    decreases bytes.len(),
{
    if bytes.len() > 0 {
        if 48 <= bytes[0] <= 57 {
            lemma_byte_load_grows(bytes.drop_first(), run * 10 + (bytes[0] - 48) as nat, sum);
        } else if (65 <= bytes[0] <= 90) || (97 <= bytes[0] <= 122) || bytes[0] == 46 {
            lemma_byte_load_grows(bytes.drop_first(), 0, sum + run);
        } else {
            lemma_byte_load_grows(bytes.drop_first(), run, sum);
        }
    }
}

/// Whether the numbers in `text` are small enough for the parser.
pub fn is_span_text_in_range(text: &str) -> (ok: bool)
    ensures
        ok == span_text_in_range(text@),
{
    let bytes = text.as_bytes();
    let ghost all = encode_utf8(text@);
    let mut run: u64 = 0;
    let mut sum: u64 = 0;
    let mut at: usize = 0;
    proof {
        lemma_byte_load_is_digit_load(text@, 0, 0);
        assert(all.subrange(0, all.len() as int) =~= all);
    }
    while at < bytes.len()
        invariant
            bytes@ == all,
            at <= bytes.len(),
            run <= MAX_DIGIT_LOAD,
            sum <= MAX_DIGIT_LOAD,
            digit_load(text@) == byte_load_from(
                all.subrange(at as int, all.len() as int),
                run as nat,
                sum as nat,
            ),
        decreases bytes.len() - at,
    {
        let b: u8 = bytes[at];
        proof {
            let rest = all.subrange(at as int, all.len() as int);
            assert(rest.drop_first() =~= all.subrange(at + 1, all.len() as int));
        }
        if 48 <= b && b <= 57 {
            let digit: u64 = (b - 48) as u64;
            run = run * 10 + digit;
            if run > MAX_DIGIT_LOAD {
                proof {
                    lemma_byte_load_grows(
                        all.subrange(at + 1, all.len() as int),
                        run as nat,
                        sum as nat,
                    );
                }
                return false;
            }
        } else if (65 <= b && b <= 90) || (97 <= b && b <= 122) || b == 46 {
            sum = sum + run;
            run = 0;
            if sum > MAX_DIGIT_LOAD {
                proof {
                    lemma_byte_load_grows(all.subrange(at + 1, all.len() as int), 0, sum as nat);
                }
                return false;
            }
        }
        at = at + 1;
    }
    sum + run <= MAX_DIGIT_LOAD
}

/// Settles a decode once the span has been written and read again: the span
/// is admitted where the second reading gave the same span, and refused
/// everywhere else.
pub fn admit_span(span: Span, reread: Option<Span>) -> (out: Result<Span, DecodeError>)
    ensures
        out == if reread == Some(span) {
            Ok::<Span, DecodeError>(span)
        } else {
            Err(DecodeError::FormatError)
        },
{
    match reread {
        Some(again) if again.secs == span.secs && again.nanos == span.nanos => Ok(span),
        _ => Err(DecodeError::FormatError),
    }
}

impl Span {
    /// The span of `millis` milliseconds.
    pub fn from_millis(millis: u64) -> (span: Span)
        ensures
            span.secs == millis / 1000,
            span.nanos == (millis % 1000) * 1_000_000,
    {
        Span { secs: millis / 1000, nanos: ((millis % 1000) as u32) * 1_000_000 }
    }

    /// Whether the span is valid: it is written and read again, and must
    /// come back as it was.
    pub fn is_valid(&self) -> (ok: bool)
        ensures
            ok == self.valid(),
    {
        if self.nanos >= NANOS_PER_SEC {
            return false;
        }
        let written = format_span(*self);
        if !is_span_text_in_range(written.as_str()) {
            return false;
        }
        let reread = parse_span(written.as_str());
        admit_span(*self, reread).is_ok()
    }

    /// Decodes a span from its written form. A text that is out of range, that
    /// the parser does not read, or whose span is not valid, is refused.
    pub fn decode(text: &str) -> (out: Result<Span, DecodeError>)
        ensures
            out == decoded_span(text@),
    {
        if !is_span_text_in_range(text) {
            return Err(DecodeError::FormatError);
        }
        match parse_span(text) {
            Some(span) => {
                if span.is_valid() {
                    Ok(span)
                } else {
                    Err(DecodeError::FormatError)
                }
            },
            None => Err(DecodeError::FormatError),
        }
    }

    /// Encodes the span in its written form.
    pub fn encode(&self) -> (text: String)
        requires
            self.nanos < NANOS_PER_SEC,
        ensures
            text@ == text_of_span(*self),
    {
        format_span(*self)
    }
}

/// Decoding what was encoded gives the span back, for every valid span.
pub proof fn lemma_span_round_trip(span: Span)
    requires
        span.valid(),
    ensures
        decoded_span(text_of_span(span)) == Ok::<Span, DecodeError>(span),
{
}

/// A text that decodes gives a span whose written form decodes to the same
/// span: the text may change, the value does not.
pub proof fn lemma_span_stable(text: Seq<char>)
    ensures
        decoded_span(text) matches Ok(span) ==> span.valid() && decoded_span(text_of_span(span))
            == decoded_span(text),
{
}

} // verus!

