//! The envelope codec: bytes to and from base64 text, in the standard
//! alphabet with `=` padding.
//!
//! Encoding is stated in full by [`envelope_encoding`]. Decoding is stated by
//! [`envelope_decoding`]: which texts decode, and to what, is stated in full;
//! what is said of a text that does not decode is the decoder's own.

use crate::alphabet::{is_symbol, symbol, PAD};
use crate::envelope_laws::{
    lemma_decoding_inverts_encoding, lemma_decoding_of_text, lemma_encoding_form,
    lemma_encoding_len, lemma_text_form,
};
use bitcoin::base64::DecodeError;
use vstd::prelude::*;

verus! {

/// Why a text is no base64. The three kinds, and what each carries, are those
/// of the decoder's own diagnostic.
#[derive(Debug, Clone, Copy, PartialEq, Eq)]
pub enum EnvelopeError {
    /// A byte that may not stand where it stands: its offset among the bytes
    /// of the text, and the byte.
    InvalidByte(usize, u8),
    /// The text has a length that no encoding has.
    InvalidLength,
    /// The last symbol holds bits that belong to no byte: its offset among the
    /// bytes of the text, and the symbol.
    InvalidLastSymbol(usize, u8),
}

/// The four characters that stand for three bytes.
pub open spec fn quad(b0: u8, b1: u8, b2: u8) -> Seq<char> {
    seq![
        symbol(b0 as int / 4),
        symbol(b0 as int % 4 * 16 + b1 as int / 16),
        symbol(b1 as int % 16 * 4 + b2 as int / 64),
        symbol(b2 as int % 64),
    ]
}

/// The text of a byte sequence: every three bytes become four symbols, and a
/// last group of one or two bytes is filled up to four characters with `=`.
pub open spec fn envelope_encoding(bytes: Seq<u8>) -> Seq<char>
    decreases bytes.len(),
{
    if bytes.len() == 0 {
        Seq::empty()
    } else if bytes.len() == 1 {
        quad(bytes[0], 0, 0).take(2) + seq![PAD, PAD]
    } else if bytes.len() == 2 {
        quad(bytes[0], bytes[1], 0).take(3) + seq![PAD]
    } else {
        quad(bytes[0], bytes[1], bytes[2]) + envelope_encoding(bytes.skip(3))
    }
}

/// Whether a text holds a character that is neither a symbol of the alphabet
/// nor the padding character.
pub open spec fn has_foreign_char(text: Seq<char>) -> bool {
    exists|i: int| 0 <= i < text.len() && !is_symbol(#[trigger] text[i]) && text[i] != PAD
}

/// The form of every text that encoding gives: whole groups of four
/// characters, all of them symbols but for one or two `=` at the very end.
pub open spec fn is_envelope_text(text: Seq<char>) -> bool {
    &&& text.len() % 4 == 0
    &&& forall|i: int|
        0 <= i < text.len() ==> {
            ||| is_symbol(#[trigger] text[i])
            ||| text[i] == PAD && i == text.len() - 1
            ||| text[i] == PAD && i == text.len() - 2 && text[i + 1] == PAD
        }
}

/// Whether a text is the encoding of some byte sequence.
pub open spec fn is_canonical(text: Seq<char>) -> bool {
    exists|bytes: Seq<u8>| envelope_encoding(bytes) == text
}

/// Whether a text carries a byte sequence: it is the encoding of the bytes,
/// whole or with padding left out at its end.
pub open spec fn is_text_of(text: Seq<char>, bytes: Seq<u8>) -> bool {
    let whole = envelope_encoding(bytes);
    &&& text.len() <= whole.len()
    &&& text == whole.take(text.len() as int)
    &&& forall|i: int| text.len() <= i < whole.len() ==> #[trigger] whole[i] == PAD
}

/// Whether a text carries some byte sequence.
pub open spec fn is_decodable(text: Seq<char>) -> bool {
    exists|bytes: Seq<u8>| is_text_of(text, bytes)
}

/// The bytes that a decodable text carries.
pub open spec fn payload_of(text: Seq<char>) -> Seq<u8> {
    choose|bytes: Seq<u8>| is_text_of(text, bytes)
}

/// What `bitcoin::base64::decode` says of a text that it refuses, held as an
/// [`EnvelopeError`].
pub uninterp spec fn base64_diagnostic(text: Seq<char>) -> EnvelopeError;

/// What decoding a text yields: the bytes that the text carries, or the
/// decoder's diagnostic where it carries none.
pub open spec fn envelope_decoding(text: Seq<char>) -> Result<Seq<u8>, EnvelopeError> {
    if is_decodable(text) {
        Ok(payload_of(text))
    } else {
        Err(base64_diagnostic(text))
    }
}

/// A decoding outcome with its bytes as a sequence.
pub open spec fn outcome_view(outcome: Result<Vec<u8>, EnvelopeError>) -> Result<
    Seq<u8>,
    EnvelopeError,
> {
    match outcome {
        Ok(bytes) => Ok(bytes@),
        Err(cause) => Err(cause),
    }
}

/// Calls `bitcoin::base64::encode`, the encoder of the `base64` crate in its
/// standard configuration. Trusted: the text it returns is the one that
/// [`envelope_encoding`] describes. The encoder works out the text's length
/// in checked arithmetic; a slice holds at most `isize::MAX` bytes, so that
/// never overflows.
#[verifier::external_body]
fn base64_encode(bytes: &[u8]) -> (text: String)
    ensures
        text@ == envelope_encoding(bytes@),
{
    bitcoin::base64::encode(bytes)
}

/// Calls `bitcoin::base64::decode`, the decoder of the `base64` crate in its
/// standard configuration, and holds its diagnostic as an [`EnvelopeError`],
/// variant for variant. Trusted: the decoder takes every text that is an
/// encoding, whole or with padding left out at its end, and no other; from a
/// text that it takes it returns the encoded bytes; what it says of a text
/// that it refuses is a function of the text.
#[verifier::external_body]
fn base64_decode(text: &str) -> (outcome: Result<Vec<u8>, EnvelopeError>)
    ensures
        is_decodable(text@) ==> outcome is Ok,
        outcome is Ok ==> is_text_of(text@, outcome->Ok_0@),
        outcome is Err ==> outcome->Err_0 == base64_diagnostic(text@),
{
    match bitcoin::base64::decode(text) {
        Ok(bytes) => Ok(bytes),
        Err(DecodeError::InvalidByte(offset, byte)) => Err(EnvelopeError::InvalidByte(offset, byte)),
        Err(DecodeError::InvalidLength) => Err(EnvelopeError::InvalidLength),
        Err(DecodeError::InvalidLastSymbol(offset, byte)) => Err(
            EnvelopeError::InvalidLastSymbol(offset, byte),
        ),
    }
}

/// Encodes bytes as text. Every byte sequence has a text, the empty one the
/// empty text; the text has the form of an envelope text and decodes to the
/// bytes.
pub fn encode_envelope(bytes: &[u8]) -> (text: String)
    ensures
        text@ == envelope_encoding(bytes@),
        text@.len() == 4 * ((bytes@.len() + 2) / 3),
        is_envelope_text(text@),
        envelope_decoding(text@) == Ok::<Seq<u8>, EnvelopeError>(bytes@),
{
    proof {
        lemma_encoding_len(bytes@);
        lemma_encoding_form(bytes@);
        lemma_decoding_inverts_encoding(bytes@);
    }
    base64_encode(bytes)
}

/// Decodes a text to the bytes it carries, or says why it carries none.
///
/// A text carries bytes where it is their encoding, whole or with padding
/// left out at its end. So a text is refused where it holds a character that
/// is neither a symbol nor `=`, where its length is one more than a multiple
/// of four, and where a `=` stands anywhere but at the end of a last group of
/// four.
pub fn decode_envelope(text: &str) -> (outcome: Result<Vec<u8>, EnvelopeError>)
    ensures
        outcome_view(outcome) == envelope_decoding(text@),
        has_foreign_char(text@) ==> outcome is Err,
        text@.len() % 4 == 1 ==> outcome is Err,
{
    let outcome = base64_decode(text);
    proof {
        if outcome is Ok {
            lemma_decoding_of_text(text@, outcome->Ok_0@);
            lemma_text_form(text@, outcome->Ok_0@);
        }
    }
    outcome
}

} // verus!
