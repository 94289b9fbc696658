//! The transcoding adapter: text to object and back, through the envelope
//! and a binary transcoder that the caller supplies.
//!
//! The transcoder is the caller's: [`parse`] and [`render`] take its step as
//! a function, and their contracts hold of whatever that function returns.
//! [`parsed`] and [`rendered`] say the same of a transcoder that is a
//! function in the mathematical sense.

use crate::envelope::{
    decode_envelope, encode_envelope, envelope_decoding, envelope_encoding, has_foreign_char,
    is_envelope_text, is_text_of, EnvelopeError,
};
use crate::envelope_laws::{
    lemma_decoding_iff_text, lemma_decoding_inverts_encoding, lemma_empty_text,
    lemma_encoding_form, lemma_encoding_len, lemma_foreign_char_refused, lemma_length_refused,
};
use vstd::prelude::*;

verus! {

/// Why a text could not be parsed: which of the two layers refused it, and
/// that layer's own cause.
#[derive(Debug, PartialEq, Eq)]
pub enum ParseError<C> {
    /// The text is no base64.
    Envelope(EnvelopeError),
    /// The bytes inside the envelope are no encoding of an object.
    Transcode(C),
}

impl<C> ParseError<C> {
    /// A short, fixed name for the layer that failed. The cause stays with the
    /// error: see [`ParseError::envelope_cause`] and
    /// [`ParseError::transcode_cause`].
    pub fn label(&self) -> (text: &'static str)
        ensures
            self is Envelope ==> text@ == "Base64 error"@,
            self is Transcode ==> text@ == "Deserialize error"@,
    {
        match self {
            ParseError::Envelope(_) => "Base64 error",
            ParseError::Transcode(_) => "Deserialize error",
        }
    }

    /// The envelope's cause, if it was the envelope that failed.
    pub fn envelope_cause(&self) -> (cause: Option<&EnvelopeError>)
        ensures
            match *self {
                ParseError::Envelope(inner) => cause == Some(&inner),
                ParseError::Transcode(_) => cause is None,
            },
    {
        match self {
            ParseError::Envelope(inner) => Some(inner),
            ParseError::Transcode(_) => None,
        }
    }

    /// The transcoder's cause, if it was the transcoder that failed.
    pub fn transcode_cause(&self) -> (cause: Option<&C>)
        ensures
            match *self {
                ParseError::Envelope(_) => cause is None,
                ParseError::Transcode(inner) => cause == Some(&inner),
            },
    {
        match self {
            ParseError::Envelope(_) => None,
            ParseError::Transcode(inner) => Some(inner),
        }
    }
}

/// What a parse comes to once the envelope is open: the transcoder's object,
/// or its cause as a [`ParseError::Transcode`].
pub open spec fn settled<O, C>(transcoded: Result<O, C>) -> Result<O, ParseError<C>> {
    match transcoded {
        Ok(object) => Ok(object),
        Err(cause) => Err(ParseError::Transcode(cause)),
    }
}

/// What parsing a text yields with a transcoder that reads bytes as `decode`
/// says: the envelope's failure if it has one, else what `decode` makes of
/// the payload.
pub open spec fn parsed<O, C>(
    text: Seq<char>,
    decode: spec_fn(Seq<u8>) -> Result<O, C>,
) -> Result<O, ParseError<C>> {
    match envelope_decoding(text) {
        Err(cause) => Err(ParseError::Envelope(cause)),
        Ok(payload) => settled(decode(payload)),
    }
}

/// The text of an object with a transcoder that writes objects as `encode`
/// says.
pub open spec fn rendered<O>(object: O, encode: spec_fn(O) -> Seq<u8>) -> Seq<char> {
    envelope_encoding(encode(object))
}

/// Whether an executable step from bytes to object returns, on every
/// payload, what `decode` says of the payload's bytes.
pub open spec fn reads_as<O, C, F: FnOnce(&[u8]) -> Result<O, C>>(
    transcode: F,
    decode: spec_fn(Seq<u8>) -> Result<O, C>,
) -> bool {
    forall|payload: &[u8], transcoded: Result<O, C>| #[trigger]
        transcode.ensures((payload,), transcoded) ==> transcoded == decode(payload@)
}

/// Whether an executable step from object to bytes returns, on every object,
/// the bytes that `encode` says.
pub open spec fn writes_as<O, F: FnOnce(&O) -> Vec<u8>>(
    transcode: F,
    encode: spec_fn(O) -> Seq<u8>,
) -> bool {
    forall|object: &O, bytes: Vec<u8>| #[trigger]
        transcode.ensures((object,), bytes) ==> bytes@ == encode(*object)
}

/// Settles a parse from what the transcoder returned for the payload.
pub fn settle<O, C>(transcoded: Result<O, C>) -> (outcome: Result<O, ParseError<C>>)
    ensures
        outcome == settled(transcoded),
{
    match transcoded {
        Ok(object) => Ok(object),
        Err(cause) => Err(ParseError::Transcode(cause)),
    }
}

/// The rest of a parse once the envelope has been tried: its failure is the
/// parse's failure, and its payload goes to the transcoder.
///
/// The transcoder need only take this payload. Where the envelope failed
/// nothing is known to be fit for it, so it is not called.
pub fn parse_opened<O, C, F>(
    opened: Result<Vec<u8>, EnvelopeError>,
    transcode: F,
) -> (outcome: Result<O, ParseError<C>>) where F: FnOnce(&[u8]) -> Result<O, C>
    requires
        forall|payload: &[u8]|
            opened is Ok && payload@ == opened->Ok_0@ ==> #[trigger] transcode.requires(
                (payload,),
            ),
    ensures
        match opened {
            Err(cause) => outcome == Err::<O, ParseError<C>>(ParseError::Envelope(cause)),
            Ok(bytes) => exists|payload: &[u8], transcoded: Result<O, C>|
                payload@ == bytes@ && #[trigger] transcode.ensures((payload,), transcoded)
                    && outcome == settled(transcoded),
        },
        forall|decode: spec_fn(Seq<u8>) -> Result<O, C>| #[trigger]
            reads_as(transcode, decode) ==> outcome == match opened {
                Err(cause) => Err(ParseError::Envelope(cause)),
                Ok(bytes) => settled(decode(bytes@)),
            },
{
    match opened {
        Err(cause) => Err(ParseError::Envelope(cause)),
        Ok(payload) => settle(transcode(payload.as_slice())),
    }
}

/// Parses a text: opens the envelope, then hands the payload to the
/// transcoder and settles on what it returns.
///
/// The transcoder need only take the payload that this text carries. A text
/// that carries none fails in the envelope, and the transcoder is not called.
pub fn parse<O, C, F>(text: &str, transcode: F) -> (outcome: Result<O, ParseError<C>>) where
    F: FnOnce(&[u8]) -> Result<O, C>,

    requires
        forall|payload: &[u8]|
            is_text_of(text@, payload@) ==> #[trigger] transcode.requires((payload,)),
    ensures
        match envelope_decoding(text@) {
            Err(cause) => outcome == Err::<O, ParseError<C>>(ParseError::Envelope(cause)),
            Ok(bytes) => exists|payload: &[u8], transcoded: Result<O, C>|
                payload@ == bytes && #[trigger] transcode.ensures((payload,), transcoded)
                    && outcome == settled(transcoded),
        },
        has_foreign_char(text@) || text@.len() % 4 == 1 ==> outcome is Err && outcome->Err_0
            is Envelope,
        forall|decode: spec_fn(Seq<u8>) -> Result<O, C>| #[trigger]
            reads_as(transcode, decode) ==> outcome == parsed(text@, decode),
{
    let opened = decode_envelope(text);
    proof {
        if opened is Ok {
            lemma_decoding_iff_text(text@, opened->Ok_0@);
        }
    }
    parse_opened(opened, transcode)
}

/// Renders an object as text: the transcoder's bytes, in the envelope.
pub fn render<O, F>(object: &O, transcode: F) -> (text: String) where F: FnOnce(&O) -> Vec<u8>
    requires
        transcode.requires((object,)),
    ensures
        exists|bytes: Vec<u8>| #[trigger]
            transcode.ensures((object,), bytes) && text@ == envelope_encoding(bytes@),
        is_envelope_text(text@),
        forall|encode: spec_fn(O) -> Seq<u8>| #[trigger]
            writes_as(transcode, encode) ==> text@ == rendered(*object, encode),
{
    let bytes = transcode(object);
    proof {
        lemma_encoding_form(bytes@);
    }
    encode_envelope(bytes.as_slice())
}

/// Round trip: where the transcoder reads the bytes it wrote for an object
/// back as that object, parsing the rendered text gives the object.
pub proof fn lemma_round_trip<O, C>(
    object: O,
    encode: spec_fn(O) -> Seq<u8>,
    decode: spec_fn(Seq<u8>) -> Result<O, C>,
)
    requires
        decode(encode(object)) == Ok::<O, C>(object),
    ensures
        parsed(rendered(object, encode), decode) == Ok::<O, ParseError<C>>(object),
{
    lemma_decoding_inverts_encoding(encode(object));
}

/// A malformed envelope is the envelope's failure, whatever the transcoder
/// would make of any bytes: a text with a character that is neither a symbol
/// nor `=`, or with a length that is one more than a multiple of four, fails
/// with [`ParseError::Envelope`].
pub proof fn lemma_envelope_failure<O, C>(text: Seq<char>, decode: spec_fn(Seq<u8>) -> Result<O, C>)
    requires
        has_foreign_char(text) || text.len() % 4 == 1,
    ensures
        parsed(text, decode) == Err::<O, ParseError<C>>(
            ParseError::Envelope(envelope_decoding(text)->Err_0),
        ),
{
    if has_foreign_char(text) {
        lemma_foreign_char_refused(text);
    } else {
        lemma_length_refused(text);
    }
}

/// What the transcoder refuses is the transcoder's failure, with its own
/// cause: where the envelope opens and the transcoder refuses the payload,
/// parsing fails with [`ParseError::Transcode`] of that cause.
pub proof fn lemma_transcode_failure<O, C>(
    text: Seq<char>,
    bytes: Seq<u8>,
    cause: C,
    decode: spec_fn(Seq<u8>) -> Result<O, C>,
)
    requires
        is_text_of(text, bytes),
        decode(bytes) == Err::<O, C>(cause),
    ensures
        parsed(text, decode) == Err::<O, ParseError<C>>(ParseError::Transcode(cause)),
{
    lemma_decoding_iff_text(text, bytes);
}

/// The empty text opens to the empty payload: what parsing it yields is what
/// the transcoder makes of no bytes at all.
pub proof fn lemma_empty_text_parse<O, C>(decode: spec_fn(Seq<u8>) -> Result<O, C>)
    ensures
        parsed(Seq::<char>::empty(), decode) == settled(decode(Seq::<u8>::empty())),
{
    lemma_empty_text();
}

/// Every parse ends in exactly one of three ways: an object, the envelope's
/// failure, or the transcoder's.
pub proof fn lemma_parse_outcomes<O, C>(text: Seq<char>, decode: spec_fn(Seq<u8>) -> Result<O, C>)
    ensures
        match parsed(text, decode) {
            Ok(object) => envelope_decoding(text) is Ok && decode(envelope_decoding(text)->Ok_0)
                == Ok::<O, C>(object),
            Err(ParseError::Envelope(cause)) => envelope_decoding(text) == Err::<
                Seq<u8>,
                EnvelopeError,
            >(cause),
            Err(ParseError::Transcode(cause)) => envelope_decoding(text) is Ok && decode(
                envelope_decoding(text)->Ok_0,
            ) == Err::<O, C>(cause),
        },
{
}

/// Rendering what was parsed gives a text that parses to the same object,
/// where the transcoder reads its own bytes back. The text itself need not
/// come back: one that was parsed without its padding comes back with it.
pub proof fn lemma_rendering_again<O, C>(
    text: Seq<char>,
    object: O,
    encode: spec_fn(O) -> Seq<u8>,
    decode: spec_fn(Seq<u8>) -> Result<O, C>,
)
    requires
        parsed(text, decode) == Ok::<O, ParseError<C>>(object),
        decode(encode(object)) == Ok::<O, C>(object),
    ensures
        parsed(rendered(object, encode), decode) == parsed(text, decode),
        text.len() % 4 != 0 ==> rendered(object, encode) != text,
{
    lemma_round_trip(object, encode, decode);
    lemma_encoding_len(encode(object));
}

} // verus!
