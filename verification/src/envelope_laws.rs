//! What holds of the envelope: the length and the form of an encoding, that
//! an encoding names its bytes, which texts decode, and that decoding gives
//! back what was encoded.

use crate::alphabet::{is_symbol, lemma_symbol_injective, lemma_symbol_of_sextet, symbol, PAD};
use crate::envelope::{
    envelope_decoding, envelope_encoding, has_foreign_char, is_canonical, is_decodable,
    is_envelope_text, is_text_of, payload_of, quad, EnvelopeError,
};
use vstd::prelude::*;

verus! {

/// The four characters of a group are symbols.
proof fn lemma_quad_symbols(b0: u8, b1: u8, b2: u8)
    ensures
        quad(b0, b1, b2).len() == 4,
        forall|i: int|
            0 <= i < 4 ==> is_symbol(#[trigger] quad(b0, b1, b2)[i]) && quad(b0, b1, b2)[i] != PAD,
{
    lemma_symbol_of_sextet(b0 as int / 4);
    lemma_symbol_of_sextet(b0 as int % 4 * 16 + b1 as int / 16);
    lemma_symbol_of_sextet(b1 as int % 16 * 4 + b2 as int / 64);
    lemma_symbol_of_sextet(b2 as int % 64);
}

/// The first two characters of a group name its first byte, the first three
/// its first two bytes, and all four name all three.
proof fn lemma_quad_injective(a0: u8, a1: u8, a2: u8, b0: u8, b1: u8, b2: u8)
    ensures
        quad(a0, a1, a2)[0] == quad(b0, b1, b2)[0] && quad(a0, a1, a2)[1] == quad(b0, b1, b2)[1]
            && a1 / 16 == b1 / 16 ==> a0 == b0,
        quad(a0, a1, a2)[0] == quad(b0, b1, b2)[0] && quad(a0, a1, a2)[1] == quad(b0, b1, b2)[1]
            && quad(a0, a1, a2)[2] == quad(b0, b1, b2)[2] && a2 / 64 == b2 / 64 ==> a0 == b0 && a1
            == b1,
        quad(a0, a1, a2) == quad(b0, b1, b2) ==> a0 == b0 && a1 == b1 && a2 == b2,
{
    let p = quad(a0, a1, a2);
    let q = quad(b0, b1, b2);
    if p[0] == q[0] {
        lemma_symbol_injective(a0 as int / 4, b0 as int / 4);
    }
    if p[1] == q[1] {
        lemma_symbol_injective(
            a0 as int % 4 * 16 + a1 as int / 16,
            b0 as int % 4 * 16 + b1 as int / 16,
        );
    }
    if p[2] == q[2] {
        lemma_symbol_injective(
            a1 as int % 16 * 4 + a2 as int / 64,
            b1 as int % 16 * 4 + b2 as int / 64,
        );
    }
    if p[3] == q[3] {
        lemma_symbol_injective(a2 as int % 64, b2 as int % 64);
    }
}

/// An encoding has four characters for every three bytes, the last group
/// counted whole.
pub proof fn lemma_encoding_len(bytes: Seq<u8>)
    ensures
        envelope_encoding(bytes).len() == 4 * ((bytes.len() + 2) / 3),
    decreases bytes.len(),
{
    if bytes.len() >= 3 {
        lemma_encoding_len(bytes.skip(3));
    }
}

/// An encoding has the form of an envelope text, and no foreign character.
pub proof fn lemma_encoding_form(bytes: Seq<u8>)
    ensures
        is_envelope_text(envelope_encoding(bytes)),
        !has_foreign_char(envelope_encoding(bytes)),
    decreases bytes.len(),
{
    let text = envelope_encoding(bytes);
    lemma_encoding_len(bytes);
    if bytes.len() == 0 {
    } else if bytes.len() == 1 {
        lemma_quad_symbols(bytes[0], 0, 0);
        assert forall|i: int| 0 <= i < 2 implies is_symbol(#[trigger] text[i]) by {
            assert(text[i] == quad(bytes[0], 0, 0)[i]);
        }
    } else if bytes.len() == 2 {
        lemma_quad_symbols(bytes[0], bytes[1], 0);
        assert forall|i: int| 0 <= i < 3 implies is_symbol(#[trigger] text[i]) by {
            assert(text[i] == quad(bytes[0], bytes[1], 0)[i]);
        }
    } else {
        let head = quad(bytes[0], bytes[1], bytes[2]);
        let tail = envelope_encoding(bytes.skip(3));
        lemma_quad_symbols(bytes[0], bytes[1], bytes[2]);
        lemma_encoding_form(bytes.skip(3));
        lemma_encoding_len(bytes.skip(3));
        assert forall|i: int| 0 <= i < text.len() implies {
            ||| is_symbol(#[trigger] text[i])
            ||| text[i] == PAD && i == text.len() - 1
            ||| text[i] == PAD && i == text.len() - 2 && text[i + 1] == PAD
        } by {
            if i < 4 {
                assert(text[i] == head[i]);
            } else {
                assert(text[i] == tail[i - 4]);
                if i + 1 < text.len() {
                    assert(text[i + 1] == tail[i + 1 - 4]);
                }
            }
        }
    }
}

/// The second byte of a first group, zero where the group has none.
spec fn second_of(bytes: Seq<u8>) -> u8 {
    if bytes.len() > 1 {
        bytes[1]
    } else {
        0
    }
}

/// The third byte of a first group, zero where the group has none.
spec fn third_of(bytes: Seq<u8>) -> u8 {
    if bytes.len() > 2 {
        bytes[2]
    } else {
        0
    }
}

/// The four symbols of the first group of a byte sequence that is not empty,
/// the group filled up with zero bytes.
spec fn group_of(bytes: Seq<u8>) -> Seq<char> {
    quad(bytes[0], second_of(bytes), third_of(bytes))
}

/// Two byte sequences with the same encoding are the same sequence.
pub proof fn lemma_encoding_injective(a: Seq<u8>, b: Seq<u8>)
    requires
        envelope_encoding(a) == envelope_encoding(b),
    ensures
        a == b,
    decreases a.len(),
{
    let text = envelope_encoding(a);
    lemma_encoding_len(a);
    lemma_encoding_len(b);
    if a.len() == 0 {
        assert(b.len() == 0);
        assert(a =~= b);
    } else if a.len() < 3 || b.len() < 3 {
        // One of the two ends in its first group, so the text has four
        // characters, and its padding tells how many bytes the group holds.
        assert(text.len() == 4);
        assert(1 <= a.len() <= 3 && 1 <= b.len() <= 3);
        let group_a = group_of(a);
        let group_b = group_of(b);
        lemma_quad_symbols(a[0], second_of(a), third_of(a));
        lemma_quad_symbols(b[0], second_of(b), third_of(b));
        lemma_group_chars(a);
        lemma_group_chars(b);
        assert(group_a[2] != PAD && group_a[3] != PAD);
        assert(group_b[2] != PAD && group_b[3] != PAD);
        assert(a.len() == b.len());
        lemma_quad_injective(a[0], second_of(a), third_of(a), b[0], second_of(b), third_of(b));
        assert(a =~= b);
    } else {
        let rest_a = envelope_encoding(a.skip(3));
        let rest_b = envelope_encoding(b.skip(3));
        let head_a = quad(a[0], a[1], a[2]);
        let head_b = quad(b[0], b[1], b[2]);
        assert(head_a =~= text.take(4));
        assert(head_b =~= text.take(4));
        assert(rest_a =~= text.skip(4));
        assert(rest_b =~= text.skip(4));
        lemma_quad_injective(a[0], a[1], a[2], b[0], b[1], b[2]);
        lemma_encoding_injective(a.skip(3), b.skip(3));
        assert forall|i: int| 0 <= i < a.len() implies a[i] == b[i] by {
            if i >= 3 {
                assert(a[i] == a.skip(3)[i - 3]);
                assert(b[i] == b.skip(3)[i - 3]);
            }
        }
        assert(a.len() == b.len()) by {
            assert(a.skip(3).len() == b.skip(3).len());
        }
        assert(a =~= b);
    }
}

/// The encoding of one, two or three bytes: the group's symbols as far as the
/// bytes reach, padding after them.
proof fn lemma_group_chars(bytes: Seq<u8>)
    requires
        1 <= bytes.len() <= 3,
    ensures
        envelope_encoding(bytes).len() == 4,
        envelope_encoding(bytes)[0] == group_of(bytes)[0],
        envelope_encoding(bytes)[1] == group_of(bytes)[1],
        envelope_encoding(bytes)[2] == if bytes.len() > 1 {
            group_of(bytes)[2]
        } else {
            PAD
        },
        envelope_encoding(bytes)[3] == if bytes.len() > 2 {
            group_of(bytes)[3]
        } else {
            PAD
        },
{
    lemma_encoding_len(bytes);
    if bytes.len() == 3 {
        assert(envelope_encoding(bytes.skip(3)).len() == 0) by {
            lemma_encoding_len(bytes.skip(3));
        }
    }
}

/// A text that carries bytes is all but the padding of their encoding: at
/// most two characters are left out, none of its characters is foreign, its
/// length is not one more than a multiple of four, and a `=` in it stands in
/// the second half of the last group of four, with nothing but `=` after it.
pub proof fn lemma_text_form(text: Seq<char>, bytes: Seq<u8>)
    requires
        is_text_of(text, bytes),
    ensures
        envelope_encoding(bytes).len() - 2 <= text.len() <= envelope_encoding(bytes).len(),
        envelope_encoding(bytes).len() == (text.len() + 3) / 4 * 4,
        text.len() % 4 != 1,
        !has_foreign_char(text),
        forall|i: int|
            0 <= i < text.len() && #[trigger] text[i] == PAD ==> i % 4 >= 2 && i + 2 >= (text.len()
                + 3) / 4 * 4,
        forall|i: int, j: int|
            0 <= i <= j < text.len() && #[trigger] text[i] == PAD ==> #[trigger] text[j] == PAD,
{
    let whole = envelope_encoding(bytes);
    lemma_encoding_form(bytes);
    lemma_encoding_len(bytes);
    if text.len() < whole.len() - 2 {
        let i = whole.len() - 3;
        assert(whole[i] == PAD);
    }
    if text.len() == whole.len() - 2 {
        assert(whole[whole.len() - 2] == PAD);
    }
    assert forall|i: int| 0 <= i < text.len() implies (is_symbol(#[trigger] text[i]) || text[i]
        == PAD) by {
        assert(text[i] == whole[i]);
    }
    assert forall|i: int| 0 <= i < text.len() && #[trigger] text[i] == PAD implies i % 4 >= 2 && i
        + 2 >= whole.len() by {
        assert(text[i] == whole[i]);
    }
    assert forall|i: int, j: int|
        0 <= i <= j < text.len() && #[trigger] text[i] == PAD implies #[trigger] text[j]
        == PAD by {
        assert(text[i] == whole[i]);
        assert(text[j] == whole[j]);
        if j > i {
            assert(whole[i + 1] == PAD);
        }
    }
}

/// A text carries at most one byte sequence.
pub proof fn lemma_text_of_unique(text: Seq<char>, a: Seq<u8>, b: Seq<u8>)
    requires
        is_text_of(text, a),
        is_text_of(text, b),
    ensures
        a == b,
{
    let whole_a = envelope_encoding(a);
    let whole_b = envelope_encoding(b);
    lemma_text_form(text, a);
    lemma_text_form(text, b);
    assert forall|i: int| 0 <= i < whole_a.len() implies whole_a[i] == whole_b[i] by {
        if i < text.len() {
            assert(whole_a[i] == whole_a.take(text.len() as int)[i]);
            assert(whole_b[i] == whole_b.take(text.len() as int)[i]);
        }
    }
    assert(whole_a =~= whole_b);
    lemma_encoding_injective(a, b);
}

/// A text that carries bytes decodes to them.
pub proof fn lemma_decoding_of_text(text: Seq<char>, bytes: Seq<u8>)
    requires
        is_text_of(text, bytes),
    ensures
        envelope_decoding(text) == Ok::<Seq<u8>, EnvelopeError>(bytes),
{
    assert(is_decodable(text));
    lemma_text_of_unique(text, payload_of(text), bytes);
}

/// A text decodes exactly where it carries bytes, and then to those bytes.
pub proof fn lemma_decoding_iff_text(text: Seq<char>, bytes: Seq<u8>)
    ensures
        envelope_decoding(text) == Ok::<Seq<u8>, EnvelopeError>(bytes) <==> is_text_of(text, bytes),
{
    if is_text_of(text, bytes) {
        lemma_decoding_of_text(text, bytes);
    }
}

/// Decoding the encoding of some bytes gives those bytes.
pub proof fn lemma_decoding_inverts_encoding(bytes: Seq<u8>)
    ensures
        is_canonical(envelope_encoding(bytes)),
        envelope_decoding(envelope_encoding(bytes)) == Ok::<Seq<u8>, EnvelopeError>(bytes),
{
    let text = envelope_encoding(bytes);
    assert(text =~= text.take(text.len() as int));
    lemma_decoding_of_text(text, bytes);
}

/// The empty text is the envelope of the empty payload, and of no other.
pub proof fn lemma_empty_text()
    ensures
        envelope_encoding(Seq::<u8>::empty()) == Seq::<char>::empty(),
        envelope_decoding(Seq::<char>::empty()) == Ok::<Seq<u8>, EnvelopeError>(Seq::empty()),
{
    lemma_decoding_inverts_encoding(Seq::<u8>::empty());
}

/// A text with a character that is neither a symbol nor `=` does not decode.
pub proof fn lemma_foreign_char_refused(text: Seq<char>)
    requires
        has_foreign_char(text),
    ensures
        envelope_decoding(text) is Err,
{
    if is_decodable(text) {
        lemma_text_form(text, payload_of(text));
    }
}

/// A text whose length is one more than a multiple of four does not decode.
pub proof fn lemma_length_refused(text: Seq<char>)
    requires
        text.len() % 4 == 1,
    ensures
        envelope_decoding(text) is Err,
{
    if is_decodable(text) {
        lemma_text_form(text, payload_of(text));
    }
}

/// A text with a `=` before another character, or in the first half of a
/// group of four, does not decode.
pub proof fn lemma_padding_refused(text: Seq<char>, at: int)
    requires
        0 <= at < text.len(),
        text[at] == PAD,
        at % 4 < 2 || (at + 1 < text.len() && text[at + 1] != PAD),
    ensures
        envelope_decoding(text) is Err,
{
    if is_decodable(text) {
        lemma_text_form(text, payload_of(text));
        if at % 4 >= 2 {
            assert(text[at + 1] == PAD);
        }
    }
}

/// Encoding again what a text decoded to gives the text back exactly where
/// the text is canonical, which is where its length is a multiple of four.
/// Any other text that decodes comes back with its padding restored, and the
/// restored text decodes to the same bytes.
pub proof fn lemma_reencoding(text: Seq<char>, bytes: Seq<u8>)
    requires
        envelope_decoding(text) == Ok::<Seq<u8>, EnvelopeError>(bytes),
    ensures
        envelope_encoding(bytes) == text <==> is_canonical(text),
        is_canonical(text) <==> text.len() % 4 == 0,
        envelope_decoding(envelope_encoding(bytes)) == envelope_decoding(text),
{
    let whole = envelope_encoding(bytes);
    lemma_decoding_iff_text(text, bytes);
    lemma_text_form(text, bytes);
    lemma_decoding_inverts_encoding(bytes);
    if is_canonical(text) {
        let other = choose|other: Seq<u8>| envelope_encoding(other) == text;
        lemma_decoding_inverts_encoding(other);
        lemma_encoding_len(other);
    }
    if text.len() % 4 == 0 {
        assert(text =~= whole);
    }
}

/// Text is not stable under decoding and encoding again: there is a text
/// that decodes, comes back changed, and still decodes to the same bytes.
pub proof fn lemma_text_not_stable()
    ensures
        exists|text: Seq<char>, bytes: Seq<u8>|
            envelope_decoding(text) == Ok::<Seq<u8>, EnvelopeError>(bytes) && #[trigger] is_text_of(
                text,
                bytes,
            ) && envelope_encoding(bytes) != text && envelope_decoding(envelope_encoding(bytes))
                == envelope_decoding(text),
{
    let bytes: Seq<u8> = seq![0u8];
    let text: Seq<char> = seq!['A', 'A'];
    let whole = envelope_encoding(bytes);
    assert(whole =~= seq!['A', 'A', PAD, PAD]);
    assert(text =~= whole.take(2));
    assert(is_text_of(text, bytes));
    lemma_decoding_of_text(text, bytes);
    lemma_decoding_inverts_encoding(bytes);
}

} // verus!
