//! The base64 alphabet: sixty-four symbols, one for each six-bit value, and
//! the padding character beside them.

use vstd::prelude::*;

verus! {

/// The padding character. It is no symbol of the alphabet.
pub const PAD: char = '=';

/// The character that stands for a six-bit value, `0 <= sextet < 64`:
/// `A` to `Z`, `a` to `z`, `0` to `9`, `+`, `/`.
pub open spec fn symbol(sextet: int) -> char {
    if sextet < 26 {
        (sextet + 65) as char
    } else if sextet < 52 {
        (sextet + 71) as char
    } else if sextet < 62 {
        (sextet - 4) as char
    } else if sextet == 62 {
        '+'
    } else {
        '/'
    }
}

/// Whether a character is one of the sixty-four symbols.
pub open spec fn is_symbol(c: char) -> bool {
    ('A' <= c && c <= 'Z') || ('a' <= c && c <= 'z') || ('0' <= c && c <= '9') || c == '+' || c
        == '/'
}

/// The six-bit value that a symbol stands for.
pub open spec fn sextet_of(c: char) -> int {
    if 'A' <= c && c <= 'Z' {
        c as int - 65
    } else if 'a' <= c && c <= 'z' {
        c as int - 71
    } else if '0' <= c && c <= '9' {
        c as int + 4
    } else if c == '+' {
        62
    } else {
        63
    }
}

/// Every six-bit value has a symbol, the symbol is not the padding character,
/// and the value can be read back from it.
pub proof fn lemma_symbol_of_sextet(sextet: int)
    requires
        0 <= sextet < 64,
    ensures
        is_symbol(symbol(sextet)),
        symbol(sextet) != PAD,
        sextet_of(symbol(sextet)) == sextet,
{
}

/// Two six-bit values with the same symbol are the same value.
pub proof fn lemma_symbol_injective(a: int, b: int)
    requires
        0 <= a < 64,
        0 <= b < 64,
        symbol(a) == symbol(b),
    ensures
        a == b,
{
    lemma_symbol_of_sextet(a);
    lemma_symbol_of_sextet(b);
}

} // verus!
