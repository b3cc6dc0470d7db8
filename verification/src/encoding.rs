//! Standard base64 with padding, as a relation between bytes and text.
//!
//! Three bytes make a 24-bit group that is written as four symbols. A last
//! group of one or two bytes is filled up with zero bits, written as two or
//! three symbols, and padded with `=` to four.

use vstd::prelude::*;
use crate::alphabet::{
    is_symbol, lemma_symbol_of_value, lemma_value_of_symbol, sextet, symbol, PAD,
};

verus! {

/// The six-bit value at place `k` (0 to 3) of the group of the bytes `a`, `b`
/// and `c`: their 24 bits, cut into four.
pub open spec fn sextet_of_group(a: u8, b: u8, c: u8, k: int) -> int {
    if k == 0 {
        a as int / 4
    } else if k == 1 {
        a as int % 4 * 16 + b as int / 16
    } else if k == 2 {
        b as int % 16 * 4 + c as int / 64
    } else {
        c as int % 64
    }
}

/// The byte at place `k` (0 to 2) of the group of the six-bit values `p`, `q`,
/// `r` and `s`: their 24 bits, cut into three.
pub open spec fn byte_of_group(p: int, q: int, r: int, s: int, k: int) -> u8 {
    if k == 0 {
        (p * 4 + q / 16) as u8
    } else if k == 1 {
        (q % 16 * 16 + r / 4) as u8
    } else {
        (r % 4 * 64 + s) as u8
    }
}

/// The standard base64 text of `bytes`.
pub open spec fn encode(bytes: Seq<u8>) -> Seq<u8>
    decreases bytes.len(),
{
    if bytes.len() == 0 {
        Seq::empty()
    } else if bytes.len() == 1 {
        let a = bytes[0];
        seq![symbol(sextet_of_group(a, 0, 0, 0)), symbol(sextet_of_group(a, 0, 0, 1)), PAD, PAD]
    } else if bytes.len() == 2 {
        let (a, b) = (bytes[0], bytes[1]);
        seq![
            symbol(sextet_of_group(a, b, 0, 0)),
            symbol(sextet_of_group(a, b, 0, 1)),
            symbol(sextet_of_group(a, b, 0, 2)),
            PAD,
        ]
    } else {
        let (a, b, c) = (bytes[0], bytes[1], bytes[2]);
        seq![
            symbol(sextet_of_group(a, b, c, 0)),
            symbol(sextet_of_group(a, b, c, 1)),
            symbol(sextet_of_group(a, b, c, 2)),
            symbol(sextet_of_group(a, b, c, 3)),
        ] + encode(bytes.skip(3))
    }
}

/// Whether `text` is the standard base64 text of some bytes.
pub open spec fn is_encoding(text: Seq<u8>) -> bool {
    exists|bytes: Seq<u8>| #[trigger] encode(bytes) == text
}

/// Whether the four symbols `quad` can end a text: four symbols, or three and
/// one `=`, or two and `==`, where the bits that fill up the group are zero.
pub open spec fn is_last_quad(quad: Seq<u8>) -> bool
    recommends
        quad.len() == 4,
{
    &&& is_symbol(quad[0])
    &&& is_symbol(quad[1])
    &&& if quad[3] != PAD {
        is_symbol(quad[2]) && is_symbol(quad[3])
    } else if quad[2] != PAD {
        is_symbol(quad[2]) && sextet(quad[2]) % 4 == 0
    } else {
        sextet(quad[1]) % 16 == 0
    }
}

/// The shape of a base64 text: quads of symbols, of which only the last may
/// carry padding.
pub open spec fn is_canonical(text: Seq<u8>) -> bool
    decreases text.len(),
{
    if text.len() == 0 {
        true
    } else if text.len() < 4 {
        false
    } else if text.len() == 4 {
        is_last_quad(text)
    } else {
        &&& is_symbol(text[0])
        &&& is_symbol(text[1])
        &&& is_symbol(text[2])
        &&& is_symbol(text[3])
        &&& is_canonical(text.skip(4))
    }
}

/// The bytes that the first quad of `text` stands for: three, or as many as
/// the padding leaves.
pub open spec fn decoded_quad(text: Seq<u8>) -> Seq<u8>
    recommends
        text.len() >= 4,
{
    let (p, q) = (sextet(text[0]), sextet(text[1]));
    if text[2] == PAD {
        seq![byte_of_group(p, q, 0, 0, 0)]
    } else if text[3] == PAD {
        let r = sextet(text[2]);
        seq![byte_of_group(p, q, r, 0, 0), byte_of_group(p, q, r, 0, 1)]
    } else {
        let (r, s) = (sextet(text[2]), sextet(text[3]));
        seq![byte_of_group(p, q, r, s, 0), byte_of_group(p, q, r, s, 1), byte_of_group(p, q, r, s, 2)]
    }
}

/// The bytes that a canonical `text` stands for.
pub open spec fn decoded(text: Seq<u8>) -> Seq<u8>
    recommends
        is_canonical(text),
    decreases text.len(),
{
    if text.len() < 4 {
        Seq::empty()
    } else {
        decoded_quad(text) + decoded(text.skip(4))
    }
}

/// Cutting the group of three bytes into six-bit values and putting those
/// together again gives the bytes back.
pub proof fn lemma_group_of_bytes(a: u8, b: u8, c: u8)
    ensures
        ({
            let p = sextet_of_group(a, b, c, 0);
            let q = sextet_of_group(a, b, c, 1);
            let r = sextet_of_group(a, b, c, 2);
            let s = sextet_of_group(a, b, c, 3);
            &&& 0 <= p < 64
            &&& 0 <= q < 64
            &&& 0 <= r < 64
            &&& 0 <= s < 64
            &&& byte_of_group(p, q, r, s, 0) == a
            &&& byte_of_group(p, q, r, s, 1) == b
            &&& byte_of_group(p, q, r, s, 2) == c
            &&& (c == 0 ==> s == 0 && r % 4 == 0)
            &&& (b == 0 && c == 0 ==> r == 0 && q % 16 == 0)
        }),
{
}

/// Putting four six-bit values together into bytes and cutting those again
/// gives the values back.
pub proof fn lemma_group_of_sextets(p: int, q: int, r: int, s: int)
    requires
        0 <= p < 64,
        0 <= q < 64,
        0 <= r < 64,
        0 <= s < 64,
    ensures
        ({
            let a = byte_of_group(p, q, r, s, 0);
            let b = byte_of_group(p, q, r, s, 1);
            let c = byte_of_group(p, q, r, s, 2);
            &&& sextet_of_group(a, b, c, 0) == p
            &&& sextet_of_group(a, b, c, 1) == q
            &&& sextet_of_group(a, b, c, 2) == r
            &&& sextet_of_group(a, b, c, 3) == s
            &&& (s == 0 && r % 4 == 0 ==> c == 0)
            &&& (r == 0 && q % 16 == 0 ==> b == 0)
        }),
{
}

/// The text of any bytes is canonical, and stands for those bytes.
pub proof fn lemma_decoded_of_encode(bytes: Seq<u8>)
    ensures
        is_canonical(encode(bytes)),
        decoded(encode(bytes)) == bytes,
    decreases bytes.len(),
{
    reveal_with_fuel(encode, 2);
    reveal_with_fuel(decoded, 2);
    let text = encode(bytes);
    if bytes.len() == 0 {
        assert(decoded(text) =~= bytes);
    } else {
        let b: u8 = if bytes.len() >= 2 { bytes[1] } else { 0 };
        let c: u8 = if bytes.len() >= 3 { bytes[2] } else { 0 };
        lemma_group_of_bytes(bytes[0], b, c);
        lemma_symbol_of_value(sextet_of_group(bytes[0], b, c, 0));
        lemma_symbol_of_value(sextet_of_group(bytes[0], b, c, 1));
        lemma_symbol_of_value(sextet_of_group(bytes[0], b, c, 2));
        lemma_symbol_of_value(sextet_of_group(bytes[0], b, c, 3));
        if bytes.len() <= 3 {
            assert(bytes.len() == 3 ==> bytes.skip(3) =~= Seq::<u8>::empty());
            assert(text.len() == 4);
            assert(text.skip(4) =~= Seq::<u8>::empty());
            assert(decoded(text) =~= decoded_quad(text));
            assert(decoded_quad(text) =~= bytes);
        } else {
            let rest = bytes.skip(3);
            lemma_decoded_of_encode(rest);
            assert(text.skip(4) =~= encode(rest));
            assert(decoded_quad(text) =~= bytes.take(3));
            assert(bytes.take(3) + rest =~= bytes);
        }
    }
}

/// A canonical text is the text of the bytes that it stands for.
pub proof fn lemma_encode_of_decoded(text: Seq<u8>)
    requires
        is_canonical(text),
    ensures
        encode(decoded(text)) == text,
    decreases text.len(),
{
    reveal_with_fuel(encode, 2);
    reveal_with_fuel(decoded, 2);
    if text.len() == 0 {
        assert(encode(decoded(text)) =~= text);
    } else {
        let bytes = decoded(text);
        let quad = decoded_quad(text);
        let r: u8 = if text[2] == PAD { 65 } else { text[2] };
        let s: u8 = if text[3] == PAD { 65 } else { text[3] };
        lemma_value_of_symbol(text[0]);
        lemma_value_of_symbol(text[1]);
        lemma_value_of_symbol(r);
        lemma_value_of_symbol(s);
        lemma_group_of_sextets(sextet(text[0]), sextet(text[1]), sextet(r), sextet(s));
        if text.len() == 4 {
            assert(text.skip(4) =~= Seq::<u8>::empty());
            assert(bytes =~= quad);
            assert(bytes.len() == 3 ==> bytes.skip(3) =~= Seq::<u8>::empty());
            assert(encode(bytes) =~= text);
        } else {
            lemma_encode_of_decoded(text.skip(4));
            assert(quad.len() == 3);
            assert(bytes.skip(3) =~= decoded(text.skip(4)));
            assert(encode(bytes) =~= text);
        }
    }
}

/// A text is the encoding of some bytes exactly when it is canonical.
pub proof fn lemma_encoding_is_canonical(text: Seq<u8>)
    ensures
        is_encoding(text) <==> is_canonical(text),
{
    if is_encoding(text) {
        let bytes = choose|bytes: Seq<u8>| #[trigger] encode(bytes) == text;
        lemma_decoded_of_encode(bytes);
    }
    if is_canonical(text) {
        lemma_encode_of_decoded(text);
    }
}

/// A canonical text holds symbols and padding, nothing else.
pub proof fn lemma_canonical_alphabet(text: Seq<u8>)
    requires
        is_canonical(text),
    ensures
        forall|i: int| 0 <= i < text.len() ==> is_symbol(#[trigger] text[i]) || text[i] == PAD,
    decreases text.len(),
{
    if text.len() > 4 {
        let rest = text.skip(4);
        lemma_canonical_alphabet(rest);
        assert forall|i: int| 0 <= i < text.len() implies is_symbol(#[trigger] text[i]) || text[i]
            == PAD by {
            if i >= 4 {
                assert(text[i] == rest[i - 4]);
            }
        }
    }
}

/// A canonical text is made of whole quads.
pub proof fn lemma_canonical_len(text: Seq<u8>)
    requires
        is_canonical(text),
    ensures
        text.len() % 4 == 0,
    decreases text.len(),
{
    if text.len() > 4 {
        lemma_canonical_len(text.skip(4));
    }
}

} // verus!
