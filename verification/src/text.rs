//! The data URL as text: where the comma of a string stands among the bytes of
//! its UTF-8 form.
//!
//! In UTF-8 a character below 128 is one byte of the same value, and every
//! byte of a longer character is 128 or more. So the first comma byte is the
//! first comma character, and what follows the one is the UTF-8 form of what
//! follows the other.

use vstd::prelude::*;
use vstd::utf8::*;
use crate::alphabet::{is_symbol, PAD};
use crate::separator::{
    first_index, has_separator, lemma_first_index, lemma_first_index_after_prefix, payload,
    separator_index, SEPARATOR,
};

verus! {

/// The part of the text `url` that follows its first comma.
pub open spec fn text_payload(url: Seq<char>) -> Seq<char>
    recommends
        url.contains(','),
{
    url.skip(first_index(url, ',') + 1)
}

/// The text whose characters are the bytes of `symbols`, each below 128.
pub open spec fn ascii_text(symbols: Seq<u8>) -> Seq<char> {
    Seq::new(symbols.len(), |i: int| symbols[i] as char)
}

/// The UTF-8 form of a comma is the separator byte alone, and that of any
/// other character holds no separator byte.
pub proof fn lemma_scalar_and_separator(c: char)
    ensures
        encode_scalar(c as u32).len() >= 1,
        c == ',' ==> encode_scalar(c as u32) == seq![SEPARATOR],
        c != ',' ==> !encode_scalar(c as u32).contains(SEPARATOR),
{
    let s = c as u32;
    let bytes = encode_scalar(s);
    assert(has_width_1_encoding(s) ==> (s & 0x7F) as u8 == s) by (bit_vector);
    assert(0xC0u8 | ((s >> 6) & 0x1F) as u8 >= 0x80) by (bit_vector);
    assert(0xE0u8 | ((s >> 12) & 0x0F) as u8 >= 0x80) by (bit_vector);
    assert(0xF0u8 | ((s >> 18) & 0x7) as u8 >= 0x80) by (bit_vector);
    assert(0x80u8 | (s & 0x3F) as u8 >= 0x80) by (bit_vector);
    assert(0x80u8 | ((s >> 6) & 0x3F) as u8 >= 0x80) by (bit_vector);
    assert(0x80u8 | ((s >> 12) & 0x3F) as u8 >= 0x80) by (bit_vector);
    if c == ',' {
        assert(bytes =~= seq![SEPARATOR]);
    } else {
        assert(s != 44);
        assert forall|i: int| 0 <= i < bytes.len() implies bytes[i] != SEPARATOR by {}
    }
}

/// The first comma of a text and the first separator of its UTF-8 form are
/// the same place, and the same text follows both.
pub proof fn lemma_comma_in_utf8(url: Seq<char>)
    ensures
        has_separator(encode_utf8(url)) <==> url.contains(','),
        separator_index(encode_utf8(url)) == encode_utf8(url.take(first_index(url, ','))).len(),
        url.contains(',') ==> payload(encode_utf8(url)) == encode_utf8(text_payload(url)),
    decreases url.len(),
{
    let bytes = encode_utf8(url);
    let k = first_index(url, ',');
    lemma_first_index(url, ',');
    if url.len() == 0 {
        assert(url.take(k) =~= url);
    } else {
        let rest = url.drop_first();
        let head = encode_scalar(url[0] as u32);
        let tail = encode_utf8(rest);
        lemma_scalar_and_separator(url[0]);
        assert(rest =~= url.skip(1));
        if url[0] == ',' {
            assert(url.take(k) =~= Seq::<char>::empty());
            assert(bytes[0] == SEPARATOR);
            assert(payload(bytes) =~= tail);
            assert(text_payload(url) =~= rest);
        } else {
            lemma_comma_in_utf8(rest);
            lemma_first_index(rest, ',');
            lemma_first_index_after_prefix(head, tail, SEPARATOR);
            lemma_first_index(tail, SEPARATOR);
            let kr = first_index(rest, ',');
            assert(url.take(k).drop_first() =~= rest.take(kr));
            assert(url.take(k)[0] == url[0]);
            if url.contains(',') {
                let j = choose|j: int| 0 <= j < url.len() && url[j] == ',';
                assert(rest[j - 1] == ',');
                assert(payload(bytes) =~= payload(tail));
                assert(text_payload(url) =~= text_payload(rest));
            }
            if rest.contains(',') {
                let j = choose|j: int| 0 <= j < rest.len() && rest[j] == ',';
                assert(url[j + 1] == ',');
            }
        }
    }
}

/// The UTF-8 form of a text of characters below 128 holds those characters
/// as its bytes.
pub proof fn lemma_ascii_text_in_utf8(symbols: Seq<u8>)
    requires
        forall|i: int| 0 <= i < symbols.len() ==> symbols[i] < 128,
    ensures
        encode_utf8(ascii_text(symbols)) == symbols,
{
    let text = ascii_text(symbols);
    assert(is_ascii_chars(text));
    is_ascii_chars_encode_utf8(text);
    assert(encode_utf8(text) =~= symbols);
}

/// Whether `c` is a symbol of the base64 alphabet or its padding.
pub open spec fn is_alphabet_char(c: char) -> bool {
    (c as u32) < 128 && (is_symbol(c as u8) || c as u8 == PAD)
}

/// The UTF-8 form of a text holds the first byte of each of its characters.
pub proof fn lemma_char_in_utf8(text: Seq<char>, i: int)
    requires
        0 <= i < text.len(),
    ensures
        encode_utf8(text).contains(encode_scalar(text[i] as u32)[0]),
    decreases text.len(),
{
    let bytes = encode_utf8(text);
    let head = encode_scalar(text[0] as u32);
    let tail = encode_utf8(text.drop_first());
    lemma_scalar_and_separator(text[0]);
    if i == 0 {
        assert(bytes[0] == head[0]);
    } else {
        lemma_char_in_utf8(text.drop_first(), i - 1);
        let b = encode_scalar(text[i] as u32)[0];
        let p = choose|p: int| 0 <= p < tail.len() && tail[p] == b;
        assert(bytes[head.len() + p] == b);
    }
}

/// The UTF-8 form of a character outside the alphabet begins with a byte
/// outside the alphabet.
pub proof fn lemma_scalar_outside_alphabet(c: char)
    requires
        !is_alphabet_char(c),
    ensures
        !is_symbol(encode_scalar(c as u32)[0]),
        encode_scalar(c as u32)[0] != PAD,
{
    let s = c as u32;
    char_is_scalar(c);
    assert(has_width_1_encoding(s) ==> (s & 0x7F) as u8 == s) by (bit_vector);
    assert(0xC0u8 | ((s >> 6) & 0x1F) as u8 >= 0x80) by (bit_vector);
    assert(0xE0u8 | ((s >> 12) & 0x0F) as u8 >= 0x80) by (bit_vector);
    assert(0xF0u8 | ((s >> 18) & 0x7) as u8 >= 0x80) by (bit_vector);
}

/// The UTF-8 form of a text with a character outside the alphabet holds a
/// byte outside the alphabet.
pub proof fn lemma_outside_alphabet_in_utf8(text: Seq<char>, i: int)
    requires
        0 <= i < text.len(),
        !is_alphabet_char(text[i]),
    ensures
        exists|p: int|
            0 <= p < encode_utf8(text).len() && !is_symbol(#[trigger] encode_utf8(text)[p])
                && encode_utf8(text)[p] != PAD,
{
    let b = encode_scalar(text[i] as u32)[0];
    lemma_scalar_outside_alphabet(text[i]);
    lemma_char_in_utf8(text, i);
    let p = choose|p: int| 0 <= p < encode_utf8(text).len() && encode_utf8(text)[p] == b;
    assert(!is_symbol(encode_utf8(text)[p]) && encode_utf8(text)[p] != PAD);
}

} // verus!
