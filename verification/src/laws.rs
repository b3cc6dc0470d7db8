//! What holds of every export, stated over the outcome of a data URL.

use vstd::prelude::*;
use vstd::utf8::encode_utf8;
use crate::alphabet::{is_symbol, PAD};
use crate::encoding::{
    encode, is_canonical, lemma_canonical_alphabet, lemma_canonical_len,
    lemma_decoded_of_encode,
};
use crate::error::ExportError;
use crate::export::{export_outcome, lemma_text_outcome, text_outcome};
use crate::separator::{has_separator, lemma_first_index_is, payload, SEPARATOR};
use crate::text::{
    ascii_text, is_alphabet_char, lemma_ascii_text_in_utf8, lemma_outside_alphabet_in_utf8,
    text_payload,
};

verus! {

/// Round trip, on bytes: the standard base64 text of any image, behind any
/// metadata without a comma and one comma, is exported as that image.
pub proof fn round_trip_of_bytes(metadata: Seq<u8>, image: Seq<u8>)
    requires
        !metadata.contains(SEPARATOR),
    ensures
        export_outcome(metadata + seq![SEPARATOR] + encode(image)) == Ok::<
            Seq<u8>,
            ExportError,
        >(image),
{
    let url = metadata + seq![SEPARATOR] + encode(image);
    assert forall|j: int| 0 <= j < metadata.len() implies url[j] != SEPARATOR by {
        assert(metadata.contains(metadata[j]));
    }
    lemma_first_index_is(url, SEPARATOR, metadata.len() as int);
    assert(payload(url) =~= encode(image));
    lemma_decoded_of_encode(image);
}

/// Round trip, on text: the standard base64 text of any image, behind any
/// metadata without a comma and one comma, is exported as that image, the
/// empty image included.
pub proof fn round_trip(metadata: Seq<char>, image: Seq<u8>)
    requires
        !metadata.contains(','),
    ensures
        text_outcome(metadata + seq![','] + ascii_text(encode(image))) == Ok::<
            Seq<u8>,
            ExportError,
        >(image),
{
    let url = metadata + seq![','] + ascii_text(encode(image));
    assert forall|j: int| 0 <= j < metadata.len() implies url[j] != ',' by {
        assert(metadata.contains(metadata[j]));
    }
    lemma_first_index_is(url, ',', metadata.len() as int);
    assert(text_payload(url) =~= ascii_text(encode(image)));
    lemma_decoded_of_encode(image);
    lemma_canonical_alphabet(encode(image));
    lemma_ascii_text_in_utf8(encode(image));
}

/// A data URL without a comma is malformed input, whatever else it holds, and
/// so gives no bytes to write.
pub proof fn separator_is_required(url: Seq<char>)
    requires
        !url.contains(','),
    ensures
        text_outcome(url) == Err::<Seq<u8>, ExportError>(ExportError::MalformedInput),
        export_outcome(encode_utf8(url)) == Err::<Seq<u8>, ExportError>(
            ExportError::MalformedInput,
        ),
{
    lemma_text_outcome(url);
}

/// Decoding is strict, on bytes: a payload with one byte outside the alphabet
/// and its padding, at any place, fails as a whole with a decode error.
pub proof fn decoding_of_bytes_is_strict(url: Seq<u8>, i: int)
    requires
        has_separator(url),
        0 <= i < payload(url).len(),
        !is_symbol(payload(url)[i]),
        payload(url)[i] != PAD,
    ensures
        export_outcome(url) is Err,
        export_outcome(url)->Err_0 is DecodeFailure,
{
    if is_canonical(payload(url)) {
        lemma_canonical_alphabet(payload(url));
    }
}

/// Decoding is strict, on text: a payload with one character outside the
/// alphabet and its padding, at any place, fails as a whole with a decode
/// error, and so gives no bytes to write.
pub proof fn decoding_is_strict(url: Seq<char>, i: int)
    requires
        url.contains(','),
        0 <= i < text_payload(url).len(),
        !is_alphabet_char(text_payload(url)[i]),
    ensures
        text_outcome(url) is Err,
        text_outcome(url)->Err_0 is DecodeFailure,
{
    let bytes = encode_utf8(text_payload(url));
    lemma_outside_alphabet_in_utf8(text_payload(url), i);
    if is_canonical(bytes) {
        lemma_canonical_alphabet(bytes);
    }
}

/// Padding is required: a payload whose UTF-8 form is not made of whole quads
/// fails as a whole with a decode error, and so gives no bytes to write.
pub proof fn padding_is_required(url: Seq<char>)
    requires
        url.contains(','),
        encode_utf8(text_payload(url)).len() % 4 != 0,
    ensures
        text_outcome(url) is Err,
        text_outcome(url)->Err_0 is DecodeFailure,
{
    if is_canonical(encode_utf8(text_payload(url))) {
        lemma_canonical_len(encode_utf8(text_payload(url)));
    }
}

/// The first comma parts the data URL: with nothing behind the only comma the
/// payload is empty, and the export gives the empty image.
pub proof fn empty_payload_is_empty_image(metadata: Seq<char>)
    requires
        !metadata.contains(','),
    ensures
        text_outcome(metadata + seq![',']) == Ok::<Seq<u8>, ExportError>(Seq::<u8>::empty()),
{
    round_trip(metadata, Seq::<u8>::empty());
    assert(metadata + seq![','] + ascii_text(encode(Seq::<u8>::empty())) =~= metadata + seq![',']);
}

/// Only the first comma parts the data URL: whatever follows it, further
/// commas included, is the payload.
pub proof fn first_comma_parts_the_url(metadata: Seq<char>, rest: Seq<char>)
    requires
        !metadata.contains(','),
    ensures
        text_payload(metadata + seq![','] + rest) == rest,
{
    let url = metadata + seq![','] + rest;
    assert forall|j: int| 0 <= j < metadata.len() implies url[j] != ',' by {
        assert(metadata.contains(metadata[j]));
    }
    lemma_first_index_is(url, ',', metadata.len() as int);
    assert(text_payload(url) =~= rest);
}

} // verus!
