//! Decoding of a base64 payload by the `base64` crate's standard engine, and
//! the faults that it reports.

use vstd::prelude::*;
use base64::Engine;
use crate::encoding::{
    decoded, encode, is_canonical, is_encoding, lemma_decoded_of_encode,
    lemma_encoding_is_canonical,
};

verus! {

/// Why a payload was refused, as the decoder reports it.
#[derive(Clone, Copy, Debug, PartialEq, Eq)]
pub enum DecodeFault {
    /// A byte that may not stand at `offset`: one outside the alphabet, or
    /// padding before the end.
    InvalidByte { offset: usize, byte: u8 },
    /// The number of symbols cannot be that of a base64 text.
    InvalidLength { length: usize },
    /// The last symbol before the padding holds bits that no byte would take.
    InvalidLastSymbol { offset: usize, byte: u8 },
    /// The padding is missing or not of the right length.
    InvalidPadding,
}

/// The fault that the standard engine reports for `input`, a text that is not
/// the encoding of any bytes.
pub uninterp spec fn standard_decode_fault(input: Seq<u8>) -> DecodeFault;

/// `base64::engine::general_purpose::STANDARD.decode`, of the trait
/// `base64::Engine`.
///
/// Believed, not proved: the engine accepts exactly the standard padded
/// encodings and returns the bytes that `input` encodes; on any other input it
/// reports a fault that depends on `input` alone. The body only renames the
/// variants of `base64::DecodeError`.
#[verifier::external_body]
fn standard_decode(input: &[u8]) -> (res: Result<Vec<u8>, DecodeFault>)
    ensures
        match res {
            Ok(bytes) => encode(bytes@) == input@,
            Err(fault) => !is_encoding(input@) && fault == standard_decode_fault(input@),
        },
{
    match base64::engine::general_purpose::STANDARD.decode(input) {
        Ok(bytes) => Ok(bytes),
        Err(base64::DecodeError::InvalidByte(offset, byte)) => Err(
            DecodeFault::InvalidByte { offset, byte },
        ),
        Err(base64::DecodeError::InvalidLength(length)) => Err(
            DecodeFault::InvalidLength { length },
        ),
        Err(base64::DecodeError::InvalidLastSymbol(offset, byte)) => Err(
            DecodeFault::InvalidLastSymbol { offset, byte },
        ),
        Err(base64::DecodeError::InvalidPadding) => Err(DecodeFault::InvalidPadding),
    }
}

/// What decoding `payload` gives: its bytes where it is canonical, else the
/// decoder's fault.
pub open spec fn payload_outcome(payload: Seq<u8>) -> Result<Seq<u8>, DecodeFault> {
    if is_canonical(payload) {
        Ok(decoded(payload))
    } else {
        Err(standard_decode_fault(payload))
    }
}

/// Decodes a base64 payload strictly: the whole of it, or nothing.
pub fn decode_payload(payload: &[u8]) -> (res: Result<Vec<u8>, DecodeFault>)
    ensures
        res is Ok <==> is_canonical(payload@),
        match res {
            Ok(bytes) => payload_outcome(payload@) == Ok::<Seq<u8>, DecodeFault>(bytes@),
            Err(fault) => payload_outcome(payload@) == Err::<Seq<u8>, DecodeFault>(fault),
        },
{
    let res = standard_decode(payload);
    proof {
        lemma_encoding_is_canonical(payload@);
        if res is Ok {
            lemma_decoded_of_encode(res->Ok_0@);
        }
    }
    res
}

/// The decimal digit `d`, as a character.
pub open spec fn digit(d: nat) -> char
    recommends
        d < 10,
{
    (d + 48) as u8 as char
}

/// The decimal numeral of `n`, without sign or leading zeros.
pub open spec fn decimal(n: nat) -> Seq<char>
    decreases n,
{
    if n < 10 {
        seq![digit(n)]
    } else {
        decimal(n / 10).push(digit(n % 10))
    }
}

/// The decoder's own words for `fault`.
pub open spec fn fault_text(fault: DecodeFault) -> Seq<char> {
    match fault {
        DecodeFault::InvalidByte { offset, byte } => "Invalid symbol "@ + decimal(byte as nat)
            + ", offset "@ + decimal(offset as nat) + "."@,
        DecodeFault::InvalidLength { length } => "Invalid input length: "@ + decimal(
            length as nat,
        ),
        DecodeFault::InvalidLastSymbol { offset, byte } => "Invalid last symbol "@ + decimal(
            byte as nat,
        ) + ", offset "@ + decimal(offset as nat) + "."@,
        DecodeFault::InvalidPadding => "Invalid padding"@,
    }
}

/// `to_string` on a `base64::DecodeError`, through its impl of
/// `std::fmt::Display`.
///
/// Believed, not proved: the text is the one that the impl writes for each
/// variant, with the numbers in decimal. The body only builds the
/// `base64::DecodeError` that `fault` mirrors.
#[verifier::external_body]
fn describe_fault(fault: DecodeFault) -> (text: String)
    ensures
        text@ == fault_text(fault),
{
    match fault {
        DecodeFault::InvalidByte { offset, byte } => base64::DecodeError::InvalidByte(
            offset,
            byte,
        ),
        DecodeFault::InvalidLength { length } => base64::DecodeError::InvalidLength(length),
        DecodeFault::InvalidLastSymbol { offset, byte } => base64::DecodeError::InvalidLastSymbol(
            offset,
            byte,
        ),
        DecodeFault::InvalidPadding => base64::DecodeError::InvalidPadding,
    }.to_string()
}

impl DecodeFault {
    /// The decoder's diagnostic for this fault.
    pub fn describe(&self) -> (text: String)
        ensures
            text@ == fault_text(*self),
    {
        describe_fault(*self)
    }
}

} // verus!
