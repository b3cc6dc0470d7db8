//! The export itself: from a data URL to the bytes that are to be written, or
//! to the error that is to be reported in place of any write.

use vstd::prelude::*;
use vstd::utf8::encode_utf8;
use crate::decoder::{decode_payload, payload_outcome, DecodeFault};
use crate::error::ExportError;
use crate::separator::{has_separator, payload, split_payload};
use crate::text::{lemma_comma_in_utf8, text_payload};

verus! {

/// What the export of `url` gives: the bytes to write, or the error to report.
pub open spec fn export_outcome(url: Seq<u8>) -> Result<Seq<u8>, ExportError> {
    if !has_separator(url) {
        Err(ExportError::MalformedInput)
    } else {
        match payload_outcome(payload(url)) {
            Ok(bytes) => Ok(bytes),
            Err(fault) => Err(ExportError::DecodeFailure(fault)),
        }
    }
}

/// What the export of the text `url` gives: an error where it holds no comma,
/// else what decoding the UTF-8 form of the text after the first comma gives.
pub open spec fn text_outcome(url: Seq<char>) -> Result<Seq<u8>, ExportError> {
    if !url.contains(',') {
        Err(ExportError::MalformedInput)
    } else {
        match payload_outcome(encode_utf8(text_payload(url))) {
            Ok(bytes) => Ok(bytes),
            Err(fault) => Err(ExportError::DecodeFailure(fault)),
        }
    }
}

/// The export of a text is the export of its UTF-8 form.
pub proof fn lemma_text_outcome(url: Seq<char>)
    ensures
        text_outcome(url) == export_outcome(encode_utf8(url)),
{
    lemma_comma_in_utf8(url);
}

/// Turns what the decoder said of the payload into what the export says.
pub fn export_result(decoded: Result<Vec<u8>, DecodeFault>) -> (res: Result<Vec<u8>, ExportError>)
    ensures
        match decoded {
            Ok(bytes) => res == Ok::<Vec<u8>, ExportError>(bytes),
            Err(fault) => res == Err::<Vec<u8>, ExportError>(ExportError::DecodeFailure(fault)),
        },
{
    match decoded {
        Ok(bytes) => Ok(bytes),
        Err(fault) => Err(ExportError::DecodeFailure(fault)),
    }
}

/// Decodes the image that the data URL `url` carries, given as bytes.
pub fn decode_data_url_bytes(url: &[u8]) -> (res: Result<Vec<u8>, ExportError>)
    ensures
        match res {
            Ok(bytes) => export_outcome(url@) == Ok::<Seq<u8>, ExportError>(bytes@),
            Err(error) => export_outcome(url@) == Err::<Seq<u8>, ExportError>(error),
        },
{
    match split_payload(url) {
        None => Err(ExportError::MalformedInput),
        Some(rest) => export_result(decode_payload(rest)),
    }
}

/// Decodes the image that the data URL `data_url` carries: the bytes that are
/// to be written to the chosen path, or the error that is to be reported in
/// place of any write.
pub fn decode_data_url(data_url: &str) -> (res: Result<Vec<u8>, ExportError>)
    ensures
        match res {
            Ok(bytes) => text_outcome(data_url@) == Ok::<Seq<u8>, ExportError>(bytes@),
            Err(error) => text_outcome(data_url@) == Err::<Seq<u8>, ExportError>(error),
        },
{
    proof {
        lemma_text_outcome(data_url@);
    }
    decode_data_url_bytes(data_url.as_bytes())
}

/// The one write that a successful export asks of its caller: create the file
/// at `path`, or empty the one that is there, and write `bytes` to it whole.
#[derive(Debug, PartialEq, Eq)]
pub struct WriteRequest {
    /// The destination, as the caller of the command chose it.
    pub path: String,
    /// The decoded image.
    pub bytes: Vec<u8>,
}

/// The first half of the export command: decodes the image of `data_url` and
/// asks for its write to `path`, or answers with the message of the error.
/// Nothing is to be written where it answers with a message.
pub fn prepare_export(path: String, data_url: &str) -> (res: Result<WriteRequest, String>)
    ensures
        match res {
            Ok(request) => request.path == path && text_outcome(data_url@) == Ok::<
                Seq<u8>,
                ExportError,
            >(request.bytes@),
            Err(message) => text_outcome(data_url@) matches Err(error) && message@
                == error.message_text(),
        },
{
    match decode_data_url(data_url) {
        Ok(bytes) => Ok(WriteRequest { path, bytes }),
        Err(error) => Err(error.message()),
    }
}

/// The second half of the export command: what it answers once the write was
/// tried. `written` holds the system's diagnostic where the write failed.
pub fn conclude_export(written: Result<(), String>) -> (res: Result<(), String>)
    ensures
        match written {
            Ok(_) => res is Ok,
            Err(details) => res matches Err(message) && message@ == ExportError::WriteFailure(
                details,
            ).message_text(),
        },
{
    match written {
        Ok(_) => Ok(()),
        Err(details) => Err(ExportError::WriteFailure(details).message()),
    }
}

} // verus!
