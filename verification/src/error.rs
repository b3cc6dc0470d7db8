//! The three ways in which an export fails, and the message of each.

use vstd::prelude::*;
use vstd::string::*;
use crate::decoder::{fault_text, DecodeFault};

verus! {

/// Why an export was abandoned. No kind is retried; each is reported to the
/// caller as its message.
#[derive(Debug, PartialEq, Eq)]
pub enum ExportError {
    /// The data URL holds no comma, so no payload can be told from metadata.
    MalformedInput,
    /// The payload is not strictly valid base64.
    DecodeFailure(DecodeFault),
    /// The file could not be written; the field holds the system's diagnostic.
    WriteFailure(String),
}

impl ExportError {
    /// The message that the caller of the command receives.
    pub open spec fn message_text(self) -> Seq<char> {
        match self {
            ExportError::MalformedInput => "invalid image data url"@,
            ExportError::DecodeFailure(fault) => "failed to decode image data: "@ + fault_text(
                fault,
            ),
            ExportError::WriteFailure(details) => "failed to save image: "@ + details@,
        }
    }

    /// Renders the error as the message that the caller of the command
    /// receives.
    pub fn message(&self) -> (text: String)
        ensures
            text@ == self.message_text(),
    {
        match self {
            ExportError::MalformedInput => String::from_str("invalid image data url"),
            ExportError::DecodeFailure(fault) => {
                let details = fault.describe();
                String::from_str("failed to decode image data: ").concat(details.as_str())
            },
            ExportError::WriteFailure(details) => {
                String::from_str("failed to save image: ").concat(details.as_str())
            },
        }
    }
}

} // verus!
