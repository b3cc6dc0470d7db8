//! Export of an image that arrives as a data URL.
//!
//! A data URL is a text of the form `<metadata>,<payload>`; the payload is the
//! image in standard base64. The library finds the payload, has it decoded, and
//! hands back the bytes that the caller is to write to the chosen path, or the
//! error that the caller is to report. It holds no state and touches no file.

pub mod alphabet;
pub mod bootstrap;
pub mod decoder;
pub mod encoding;
pub mod error;
pub mod export;
pub mod laws;
pub mod separator;
pub mod text;
