use base64::engine::general_purpose::STANDARD;
use base64::Engine;
use image_export::export::{
    conclude_export, decode_data_url, decode_data_url_bytes, export_result, prepare_export,
    WriteRequest,
};
use image_export::decoder::{decode_payload, DecodeFault};
use image_export::error::ExportError;
use image_export::separator::{find_separator, split_payload};

const PNG_SIGNATURE: [u8; 8] = [0x89, 0x50, 0x4E, 0x47, 0x0D, 0x0A, 0x1A, 0x0A];

#[test]
fn png_signature_is_decoded() {
    let bytes = decode_data_url("data:image/png;base64,iVBORw0KGgo=").unwrap();
    assert_eq!(bytes.len(), 8);
    assert_eq!(bytes, PNG_SIGNATURE.to_vec());
}

#[test]
fn url_without_comma_is_malformed() {
    let error = decode_data_url("nodata").unwrap_err();
    assert_eq!(error, ExportError::MalformedInput);
    assert_eq!(error.message(), "invalid image data url");
}

#[test]
fn empty_url_is_malformed() {
    assert_eq!(decode_data_url(""), Err(ExportError::MalformedInput));
}

#[test]
fn payload_outside_alphabet_is_refused() {
    let error = decode_data_url("prefix,not_base64!!").unwrap_err();
    assert_eq!(
        error,
        ExportError::DecodeFailure(DecodeFault::InvalidByte { offset: 3, byte: b'_' })
    );
    let message = error.message();
    assert!(message.starts_with("failed to decode image data: "));
    assert_eq!(message, "failed to decode image data: Invalid symbol 95, offset 3.");
}

#[test]
fn space_in_payload_is_refused() {
    let error = decode_data_url("data:image/png;base64,aGVs bG8=").unwrap_err();
    assert_eq!(
        error,
        ExportError::DecodeFailure(DecodeFault::InvalidByte { offset: 4, byte: b' ' })
    );
}

#[test]
fn line_break_in_payload_is_refused() {
    assert!(matches!(
        decode_data_url("x,aGVs\nbG8="),
        Err(ExportError::DecodeFailure(DecodeFault::InvalidByte { .. }))
    ));
}

#[test]
fn empty_payload_gives_no_bytes() {
    assert_eq!(decode_data_url("data:image/png;base64,"), Ok(Vec::new()));
}

#[test]
fn only_a_comma_gives_no_bytes() {
    assert_eq!(decode_data_url(","), Ok(Vec::new()));
}

#[test]
fn payload_starts_after_the_first_comma() {
    assert_eq!(split_payload(b"a,b,c"), Some(&b"b,c"[..]));
    assert_eq!(
        decode_data_url("a,b,c"),
        Err(ExportError::DecodeFailure(DecodeFault::InvalidByte { offset: 1, byte: b',' }))
    );
    assert_eq!(decode_data_url("a,QUJD,"), Err(ExportError::DecodeFailure(
        DecodeFault::InvalidByte { offset: 4, byte: b',' }
    )));
}

#[test]
fn separator_is_found_at_its_first_place() {
    assert_eq!(find_separator(b""), None);
    assert_eq!(find_separator(b"nodata"), None);
    assert_eq!(find_separator(b","), Some(0));
    assert_eq!(find_separator(b"ab,cd,ef"), Some(2));
    assert_eq!(find_separator(b"abc,"), Some(3));
}

#[test]
fn payload_is_split_off() {
    assert_eq!(split_payload(b"nodata"), None);
    assert_eq!(split_payload(b"abc,"), Some(&b""[..]));
    assert_eq!(split_payload(b"data:image/png;base64,iVBORw0KGgo="), Some(&b"iVBORw0KGgo="[..]));
}

#[test]
fn metadata_is_not_validated() {
    assert_eq!(decode_data_url("d\u{e4}t\u{e4} \u{1F600},QUJD"), Ok(b"ABC".to_vec()));
    assert_eq!(decode_data_url_bytes(&[0xFF, 0x00, b',', b'Q', b'Q', b'=', b'=']), Ok(vec![b'A']));
}

#[test]
fn each_padding_length_is_decoded() {
    assert_eq!(decode_payload(b""), Ok(vec![]));
    assert_eq!(decode_payload(b"Zg=="), Ok(b"f".to_vec()));
    assert_eq!(decode_payload(b"Zm8="), Ok(b"fo".to_vec()));
    assert_eq!(decode_payload(b"Zm9v"), Ok(b"foo".to_vec()));
    assert_eq!(decode_payload(b"Zm9vYg=="), Ok(b"foob".to_vec()));
    assert_eq!(decode_payload(b"Zm9vYmE="), Ok(b"fooba".to_vec()));
    assert_eq!(decode_payload(b"Zm9vYmFy"), Ok(b"foobar".to_vec()));
    assert_eq!(decode_payload(b"+/+/"), Ok(vec![0xFB, 0xFF, 0xBF]));
    assert_eq!(decode_payload(b"/w=="), Ok(vec![0xFF]));
}

#[test]
fn missing_padding_is_refused() {
    assert_eq!(decode_payload(b"Zg"), Err(DecodeFault::InvalidPadding));
    assert_eq!(decode_payload(b"Zm8"), Err(DecodeFault::InvalidPadding));
    assert_eq!(decode_payload(b"Zg="), Err(DecodeFault::InvalidPadding));
    let error = decode_data_url("x,Zg").unwrap_err();
    assert_eq!(error.message(), "failed to decode image data: Invalid padding");
}

#[test]
fn single_symbol_is_refused() {
    assert_eq!(decode_payload(b"Z"), Err(DecodeFault::InvalidLength { length: 1 }));
    let error = decode_data_url("x,Zm9vY").unwrap_err();
    assert_eq!(error, ExportError::DecodeFailure(DecodeFault::InvalidLength { length: 5 }));
    assert_eq!(error.message(), "failed to decode image data: Invalid input length: 5");
}

#[test]
fn stray_bits_in_last_symbol_are_refused() {
    assert_eq!(
        decode_payload(b"AB=="),
        Err(DecodeFault::InvalidLastSymbol { offset: 1, byte: b'B' })
    );
    assert_eq!(
        decode_payload(b"Zm9vYmF="),
        Err(DecodeFault::InvalidLastSymbol { offset: 6, byte: b'F' })
    );
    let error = decode_data_url("x,AB==").unwrap_err();
    assert_eq!(error.message(), "failed to decode image data: Invalid last symbol 66, offset 1.");
}

#[test]
fn padding_before_the_end_is_refused() {
    assert_eq!(
        decode_payload(b"Zg==Zm9v"),
        Err(DecodeFault::InvalidByte { offset: 2, byte: b'=' })
    );
    assert_eq!(decode_payload(b"===="), Err(DecodeFault::InvalidByte { offset: 0, byte: b'=' }));
    assert_eq!(decode_payload(b"Z==="), Err(DecodeFault::InvalidByte { offset: 1, byte: b'=' }));
}

#[test]
fn url_safe_alphabet_is_refused() {
    assert_eq!(
        decode_payload(b"-_-_"),
        Err(DecodeFault::InvalidByte { offset: 0, byte: b'-' })
    );
}

#[test]
fn fault_descriptions_use_decimal_numbers() {
    assert_eq!(
        DecodeFault::InvalidByte { offset: 0, byte: 0 }.describe(),
        "Invalid symbol 0, offset 0."
    );
    assert_eq!(
        DecodeFault::InvalidByte { offset: 1234567, byte: 255 }.describe(),
        "Invalid symbol 255, offset 1234567."
    );
    assert_eq!(DecodeFault::InvalidLength { length: 10 }.describe(), "Invalid input length: 10");
    assert_eq!(
        DecodeFault::InvalidLastSymbol { offset: 109, byte: 100 }.describe(),
        "Invalid last symbol 100, offset 109."
    );
    assert_eq!(DecodeFault::InvalidPadding.describe(), "Invalid padding");
}

#[test]
fn write_failure_message_carries_the_diagnostic() {
    let error = ExportError::WriteFailure(String::from("Permission denied (os error 13)"));
    assert_eq!(error.message(), "failed to save image: Permission denied (os error 13)");
    assert_eq!(ExportError::WriteFailure(String::new()).message(), "failed to save image: ");
}

#[test]
fn decoder_outcome_becomes_export_outcome() {
    assert_eq!(export_result(Ok(vec![1, 2, 3])), Ok(vec![1, 2, 3]));
    assert_eq!(
        export_result(Err(DecodeFault::InvalidPadding)),
        Err(ExportError::DecodeFailure(DecodeFault::InvalidPadding))
    );
}

#[test]
fn encoded_bytes_come_back() {
    let mut bytes: Vec<u8> = Vec::new();
    for length in 0..=300usize {
        let url = format!("data:image/png;base64,{}", STANDARD.encode(&bytes));
        assert_eq!(decode_data_url(&url), Ok(bytes.clone()));
        bytes.push((length * 37 % 256) as u8);
    }
}

#[test]
fn every_byte_value_comes_back() {
    let bytes: Vec<u8> = (0..=255u8).collect();
    let url = format!(",{}", STANDARD.encode(&bytes));
    assert_eq!(decode_data_url(&url), Ok(bytes));
}

#[test]
fn later_export_does_not_depend_on_earlier_one() {
    let first = decode_data_url("data:image/png;base64,Zm9vYmFy").unwrap();
    let second = decode_data_url("data:image/png;base64,YmF6").unwrap();
    assert_eq!(first, b"foobar".to_vec());
    assert_eq!(second, b"baz".to_vec());
    assert_eq!(decode_data_url("data:image/png;base64,YmF6").unwrap(), second);
}

#[test]
fn export_is_prepared_for_the_chosen_path() {
    let request =
        prepare_export(String::from("/tmp/out.png"), "data:image/png;base64,iVBORw0KGgo=").unwrap();
    assert_eq!(request.path, "/tmp/out.png");
    assert_eq!(request.bytes, PNG_SIGNATURE.to_vec());
    assert_eq!(
        prepare_export(String::from("relative/dir/out.png"), "x,"),
        Ok(WriteRequest { path: String::from("relative/dir/out.png"), bytes: Vec::new() })
    );
}

#[test]
fn failed_preparation_asks_for_no_write() {
    assert_eq!(
        prepare_export(String::from("/tmp/out.png"), "nodata"),
        Err(String::from("invalid image data url"))
    );
    let message = prepare_export(String::from("/tmp/out.png"), "prefix,not_base64!!").unwrap_err();
    assert!(message.starts_with("failed to decode image data: "));
    assert_eq!(message, "failed to decode image data: Invalid symbol 95, offset 3.");
}

#[test]
fn second_export_to_a_path_carries_only_its_own_bytes() {
    let first = prepare_export(String::from("/tmp/out.png"), "a,Zm9vYmFy").unwrap();
    let second = prepare_export(String::from("/tmp/out.png"), "a,YmF6").unwrap();
    assert_eq!(first.path, second.path);
    assert_eq!(first.bytes, b"foobar".to_vec());
    assert_eq!(second.bytes, b"baz".to_vec());
}

#[test]
fn write_outcome_becomes_the_reply() {
    assert_eq!(conclude_export(Ok(())), Ok(()));
    assert_eq!(
        conclude_export(Err(String::from("No such file or directory (os error 2)"))),
        Err(String::from("failed to save image: No such file or directory (os error 2)"))
    );
}
