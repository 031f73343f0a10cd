use bsor::error::BsorError;
use bsor::info::Info;
use bsor::read_utils::read_string;
use bsor::write_utils::append_str;

fn append_info_with_timestamp(buf: &mut Vec<u8>, timestamp: &str) {
    buf.push(0u8);
    append_str(buf, "0.5.4");
    append_str(buf, "1.27.0");
    append_str(buf, timestamp);
}

#[test]
fn it_can_convert_parse_int_error_to_bsor_error() {
    // A timestamp field that does not parse as a number surfaces as a
    // decoding failure of the Info section.
    let mut buf: Vec<u8> = Vec::new();
    append_info_with_timestamp(&mut buf, "invalid");

    let mut pos: usize = 0;
    let err = Info::load(&buf, &mut pos).expect_err("conversion error");
    assert!(matches!(err, BsorError::Decoding));
}

#[test]
fn it_can_convert_parse_utf8_error_to_bsor_error() {
    // A string field holding invalid UTF-8 surfaces as a decoding failure.
    let mut buf = i32::to_le_bytes(2).to_vec();
    buf.push(0xffu8);
    buf.push(0xffu8);

    let mut pos: usize = 0;
    let err = read_string(&buf, &mut pos).expect_err("conversion error");
    assert!(matches!(err, BsorError::Decoding));
}

#[test]
fn timestamp_with_plus_sign_parses() {
    let mut buf: Vec<u8> = Vec::new();
    append_info_with_timestamp(&mut buf, "+123");
    // The partial Info record ends here, so the load fails with a short
    // read only after the timestamp parsed.
    let mut pos: usize = 0;
    let err = Info::load(&buf, &mut pos).expect_err("short read");
    assert!(matches!(err, BsorError::Io));
}

#[test]
fn timestamp_overflow_is_a_decoding_error() {
    let mut buf: Vec<u8> = Vec::new();
    append_info_with_timestamp(&mut buf, "4294967296");

    let mut pos: usize = 0;
    let err = Info::load(&buf, &mut pos).expect_err("overflow");
    assert!(matches!(err, BsorError::Decoding));
}
