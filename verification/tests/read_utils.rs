use bsor::error::BsorError;
use bsor::read_utils::read_bool;
use bsor::read_utils::read_byte;
use bsor::read_utils::read_float;
use bsor::read_utils::read_float_multi;
use bsor::read_utils::read_int;
use bsor::read_utils::read_into_buffer;
use bsor::read_utils::read_long;
use bsor::read_utils::read_string;

#[test]
fn it_can_read_into_buffer() {
    let test_values = vec![0x1u8, 0x2, 0x3, 0x4];
    let mut buffer = vec![0u8; 4];
    let mut pos: usize = 0;

    read_into_buffer(&test_values, &mut pos, &mut buffer).unwrap();

    assert_eq!(buffer, test_values);
}

#[test]
fn it_returns_io_error() {
    let test_values = vec![0x1u8];
    let mut buffer = vec![0u8; 4];
    let mut pos: usize = 0;

    let result = read_into_buffer(&test_values, &mut pos, &mut buffer);

    assert!(result.is_err());
    assert!(matches!(result, Err(BsorError::Io)));
}

#[test]
fn it_can_read_int() {
    let test_replay_int_buf = vec![1u8, 2, 3, 4];
    let mut pos: usize = 0;

    let value = read_int(&test_replay_int_buf, &mut pos).unwrap();

    assert_eq!(value, i32::from_le_bytes([1, 2, 3, 4]));
}

#[test]
fn it_can_read_long() {
    let test_replay_long_buf = vec![1u8, 2, 3, 4, 5, 6, 7, 8];
    let mut pos: usize = 0;

    let value = read_long(&test_replay_long_buf, &mut pos).unwrap();

    assert_eq!(value, u64::from_le_bytes([1, 2, 3, 4, 5, 6, 7, 8]));
}

#[test]
fn it_can_read_float() {
    let f = 3.14f32;
    let test_replay_float_buf = f32::to_le_bytes(f).to_vec();
    let mut pos: usize = 0;

    let value = read_float(&test_replay_float_buf, &mut pos).unwrap();

    assert_eq!(f, f32::from_bits(value));
}

#[test]
fn it_can_read_byte() {
    let test_u8_buf = vec![1u8];
    let mut pos: usize = 0;

    let value = read_byte(&test_u8_buf, &mut pos).unwrap();

    assert_eq!(value, test_u8_buf[0]);
}

#[test]
fn it_can_read_bool() {
    let b = true;
    let test_bool_buf = vec![1u8];
    let mut pos: usize = 0;

    let value = read_bool(&test_bool_buf, &mut pos).unwrap();

    assert_eq!(b, value);
}

#[test]
fn it_can_read_string() {
    let test_string = "test_str";

    let len = test_string.len() as i32;
    let mut test_string_buf = i32::to_le_bytes(len).to_vec();
    test_string_buf.append(&mut test_string.as_bytes().to_vec());
    let mut pos: usize = 0;

    let value = read_string(&test_string_buf, &mut pos).unwrap();

    assert_eq!(value, test_string);
}

#[test]
fn it_can_read_multi_byte_string() {
    // A string whose UTF-8 encoding is longer than its character count;
    // this fails if the decoder hands raw bytes through unchanged.
    let test_string = "Unique Ability / ユニークアビリティ";

    let len = test_string.len() as i32;
    let mut buf = i32::to_le_bytes(len).to_vec();
    buf.append(&mut test_string.as_bytes().to_vec());
    let mut pos: usize = 0;

    let value = read_string(&buf, &mut pos).unwrap();

    assert_eq!(value, test_string);
    assert_eq!(value.chars().count(), 26);
    assert_eq!(pos, 4 + test_string.len());
}

#[test]
fn it_returns_decoding_error_if_string_is_invalid() {
    let invalid_string_buf = vec![0xffu8, 0xff];
    let mut pos: usize = 0;

    let result = read_string(&invalid_string_buf, &mut pos);

    assert!(result.is_err());
}

#[test]
fn it_returns_decoding_error_for_invalid_utf8() {
    // length 2, then two bytes that are not valid UTF-8
    let buf = vec![2u8, 0, 0, 0, 0xff, 0xff];
    let mut pos: usize = 0;

    let result = read_string(&buf, &mut pos);

    assert!(matches!(result, Err(BsorError::Decoding)));
    assert_eq!(pos, 0);
}

#[test]
fn it_can_read_multi_float() {
    let floats = vec![1.0f32, 1.5, 2.0, 2.5, 3.0];
    let mut u8_vec: Vec<u8> = Vec::with_capacity(floats.len() * 4);

    for i in 0..floats.len() {
        u8_vec.extend_from_slice(&f32::to_le_bytes(floats[i]));
    }
    let mut pos: usize = 0;

    let result = read_float_multi(&u8_vec, &mut pos, floats.len()).unwrap();

    let as_floats: Vec<f32> = result.iter().map(|bits| f32::from_bits(*bits)).collect();
    assert_eq!(floats, as_floats);
}
