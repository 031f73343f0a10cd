use bsor::vector::Vector3;
use bsor::vector::Vector4;

#[test]
fn it_can_load_vector3() {
    let floats = [1.0f32, 1.5, 2.0];
    let mut u8_vec: Vec<u8> = Vec::with_capacity(floats.len() * 4);

    for i in 0..floats.len() {
        u8_vec.extend_from_slice(&f32::to_le_bytes(floats[i]));
    }
    let mut pos: usize = 0;

    let result = Vector3::load(&u8_vec, &mut pos).unwrap();

    assert_eq!(floats[0], f32::from_bits(result.x));
    assert_eq!(floats[1], f32::from_bits(result.y));
    assert_eq!(floats[2], f32::from_bits(result.z));
}

#[test]
fn it_can_load_vector4() {
    let floats = [1.0f32, 1.5, 2.0, 2.5];
    let mut u8_vec: Vec<u8> = Vec::with_capacity(floats.len() * 4);

    for i in 0..floats.len() {
        u8_vec.extend_from_slice(&f32::to_le_bytes(floats[i]));
    }
    let mut pos: usize = 0;

    let result = Vector4::load(&u8_vec, &mut pos).unwrap();

    assert_eq!(floats[0], f32::from_bits(result.x));
    assert_eq!(floats[1], f32::from_bits(result.y));
    assert_eq!(floats[2], f32::from_bits(result.z));
    assert_eq!(floats[3], f32::from_bits(result.w));
}

#[test]
fn it_can_convert_vector3_to_vector4() {
    let v3 = Vector3 { x: 1.0f32.to_bits(), y: 2.0f32.to_bits(), z: 3.0f32.to_bits() };

    let v4 = Vector4::from(v3.clone());

    assert_eq!(v3.x, v4.x);
    assert_eq!(v3.y, v4.y);
    assert_eq!(v3.z, v4.z);
    assert_eq!(0.0f32, f32::from_bits(v4.w));
}

#[test]
fn it_can_convert_vector4_to_vector3() {
    let v4 = Vector4 {
        x: 1.0f32.to_bits(),
        y: 2.0f32.to_bits(),
        z: 3.0f32.to_bits(),
        w: 4.0f32.to_bits(),
    };

    let v3 = Vector3::from(v4.clone());

    assert_eq!(v3.x, v4.x);
    assert_eq!(v3.y, v4.y);
    assert_eq!(v3.z, v4.z);
}

#[test]
fn it_return_error_when_header_magic_is_invalid() {
    let mut buf = i32::to_le_bytes(bsor::replay::BSOR_MAGIC + 1).to_vec();
    buf.push(1);
    let mut pos: usize = 0;

    let result = bsor::header::Header::load(&buf, &mut pos);

    assert!(matches!(result, Err(bsor::error::BsorError::InvalidBsor)));
}

#[test]
fn it_return_error_when_header_version_is_invalid() {
    let invalid_version = 2u8;

    let mut buf = i32::to_le_bytes(bsor::replay::BSOR_MAGIC).to_vec();
    buf.push(invalid_version);
    let mut pos: usize = 0;

    let result = bsor::header::Header::load(&buf, &mut pos);

    assert!(matches!(result, Err(bsor::error::BsorError::UnsupportedVersion(_))));

    let reported_version = match result {
        Ok(_) => panic!("should be error!"),
        Err(bsor::error::BsorError::UnsupportedVersion(v)) => v,
        _ => panic!("invalid error"),
    };

    assert_eq!(invalid_version, reported_version)
}

#[test]
fn it_can_load_header() {
    let mut buf = i32::to_le_bytes(bsor::replay::BSOR_MAGIC).to_vec();
    buf.push(1);
    let mut pos: usize = 0;

    let result = bsor::header::Header::load(&buf, &mut pos);

    assert!(!result.is_err());
    assert_eq!(result.unwrap().version, 1);
}
