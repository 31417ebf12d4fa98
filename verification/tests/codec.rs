use wasm_syntax::codec::Decode;
use wasm_syntax::codec::DecodeError;
use wasm_syntax::codec::Encode;
use wasm_syntax::codec::F32Bits;
use wasm_syntax::codec::F64Bits;
use wasm_syntax::codec::Name;
use wasm_syntax::codec::Repeated;
use wasm_syntax::codec::Sized;

#[test]
fn test_u32_leb128_encode() {
    let mut buffer = vec![];
    123u32.encode(&mut buffer);
    assert_eq!(buffer, vec![0x7b]);

    let mut buffer = vec![];
    101010u32.encode(&mut buffer);
    assert_eq!(buffer, vec![0x92, 0x95, 0x6]);
}

#[test]
fn test_u32_leb128_decode() {
    assert_eq!(u32::decode(&[0x7b]).unwrap(), (123u32, [].as_ref()));
    assert_eq!(
        u32::decode(&[0x92, 0x95, 0x6, 0x12]).unwrap(),
        (101010u32, [0x12].as_ref())
    );
}

#[test]
fn test_i32_leb128_encode() {
    let mut buffer = vec![];
    (-123456i32).encode(&mut buffer);
    assert_eq!(buffer, vec![0xc0, 0xbb, 0x78]);
}

#[test]
fn test_i32_leb128_decode() {
    assert_eq!(
        i32::decode(&[0xc0, 0xbb, 0x78]).unwrap(),
        (-123456i32, [].as_ref())
    );
}

#[test]
fn test_repeated_decode() {
    let bytes = [0x02, 0x03, 0x01, 0x00, 0x00];
    let (xs, rest): (Repeated<u8>, _) = Repeated::decode(&bytes).unwrap();
    assert_eq!(rest, []);
    assert_eq!(xs.0, bytes);
}

#[test]
fn test_u64_leb128_round_trip() {
    for v in [0u64, 1, 127, 128, 300, u64::MAX - 1, u64::MAX] {
        let mut buffer = vec![];
        v.encode(&mut buffer);
        let (back, rest) = u64::decode(&buffer).unwrap();
        assert_eq!(back, v);
        assert_eq!(rest, []);
    }
}

#[test]
fn test_u32_rejects_overlong_fifth_byte() {
    // fifth byte greater than 0x0F would overflow 32 bits
    assert_eq!(
        u32::decode(&[0x80, 0x80, 0x80, 0x80, 0x10]),
        Err(DecodeError::Error)
    );
    // 0x0F as the fifth byte is the largest that fits
    let (v, rest) = u32::decode(&[0xFF, 0xFF, 0xFF, 0xFF, 0x0F]).unwrap();
    assert_eq!(v, u32::MAX);
    assert_eq!(rest, []);
}

#[test]
fn test_u32_rejects_non_minimal() {
    // 0 has exactly one accepted encoding
    assert_eq!(u32::decode(&[0x80, 0x00]), Err(DecodeError::Error));
    assert_eq!(u32::decode(&[0x00]).unwrap(), (0u32, [].as_ref()));
}

#[test]
fn test_i32_extreme_round_trips() {
    for v in [i32::MIN, i32::MIN + 1, -1, 0, 1, i32::MAX - 1, i32::MAX] {
        let mut buffer = vec![];
        v.encode(&mut buffer);
        let (back, rest) = i32::decode(&buffer).unwrap();
        assert_eq!(back, v);
        assert_eq!(rest, []);
    }
}

#[test]
fn test_i64_extreme_round_trips() {
    for v in [i64::MIN, i64::MIN + 1, -1, 0, 1, i64::MAX - 1, i64::MAX] {
        let mut buffer = vec![];
        v.encode(&mut buffer);
        let (back, rest) = i64::decode(&buffer).unwrap();
        assert_eq!(back, v);
        assert_eq!(rest, []);
    }
}

#[test]
fn test_float_bits_round_trip() {
    let mut buffer = vec![];
    F32Bits(0x4048F5C3).encode(&mut buffer);
    assert_eq!(buffer, vec![0xC3, 0xF5, 0x48, 0x40]);
    let (back, rest) = F32Bits::decode(&buffer).unwrap();
    assert_eq!(back, F32Bits(0x4048F5C3));
    assert_eq!(rest, []);

    let mut buffer = vec![];
    F64Bits(0x4009_21FB_5444_2D18).encode(&mut buffer);
    let (back, rest) = F64Bits::decode(&buffer).unwrap();
    assert_eq!(back, F64Bits(0x4009_21FB_5444_2D18));
    assert_eq!(rest, []);
}

#[test]
fn test_name_round_trip() {
    let mut buffer = vec![];
    Name(String::from("name")).encode(&mut buffer);
    assert_eq!(buffer, vec![0x04, 0x6E, 0x61, 0x6D, 0x65]);
    let (back, rest) = Name::decode(&buffer).unwrap();
    assert_eq!(back.0, "name");
    assert_eq!(rest, []);
}

#[test]
fn test_name_rejects_invalid_utf8() {
    assert_eq!(Name::decode(&[0x02, 0xFF, 0xFE]), Err(DecodeError::Error));
}

#[test]
fn test_vec_round_trip_and_element_failure() {
    let mut buffer = vec![];
    vec![1u32, 300u32].encode(&mut buffer);
    assert_eq!(buffer, vec![0x02, 0x01, 0xAC, 0x02]);
    let (back, rest) = Vec::<u32>::decode(&buffer).unwrap();
    assert_eq!(back, vec![1u32, 300u32]);
    assert_eq!(rest, []);
    // length says two elements but only one follows
    assert_eq!(Vec::<u32>::decode(&[0x02, 0x01]), Err(DecodeError::Error));
}

#[test]
fn test_sized_rejects_residual_bytes() {
    // declared size exceeds what the inner value consumes
    assert_eq!(
        Sized::<u8>::decode(&[0x02, 0x07, 0x08]),
        Err(DecodeError::Error)
    );
    // declared size falls short of what the inner value needs
    assert_eq!(Sized::<u32>::decode(&[0x01, 0x85]), Err(DecodeError::Error));
    // exact size round-trips
    let (v, rest) = Sized::<u8>::decode(&[0x01, 0x07, 0x08]).unwrap();
    assert_eq!(v, Sized(7u8));
    assert_eq!(rest, [0x08]);
}

#[test]
fn test_empty_buffer_fails() {
    assert!(u8::decode(&[]).is_err());
    assert!(u32::decode(&[]).is_err());
    assert!(i32::decode(&[]).is_err());
    assert!(u64::decode(&[]).is_err());
    assert!(i64::decode(&[]).is_err());
    assert!(Name::decode(&[]).is_err());
    assert!(Vec::<u8>::decode(&[]).is_err());
    assert!(Sized::<u8>::decode(&[]).is_err());
    assert!(F32Bits::decode(&[]).is_err());
    assert!(F64Bits::decode(&[]).is_err());
}
