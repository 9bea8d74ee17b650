use lebe::io::bytes::{read_slice, read_value, slice_as_bytes, value_as_bytes, write_slice, write_value};
use lebe::order::native;
use lebe::prelude::{ByteOrder, Endian, ReadEndian, ReadPrimitives, WriteEndian};

#[test]
fn write_u32_in_both_orders() {
    let mut out: Vec<u8> = Vec::new();
    out.write_as_little_endian(&0x01020304u32).unwrap();
    out.write_as_big_endian(&0x01020304u32).unwrap();
    assert_eq!(out, vec![4, 3, 2, 1, 1, 2, 3, 4]);
}

#[test]
fn write_signed_and_wide_values() {
    let mut out: Vec<u8> = Vec::new();
    out.write_as_big_endian(&-2i16).unwrap();
    out.write_as_little_endian(&0x0102030405060708u64).unwrap();
    out.write_as_big_endian(&0x000102030405060708090a0b0c0d0e0fu128).unwrap();
    out.write_as_little_endian(&-1i8).unwrap();
    let mut expected = vec![0xff, 0xfe, 8, 7, 6, 5, 4, 3, 2, 1];
    expected.extend(0u8..16);
    expected.push(0xff);
    assert_eq!(out, expected);
}

#[test]
fn write_slice_appends_each_element() {
    let mut out: Vec<u8> = vec![9];
    let values = [0x0102u16, 0x0304u16, 0x0506u16];
    out.write_as_big_endian(&values[..]).unwrap();
    assert_eq!(out, vec![9, 1, 2, 3, 4, 5, 6]);
    out.write_as_little_endian(&values[..]).unwrap();
    assert_eq!(out, vec![9, 1, 2, 3, 4, 5, 6, 2, 1, 4, 3, 6, 5]);
}

#[test]
fn write_empty_slice_writes_nothing() {
    let mut out: Vec<u8> = Vec::new();
    let values: [u64; 0] = [];
    out.write_as_big_endian(&values[..]).unwrap();
    assert!(out.is_empty());
}

#[test]
fn exact_byte_count_of_slice_write() {
    let values: Vec<i32> = (0..37).collect();
    let mut out: Vec<u8> = Vec::new();
    out.write_as_big_endian(values.as_slice()).unwrap();
    assert_eq!(out.len(), 37 * 4);
    let wide: Vec<u128> = (0..5).collect();
    out.write_as_little_endian(wide.as_slice()).unwrap();
    assert_eq!(out.len(), 37 * 4 + 5 * 16);
}

#[test]
fn read_value_in_both_orders() {
    let data = [1u8, 2, 3, 4, 5, 6, 7, 8];
    let mut input: &[u8] = &data;
    let mut a = 0u32;
    input.read_from_little_endian_into(&mut a).unwrap();
    assert_eq!(a, 0x04030201);
    let b: u32 = input.read_from_big_endian().unwrap();
    assert_eq!(b, 0x05060708);
    assert!(input.is_empty());
}

#[test]
fn read_consumes_exact_bytes() {
    let data = [0xffu8, 0xfe, 7, 8, 9];
    let mut input: &[u8] = &data;
    let v: i16 = input.read_from_big_endian().unwrap();
    assert_eq!(v, -2);
    assert_eq!(input, &[7u8, 8, 9][..]);
}

#[test]
fn short_read_fails_and_consumes_nothing() {
    let data = [1u8, 2, 3];
    let mut input: &[u8] = &data;
    let mut v = 77u32;
    let err = input.read_from_little_endian_into(&mut v).unwrap_err();
    assert_eq!(err.kind(), std::io::ErrorKind::UnexpectedEof);
    assert_eq!(v, 77);
    assert_eq!(input.len(), 3);
    let r: Result<u64, std::io::Error> = input.read_from_big_endian();
    assert!(r.is_err());
    assert_eq!(input.len(), 3);
}

#[test]
fn read_slice_in_both_orders() {
    let data = [0u8, 1, 0, 2, 0, 3, 1, 0];
    let mut input: &[u8] = &data;
    let mut be = [0u16; 3];
    input.read_from_big_endian_into(&mut be[..]).unwrap();
    assert_eq!(be, [1, 2, 3]);
    let mut le = [0u16; 1];
    input.read_from_little_endian_into(&mut le[..]).unwrap();
    assert_eq!(le, [1]);
    assert!(input.is_empty());
}

#[test]
fn short_slice_read_fails() {
    let data = [0u8; 15];
    let mut input: &[u8] = &data;
    let mut values = [5u32; 4];
    assert!(input.read_from_little_endian_into(&mut values[..]).is_err());
    assert_eq!(input.len(), 15);
    assert_eq!(values, [5u32; 4]);
}

#[test]
fn written_slice_reads_back() {
    let values: Vec<i64> = vec![-1, 0, 1, i64::MIN, i64::MAX, 0x0102030405060708];
    for order in [ByteOrder::Little, ByteOrder::Big] {
        let mut out: Vec<u8> = Vec::new();
        match order {
            ByteOrder::Little => out.write_as_little_endian(values.as_slice()).unwrap(),
            ByteOrder::Big => out.write_as_big_endian(values.as_slice()).unwrap(),
        }
        let mut input: &[u8] = &out;
        let mut back = vec![0i64; values.len()];
        match order {
            ByteOrder::Little => input.read_from_little_endian_into(back.as_mut_slice()).unwrap(),
            ByteOrder::Big => input.read_from_big_endian_into(back.as_mut_slice()).unwrap(),
        }
        assert_eq!(back, values);
        assert!(input.is_empty());
    }
}

#[test]
fn byte_views_follow_the_machine() {
    let v = 0x0A0B0C0Du32;
    assert_eq!(value_as_bytes(&v), v.to_ne_bytes().to_vec());
    let s = [0x0102u16, 0x0304u16];
    let mut expected = 0x0102u16.to_ne_bytes().to_vec();
    expected.extend(0x0304u16.to_ne_bytes());
    assert_eq!(slice_as_bytes(&s[..]), expected);
}

#[test]
fn raw_value_transfer_round_trip() {
    let mut out: Vec<u8> = Vec::new();
    write_value(&mut out, &0x1122334455667788u64);
    write_slice(&mut out, &[7i8, -7i8][..]);
    assert_eq!(out.len(), 10);
    let mut input: &[u8] = &out;
    let mut v = 0u64;
    read_value(&mut input, &mut v).unwrap();
    assert_eq!(v, 0x1122334455667788);
    let mut pair = [0i8; 2];
    read_slice(&mut input, &mut pair[..]).unwrap();
    assert_eq!(pair, [7, -7]);
    assert!(read_value(&mut input, &mut v).is_err());
}

#[test]
fn native_matches_machine() {
    let expected = if 1u16.to_ne_bytes()[0] == 1 { ByteOrder::Little } else { ByteOrder::Big };
    assert_eq!(native(), expected);
}

#[test]
fn empty_input_read_fails() {
    let mut input: &[u8] = &[];
    let r: Result<u8, std::io::Error> = input.read_from_little_endian();
    assert!(r.is_err());
    let mut none: [u32; 0] = [];
    assert!(input.read_from_big_endian_into(&mut none[..]).is_ok());
}

#[test]
fn single_bytes_never_change() {
    let mut b = 0xABu8;
    Endian::swap_bytes(&mut b);
    assert_eq!(b, 0xAB);
    let mut s = [1i8, -2, 3];
    s.convert_current_to_big_endian();
    assert_eq!(s, [1, -2, 3]);
}

#[test]
fn read_primitives_of_each_width() {
    let data: Vec<u8> = (1u8..=32).collect();
    let mut input: &[u8] = &data;
    assert_eq!(input.read_u8_from_little_endian().unwrap(), 1);
    assert_eq!(input.read_i8_from_big_endian().unwrap(), 2);
    assert_eq!(input.read_u16_from_big_endian().unwrap(), 0x0304);
    assert_eq!(input.read_i16_from_little_endian().unwrap(), 0x0605);
    assert_eq!(input.read_u32_from_little_endian().unwrap(), 0x0a090807);
    assert_eq!(input.read_i32_from_big_endian().unwrap(), 0x0b0c0d0e);
    assert_eq!(input.read_u64_from_big_endian().unwrap(), 0x0f10111213141516);
    assert_eq!(input.len(), 10);
    assert!(input.read_u128_from_little_endian().is_err());
    assert_eq!(input.len(), 10);
    assert_eq!(input.read_i64_from_little_endian().unwrap(), 0x1e1d1c1b1a191817);
    assert!(input.read_i128_from_big_endian().is_err());
    assert!(input.read_u32_from_big_endian().is_err());
    assert_eq!(input.read_u16_from_little_endian().unwrap(), 0x201f);
}

#[test]
fn read_primitives_wide() {
    let data: Vec<u8> = (0u8..32).collect();
    let mut input: &[u8] = &data;
    assert_eq!(input.read_u128_from_big_endian().unwrap(), 0x000102030405060708090a0b0c0d0e0f);
    assert_eq!(input.read_i128_from_little_endian().unwrap(), 0x1f1e1d1c1b1a19181716151413121110);
    assert!(input.is_empty());
}
