use lebe::io::bytes::slice_as_bytes;
use lebe::kernel::{reverse_lanes, write_u32s_swapped};
use lebe::order::native;
use lebe::prelude::{ByteOrder, Endian, WriteEndian};

#[test]
fn swap_reverses_bytes() {
    let mut a = 0x0102u16;
    Endian::swap_bytes(&mut a);
    assert_eq!(a, 0x0201);
    let mut b = 0x01020304u32;
    Endian::swap_bytes(&mut b);
    assert_eq!(b, 0x04030201);
    let mut c = 0x0102030405060708u64;
    Endian::swap_bytes(&mut c);
    assert_eq!(c, 0x0807060504030201);
    let mut d = 0x000102030405060708090a0b0c0d0e0fu128;
    Endian::swap_bytes(&mut d);
    assert_eq!(d, 0x0f0e0d0c0b0a09080706050403020100);
    let mut e = 0x0102i16;
    Endian::swap_bytes(&mut e);
    assert_eq!(e, 0x0201);
    let mut f = -2i32;
    Endian::swap_bytes(&mut f);
    assert_eq!(f, 0xfeffffffu32 as i32);
    let mut g = i64::MIN;
    Endian::swap_bytes(&mut g);
    assert_eq!(g, 0x80);
    let mut h = 1i128;
    Endian::swap_bytes(&mut h);
    assert_eq!(h, 1i128 << 120);
}

#[test]
fn double_swap_is_identity() {
    for v in [0u64, 1, 0x14F3EEBCCD93895A, u64::MAX, 0x8000000000000000] {
        let mut x = v;
        Endian::swap_bytes(&mut x);
        Endian::swap_bytes(&mut x);
        assert_eq!(x, v);
    }
    let mut s = [1i32, -1, 0x12345678, i32::MIN];
    s.swap_bytes();
    assert_eq!(s, [0x01000000, -1, 0x78563412, 0x80]);
    s.swap_bytes();
    assert_eq!(s, [1i32, -1, 0x12345678, i32::MIN]);
}

#[test]
fn round_trip_through_each_order() {
    let v = 0x0123456789ABCDEFu64;
    assert_eq!(v.from_current_into_little_endian().from_little_endian_into_current(), v);
    assert_eq!(v.from_current_into_big_endian().from_big_endian_into_current(), v);
    assert_eq!(v.from_little_endian_into_current().from_current_into_little_endian(), v);
    assert_eq!(v.from_big_endian_into_current().from_current_into_big_endian(), v);
    let mut s = [0x1234u16, 0xABCD];
    s.convert_current_to_big_endian();
    s.convert_big_endian_to_current();
    assert_eq!(s, [0x1234u16, 0xABCD]);
    s.convert_little_endian_to_current();
    s.convert_current_to_little_endian();
    assert_eq!(s, [0x1234u16, 0xABCD]);
}

#[test]
fn native_order_conversion_is_no_op() {
    let v = 0x11223344i32;
    match native() {
        ByteOrder::Little => {
            assert_eq!(v.from_current_into_little_endian(), v);
            assert_eq!(v.from_current_into_big_endian(), 0x44332211);
        }
        ByteOrder::Big => {
            assert_eq!(v.from_current_into_big_endian(), v);
            assert_eq!(v.from_current_into_little_endian(), 0x44332211);
        }
    }
}

#[test]
fn conversion_matches_std() {
    let v = 0x0102030405060708090A0B0C0D0E0F10u128;
    assert_eq!(v.from_current_into_big_endian(), v.to_be());
    assert_eq!(v.from_current_into_little_endian(), v.to_le());
    assert_eq!(v.from_big_endian_into_current(), u128::from_be(v));
    assert_eq!(v.from_little_endian_into_current(), u128::from_le(v));
}

#[test]
fn float_bit_pattern_conversion() {
    let i = 0x14F3EEBCCD93895A_u64;
    let f = f64::from_bits(i);
    let converted = f64::from_bits(f.to_bits().from_current_into_big_endian());
    assert_eq!(converted.to_bits(), i.from_current_into_big_endian());
    assert_eq!(converted, f64::from_bits(i.to_be()));
    let g = 1.5f32;
    let back = f32::from_bits(g.to_bits().from_current_into_big_endian().from_big_endian_into_current());
    assert_eq!(back, g);
}

fn float_bits(len: usize) -> Vec<u32> {
    (0..len).map(|i| (i as f32 * 1.25 - 3.0).to_bits()).collect()
}

#[test]
fn kernel_matches_scalar_swap() {
    for len in [0usize, 1, 7, 8, 9, 32, 33, 1000] {
        let values = float_bits(len);
        let mut bytes = slice_as_bytes(values.as_slice());
        reverse_lanes(bytes.as_mut_slice());

        let mut swapped = values.clone();
        swapped.as_mut_slice().swap_bytes();
        assert_eq!(bytes, slice_as_bytes(swapped.as_slice()), "length {}", len);
    }
}

#[test]
fn kernel_writer_matches_scalar_writer() {
    for len in [0usize, 1, 7, 8, 9, 32, 33, 1000] {
        let values = float_bits(len);
        let mut by_kernel: Vec<u8> = vec![0xAA];
        write_u32s_swapped(&mut by_kernel, values.as_slice());
        let mut by_scalar: Vec<u8> = vec![0xAA];
        match native() {
            ByteOrder::Little => by_scalar.write_as_big_endian(values.as_slice()).unwrap(),
            ByteOrder::Big => by_scalar.write_as_little_endian(values.as_slice()).unwrap(),
        }
        assert_eq!(by_kernel, by_scalar, "length {}", len);
        assert_eq!(by_kernel.len(), 1 + 4 * len);
    }
}

#[test]
fn reverse_lanes_on_partial_chunk() {
    let mut bytes: Vec<u8> = (0u8..40).collect();
    reverse_lanes(bytes.as_mut_slice());
    let expected: Vec<u8> = (0u8..40).map(|i| i - i % 4 + (3 - i % 4)).collect();
    assert_eq!(bytes, expected);
    let mut empty: Vec<u8> = Vec::new();
    reverse_lanes(empty.as_mut_slice());
    assert!(empty.is_empty());
}
