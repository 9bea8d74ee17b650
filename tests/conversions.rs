use byteorder::{BigEndian, LittleEndian, WriteBytesExt};
use lebe::order::native;
use lebe::prelude::{ByteOrder, Endian, WriteEndian};

#[test]
fn make_le_u32_slice() {
    let n = 0x1Au32;

    let mut n_le = [n];
    n_le.convert_current_to_little_endian();

    if native() == ByteOrder::Little {
        assert_eq!(n_le, [n])
    } else {
        assert_eq!(n_le, [u32::swap_bytes(n)])
    }
}

#[test]
fn make_be_u32_slice() {
    let n = 0x1Au32;

    let mut n_be = [n];
    n_be.convert_current_to_big_endian();

    if native() == ByteOrder::Big {
        assert_eq!(n_be, [n])
    } else {
        assert_eq!(n_be, [n.swap_bytes()])
    }
}

#[test]
fn make_le_u16_slice() {
    let n = 0x1Au16;

    let mut n_le = [n];
    n_le.convert_current_to_little_endian();

    if native() == ByteOrder::Little {
        assert_eq!(n_le, [n])
    } else {
        assert_eq!(n_le, [n.swap_bytes()])
    }
}

#[test]
fn make_le_i64_slice() {
    let n1 = 0x14F3EEBCCD93895A_i64;
    let n2 = 0x114F3EF99B81CC5A_i64;

    let mut n_be = [n1, n2];
    n_be.convert_current_to_big_endian();

    if native() == ByteOrder::Big {
        assert_eq!(n_be, [n1, n2])
    } else {
        assert_eq!(n_be, [n1.swap_bytes(), n2.swap_bytes()])
    }
}

// A double is converted through its bit pattern, the 64-bit integer of the
// same width.
#[test]
fn make_be_f64() {
    let i = 0x14F3EEBCCD93895A_u64;

    let f: f64 = f64::from_bits(i);
    let mut bits = f.to_bits();
    bits.convert_current_to_big_endian();
    let f = f64::from_bits(bits);

    assert_eq!(f, f64::from_bits(i.to_be()))
}

#[test]
fn into_be_f64() {
    let i = 0x14F3EEBCCD93895A_u64;

    let f: f64 = f64::from_bits(i);
    let f = f64::from_bits(f.to_bits().from_current_into_big_endian());

    assert_eq!(f, f64::from_bits(i.to_be()))
}

#[test]
fn into_be_i16() {
    let i = 0x195A_i16;
    let be = i.from_current_into_big_endian();

    if native() == ByteOrder::Big {
        assert_eq!(be, i)
    } else {
        assert_eq!(be, i.swap_bytes())
    }
}

// Single-precision floats are written through their bit patterns.
#[test]
fn cmp_byteorder_be() {
    let mut write_expected = Vec::new();
    let mut write_actual: Vec<u8> = Vec::new();

    let data: Vec<f32> = (0..31 * 31).map(|i| i as f32).collect();

    for number in &data {
        write_expected.write_f32::<BigEndian>(*number).unwrap();
    }

    let bits: Vec<u32> = data.iter().map(|f| f.to_bits()).collect();
    write_actual.write_as_big_endian(bits.as_slice()).unwrap();

    assert_eq!(write_actual, write_expected);
}

#[test]
fn cmp_byteorder_le() {
    let mut write_expected = Vec::new();
    let mut write_actual: Vec<u8> = Vec::new();

    let data: Vec<f32> = (0..31 * 31).map(|i| i as f32).collect();

    for number in &data {
        write_expected.write_f32::<LittleEndian>(*number).unwrap();
    }

    let bits: Vec<u32> = data.iter().map(|f| f.to_bits()).collect();
    write_actual.write_as_little_endian(bits.as_slice()).unwrap();

    assert_eq!(write_actual, write_expected);
}
