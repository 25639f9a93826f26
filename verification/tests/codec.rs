use boel::codec::{decode_as, encode, encode_as};
use boel::config::{Datatype, Endianess};
use boel::data::Data;
use boel::error::Error;
use boel::word::Order;

fn doubles(values: &[f64]) -> Data {
    Data::from_doubles(values.iter().map(|v| v.to_bits()).collect())
}

fn singles(values: &[f32]) -> Data {
    Data::from_singles(values.iter().map(|v| v.to_bits()).collect())
}

#[test]
fn one_double_little_endian() {
    let values = doubles(&[1.0]);
    let bytes = encode_as(&values, Order::Little);
    assert_eq!(bytes, vec![0, 0, 0, 0, 0, 0, 0xf0, 0x3f]);
    let back = decode_as(&bytes, Datatype::Double, Order::Little).unwrap();
    assert_eq!(back, values);
}

#[test]
fn one_double_big_endian() {
    let values = doubles(&[1.0]);
    let bytes = encode_as(&values, Order::Big);
    assert_eq!(bytes, vec![0x3f, 0xf0, 0, 0, 0, 0, 0, 0]);
    let back = decode_as(&bytes, Datatype::Double, Order::Big).unwrap();
    assert_eq!(back.doubles(), Some(vec![0x3ff0_0000_0000_0000]));
}

#[test]
fn one_single_in_both_orders() {
    let values = singles(&[-2.5]);
    assert_eq!(encode_as(&values, Order::Little), vec![0x00, 0x00, 0x20, 0xc0]);
    assert_eq!(encode_as(&values, Order::Big), vec![0xc0, 0x20, 0x00, 0x00]);
}

#[test]
fn encoding_agrees_with_the_standard_library() {
    let raw = [0.0, -0.0, 1.5, -3.25e7, f64::MAX, f64::MIN_POSITIVE, f64::INFINITY];
    let values = doubles(&raw);
    let little: Vec<u8> = raw.iter().flat_map(|v| v.to_le_bytes()).collect();
    let big: Vec<u8> = raw.iter().flat_map(|v| v.to_be_bytes()).collect();
    assert_eq!(encode_as(&values, Order::Little), little);
    assert_eq!(encode_as(&values, Order::Big), big);
    let raw = [0.0f32, -0.0, 1.5, -3.25e7, f32::MAX, f32::MIN_POSITIVE, f32::NEG_INFINITY];
    let values = singles(&raw);
    let little: Vec<u8> = raw.iter().flat_map(|v| v.to_le_bytes()).collect();
    let big: Vec<u8> = raw.iter().flat_map(|v| v.to_be_bytes()).collect();
    assert_eq!(encode_as(&values, Order::Little), little);
    assert_eq!(encode_as(&values, Order::Big), big);
}

#[test]
fn decoding_agrees_with_the_standard_library() {
    let bytes: Vec<u8> = (0..32u8).map(|b| b.wrapping_mul(37).wrapping_add(11)).collect();
    let little = decode_as(&bytes, Datatype::Double, Order::Little).unwrap();
    let big = decode_as(&bytes, Datatype::Double, Order::Big).unwrap();
    for i in 0..4 {
        let run: [u8; 8] = bytes[8 * i..8 * i + 8].try_into().unwrap();
        assert_eq!(little.get(i), Some(u64::from_le_bytes(run)));
        assert_eq!(big.get(i), Some(u64::from_be_bytes(run)));
    }
    assert_eq!(little.get(4), None);
    let little = decode_as(&bytes, Datatype::Float, Order::Little).unwrap();
    let big = decode_as(&bytes, Datatype::Float, Order::Big).unwrap();
    assert_eq!(little.len(), 8);
    for i in 0..8 {
        let run: [u8; 4] = bytes[4 * i..4 * i + 4].try_into().unwrap();
        assert_eq!(little.get(i), Some(u32::from_le_bytes(run) as u64));
        assert_eq!(big.get(i), Some(u32::from_be_bytes(run) as u64));
    }
}

#[test]
fn encoded_length_is_count_times_width() {
    let values = doubles(&[1.0, 2.0, 3.0]);
    assert_eq!(encode_as(&values, Order::Big).len(), 24);
    let values = singles(&[1.0, 2.0, 3.0]);
    assert_eq!(encode_as(&values, Order::Big).len(), 12);
    assert_eq!(encode_as(&singles(&[]), Order::Little), Vec::<u8>::new());
}

#[test]
fn round_trip_keeps_every_bit() {
    let patterns: Vec<u64> = vec![
        0,
        (-0.0f64).to_bits(),
        f64::NAN.to_bits(),
        0x7ff8_0000_dead_beef,
        0xfff0_0000_0000_0001,
        u64::MAX,
        1,
        0x0102_0304_0506_0708,
    ];
    for order in [Order::Little, Order::Big] {
        let values = Data::from_doubles(patterns.clone());
        let bytes = encode_as(&values, order);
        let back = decode_as(&bytes, Datatype::Double, order).unwrap();
        assert_eq!(back.doubles(), Some(patterns.clone()));
    }
    let patterns: Vec<u32> =
        vec![0, (-0.0f32).to_bits(), f32::NAN.to_bits(), 0x7fc0_beef, 0xff80_0001, u32::MAX, 1];
    for order in [Order::Little, Order::Big] {
        let values = Data::from_singles(patterns.clone());
        let bytes = encode_as(&values, order);
        let back = decode_as(&bytes, Datatype::Float, order).unwrap();
        assert_eq!(back.singles(), Some(patterns.clone()));
    }
}

#[test]
fn negative_zero_and_nan_survive_as_floats() {
    let values = doubles(&[-0.0, f64::NAN]);
    let bytes = encode_as(&values, Order::Big);
    let back = decode_as(&bytes, Datatype::Double, Order::Big).unwrap().doubles().unwrap();
    let zero = f64::from_bits(back[0]);
    assert!(zero == 0.0 && zero.is_sign_negative());
    assert!(f64::from_bits(back[1]).is_nan());
    assert_eq!(back[1], f64::NAN.to_bits());
}

#[test]
fn the_other_order_gives_other_values() {
    let values = doubles(&[1.0, 2.0, -7.5]);
    let bytes = encode_as(&values, Order::Little);
    let back = decode_as(&bytes, Datatype::Double, Order::Big).unwrap();
    for i in 0..3 {
        assert_ne!(back.get(i), values.get(i));
        assert_eq!(back.get(i), values.get(i).map(u64::swap_bytes));
    }
    let bytes = encode_as(&values, Order::Big);
    let back = decode_as(&bytes, Datatype::Double, Order::Little).unwrap();
    for i in 0..3 {
        assert_ne!(back.get(i), values.get(i));
    }
}

#[test]
fn a_value_that_reads_the_same_both_ways_is_kept_by_the_other_order() {
    let values = Data::from_doubles(vec![0, 0x0102_0304_0403_0201]);
    let bytes = encode_as(&values, Order::Little);
    let back = decode_as(&bytes, Datatype::Double, Order::Big).unwrap();
    assert_eq!(back, values);
}

#[test]
fn bytes_that_hold_no_whole_number_of_values_are_refused() {
    let bytes = [0u8; 12];
    assert_eq!(
        decode_as(&bytes, Datatype::Double, Order::Little),
        Err(Error::Alignment { bytes: 12, unit: 8 })
    );
    assert_eq!(decode_as(&bytes, Datatype::Float, Order::Little).map(|d| d.len()), Ok(3));
    assert_eq!(
        decode_as(&bytes[..7], Datatype::Float, Order::Big),
        Err(Error::Alignment { bytes: 7, unit: 4 })
    );
}

#[test]
fn no_bytes_hold_no_values() {
    let data = decode_as(&[], Datatype::Double, Order::Big).unwrap();
    assert_eq!(data.len(), 0);
    assert_eq!(data.dt(), Datatype::Double);
}

#[test]
fn the_host_order_is_that_of_the_standard_library() {
    let expected = if 1u16.to_ne_bytes()[0] == 1 { Order::Little } else { Order::Big };
    assert_eq!(Endianess::Native.resolve(), expected);
    assert_eq!(Endianess::Big.resolve(), Order::Big);
    assert_eq!(Endianess::Little.resolve(), Order::Little);
    assert_eq!(Endianess::Native.resolve_on(Order::Big), Order::Big);
    assert_eq!(Endianess::Little.resolve_on(Order::Big), Order::Little);
}

#[test]
fn native_encoding_is_the_memory_layout() {
    let raw = [1.0f64, -2.0, 1e300];
    let values = doubles(&raw);
    let native: Vec<u8> = raw.iter().flat_map(|v| v.to_ne_bytes()).collect();
    assert_eq!(encode(&values, Endianess::Native), native);
    assert_eq!(encode(&values, Endianess::Big), encode_as(&values, Order::Big));
    assert_eq!(encode(&values, Endianess::Little), encode_as(&values, Order::Little));
}

#[test]
fn data_remembers_its_width() {
    let s = singles(&[1.0]);
    assert_eq!(s.dt(), Datatype::Float);
    assert_eq!(s.singles(), Some(vec![1.0f32.to_bits()]));
    assert_eq!(s.doubles(), None);
    assert_eq!(s.words(), &[1.0f32.to_bits() as u64]);
    let d = doubles(&[1.0]);
    assert_eq!(d.dt(), Datatype::Double);
    assert_eq!(d.doubles(), Some(vec![1.0f64.to_bits()]));
    assert_eq!(d.singles(), None);
    assert_eq!(d.clone().into_words(), vec![1.0f64.to_bits()]);
    assert_eq!(Datatype::Float.size(), 4);
    assert_eq!(Datatype::Double.size(), 8);
}

#[test]
fn the_reading_of_the_probe_shows_the_order() {
    assert_eq!(Order::shown_by(u16::from_le_bytes([1, 0]) as u64), Order::Little);
    assert_eq!(Order::shown_by(u16::from_be_bytes([1, 0]) as u64), Order::Big);
    assert_eq!(Order::shown_by(1), Order::Little);
    assert_eq!(Order::shown_by(256), Order::Big);
    assert_eq!(Order::shown_by(u16::from_ne_bytes([1, 0]) as u64), Endianess::Native.resolve());
}
