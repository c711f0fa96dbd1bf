//! Tests of the type catalog, key dictionary, timestamp handling and the
//! byte-level primitives.

use fixed::traits::FromFixed;
use fixed::types::I16F16;
use fixed::types::I32F32;
use gpmf::wire;
use gpmf::Model;
use gpmf::Tag;
use gpmf::Type;
use gpmf::UtcTime;

#[test]
fn test_type() {
    for t in Type::all() {
        println!("{} {:?}", t.name(), t);
    }
    assert_eq!(Type::all().len(), 18);
}

#[test]
fn test_take_until() {
    let data = [b'a', b'b', b'c', 0, b'd', 0];
    let string = wire::text_until_nul(&data);
    assert_eq!(string, String::from("abc"));
}

#[test]
fn test_take_until_no_null() {
    let data = [b'a', b'b', b'c'];
    let string = wire::text_until_nul(&data);
    assert_eq!(string, String::from("abc"));
}

#[test]
fn test_q32() {
    let max = I16F16::from_bits(i32::MAX);
    println!("Max {}", max);
    let min = I16F16::from_bits(i32::MIN);
    println!("Min {}", min);

    let sum = max + min;
    println!("Sum {}", sum);

    let max_f64 = f64::from_fixed(max);
    println!("Max f64 {}", max_f64);
    let min_f64 = f64::from_fixed(min);
    println!("Min f64 {}", min_f64);
    let max_f32 = f32::from_fixed(max);
    println!("Max f32 {}", max_f32);
    let min_f32 = f32::from_fixed(min);
    println!("Min f32 {}", min_f32);
}

#[test]
fn test_q64() {
    let max = I32F32::from_bits(i64::MAX);
    println!("Max {}", max);
    let min = I32F32::from_bits(i64::MIN);
    println!("Min {}", min);

    let sum = max + min;
    println!("Sum {}", sum);

    let max_f64 = f64::from_fixed(max);
    println!("Max f64 {}", max_f64);
    let min_f64 = f64::from_fixed(min);
    println!("Min f64 {}", min_f64);
    let max_f32 = f32::from_fixed(max);
    println!("Max f32 {}", max_f32);
    let min_f32 = f32::from_fixed(min);
    println!("Min f32 {}", min_f32);
}

#[test]
fn test_date() {
    let date_str = "230323191804.123";
    println!("{}", date_str);
    let parsed = UtcTime::parse(date_str.as_bytes()).unwrap();
    assert_eq!(parsed.year, 23);
    assert_eq!(parsed.month, 3);
    assert_eq!(parsed.day, 23);
    assert_eq!(parsed.hour, 19);
    assert_eq!(parsed.minute, 18);
    assert_eq!(parsed.second, 4);
    assert_eq!(parsed.millisecond, 123);

    let roundtrip = parsed.to_text();
    println!("{}", roundtrip);
    assert_eq!(roundtrip, date_str);

    let no_timezone =
        chrono::NaiveDateTime::parse_from_str(date_str, "%y%m%d%H%M%S%.3f").unwrap();
    println!("{}", no_timezone);
    assert_eq!(no_timezone.format("%y%m%d%H%M%S%.3f").to_string(), date_str);
}

#[test]
fn catalog_widths() {
    assert_eq!(Type::I8.size(), 1);
    assert_eq!(Type::U8.size(), 1);
    assert_eq!(Type::Char.size(), 1);
    assert_eq!(Type::I16.size(), 2);
    assert_eq!(Type::U16.size(), 2);
    assert_eq!(Type::F32.size(), 4);
    assert_eq!(Type::FourCC.size(), 4);
    assert_eq!(Type::I32.size(), 4);
    assert_eq!(Type::U32.size(), 4);
    assert_eq!(Type::Fixed32.size(), 4);
    assert_eq!(Type::F64.size(), 8);
    assert_eq!(Type::I64.size(), 8);
    assert_eq!(Type::U64.size(), 8);
    assert_eq!(Type::Fixed64.size(), 8);
    assert_eq!(Type::U128.size(), 16);
    assert_eq!(Type::Date.size(), 16);
    // the two contextual kinds report the fallback size but no width
    assert_eq!(Type::Complex.size(), 1);
    assert_eq!(Type::Nested.size(), 1);
    assert_eq!(Type::Complex.width(), None);
    assert_eq!(Type::Nested.width(), None);
    assert_eq!(Type::U32.width(), Some(4));
}

#[test]
fn catalog_tag_bytes() {
    assert_eq!(Type::from_byte(b'b'), Some(Type::I8));
    assert_eq!(Type::from_byte(b'B'), Some(Type::U8));
    assert_eq!(Type::from_byte(b'c'), Some(Type::Char));
    assert_eq!(Type::from_byte(b'L'), Some(Type::U32));
    assert_eq!(Type::from_byte(b'q'), Some(Type::Fixed32));
    assert_eq!(Type::from_byte(b'Q'), Some(Type::Fixed64));
    assert_eq!(Type::from_byte(b'U'), Some(Type::Date));
    assert_eq!(Type::from_byte(b'?'), Some(Type::Complex));
    assert_eq!(Type::from_byte(0), Some(Type::Nested));
    assert_eq!(Type::from_byte(1), None);
    assert_eq!(Type::from_byte(b'x'), None);
}

#[test]
fn dictionary_known_and_unknown() {
    assert_eq!(Tag::from_bytes(b'D', b'E', b'V', b'C'), Tag::DEVC);
    assert_eq!(Tag::from_bytes(b'T', b'Y', b'P', b'E'), Tag::TYPE);
    assert_eq!(Tag::from_bytes(b'G', b'P', b'S', b'9'), Tag::GPS9);
    assert_eq!(
        Tag::from_bytes(b'X', b'Y', b'Z', b'W'),
        Tag::Other(String::from("XYZW"))
    );
}

#[test]
fn timestamp_rejects_bad_text() {
    // wrong separator
    assert_eq!(UtcTime::parse(b"230323191804x123"), None);
    // a letter among the digits
    assert_eq!(UtcTime::parse(b"23032319180a.123"), None);
    // too short
    assert_eq!(UtcTime::parse(b"230323191804.12"), None);
    // month 13 spells no calendar time
    assert_eq!(UtcTime::parse(b"231323191804.123"), None);
    // February 30th spells no calendar time
    assert_eq!(UtcTime::parse(b"230230191804.123"), None);
    // February 29th of a leap year does
    assert!(UtcTime::parse(b"240229191804.123").is_some());
    // but not of a common year
    assert_eq!(UtcTime::parse(b"230229191804.123"), None);
}

#[test]
fn padding_rule() {
    assert_eq!(wire::padding_of(0), 0);
    assert_eq!(wire::padding_of(1), 3);
    assert_eq!(wire::padding_of(2), 2);
    assert_eq!(wire::padding_of(3), 1);
    assert_eq!(wire::padding_of(4), 0);
    assert_eq!(wire::padding_of(5), 3);
    assert_eq!(wire::padding_of(8), 0);
    for n in 0..64usize {
        let p = wire::padding_of(n);
        assert!(p <= 3);
        assert_eq!((n + p) % 4, 0);
        assert_eq!(p, (4 - n % 4) % 4);
    }
}

#[test]
fn element_counting() {
    assert_eq!(wire::element_count(6, 4), 1);
    assert_eq!(wire::element_count(8, 4), 2);
    assert_eq!(wire::element_count(3, 4), 0);
    assert_eq!(wire::element_count(12, 6), 2);
    // a zero width counts as zero elements instead of dividing by zero
    assert_eq!(wire::element_count(12, 0), 0);
}

#[test]
fn nul_truncation_idempotent() {
    let once = wire::text_until_nul(b"ab\0cd");
    let again = wire::text_until_nul(once.as_bytes());
    assert_eq!(once, "ab");
    assert_eq!(again, once);
}

#[test]
fn big_endian_reads() {
    let data = [0x12u8, 0x34, 0x56, 0x78, 0x9a, 0xbc, 0xde, 0xf0];
    assert_eq!(wire::read_be_u16(&data, 0), 0x1234);
    assert_eq!(wire::read_be_u32(&data, 0), 0x12345678);
    assert_eq!(wire::read_be_u64(&data, 0), 0x123456789abcdef0);
    assert_eq!(wire::as_i8(0xff), -1);
    assert_eq!(wire::as_i16(0x8000), i16::MIN);
    assert_eq!(wire::as_i16(0x7fff), i16::MAX);
    assert_eq!(wire::as_i32(0xffff_ffff), -1);
    assert_eq!(wire::as_i64(0x8000_0000_0000_0000), i64::MIN);
}

#[test]
fn model_names() {
    assert_eq!(Model::Hero5, Model::Hero5);
    let other = Model::Other(String::from("Karma 1.0"));
    assert_ne!(other, Model::Hero5);
    assert_eq!(other, Model::Other(String::from("Karma 1.0")));
}
