//! End-to-end tests of the record decoder: the concrete scenarios of the
//! format, one per record shape, and one per failure kind.

use fixed::types::I16F16;
use fixed::types::I32F32;
use gpmf::parse_frame;
use gpmf::parse_gpmf;
use gpmf::DecodeError;
use gpmf::KeyValue;
use gpmf::Tag;
use gpmf::Type;
use gpmf::Value;

fn record(key: &[u8; 4], typ: u8, size: u8, repeat: u16, payload: &[u8]) -> Vec<u8> {
    let mut out = Vec::new();
    out.extend_from_slice(key);
    out.push(typ);
    out.push(size);
    out.extend_from_slice(&repeat.to_be_bytes());
    out.extend_from_slice(payload);
    let pad = (4 - payload.len() % 4) % 4;
    for _ in 0..pad {
        out.push(0);
    }
    out
}

#[test]
fn single_u32_record() {
    // one record: key "TEST", type U32, size 4, repeat 1, payload 1
    let data = record(b"TEST", b'L', 4, 1, &[0, 0, 0, 1]);
    assert_eq!(data.len(), 12); // zero padding bytes
    let res = parse_gpmf(&data).unwrap();
    assert_eq!(res.len(), 1);
    let kv = &res[0];
    assert_eq!(kv.key, Tag::Other(String::from("TEST")));
    match &kv.value {
        Value::Simple(rows) => {
            assert_eq!(rows.len(), 1);
            assert_eq!(rows[0].len(), 1);
            assert!(matches!(rows[0][0], Value::U32(1)));
        },
        other => panic!("expected a simple value, got {:?}", other),
    }
}

#[test]
fn template_then_complex() {
    // a type template "Ls" (U32 then I16), then a complex record of one
    // six-byte element
    let mut data = record(b"TYPE", b'c', 1, 2, &[b'L', b's']);
    data.extend_from_slice(&record(b"ACCL", b'?', 6, 1, &[0, 0, 0, 7, 0xff, 0xfe]));
    let res = parse_gpmf(&data).unwrap();
    assert_eq!(res.len(), 2);
    match &res[0].value {
        Value::Type(ts) => assert_eq!(ts.as_slice(), &[Type::U32, Type::I16]),
        other => panic!("expected a template value, got {:?}", other),
    }
    match &res[1].value {
        Value::Complex(rows) => {
            assert_eq!(rows.len(), 1);
            assert_eq!(rows[0].len(), 2);
            assert!(matches!(rows[0][0], Value::U32(7)));
            assert!(matches!(rows[0][1], Value::I16(-2)));
        },
        other => panic!("expected a complex value, got {:?}", other),
    }
}

#[test]
fn complex_without_template_fails() {
    let data = record(b"ACCL", b'?', 6, 1, &[0, 0, 0, 7, 0xff, 0xfe]);
    assert!(matches!(parse_gpmf(&data), Err(DecodeError::NoTypeTemplate)));
}

#[test]
fn nul_truncated_string() {
    // char record, size 1, repeat 5, payload "ab\0cd": one string "ab",
    // three padding bytes skipped (5 rounds up to 8)
    let data = record(b"STNM", b'c', 1, 5, b"ab\0cd");
    assert_eq!(data.len(), 16);
    let res = parse_gpmf(&data).unwrap();
    assert_eq!(res.len(), 1);
    assert_eq!(res[0].key, Tag::STNM);
    match &res[0].value {
        Value::String(s) => assert_eq!(s, "ab"),
        other => panic!("expected a string value, got {:?}", other),
    }
}

#[test]
fn fixed_width_string_fields() {
    // char record with three-byte elements repeated twice: two fields,
    // each NUL-truncated on its own
    let data = record(b"UNIT", b'c', 3, 2, b"m\0xs\0y");
    let res = parse_gpmf(&data).unwrap();
    match &res[0].value {
        Value::Strings(ss) => {
            assert_eq!(ss.len(), 2);
            assert_eq!(ss[0], "m");
            assert_eq!(ss[1], "s");
        },
        other => panic!("expected repeated strings, got {:?}", other),
    }
}

#[test]
fn nested_stream() {
    // one nested record whose 16-byte payload holds two 8-byte children
    let child1 = record(b"DVID", b'L', 0, 0, &[]);
    let child2 = record(b"TSMP", b'L', 0, 0, &[]);
    let mut payload = Vec::new();
    payload.extend_from_slice(&child1);
    payload.extend_from_slice(&child2);
    assert_eq!(payload.len(), 16);
    let data = record(b"STRM", 0, 8, 2, &payload);
    assert_eq!(data.len(), 24);
    let res = parse_gpmf(&data).unwrap();
    assert_eq!(res.len(), 1);
    assert_eq!(res[0].key, Tag::STRM);
    match &res[0].value {
        Value::Nested(kids) => {
            assert_eq!(kids.len(), 2);
            assert_eq!(kids[0].key, Tag::DVID);
            assert_eq!(kids[1].key, Tag::TSMP);
        },
        other => panic!("expected a nested value, got {:?}", other),
    }
}

#[test]
fn truncated_header_fails() {
    // fewer than 8 bytes remain: no partial record is surfaced
    assert!(matches!(parse_gpmf(b"DEVC"), Err(DecodeError::MalformedHeader)));
    let mut data = record(b"TEST", b'L', 4, 1, &[0, 0, 0, 1]);
    data.extend_from_slice(b"DEVC");
    assert!(matches!(parse_gpmf(&data), Err(DecodeError::MalformedHeader)));
}

#[test]
fn unrecognized_key_still_decodes() {
    let data = record(b"XYZW", b'L', 4, 1, &[0, 0, 0, 42]);
    let res = parse_gpmf(&data).unwrap();
    assert_eq!(res[0].key, Tag::Other(String::from("XYZW")));
    match &res[0].value {
        Value::Simple(rows) => assert!(matches!(rows[0][0], Value::U32(42))),
        other => panic!("expected a simple value, got {:?}", other),
    }
}

#[test]
fn unknown_type_fails() {
    let data = record(b"TEST", 1, 4, 1, &[0, 0, 0, 1]);
    assert!(matches!(parse_gpmf(&data), Err(DecodeError::UnknownType)));
}

#[test]
fn truncated_payload_fails() {
    // the header promises four payload bytes; only two follow
    let mut data = Vec::new();
    data.extend_from_slice(b"TEST");
    data.push(b'L');
    data.push(4);
    data.extend_from_slice(&1u16.to_be_bytes());
    data.extend_from_slice(&[0, 0, 0, 0, 0, 0]); // 14 bytes in all
    data.truncate(10);
    // 10 bytes: the 8-byte header leaves two bytes where four are needed,
    // but fewer than 8 remain for the *next* header only after the value
    // read already failed
    assert!(matches!(parse_gpmf(&data), Err(DecodeError::TruncatedInput)));
}

#[test]
fn invalid_timestamp_fails() {
    let data = record(b"GPSU", b'U', 16, 1, b"not a timestamp!");
    assert!(matches!(parse_gpmf(&data), Err(DecodeError::InvalidTimestamp)));
}

#[test]
fn valid_timestamp_decodes() {
    let data = record(b"GPSU", b'U', 16, 1, b"230323191804.123");
    let res = parse_gpmf(&data).unwrap();
    match &res[0].value {
        Value::Simple(rows) => match &rows[0][0] {
            Value::Date(t) => {
                assert_eq!(t.year, 23);
                assert_eq!(t.month, 3);
                assert_eq!(t.day, 23);
                assert_eq!(t.hour, 19);
                assert_eq!(t.minute, 18);
                assert_eq!(t.second, 4);
                assert_eq!(t.millisecond, 123);
            },
            other => panic!("expected a date, got {:?}", other),
        },
        other => panic!("expected a simple value, got {:?}", other),
    }
}

#[test]
fn depth_limit_fails_closed() {
    // a nested record is one level too deep for a zero depth budget
    let inner = record(b"DVID", b'L', 0, 0, &[]);
    let data = record(b"STRM", 0, 8, 1, &inner);
    assert!(matches!(parse_frame(&data, 0), Err(DecodeError::DepthExceeded)));
    assert!(parse_frame(&data, 1).is_ok());

    // deeper than the default maximum for the top-level entry point
    let mut nest = record(b"DVID", b'L', 0, 0, &[]);
    for _ in 0..40 {
        let repeat = (nest.len() / 8) as u16;
        nest = record(b"STRM", 0, 8, repeat, &nest);
    }
    assert!(matches!(parse_gpmf(&nest), Err(DecodeError::DepthExceeded)));
}

#[test]
fn fixed_point_extreme_patterns() {
    let mut data = record(b"TMPC", b'q', 4, 1, &[0x7f, 0xff, 0xff, 0xff]);
    data.extend_from_slice(&record(b"TMPC", b'q', 4, 1, &[0x80, 0, 0, 0]));
    data.extend_from_slice(&record(
        b"TMPC",
        b'Q',
        8,
        1,
        &[0x7f, 0xff, 0xff, 0xff, 0xff, 0xff, 0xff, 0xff],
    ));
    data.extend_from_slice(&record(b"TMPC", b'Q', 8, 1, &[0x80, 0, 0, 0, 0, 0, 0, 0]));
    let res = parse_gpmf(&data).unwrap();
    let bits32: Vec<i32> = res[..2]
        .iter()
        .map(|kv| match &kv.value {
            Value::Simple(rows) => match rows[0][0] {
                Value::Fixed32(b) => b,
                ref other => panic!("expected a fixed-point value, got {:?}", other),
            },
            other => panic!("expected a simple value, got {:?}", other),
        })
        .collect();
    assert_eq!(bits32, vec![i32::MAX, i32::MIN]);
    let max = I16F16::from_bits(bits32[0]);
    let min = I16F16::from_bits(bits32[1]);
    assert_eq!((max + min).to_bits(), -1);

    let bits64: Vec<i64> = res[2..]
        .iter()
        .map(|kv| match &kv.value {
            Value::Simple(rows) => match rows[0][0] {
                Value::Fixed64(b) => b,
                ref other => panic!("expected a fixed-point value, got {:?}", other),
            },
            other => panic!("expected a simple value, got {:?}", other),
        })
        .collect();
    assert_eq!(bits64, vec![i64::MAX, i64::MIN]);
    let max = I32F32::from_bits(bits64[0]);
    let min = I32F32::from_bits(bits64[1]);
    assert_eq!((max + min).to_bits(), -1);
}

#[test]
fn nested_cursor_is_authoritative() {
    // whatever the nested content, the outer cursor advances by exactly
    // size times repeat: records after the nested one still decode
    let child = record(b"DVID", b'L', 0, 0, &[]);
    let mut data = record(b"STRM", 0, 8, 1, &child);
    data.extend_from_slice(&record(b"TSMP", b'L', 4, 1, &[0, 0, 0, 9]));
    let res = parse_gpmf(&data).unwrap();
    assert_eq!(res.len(), 2);
    assert_eq!(res[1].key, Tag::TSMP);
}

#[test]
fn template_is_frame_local() {
    // a template remembered inside a nested frame does not leak out: a
    // complex record after the nested one still fails
    let inner = record(b"TYPE", b'c', 1, 1, &[b'L']);
    let mut data = record(b"STRM", 0, inner.len() as u8, 1, &inner);
    data.extend_from_slice(&record(b"ACCL", b'?', 4, 1, &[0, 0, 0, 1]));
    assert!(matches!(parse_gpmf(&data), Err(DecodeError::NoTypeTemplate)));
}

#[test]
fn template_replaced_by_later_template() {
    let mut data = record(b"TYPE", b'c', 1, 1, &[b'L']);
    data.extend_from_slice(&record(b"TYPE", b'c', 1, 1, &[b's']));
    data.extend_from_slice(&record(b"ACCL", b'?', 2, 1, &[0xff, 0xfe]));
    let res = parse_gpmf(&data).unwrap();
    match &res[2].value {
        Value::Complex(rows) => assert!(matches!(rows[0][0], Value::I16(-2))),
        other => panic!("expected a complex value, got {:?}", other),
    }
}

#[test]
fn read_tag_reports_unknown_keys() {
    let data = b"DEVCXYZW";
    assert_eq!(gpmf::read_tag(data, 0), Ok(Tag::DEVC));
    assert_eq!(gpmf::read_tag(data, 4), Ok(Tag::Other(String::from("XYZW"))));
    assert_eq!(gpmf::read_tag(data, 5), Err(DecodeError::TruncatedInput));
}

#[test]
fn datatype_of_values() {
    let kv = KeyValue { key: Tag::DVID, value: Value::U32(1) };
    assert_eq!(kv.value.datatype(), Some(Type::U32));
    assert_eq!(Value::Char('x').datatype(), Some(Type::Char));
    assert_eq!(Value::String(String::from("x")).datatype(), Some(Type::Char));
    assert_eq!(Value::Nested(Vec::new()).datatype(), Some(Type::Nested));
    assert_eq!(Value::Complex(Vec::new()).datatype(), Some(Type::Complex));
    assert_eq!(Value::Simple(Vec::new()).datatype(), None);
    assert_eq!(Value::Strings(Vec::new()).datatype(), None);
}

#[test]
fn empty_buffer_is_empty_stream() {
    let res = parse_gpmf(&[]).unwrap();
    assert_eq!(res.len(), 0);
}

#[test]
fn padding_keeps_records_aligned() {
    // a five-byte text payload is padded to eight; the next record is
    // read from the aligned position
    let mut data = record(b"STNM", b'c', 1, 5, b"hello");
    data.extend_from_slice(&record(b"TSMP", b'L', 4, 1, &[0, 0, 1, 0]));
    let res = parse_gpmf(&data).unwrap();
    assert_eq!(res.len(), 2);
    match &res[0].value {
        Value::String(s) => assert_eq!(s, "hello"),
        other => panic!("expected a string value, got {:?}", other),
    }
    assert_eq!(res[1].key, Tag::TSMP);
    match &res[1].value {
        Value::Simple(rows) => assert!(matches!(rows[0][0], Value::U32(256))),
        other => panic!("expected a simple value, got {:?}", other),
    }
}

#[test]
fn zero_width_counts_zero_elements() {
    // an empty template makes the complex element width zero: the decoder
    // treats that as zero elements per repeat instead of dividing by
    // zero, consumes no payload, and reads on from where it stands
    let mut data = record(b"TYPE", b'c', 1, 1, &[0]);
    let leftover = record(b"DVID", b'L', 0, 0, &[]);
    data.extend_from_slice(&record(b"ACCL", b'?', 4, 2, &leftover));
    let res = parse_gpmf(&data).unwrap();
    assert_eq!(res.len(), 3);
    match &res[1].value {
        Value::Complex(rows) => {
            assert_eq!(rows.len(), 2);
            assert_eq!(rows[0].len(), 0);
            assert_eq!(rows[1].len(), 0);
        },
        other => panic!("expected a complex value, got {:?}", other),
    }
    assert_eq!(res[2].key, Tag::DVID);
}
