use amqp::field_table::{
    decode_entries, decode_items, decode_table, decode_table_field_value, items_body, put_table,
    put_value, table_body,
};
use amqp::result::{AmqpError, Violation};
use amqp::types::{
    bytes_eq, bytes_of, copy_bytes, copy_values, str_eq, table_eq, value_eq, values_eq,
    FieldValue, Table,
};
use amqp::wire::{
    put_bytes, put_short_str, put_sized, put_u16, put_u32, put_u64, put_u8, read_bytes,
    read_long_str, read_short_str, read_u16, read_u32, read_u64, read_u8,
};

fn tagged(v: &FieldValue) -> Vec<u8> {
    let mut out = Vec::new();
    put_value(&mut out, v).unwrap();
    out
}

fn round_trip(v: &FieldValue) {
    let bytes = tagged(v);
    let (back, next) = decode_table_field_value(&bytes, 0, bytes.len()).unwrap();
    assert_eq!(next, bytes.len());
    assert_eq!(&back, v);
}

#[test]
fn empty_table_is_four_zero_octets() {
    let mut out = Vec::new();
    put_table(&mut out, &Table::new()).unwrap();
    assert_eq!(out, vec![0, 0, 0, 0]);
    let (t, next) = decode_table(&out, 0, out.len()).unwrap();
    assert_eq!(next, 4);
    assert!(t.is_empty());
    assert_eq!(t.len(), 0);
    assert_eq!(t, Table::new());
}

#[test]
fn empty_array_decodes() {
    let bytes = vec![b'A', 0, 0, 0, 0];
    let (v, next) = decode_table_field_value(&bytes, 0, bytes.len()).unwrap();
    assert_eq!(next, 5);
    assert_eq!(v, FieldValue::FieldArray(vec![]));
    assert_eq!(tagged(&FieldValue::FieldArray(vec![])), bytes);
    assert_eq!(decode_items(&bytes, 5, 5).unwrap(), vec![]);
}

#[test]
fn each_kind_of_value_has_its_tag_and_bytes() {
    assert_eq!(tagged(&FieldValue::Bool(true)), vec![b't', 1]);
    assert_eq!(tagged(&FieldValue::Bool(false)), vec![b't', 0]);
    assert_eq!(tagged(&FieldValue::ShortShortInt(-1)), vec![b'b', 0xff]);
    assert_eq!(tagged(&FieldValue::ShortShortUint(200)), vec![b'B', 200]);
    assert_eq!(tagged(&FieldValue::ShortInt(-2)), vec![b'U', 0xff, 0xfe]);
    assert_eq!(tagged(&FieldValue::ShortUint(0x1234)), vec![b'u', 0x12, 0x34]);
    assert_eq!(tagged(&FieldValue::LongInt(-3)), vec![b'I', 0xff, 0xff, 0xff, 0xfd]);
    assert_eq!(tagged(&FieldValue::LongUint(0x0102_0304)), vec![b'i', 1, 2, 3, 4]);
    assert_eq!(
        tagged(&FieldValue::LongLongInt(-4)),
        vec![b'L', 0xff, 0xff, 0xff, 0xff, 0xff, 0xff, 0xff, 0xfc]
    );
    assert_eq!(
        tagged(&FieldValue::LongLongUint(0x0102_0304_0506_0708)),
        vec![b'l', 1, 2, 3, 4, 5, 6, 7, 8]
    );
    assert_eq!(tagged(&FieldValue::Float(1.0f32.to_bits())), vec![b'f', 0x3f, 0x80, 0, 0]);
    assert_eq!(
        tagged(&FieldValue::Double(1.0f64.to_bits())),
        vec![b'd', 0x3f, 0xf0, 0, 0, 0, 0, 0, 0]
    );
    assert_eq!(tagged(&FieldValue::DecimalValue(2, 314)), vec![b'D', 2, 0, 0, 0x01, 0x3a]);
    assert_eq!(tagged(&FieldValue::ShortString("hi".to_string())), vec![b's', 2, b'h', b'i']);
    assert_eq!(
        tagged(&FieldValue::LongString(vec![9, 8, 7])),
        vec![b'S', 0, 0, 0, 3, 9, 8, 7]
    );
    assert_eq!(
        tagged(&FieldValue::FieldArray(vec![FieldValue::Bool(true), FieldValue::Void])),
        vec![b'A', 0, 0, 0, 3, b't', 1, b'V']
    );
    assert_eq!(
        tagged(&FieldValue::Timestamp(0x0102)),
        vec![b'T', 0, 0, 0, 0, 0, 0, 1, 2]
    );
    let mut t = Table::new();
    t.insert("a".to_string(), FieldValue::Bool(true));
    assert_eq!(
        tagged(&FieldValue::FieldTable(t)),
        vec![b'F', 0, 0, 0, 4, 1, b'a', b't', 1]
    );
    assert_eq!(tagged(&FieldValue::Void), vec![b'V']);
}

#[test]
fn each_kind_of_value_round_trips() {
    round_trip(&FieldValue::Bool(true));
    round_trip(&FieldValue::Bool(false));
    round_trip(&FieldValue::ShortShortInt(i8::MIN));
    round_trip(&FieldValue::ShortShortInt(i8::MAX));
    round_trip(&FieldValue::ShortShortUint(u8::MAX));
    round_trip(&FieldValue::ShortInt(i16::MIN));
    round_trip(&FieldValue::ShortInt(-1));
    round_trip(&FieldValue::ShortUint(u16::MAX));
    round_trip(&FieldValue::LongInt(i32::MIN));
    round_trip(&FieldValue::LongInt(i32::MAX));
    round_trip(&FieldValue::LongUint(u32::MAX));
    round_trip(&FieldValue::LongLongInt(i64::MIN));
    round_trip(&FieldValue::LongLongInt(i64::MAX));
    round_trip(&FieldValue::LongLongUint(u64::MAX));
    round_trip(&FieldValue::LongLongUint(0x8000_0000_0000_0001));
    round_trip(&FieldValue::Float(3.25f32.to_bits()));
    round_trip(&FieldValue::Float(f32::NAN.to_bits()));
    round_trip(&FieldValue::Double((-0.5f64).to_bits()));
    round_trip(&FieldValue::DecimalValue(255, u32::MAX));
    round_trip(&FieldValue::ShortString(String::new()));
    round_trip(&FieldValue::ShortString("gr\u{fc}\u{df}e \u{1f600}".to_string()));
    round_trip(&FieldValue::LongString(vec![]));
    round_trip(&FieldValue::LongString((0..=255u8).collect()));
    round_trip(&FieldValue::Timestamp(1_700_000_000));
    round_trip(&FieldValue::Void);
    let mut inner = Table::new();
    inner.insert("x".to_string(), FieldValue::LongInt(-7));
    inner.insert("y".to_string(), FieldValue::FieldArray(vec![]));
    let array = FieldValue::FieldArray(vec![
        FieldValue::FieldTable(inner.clone()),
        FieldValue::FieldArray(vec![FieldValue::Void, FieldValue::Bool(true)]),
        FieldValue::ShortString("z".to_string()),
    ]);
    round_trip(&array);
    let mut outer = Table::new();
    outer.insert("inner".to_string(), FieldValue::FieldTable(inner));
    outer.insert("array".to_string(), array);
    outer.insert("empty".to_string(), FieldValue::FieldTable(Table::new()));
    round_trip(&FieldValue::FieldTable(outer));
}

#[test]
fn a_float_is_its_bit_pattern() {
    let v = FieldValue::Float(1.1f32.to_bits());
    let bytes = tagged(&v);
    let (back, _) = decode_table_field_value(&bytes, 0, bytes.len()).unwrap();
    match back {
        FieldValue::Float(bits) => assert_eq!(f32::from_bits(bits), 1.1f32),
        other => panic!("expected Float, got {:?}", other),
    }
    let v = FieldValue::Double(2.2f64.to_bits());
    let bytes = tagged(&v);
    let (back, _) = decode_table_field_value(&bytes, 0, bytes.len()).unwrap();
    match back {
        FieldValue::Double(bits) => assert_eq!(f64::from_bits(bits), 2.2f64),
        other => panic!("expected Double, got {:?}", other),
    }
}

#[test]
fn any_octet_but_zero_is_a_true_bool() {
    let bytes = vec![b't', 0x80];
    let (v, _) = decode_table_field_value(&bytes, 0, 2).unwrap();
    assert_eq!(v, FieldValue::Bool(true));
}

#[test]
fn an_unknown_tag_is_refused_with_its_offset() {
    let bytes = vec![0, 0, 0, 4, 1, b'a', b'?', 1];
    match decode_table(&bytes, 0, bytes.len()) {
        Err(AmqpError::ProtocolViolation(Violation::UnknownTag(b'?', 6))) => {},
        other => panic!("expected UnknownTag, got {:?}", other),
    }
}

#[test]
fn an_entry_may_not_run_over_the_end_of_its_table() {
    // The table announces 3 bytes, the entry needs 4; one more byte follows.
    let bytes = vec![0, 0, 0, 3, 1, b'a', b't', 1, 0];
    match decode_table(&bytes, 0, bytes.len()) {
        Err(AmqpError::ProtocolViolation(Violation::Truncated(7))) => {},
        other => panic!("expected Truncated(7), got {:?}", other),
    }
    // The table announces more bytes than the region holds.
    let bytes = vec![0, 0, 0, 9, 1, b'a', b't', 1];
    match decode_table(&bytes, 0, bytes.len()) {
        Err(AmqpError::ProtocolViolation(Violation::Truncated(4))) => {},
        other => panic!("expected Truncated(4), got {:?}", other),
    }
    // The length itself is cut short.
    match decode_table(&[0, 0, 0], 0, 3) {
        Err(AmqpError::ProtocolViolation(Violation::Truncated(0))) => {},
        other => panic!("expected Truncated(0), got {:?}", other),
    }
}

#[test]
fn a_value_may_not_run_over_the_end_of_its_array() {
    let bytes = vec![b'A', 0, 0, 0, 2, b'u', 1, 2];
    match decode_table_field_value(&bytes, 0, bytes.len()) {
        Err(AmqpError::ProtocolViolation(Violation::Truncated(6))) => {},
        other => panic!("expected Truncated(6), got {:?}", other),
    }
    let bytes = vec![b'S', 0, 0, 0, 5, 1, 2];
    match decode_table_field_value(&bytes, 0, bytes.len()) {
        Err(AmqpError::ProtocolViolation(Violation::Truncated(5))) => {},
        other => panic!("expected Truncated(5), got {:?}", other),
    }
}

#[test]
fn of_two_entries_of_one_name_the_later_gives_the_value() {
    let bytes = vec![0, 0, 0, 11, 1, b'a', b't', 1, 1, b'b', b'V', 1, b'a', b't', 0];
    let (t, _) = decode_table(&bytes, 0, bytes.len()).unwrap();
    assert_eq!(t.len(), 2);
    assert_eq!(t.get("a"), Some(&FieldValue::Bool(false)));
    assert_eq!(t.get("b"), Some(&FieldValue::Void));
    assert_eq!(t.name_at(0), "a");
    assert_eq!(t.name_at(1), "b");
}

#[test]
fn a_name_of_more_than_255_bytes_is_refused() {
    let mut t = Table::new();
    t.insert("n".repeat(255), FieldValue::Void);
    let body = table_body(&t).unwrap();
    assert_eq!(body.len(), 1 + 255 + 1);
    assert_eq!(body[0], 0xff);
    let mut t = Table::new();
    t.insert("ok".to_string(), FieldValue::Void);
    t.insert("n".repeat(256), FieldValue::Void);
    match table_body(&t) {
        Err(AmqpError::ShortStrTooLong(256)) => {},
        other => panic!("expected ShortStrTooLong(256), got {:?}", other),
    }
    let mut out = vec![1, 2, 3];
    assert!(put_table(&mut out, &t).is_err());
    assert_eq!(out, vec![1, 2, 3]);
    let long = FieldValue::FieldArray(vec![
        FieldValue::Void,
        FieldValue::ShortString("s".repeat(300)),
    ]);
    let mut out = vec![7];
    match put_value(&mut out, &long) {
        Err(AmqpError::ShortStrTooLong(300)) => {},
        other => panic!("expected ShortStrTooLong(300), got {:?}", other),
    }
    assert_eq!(out, vec![7]);
    assert!(items_body(&vec![FieldValue::ShortString("s".repeat(256))]).is_err());
}

#[test]
fn a_name_or_string_in_a_table_must_be_utf8() {
    let bytes = vec![0, 0, 0, 4, 2, 0xff, 0xfe, b'V'];
    match decode_table(&bytes, 0, bytes.len()) {
        Err(AmqpError::Utf8Err(_)) => {},
        other => panic!("expected Utf8Err, got {:?}", other),
    }
    let bytes = vec![b's', 1, 0x80];
    match decode_table_field_value(&bytes, 0, 3) {
        Err(AmqpError::Utf8Err(_)) => {},
        other => panic!("expected Utf8Err, got {:?}", other),
    }
    // A long string is any bytes.
    let bytes = vec![b'S', 0, 0, 0, 1, 0x80];
    let (v, _) = decode_table_field_value(&bytes, 0, 6).unwrap();
    assert_eq!(v, FieldValue::LongString(vec![0x80]));
}

#[test]
fn entries_are_read_within_the_given_region() {
    let bytes = vec![0xee, 1, b'a', b'V', 1, b'b', b'V', 0xee];
    let t = decode_entries(&bytes, 1, 7).unwrap();
    assert_eq!(t.len(), 2);
    assert!(t.contains_key("a"));
    assert!(t.contains_key("b"));
    assert!(!t.contains_key("c"));
    assert!(decode_entries(&bytes, 1, 6).is_err());
}

#[test]
fn insert_replaces_the_value_of_a_name_in_its_place() {
    let mut t = Table::new();
    assert_eq!(t.insert("a".to_string(), FieldValue::LongInt(1)), None);
    assert_eq!(t.insert("b".to_string(), FieldValue::LongInt(2)), None);
    assert_eq!(t.insert("c".to_string(), FieldValue::LongInt(3)), None);
    assert_eq!(t.insert("a".to_string(), FieldValue::LongInt(4)), Some(FieldValue::LongInt(1)));
    assert_eq!(t.len(), 3);
    assert_eq!(t.position("a"), Some(0));
    assert_eq!(t.position("b"), Some(1));
    assert_eq!(t.position("c"), Some(2));
    assert_eq!(t.position("d"), None);
    assert_eq!(t.get("a"), Some(&FieldValue::LongInt(4)));
    assert_eq!(t.get("d"), None);
    assert_eq!(t.value_at(2), &FieldValue::LongInt(3));
    assert_eq!(t.name_at(2), "c");
}

#[test]
fn tables_are_equal_whatever_the_order_of_their_entries() {
    let mut x = Table::new();
    x.insert("a".to_string(), FieldValue::LongInt(1));
    x.insert("b".to_string(), FieldValue::ShortString("s".to_string()));
    let mut y = Table::new();
    y.insert("b".to_string(), FieldValue::ShortString("s".to_string()));
    y.insert("a".to_string(), FieldValue::LongInt(1));
    assert_eq!(x, y);
    assert!(table_eq(&x, &y));
    assert_eq!(FieldValue::FieldTable(x.clone()), FieldValue::FieldTable(y.clone()));
    assert_eq!(
        FieldValue::FieldArray(vec![FieldValue::FieldTable(x.clone())]),
        FieldValue::FieldArray(vec![FieldValue::FieldTable(y.clone())])
    );
    // On the wire the order shows.
    assert_ne!(table_body(&x).unwrap(), table_body(&y).unwrap());

    let mut z = Table::new();
    z.insert("a".to_string(), FieldValue::LongInt(1));
    assert_ne!(x, z);
    assert_ne!(z, x);
    z.insert("b".to_string(), FieldValue::ShortString("t".to_string()));
    assert_ne!(x, z);
    let mut w = Table::new();
    w.insert("a".to_string(), FieldValue::LongInt(1));
    w.insert("c".to_string(), FieldValue::ShortString("s".to_string()));
    assert_ne!(x, w);
}

#[test]
fn values_of_two_kinds_differ() {
    assert_ne!(FieldValue::LongInt(1), FieldValue::LongUint(1));
    assert_ne!(FieldValue::ShortShortUint(1), FieldValue::Bool(true));
    assert_ne!(FieldValue::LongLongUint(5), FieldValue::Timestamp(5));
    assert_ne!(FieldValue::ShortString("a".to_string()), FieldValue::LongString(vec![b'a']));
    assert_ne!(FieldValue::FieldArray(vec![]), FieldValue::FieldTable(Table::new()));
    assert_ne!(FieldValue::Void, FieldValue::Bool(false));
    assert_ne!(FieldValue::DecimalValue(1, 2), FieldValue::DecimalValue(2, 1));
    assert_ne!(
        FieldValue::FieldArray(vec![FieldValue::Void]),
        FieldValue::FieldArray(vec![FieldValue::Void, FieldValue::Void])
    );
    assert_ne!(
        FieldValue::FieldArray(vec![FieldValue::Bool(true), FieldValue::Void]),
        FieldValue::FieldArray(vec![FieldValue::Void, FieldValue::Bool(true)])
    );
    assert!(value_eq(&FieldValue::Double(7), &FieldValue::Double(7)));
    assert!(!value_eq(&FieldValue::Double(7), &FieldValue::Double(8)));
    assert!(values_eq(&vec![FieldValue::Void], &vec![FieldValue::Void]));
    assert!(!values_eq(&vec![FieldValue::Void], &vec![]));
}

#[test]
fn a_copy_is_equal_and_its_own() {
    let mut t = Table::new();
    t.insert("k".to_string(), FieldValue::FieldArray(vec![FieldValue::LongString(vec![1, 2])]));
    let mut copy = t.clone();
    assert_eq!(copy, t);
    copy.insert("k".to_string(), FieldValue::Void);
    assert_ne!(copy, t);
    assert_eq!(t.get("k"), Some(&FieldValue::FieldArray(vec![FieldValue::LongString(vec![1, 2])])));
    let values = vec![FieldValue::ShortString("a".to_string()), FieldValue::FieldTable(t)];
    assert_eq!(copy_values(&values), values);
    assert_eq!(copy_bytes(&vec![1, 2, 3]), vec![1, 2, 3]);
    assert_eq!(Table::default(), Table::new());
}

#[test]
fn strings_and_bytes_are_compared_by_content() {
    assert!(str_eq("abc", "abc"));
    assert!(!str_eq("abc", "abd"));
    assert!(!str_eq("abc", "ab"));
    assert!(str_eq("", ""));
    assert!(bytes_eq(&[1, 2], &[1, 2]));
    assert!(!bytes_eq(&[1, 2], &[2, 1]));
    assert!(!bytes_eq(&[1, 2], &[1]));
    assert_eq!(bytes_of("A\u{e9}"), vec![0x41, 0xc3, 0xa9]);
}

#[test]
fn numbers_are_written_most_significant_octet_first() {
    let mut out = vec![0xaa];
    put_u8(&mut out, 0x01);
    put_u16(&mut out, 0x0203);
    put_u32(&mut out, 0x0405_0607);
    put_u64(&mut out, 0x0809_0a0b_0c0d_0e0f);
    put_bytes(&mut out, &[0x10, 0x11]);
    assert_eq!(
        out,
        vec![0xaa, 1, 2, 3, 4, 5, 6, 7, 8, 9, 10, 11, 12, 13, 14, 15, 16, 17]
    );
    assert_eq!(read_u8(&out, 1, out.len()).unwrap(), (0x01, 2));
    assert_eq!(read_u16(&out, 2, out.len()).unwrap(), (0x0203, 4));
    assert_eq!(read_u32(&out, 4, out.len()).unwrap(), (0x0405_0607, 8));
    assert_eq!(read_u64(&out, 8, out.len()).unwrap(), (0x0809_0a0b_0c0d_0e0f, 16));
    assert_eq!(read_bytes(&out, 16, out.len(), 2).unwrap(), (vec![0x10, 0x11], 18));
    assert_eq!(read_u16(&[0xff, 0xfe], 0, 2).unwrap(), (0xfffe, 2));
    assert_eq!(read_u32(&[0xff, 0xfe, 0xfd, 0xfc], 0, 4).unwrap(), (0xfffe_fdfc, 4));
    assert_eq!(
        read_u64(&[0xff, 0xfe, 0xfd, 0xfc, 0xfb, 0xfa, 0xf9, 0xf8], 0, 8).unwrap(),
        (0xfffe_fdfc_fbfa_f9f8, 8)
    );
}

#[test]
fn a_read_stops_at_the_end_of_its_region() {
    let data = vec![1, 2, 3, 4, 5, 6, 7, 8, 9];
    for (end, ok) in [(0usize, false), (1, true)] {
        assert_eq!(read_u8(&data, 0, end).is_ok(), ok);
    }
    assert!(read_u16(&data, 0, 1).is_err());
    assert!(read_u16(&data, 0, 2).is_ok());
    assert!(read_u32(&data, 0, 3).is_err());
    assert!(read_u32(&data, 0, 4).is_ok());
    assert!(read_u64(&data, 0, 7).is_err());
    assert!(read_u64(&data, 0, 8).is_ok());
    match read_u64(&data, 2, 9) {
        Err(AmqpError::ProtocolViolation(Violation::Truncated(2))) => {},
        other => panic!("expected Truncated(2), got {:?}", other),
    }
    match read_bytes(&data, 3, 5, 3) {
        Err(AmqpError::ProtocolViolation(Violation::Truncated(3))) => {},
        other => panic!("expected Truncated(3), got {:?}", other),
    }
}

#[test]
fn strings_carry_their_length() {
    let mut out = Vec::new();
    put_short_str(&mut out, "h\u{e9}").unwrap();
    assert_eq!(out, vec![3, b'h', 0xc3, 0xa9]);
    assert_eq!(read_short_str(&out, 0, out.len()).unwrap(), ("h\u{e9}".to_string(), 4));
    match read_short_str(&out, 0, 3) {
        Err(AmqpError::ProtocolViolation(Violation::Truncated(1))) => {},
        other => panic!("expected Truncated(1), got {:?}", other),
    }
    let mut out = vec![0x55];
    match put_short_str(&mut out, &"x".repeat(256)) {
        Err(AmqpError::ShortStrTooLong(256)) => {},
        other => panic!("expected ShortStrTooLong(256), got {:?}", other),
    }
    assert_eq!(out, vec![0x55]);

    let mut out = Vec::new();
    put_sized(&mut out, &[7, 8, 9]).unwrap();
    assert_eq!(out, vec![0, 0, 0, 3, 7, 8, 9]);
    assert_eq!(read_long_str(&out, 0, out.len()).unwrap(), (vec![7, 8, 9], 7));
    let long = vec![0x5a; 70_000];
    let mut out = Vec::new();
    put_sized(&mut out, &long).unwrap();
    assert_eq!(&out[..4], &[0x00, 0x01, 0x11, 0x70]);
    assert_eq!(read_long_str(&out, 0, out.len()).unwrap(), (long, 70_004));
}
