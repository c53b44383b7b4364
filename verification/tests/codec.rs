use amqp::frame::Frame;
use amqp::method::{de, decode, encode, record_of, Decoder, Encoder, Field, Kind, Method};
use amqp::protocol::{basic, channel, connection, exchange, queue};
use amqp::result::{AmqpError, Violation};
use amqp::types::FieldValue::{
    Bool, DecimalValue, Double, FieldArray, FieldTable, Float, LongInt, LongLongInt, LongLongUint,
    LongString, LongUint, ShortInt, ShortShortInt, ShortShortUint, ShortString, ShortUint,
    Timestamp, Void,
};
use amqp::types::{StrType, Table};

#[test]
fn frame_test() {
    let a = connection::Start::default();
    println!("{:#?}", a);

    let frame = Frame::from_method(0, &a).unwrap();
    println!("{:?}", frame);

    let b: connection::Start = frame.to_method().unwrap();
    println!("{:#?}", b);

    assert_eq!(a, b);
}

#[test]
fn method_test() {
    let mut a = connection::Start::default();

    let mut table = Table::new();
    table.insert("a".to_string(), Bool(true));
    let nested_table = table.clone();
    table.insert("b".to_string(), FieldArray(vec![FieldTable(nested_table)]));
    let nested_table = table.clone();
    table.insert("c".to_string(), FieldTable(nested_table));
    a.server_properties = table;

    println!("{:#?}", a);

    let vec = a.se().unwrap();
    println!("{:?}", vec);

    let b: connection::Start = de(&vec).unwrap();
    println!("{:#?}", b);

    assert_eq!(a, b);
}

#[test]
fn test_start() {
    let mut a = connection::Start::default();

    let mut table = Table::new();
    table.insert("a".to_string(), Bool(true));
    table.insert("b".to_string(), ShortShortInt(1));
    table.insert("c".to_string(), ShortShortUint(2));
    table.insert("d".to_string(), ShortInt(3));
    table.insert("e".to_string(), ShortUint(4));
    table.insert("f".to_string(), LongInt(5));
    table.insert("g".to_string(), LongUint(6));
    table.insert("h".to_string(), LongLongInt(7));
    table.insert("i".to_string(), LongLongUint(8));
    table.insert("j".to_string(), Float(1.1f32.to_bits()));
    table.insert("k".to_string(), Double(2.2f64.to_bits()));
    table.insert("l".to_string(), DecimalValue(1, 2));
    table.insert("m".to_string(), ShortString("short string".to_string()));
    table.insert("n".to_string(), LongString(b"long string".to_vec()));

    let nested_table = table.clone();
    table.insert(
        "o".to_string(),
        FieldArray(vec![
            Bool(false),
            LongInt(4321),
            ShortString("ooxx".to_string()),
            FieldTable(nested_table),
        ]),
    );
    table.insert("p".to_string(), Timestamp(1234));
    table.insert("r".to_string(), Void);

    let nested_table = table.clone();
    table.insert("q".to_string(), FieldTable(nested_table));
    a.server_properties = table;

    println!("{:#?}", a);

    let vec = a.se().unwrap();
    println!("{:?}", vec);

    let b: connection::Start = de(&vec).unwrap();
    println!("{:#?}", b);

    assert_eq!(a, b);
}

#[test]
fn test_declare() {
    let mut a = exchange::Declare::default();
    a.passive = true;
    a.durable = false;
    a.auto_delete = true;
    a.internal = false;
    a.nowait = true;

    println!("{:#?}", a);

    let vec = a.se().unwrap();
    println!("{:?}", vec);

    let b: exchange::Declare = de(&vec).unwrap();
    println!("{:#?}", b);

    assert_eq!(a, b);
}

#[test]
fn test_connection_open() {
    let a = connection::Open::default();
    println!("{:#?}", a);

    let vec = a.se().unwrap();
    println!("{:?}", vec);

    let b: connection::Open = de(&vec).unwrap();
    println!("{:#?}", b);

    assert_eq!(a, b);
}

#[test]
fn tune_ok_payload_is_exact() {
    let mut m = connection::TuneOk::default();
    m.channel_max = 0;
    m.frame_max = 131072;
    m.heartbeat = 60;
    let payload = m.se().unwrap();
    assert_eq!(
        payload,
        vec![0x00, 0x0a, 0x00, 0x1f, 0x00, 0x00, 0x00, 0x02, 0x00, 0x00, 0x00, 0x3c]
    );
    assert_eq!(payload.len(), 12);

    let frame = Frame::from_method(0, &m).unwrap();
    assert_eq!(frame.ty, 1);
    assert_eq!(frame.channel, 0);
    let wire = frame.to_bytes().unwrap();
    let mut expected = vec![0x01, 0x00, 0x00, 0x00, 0x00, 0x00, 0x0c];
    expected.extend_from_slice(&payload);
    expected.push(0xce);
    assert_eq!(wire, expected);
}

#[test]
fn declare_packs_five_bits_into_one_octet() {
    let mut m = exchange::Declare::default();
    m.passive = true;
    m.durable = false;
    m.auto_delete = true;
    m.internal = false;
    m.nowait = true;
    assert_eq!(m.ticket, 0);
    assert_eq!(m.exchange, "");
    assert_eq!(m.ty, "direct");
    assert!(m.arguments.is_empty());

    let payload = m.se().unwrap();
    let mut expected = vec![0x00, 0x28, 0x00, 0x0a];
    expected.extend_from_slice(&[0x00, 0x00]);
    expected.push(0);
    expected.push(6);
    expected.extend_from_slice(b"direct");
    expected.push(0x15);
    expected.extend_from_slice(&[0, 0, 0, 0]);
    assert_eq!(payload, expected);
}

#[test]
fn default_records_carry_the_declared_defaults() {
    let start = connection::Start::default();
    assert_eq!(start.version_major, 0);
    assert_eq!(start.version_minor, 9);
    assert!(start.server_properties.is_empty());
    assert_eq!(start.mechanisms, b"PLAIN".to_vec());
    assert_eq!(start.locales, b"en_US".to_vec());

    let start_ok = connection::StartOk::default();
    assert_eq!(start_ok.mechanism, "PLAIN");
    assert_eq!(start_ok.locale, "en_US");
    assert!(start_ok.response.is_empty());

    let open = connection::Open::default();
    assert_eq!(open.virtual_host, "/");
    assert_eq!(open.capabilities, "");
    assert!(!open.insist);

    let qos = basic::Qos::default();
    assert_eq!(qos.prefetch_size, 0);
    assert_eq!(qos.prefetch_count, 0);
    assert!(!qos.global);
}

#[test]
fn ids_identify_each_method() {
    assert_eq!((connection::Start::class_id(), connection::Start::method_id()), (10, 10));
    assert_eq!((connection::StartOk::class_id(), connection::StartOk::method_id()), (10, 11));
    assert_eq!((connection::Tune::class_id(), connection::Tune::method_id()), (10, 30));
    assert_eq!((connection::TuneOk::class_id(), connection::TuneOk::method_id()), (10, 31));
    assert_eq!((connection::CloseOk::class_id(), connection::CloseOk::method_id()), (10, 51));
    assert_eq!((channel::Open::class_id(), channel::Open::method_id()), (20, 10));
    assert_eq!((exchange::Declare::class_id(), exchange::Declare::method_id()), (40, 10));
    assert_eq!((queue::Declare::class_id(), queue::Declare::method_id()), (50, 10));
    assert_eq!((basic::Publish::class_id(), basic::Publish::method_id()), (60, 40));
}

#[test]
fn str_type_follows_the_declared_type() {
    assert_eq!(connection::Start::str_type("mechanisms"), Some(StrType::Long));
    assert_eq!(connection::Start::str_type("locales"), Some(StrType::Long));
    assert_eq!(connection::Start::str_type("version_major"), None);
    assert_eq!(connection::Start::str_type("server_properties"), None);
    assert_eq!(connection::StartOk::str_type("mechanism"), Some(StrType::Short));
    assert_eq!(connection::StartOk::str_type("response"), Some(StrType::Long));
    assert_eq!(connection::StartOk::str_type("locale"), Some(StrType::Short));
    assert_eq!(connection::Tune::str_type("channel_max"), None);
    assert_eq!(exchange::Declare::str_type("ty"), Some(StrType::Short));
    assert_eq!(exchange::Declare::str_type("nowait"), None);
    assert_eq!(exchange::Declare::str_type("no such field"), None);
    assert_eq!(
        connection::Start::kinds(),
        vec![Kind::Octet, Kind::Octet, Kind::Table, Kind::Longstr, Kind::Longstr]
    );
}

#[test]
fn short_string_of_255_bytes_is_written_and_256_refused() {
    let mut m = connection::Open::default();
    m.virtual_host = "v".repeat(255);
    let payload = m.se().unwrap();
    assert_eq!(payload[4], 0xff);
    assert_eq!(&payload[5..260], "v".repeat(255).as_bytes());
    assert_eq!(payload.len(), 4 + 1 + 255 + 1 + 1);
    let back: connection::Open = de(&payload).unwrap();
    assert_eq!(back, m);

    m.virtual_host = "v".repeat(256);
    match m.se() {
        Err(AmqpError::ShortStrTooLong(256)) => {},
        other => panic!("expected ShortStrTooLong(256), got {:?}", other),
    }
}

#[test]
fn the_first_field_that_cannot_be_written_gives_the_error() {
    let mut m = exchange::Declare::default();
    m.exchange = "e".repeat(300);
    m.ty = "t".repeat(400);
    match m.se() {
        Err(AmqpError::ShortStrTooLong(300)) => {},
        other => panic!("expected ShortStrTooLong(300), got {:?}", other),
    }
}

#[test]
fn nine_bits_take_two_octets_before_the_next_field() {
    let mut fields = Vec::new();
    fields.push(Field::Octet(0xaa));
    let bits = [true, false, false, true, true, false, true, false, true];
    for b in bits.iter() {
        fields.push(Field::Bit(*b));
    }
    fields.push(Field::Short(0x0102));
    fields.push(Field::Bit(true));
    let bytes = encode(&fields).unwrap();
    assert_eq!(bytes, vec![0xaa, 0b0101_1001, 0b0000_0001, 0x01, 0x02, 0b0000_0001]);

    let mut kinds = vec![Kind::Octet];
    for _ in 0..9 {
        kinds.push(Kind::Bit);
    }
    kinds.push(Kind::Short);
    kinds.push(Kind::Bit);
    let back = decode(&bytes, &kinds).unwrap();
    assert_eq!(back, fields);
}

#[test]
fn fields_of_two_types_differ() {
    assert_eq!(Field::Short(1), Field::Short(1));
    assert_ne!(Field::Short(1), Field::Short(2));
    assert_ne!(Field::Short(1), Field::Long(1));
    assert_ne!(Field::Octet(1), Field::Bit(true));
    assert_ne!(Field::Shortstr("a".to_string()), Field::Longstr(vec![b'a']));
    assert_eq!(Field::Shortstr("a".to_string()), Field::Shortstr("a".to_string()));
    assert_eq!(Field::Longstr(vec![1]), Field::Longstr(vec![1]));
    assert_eq!(Field::Longlong(9), Field::Longlong(9));
    let mut x = Table::new();
    x.insert("a".to_string(), Void);
    x.insert("b".to_string(), Void);
    let mut y = Table::new();
    y.insert("b".to_string(), Void);
    y.insert("a".to_string(), Void);
    assert_eq!(Field::Table(x), Field::Table(y));
}

#[test]
fn bit_runs_take_a_rounded_up_eighth_of_their_length() {
    for n in 0..20usize {
        let mut fields = Vec::new();
        for _ in 0..n {
            fields.push(Field::Bit(true));
        }
        fields.push(Field::Octet(0x7f));
        let bytes = encode(&fields).unwrap();
        assert_eq!(bytes.len(), (n + 7) / 8 + 1);
        assert_eq!(bytes[bytes.len() - 1], 0x7f);
    }
}

#[test]
fn a_bit_run_behind_another_field_starts_a_new_octet() {
    let fields = vec![Field::Bit(true), Field::Octet(9), Field::Bit(true), Field::Bit(true)];
    assert_eq!(encode(&fields).unwrap(), vec![0x01, 0x09, 0x03]);
}

#[test]
fn a_final_bit_field_is_flushed() {
    let mut m = connection::Open::default();
    m.insist = true;
    let payload = m.se().unwrap();
    assert_eq!(payload, vec![0x00, 0x0a, 0x00, 0x28, 0x01, b'/', 0x00, 0x01]);
}

#[test]
fn encoder_writes_fields_in_order() {
    let mut e = Encoder::new();
    e.write_bool(true).unwrap();
    e.write_bool(true).unwrap();
    e.write_u8(7).unwrap();
    e.write_u16(0x1234).unwrap();
    e.write_u32(0x0102_0304).unwrap();
    e.write_u64(0x0102_0304_0506_0708).unwrap();
    e.write_short_str("ab").unwrap();
    e.write_long_str(b"xyz").unwrap();
    e.write_table(&Table::new()).unwrap();
    e.write_bool(false).unwrap();
    e.write_bool(true).unwrap();
    e.flush_bit().unwrap();
    let bytes = e.finish();
    assert_eq!(
        bytes,
        vec![
            0x03, 7, 0x12, 0x34, 1, 2, 3, 4, 1, 2, 3, 4, 5, 6, 7, 8, 2, b'a', b'b', 0, 0, 0, 3,
            b'x', b'y', b'z', 0, 0, 0, 0, 0x02
        ]
    );
}

#[test]
fn decoder_reads_fields_in_order() {
    let bytes = vec![
        0x03, 7, 0x12, 0x34, 1, 2, 3, 4, 1, 2, 3, 4, 5, 6, 7, 8, 2, b'a', b'b', 0, 0, 0, 3, b'x',
        b'y', b'z', 0, 0, 0, 0, 0x02,
    ];
    let mut d = Decoder::new(&bytes);
    assert_eq!(d.read_bool().unwrap(), true);
    assert_eq!(d.read_bool().unwrap(), true);
    assert_eq!(d.read_bool().unwrap(), false);
    assert_eq!(d.read_u8().unwrap(), 7);
    assert_eq!(d.read_u16().unwrap(), 0x1234);
    assert_eq!(d.read_u32().unwrap(), 0x0102_0304);
    assert_eq!(d.read_u64().unwrap(), 0x0102_0304_0506_0708);
    assert_eq!(d.read_short_str().unwrap(), "ab");
    assert_eq!(d.read_long_str().unwrap(), b"xyz".to_vec());
    assert!(d.decode_table().unwrap().is_empty());
    assert_eq!(d.read_bool().unwrap(), false);
    assert_eq!(d.read_bool().unwrap(), true);
    match d.read_u8() {
        Err(AmqpError::ProtocolViolation(Violation::Truncated(31))) => {},
        other => panic!("expected Truncated(31), got {:?}", other),
    }
}

#[test]
fn a_payload_that_ends_early_is_truncated() {
    let m = connection::TuneOk::default();
    let payload = m.se().unwrap();
    let r: Result<connection::TuneOk, AmqpError> = de(&payload[..10]);
    match r {
        Err(AmqpError::ProtocolViolation(Violation::Truncated(10))) => {},
        other => panic!("expected Truncated(10), got {:?}", other),
    }
    let r: Result<connection::TuneOk, AmqpError> = de(&[]);
    match r {
        Err(AmqpError::ProtocolViolation(Violation::Truncated(0))) => {},
        other => panic!("expected Truncated(0), got {:?}", other),
    }
}

#[test]
fn a_short_string_that_is_not_utf8_is_refused() {
    let payload = vec![0x00, 0x0a, 0x00, 0x29, 0x02, 0xc3, 0x28];
    let r: Result<connection::OpenOk, AmqpError> = de(&payload);
    match r {
        Err(AmqpError::Utf8Err(_)) => {},
        other => panic!("expected Utf8Err, got {:?}", other),
    }
    let payload = vec![0x00, 0x0a, 0x00, 0x29, 0x02, 0xc3, 0xa9];
    let ok: connection::OpenOk = de(&payload).unwrap();
    assert_eq!(ok.known_hosts, "\u{e9}");
}

#[test]
fn bytes_behind_the_last_field_are_not_looked_at() {
    let mut payload = connection::CloseOk::default().se().unwrap();
    assert_eq!(payload, vec![0x00, 0x0a, 0x00, 0x33]);
    payload.push(0xff);
    let m: connection::CloseOk = de(&payload).unwrap();
    assert_eq!(m, connection::CloseOk::default());
}

#[test]
fn the_ids_on_the_wire_are_not_compared_when_decoding() {
    let mut tune = connection::Tune::default();
    tune.channel_max = 3;
    tune.frame_max = 4096;
    tune.heartbeat = 5;
    let payload = tune.se().unwrap();
    let ok: connection::TuneOk = de(&payload).unwrap();
    assert_eq!(ok.channel_max, 3);
    assert_eq!(ok.frame_max, 4096);
    assert_eq!(ok.heartbeat, 5);
}

#[test]
fn every_kind_of_field_round_trips_in_a_record() {
    let mut publish = basic::Publish::default();
    publish.ticket = 0xbeef;
    publish.exchange = "amq.topic".to_string();
    publish.routing_key = "k\u{e9}y".to_string();
    publish.mandatory = true;
    publish.immediate = false;
    let back: basic::Publish = de(&publish.se().unwrap()).unwrap();
    assert_eq!(back, publish);

    let mut ack = basic::Ack::default();
    ack.delivery_tag = 0x0102_0304_0506_0708;
    ack.multiple = true;
    let bytes = ack.se().unwrap();
    assert_eq!(bytes, vec![0x00, 0x3c, 0x00, 0x50, 1, 2, 3, 4, 5, 6, 7, 8, 0x01]);
    let back: basic::Ack = de(&bytes).unwrap();
    assert_eq!(back, ack);

    let mut secure = connection::Secure::default();
    secure.challenge = vec![0, 255, 1, 254];
    let back: connection::Secure = de(&secure.se().unwrap()).unwrap();
    assert_eq!(back, secure);

    let mut declare = queue::Declare::default();
    declare.queue = "jobs".to_string();
    declare.durable = true;
    declare.arguments.insert("x-max-length".to_string(), LongUint(1000));
    let back: queue::Declare = de(&declare.se().unwrap()).unwrap();
    assert_eq!(back, declare);
}

#[test]
fn a_record_is_made_of_fields_of_its_declared_types() {
    let m: Option<connection::TuneOk> =
        record_of(vec![Field::Short(1), Field::Long(2), Field::Short(3)]);
    let m = m.unwrap();
    assert_eq!((m.channel_max, m.frame_max, m.heartbeat), (1, 2, 3));
    let m: Option<connection::TuneOk> =
        record_of(vec![Field::Short(1), Field::Short(2), Field::Short(3)]);
    assert!(m.is_none());
    let m: Option<connection::TuneOk> = record_of(vec![Field::Short(1), Field::Long(2)]);
    assert!(m.is_none());
    let m: Option<connection::CloseOk> = record_of(vec![]);
    assert_eq!(m, Some(connection::CloseOk::default()));
    let m: Option<connection::CloseOk> = record_of(vec![Field::Bit(true)]);
    assert!(m.is_none());

    let mut declare = exchange::Declare::default();
    declare.exchange = "logs".to_string();
    declare.durable = true;
    declare.arguments.insert("x".to_string(), Bool(true));
    let back: Option<exchange::Declare> = record_of(declare.args());
    assert_eq!(back, Some(declare));

    assert_eq!(Field::Bit(true).kind(), Kind::Bit);
    assert_eq!(Field::Octet(1).kind(), Kind::Octet);
    assert_eq!(Field::Short(1).kind(), Kind::Short);
    assert_eq!(Field::Long(1).kind(), Kind::Long);
    assert_eq!(Field::Longlong(1).kind(), Kind::Longlong);
    assert_eq!(Field::Shortstr(String::new()).kind(), Kind::Shortstr);
    assert_eq!(Field::Longstr(vec![]).kind(), Kind::Longstr);
    assert_eq!(Field::Table(Table::new()).kind(), Kind::Table);
}

#[test]
fn records_are_equal_field_by_field() {
    let mut a = queue::Bind::default();
    let mut b = queue::Bind::default();
    assert_eq!(a, b);
    a.arguments.insert("x".to_string(), LongInt(1));
    a.arguments.insert("y".to_string(), LongInt(2));
    b.arguments.insert("y".to_string(), LongInt(2));
    assert_ne!(a, b);
    b.arguments.insert("x".to_string(), LongInt(1));
    assert_eq!(a, b);
    b.routing_key = "k".to_string();
    assert_ne!(a, b);
    a.routing_key = "k".to_string();
    assert_eq!(a, b);
    b.nowait = true;
    assert_ne!(a, b);
    let mut s = connection::Secure::default();
    let t = connection::Secure::default();
    s.challenge = vec![1];
    assert_ne!(s, t);
    assert_eq!(connection::CloseOk::default(), connection::CloseOk::default());
}
