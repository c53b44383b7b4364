use amqp::conf::Conf;
use amqp::frame::Frame;
use amqp::method::Method;
use amqp::method::Kind;
use amqp::protocol::{
    basic, connection, lookup, Header, ACCESS_REFUSED, CHANNEL_ERROR, COMMAND_INVALID, CONNECTION_FORCED,
    CONTENT_TOO_LARGE, FRAME_BODY, FRAME_END, FRAME_ERROR, FRAME_HEADER, FRAME_HEARTBEAT,
    FRAME_METHOD, FRAME_MIN_SIZE, INTERNAL_ERROR, INVALID_PATH, NOT_ALLOWED, NOT_FOUND,
    NOT_IMPLEMENTED, NO_CONSUMERS, NO_ROUTE, PORT, PRECONDITION_FAILED, PROT_HEADER,
    REPLY_SUCCESS, RESOURCE_ERROR, RESOURCE_LOCKED, SYNTAX_ERROR, UNEXPECTED_FRAME,
};
use amqp::result::{AmqpError, Violation};

#[test]
fn a_frame_that_ends_in_another_octet_is_refused() {
    let frame = Frame { ty: 1, channel: 0, payload: vec![1, 2, 3] };
    let mut wire = frame.to_bytes().unwrap();
    let last = wire.len() - 1;
    assert_eq!(wire[last], 0xce);
    wire[last] = 0xcd;
    match Frame::from_bytes(&wire) {
        Err(AmqpError::FrameEndErr(0xcd)) => {},
        other => panic!("expected FrameEndErr(0xcd), got {:?}", other),
    }
    match Frame::finish(1, 0, vec![], 0xcd) {
        Err(AmqpError::FrameEndErr(0xcd)) => {},
        other => panic!("expected FrameEndErr(0xcd), got {:?}", other),
    }
    let ok = Frame::finish(8, 5, vec![9], 0xce).unwrap();
    assert_eq!((ok.ty, ok.channel, ok.payload), (8, 5, vec![9]));
}

#[test]
fn a_frame_round_trips_through_its_image() {
    let frame = Frame { ty: 3, channel: 0x0102, payload: vec![0xde, 0xad, 0xbe, 0xef] };
    let wire = frame.to_bytes().unwrap();
    assert_eq!(wire, vec![3, 1, 2, 0, 0, 0, 4, 0xde, 0xad, 0xbe, 0xef, 0xce]);
    let (back, next) = Frame::from_bytes(&wire).unwrap();
    assert_eq!(next, wire.len());
    assert_eq!((back.ty, back.channel, back.payload), (3, 0x0102, vec![0xde, 0xad, 0xbe, 0xef]));

    let mut two = wire.clone();
    two.extend_from_slice(&Frame { ty: 8, channel: 0, payload: vec![] }.to_bytes().unwrap());
    let (_, next) = Frame::from_bytes(&two).unwrap();
    assert_eq!(next, 12);
    let (second, next) = Frame::from_bytes(&two[12..]).unwrap();
    assert_eq!((second.ty, second.channel, second.payload.len(), next), (8, 0, 0, 8));
}

#[test]
fn the_frame_header_is_seven_octets() {
    assert_eq!(
        Frame::parse_header(&[1, 0, 7, 0, 1, 0, 2]).unwrap(),
        (1, 7, 0x0001_0002)
    );
    match Frame::parse_header(&[1, 0, 7, 0, 1, 0]) {
        Err(AmqpError::ProtocolViolation(Violation::Truncated(3))) => {},
        other => panic!("expected Truncated(3), got {:?}", other),
    }
    match Frame::from_bytes(&[1, 0, 0, 0, 0, 0, 2, 9]) {
        Err(AmqpError::ProtocolViolation(Violation::Truncated(7))) => {},
        other => panic!("expected Truncated(7), got {:?}", other),
    }
    match Frame::from_bytes(&[1, 0, 0, 0, 0, 0, 1, 9]) {
        Err(AmqpError::ProtocolViolation(Violation::Truncated(8))) => {},
        other => panic!("expected Truncated(8), got {:?}", other),
    }
}

#[test]
fn a_method_frame_names_its_method() {
    let frame = Frame::from_method(7, &connection::Tune::default()).unwrap();
    assert_eq!(frame.ty, FRAME_METHOD);
    assert_eq!(frame.channel, 7);
    assert_eq!(frame.method_ids(), Some((10, 30)));
    let short = Frame { ty: 1, channel: 0, payload: vec![0, 10, 0] };
    assert_eq!(short.method_ids(), None);
    let r: Result<connection::Tune, AmqpError> = short.to_method();
    assert!(r.is_err());
    let mut open = connection::Open::default();
    open.virtual_host = "v".repeat(256);
    match Frame::from_method(0, &open) {
        Err(AmqpError::ShortStrTooLong(256)) => {},
        other => panic!("expected ShortStrTooLong(256), got {:?}", other),
    }
    assert_eq!(connection::Tune::default().se().unwrap(), frame.payload);
}

#[test]
fn the_constants_are_those_of_the_protocol() {
    assert_eq!(PROT_HEADER, [0x41, 0x4d, 0x51, 0x50, 0x00, 0x00, 0x09, 0x01]);
    assert_eq!(&PROT_HEADER[..4], b"AMQP");
    let header = Header::current();
    assert_eq!(&header.name, b"AMQP");
    assert_eq!((header.major, header.minor, header.revision), (0, 9, 1));
    assert_eq!(header.bytes(), PROT_HEADER);
    assert_eq!(PORT, 5672);
    assert_eq!(FRAME_END, 0xce);
    assert_eq!(FRAME_MIN_SIZE, 4096);
    assert_eq!((FRAME_METHOD, FRAME_HEADER, FRAME_BODY, FRAME_HEARTBEAT), (1, 2, 3, 8));
    assert_eq!(REPLY_SUCCESS, 200);
    assert_eq!((CONTENT_TOO_LARGE, NO_ROUTE, NO_CONSUMERS), (311, 312, 313));
    assert_eq!((ACCESS_REFUSED, NOT_FOUND, RESOURCE_LOCKED, PRECONDITION_FAILED), (403, 404, 405, 406));
    assert_eq!((CONNECTION_FORCED, INVALID_PATH), (320, 402));
    assert_eq!((FRAME_ERROR, SYNTAX_ERROR, COMMAND_INVALID), (501, 502, 503));
    assert_eq!((CHANNEL_ERROR, UNEXPECTED_FRAME, RESOURCE_ERROR), (504, 505, 506));
    assert_eq!((NOT_ALLOWED, NOT_IMPLEMENTED, INTERNAL_ERROR), (530, 540, 541));
}

#[test]
fn the_default_configuration_is_the_local_guest() {
    let conf = Conf::default();
    assert_eq!(conf.host, "localhost");
    assert_eq!(conf.port, 5672);
    assert_eq!(conf.user, "guest");
    assert_eq!(conf.password, "guest");
    assert_eq!(conf.vhost, "/");
}

#[test]
fn each_error_has_its_sentence() {
    assert_eq!(AmqpError::ShortStrTooLong(256).description(), "short string length is too long");
    assert_eq!(AmqpError::FrameEndErr(1).description(), "frame end error");
    assert_eq!(AmqpError::UnexpectedMethod(10, 10).description(), "unexpected method");
    assert_eq!(
        AmqpError::ProtocolViolation(Violation::OutOfOrder).description(),
        "protocol violation"
    );
    let io = std::io::Error::new(std::io::ErrorKind::UnexpectedEof, "eof");
    let e = AmqpError::from(io);
    assert!(matches!(e, AmqpError::IoErr(_)));
    assert_eq!(e.description(), "i/o error");
    assert!(e.has_cause());
    let utf8 = String::from_utf8(vec![0xff]).unwrap_err();
    let e = AmqpError::from(utf8);
    assert!(matches!(e, AmqpError::Utf8Err(_)));
    assert_eq!(e.description(), "invalid utf-8 in short string");
    assert!(e.has_cause());
    assert!(!AmqpError::FrameEndErr(1).has_cause());
    assert!(!AmqpError::ShortStrTooLong(1).has_cause());
}

#[test]
fn the_catalog_is_indexed_by_class_and_method_id() {
    assert_eq!(lookup(10, 10), Some(connection::Start::kinds()));
    assert_eq!(lookup(10, 31), Some(vec![Kind::Short, Kind::Long, Kind::Short]));
    assert_eq!(lookup(10, 51), Some(vec![]));
    assert_eq!(lookup(60, 40), Some(basic::Publish::kinds()));
    assert_eq!(
        lookup(60, 80),
        Some(vec![Kind::Longlong, Kind::Bit])
    );
    assert_eq!(lookup(10, 12), None);
    assert_eq!(lookup(0, 0), None);
    assert_eq!(lookup(70, 10), None);
    let mut known = 0;
    for class_id in 0..=100u16 {
        for method_id in 0..=130u16 {
            if lookup(class_id, method_id).is_some() {
                known += 1;
            }
        }
    }
    assert_eq!(known, 64);
}
