use amqp::conf::Conf;
use amqp::connection::{
    capabilities_table, client_props, expect, make_close, make_open, make_start_ok, make_tune_ok,
    start_ok_response, Action, Connection, Event, State,
};
use amqp::frame::Frame;
use amqp::method::Method;
use amqp::protocol::connection::{Close, CloseOk, Open, OpenOk, Start, StartOk, Tune, TuneOk};
use amqp::result::{AmqpError, Violation};
use amqp::types::{FieldValue, Table};

fn frame_of<M: Method>(m: &M) -> Frame {
    Frame::from_method(0, m).unwrap()
}

fn sent_frame(a: Action) -> Frame {
    match a {
        Action::Send(f) => f,
        other => panic!("expected Send, got {:?}", other),
    }
}

fn opened(conf: Conf) -> Connection {
    let mut c = Connection::new(conf);
    assert!(matches!(c.step(Event::Open).unwrap(), Action::SendHeader(_)));
    assert!(matches!(c.step(Event::Sent).unwrap(), Action::Recv));
    sent_frame(c.step(Event::Received(frame_of(&Start::default()))).unwrap());
    assert!(matches!(c.step(Event::Sent).unwrap(), Action::Recv));
    sent_frame(c.step(Event::Received(frame_of(&Tune::default()))).unwrap());
    sent_frame(c.step(Event::Sent).unwrap());
    assert!(matches!(c.step(Event::Sent).unwrap(), Action::Recv));
    assert!(matches!(
        c.step(Event::Received(frame_of(&OpenOk::default()))).unwrap(),
        Action::Done
    ));
    assert_eq!(c.state(), State::Ready);
    c
}

#[test]
fn opening_starts_with_the_protocol_header() {
    let mut c = Connection::new(Conf::default());
    assert_eq!(c.state(), State::Init);
    match c.step(Event::Open).unwrap() {
        Action::SendHeader(bytes) => {
            assert_eq!(bytes, [0x41, 0x4d, 0x51, 0x50, 0x00, 0x00, 0x09, 0x01]);
        },
        other => panic!("expected SendHeader, got {:?}", other),
    }
    assert_eq!(c.state(), State::Init);
    // Nothing is sent before the header has gone out.
    assert!(matches!(c.step(Event::Sent).unwrap(), Action::Recv));
    assert_eq!(c.state(), State::HdrSent);
}

#[test]
fn the_plain_response_is_user_and_password_behind_zero_octets() {
    assert_eq!(
        start_ok_response("guest", "guest"),
        vec![0x00, 0x67, 0x75, 0x65, 0x73, 0x74, 0x00, 0x67, 0x75, 0x65, 0x73, 0x74]
    );
    assert_eq!(start_ok_response("guest", "guest").len(), 12);
    assert_eq!(start_ok_response("", ""), vec![0, 0]);
    let frame = make_start_ok("guest", "guest").unwrap();
    let start_ok: StartOk = frame.to_method().unwrap();
    assert_eq!(start_ok.response, b"\0guest\0guest".to_vec());
}

#[test]
fn the_dialogue_goes_through_every_state() {
    let mut conf = Conf::default();
    conf.user = "alice".to_string();
    conf.password = "s3cret".to_string();
    conf.vhost = "/prod".to_string();
    let mut c = Connection::new(conf);
    assert_eq!(c.conf().user, "alice");

    assert!(matches!(c.step(Event::Open).unwrap(), Action::SendHeader(_)));
    assert!(matches!(c.step(Event::Sent).unwrap(), Action::Recv));
    assert_eq!(c.state(), State::HdrSent);

    let mut start = Start::default();
    start.server_properties.insert(
        "product".to_string(),
        FieldValue::LongString(b"broker".to_vec()),
    );
    start.mechanisms = b"PLAIN AMQPLAIN".to_vec();
    start.locales = b"en_US".to_vec();
    let reply = sent_frame(c.step(Event::Received(frame_of(&start))).unwrap());
    assert_eq!(c.state(), State::StartRecvd);
    assert_eq!(c.server_props.get("product"), Some(&FieldValue::LongString(b"broker".to_vec())));
    assert_eq!(c.mechanisms, b"PLAIN AMQPLAIN".to_vec());
    assert_eq!(c.locales, b"en_US".to_vec());
    assert_eq!((reply.ty, reply.channel), (1, 0));
    assert_eq!(reply.method_ids(), Some((10, 11)));
    let start_ok: StartOk = reply.to_method().unwrap();
    assert_eq!(start_ok.mechanism, "PLAIN");
    assert_eq!(start_ok.locale, "en_US");
    assert_eq!(start_ok.response, b"\0alice\0s3cret".to_vec());
    assert_eq!(start_ok.client_properties, client_props());

    assert!(matches!(c.step(Event::Sent).unwrap(), Action::Recv));
    assert_eq!(c.state(), State::StartOkSent);

    let mut tune = Tune::default();
    tune.channel_max = 2047;
    tune.frame_max = 131072;
    tune.heartbeat = 60;
    let reply = sent_frame(c.step(Event::Received(frame_of(&tune))).unwrap());
    assert_eq!(c.state(), State::TuneRecvd);
    assert_eq!((c.channel_max, c.frame_max, c.heartbeat), (2047, 131072, 60));
    let tune_ok: TuneOk = reply.to_method().unwrap();
    assert_eq!(reply.method_ids(), Some((10, 31)));
    assert_eq!((tune_ok.channel_max, tune_ok.frame_max, tune_ok.heartbeat), (2047, 131072, 60));

    let open = sent_frame(c.step(Event::Sent).unwrap());
    assert_eq!(c.state(), State::TuneOkSent);
    assert_eq!(open.method_ids(), Some((10, 40)));
    let open: Open = open.to_method().unwrap();
    assert_eq!(open.virtual_host, "/prod");
    assert_eq!(open.capabilities, "");
    assert!(!open.insist);

    assert!(matches!(c.step(Event::Sent).unwrap(), Action::Recv));
    assert_eq!(c.state(), State::OpenSent);
    assert!(matches!(
        c.step(Event::Received(frame_of(&OpenOk::default()))).unwrap(),
        Action::Done
    ));
    assert_eq!(c.state(), State::Ready);
}

#[test]
fn closing_from_ready_ends_in_closed() {
    let mut c = opened(Conf::default());
    let close = sent_frame(c.step(Event::Close).unwrap());
    assert_eq!(c.state(), State::Ready);
    assert_eq!(close.method_ids(), Some((10, 50)));
    assert_eq!(
        close.payload,
        vec![0x00, 0x0a, 0x00, 0x32, 0x00, 0xc8, 0x02, b'O', b'K', 0x00, 0x00, 0x00, 0x00]
    );
    let m: Close = close.to_method().unwrap();
    assert_eq!(m.reply_code, 200);
    assert_eq!(m.reply_text, "OK");
    assert_eq!((m.class_id, m.method_id), (0, 0));

    assert!(matches!(c.step(Event::Sent).unwrap(), Action::Recv));
    assert_eq!(c.state(), State::CloseSent);
    assert!(matches!(
        c.step(Event::Received(frame_of(&CloseOk::default()))).unwrap(),
        Action::Shutdown
    ));
    assert_eq!(c.state(), State::CloseOkRecvd);
    assert!(matches!(c.step(Event::ShutDown).unwrap(), Action::Done));
    assert_eq!(c.state(), State::Closed);
}

#[test]
fn a_start_where_close_ok_is_due_is_an_unexpected_method() {
    let mut c = opened(Conf::default());
    sent_frame(c.step(Event::Close).unwrap());
    assert!(matches!(c.step(Event::Sent).unwrap(), Action::Recv));
    match c.step(Event::Received(frame_of(&Start::default()))) {
        Err(AmqpError::UnexpectedMethod(10, 10)) => {},
        other => panic!("expected UnexpectedMethod(10, 10), got {:?}", other),
    }
    assert_eq!(c.state(), State::Failed);
}

#[test]
fn a_method_out_of_turn_fails_the_dialogue() {
    let mut c = Connection::new(Conf::default());
    c.step(Event::Open).unwrap();
    c.step(Event::Sent).unwrap();
    match c.step(Event::Received(frame_of(&Tune::default()))) {
        Err(AmqpError::UnexpectedMethod(10, 30)) => {},
        other => panic!("expected UnexpectedMethod(10, 30), got {:?}", other),
    }
    assert_eq!(c.state(), State::Failed);
    assert!(c.server_props.is_empty());
    // A failed connection takes nothing more.
    match c.step(Event::Open) {
        Err(AmqpError::ProtocolViolation(Violation::OutOfOrder)) => {},
        other => panic!("expected OutOfOrder, got {:?}", other),
    }
    assert_eq!(c.state(), State::Failed);
}

#[test]
fn an_event_that_the_state_does_not_allow_fails_the_dialogue() {
    let mut c = Connection::new(Conf::default());
    match c.step(Event::Close) {
        Err(AmqpError::ProtocolViolation(Violation::OutOfOrder)) => {},
        other => panic!("expected OutOfOrder, got {:?}", other),
    }
    assert_eq!(c.state(), State::Failed);

    let mut c = opened(Conf::default());
    match c.step(Event::Received(frame_of(&CloseOk::default()))) {
        Err(AmqpError::ProtocolViolation(Violation::OutOfOrder)) => {},
        other => panic!("expected OutOfOrder, got {:?}", other),
    }
    assert_eq!(c.state(), State::Failed);

    let mut c = Connection::new(Conf::default());
    c.step(Event::Open).unwrap();
    c.step(Event::Sent).unwrap();
    match c.step(Event::ShutDown) {
        Err(AmqpError::ProtocolViolation(Violation::OutOfOrder)) => {},
        other => panic!("expected OutOfOrder, got {:?}", other),
    }
}

#[test]
fn a_frame_that_cannot_be_read_fails_the_dialogue() {
    let mut c = Connection::new(Conf::default());
    c.step(Event::Open).unwrap();
    c.step(Event::Sent).unwrap();
    let cut = Frame { ty: 1, channel: 0, payload: vec![0, 10, 0, 10, 0] };
    match c.step(Event::Received(cut)) {
        Err(AmqpError::ProtocolViolation(Violation::Truncated(5))) => {},
        other => panic!("expected Truncated(5), got {:?}", other),
    }
    assert_eq!(c.state(), State::Failed);

    let mut c = Connection::new(Conf::default());
    c.step(Event::Open).unwrap();
    c.step(Event::Sent).unwrap();
    match c.step(Event::Received(Frame { ty: 8, channel: 0, payload: vec![] })) {
        Err(AmqpError::ProtocolViolation(Violation::Truncated(0))) => {},
        other => panic!("expected Truncated(0), got {:?}", other),
    }
}

#[test]
fn a_virtual_host_that_cannot_be_written_fails_the_dialogue() {
    let mut conf = Conf::default();
    conf.vhost = "v".repeat(256);
    let mut c = Connection::new(conf);
    c.step(Event::Open).unwrap();
    c.step(Event::Sent).unwrap();
    c.step(Event::Received(frame_of(&Start::default()))).unwrap();
    c.step(Event::Sent).unwrap();
    c.step(Event::Received(frame_of(&Tune::default()))).unwrap();
    match c.step(Event::Sent) {
        Err(AmqpError::ShortStrTooLong(256)) => {},
        other => panic!("expected ShortStrTooLong(256), got {:?}", other),
    }
    assert_eq!(c.state(), State::Failed);
}

#[test]
fn the_client_announces_its_properties() {
    let props = client_props();
    assert_eq!(props.len(), 5);
    assert_eq!(props.get("product"), Some(&FieldValue::LongString(b"rust-amqp".to_vec())));
    assert_eq!(props.get("platform"), Some(&FieldValue::LongString(b"rust".to_vec())));
    assert_eq!(props.get("version"), Some(&FieldValue::LongString(b"0.0.1".to_vec())));
    assert!(props.contains_key("information"));
    let caps = capabilities_table();
    assert_eq!(caps.len(), 6);
    for name in [
        "publisher_confirms",
        "consumer_cancel_notify",
        "exchange_exchange_bindings",
        "basic.nack",
        "connection.blocked",
        "authentication_failure_close",
    ] {
        assert_eq!(caps.get(name), Some(&FieldValue::Bool(true)));
    }
    assert_eq!(props.get("capabilities"), Some(&FieldValue::FieldTable(caps)));
    assert_ne!(props, Table::new());
}

#[test]
fn the_frames_of_the_dialogue_are_method_frames_on_channel_zero() {
    for frame in [
        make_start_ok("u", "p").unwrap(),
        make_tune_ok(1, 2, 3).unwrap(),
        make_open("/").unwrap(),
        make_close().unwrap(),
    ] {
        assert_eq!((frame.ty, frame.channel), (1, 0));
    }
    assert_eq!(
        make_tune_ok(0, 131072, 60).unwrap().payload,
        vec![0x00, 0x0a, 0x00, 0x1f, 0x00, 0x00, 0x00, 0x02, 0x00, 0x00, 0x00, 0x3c]
    );
    assert_eq!(
        make_open("/").unwrap().payload,
        vec![0x00, 0x0a, 0x00, 0x28, 0x01, b'/', 0x00, 0x00]
    );
}

#[test]
fn expect_compares_the_ids_before_it_reads() {
    let frame = frame_of(&Tune::default());
    let r: Result<Tune, AmqpError> = expect(&frame);
    assert_eq!(r.unwrap(), Tune::default());
    let r: Result<TuneOk, AmqpError> = expect(&frame);
    match r {
        Err(AmqpError::UnexpectedMethod(10, 30)) => {},
        other => panic!("expected UnexpectedMethod(10, 30), got {:?}", other),
    }
}

#[test]
fn start_and_close_are_the_first_steps_of_opening_and_closing() {
    let mut c = Connection::new(Conf::default());
    assert!(matches!(c.start().unwrap(), Action::SendHeader(_)));
    assert_eq!(c.state(), State::Init);
    let mut c = opened(Conf::default());
    let close = sent_frame(c.close().unwrap());
    assert_eq!(close.method_ids(), Some((10, 50)));
    let mut c = Connection::new(Conf::default());
    assert!(c.close().is_err());
    assert_eq!(c.state(), State::Failed);
}

#[test]
fn an_aborted_connection_has_failed() {
    let mut c = opened(Conf::default());
    c.abort();
    assert_eq!(c.state(), State::Failed);
    assert!(c.step(Event::Close).is_err());
    assert!(c.step(Event::Sent).is_err());
}
