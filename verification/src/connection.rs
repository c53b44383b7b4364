//! The client's half of opening and closing a connection, as a state
//! machine. The machine does no input or output: it is told what happened
//! (an [`Event`]) and says what to do next (an [`Action`]). Whoever drives
//! it performs each action once and hands back the event that came of it.
//!
//! ```text
//! Init -> HdrSent -> StartRecvd -> StartOkSent -> TuneRecvd
//!      -> TuneOkSent -> OpenSent -> Ready
//! Ready -> CloseSent -> CloseOkRecvd -> Closed
//! ```
//!
//! Receiving `connection.open-ok` makes the connection ready at once. Any
//! fault leaves the machine in `Failed`, from which nothing leads on.

use vstd::prelude::*;
use vstd::utf8::encode_utf8;

use crate::conf::Conf;
use crate::frame::{ids_of, Frame, FrameView};
use crate::method::{
    encode_fields, fields_wf, payload, payload_args, record, FieldView, Method,
};
use crate::protocol::connection::{Close, CloseOk, Open, OpenOk, Start, StartOk, Tune, TuneOk};
use crate::protocol::{FRAME_METHOD, PROT_HEADER};
use crate::result::{AmqpError, AmqpResult, Fault, Violation};
use crate::types::{
    bytes_of, lemma_insert_fresh, Entries, FieldValue, Longstr, Table, Value,
};
use crate::wire::put_bytes;

verus! {

/// How far the dialogue has come.
#[derive(Debug, Clone, Copy, PartialEq, Eq, Structural)]
pub enum State {
    Init,
    HdrSent,
    StartRecvd,
    StartOkSent,
    TuneRecvd,
    TuneOkSent,
    OpenSent,
    Ready,
    CloseSent,
    CloseOkRecvd,
    Closed,
    Failed,
}

/// What the driver reports to the machine.
#[derive(Debug)]
pub enum Event {
    /// The connection is to be opened.
    Open,
    /// What was to be sent has been sent.
    Sent,
    /// A frame has arrived.
    Received(Frame),
    /// The connection is to be closed.
    Close,
    /// The byte stream has been shut down.
    ShutDown,
}

/// What an [`Event`] denotes.
pub enum EventView {
    Open,
    Sent,
    Received(FrameView),
    Close,
    ShutDown,
}

impl View for Event {
    type V = EventView;

    open spec fn view(&self) -> EventView {
        match self {
            Event::Open => EventView::Open,
            Event::Sent => EventView::Sent,
            Event::Received(f) => EventView::Received(f@),
            Event::Close => EventView::Close,
            Event::ShutDown => EventView::ShutDown,
        }
    }
}

/// What the driver is to do next.
#[derive(Debug)]
pub enum Action {
    /// Send these octets, the protocol header, and report `Sent`.
    SendHeader([u8; 8]),
    /// Send this frame and report `Sent`.
    Send(Frame),
    /// Receive a frame and report it.
    Recv,
    /// Shut the byte stream down in both directions and report `ShutDown`.
    Shutdown,
    /// Nothing: what was asked for is done.
    Done,
}

/// What an [`Action`] denotes.
pub enum ActionView {
    SendHeader(Seq<u8>),
    Send(FrameView),
    Recv,
    Shutdown,
    Done,
}

impl View for Action {
    type V = ActionView;

    open spec fn view(&self) -> ActionView {
        match self {
            Action::SendHeader(b) => ActionView::SendHeader(b@),
            Action::Send(f) => ActionView::Send(f@),
            Action::Recv => ActionView::Recv,
            Action::Shutdown => ActionView::Shutdown,
            Action::Done => ActionView::Done,
        }
    }
}

/// The client's side of one connection.
#[derive(Debug)]
pub struct Connection {
    conf: Conf,
    state: State,
    /// What the server said of itself in `connection.start`.
    pub server_props: Table,
    /// The security mechanisms that the server offered.
    pub mechanisms: Longstr,
    /// The locales that the server offered.
    pub locales: Longstr,
    /// The limits that the server proposed in `connection.tune`.
    pub channel_max: u16,
    pub frame_max: u32,
    pub heartbeat: u16,
}

/// What a [`Connection`] denotes.
pub struct ConnectionView {
    pub state: State,
    pub host: Seq<char>,
    pub port: u16,
    pub user: Seq<char>,
    pub password: Seq<char>,
    pub vhost: Seq<char>,
    pub server_props: Entries,
    pub mechanisms: Seq<u8>,
    pub locales: Seq<u8>,
    pub channel_max: u16,
    pub frame_max: u32,
    pub heartbeat: u16,
}

impl View for Connection {
    type V = ConnectionView;

    closed spec fn view(&self) -> ConnectionView {
        ConnectionView {
            state: self.state,
            host: self.conf.host@,
            port: self.conf.port,
            user: self.conf.user@,
            password: self.conf.password@,
            vhost: self.conf.vhost@,
            server_props: self.server_props@,
            mechanisms: self.mechanisms@,
            locales: self.locales@,
            channel_max: self.channel_max,
            frame_max: self.frame_max,
            heartbeat: self.heartbeat,
        }
    }
}

/// What the client supports beyond the protocol.
pub open spec fn capabilities() -> Entries {
    seq![
        ("publisher_confirms"@, Value::Bool(true)),
        ("exchange_exchange_bindings"@, Value::Bool(true)),
        ("basic.nack"@, Value::Bool(true)),
        ("consumer_cancel_notify"@, Value::Bool(true)),
        ("connection.blocked"@, Value::Bool(true)),
        ("authentication_failure_close"@, Value::Bool(true)),
    ]
}

/// What the client says of itself in `connection.start-ok`.
pub open spec fn client_properties() -> Entries {
    seq![
        ("product"@, Value::LongString(encode_utf8("rust-amqp"@))),
        ("platform"@, Value::LongString(encode_utf8("rust"@))),
        ("version"@, Value::LongString(encode_utf8("0.0.1"@))),
        ("information"@, Value::LongString(encode_utf8("AMQP 0-9-1 client"@))),
        ("capabilities"@, Value::FieldTable(capabilities())),
    ]
}

/// The response of the mechanism PLAIN: a zero octet, the user, a zero
/// octet, the password.
pub open spec fn plain_response(user: Seq<char>, password: Seq<char>) -> Seq<u8> {
    seq![0u8] + encode_utf8(user) + seq![0u8] + encode_utf8(password)
}

/// A method frame on channel 0 for the method of the ids `class_id` and
/// `method_id` with the fields `args`.
pub open spec fn control_frame(class_id: u16, method_id: u16, args: Seq<FieldView>) -> Result<
    FrameView,
    Fault,
> {
    match encode_fields(seq![FieldView::Short(class_id), FieldView::Short(method_id)] + args) {
        Ok(bytes) => Ok(FrameView { ty: FRAME_METHOD, channel: 0, payload: bytes }),
        Err(fault) => Err(fault),
    }
}

/// The frame of `connection.start-ok`: the client's properties, the
/// mechanism PLAIN with its response, the locale `en_US`.
pub open spec fn start_ok_frame(user: Seq<char>, password: Seq<char>) -> Result<FrameView, Fault> {
    control_frame(
        10,
        11,
        seq![
            FieldView::Table(client_properties()),
            FieldView::Shortstr("PLAIN"@),
            FieldView::Longstr(plain_response(user, password)),
            FieldView::Shortstr("en_US"@),
        ],
    )
}

/// The frame of `connection.tune-ok`, which accepts the server's limits.
pub open spec fn tune_ok_frame(channel_max: u16, frame_max: u32, heartbeat: u16) -> Result<
    FrameView,
    Fault,
> {
    control_frame(
        10,
        31,
        seq![
            FieldView::Short(channel_max),
            FieldView::Long(frame_max),
            FieldView::Short(heartbeat),
        ],
    )
}

/// The frame of `connection.open` for the virtual host `vhost`.
pub open spec fn open_frame(vhost: Seq<char>) -> Result<FrameView, Fault> {
    control_frame(
        10,
        40,
        seq![
            FieldView::Shortstr(vhost),
            FieldView::Shortstr(Seq::empty()),
            FieldView::Bit(false),
        ],
    )
}

/// The frame of `connection.close` with the reply code 200 and the text `OK`.
pub open spec fn close_frame() -> Result<FrameView, Fault> {
    control_frame(
        10,
        50,
        seq![
            FieldView::Short(200),
            FieldView::Shortstr("OK"@),
            FieldView::Short(0),
            FieldView::Short(0),
        ],
    )
}

/// The fields of the method `M` in a payload that was received where `M`
/// is expected: a payload that starts with other ids is an unexpected method.
pub open spec fn expected<M: Method>(s: Seq<u8>) -> Result<Seq<FieldView>, Fault> {
    match ids_of(s) {
        Some((class_id, method_id)) => if class_id == M::spec_class_id() && method_id
            == M::spec_method_id() {
            payload_args::<M>(s)
        } else {
            Err(Fault::UnexpectedMethod(class_id, method_id))
        },
        None => payload_args::<M>(s),
    }
}

/// The fault of an event that the state of the connection does not allow.
pub open spec fn out_of_order() -> Fault {
    Fault::Violation(Violation::OutOfOrder)
}

/// `c` in the state `state`.
pub open spec fn in_state(c: ConnectionView, state: State) -> ConnectionView {
    ConnectionView { state, ..c }
}

/// `c` with the new state, and the action `Send` for `frame`; or the fault
/// that kept the frame from being made.
pub open spec fn sending(c: ConnectionView, frame: Result<FrameView, Fault>) -> Result<
    (ConnectionView, ActionView),
    Fault,
> {
    match frame {
        Ok(f) => Ok((c, ActionView::Send(f))),
        Err(fault) => Err(fault),
    }
}

/// The machine: the connection and the action after `event` came to the
/// connection `c`.
pub open spec fn transition(c: ConnectionView, event: EventView) -> Result<
    (ConnectionView, ActionView),
    Fault,
> {
    match (c.state, event) {
        (State::Init, EventView::Open) => Ok((c, ActionView::SendHeader(PROT_HEADER@))),
        (State::Init, EventView::Sent) => Ok((in_state(c, State::HdrSent), ActionView::Recv)),
        (State::HdrSent, EventView::Received(f)) => match expected::<Start>(f.payload) {
            Ok(args) => sending(
                ConnectionView {
                    state: State::StartRecvd,
                    server_props: args[2]->Table_0,
                    mechanisms: args[3]->Longstr_0,
                    locales: args[4]->Longstr_0,
                    ..c
                },
                start_ok_frame(c.user, c.password),
            ),
            Err(fault) => Err(fault),
        },
        (State::StartRecvd, EventView::Sent) => Ok(
            (in_state(c, State::StartOkSent), ActionView::Recv),
        ),
        (State::StartOkSent, EventView::Received(f)) => match expected::<Tune>(f.payload) {
            Ok(args) => sending(
                ConnectionView {
                    state: State::TuneRecvd,
                    channel_max: args[0]->Short_0,
                    frame_max: args[1]->Long_0,
                    heartbeat: args[2]->Short_0,
                    ..c
                },
                tune_ok_frame(args[0]->Short_0, args[1]->Long_0, args[2]->Short_0),
            ),
            Err(fault) => Err(fault),
        },
        (State::TuneRecvd, EventView::Sent) => sending(
            in_state(c, State::TuneOkSent),
            open_frame(c.vhost),
        ),
        (State::TuneOkSent, EventView::Sent) => Ok(
            (in_state(c, State::OpenSent), ActionView::Recv),
        ),
        (State::OpenSent, EventView::Received(f)) => match expected::<OpenOk>(f.payload) {
            Ok(_) => Ok((in_state(c, State::Ready), ActionView::Done)),
            Err(fault) => Err(fault),
        },
        (State::Ready, EventView::Close) => sending(c, close_frame()),
        (State::Ready, EventView::Sent) => Ok((in_state(c, State::CloseSent), ActionView::Recv)),
        (State::CloseSent, EventView::Received(f)) => match expected::<CloseOk>(f.payload) {
            Ok(_) => Ok((in_state(c, State::CloseOkRecvd), ActionView::Shutdown)),
            Err(fault) => Err(fault),
        },
        (State::CloseOkRecvd, EventView::ShutDown) => Ok(
            (in_state(c, State::Closed), ActionView::Done),
        ),
        _ => Err(out_of_order()),
    }
}

/// The response of the mechanism PLAIN for `user` and `password`.
pub fn start_ok_response(user: &str, password: &str) -> (r: Vec<u8>)
    ensures
        r@ == plain_response(user@, password@),
{
    let mut r: Vec<u8> = Vec::new();
    r.push(0);
    put_bytes(&mut r, user.as_bytes());
    r.push(0);
    put_bytes(&mut r, password.as_bytes());
    assert(r@ =~= plain_response(user@, password@));
    r
}

/// The capabilities that the client announces.
pub fn capabilities_table() -> (t: Table)
    ensures
        t@ == capabilities(),
        t.wf(),
{
    let mut t = Table::new();
    proof {
        reveal_strlit("publisher_confirms");
        reveal_strlit("exchange_exchange_bindings");
        reveal_strlit("basic.nack");
        reveal_strlit("consumer_cancel_notify");
        reveal_strlit("connection.blocked");
        reveal_strlit("authentication_failure_close");
        assert("publisher_confirms"@.len() != "exchange_exchange_bindings"@.len());
        assert("publisher_confirms"@.len() != "basic.nack"@.len());
        assert("exchange_exchange_bindings"@.len() != "basic.nack"@.len());
        assert("publisher_confirms"@.len() != "consumer_cancel_notify"@.len());
        assert("exchange_exchange_bindings"@.len() != "consumer_cancel_notify"@.len());
        assert("basic.nack"@.len() != "consumer_cancel_notify"@.len());
        assert("publisher_confirms"@[0] != "connection.blocked"@[0]);
        assert("exchange_exchange_bindings"@.len() != "connection.blocked"@.len());
        assert("basic.nack"@.len() != "connection.blocked"@.len());
        assert("consumer_cancel_notify"@.len() != "connection.blocked"@.len());
        assert("publisher_confirms"@.len() != "authentication_failure_close"@.len());
        assert("exchange_exchange_bindings"@.len() != "authentication_failure_close"@.len());
        assert("basic.nack"@.len() != "authentication_failure_close"@.len());
        assert("consumer_cancel_notify"@.len() != "authentication_failure_close"@.len());
        assert("connection.blocked"@.len() != "authentication_failure_close"@.len());
    }
    proof {
        lemma_insert_fresh(t@, "publisher_confirms"@, Value::Bool(true));
    }
    t.insert("publisher_confirms".to_owned(), FieldValue::Bool(true));
    assert(t@ =~= capabilities().take(1));
    proof {
        lemma_insert_fresh(t@, "exchange_exchange_bindings"@, Value::Bool(true));
    }
    t.insert("exchange_exchange_bindings".to_owned(), FieldValue::Bool(true));
    assert(t@ =~= capabilities().take(2));
    proof {
        lemma_insert_fresh(t@, "basic.nack"@, Value::Bool(true));
    }
    t.insert("basic.nack".to_owned(), FieldValue::Bool(true));
    assert(t@ =~= capabilities().take(3));
    proof {
        lemma_insert_fresh(t@, "consumer_cancel_notify"@, Value::Bool(true));
    }
    t.insert("consumer_cancel_notify".to_owned(), FieldValue::Bool(true));
    assert(t@ =~= capabilities().take(4));
    proof {
        lemma_insert_fresh(t@, "connection.blocked"@, Value::Bool(true));
    }
    t.insert("connection.blocked".to_owned(), FieldValue::Bool(true));
    assert(t@ =~= capabilities().take(5));
    proof {
        lemma_insert_fresh(t@, "authentication_failure_close"@, Value::Bool(true));
    }
    t.insert("authentication_failure_close".to_owned(), FieldValue::Bool(true));
    assert(t@ =~= capabilities());
    t
}

/// The properties that the client announces.
pub fn client_props() -> (t: Table)
    ensures
        t@ == client_properties(),
        t.wf(),
{
    let mut t = Table::new();
    proof {
        reveal_strlit("product");
        reveal_strlit("platform");
        reveal_strlit("version");
        reveal_strlit("information");
        reveal_strlit("capabilities");
        assert("product"@.len() != "platform"@.len());
        assert("product"@[0] != "version"@[0]);
        assert("platform"@.len() != "version"@.len());
        assert("product"@.len() != "information"@.len());
        assert("platform"@.len() != "information"@.len());
        assert("version"@.len() != "information"@.len());
        assert("product"@.len() != "capabilities"@.len());
        assert("platform"@.len() != "capabilities"@.len());
        assert("version"@.len() != "capabilities"@.len());
        assert("information"@.len() != "capabilities"@.len());
    }
    proof {
        lemma_insert_fresh(t@, "product"@, Value::LongString(encode_utf8("rust-amqp"@)));
    }
    t.insert("product".to_owned(), FieldValue::LongString(bytes_of("rust-amqp")));
    assert(t@ =~= client_properties().take(1));
    proof {
        lemma_insert_fresh(t@, "platform"@, Value::LongString(encode_utf8("rust"@)));
    }
    t.insert("platform".to_owned(), FieldValue::LongString(bytes_of("rust")));
    assert(t@ =~= client_properties().take(2));
    proof {
        lemma_insert_fresh(t@, "version"@, Value::LongString(encode_utf8("0.0.1"@)));
    }
    t.insert("version".to_owned(), FieldValue::LongString(bytes_of("0.0.1")));
    assert(t@ =~= client_properties().take(3));
    proof {
        lemma_insert_fresh(t@, "information"@, Value::LongString(encode_utf8("AMQP 0-9-1 client"@)));
    }
    t.insert("information".to_owned(), FieldValue::LongString(bytes_of("AMQP 0-9-1 client")));
    assert(t@ =~= client_properties().take(4));
    proof {
        lemma_insert_fresh(t@, "capabilities"@, Value::FieldTable(capabilities()));
    }
    let caps = capabilities_table();
    t.insert("capabilities".to_owned(), FieldValue::FieldTable(caps));
    assert(t@ =~= client_properties());
    t
}

/// Makes the frame of `connection.start-ok` for `user` and `password`.
pub fn make_start_ok(user: &str, password: &str) -> (r: AmqpResult<Frame>)
    ensures
        match start_ok_frame(user@, password@) {
            Ok(frame) => r is Ok && r->Ok_0@ == frame,
            Err(fault) => r is Err && r->Err_0@ == fault,
        },
{
    let mut start_ok = StartOk::default();
    start_ok.client_properties = client_props();
    start_ok.mechanism = "PLAIN".to_owned();
    start_ok.response = start_ok_response(user, password);
    start_ok.locale = "en_US".to_owned();
    assert(record(&start_ok) =~= seq![FieldView::Short(10), FieldView::Short(11)] + seq![
        FieldView::Table(client_properties()),
        FieldView::Shortstr("PLAIN"@),
        FieldView::Longstr(plain_response(user@, password@)),
        FieldView::Shortstr("en_US"@),
    ]);
    Frame::from_method(0, &start_ok)
}

/// Makes the frame of `connection.tune-ok` that accepts these limits.
pub fn make_tune_ok(channel_max: u16, frame_max: u32, heartbeat: u16) -> (r: AmqpResult<Frame>)
    ensures
        match tune_ok_frame(channel_max, frame_max, heartbeat) {
            Ok(frame) => r is Ok && r->Ok_0@ == frame,
            Err(fault) => r is Err && r->Err_0@ == fault,
        },
{
    let mut tune_ok = TuneOk::default();
    tune_ok.channel_max = channel_max;
    tune_ok.frame_max = frame_max;
    tune_ok.heartbeat = heartbeat;
    assert(record(&tune_ok) =~= seq![FieldView::Short(10), FieldView::Short(31)] + seq![
        FieldView::Short(channel_max),
        FieldView::Long(frame_max),
        FieldView::Short(heartbeat),
    ]);
    Frame::from_method(0, &tune_ok)
}

/// Makes the frame of `connection.open` for the virtual host `vhost`.
pub fn make_open(vhost: &str) -> (r: AmqpResult<Frame>)
    ensures
        match open_frame(vhost@) {
            Ok(frame) => r is Ok && r->Ok_0@ == frame,
            Err(fault) => r is Err && r->Err_0@ == fault,
        },
{
    let mut open = Open::default();
    open.virtual_host = vhost.to_owned();
    assert(record(&open) =~= seq![FieldView::Short(10), FieldView::Short(40)] + seq![
        FieldView::Shortstr(vhost@),
        FieldView::Shortstr(Seq::empty()),
        FieldView::Bit(false),
    ]);
    Frame::from_method(0, &open)
}

/// Makes the frame of `connection.close` for an orderly close.
pub fn make_close() -> (r: AmqpResult<Frame>)
    ensures
        match close_frame() {
            Ok(frame) => r is Ok && r->Ok_0@ == frame,
            Err(fault) => r is Err && r->Err_0@ == fault,
        },
{
    let mut close = Close::default();
    close.reply_code = 200;
    close.reply_text = "OK".to_owned();
    assert(record(&close) =~= seq![FieldView::Short(10), FieldView::Short(50)] + seq![
        FieldView::Short(200),
        FieldView::Shortstr("OK"@),
        FieldView::Short(0),
        FieldView::Short(0),
    ]);
    Frame::from_method(0, &close)
}

/// Reads `frame` as the method `M` that is expected now: a frame that
/// starts with the ids of another method is refused as unexpected.
pub fn expect<M: Method>(frame: &Frame) -> (r: AmqpResult<M>)
    ensures
        match expected::<M>(frame.payload@) {
            Ok(args) => r is Ok && r->Ok_0.spec_args() == args && fields_wf(args),
            Err(fault) => r is Err && r->Err_0@ == fault,
        },
{
    match frame.method_ids() {
        Some((class_id, method_id)) => {
            if class_id != M::class_id() || method_id != M::method_id() {
                return Err(AmqpError::UnexpectedMethod(class_id, method_id));
            }
        },
        None => {},
    }
    frame.to_method()
}

impl Connection {
    /// A connection that is yet to be opened.
    pub fn new(conf: Conf) -> (c: Connection)
        ensures
            c@ == (ConnectionView {
                state: State::Init,
                host: conf.host@,
                port: conf.port,
                user: conf.user@,
                password: conf.password@,
                vhost: conf.vhost@,
                server_props: Entries::empty(),
                mechanisms: Seq::<u8>::empty(),
                locales: Seq::<u8>::empty(),
                channel_max: 0,
                frame_max: 0,
                heartbeat: 0,
            }),
    {
        Connection {
            conf,
            state: State::Init,
            server_props: Table::new(),
            mechanisms: Vec::new(),
            locales: Vec::new(),
            channel_max: 0,
            frame_max: 0,
            heartbeat: 0,
        }
    }

    /// How far the dialogue has come.
    pub fn state(&self) -> (s: State)
        ensures
            s == self@.state,
    {
        self.state
    }

    /// What the connection was configured with.
    pub fn conf(&self) -> (c: &Conf)
        ensures
            c.host@ == self@.host,
            c.port == self@.port,
            c.user@ == self@.user,
            c.password@ == self@.password,
            c.vhost@ == self@.vhost,
    {
        &self.conf
    }

    /// Begins to open the connection: [`Connection::step`] with `Event::Open`.
    pub fn start(&mut self) -> (r: AmqpResult<Action>)
        ensures
            match transition(old(self)@, EventView::Open) {
                Ok((c, action)) => r is Ok && final(self)@ == c && r->Ok_0@ == action,
                Err(fault) => r is Err && r->Err_0@ == fault && final(self)@ == in_state(
                    old(self)@,
                    State::Failed,
                ),
            },
    {
        self.step(Event::Open)
    }

    /// Begins to close the connection: [`Connection::step`] with `Event::Close`.
    pub fn close(&mut self) -> (r: AmqpResult<Action>)
        ensures
            match transition(old(self)@, EventView::Close) {
                Ok((c, action)) => r is Ok && final(self)@ == c && r->Ok_0@ == action,
                Err(fault) => r is Err && r->Err_0@ == fault && final(self)@ == in_state(
                    old(self)@,
                    State::Failed,
                ),
            },
    {
        self.step(Event::Close)
    }

    /// Gives the connection up, as after a failure of the byte stream: it
    /// keeps what it knew and is in the state `Failed`.
    pub fn abort(&mut self)
        ensures
            final(self)@ == in_state(old(self)@, State::Failed),
    {
        self.state = State::Failed;
    }

    /// Takes `event` in: the connection moves on as [`transition`] says and
    /// gives the action to perform next. Where `transition` gives a fault,
    /// the connection fails: it keeps what it knew and is in the state
    /// `Failed`.
    pub fn step(&mut self, event: Event) -> (r: AmqpResult<Action>)
        ensures
            match transition(old(self)@, event@) {
                Ok((c, action)) => r is Ok && final(self)@ == c && r->Ok_0@ == action,
                Err(fault) => r is Err && r->Err_0@ == fault && final(self)@ == in_state(
                    old(self)@,
                    State::Failed,
                ),
            },
    {
        let r = self.advance(event);
        if r.is_err() {
            self.state = State::Failed;
        }
        r
    }

    /// As [`Connection::step`], but a fault leaves the connection as it was.
    #[verifier::rlimit(40)]
    fn advance(&mut self, event: Event) -> (r: AmqpResult<Action>)
        ensures
            match transition(old(self)@, event@) {
                Ok((c, action)) => r is Ok && final(self)@ == c && r->Ok_0@ == action,
                Err(fault) => r is Err && r->Err_0@ == fault && final(self)@ == old(self)@,
            },
    {
        match (self.state, event) {
            (State::Init, Event::Open) => Ok(Action::SendHeader(PROT_HEADER)),
            (State::Init, Event::Sent) => {
                self.state = State::HdrSent;
                Ok(Action::Recv)
            },
            (State::HdrSent, Event::Received(frame)) => {
                let start: Start = expect(&frame)?;
                let reply = make_start_ok(self.conf.user.as_str(), self.conf.password.as_str())?;
                self.server_props = start.server_properties;
                self.mechanisms = start.mechanisms;
                self.locales = start.locales;
                self.state = State::StartRecvd;
                Ok(Action::Send(reply))
            },
            (State::StartRecvd, Event::Sent) => {
                self.state = State::StartOkSent;
                Ok(Action::Recv)
            },
            (State::StartOkSent, Event::Received(frame)) => {
                let tune: Tune = expect(&frame)?;
                let reply = make_tune_ok(tune.channel_max, tune.frame_max, tune.heartbeat)?;
                self.channel_max = tune.channel_max;
                self.frame_max = tune.frame_max;
                self.heartbeat = tune.heartbeat;
                self.state = State::TuneRecvd;
                Ok(Action::Send(reply))
            },
            (State::TuneRecvd, Event::Sent) => {
                let open = make_open(self.conf.vhost.as_str())?;
                self.state = State::TuneOkSent;
                Ok(Action::Send(open))
            },
            (State::TuneOkSent, Event::Sent) => {
                self.state = State::OpenSent;
                Ok(Action::Recv)
            },
            (State::OpenSent, Event::Received(frame)) => {
                let _open_ok: OpenOk = expect(&frame)?;
                self.state = State::Ready;
                Ok(Action::Done)
            },
            (State::Ready, Event::Close) => {
                let close = make_close()?;
                Ok(Action::Send(close))
            },
            (State::Ready, Event::Sent) => {
                self.state = State::CloseSent;
                Ok(Action::Recv)
            },
            (State::CloseSent, Event::Received(frame)) => {
                let _close_ok: CloseOk = expect(&frame)?;
                self.state = State::CloseOkRecvd;
                Ok(Action::Shutdown)
            },
            (State::CloseOkRecvd, Event::ShutDown) => {
                self.state = State::Closed;
                Ok(Action::Done)
            },
            _ => Err(AmqpError::ProtocolViolation(Violation::OutOfOrder)),
        }
    }
}

/// Before the protocol header has gone out, no frame is asked to be sent:
/// a connection that is yet to be opened asks for the header to be sent, or,
/// told that it was sent, for a frame to be received; every other event is
/// out of order.
pub proof fn lemma_header_first(c: ConnectionView, event: EventView)
    requires
        c.state == State::Init,
    ensures
        event is Open ==> transition(c, event) == Ok::<(ConnectionView, ActionView), Fault>(
            (c, ActionView::SendHeader(PROT_HEADER@)),
        ),
        event is Sent ==> transition(c, event) == Ok::<(ConnectionView, ActionView), Fault>(
            (in_state(c, State::HdrSent), ActionView::Recv),
        ),
        !(event is Open || event is Sent) ==> transition(c, event) == Err::<
            (ConnectionView, ActionView),
            Fault,
        >(out_of_order()),
{
}

/// Nothing leads on from a connection that is closed or has failed.
pub proof fn lemma_final_states(c: ConnectionView, event: EventView)
    requires
        c.state == State::Closed || c.state == State::Failed,
    ensures
        transition(c, event) == Err::<(ConnectionView, ActionView), Fault>(out_of_order()),
{
}

/// A step changes nothing but the state and what the server said: the
/// host, the port, the user, the password and the virtual host stay as
/// configured.
pub proof fn lemma_conf_kept(c: ConnectionView, event: EventView)
    requires
        transition(c, event) is Ok,
    ensures
        transition(c, event)->Ok_0.0.host == c.host,
        transition(c, event)->Ok_0.0.port == c.port,
        transition(c, event)->Ok_0.0.user == c.user,
        transition(c, event)->Ok_0.0.password == c.password,
        transition(c, event)->Ok_0.0.vhost == c.vhost,
{
}

} // verus!
