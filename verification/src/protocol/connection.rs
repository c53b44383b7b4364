//! The methods of the class `connection`.

use vstd::prelude::*;
use vstd::std_specs::cmp::PartialEqSpecImpl;
use vstd::utf8::encode_utf8;

use crate::method::{
    args_equiv, field_equiv, fields_view, kinds_of, take_bit, take_long, take_longstr, take_octet,
    take_short, take_shortstr, take_table, Field, FieldView, Kind, Method,
};
use crate::types::{
    bytes_eq, bytes_of, copy_bytes, str_eq, table_eq, Bit, Entries, Long, Longstr, Octet, Short,
    Shortstr, StrType, Table,
};

verus! {

/// The method `connection.start`.
#[derive(Debug)]
pub struct Start {
    pub version_major: Octet,
    pub version_minor: Octet,
    pub server_properties: Table,
    pub mechanisms: Longstr,
    pub locales: Longstr,
}

impl Method for Start {
    open spec fn spec_class_id() -> u16 {
        10
    }

    open spec fn spec_method_id() -> u16 {
        10
    }

    open spec fn spec_kinds() -> Seq<Kind> {
        seq![Kind::Octet, Kind::Octet, Kind::Table, Kind::Longstr, Kind::Longstr]
    }

    open spec fn spec_names() -> Seq<Seq<char>> {
        seq![
            "version_major"@,
            "version_minor"@,
            "server_properties"@,
            "mechanisms"@,
            "locales"@,
        ]
    }

    open spec fn spec_args(&self) -> Seq<FieldView> {
        seq![
            FieldView::Octet(self.version_major),
            FieldView::Octet(self.version_minor),
            FieldView::Table(self.server_properties@),
            FieldView::Longstr(self.mechanisms@),
            FieldView::Longstr(self.locales@),
        ]
    }

    open spec fn spec_str_type(param: Seq<char>) -> Option<StrType> {
        if param == "mechanisms"@ {
            Some(StrType::Long)
        } else if param == "locales"@ {
            Some(StrType::Long)
        } else {
            None
        }
    }

    proof fn lemma_kinds(&self) {
        assert(kinds_of(self.spec_args()) =~= Self::spec_kinds());
    }

    proof fn lemma_str_types() {
        reveal_strlit("version_major");
        reveal_strlit("version_minor");
        reveal_strlit("server_properties");
        reveal_strlit("mechanisms");
        reveal_strlit("locales");
        assert("version_major"@.len() != "mechanisms"@.len());
        assert("version_major"@.len() != "locales"@.len());
        assert("version_minor"@.len() != "mechanisms"@.len());
        assert("version_minor"@.len() != "locales"@.len());
        assert("server_properties"@.len() != "mechanisms"@.len());
        assert("server_properties"@.len() != "locales"@.len());
        assert("mechanisms"@.len() != "locales"@.len());
    }

    fn class_id() -> (r: u16) {
        10
    }

    fn method_id() -> (r: u16) {
        10
    }

    fn str_type(param: &str) -> (r: Option<StrType>) {
        if str_eq(param, "mechanisms") {
            Some(StrType::Long)
        } else if str_eq(param, "locales") {
            Some(StrType::Long)
        } else {
            None
        }
    }

    fn kinds() -> (r: Vec<Kind>) {
        let mut r: Vec<Kind> = Vec::new();
        r.push(Kind::Octet);
        r.push(Kind::Octet);
        r.push(Kind::Table);
        r.push(Kind::Longstr);
        r.push(Kind::Longstr);
        assert(r@ =~= Self::spec_kinds());
        r
    }

    fn args(&self) -> (r: Vec<Field>) {
        let mut r: Vec<Field> = Vec::new();
        r.push(Field::Octet(self.version_major));
        r.push(Field::Octet(self.version_minor));
        r.push(Field::Table(self.server_properties.clone()));
        r.push(Field::Longstr(copy_bytes(&self.mechanisms)));
        r.push(Field::Longstr(copy_bytes(&self.locales)));
        assert(fields_view(r@) =~= self.spec_args());
        r
    }

    fn from_args(args: Vec<Field>) -> (r: Self) {
        let mut args = args;
        let ghost all = fields_view(args@);
        assert(kinds_of(all).len() == 5);
        assert(kinds_of(all)[0] == Kind::Octet);
        assert(kinds_of(all)[1] == Kind::Octet);
        assert(kinds_of(all)[2] == Kind::Table);
        assert(kinds_of(all)[3] == Kind::Longstr);
        assert(kinds_of(all)[4] == Kind::Longstr);
        let locales = take_longstr(&mut args);
        let mechanisms = take_longstr(&mut args);
        let server_properties = take_table(&mut args);
        let version_minor = take_octet(&mut args);
        let version_major = take_octet(&mut args);
        let r = Start { version_major, version_minor, server_properties, mechanisms, locales };
        assert(r.spec_args() =~= all);
        r
    }
}

impl Default for Start {
    fn default() -> (r: Start)
        ensures
            r.version_major == 0,
            r.version_minor == 9,
            r.server_properties@ == Entries::empty(),
            r.mechanisms@ == encode_utf8("PLAIN"@),
            r.locales@ == encode_utf8("en_US"@),
    {
        Start {
            version_major: 0,
            version_minor: 9,
            server_properties: Table::new(),
            mechanisms: bytes_of("PLAIN"),
            locales: bytes_of("en_US"),
        }
    }
}

impl PartialEq for Start {
    fn eq(&self, other: &Start) -> (r: bool) {
        let ghost x = self.spec_args();
        let ghost y = other.spec_args();
        let e0 = self.version_major == other.version_major;
        assert(e0 == field_equiv(x[0], y[0]));
        let e1 = self.version_minor == other.version_minor;
        assert(e1 == field_equiv(x[1], y[1]));
        let e2 = table_eq(&self.server_properties, &other.server_properties);
        assert(e2 == field_equiv(x[2], y[2]));
        let e3 = bytes_eq(self.mechanisms.as_slice(), other.mechanisms.as_slice());
        assert(e3 == field_equiv(x[3], y[3]));
        let e4 = bytes_eq(self.locales.as_slice(), other.locales.as_slice());
        assert(e4 == field_equiv(x[4], y[4]));
        e0 && e1 && e2 && e3 && e4
    }
}

impl PartialEqSpecImpl for Start {
    open spec fn obeys_eq_spec() -> bool {
        true
    }

    open spec fn eq_spec(&self, other: &Start) -> bool {
        args_equiv(self.spec_args(), other.spec_args())
    }
}

/// The method `connection.start-ok`.
#[derive(Debug)]
pub struct StartOk {
    pub client_properties: Table,
    pub mechanism: Shortstr,
    pub response: Longstr,
    pub locale: Shortstr,
}

impl Method for StartOk {
    open spec fn spec_class_id() -> u16 {
        10
    }

    open spec fn spec_method_id() -> u16 {
        11
    }

    open spec fn spec_kinds() -> Seq<Kind> {
        seq![Kind::Table, Kind::Shortstr, Kind::Longstr, Kind::Shortstr]
    }

    open spec fn spec_names() -> Seq<Seq<char>> {
        seq!["client_properties"@, "mechanism"@, "response"@, "locale"@]
    }

    open spec fn spec_args(&self) -> Seq<FieldView> {
        seq![
            FieldView::Table(self.client_properties@),
            FieldView::Shortstr(self.mechanism@),
            FieldView::Longstr(self.response@),
            FieldView::Shortstr(self.locale@),
        ]
    }

    open spec fn spec_str_type(param: Seq<char>) -> Option<StrType> {
        if param == "mechanism"@ {
            Some(StrType::Short)
        } else if param == "response"@ {
            Some(StrType::Long)
        } else if param == "locale"@ {
            Some(StrType::Short)
        } else {
            None
        }
    }

    proof fn lemma_kinds(&self) {
        assert(kinds_of(self.spec_args()) =~= Self::spec_kinds());
    }

    proof fn lemma_str_types() {
        reveal_strlit("client_properties");
        reveal_strlit("mechanism");
        reveal_strlit("response");
        reveal_strlit("locale");
        assert("client_properties"@.len() != "mechanism"@.len());
        assert("client_properties"@.len() != "response"@.len());
        assert("client_properties"@.len() != "locale"@.len());
        assert("mechanism"@.len() != "response"@.len());
        assert("mechanism"@.len() != "locale"@.len());
        assert("response"@.len() != "locale"@.len());
    }

    fn class_id() -> (r: u16) {
        10
    }

    fn method_id() -> (r: u16) {
        11
    }

    fn str_type(param: &str) -> (r: Option<StrType>) {
        if str_eq(param, "mechanism") {
            Some(StrType::Short)
        } else if str_eq(param, "response") {
            Some(StrType::Long)
        } else if str_eq(param, "locale") {
            Some(StrType::Short)
        } else {
            None
        }
    }

    fn kinds() -> (r: Vec<Kind>) {
        let mut r: Vec<Kind> = Vec::new();
        r.push(Kind::Table);
        r.push(Kind::Shortstr);
        r.push(Kind::Longstr);
        r.push(Kind::Shortstr);
        assert(r@ =~= Self::spec_kinds());
        r
    }

    fn args(&self) -> (r: Vec<Field>) {
        let mut r: Vec<Field> = Vec::new();
        r.push(Field::Table(self.client_properties.clone()));
        r.push(Field::Shortstr(self.mechanism.clone()));
        r.push(Field::Longstr(copy_bytes(&self.response)));
        r.push(Field::Shortstr(self.locale.clone()));
        assert(fields_view(r@) =~= self.spec_args());
        r
    }

    fn from_args(args: Vec<Field>) -> (r: Self) {
        let mut args = args;
        let ghost all = fields_view(args@);
        assert(kinds_of(all).len() == 4);
        assert(kinds_of(all)[0] == Kind::Table);
        assert(kinds_of(all)[1] == Kind::Shortstr);
        assert(kinds_of(all)[2] == Kind::Longstr);
        assert(kinds_of(all)[3] == Kind::Shortstr);
        let locale = take_shortstr(&mut args);
        let response = take_longstr(&mut args);
        let mechanism = take_shortstr(&mut args);
        let client_properties = take_table(&mut args);
        let r = StartOk { client_properties, mechanism, response, locale };
        assert(r.spec_args() =~= all);
        r
    }
}

impl Default for StartOk {
    fn default() -> (r: StartOk)
        ensures
            r.client_properties@ == Entries::empty(),
            r.mechanism@ == "PLAIN"@,
            r.response@ == Seq::<u8>::empty(),
            r.locale@ == "en_US"@,
    {
        StartOk {
            client_properties: Table::new(),
            mechanism: "PLAIN".to_owned(),
            response: Vec::new(),
            locale: "en_US".to_owned(),
        }
    }
}

impl PartialEq for StartOk {
    fn eq(&self, other: &StartOk) -> (r: bool) {
        let ghost x = self.spec_args();
        let ghost y = other.spec_args();
        let e0 = table_eq(&self.client_properties, &other.client_properties);
        assert(e0 == field_equiv(x[0], y[0]));
        let e1 = str_eq(self.mechanism.as_str(), other.mechanism.as_str());
        assert(e1 == field_equiv(x[1], y[1]));
        let e2 = bytes_eq(self.response.as_slice(), other.response.as_slice());
        assert(e2 == field_equiv(x[2], y[2]));
        let e3 = str_eq(self.locale.as_str(), other.locale.as_str());
        assert(e3 == field_equiv(x[3], y[3]));
        e0 && e1 && e2 && e3
    }
}

impl PartialEqSpecImpl for StartOk {
    open spec fn obeys_eq_spec() -> bool {
        true
    }

    open spec fn eq_spec(&self, other: &StartOk) -> bool {
        args_equiv(self.spec_args(), other.spec_args())
    }
}

/// The method `connection.secure`.
#[derive(Debug)]
pub struct Secure {
    pub challenge: Longstr,
}

impl Method for Secure {
    open spec fn spec_class_id() -> u16 {
        10
    }

    open spec fn spec_method_id() -> u16 {
        20
    }

    open spec fn spec_kinds() -> Seq<Kind> {
        seq![Kind::Longstr]
    }

    open spec fn spec_names() -> Seq<Seq<char>> {
        seq!["challenge"@]
    }

    open spec fn spec_args(&self) -> Seq<FieldView> {
        seq![FieldView::Longstr(self.challenge@)]
    }

    open spec fn spec_str_type(param: Seq<char>) -> Option<StrType> {
        if param == "challenge"@ {
            Some(StrType::Long)
        } else {
            None
        }
    }

    proof fn lemma_kinds(&self) {
        assert(kinds_of(self.spec_args()) =~= Self::spec_kinds());
    }

    proof fn lemma_str_types() {
        reveal_strlit("challenge");
    }

    fn class_id() -> (r: u16) {
        10
    }

    fn method_id() -> (r: u16) {
        20
    }

    fn str_type(param: &str) -> (r: Option<StrType>) {
        if str_eq(param, "challenge") {
            Some(StrType::Long)
        } else {
            None
        }
    }

    fn kinds() -> (r: Vec<Kind>) {
        let mut r: Vec<Kind> = Vec::new();
        r.push(Kind::Longstr);
        assert(r@ =~= Self::spec_kinds());
        r
    }

    fn args(&self) -> (r: Vec<Field>) {
        let mut r: Vec<Field> = Vec::new();
        r.push(Field::Longstr(copy_bytes(&self.challenge)));
        assert(fields_view(r@) =~= self.spec_args());
        r
    }

    fn from_args(args: Vec<Field>) -> (r: Self) {
        let mut args = args;
        let ghost all = fields_view(args@);
        assert(kinds_of(all).len() == 1);
        assert(kinds_of(all)[0] == Kind::Longstr);
        let challenge = take_longstr(&mut args);
        let r = Secure { challenge };
        assert(r.spec_args() =~= all);
        r
    }
}

impl Default for Secure {
    fn default() -> (r: Secure)
        ensures
            r.challenge@ == Seq::<u8>::empty(),
    {
        Secure {
            challenge: Vec::new(),
        }
    }
}

impl PartialEq for Secure {
    fn eq(&self, other: &Secure) -> (r: bool) {
        let ghost x = self.spec_args();
        let ghost y = other.spec_args();
        let e0 = bytes_eq(self.challenge.as_slice(), other.challenge.as_slice());
        assert(e0 == field_equiv(x[0], y[0]));
        e0
    }
}

impl PartialEqSpecImpl for Secure {
    open spec fn obeys_eq_spec() -> bool {
        true
    }

    open spec fn eq_spec(&self, other: &Secure) -> bool {
        args_equiv(self.spec_args(), other.spec_args())
    }
}

/// The method `connection.secure-ok`.
#[derive(Debug)]
pub struct SecureOk {
    pub response: Longstr,
}

impl Method for SecureOk {
    open spec fn spec_class_id() -> u16 {
        10
    }

    open spec fn spec_method_id() -> u16 {
        21
    }

    open spec fn spec_kinds() -> Seq<Kind> {
        seq![Kind::Longstr]
    }

    open spec fn spec_names() -> Seq<Seq<char>> {
        seq!["response"@]
    }

    open spec fn spec_args(&self) -> Seq<FieldView> {
        seq![FieldView::Longstr(self.response@)]
    }

    open spec fn spec_str_type(param: Seq<char>) -> Option<StrType> {
        if param == "response"@ {
            Some(StrType::Long)
        } else {
            None
        }
    }

    proof fn lemma_kinds(&self) {
        assert(kinds_of(self.spec_args()) =~= Self::spec_kinds());
    }

    proof fn lemma_str_types() {
        reveal_strlit("response");
    }

    fn class_id() -> (r: u16) {
        10
    }

    fn method_id() -> (r: u16) {
        21
    }

    fn str_type(param: &str) -> (r: Option<StrType>) {
        if str_eq(param, "response") {
            Some(StrType::Long)
        } else {
            None
        }
    }

    fn kinds() -> (r: Vec<Kind>) {
        let mut r: Vec<Kind> = Vec::new();
        r.push(Kind::Longstr);
        assert(r@ =~= Self::spec_kinds());
        r
    }

    fn args(&self) -> (r: Vec<Field>) {
        let mut r: Vec<Field> = Vec::new();
        r.push(Field::Longstr(copy_bytes(&self.response)));
        assert(fields_view(r@) =~= self.spec_args());
        r
    }

    fn from_args(args: Vec<Field>) -> (r: Self) {
        let mut args = args;
        let ghost all = fields_view(args@);
        assert(kinds_of(all).len() == 1);
        assert(kinds_of(all)[0] == Kind::Longstr);
        let response = take_longstr(&mut args);
        let r = SecureOk { response };
        assert(r.spec_args() =~= all);
        r
    }
}

impl Default for SecureOk {
    fn default() -> (r: SecureOk)
        ensures
            r.response@ == Seq::<u8>::empty(),
    {
        SecureOk {
            response: Vec::new(),
        }
    }
}

impl PartialEq for SecureOk {
    fn eq(&self, other: &SecureOk) -> (r: bool) {
        let ghost x = self.spec_args();
        let ghost y = other.spec_args();
        let e0 = bytes_eq(self.response.as_slice(), other.response.as_slice());
        assert(e0 == field_equiv(x[0], y[0]));
        e0
    }
}

impl PartialEqSpecImpl for SecureOk {
    open spec fn obeys_eq_spec() -> bool {
        true
    }

    open spec fn eq_spec(&self, other: &SecureOk) -> bool {
        args_equiv(self.spec_args(), other.spec_args())
    }
}

/// The method `connection.tune`.
#[derive(Debug)]
pub struct Tune {
    pub channel_max: Short,
    pub frame_max: Long,
    pub heartbeat: Short,
}

impl Method for Tune {
    open spec fn spec_class_id() -> u16 {
        10
    }

    open spec fn spec_method_id() -> u16 {
        30
    }

    open spec fn spec_kinds() -> Seq<Kind> {
        seq![Kind::Short, Kind::Long, Kind::Short]
    }

    open spec fn spec_names() -> Seq<Seq<char>> {
        seq!["channel_max"@, "frame_max"@, "heartbeat"@]
    }

    open spec fn spec_args(&self) -> Seq<FieldView> {
        seq![
            FieldView::Short(self.channel_max),
            FieldView::Long(self.frame_max),
            FieldView::Short(self.heartbeat),
        ]
    }

    open spec fn spec_str_type(param: Seq<char>) -> Option<StrType> {
        None
    }

    proof fn lemma_kinds(&self) {
        assert(kinds_of(self.spec_args()) =~= Self::spec_kinds());
    }

    proof fn lemma_str_types() {
    }

    fn class_id() -> (r: u16) {
        10
    }

    fn method_id() -> (r: u16) {
        30
    }

    #[allow(unused_variables)]
    fn str_type(param: &str) -> (r: Option<StrType>) {
        None
    }

    fn kinds() -> (r: Vec<Kind>) {
        let mut r: Vec<Kind> = Vec::new();
        r.push(Kind::Short);
        r.push(Kind::Long);
        r.push(Kind::Short);
        assert(r@ =~= Self::spec_kinds());
        r
    }

    fn args(&self) -> (r: Vec<Field>) {
        let mut r: Vec<Field> = Vec::new();
        r.push(Field::Short(self.channel_max));
        r.push(Field::Long(self.frame_max));
        r.push(Field::Short(self.heartbeat));
        assert(fields_view(r@) =~= self.spec_args());
        r
    }

    fn from_args(args: Vec<Field>) -> (r: Self) {
        let mut args = args;
        let ghost all = fields_view(args@);
        assert(kinds_of(all).len() == 3);
        assert(kinds_of(all)[0] == Kind::Short);
        assert(kinds_of(all)[1] == Kind::Long);
        assert(kinds_of(all)[2] == Kind::Short);
        let heartbeat = take_short(&mut args);
        let frame_max = take_long(&mut args);
        let channel_max = take_short(&mut args);
        let r = Tune { channel_max, frame_max, heartbeat };
        assert(r.spec_args() =~= all);
        r
    }
}

impl Default for Tune {
    fn default() -> (r: Tune)
        ensures
            r.channel_max == 0,
            r.frame_max == 0,
            r.heartbeat == 0,
    {
        Tune {
            channel_max: 0,
            frame_max: 0,
            heartbeat: 0,
        }
    }
}

impl PartialEq for Tune {
    fn eq(&self, other: &Tune) -> (r: bool) {
        let ghost x = self.spec_args();
        let ghost y = other.spec_args();
        let e0 = self.channel_max == other.channel_max;
        assert(e0 == field_equiv(x[0], y[0]));
        let e1 = self.frame_max == other.frame_max;
        assert(e1 == field_equiv(x[1], y[1]));
        let e2 = self.heartbeat == other.heartbeat;
        assert(e2 == field_equiv(x[2], y[2]));
        e0 && e1 && e2
    }
}

impl PartialEqSpecImpl for Tune {
    open spec fn obeys_eq_spec() -> bool {
        true
    }

    open spec fn eq_spec(&self, other: &Tune) -> bool {
        args_equiv(self.spec_args(), other.spec_args())
    }
}

/// The method `connection.tune-ok`.
#[derive(Debug)]
pub struct TuneOk {
    pub channel_max: Short,
    pub frame_max: Long,
    pub heartbeat: Short,
}

impl Method for TuneOk {
    open spec fn spec_class_id() -> u16 {
        10
    }

    open spec fn spec_method_id() -> u16 {
        31
    }

    open spec fn spec_kinds() -> Seq<Kind> {
        seq![Kind::Short, Kind::Long, Kind::Short]
    }

    open spec fn spec_names() -> Seq<Seq<char>> {
        seq!["channel_max"@, "frame_max"@, "heartbeat"@]
    }

    open spec fn spec_args(&self) -> Seq<FieldView> {
        seq![
            FieldView::Short(self.channel_max),
            FieldView::Long(self.frame_max),
            FieldView::Short(self.heartbeat),
        ]
    }

    open spec fn spec_str_type(param: Seq<char>) -> Option<StrType> {
        None
    }

    proof fn lemma_kinds(&self) {
        assert(kinds_of(self.spec_args()) =~= Self::spec_kinds());
    }

    proof fn lemma_str_types() {
    }

    fn class_id() -> (r: u16) {
        10
    }

    fn method_id() -> (r: u16) {
        31
    }

    #[allow(unused_variables)]
    fn str_type(param: &str) -> (r: Option<StrType>) {
        None
    }

    fn kinds() -> (r: Vec<Kind>) {
        let mut r: Vec<Kind> = Vec::new();
        r.push(Kind::Short);
        r.push(Kind::Long);
        r.push(Kind::Short);
        assert(r@ =~= Self::spec_kinds());
        r
    }

    fn args(&self) -> (r: Vec<Field>) {
        let mut r: Vec<Field> = Vec::new();
        r.push(Field::Short(self.channel_max));
        r.push(Field::Long(self.frame_max));
        r.push(Field::Short(self.heartbeat));
        assert(fields_view(r@) =~= self.spec_args());
        r
    }

    fn from_args(args: Vec<Field>) -> (r: Self) {
        let mut args = args;
        let ghost all = fields_view(args@);
        assert(kinds_of(all).len() == 3);
        assert(kinds_of(all)[0] == Kind::Short);
        assert(kinds_of(all)[1] == Kind::Long);
        assert(kinds_of(all)[2] == Kind::Short);
        let heartbeat = take_short(&mut args);
        let frame_max = take_long(&mut args);
        let channel_max = take_short(&mut args);
        let r = TuneOk { channel_max, frame_max, heartbeat };
        assert(r.spec_args() =~= all);
        r
    }
}

impl Default for TuneOk {
    fn default() -> (r: TuneOk)
        ensures
            r.channel_max == 0,
            r.frame_max == 0,
            r.heartbeat == 0,
    {
        TuneOk {
            channel_max: 0,
            frame_max: 0,
            heartbeat: 0,
        }
    }
}

impl PartialEq for TuneOk {
    fn eq(&self, other: &TuneOk) -> (r: bool) {
        let ghost x = self.spec_args();
        let ghost y = other.spec_args();
        let e0 = self.channel_max == other.channel_max;
        assert(e0 == field_equiv(x[0], y[0]));
        let e1 = self.frame_max == other.frame_max;
        assert(e1 == field_equiv(x[1], y[1]));
        let e2 = self.heartbeat == other.heartbeat;
        assert(e2 == field_equiv(x[2], y[2]));
        e0 && e1 && e2
    }
}

impl PartialEqSpecImpl for TuneOk {
    open spec fn obeys_eq_spec() -> bool {
        true
    }

    open spec fn eq_spec(&self, other: &TuneOk) -> bool {
        args_equiv(self.spec_args(), other.spec_args())
    }
}

/// The method `connection.open`.
#[derive(Debug)]
pub struct Open {
    pub virtual_host: Shortstr,
    pub capabilities: Shortstr,
    pub insist: Bit,
}

impl Method for Open {
    open spec fn spec_class_id() -> u16 {
        10
    }

    open spec fn spec_method_id() -> u16 {
        40
    }

    open spec fn spec_kinds() -> Seq<Kind> {
        seq![Kind::Shortstr, Kind::Shortstr, Kind::Bit]
    }

    open spec fn spec_names() -> Seq<Seq<char>> {
        seq!["virtual_host"@, "capabilities"@, "insist"@]
    }

    open spec fn spec_args(&self) -> Seq<FieldView> {
        seq![
            FieldView::Shortstr(self.virtual_host@),
            FieldView::Shortstr(self.capabilities@),
            FieldView::Bit(self.insist),
        ]
    }

    open spec fn spec_str_type(param: Seq<char>) -> Option<StrType> {
        if param == "virtual_host"@ {
            Some(StrType::Short)
        } else if param == "capabilities"@ {
            Some(StrType::Short)
        } else {
            None
        }
    }

    proof fn lemma_kinds(&self) {
        assert(kinds_of(self.spec_args()) =~= Self::spec_kinds());
    }

    proof fn lemma_str_types() {
        reveal_strlit("virtual_host");
        reveal_strlit("capabilities");
        reveal_strlit("insist");
        assert("virtual_host"@[0] != "capabilities"@[0]);
        assert("insist"@.len() != "virtual_host"@.len());
        assert("insist"@.len() != "capabilities"@.len());
    }

    fn class_id() -> (r: u16) {
        10
    }

    fn method_id() -> (r: u16) {
        40
    }

    fn str_type(param: &str) -> (r: Option<StrType>) {
        if str_eq(param, "virtual_host") {
            Some(StrType::Short)
        } else if str_eq(param, "capabilities") {
            Some(StrType::Short)
        } else {
            None
        }
    }

    fn kinds() -> (r: Vec<Kind>) {
        let mut r: Vec<Kind> = Vec::new();
        r.push(Kind::Shortstr);
        r.push(Kind::Shortstr);
        r.push(Kind::Bit);
        assert(r@ =~= Self::spec_kinds());
        r
    }

    fn args(&self) -> (r: Vec<Field>) {
        let mut r: Vec<Field> = Vec::new();
        r.push(Field::Shortstr(self.virtual_host.clone()));
        r.push(Field::Shortstr(self.capabilities.clone()));
        r.push(Field::Bit(self.insist));
        assert(fields_view(r@) =~= self.spec_args());
        r
    }

    fn from_args(args: Vec<Field>) -> (r: Self) {
        let mut args = args;
        let ghost all = fields_view(args@);
        assert(kinds_of(all).len() == 3);
        assert(kinds_of(all)[0] == Kind::Shortstr);
        assert(kinds_of(all)[1] == Kind::Shortstr);
        assert(kinds_of(all)[2] == Kind::Bit);
        let insist = take_bit(&mut args);
        let capabilities = take_shortstr(&mut args);
        let virtual_host = take_shortstr(&mut args);
        let r = Open { virtual_host, capabilities, insist };
        assert(r.spec_args() =~= all);
        r
    }
}

impl Default for Open {
    fn default() -> (r: Open)
        ensures
            r.virtual_host@ == "/"@,
            r.capabilities@ == Seq::<char>::empty(),
            !r.insist,
    {
        Open {
            virtual_host: "/".to_owned(),
            capabilities: String::new(),
            insist: false,
        }
    }
}

impl PartialEq for Open {
    fn eq(&self, other: &Open) -> (r: bool) {
        let ghost x = self.spec_args();
        let ghost y = other.spec_args();
        let e0 = str_eq(self.virtual_host.as_str(), other.virtual_host.as_str());
        assert(e0 == field_equiv(x[0], y[0]));
        let e1 = str_eq(self.capabilities.as_str(), other.capabilities.as_str());
        assert(e1 == field_equiv(x[1], y[1]));
        let e2 = self.insist == other.insist;
        assert(e2 == field_equiv(x[2], y[2]));
        e0 && e1 && e2
    }
}

impl PartialEqSpecImpl for Open {
    open spec fn obeys_eq_spec() -> bool {
        true
    }

    open spec fn eq_spec(&self, other: &Open) -> bool {
        args_equiv(self.spec_args(), other.spec_args())
    }
}

/// The method `connection.open-ok`.
#[derive(Debug)]
pub struct OpenOk {
    pub known_hosts: Shortstr,
}

impl Method for OpenOk {
    open spec fn spec_class_id() -> u16 {
        10
    }

    open spec fn spec_method_id() -> u16 {
        41
    }

    open spec fn spec_kinds() -> Seq<Kind> {
        seq![Kind::Shortstr]
    }

    open spec fn spec_names() -> Seq<Seq<char>> {
        seq!["known_hosts"@]
    }

    open spec fn spec_args(&self) -> Seq<FieldView> {
        seq![FieldView::Shortstr(self.known_hosts@)]
    }

    open spec fn spec_str_type(param: Seq<char>) -> Option<StrType> {
        if param == "known_hosts"@ {
            Some(StrType::Short)
        } else {
            None
        }
    }

    proof fn lemma_kinds(&self) {
        assert(kinds_of(self.spec_args()) =~= Self::spec_kinds());
    }

    proof fn lemma_str_types() {
        reveal_strlit("known_hosts");
    }

    fn class_id() -> (r: u16) {
        10
    }

    fn method_id() -> (r: u16) {
        41
    }

    fn str_type(param: &str) -> (r: Option<StrType>) {
        if str_eq(param, "known_hosts") {
            Some(StrType::Short)
        } else {
            None
        }
    }

    fn kinds() -> (r: Vec<Kind>) {
        let mut r: Vec<Kind> = Vec::new();
        r.push(Kind::Shortstr);
        assert(r@ =~= Self::spec_kinds());
        r
    }

    fn args(&self) -> (r: Vec<Field>) {
        let mut r: Vec<Field> = Vec::new();
        r.push(Field::Shortstr(self.known_hosts.clone()));
        assert(fields_view(r@) =~= self.spec_args());
        r
    }

    fn from_args(args: Vec<Field>) -> (r: Self) {
        let mut args = args;
        let ghost all = fields_view(args@);
        assert(kinds_of(all).len() == 1);
        assert(kinds_of(all)[0] == Kind::Shortstr);
        let known_hosts = take_shortstr(&mut args);
        let r = OpenOk { known_hosts };
        assert(r.spec_args() =~= all);
        r
    }
}

impl Default for OpenOk {
    fn default() -> (r: OpenOk)
        ensures
            r.known_hosts@ == Seq::<char>::empty(),
    {
        OpenOk {
            known_hosts: String::new(),
        }
    }
}

impl PartialEq for OpenOk {
    fn eq(&self, other: &OpenOk) -> (r: bool) {
        let ghost x = self.spec_args();
        let ghost y = other.spec_args();
        let e0 = str_eq(self.known_hosts.as_str(), other.known_hosts.as_str());
        assert(e0 == field_equiv(x[0], y[0]));
        e0
    }
}

impl PartialEqSpecImpl for OpenOk {
    open spec fn obeys_eq_spec() -> bool {
        true
    }

    open spec fn eq_spec(&self, other: &OpenOk) -> bool {
        args_equiv(self.spec_args(), other.spec_args())
    }
}

/// The method `connection.close`.
#[derive(Debug)]
pub struct Close {
    pub reply_code: Short,
    pub reply_text: Shortstr,
    pub class_id: Short,
    pub method_id: Short,
}

impl Method for Close {
    open spec fn spec_class_id() -> u16 {
        10
    }

    open spec fn spec_method_id() -> u16 {
        50
    }

    open spec fn spec_kinds() -> Seq<Kind> {
        seq![Kind::Short, Kind::Shortstr, Kind::Short, Kind::Short]
    }

    open spec fn spec_names() -> Seq<Seq<char>> {
        seq!["reply_code"@, "reply_text"@, "class_id"@, "method_id"@]
    }

    open spec fn spec_args(&self) -> Seq<FieldView> {
        seq![
            FieldView::Short(self.reply_code),
            FieldView::Shortstr(self.reply_text@),
            FieldView::Short(self.class_id),
            FieldView::Short(self.method_id),
        ]
    }

    open spec fn spec_str_type(param: Seq<char>) -> Option<StrType> {
        if param == "reply_text"@ {
            Some(StrType::Short)
        } else {
            None
        }
    }

    proof fn lemma_kinds(&self) {
        assert(kinds_of(self.spec_args()) =~= Self::spec_kinds());
    }

    proof fn lemma_str_types() {
        reveal_strlit("reply_code");
        reveal_strlit("reply_text");
        reveal_strlit("class_id");
        reveal_strlit("method_id");
        assert("reply_code"@[6] != "reply_text"@[6]);
        assert("class_id"@.len() != "reply_text"@.len());
        assert("method_id"@.len() != "reply_text"@.len());
    }

    fn class_id() -> (r: u16) {
        10
    }

    fn method_id() -> (r: u16) {
        50
    }

    fn str_type(param: &str) -> (r: Option<StrType>) {
        if str_eq(param, "reply_text") {
            Some(StrType::Short)
        } else {
            None
        }
    }

    fn kinds() -> (r: Vec<Kind>) {
        let mut r: Vec<Kind> = Vec::new();
        r.push(Kind::Short);
        r.push(Kind::Shortstr);
        r.push(Kind::Short);
        r.push(Kind::Short);
        assert(r@ =~= Self::spec_kinds());
        r
    }

    fn args(&self) -> (r: Vec<Field>) {
        let mut r: Vec<Field> = Vec::new();
        r.push(Field::Short(self.reply_code));
        r.push(Field::Shortstr(self.reply_text.clone()));
        r.push(Field::Short(self.class_id));
        r.push(Field::Short(self.method_id));
        assert(fields_view(r@) =~= self.spec_args());
        r
    }

    fn from_args(args: Vec<Field>) -> (r: Self) {
        let mut args = args;
        let ghost all = fields_view(args@);
        assert(kinds_of(all).len() == 4);
        assert(kinds_of(all)[0] == Kind::Short);
        assert(kinds_of(all)[1] == Kind::Shortstr);
        assert(kinds_of(all)[2] == Kind::Short);
        assert(kinds_of(all)[3] == Kind::Short);
        let method_id = take_short(&mut args);
        let class_id = take_short(&mut args);
        let reply_text = take_shortstr(&mut args);
        let reply_code = take_short(&mut args);
        let r = Close { reply_code, reply_text, class_id, method_id };
        assert(r.spec_args() =~= all);
        r
    }
}

impl Default for Close {
    fn default() -> (r: Close)
        ensures
            r.reply_code == 0,
            r.reply_text@ == Seq::<char>::empty(),
            r.class_id == 0,
            r.method_id == 0,
    {
        Close {
            reply_code: 0,
            reply_text: String::new(),
            class_id: 0,
            method_id: 0,
        }
    }
}

impl PartialEq for Close {
    fn eq(&self, other: &Close) -> (r: bool) {
        let ghost x = self.spec_args();
        let ghost y = other.spec_args();
        let e0 = self.reply_code == other.reply_code;
        assert(e0 == field_equiv(x[0], y[0]));
        let e1 = str_eq(self.reply_text.as_str(), other.reply_text.as_str());
        assert(e1 == field_equiv(x[1], y[1]));
        let e2 = self.class_id == other.class_id;
        assert(e2 == field_equiv(x[2], y[2]));
        let e3 = self.method_id == other.method_id;
        assert(e3 == field_equiv(x[3], y[3]));
        e0 && e1 && e2 && e3
    }
}

impl PartialEqSpecImpl for Close {
    open spec fn obeys_eq_spec() -> bool {
        true
    }

    open spec fn eq_spec(&self, other: &Close) -> bool {
        args_equiv(self.spec_args(), other.spec_args())
    }
}

/// The method `connection.close-ok`.
#[derive(Debug)]
pub struct CloseOk {}

impl Method for CloseOk {
    open spec fn spec_class_id() -> u16 {
        10
    }

    open spec fn spec_method_id() -> u16 {
        51
    }

    open spec fn spec_kinds() -> Seq<Kind> {
        Seq::empty()
    }

    open spec fn spec_names() -> Seq<Seq<char>> {
        Seq::empty()
    }

    open spec fn spec_args(&self) -> Seq<FieldView> {
        Seq::empty()
    }

    open spec fn spec_str_type(param: Seq<char>) -> Option<StrType> {
        None
    }

    proof fn lemma_kinds(&self) {
        assert(kinds_of(self.spec_args()) =~= Self::spec_kinds());
    }

    proof fn lemma_str_types() {
    }

    fn class_id() -> (r: u16) {
        10
    }

    fn method_id() -> (r: u16) {
        51
    }

    #[allow(unused_variables)]
    fn str_type(param: &str) -> (r: Option<StrType>) {
        None
    }

    fn kinds() -> (r: Vec<Kind>) {
        Vec::new()
    }

    fn args(&self) -> (r: Vec<Field>) {
        let r: Vec<Field> = Vec::new();
        assert(fields_view(r@) =~= self.spec_args());
        r
    }

    fn from_args(args: Vec<Field>) -> (r: Self) {
        let r = CloseOk {};
        assert(kinds_of(fields_view(args@)).len() == 0);
        assert(r.spec_args() =~= fields_view(args@));
        r
    }
}

impl Default for CloseOk {
    fn default() -> (r: CloseOk)
    {
        CloseOk {}
    }
}

impl PartialEq for CloseOk {
    #[allow(unused_variables)]
    fn eq(&self, other: &CloseOk) -> (r: bool) {
        true
    }
}

impl PartialEqSpecImpl for CloseOk {
    open spec fn obeys_eq_spec() -> bool {
        true
    }

    open spec fn eq_spec(&self, other: &CloseOk) -> bool {
        args_equiv(self.spec_args(), other.spec_args())
    }
}

/// The method `connection.blocked`.
#[derive(Debug)]
pub struct Blocked {
    pub reason: Shortstr,
}

impl Method for Blocked {
    open spec fn spec_class_id() -> u16 {
        10
    }

    open spec fn spec_method_id() -> u16 {
        60
    }

    open spec fn spec_kinds() -> Seq<Kind> {
        seq![Kind::Shortstr]
    }

    open spec fn spec_names() -> Seq<Seq<char>> {
        seq!["reason"@]
    }

    open spec fn spec_args(&self) -> Seq<FieldView> {
        seq![FieldView::Shortstr(self.reason@)]
    }

    open spec fn spec_str_type(param: Seq<char>) -> Option<StrType> {
        if param == "reason"@ {
            Some(StrType::Short)
        } else {
            None
        }
    }

    proof fn lemma_kinds(&self) {
        assert(kinds_of(self.spec_args()) =~= Self::spec_kinds());
    }

    proof fn lemma_str_types() {
        reveal_strlit("reason");
    }

    fn class_id() -> (r: u16) {
        10
    }

    fn method_id() -> (r: u16) {
        60
    }

    fn str_type(param: &str) -> (r: Option<StrType>) {
        if str_eq(param, "reason") {
            Some(StrType::Short)
        } else {
            None
        }
    }

    fn kinds() -> (r: Vec<Kind>) {
        let mut r: Vec<Kind> = Vec::new();
        r.push(Kind::Shortstr);
        assert(r@ =~= Self::spec_kinds());
        r
    }

    fn args(&self) -> (r: Vec<Field>) {
        let mut r: Vec<Field> = Vec::new();
        r.push(Field::Shortstr(self.reason.clone()));
        assert(fields_view(r@) =~= self.spec_args());
        r
    }

    fn from_args(args: Vec<Field>) -> (r: Self) {
        let mut args = args;
        let ghost all = fields_view(args@);
        assert(kinds_of(all).len() == 1);
        assert(kinds_of(all)[0] == Kind::Shortstr);
        let reason = take_shortstr(&mut args);
        let r = Blocked { reason };
        assert(r.spec_args() =~= all);
        r
    }
}

impl Default for Blocked {
    fn default() -> (r: Blocked)
        ensures
            r.reason@ == Seq::<char>::empty(),
    {
        Blocked {
            reason: String::new(),
        }
    }
}

impl PartialEq for Blocked {
    fn eq(&self, other: &Blocked) -> (r: bool) {
        let ghost x = self.spec_args();
        let ghost y = other.spec_args();
        let e0 = str_eq(self.reason.as_str(), other.reason.as_str());
        assert(e0 == field_equiv(x[0], y[0]));
        e0
    }
}

impl PartialEqSpecImpl for Blocked {
    open spec fn obeys_eq_spec() -> bool {
        true
    }

    open spec fn eq_spec(&self, other: &Blocked) -> bool {
        args_equiv(self.spec_args(), other.spec_args())
    }
}

/// The method `connection.unblocked`.
#[derive(Debug)]
pub struct Unblocked {}

impl Method for Unblocked {
    open spec fn spec_class_id() -> u16 {
        10
    }

    open spec fn spec_method_id() -> u16 {
        61
    }

    open spec fn spec_kinds() -> Seq<Kind> {
        Seq::empty()
    }

    open spec fn spec_names() -> Seq<Seq<char>> {
        Seq::empty()
    }

    open spec fn spec_args(&self) -> Seq<FieldView> {
        Seq::empty()
    }

    open spec fn spec_str_type(param: Seq<char>) -> Option<StrType> {
        None
    }

    proof fn lemma_kinds(&self) {
        assert(kinds_of(self.spec_args()) =~= Self::spec_kinds());
    }

    proof fn lemma_str_types() {
    }

    fn class_id() -> (r: u16) {
        10
    }

    fn method_id() -> (r: u16) {
        61
    }

    #[allow(unused_variables)]
    fn str_type(param: &str) -> (r: Option<StrType>) {
        None
    }

    fn kinds() -> (r: Vec<Kind>) {
        Vec::new()
    }

    fn args(&self) -> (r: Vec<Field>) {
        let r: Vec<Field> = Vec::new();
        assert(fields_view(r@) =~= self.spec_args());
        r
    }

    fn from_args(args: Vec<Field>) -> (r: Self) {
        let r = Unblocked {};
        assert(kinds_of(fields_view(args@)).len() == 0);
        assert(r.spec_args() =~= fields_view(args@));
        r
    }
}

impl Default for Unblocked {
    fn default() -> (r: Unblocked)
    {
        Unblocked {}
    }
}

impl PartialEq for Unblocked {
    #[allow(unused_variables)]
    fn eq(&self, other: &Unblocked) -> (r: bool) {
        true
    }
}

impl PartialEqSpecImpl for Unblocked {
    open spec fn obeys_eq_spec() -> bool {
        true
    }

    open spec fn eq_spec(&self, other: &Unblocked) -> bool {
        args_equiv(self.spec_args(), other.spec_args())
    }
}
} // verus!
