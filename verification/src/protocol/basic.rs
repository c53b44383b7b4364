//! The methods of the class `basic`.

use vstd::prelude::*;
use vstd::std_specs::cmp::PartialEqSpecImpl;

use crate::method::{
    args_equiv, field_equiv, fields_view, kinds_of, take_bit, take_long, take_longlong, take_short,
    take_shortstr, take_table, Field, FieldView, Kind, Method,
};
use crate::types::{str_eq, table_eq, Bit, Entries, Long, Longlong, Short, Shortstr, StrType, Table};

verus! {

/// The method `basic.qos`.
#[derive(Debug)]
pub struct Qos {
    pub prefetch_size: Long,
    pub prefetch_count: Short,
    pub global: Bit,
}

impl Method for Qos {
    open spec fn spec_class_id() -> u16 {
        60
    }

    open spec fn spec_method_id() -> u16 {
        10
    }

    open spec fn spec_kinds() -> Seq<Kind> {
        seq![Kind::Long, Kind::Short, Kind::Bit]
    }

    open spec fn spec_names() -> Seq<Seq<char>> {
        seq!["prefetch_size"@, "prefetch_count"@, "global"@]
    }

    open spec fn spec_args(&self) -> Seq<FieldView> {
        seq![
            FieldView::Long(self.prefetch_size),
            FieldView::Short(self.prefetch_count),
            FieldView::Bit(self.global),
        ]
    }

    open spec fn spec_str_type(param: Seq<char>) -> Option<StrType> {
        None
    }

    proof fn lemma_kinds(&self) {
        assert(kinds_of(self.spec_args()) =~= Self::spec_kinds());
    }

    proof fn lemma_str_types() {
    }

    fn class_id() -> (r: u16) {
        60
    }

    fn method_id() -> (r: u16) {
        10
    }

    #[allow(unused_variables)]
    fn str_type(param: &str) -> (r: Option<StrType>) {
        None
    }

    fn kinds() -> (r: Vec<Kind>) {
        let mut r: Vec<Kind> = Vec::new();
        r.push(Kind::Long);
        r.push(Kind::Short);
        r.push(Kind::Bit);
        assert(r@ =~= Self::spec_kinds());
        r
    }

    fn args(&self) -> (r: Vec<Field>) {
        let mut r: Vec<Field> = Vec::new();
        r.push(Field::Long(self.prefetch_size));
        r.push(Field::Short(self.prefetch_count));
        r.push(Field::Bit(self.global));
        assert(fields_view(r@) =~= self.spec_args());
        r
    }

    fn from_args(args: Vec<Field>) -> (r: Self) {
        let mut args = args;
        let ghost all = fields_view(args@);
        assert(kinds_of(all).len() == 3);
        assert(kinds_of(all)[0] == Kind::Long);
        assert(kinds_of(all)[1] == Kind::Short);
        assert(kinds_of(all)[2] == Kind::Bit);
        let global = take_bit(&mut args);
        let prefetch_count = take_short(&mut args);
        let prefetch_size = take_long(&mut args);
        let r = Qos { prefetch_size, prefetch_count, global };
        assert(r.spec_args() =~= all);
        r
    }
}

impl Default for Qos {
    fn default() -> (r: Qos)
        ensures
            r.prefetch_size == 0,
            r.prefetch_count == 0,
            !r.global,
    {
        Qos {
            prefetch_size: 0,
            prefetch_count: 0,
            global: false,
        }
    }
}

impl PartialEq for Qos {
    fn eq(&self, other: &Qos) -> (r: bool) {
        let ghost x = self.spec_args();
        let ghost y = other.spec_args();
        let e0 = self.prefetch_size == other.prefetch_size;
        assert(e0 == field_equiv(x[0], y[0]));
        let e1 = self.prefetch_count == other.prefetch_count;
        assert(e1 == field_equiv(x[1], y[1]));
        let e2 = self.global == other.global;
        assert(e2 == field_equiv(x[2], y[2]));
        e0 && e1 && e2
    }
}

impl PartialEqSpecImpl for Qos {
    open spec fn obeys_eq_spec() -> bool {
        true
    }

    open spec fn eq_spec(&self, other: &Qos) -> bool {
        args_equiv(self.spec_args(), other.spec_args())
    }
}

/// The method `basic.qos-ok`.
#[derive(Debug)]
pub struct QosOk {}

impl Method for QosOk {
    open spec fn spec_class_id() -> u16 {
        60
    }

    open spec fn spec_method_id() -> u16 {
        11
    }

    open spec fn spec_kinds() -> Seq<Kind> {
        Seq::empty()
    }

    open spec fn spec_names() -> Seq<Seq<char>> {
        Seq::empty()
    }

    open spec fn spec_args(&self) -> Seq<FieldView> {
        Seq::empty()
    }

    open spec fn spec_str_type(param: Seq<char>) -> Option<StrType> {
        None
    }

    proof fn lemma_kinds(&self) {
        assert(kinds_of(self.spec_args()) =~= Self::spec_kinds());
    }

    proof fn lemma_str_types() {
    }

    fn class_id() -> (r: u16) {
        60
    }

    fn method_id() -> (r: u16) {
        11
    }

    #[allow(unused_variables)]
    fn str_type(param: &str) -> (r: Option<StrType>) {
        None
    }

    fn kinds() -> (r: Vec<Kind>) {
        Vec::new()
    }

    fn args(&self) -> (r: Vec<Field>) {
        let r: Vec<Field> = Vec::new();
        assert(fields_view(r@) =~= self.spec_args());
        r
    }

    fn from_args(args: Vec<Field>) -> (r: Self) {
        let r = QosOk {};
        assert(kinds_of(fields_view(args@)).len() == 0);
        assert(r.spec_args() =~= fields_view(args@));
        r
    }
}

impl Default for QosOk {
    fn default() -> (r: QosOk)
    {
        QosOk {}
    }
}

impl PartialEq for QosOk {
    #[allow(unused_variables)]
    fn eq(&self, other: &QosOk) -> (r: bool) {
        true
    }
}

impl PartialEqSpecImpl for QosOk {
    open spec fn obeys_eq_spec() -> bool {
        true
    }

    open spec fn eq_spec(&self, other: &QosOk) -> bool {
        args_equiv(self.spec_args(), other.spec_args())
    }
}

/// The method `basic.consume`.
#[derive(Debug)]
pub struct Consume {
    pub ticket: Short,
    pub queue: Shortstr,
    pub consumer_tag: Shortstr,
    pub no_local: Bit,
    pub no_ack: Bit,
    pub exclusive: Bit,
    pub nowait: Bit,
    pub arguments: Table,
}

impl Method for Consume {
    open spec fn spec_class_id() -> u16 {
        60
    }

    open spec fn spec_method_id() -> u16 {
        20
    }

    open spec fn spec_kinds() -> Seq<Kind> {
        seq![
            Kind::Short,
            Kind::Shortstr,
            Kind::Shortstr,
            Kind::Bit,
            Kind::Bit,
            Kind::Bit,
            Kind::Bit,
            Kind::Table,
        ]
    }

    open spec fn spec_names() -> Seq<Seq<char>> {
        seq![
            "ticket"@,
            "queue"@,
            "consumer_tag"@,
            "no_local"@,
            "no_ack"@,
            "exclusive"@,
            "nowait"@,
            "arguments"@,
        ]
    }

    open spec fn spec_args(&self) -> Seq<FieldView> {
        seq![
            FieldView::Short(self.ticket),
            FieldView::Shortstr(self.queue@),
            FieldView::Shortstr(self.consumer_tag@),
            FieldView::Bit(self.no_local),
            FieldView::Bit(self.no_ack),
            FieldView::Bit(self.exclusive),
            FieldView::Bit(self.nowait),
            FieldView::Table(self.arguments@),
        ]
    }

    open spec fn spec_str_type(param: Seq<char>) -> Option<StrType> {
        if param == "queue"@ {
            Some(StrType::Short)
        } else if param == "consumer_tag"@ {
            Some(StrType::Short)
        } else {
            None
        }
    }

    proof fn lemma_kinds(&self) {
        assert(kinds_of(self.spec_args()) =~= Self::spec_kinds());
    }

    proof fn lemma_str_types() {
        reveal_strlit("ticket");
        reveal_strlit("queue");
        reveal_strlit("consumer_tag");
        reveal_strlit("no_local");
        reveal_strlit("no_ack");
        reveal_strlit("exclusive");
        reveal_strlit("nowait");
        reveal_strlit("arguments");
        assert("ticket"@.len() != "queue"@.len());
        assert("ticket"@.len() != "consumer_tag"@.len());
        assert("queue"@.len() != "consumer_tag"@.len());
        assert("no_local"@.len() != "queue"@.len());
        assert("no_local"@.len() != "consumer_tag"@.len());
        assert("no_ack"@.len() != "queue"@.len());
        assert("no_ack"@.len() != "consumer_tag"@.len());
        assert("exclusive"@.len() != "queue"@.len());
        assert("exclusive"@.len() != "consumer_tag"@.len());
        assert("nowait"@.len() != "queue"@.len());
        assert("nowait"@.len() != "consumer_tag"@.len());
        assert("arguments"@.len() != "queue"@.len());
        assert("arguments"@.len() != "consumer_tag"@.len());
    }

    fn class_id() -> (r: u16) {
        60
    }

    fn method_id() -> (r: u16) {
        20
    }

    fn str_type(param: &str) -> (r: Option<StrType>) {
        if str_eq(param, "queue") {
            Some(StrType::Short)
        } else if str_eq(param, "consumer_tag") {
            Some(StrType::Short)
        } else {
            None
        }
    }

    fn kinds() -> (r: Vec<Kind>) {
        let mut r: Vec<Kind> = Vec::new();
        r.push(Kind::Short);
        r.push(Kind::Shortstr);
        r.push(Kind::Shortstr);
        r.push(Kind::Bit);
        r.push(Kind::Bit);
        r.push(Kind::Bit);
        r.push(Kind::Bit);
        r.push(Kind::Table);
        assert(r@ =~= Self::spec_kinds());
        r
    }

    fn args(&self) -> (r: Vec<Field>) {
        let mut r: Vec<Field> = Vec::new();
        r.push(Field::Short(self.ticket));
        r.push(Field::Shortstr(self.queue.clone()));
        r.push(Field::Shortstr(self.consumer_tag.clone()));
        r.push(Field::Bit(self.no_local));
        r.push(Field::Bit(self.no_ack));
        r.push(Field::Bit(self.exclusive));
        r.push(Field::Bit(self.nowait));
        r.push(Field::Table(self.arguments.clone()));
        assert(fields_view(r@) =~= self.spec_args());
        r
    }

    fn from_args(args: Vec<Field>) -> (r: Self) {
        let mut args = args;
        let ghost all = fields_view(args@);
        assert(kinds_of(all).len() == 8);
        assert(kinds_of(all)[0] == Kind::Short);
        assert(kinds_of(all)[1] == Kind::Shortstr);
        assert(kinds_of(all)[2] == Kind::Shortstr);
        assert(kinds_of(all)[3] == Kind::Bit);
        assert(kinds_of(all)[4] == Kind::Bit);
        assert(kinds_of(all)[5] == Kind::Bit);
        assert(kinds_of(all)[6] == Kind::Bit);
        assert(kinds_of(all)[7] == Kind::Table);
        let arguments = take_table(&mut args);
        let nowait = take_bit(&mut args);
        let exclusive = take_bit(&mut args);
        let no_ack = take_bit(&mut args);
        let no_local = take_bit(&mut args);
        let consumer_tag = take_shortstr(&mut args);
        let queue = take_shortstr(&mut args);
        let ticket = take_short(&mut args);
        let r = Consume {
            ticket,
            queue,
            consumer_tag,
            no_local,
            no_ack,
            exclusive,
            nowait,
            arguments,
        };
        assert(r.spec_args() =~= all);
        r
    }
}

impl Default for Consume {
    fn default() -> (r: Consume)
        ensures
            r.ticket == 0,
            r.queue@ == Seq::<char>::empty(),
            r.consumer_tag@ == Seq::<char>::empty(),
            !r.no_local,
            !r.no_ack,
            !r.exclusive,
            !r.nowait,
            r.arguments@ == Entries::empty(),
    {
        Consume {
            ticket: 0,
            queue: String::new(),
            consumer_tag: String::new(),
            no_local: false,
            no_ack: false,
            exclusive: false,
            nowait: false,
            arguments: Table::new(),
        }
    }
}

impl PartialEq for Consume {
    fn eq(&self, other: &Consume) -> (r: bool) {
        let ghost x = self.spec_args();
        let ghost y = other.spec_args();
        let e0 = self.ticket == other.ticket;
        assert(e0 == field_equiv(x[0], y[0]));
        let e1 = str_eq(self.queue.as_str(), other.queue.as_str());
        assert(e1 == field_equiv(x[1], y[1]));
        let e2 = str_eq(self.consumer_tag.as_str(), other.consumer_tag.as_str());
        assert(e2 == field_equiv(x[2], y[2]));
        let e3 = self.no_local == other.no_local;
        assert(e3 == field_equiv(x[3], y[3]));
        let e4 = self.no_ack == other.no_ack;
        assert(e4 == field_equiv(x[4], y[4]));
        let e5 = self.exclusive == other.exclusive;
        assert(e5 == field_equiv(x[5], y[5]));
        let e6 = self.nowait == other.nowait;
        assert(e6 == field_equiv(x[6], y[6]));
        let e7 = table_eq(&self.arguments, &other.arguments);
        assert(e7 == field_equiv(x[7], y[7]));
        e0 && e1 && e2 && e3 && e4 && e5 && e6 && e7
    }
}

impl PartialEqSpecImpl for Consume {
    open spec fn obeys_eq_spec() -> bool {
        true
    }

    open spec fn eq_spec(&self, other: &Consume) -> bool {
        args_equiv(self.spec_args(), other.spec_args())
    }
}

/// The method `basic.consume-ok`.
#[derive(Debug)]
pub struct ConsumeOk {
    pub consumer_tag: Shortstr,
}

impl Method for ConsumeOk {
    open spec fn spec_class_id() -> u16 {
        60
    }

    open spec fn spec_method_id() -> u16 {
        21
    }

    open spec fn spec_kinds() -> Seq<Kind> {
        seq![Kind::Shortstr]
    }

    open spec fn spec_names() -> Seq<Seq<char>> {
        seq!["consumer_tag"@]
    }

    open spec fn spec_args(&self) -> Seq<FieldView> {
        seq![FieldView::Shortstr(self.consumer_tag@)]
    }

    open spec fn spec_str_type(param: Seq<char>) -> Option<StrType> {
        if param == "consumer_tag"@ {
            Some(StrType::Short)
        } else {
            None
        }
    }

    proof fn lemma_kinds(&self) {
        assert(kinds_of(self.spec_args()) =~= Self::spec_kinds());
    }

    proof fn lemma_str_types() {
        reveal_strlit("consumer_tag");
    }

    fn class_id() -> (r: u16) {
        60
    }

    fn method_id() -> (r: u16) {
        21
    }

    fn str_type(param: &str) -> (r: Option<StrType>) {
        if str_eq(param, "consumer_tag") {
            Some(StrType::Short)
        } else {
            None
        }
    }

    fn kinds() -> (r: Vec<Kind>) {
        let mut r: Vec<Kind> = Vec::new();
        r.push(Kind::Shortstr);
        assert(r@ =~= Self::spec_kinds());
        r
    }

    fn args(&self) -> (r: Vec<Field>) {
        let mut r: Vec<Field> = Vec::new();
        r.push(Field::Shortstr(self.consumer_tag.clone()));
        assert(fields_view(r@) =~= self.spec_args());
        r
    }

    fn from_args(args: Vec<Field>) -> (r: Self) {
        let mut args = args;
        let ghost all = fields_view(args@);
        assert(kinds_of(all).len() == 1);
        assert(kinds_of(all)[0] == Kind::Shortstr);
        let consumer_tag = take_shortstr(&mut args);
        let r = ConsumeOk { consumer_tag };
        assert(r.spec_args() =~= all);
        r
    }
}

impl Default for ConsumeOk {
    fn default() -> (r: ConsumeOk)
        ensures
            r.consumer_tag@ == Seq::<char>::empty(),
    {
        ConsumeOk {
            consumer_tag: String::new(),
        }
    }
}

impl PartialEq for ConsumeOk {
    fn eq(&self, other: &ConsumeOk) -> (r: bool) {
        let ghost x = self.spec_args();
        let ghost y = other.spec_args();
        let e0 = str_eq(self.consumer_tag.as_str(), other.consumer_tag.as_str());
        assert(e0 == field_equiv(x[0], y[0]));
        e0
    }
}

impl PartialEqSpecImpl for ConsumeOk {
    open spec fn obeys_eq_spec() -> bool {
        true
    }

    open spec fn eq_spec(&self, other: &ConsumeOk) -> bool {
        args_equiv(self.spec_args(), other.spec_args())
    }
}

/// The method `basic.cancel`.
#[derive(Debug)]
pub struct Cancel {
    pub consumer_tag: Shortstr,
    pub nowait: Bit,
}

impl Method for Cancel {
    open spec fn spec_class_id() -> u16 {
        60
    }

    open spec fn spec_method_id() -> u16 {
        30
    }

    open spec fn spec_kinds() -> Seq<Kind> {
        seq![Kind::Shortstr, Kind::Bit]
    }

    open spec fn spec_names() -> Seq<Seq<char>> {
        seq!["consumer_tag"@, "nowait"@]
    }

    open spec fn spec_args(&self) -> Seq<FieldView> {
        seq![FieldView::Shortstr(self.consumer_tag@), FieldView::Bit(self.nowait)]
    }

    open spec fn spec_str_type(param: Seq<char>) -> Option<StrType> {
        if param == "consumer_tag"@ {
            Some(StrType::Short)
        } else {
            None
        }
    }

    proof fn lemma_kinds(&self) {
        assert(kinds_of(self.spec_args()) =~= Self::spec_kinds());
    }

    proof fn lemma_str_types() {
        reveal_strlit("consumer_tag");
        reveal_strlit("nowait");
        assert("nowait"@.len() != "consumer_tag"@.len());
    }

    fn class_id() -> (r: u16) {
        60
    }

    fn method_id() -> (r: u16) {
        30
    }

    fn str_type(param: &str) -> (r: Option<StrType>) {
        if str_eq(param, "consumer_tag") {
            Some(StrType::Short)
        } else {
            None
        }
    }

    fn kinds() -> (r: Vec<Kind>) {
        let mut r: Vec<Kind> = Vec::new();
        r.push(Kind::Shortstr);
        r.push(Kind::Bit);
        assert(r@ =~= Self::spec_kinds());
        r
    }

    fn args(&self) -> (r: Vec<Field>) {
        let mut r: Vec<Field> = Vec::new();
        r.push(Field::Shortstr(self.consumer_tag.clone()));
        r.push(Field::Bit(self.nowait));
        assert(fields_view(r@) =~= self.spec_args());
        r
    }

    fn from_args(args: Vec<Field>) -> (r: Self) {
        let mut args = args;
        let ghost all = fields_view(args@);
        assert(kinds_of(all).len() == 2);
        assert(kinds_of(all)[0] == Kind::Shortstr);
        assert(kinds_of(all)[1] == Kind::Bit);
        let nowait = take_bit(&mut args);
        let consumer_tag = take_shortstr(&mut args);
        let r = Cancel { consumer_tag, nowait };
        assert(r.spec_args() =~= all);
        r
    }
}

impl Default for Cancel {
    fn default() -> (r: Cancel)
        ensures
            r.consumer_tag@ == Seq::<char>::empty(),
            !r.nowait,
    {
        Cancel {
            consumer_tag: String::new(),
            nowait: false,
        }
    }
}

impl PartialEq for Cancel {
    fn eq(&self, other: &Cancel) -> (r: bool) {
        let ghost x = self.spec_args();
        let ghost y = other.spec_args();
        let e0 = str_eq(self.consumer_tag.as_str(), other.consumer_tag.as_str());
        assert(e0 == field_equiv(x[0], y[0]));
        let e1 = self.nowait == other.nowait;
        assert(e1 == field_equiv(x[1], y[1]));
        e0 && e1
    }
}

impl PartialEqSpecImpl for Cancel {
    open spec fn obeys_eq_spec() -> bool {
        true
    }

    open spec fn eq_spec(&self, other: &Cancel) -> bool {
        args_equiv(self.spec_args(), other.spec_args())
    }
}

/// The method `basic.cancel-ok`.
#[derive(Debug)]
pub struct CancelOk {
    pub consumer_tag: Shortstr,
}

impl Method for CancelOk {
    open spec fn spec_class_id() -> u16 {
        60
    }

    open spec fn spec_method_id() -> u16 {
        31
    }

    open spec fn spec_kinds() -> Seq<Kind> {
        seq![Kind::Shortstr]
    }

    open spec fn spec_names() -> Seq<Seq<char>> {
        seq!["consumer_tag"@]
    }

    open spec fn spec_args(&self) -> Seq<FieldView> {
        seq![FieldView::Shortstr(self.consumer_tag@)]
    }

    open spec fn spec_str_type(param: Seq<char>) -> Option<StrType> {
        if param == "consumer_tag"@ {
            Some(StrType::Short)
        } else {
            None
        }
    }

    proof fn lemma_kinds(&self) {
        assert(kinds_of(self.spec_args()) =~= Self::spec_kinds());
    }

    proof fn lemma_str_types() {
        reveal_strlit("consumer_tag");
    }

    fn class_id() -> (r: u16) {
        60
    }

    fn method_id() -> (r: u16) {
        31
    }

    fn str_type(param: &str) -> (r: Option<StrType>) {
        if str_eq(param, "consumer_tag") {
            Some(StrType::Short)
        } else {
            None
        }
    }

    fn kinds() -> (r: Vec<Kind>) {
        let mut r: Vec<Kind> = Vec::new();
        r.push(Kind::Shortstr);
        assert(r@ =~= Self::spec_kinds());
        r
    }

    fn args(&self) -> (r: Vec<Field>) {
        let mut r: Vec<Field> = Vec::new();
        r.push(Field::Shortstr(self.consumer_tag.clone()));
        assert(fields_view(r@) =~= self.spec_args());
        r
    }

    fn from_args(args: Vec<Field>) -> (r: Self) {
        let mut args = args;
        let ghost all = fields_view(args@);
        assert(kinds_of(all).len() == 1);
        assert(kinds_of(all)[0] == Kind::Shortstr);
        let consumer_tag = take_shortstr(&mut args);
        let r = CancelOk { consumer_tag };
        assert(r.spec_args() =~= all);
        r
    }
}

impl Default for CancelOk {
    fn default() -> (r: CancelOk)
        ensures
            r.consumer_tag@ == Seq::<char>::empty(),
    {
        CancelOk {
            consumer_tag: String::new(),
        }
    }
}

impl PartialEq for CancelOk {
    fn eq(&self, other: &CancelOk) -> (r: bool) {
        let ghost x = self.spec_args();
        let ghost y = other.spec_args();
        let e0 = str_eq(self.consumer_tag.as_str(), other.consumer_tag.as_str());
        assert(e0 == field_equiv(x[0], y[0]));
        e0
    }
}

impl PartialEqSpecImpl for CancelOk {
    open spec fn obeys_eq_spec() -> bool {
        true
    }

    open spec fn eq_spec(&self, other: &CancelOk) -> bool {
        args_equiv(self.spec_args(), other.spec_args())
    }
}

/// The method `basic.publish`.
#[derive(Debug)]
pub struct Publish {
    pub ticket: Short,
    pub exchange: Shortstr,
    pub routing_key: Shortstr,
    pub mandatory: Bit,
    pub immediate: Bit,
}

impl Method for Publish {
    open spec fn spec_class_id() -> u16 {
        60
    }

    open spec fn spec_method_id() -> u16 {
        40
    }

    open spec fn spec_kinds() -> Seq<Kind> {
        seq![Kind::Short, Kind::Shortstr, Kind::Shortstr, Kind::Bit, Kind::Bit]
    }

    open spec fn spec_names() -> Seq<Seq<char>> {
        seq!["ticket"@, "exchange"@, "routing_key"@, "mandatory"@, "immediate"@]
    }

    open spec fn spec_args(&self) -> Seq<FieldView> {
        seq![
            FieldView::Short(self.ticket),
            FieldView::Shortstr(self.exchange@),
            FieldView::Shortstr(self.routing_key@),
            FieldView::Bit(self.mandatory),
            FieldView::Bit(self.immediate),
        ]
    }

    open spec fn spec_str_type(param: Seq<char>) -> Option<StrType> {
        if param == "exchange"@ {
            Some(StrType::Short)
        } else if param == "routing_key"@ {
            Some(StrType::Short)
        } else {
            None
        }
    }

    proof fn lemma_kinds(&self) {
        assert(kinds_of(self.spec_args()) =~= Self::spec_kinds());
    }

    proof fn lemma_str_types() {
        reveal_strlit("ticket");
        reveal_strlit("exchange");
        reveal_strlit("routing_key");
        reveal_strlit("mandatory");
        reveal_strlit("immediate");
        assert("ticket"@.len() != "exchange"@.len());
        assert("ticket"@.len() != "routing_key"@.len());
        assert("exchange"@.len() != "routing_key"@.len());
        assert("mandatory"@.len() != "exchange"@.len());
        assert("mandatory"@.len() != "routing_key"@.len());
        assert("immediate"@.len() != "exchange"@.len());
        assert("immediate"@.len() != "routing_key"@.len());
    }

    fn class_id() -> (r: u16) {
        60
    }

    fn method_id() -> (r: u16) {
        40
    }

    fn str_type(param: &str) -> (r: Option<StrType>) {
        if str_eq(param, "exchange") {
            Some(StrType::Short)
        } else if str_eq(param, "routing_key") {
            Some(StrType::Short)
        } else {
            None
        }
    }

    fn kinds() -> (r: Vec<Kind>) {
        let mut r: Vec<Kind> = Vec::new();
        r.push(Kind::Short);
        r.push(Kind::Shortstr);
        r.push(Kind::Shortstr);
        r.push(Kind::Bit);
        r.push(Kind::Bit);
        assert(r@ =~= Self::spec_kinds());
        r
    }

    fn args(&self) -> (r: Vec<Field>) {
        let mut r: Vec<Field> = Vec::new();
        r.push(Field::Short(self.ticket));
        r.push(Field::Shortstr(self.exchange.clone()));
        r.push(Field::Shortstr(self.routing_key.clone()));
        r.push(Field::Bit(self.mandatory));
        r.push(Field::Bit(self.immediate));
        assert(fields_view(r@) =~= self.spec_args());
        r
    }

    fn from_args(args: Vec<Field>) -> (r: Self) {
        let mut args = args;
        let ghost all = fields_view(args@);
        assert(kinds_of(all).len() == 5);
        assert(kinds_of(all)[0] == Kind::Short);
        assert(kinds_of(all)[1] == Kind::Shortstr);
        assert(kinds_of(all)[2] == Kind::Shortstr);
        assert(kinds_of(all)[3] == Kind::Bit);
        assert(kinds_of(all)[4] == Kind::Bit);
        let immediate = take_bit(&mut args);
        let mandatory = take_bit(&mut args);
        let routing_key = take_shortstr(&mut args);
        let exchange = take_shortstr(&mut args);
        let ticket = take_short(&mut args);
        let r = Publish { ticket, exchange, routing_key, mandatory, immediate };
        assert(r.spec_args() =~= all);
        r
    }
}

impl Default for Publish {
    fn default() -> (r: Publish)
        ensures
            r.ticket == 0,
            r.exchange@ == Seq::<char>::empty(),
            r.routing_key@ == Seq::<char>::empty(),
            !r.mandatory,
            !r.immediate,
    {
        Publish {
            ticket: 0,
            exchange: String::new(),
            routing_key: String::new(),
            mandatory: false,
            immediate: false,
        }
    }
}

impl PartialEq for Publish {
    fn eq(&self, other: &Publish) -> (r: bool) {
        let ghost x = self.spec_args();
        let ghost y = other.spec_args();
        let e0 = self.ticket == other.ticket;
        assert(e0 == field_equiv(x[0], y[0]));
        let e1 = str_eq(self.exchange.as_str(), other.exchange.as_str());
        assert(e1 == field_equiv(x[1], y[1]));
        let e2 = str_eq(self.routing_key.as_str(), other.routing_key.as_str());
        assert(e2 == field_equiv(x[2], y[2]));
        let e3 = self.mandatory == other.mandatory;
        assert(e3 == field_equiv(x[3], y[3]));
        let e4 = self.immediate == other.immediate;
        assert(e4 == field_equiv(x[4], y[4]));
        e0 && e1 && e2 && e3 && e4
    }
}

impl PartialEqSpecImpl for Publish {
    open spec fn obeys_eq_spec() -> bool {
        true
    }

    open spec fn eq_spec(&self, other: &Publish) -> bool {
        args_equiv(self.spec_args(), other.spec_args())
    }
}

/// The method `basic.return`.
#[derive(Debug)]
pub struct Return {
    pub reply_code: Short,
    pub reply_text: Shortstr,
    pub exchange: Shortstr,
    pub routing_key: Shortstr,
}

impl Method for Return {
    open spec fn spec_class_id() -> u16 {
        60
    }

    open spec fn spec_method_id() -> u16 {
        50
    }

    open spec fn spec_kinds() -> Seq<Kind> {
        seq![Kind::Short, Kind::Shortstr, Kind::Shortstr, Kind::Shortstr]
    }

    open spec fn spec_names() -> Seq<Seq<char>> {
        seq!["reply_code"@, "reply_text"@, "exchange"@, "routing_key"@]
    }

    open spec fn spec_args(&self) -> Seq<FieldView> {
        seq![
            FieldView::Short(self.reply_code),
            FieldView::Shortstr(self.reply_text@),
            FieldView::Shortstr(self.exchange@),
            FieldView::Shortstr(self.routing_key@),
        ]
    }

    open spec fn spec_str_type(param: Seq<char>) -> Option<StrType> {
        if param == "reply_text"@ {
            Some(StrType::Short)
        } else if param == "exchange"@ {
            Some(StrType::Short)
        } else if param == "routing_key"@ {
            Some(StrType::Short)
        } else {
            None
        }
    }

    proof fn lemma_kinds(&self) {
        assert(kinds_of(self.spec_args()) =~= Self::spec_kinds());
    }

    proof fn lemma_str_types() {
        reveal_strlit("reply_code");
        reveal_strlit("reply_text");
        reveal_strlit("exchange");
        reveal_strlit("routing_key");
        assert("reply_code"@[6] != "reply_text"@[6]);
        assert("reply_code"@.len() != "exchange"@.len());
        assert("reply_code"@.len() != "routing_key"@.len());
        assert("reply_text"@.len() != "exchange"@.len());
        assert("reply_text"@.len() != "routing_key"@.len());
        assert("exchange"@.len() != "routing_key"@.len());
    }

    fn class_id() -> (r: u16) {
        60
    }

    fn method_id() -> (r: u16) {
        50
    }

    fn str_type(param: &str) -> (r: Option<StrType>) {
        if str_eq(param, "reply_text") {
            Some(StrType::Short)
        } else if str_eq(param, "exchange") {
            Some(StrType::Short)
        } else if str_eq(param, "routing_key") {
            Some(StrType::Short)
        } else {
            None
        }
    }

    fn kinds() -> (r: Vec<Kind>) {
        let mut r: Vec<Kind> = Vec::new();
        r.push(Kind::Short);
        r.push(Kind::Shortstr);
        r.push(Kind::Shortstr);
        r.push(Kind::Shortstr);
        assert(r@ =~= Self::spec_kinds());
        r
    }

    fn args(&self) -> (r: Vec<Field>) {
        let mut r: Vec<Field> = Vec::new();
        r.push(Field::Short(self.reply_code));
        r.push(Field::Shortstr(self.reply_text.clone()));
        r.push(Field::Shortstr(self.exchange.clone()));
        r.push(Field::Shortstr(self.routing_key.clone()));
        assert(fields_view(r@) =~= self.spec_args());
        r
    }

    fn from_args(args: Vec<Field>) -> (r: Self) {
        let mut args = args;
        let ghost all = fields_view(args@);
        assert(kinds_of(all).len() == 4);
        assert(kinds_of(all)[0] == Kind::Short);
        assert(kinds_of(all)[1] == Kind::Shortstr);
        assert(kinds_of(all)[2] == Kind::Shortstr);
        assert(kinds_of(all)[3] == Kind::Shortstr);
        let routing_key = take_shortstr(&mut args);
        let exchange = take_shortstr(&mut args);
        let reply_text = take_shortstr(&mut args);
        let reply_code = take_short(&mut args);
        let r = Return { reply_code, reply_text, exchange, routing_key };
        assert(r.spec_args() =~= all);
        r
    }
}

impl Default for Return {
    fn default() -> (r: Return)
        ensures
            r.reply_code == 0,
            r.reply_text@ == Seq::<char>::empty(),
            r.exchange@ == Seq::<char>::empty(),
            r.routing_key@ == Seq::<char>::empty(),
    {
        Return {
            reply_code: 0,
            reply_text: String::new(),
            exchange: String::new(),
            routing_key: String::new(),
        }
    }
}

impl PartialEq for Return {
    fn eq(&self, other: &Return) -> (r: bool) {
        let ghost x = self.spec_args();
        let ghost y = other.spec_args();
        let e0 = self.reply_code == other.reply_code;
        assert(e0 == field_equiv(x[0], y[0]));
        let e1 = str_eq(self.reply_text.as_str(), other.reply_text.as_str());
        assert(e1 == field_equiv(x[1], y[1]));
        let e2 = str_eq(self.exchange.as_str(), other.exchange.as_str());
        assert(e2 == field_equiv(x[2], y[2]));
        let e3 = str_eq(self.routing_key.as_str(), other.routing_key.as_str());
        assert(e3 == field_equiv(x[3], y[3]));
        e0 && e1 && e2 && e3
    }
}

impl PartialEqSpecImpl for Return {
    open spec fn obeys_eq_spec() -> bool {
        true
    }

    open spec fn eq_spec(&self, other: &Return) -> bool {
        args_equiv(self.spec_args(), other.spec_args())
    }
}

/// The method `basic.deliver`.
#[derive(Debug)]
pub struct Deliver {
    pub consumer_tag: Shortstr,
    pub delivery_tag: Longlong,
    pub redelivered: Bit,
    pub exchange: Shortstr,
    pub routing_key: Shortstr,
}

impl Method for Deliver {
    open spec fn spec_class_id() -> u16 {
        60
    }

    open spec fn spec_method_id() -> u16 {
        60
    }

    open spec fn spec_kinds() -> Seq<Kind> {
        seq![Kind::Shortstr, Kind::Longlong, Kind::Bit, Kind::Shortstr, Kind::Shortstr]
    }

    open spec fn spec_names() -> Seq<Seq<char>> {
        seq!["consumer_tag"@, "delivery_tag"@, "redelivered"@, "exchange"@, "routing_key"@]
    }

    open spec fn spec_args(&self) -> Seq<FieldView> {
        seq![
            FieldView::Shortstr(self.consumer_tag@),
            FieldView::Longlong(self.delivery_tag),
            FieldView::Bit(self.redelivered),
            FieldView::Shortstr(self.exchange@),
            FieldView::Shortstr(self.routing_key@),
        ]
    }

    open spec fn spec_str_type(param: Seq<char>) -> Option<StrType> {
        if param == "consumer_tag"@ {
            Some(StrType::Short)
        } else if param == "exchange"@ {
            Some(StrType::Short)
        } else if param == "routing_key"@ {
            Some(StrType::Short)
        } else {
            None
        }
    }

    proof fn lemma_kinds(&self) {
        assert(kinds_of(self.spec_args()) =~= Self::spec_kinds());
    }

    proof fn lemma_str_types() {
        reveal_strlit("consumer_tag");
        reveal_strlit("delivery_tag");
        reveal_strlit("redelivered");
        reveal_strlit("exchange");
        reveal_strlit("routing_key");
        assert("consumer_tag"@.len() != "exchange"@.len());
        assert("consumer_tag"@.len() != "routing_key"@.len());
        assert("delivery_tag"@[0] != "consumer_tag"@[0]);
        assert("delivery_tag"@.len() != "exchange"@.len());
        assert("delivery_tag"@.len() != "routing_key"@.len());
        assert("redelivered"@.len() != "consumer_tag"@.len());
        assert("redelivered"@.len() != "exchange"@.len());
        assert("redelivered"@[1] != "routing_key"@[1]);
        assert("exchange"@.len() != "routing_key"@.len());
    }

    fn class_id() -> (r: u16) {
        60
    }

    fn method_id() -> (r: u16) {
        60
    }

    fn str_type(param: &str) -> (r: Option<StrType>) {
        if str_eq(param, "consumer_tag") {
            Some(StrType::Short)
        } else if str_eq(param, "exchange") {
            Some(StrType::Short)
        } else if str_eq(param, "routing_key") {
            Some(StrType::Short)
        } else {
            None
        }
    }

    fn kinds() -> (r: Vec<Kind>) {
        let mut r: Vec<Kind> = Vec::new();
        r.push(Kind::Shortstr);
        r.push(Kind::Longlong);
        r.push(Kind::Bit);
        r.push(Kind::Shortstr);
        r.push(Kind::Shortstr);
        assert(r@ =~= Self::spec_kinds());
        r
    }

    fn args(&self) -> (r: Vec<Field>) {
        let mut r: Vec<Field> = Vec::new();
        r.push(Field::Shortstr(self.consumer_tag.clone()));
        r.push(Field::Longlong(self.delivery_tag));
        r.push(Field::Bit(self.redelivered));
        r.push(Field::Shortstr(self.exchange.clone()));
        r.push(Field::Shortstr(self.routing_key.clone()));
        assert(fields_view(r@) =~= self.spec_args());
        r
    }

    fn from_args(args: Vec<Field>) -> (r: Self) {
        let mut args = args;
        let ghost all = fields_view(args@);
        assert(kinds_of(all).len() == 5);
        assert(kinds_of(all)[0] == Kind::Shortstr);
        assert(kinds_of(all)[1] == Kind::Longlong);
        assert(kinds_of(all)[2] == Kind::Bit);
        assert(kinds_of(all)[3] == Kind::Shortstr);
        assert(kinds_of(all)[4] == Kind::Shortstr);
        let routing_key = take_shortstr(&mut args);
        let exchange = take_shortstr(&mut args);
        let redelivered = take_bit(&mut args);
        let delivery_tag = take_longlong(&mut args);
        let consumer_tag = take_shortstr(&mut args);
        let r = Deliver { consumer_tag, delivery_tag, redelivered, exchange, routing_key };
        assert(r.spec_args() =~= all);
        r
    }
}

impl Default for Deliver {
    fn default() -> (r: Deliver)
        ensures
            r.consumer_tag@ == Seq::<char>::empty(),
            r.delivery_tag == 0,
            !r.redelivered,
            r.exchange@ == Seq::<char>::empty(),
            r.routing_key@ == Seq::<char>::empty(),
    {
        Deliver {
            consumer_tag: String::new(),
            delivery_tag: 0,
            redelivered: false,
            exchange: String::new(),
            routing_key: String::new(),
        }
    }
}

impl PartialEq for Deliver {
    fn eq(&self, other: &Deliver) -> (r: bool) {
        let ghost x = self.spec_args();
        let ghost y = other.spec_args();
        let e0 = str_eq(self.consumer_tag.as_str(), other.consumer_tag.as_str());
        assert(e0 == field_equiv(x[0], y[0]));
        let e1 = self.delivery_tag == other.delivery_tag;
        assert(e1 == field_equiv(x[1], y[1]));
        let e2 = self.redelivered == other.redelivered;
        assert(e2 == field_equiv(x[2], y[2]));
        let e3 = str_eq(self.exchange.as_str(), other.exchange.as_str());
        assert(e3 == field_equiv(x[3], y[3]));
        let e4 = str_eq(self.routing_key.as_str(), other.routing_key.as_str());
        assert(e4 == field_equiv(x[4], y[4]));
        e0 && e1 && e2 && e3 && e4
    }
}

impl PartialEqSpecImpl for Deliver {
    open spec fn obeys_eq_spec() -> bool {
        true
    }

    open spec fn eq_spec(&self, other: &Deliver) -> bool {
        args_equiv(self.spec_args(), other.spec_args())
    }
}

/// The method `basic.get`.
#[derive(Debug)]
pub struct Get {
    pub ticket: Short,
    pub queue: Shortstr,
    pub no_ack: Bit,
}

impl Method for Get {
    open spec fn spec_class_id() -> u16 {
        60
    }

    open spec fn spec_method_id() -> u16 {
        70
    }

    open spec fn spec_kinds() -> Seq<Kind> {
        seq![Kind::Short, Kind::Shortstr, Kind::Bit]
    }

    open spec fn spec_names() -> Seq<Seq<char>> {
        seq!["ticket"@, "queue"@, "no_ack"@]
    }

    open spec fn spec_args(&self) -> Seq<FieldView> {
        seq![
            FieldView::Short(self.ticket),
            FieldView::Shortstr(self.queue@),
            FieldView::Bit(self.no_ack),
        ]
    }

    open spec fn spec_str_type(param: Seq<char>) -> Option<StrType> {
        if param == "queue"@ {
            Some(StrType::Short)
        } else {
            None
        }
    }

    proof fn lemma_kinds(&self) {
        assert(kinds_of(self.spec_args()) =~= Self::spec_kinds());
    }

    proof fn lemma_str_types() {
        reveal_strlit("ticket");
        reveal_strlit("queue");
        reveal_strlit("no_ack");
        assert("ticket"@.len() != "queue"@.len());
        assert("no_ack"@.len() != "queue"@.len());
    }

    fn class_id() -> (r: u16) {
        60
    }

    fn method_id() -> (r: u16) {
        70
    }

    fn str_type(param: &str) -> (r: Option<StrType>) {
        if str_eq(param, "queue") {
            Some(StrType::Short)
        } else {
            None
        }
    }

    fn kinds() -> (r: Vec<Kind>) {
        let mut r: Vec<Kind> = Vec::new();
        r.push(Kind::Short);
        r.push(Kind::Shortstr);
        r.push(Kind::Bit);
        assert(r@ =~= Self::spec_kinds());
        r
    }

    fn args(&self) -> (r: Vec<Field>) {
        let mut r: Vec<Field> = Vec::new();
        r.push(Field::Short(self.ticket));
        r.push(Field::Shortstr(self.queue.clone()));
        r.push(Field::Bit(self.no_ack));
        assert(fields_view(r@) =~= self.spec_args());
        r
    }

    fn from_args(args: Vec<Field>) -> (r: Self) {
        let mut args = args;
        let ghost all = fields_view(args@);
        assert(kinds_of(all).len() == 3);
        assert(kinds_of(all)[0] == Kind::Short);
        assert(kinds_of(all)[1] == Kind::Shortstr);
        assert(kinds_of(all)[2] == Kind::Bit);
        let no_ack = take_bit(&mut args);
        let queue = take_shortstr(&mut args);
        let ticket = take_short(&mut args);
        let r = Get { ticket, queue, no_ack };
        assert(r.spec_args() =~= all);
        r
    }
}

impl Default for Get {
    fn default() -> (r: Get)
        ensures
            r.ticket == 0,
            r.queue@ == Seq::<char>::empty(),
            !r.no_ack,
    {
        Get {
            ticket: 0,
            queue: String::new(),
            no_ack: false,
        }
    }
}

impl PartialEq for Get {
    fn eq(&self, other: &Get) -> (r: bool) {
        let ghost x = self.spec_args();
        let ghost y = other.spec_args();
        let e0 = self.ticket == other.ticket;
        assert(e0 == field_equiv(x[0], y[0]));
        let e1 = str_eq(self.queue.as_str(), other.queue.as_str());
        assert(e1 == field_equiv(x[1], y[1]));
        let e2 = self.no_ack == other.no_ack;
        assert(e2 == field_equiv(x[2], y[2]));
        e0 && e1 && e2
    }
}

impl PartialEqSpecImpl for Get {
    open spec fn obeys_eq_spec() -> bool {
        true
    }

    open spec fn eq_spec(&self, other: &Get) -> bool {
        args_equiv(self.spec_args(), other.spec_args())
    }
}

/// The method `basic.get-ok`.
#[derive(Debug)]
pub struct GetOk {
    pub delivery_tag: Longlong,
    pub redelivered: Bit,
    pub exchange: Shortstr,
    pub routing_key: Shortstr,
    pub message_count: Long,
}

impl Method for GetOk {
    open spec fn spec_class_id() -> u16 {
        60
    }

    open spec fn spec_method_id() -> u16 {
        71
    }

    open spec fn spec_kinds() -> Seq<Kind> {
        seq![Kind::Longlong, Kind::Bit, Kind::Shortstr, Kind::Shortstr, Kind::Long]
    }

    open spec fn spec_names() -> Seq<Seq<char>> {
        seq!["delivery_tag"@, "redelivered"@, "exchange"@, "routing_key"@, "message_count"@]
    }

    open spec fn spec_args(&self) -> Seq<FieldView> {
        seq![
            FieldView::Longlong(self.delivery_tag),
            FieldView::Bit(self.redelivered),
            FieldView::Shortstr(self.exchange@),
            FieldView::Shortstr(self.routing_key@),
            FieldView::Long(self.message_count),
        ]
    }

    open spec fn spec_str_type(param: Seq<char>) -> Option<StrType> {
        if param == "exchange"@ {
            Some(StrType::Short)
        } else if param == "routing_key"@ {
            Some(StrType::Short)
        } else {
            None
        }
    }

    proof fn lemma_kinds(&self) {
        assert(kinds_of(self.spec_args()) =~= Self::spec_kinds());
    }

    proof fn lemma_str_types() {
        reveal_strlit("delivery_tag");
        reveal_strlit("redelivered");
        reveal_strlit("exchange");
        reveal_strlit("routing_key");
        reveal_strlit("message_count");
        assert("delivery_tag"@.len() != "exchange"@.len());
        assert("delivery_tag"@.len() != "routing_key"@.len());
        assert("redelivered"@.len() != "exchange"@.len());
        assert("redelivered"@[1] != "routing_key"@[1]);
        assert("exchange"@.len() != "routing_key"@.len());
        assert("message_count"@.len() != "exchange"@.len());
        assert("message_count"@.len() != "routing_key"@.len());
    }

    fn class_id() -> (r: u16) {
        60
    }

    fn method_id() -> (r: u16) {
        71
    }

    fn str_type(param: &str) -> (r: Option<StrType>) {
        if str_eq(param, "exchange") {
            Some(StrType::Short)
        } else if str_eq(param, "routing_key") {
            Some(StrType::Short)
        } else {
            None
        }
    }

    fn kinds() -> (r: Vec<Kind>) {
        let mut r: Vec<Kind> = Vec::new();
        r.push(Kind::Longlong);
        r.push(Kind::Bit);
        r.push(Kind::Shortstr);
        r.push(Kind::Shortstr);
        r.push(Kind::Long);
        assert(r@ =~= Self::spec_kinds());
        r
    }

    fn args(&self) -> (r: Vec<Field>) {
        let mut r: Vec<Field> = Vec::new();
        r.push(Field::Longlong(self.delivery_tag));
        r.push(Field::Bit(self.redelivered));
        r.push(Field::Shortstr(self.exchange.clone()));
        r.push(Field::Shortstr(self.routing_key.clone()));
        r.push(Field::Long(self.message_count));
        assert(fields_view(r@) =~= self.spec_args());
        r
    }

    fn from_args(args: Vec<Field>) -> (r: Self) {
        let mut args = args;
        let ghost all = fields_view(args@);
        assert(kinds_of(all).len() == 5);
        assert(kinds_of(all)[0] == Kind::Longlong);
        assert(kinds_of(all)[1] == Kind::Bit);
        assert(kinds_of(all)[2] == Kind::Shortstr);
        assert(kinds_of(all)[3] == Kind::Shortstr);
        assert(kinds_of(all)[4] == Kind::Long);
        let message_count = take_long(&mut args);
        let routing_key = take_shortstr(&mut args);
        let exchange = take_shortstr(&mut args);
        let redelivered = take_bit(&mut args);
        let delivery_tag = take_longlong(&mut args);
        let r = GetOk { delivery_tag, redelivered, exchange, routing_key, message_count };
        assert(r.spec_args() =~= all);
        r
    }
}

impl Default for GetOk {
    fn default() -> (r: GetOk)
        ensures
            r.delivery_tag == 0,
            !r.redelivered,
            r.exchange@ == Seq::<char>::empty(),
            r.routing_key@ == Seq::<char>::empty(),
            r.message_count == 0,
    {
        GetOk {
            delivery_tag: 0,
            redelivered: false,
            exchange: String::new(),
            routing_key: String::new(),
            message_count: 0,
        }
    }
}

impl PartialEq for GetOk {
    fn eq(&self, other: &GetOk) -> (r: bool) {
        let ghost x = self.spec_args();
        let ghost y = other.spec_args();
        let e0 = self.delivery_tag == other.delivery_tag;
        assert(e0 == field_equiv(x[0], y[0]));
        let e1 = self.redelivered == other.redelivered;
        assert(e1 == field_equiv(x[1], y[1]));
        let e2 = str_eq(self.exchange.as_str(), other.exchange.as_str());
        assert(e2 == field_equiv(x[2], y[2]));
        let e3 = str_eq(self.routing_key.as_str(), other.routing_key.as_str());
        assert(e3 == field_equiv(x[3], y[3]));
        let e4 = self.message_count == other.message_count;
        assert(e4 == field_equiv(x[4], y[4]));
        e0 && e1 && e2 && e3 && e4
    }
}

impl PartialEqSpecImpl for GetOk {
    open spec fn obeys_eq_spec() -> bool {
        true
    }

    open spec fn eq_spec(&self, other: &GetOk) -> bool {
        args_equiv(self.spec_args(), other.spec_args())
    }
}

/// The method `basic.get-empty`.
#[derive(Debug)]
pub struct GetEmpty {
    pub cluster_id: Shortstr,
}

impl Method for GetEmpty {
    open spec fn spec_class_id() -> u16 {
        60
    }

    open spec fn spec_method_id() -> u16 {
        72
    }

    open spec fn spec_kinds() -> Seq<Kind> {
        seq![Kind::Shortstr]
    }

    open spec fn spec_names() -> Seq<Seq<char>> {
        seq!["cluster_id"@]
    }

    open spec fn spec_args(&self) -> Seq<FieldView> {
        seq![FieldView::Shortstr(self.cluster_id@)]
    }

    open spec fn spec_str_type(param: Seq<char>) -> Option<StrType> {
        if param == "cluster_id"@ {
            Some(StrType::Short)
        } else {
            None
        }
    }

    proof fn lemma_kinds(&self) {
        assert(kinds_of(self.spec_args()) =~= Self::spec_kinds());
    }

    proof fn lemma_str_types() {
        reveal_strlit("cluster_id");
    }

    fn class_id() -> (r: u16) {
        60
    }

    fn method_id() -> (r: u16) {
        72
    }

    fn str_type(param: &str) -> (r: Option<StrType>) {
        if str_eq(param, "cluster_id") {
            Some(StrType::Short)
        } else {
            None
        }
    }

    fn kinds() -> (r: Vec<Kind>) {
        let mut r: Vec<Kind> = Vec::new();
        r.push(Kind::Shortstr);
        assert(r@ =~= Self::spec_kinds());
        r
    }

    fn args(&self) -> (r: Vec<Field>) {
        let mut r: Vec<Field> = Vec::new();
        r.push(Field::Shortstr(self.cluster_id.clone()));
        assert(fields_view(r@) =~= self.spec_args());
        r
    }

    fn from_args(args: Vec<Field>) -> (r: Self) {
        let mut args = args;
        let ghost all = fields_view(args@);
        assert(kinds_of(all).len() == 1);
        assert(kinds_of(all)[0] == Kind::Shortstr);
        let cluster_id = take_shortstr(&mut args);
        let r = GetEmpty { cluster_id };
        assert(r.spec_args() =~= all);
        r
    }
}

impl Default for GetEmpty {
    fn default() -> (r: GetEmpty)
        ensures
            r.cluster_id@ == Seq::<char>::empty(),
    {
        GetEmpty {
            cluster_id: String::new(),
        }
    }
}

impl PartialEq for GetEmpty {
    fn eq(&self, other: &GetEmpty) -> (r: bool) {
        let ghost x = self.spec_args();
        let ghost y = other.spec_args();
        let e0 = str_eq(self.cluster_id.as_str(), other.cluster_id.as_str());
        assert(e0 == field_equiv(x[0], y[0]));
        e0
    }
}

impl PartialEqSpecImpl for GetEmpty {
    open spec fn obeys_eq_spec() -> bool {
        true
    }

    open spec fn eq_spec(&self, other: &GetEmpty) -> bool {
        args_equiv(self.spec_args(), other.spec_args())
    }
}

/// The method `basic.ack`.
#[derive(Debug)]
pub struct Ack {
    pub delivery_tag: Longlong,
    pub multiple: Bit,
}

impl Method for Ack {
    open spec fn spec_class_id() -> u16 {
        60
    }

    open spec fn spec_method_id() -> u16 {
        80
    }

    open spec fn spec_kinds() -> Seq<Kind> {
        seq![Kind::Longlong, Kind::Bit]
    }

    open spec fn spec_names() -> Seq<Seq<char>> {
        seq!["delivery_tag"@, "multiple"@]
    }

    open spec fn spec_args(&self) -> Seq<FieldView> {
        seq![FieldView::Longlong(self.delivery_tag), FieldView::Bit(self.multiple)]
    }

    open spec fn spec_str_type(param: Seq<char>) -> Option<StrType> {
        None
    }

    proof fn lemma_kinds(&self) {
        assert(kinds_of(self.spec_args()) =~= Self::spec_kinds());
    }

    proof fn lemma_str_types() {
    }

    fn class_id() -> (r: u16) {
        60
    }

    fn method_id() -> (r: u16) {
        80
    }

    #[allow(unused_variables)]
    fn str_type(param: &str) -> (r: Option<StrType>) {
        None
    }

    fn kinds() -> (r: Vec<Kind>) {
        let mut r: Vec<Kind> = Vec::new();
        r.push(Kind::Longlong);
        r.push(Kind::Bit);
        assert(r@ =~= Self::spec_kinds());
        r
    }

    fn args(&self) -> (r: Vec<Field>) {
        let mut r: Vec<Field> = Vec::new();
        r.push(Field::Longlong(self.delivery_tag));
        r.push(Field::Bit(self.multiple));
        assert(fields_view(r@) =~= self.spec_args());
        r
    }

    fn from_args(args: Vec<Field>) -> (r: Self) {
        let mut args = args;
        let ghost all = fields_view(args@);
        assert(kinds_of(all).len() == 2);
        assert(kinds_of(all)[0] == Kind::Longlong);
        assert(kinds_of(all)[1] == Kind::Bit);
        let multiple = take_bit(&mut args);
        let delivery_tag = take_longlong(&mut args);
        let r = Ack { delivery_tag, multiple };
        assert(r.spec_args() =~= all);
        r
    }
}

impl Default for Ack {
    fn default() -> (r: Ack)
        ensures
            r.delivery_tag == 0,
            !r.multiple,
    {
        Ack {
            delivery_tag: 0,
            multiple: false,
        }
    }
}

impl PartialEq for Ack {
    fn eq(&self, other: &Ack) -> (r: bool) {
        let ghost x = self.spec_args();
        let ghost y = other.spec_args();
        let e0 = self.delivery_tag == other.delivery_tag;
        assert(e0 == field_equiv(x[0], y[0]));
        let e1 = self.multiple == other.multiple;
        assert(e1 == field_equiv(x[1], y[1]));
        e0 && e1
    }
}

impl PartialEqSpecImpl for Ack {
    open spec fn obeys_eq_spec() -> bool {
        true
    }

    open spec fn eq_spec(&self, other: &Ack) -> bool {
        args_equiv(self.spec_args(), other.spec_args())
    }
}

/// The method `basic.reject`.
#[derive(Debug)]
pub struct Reject {
    pub delivery_tag: Longlong,
    pub requeue: Bit,
}

impl Method for Reject {
    open spec fn spec_class_id() -> u16 {
        60
    }

    open spec fn spec_method_id() -> u16 {
        90
    }

    open spec fn spec_kinds() -> Seq<Kind> {
        seq![Kind::Longlong, Kind::Bit]
    }

    open spec fn spec_names() -> Seq<Seq<char>> {
        seq!["delivery_tag"@, "requeue"@]
    }

    open spec fn spec_args(&self) -> Seq<FieldView> {
        seq![FieldView::Longlong(self.delivery_tag), FieldView::Bit(self.requeue)]
    }

    open spec fn spec_str_type(param: Seq<char>) -> Option<StrType> {
        None
    }

    proof fn lemma_kinds(&self) {
        assert(kinds_of(self.spec_args()) =~= Self::spec_kinds());
    }

    proof fn lemma_str_types() {
    }

    fn class_id() -> (r: u16) {
        60
    }

    fn method_id() -> (r: u16) {
        90
    }

    #[allow(unused_variables)]
    fn str_type(param: &str) -> (r: Option<StrType>) {
        None
    }

    fn kinds() -> (r: Vec<Kind>) {
        let mut r: Vec<Kind> = Vec::new();
        r.push(Kind::Longlong);
        r.push(Kind::Bit);
        assert(r@ =~= Self::spec_kinds());
        r
    }

    fn args(&self) -> (r: Vec<Field>) {
        let mut r: Vec<Field> = Vec::new();
        r.push(Field::Longlong(self.delivery_tag));
        r.push(Field::Bit(self.requeue));
        assert(fields_view(r@) =~= self.spec_args());
        r
    }

    fn from_args(args: Vec<Field>) -> (r: Self) {
        let mut args = args;
        let ghost all = fields_view(args@);
        assert(kinds_of(all).len() == 2);
        assert(kinds_of(all)[0] == Kind::Longlong);
        assert(kinds_of(all)[1] == Kind::Bit);
        let requeue = take_bit(&mut args);
        let delivery_tag = take_longlong(&mut args);
        let r = Reject { delivery_tag, requeue };
        assert(r.spec_args() =~= all);
        r
    }
}

impl Default for Reject {
    fn default() -> (r: Reject)
        ensures
            r.delivery_tag == 0,
            r.requeue,
    {
        Reject {
            delivery_tag: 0,
            requeue: true,
        }
    }
}

impl PartialEq for Reject {
    fn eq(&self, other: &Reject) -> (r: bool) {
        let ghost x = self.spec_args();
        let ghost y = other.spec_args();
        let e0 = self.delivery_tag == other.delivery_tag;
        assert(e0 == field_equiv(x[0], y[0]));
        let e1 = self.requeue == other.requeue;
        assert(e1 == field_equiv(x[1], y[1]));
        e0 && e1
    }
}

impl PartialEqSpecImpl for Reject {
    open spec fn obeys_eq_spec() -> bool {
        true
    }

    open spec fn eq_spec(&self, other: &Reject) -> bool {
        args_equiv(self.spec_args(), other.spec_args())
    }
}

/// The method `basic.recover-async`.
#[derive(Debug)]
pub struct RecoverAsync {
    pub requeue: Bit,
}

impl Method for RecoverAsync {
    open spec fn spec_class_id() -> u16 {
        60
    }

    open spec fn spec_method_id() -> u16 {
        100
    }

    open spec fn spec_kinds() -> Seq<Kind> {
        seq![Kind::Bit]
    }

    open spec fn spec_names() -> Seq<Seq<char>> {
        seq!["requeue"@]
    }

    open spec fn spec_args(&self) -> Seq<FieldView> {
        seq![FieldView::Bit(self.requeue)]
    }

    open spec fn spec_str_type(param: Seq<char>) -> Option<StrType> {
        None
    }

    proof fn lemma_kinds(&self) {
        assert(kinds_of(self.spec_args()) =~= Self::spec_kinds());
    }

    proof fn lemma_str_types() {
    }

    fn class_id() -> (r: u16) {
        60
    }

    fn method_id() -> (r: u16) {
        100
    }

    #[allow(unused_variables)]
    fn str_type(param: &str) -> (r: Option<StrType>) {
        None
    }

    fn kinds() -> (r: Vec<Kind>) {
        let mut r: Vec<Kind> = Vec::new();
        r.push(Kind::Bit);
        assert(r@ =~= Self::spec_kinds());
        r
    }

    fn args(&self) -> (r: Vec<Field>) {
        let mut r: Vec<Field> = Vec::new();
        r.push(Field::Bit(self.requeue));
        assert(fields_view(r@) =~= self.spec_args());
        r
    }

    fn from_args(args: Vec<Field>) -> (r: Self) {
        let mut args = args;
        let ghost all = fields_view(args@);
        assert(kinds_of(all).len() == 1);
        assert(kinds_of(all)[0] == Kind::Bit);
        let requeue = take_bit(&mut args);
        let r = RecoverAsync { requeue };
        assert(r.spec_args() =~= all);
        r
    }
}

impl Default for RecoverAsync {
    fn default() -> (r: RecoverAsync)
        ensures
            !r.requeue,
    {
        RecoverAsync {
            requeue: false,
        }
    }
}

impl PartialEq for RecoverAsync {
    fn eq(&self, other: &RecoverAsync) -> (r: bool) {
        let ghost x = self.spec_args();
        let ghost y = other.spec_args();
        let e0 = self.requeue == other.requeue;
        assert(e0 == field_equiv(x[0], y[0]));
        e0
    }
}

impl PartialEqSpecImpl for RecoverAsync {
    open spec fn obeys_eq_spec() -> bool {
        true
    }

    open spec fn eq_spec(&self, other: &RecoverAsync) -> bool {
        args_equiv(self.spec_args(), other.spec_args())
    }
}

/// The method `basic.recover`.
#[derive(Debug)]
pub struct Recover {
    pub requeue: Bit,
}

impl Method for Recover {
    open spec fn spec_class_id() -> u16 {
        60
    }

    open spec fn spec_method_id() -> u16 {
        110
    }

    open spec fn spec_kinds() -> Seq<Kind> {
        seq![Kind::Bit]
    }

    open spec fn spec_names() -> Seq<Seq<char>> {
        seq!["requeue"@]
    }

    open spec fn spec_args(&self) -> Seq<FieldView> {
        seq![FieldView::Bit(self.requeue)]
    }

    open spec fn spec_str_type(param: Seq<char>) -> Option<StrType> {
        None
    }

    proof fn lemma_kinds(&self) {
        assert(kinds_of(self.spec_args()) =~= Self::spec_kinds());
    }

    proof fn lemma_str_types() {
    }

    fn class_id() -> (r: u16) {
        60
    }

    fn method_id() -> (r: u16) {
        110
    }

    #[allow(unused_variables)]
    fn str_type(param: &str) -> (r: Option<StrType>) {
        None
    }

    fn kinds() -> (r: Vec<Kind>) {
        let mut r: Vec<Kind> = Vec::new();
        r.push(Kind::Bit);
        assert(r@ =~= Self::spec_kinds());
        r
    }

    fn args(&self) -> (r: Vec<Field>) {
        let mut r: Vec<Field> = Vec::new();
        r.push(Field::Bit(self.requeue));
        assert(fields_view(r@) =~= self.spec_args());
        r
    }

    fn from_args(args: Vec<Field>) -> (r: Self) {
        let mut args = args;
        let ghost all = fields_view(args@);
        assert(kinds_of(all).len() == 1);
        assert(kinds_of(all)[0] == Kind::Bit);
        let requeue = take_bit(&mut args);
        let r = Recover { requeue };
        assert(r.spec_args() =~= all);
        r
    }
}

impl Default for Recover {
    fn default() -> (r: Recover)
        ensures
            !r.requeue,
    {
        Recover {
            requeue: false,
        }
    }
}

impl PartialEq for Recover {
    fn eq(&self, other: &Recover) -> (r: bool) {
        let ghost x = self.spec_args();
        let ghost y = other.spec_args();
        let e0 = self.requeue == other.requeue;
        assert(e0 == field_equiv(x[0], y[0]));
        e0
    }
}

impl PartialEqSpecImpl for Recover {
    open spec fn obeys_eq_spec() -> bool {
        true
    }

    open spec fn eq_spec(&self, other: &Recover) -> bool {
        args_equiv(self.spec_args(), other.spec_args())
    }
}

/// The method `basic.recover-ok`.
#[derive(Debug)]
pub struct RecoverOk {}

impl Method for RecoverOk {
    open spec fn spec_class_id() -> u16 {
        60
    }

    open spec fn spec_method_id() -> u16 {
        111
    }

    open spec fn spec_kinds() -> Seq<Kind> {
        Seq::empty()
    }

    open spec fn spec_names() -> Seq<Seq<char>> {
        Seq::empty()
    }

    open spec fn spec_args(&self) -> Seq<FieldView> {
        Seq::empty()
    }

    open spec fn spec_str_type(param: Seq<char>) -> Option<StrType> {
        None
    }

    proof fn lemma_kinds(&self) {
        assert(kinds_of(self.spec_args()) =~= Self::spec_kinds());
    }

    proof fn lemma_str_types() {
    }

    fn class_id() -> (r: u16) {
        60
    }

    fn method_id() -> (r: u16) {
        111
    }

    #[allow(unused_variables)]
    fn str_type(param: &str) -> (r: Option<StrType>) {
        None
    }

    fn kinds() -> (r: Vec<Kind>) {
        Vec::new()
    }

    fn args(&self) -> (r: Vec<Field>) {
        let r: Vec<Field> = Vec::new();
        assert(fields_view(r@) =~= self.spec_args());
        r
    }

    fn from_args(args: Vec<Field>) -> (r: Self) {
        let r = RecoverOk {};
        assert(kinds_of(fields_view(args@)).len() == 0);
        assert(r.spec_args() =~= fields_view(args@));
        r
    }
}

impl Default for RecoverOk {
    fn default() -> (r: RecoverOk)
    {
        RecoverOk {}
    }
}

impl PartialEq for RecoverOk {
    #[allow(unused_variables)]
    fn eq(&self, other: &RecoverOk) -> (r: bool) {
        true
    }
}

impl PartialEqSpecImpl for RecoverOk {
    open spec fn obeys_eq_spec() -> bool {
        true
    }

    open spec fn eq_spec(&self, other: &RecoverOk) -> bool {
        args_equiv(self.spec_args(), other.spec_args())
    }
}

/// The method `basic.nack`.
#[derive(Debug)]
pub struct Nack {
    pub delivery_tag: Longlong,
    pub multiple: Bit,
    pub requeue: Bit,
}

impl Method for Nack {
    open spec fn spec_class_id() -> u16 {
        60
    }

    open spec fn spec_method_id() -> u16 {
        120
    }

    open spec fn spec_kinds() -> Seq<Kind> {
        seq![Kind::Longlong, Kind::Bit, Kind::Bit]
    }

    open spec fn spec_names() -> Seq<Seq<char>> {
        seq!["delivery_tag"@, "multiple"@, "requeue"@]
    }

    open spec fn spec_args(&self) -> Seq<FieldView> {
        seq![
            FieldView::Longlong(self.delivery_tag),
            FieldView::Bit(self.multiple),
            FieldView::Bit(self.requeue),
        ]
    }

    open spec fn spec_str_type(param: Seq<char>) -> Option<StrType> {
        None
    }

    proof fn lemma_kinds(&self) {
        assert(kinds_of(self.spec_args()) =~= Self::spec_kinds());
    }

    proof fn lemma_str_types() {
    }

    fn class_id() -> (r: u16) {
        60
    }

    fn method_id() -> (r: u16) {
        120
    }

    #[allow(unused_variables)]
    fn str_type(param: &str) -> (r: Option<StrType>) {
        None
    }

    fn kinds() -> (r: Vec<Kind>) {
        let mut r: Vec<Kind> = Vec::new();
        r.push(Kind::Longlong);
        r.push(Kind::Bit);
        r.push(Kind::Bit);
        assert(r@ =~= Self::spec_kinds());
        r
    }

    fn args(&self) -> (r: Vec<Field>) {
        let mut r: Vec<Field> = Vec::new();
        r.push(Field::Longlong(self.delivery_tag));
        r.push(Field::Bit(self.multiple));
        r.push(Field::Bit(self.requeue));
        assert(fields_view(r@) =~= self.spec_args());
        r
    }

    fn from_args(args: Vec<Field>) -> (r: Self) {
        let mut args = args;
        let ghost all = fields_view(args@);
        assert(kinds_of(all).len() == 3);
        assert(kinds_of(all)[0] == Kind::Longlong);
        assert(kinds_of(all)[1] == Kind::Bit);
        assert(kinds_of(all)[2] == Kind::Bit);
        let requeue = take_bit(&mut args);
        let multiple = take_bit(&mut args);
        let delivery_tag = take_longlong(&mut args);
        let r = Nack { delivery_tag, multiple, requeue };
        assert(r.spec_args() =~= all);
        r
    }
}

impl Default for Nack {
    fn default() -> (r: Nack)
        ensures
            r.delivery_tag == 0,
            !r.multiple,
            r.requeue,
    {
        Nack {
            delivery_tag: 0,
            multiple: false,
            requeue: true,
        }
    }
}

impl PartialEq for Nack {
    fn eq(&self, other: &Nack) -> (r: bool) {
        let ghost x = self.spec_args();
        let ghost y = other.spec_args();
        let e0 = self.delivery_tag == other.delivery_tag;
        assert(e0 == field_equiv(x[0], y[0]));
        let e1 = self.multiple == other.multiple;
        assert(e1 == field_equiv(x[1], y[1]));
        let e2 = self.requeue == other.requeue;
        assert(e2 == field_equiv(x[2], y[2]));
        e0 && e1 && e2
    }
}

impl PartialEqSpecImpl for Nack {
    open spec fn obeys_eq_spec() -> bool {
        true
    }

    open spec fn eq_spec(&self, other: &Nack) -> bool {
        args_equiv(self.spec_args(), other.spec_args())
    }
}
} // verus!
