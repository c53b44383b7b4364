//! The methods of the class `queue`.

use vstd::prelude::*;
use vstd::std_specs::cmp::PartialEqSpecImpl;

use crate::method::{
    args_equiv, field_equiv, fields_view, kinds_of, take_bit, take_long, take_short, take_shortstr,
    take_table, Field, FieldView, Kind, Method,
};
use crate::types::{str_eq, table_eq, Bit, Entries, Long, Short, Shortstr, StrType, Table};

verus! {

/// The method `queue.declare`.
#[derive(Debug)]
pub struct Declare {
    pub ticket: Short,
    pub queue: Shortstr,
    pub passive: Bit,
    pub durable: Bit,
    pub exclusive: Bit,
    pub auto_delete: Bit,
    pub nowait: Bit,
    pub arguments: Table,
}

impl Method for Declare {
    open spec fn spec_class_id() -> u16 {
        50
    }

    open spec fn spec_method_id() -> u16 {
        10
    }

    open spec fn spec_kinds() -> Seq<Kind> {
        seq![
            Kind::Short,
            Kind::Shortstr,
            Kind::Bit,
            Kind::Bit,
            Kind::Bit,
            Kind::Bit,
            Kind::Bit,
            Kind::Table,
        ]
    }

    open spec fn spec_names() -> Seq<Seq<char>> {
        seq![
            "ticket"@,
            "queue"@,
            "passive"@,
            "durable"@,
            "exclusive"@,
            "auto_delete"@,
            "nowait"@,
            "arguments"@,
        ]
    }

    open spec fn spec_args(&self) -> Seq<FieldView> {
        seq![
            FieldView::Short(self.ticket),
            FieldView::Shortstr(self.queue@),
            FieldView::Bit(self.passive),
            FieldView::Bit(self.durable),
            FieldView::Bit(self.exclusive),
            FieldView::Bit(self.auto_delete),
            FieldView::Bit(self.nowait),
            FieldView::Table(self.arguments@),
        ]
    }

    open spec fn spec_str_type(param: Seq<char>) -> Option<StrType> {
        if param == "queue"@ {
            Some(StrType::Short)
        } else {
            None
        }
    }

    proof fn lemma_kinds(&self) {
        assert(kinds_of(self.spec_args()) =~= Self::spec_kinds());
    }

    proof fn lemma_str_types() {
        reveal_strlit("ticket");
        reveal_strlit("queue");
        reveal_strlit("passive");
        reveal_strlit("durable");
        reveal_strlit("exclusive");
        reveal_strlit("auto_delete");
        reveal_strlit("nowait");
        reveal_strlit("arguments");
        assert("ticket"@.len() != "queue"@.len());
        assert("passive"@.len() != "queue"@.len());
        assert("durable"@.len() != "queue"@.len());
        assert("exclusive"@.len() != "queue"@.len());
        assert("auto_delete"@.len() != "queue"@.len());
        assert("nowait"@.len() != "queue"@.len());
        assert("arguments"@.len() != "queue"@.len());
    }

    fn class_id() -> (r: u16) {
        50
    }

    fn method_id() -> (r: u16) {
        10
    }

    fn str_type(param: &str) -> (r: Option<StrType>) {
        if str_eq(param, "queue") {
            Some(StrType::Short)
        } else {
            None
        }
    }

    fn kinds() -> (r: Vec<Kind>) {
        let mut r: Vec<Kind> = Vec::new();
        r.push(Kind::Short);
        r.push(Kind::Shortstr);
        r.push(Kind::Bit);
        r.push(Kind::Bit);
        r.push(Kind::Bit);
        r.push(Kind::Bit);
        r.push(Kind::Bit);
        r.push(Kind::Table);
        assert(r@ =~= Self::spec_kinds());
        r
    }

    fn args(&self) -> (r: Vec<Field>) {
        let mut r: Vec<Field> = Vec::new();
        r.push(Field::Short(self.ticket));
        r.push(Field::Shortstr(self.queue.clone()));
        r.push(Field::Bit(self.passive));
        r.push(Field::Bit(self.durable));
        r.push(Field::Bit(self.exclusive));
        r.push(Field::Bit(self.auto_delete));
        r.push(Field::Bit(self.nowait));
        r.push(Field::Table(self.arguments.clone()));
        assert(fields_view(r@) =~= self.spec_args());
        r
    }

    fn from_args(args: Vec<Field>) -> (r: Self) {
        let mut args = args;
        let ghost all = fields_view(args@);
        assert(kinds_of(all).len() == 8);
        assert(kinds_of(all)[0] == Kind::Short);
        assert(kinds_of(all)[1] == Kind::Shortstr);
        assert(kinds_of(all)[2] == Kind::Bit);
        assert(kinds_of(all)[3] == Kind::Bit);
        assert(kinds_of(all)[4] == Kind::Bit);
        assert(kinds_of(all)[5] == Kind::Bit);
        assert(kinds_of(all)[6] == Kind::Bit);
        assert(kinds_of(all)[7] == Kind::Table);
        let arguments = take_table(&mut args);
        let nowait = take_bit(&mut args);
        let auto_delete = take_bit(&mut args);
        let exclusive = take_bit(&mut args);
        let durable = take_bit(&mut args);
        let passive = take_bit(&mut args);
        let queue = take_shortstr(&mut args);
        let ticket = take_short(&mut args);
        let r = Declare {
            ticket,
            queue,
            passive,
            durable,
            exclusive,
            auto_delete,
            nowait,
            arguments,
        };
        assert(r.spec_args() =~= all);
        r
    }
}

impl Default for Declare {
    fn default() -> (r: Declare)
        ensures
            r.ticket == 0,
            r.queue@ == Seq::<char>::empty(),
            !r.passive,
            !r.durable,
            !r.exclusive,
            !r.auto_delete,
            !r.nowait,
            r.arguments@ == Entries::empty(),
    {
        Declare {
            ticket: 0,
            queue: String::new(),
            passive: false,
            durable: false,
            exclusive: false,
            auto_delete: false,
            nowait: false,
            arguments: Table::new(),
        }
    }
}

impl PartialEq for Declare {
    fn eq(&self, other: &Declare) -> (r: bool) {
        let ghost x = self.spec_args();
        let ghost y = other.spec_args();
        let e0 = self.ticket == other.ticket;
        assert(e0 == field_equiv(x[0], y[0]));
        let e1 = str_eq(self.queue.as_str(), other.queue.as_str());
        assert(e1 == field_equiv(x[1], y[1]));
        let e2 = self.passive == other.passive;
        assert(e2 == field_equiv(x[2], y[2]));
        let e3 = self.durable == other.durable;
        assert(e3 == field_equiv(x[3], y[3]));
        let e4 = self.exclusive == other.exclusive;
        assert(e4 == field_equiv(x[4], y[4]));
        let e5 = self.auto_delete == other.auto_delete;
        assert(e5 == field_equiv(x[5], y[5]));
        let e6 = self.nowait == other.nowait;
        assert(e6 == field_equiv(x[6], y[6]));
        let e7 = table_eq(&self.arguments, &other.arguments);
        assert(e7 == field_equiv(x[7], y[7]));
        e0 && e1 && e2 && e3 && e4 && e5 && e6 && e7
    }
}

impl PartialEqSpecImpl for Declare {
    open spec fn obeys_eq_spec() -> bool {
        true
    }

    open spec fn eq_spec(&self, other: &Declare) -> bool {
        args_equiv(self.spec_args(), other.spec_args())
    }
}

/// The method `queue.declare-ok`.
#[derive(Debug)]
pub struct DeclareOk {
    pub queue: Shortstr,
    pub message_count: Long,
    pub consumer_count: Long,
}

impl Method for DeclareOk {
    open spec fn spec_class_id() -> u16 {
        50
    }

    open spec fn spec_method_id() -> u16 {
        11
    }

    open spec fn spec_kinds() -> Seq<Kind> {
        seq![Kind::Shortstr, Kind::Long, Kind::Long]
    }

    open spec fn spec_names() -> Seq<Seq<char>> {
        seq!["queue"@, "message_count"@, "consumer_count"@]
    }

    open spec fn spec_args(&self) -> Seq<FieldView> {
        seq![
            FieldView::Shortstr(self.queue@),
            FieldView::Long(self.message_count),
            FieldView::Long(self.consumer_count),
        ]
    }

    open spec fn spec_str_type(param: Seq<char>) -> Option<StrType> {
        if param == "queue"@ {
            Some(StrType::Short)
        } else {
            None
        }
    }

    proof fn lemma_kinds(&self) {
        assert(kinds_of(self.spec_args()) =~= Self::spec_kinds());
    }

    proof fn lemma_str_types() {
        reveal_strlit("queue");
        reveal_strlit("message_count");
        reveal_strlit("consumer_count");
        assert("message_count"@.len() != "queue"@.len());
        assert("consumer_count"@.len() != "queue"@.len());
    }

    fn class_id() -> (r: u16) {
        50
    }

    fn method_id() -> (r: u16) {
        11
    }

    fn str_type(param: &str) -> (r: Option<StrType>) {
        if str_eq(param, "queue") {
            Some(StrType::Short)
        } else {
            None
        }
    }

    fn kinds() -> (r: Vec<Kind>) {
        let mut r: Vec<Kind> = Vec::new();
        r.push(Kind::Shortstr);
        r.push(Kind::Long);
        r.push(Kind::Long);
        assert(r@ =~= Self::spec_kinds());
        r
    }

    fn args(&self) -> (r: Vec<Field>) {
        let mut r: Vec<Field> = Vec::new();
        r.push(Field::Shortstr(self.queue.clone()));
        r.push(Field::Long(self.message_count));
        r.push(Field::Long(self.consumer_count));
        assert(fields_view(r@) =~= self.spec_args());
        r
    }

    fn from_args(args: Vec<Field>) -> (r: Self) {
        let mut args = args;
        let ghost all = fields_view(args@);
        assert(kinds_of(all).len() == 3);
        assert(kinds_of(all)[0] == Kind::Shortstr);
        assert(kinds_of(all)[1] == Kind::Long);
        assert(kinds_of(all)[2] == Kind::Long);
        let consumer_count = take_long(&mut args);
        let message_count = take_long(&mut args);
        let queue = take_shortstr(&mut args);
        let r = DeclareOk { queue, message_count, consumer_count };
        assert(r.spec_args() =~= all);
        r
    }
}

impl Default for DeclareOk {
    fn default() -> (r: DeclareOk)
        ensures
            r.queue@ == Seq::<char>::empty(),
            r.message_count == 0,
            r.consumer_count == 0,
    {
        DeclareOk {
            queue: String::new(),
            message_count: 0,
            consumer_count: 0,
        }
    }
}

impl PartialEq for DeclareOk {
    fn eq(&self, other: &DeclareOk) -> (r: bool) {
        let ghost x = self.spec_args();
        let ghost y = other.spec_args();
        let e0 = str_eq(self.queue.as_str(), other.queue.as_str());
        assert(e0 == field_equiv(x[0], y[0]));
        let e1 = self.message_count == other.message_count;
        assert(e1 == field_equiv(x[1], y[1]));
        let e2 = self.consumer_count == other.consumer_count;
        assert(e2 == field_equiv(x[2], y[2]));
        e0 && e1 && e2
    }
}

impl PartialEqSpecImpl for DeclareOk {
    open spec fn obeys_eq_spec() -> bool {
        true
    }

    open spec fn eq_spec(&self, other: &DeclareOk) -> bool {
        args_equiv(self.spec_args(), other.spec_args())
    }
}

/// The method `queue.bind`.
#[derive(Debug)]
pub struct Bind {
    pub ticket: Short,
    pub queue: Shortstr,
    pub exchange: Shortstr,
    pub routing_key: Shortstr,
    pub nowait: Bit,
    pub arguments: Table,
}

impl Method for Bind {
    open spec fn spec_class_id() -> u16 {
        50
    }

    open spec fn spec_method_id() -> u16 {
        20
    }

    open spec fn spec_kinds() -> Seq<Kind> {
        seq![
            Kind::Short,
            Kind::Shortstr,
            Kind::Shortstr,
            Kind::Shortstr,
            Kind::Bit,
            Kind::Table,
        ]
    }

    open spec fn spec_names() -> Seq<Seq<char>> {
        seq!["ticket"@, "queue"@, "exchange"@, "routing_key"@, "nowait"@, "arguments"@]
    }

    open spec fn spec_args(&self) -> Seq<FieldView> {
        seq![
            FieldView::Short(self.ticket),
            FieldView::Shortstr(self.queue@),
            FieldView::Shortstr(self.exchange@),
            FieldView::Shortstr(self.routing_key@),
            FieldView::Bit(self.nowait),
            FieldView::Table(self.arguments@),
        ]
    }

    open spec fn spec_str_type(param: Seq<char>) -> Option<StrType> {
        if param == "queue"@ {
            Some(StrType::Short)
        } else if param == "exchange"@ {
            Some(StrType::Short)
        } else if param == "routing_key"@ {
            Some(StrType::Short)
        } else {
            None
        }
    }

    proof fn lemma_kinds(&self) {
        assert(kinds_of(self.spec_args()) =~= Self::spec_kinds());
    }

    proof fn lemma_str_types() {
        reveal_strlit("ticket");
        reveal_strlit("queue");
        reveal_strlit("exchange");
        reveal_strlit("routing_key");
        reveal_strlit("nowait");
        reveal_strlit("arguments");
        assert("ticket"@.len() != "queue"@.len());
        assert("ticket"@.len() != "exchange"@.len());
        assert("ticket"@.len() != "routing_key"@.len());
        assert("queue"@.len() != "exchange"@.len());
        assert("queue"@.len() != "routing_key"@.len());
        assert("exchange"@.len() != "routing_key"@.len());
        assert("nowait"@.len() != "queue"@.len());
        assert("nowait"@.len() != "exchange"@.len());
        assert("nowait"@.len() != "routing_key"@.len());
        assert("arguments"@.len() != "queue"@.len());
        assert("arguments"@.len() != "exchange"@.len());
        assert("arguments"@.len() != "routing_key"@.len());
    }

    fn class_id() -> (r: u16) {
        50
    }

    fn method_id() -> (r: u16) {
        20
    }

    fn str_type(param: &str) -> (r: Option<StrType>) {
        if str_eq(param, "queue") {
            Some(StrType::Short)
        } else if str_eq(param, "exchange") {
            Some(StrType::Short)
        } else if str_eq(param, "routing_key") {
            Some(StrType::Short)
        } else {
            None
        }
    }

    fn kinds() -> (r: Vec<Kind>) {
        let mut r: Vec<Kind> = Vec::new();
        r.push(Kind::Short);
        r.push(Kind::Shortstr);
        r.push(Kind::Shortstr);
        r.push(Kind::Shortstr);
        r.push(Kind::Bit);
        r.push(Kind::Table);
        assert(r@ =~= Self::spec_kinds());
        r
    }

    fn args(&self) -> (r: Vec<Field>) {
        let mut r: Vec<Field> = Vec::new();
        r.push(Field::Short(self.ticket));
        r.push(Field::Shortstr(self.queue.clone()));
        r.push(Field::Shortstr(self.exchange.clone()));
        r.push(Field::Shortstr(self.routing_key.clone()));
        r.push(Field::Bit(self.nowait));
        r.push(Field::Table(self.arguments.clone()));
        assert(fields_view(r@) =~= self.spec_args());
        r
    }

    fn from_args(args: Vec<Field>) -> (r: Self) {
        let mut args = args;
        let ghost all = fields_view(args@);
        assert(kinds_of(all).len() == 6);
        assert(kinds_of(all)[0] == Kind::Short);
        assert(kinds_of(all)[1] == Kind::Shortstr);
        assert(kinds_of(all)[2] == Kind::Shortstr);
        assert(kinds_of(all)[3] == Kind::Shortstr);
        assert(kinds_of(all)[4] == Kind::Bit);
        assert(kinds_of(all)[5] == Kind::Table);
        let arguments = take_table(&mut args);
        let nowait = take_bit(&mut args);
        let routing_key = take_shortstr(&mut args);
        let exchange = take_shortstr(&mut args);
        let queue = take_shortstr(&mut args);
        let ticket = take_short(&mut args);
        let r = Bind { ticket, queue, exchange, routing_key, nowait, arguments };
        assert(r.spec_args() =~= all);
        r
    }
}

impl Default for Bind {
    fn default() -> (r: Bind)
        ensures
            r.ticket == 0,
            r.queue@ == Seq::<char>::empty(),
            r.exchange@ == Seq::<char>::empty(),
            r.routing_key@ == Seq::<char>::empty(),
            !r.nowait,
            r.arguments@ == Entries::empty(),
    {
        Bind {
            ticket: 0,
            queue: String::new(),
            exchange: String::new(),
            routing_key: String::new(),
            nowait: false,
            arguments: Table::new(),
        }
    }
}

impl PartialEq for Bind {
    fn eq(&self, other: &Bind) -> (r: bool) {
        let ghost x = self.spec_args();
        let ghost y = other.spec_args();
        let e0 = self.ticket == other.ticket;
        assert(e0 == field_equiv(x[0], y[0]));
        let e1 = str_eq(self.queue.as_str(), other.queue.as_str());
        assert(e1 == field_equiv(x[1], y[1]));
        let e2 = str_eq(self.exchange.as_str(), other.exchange.as_str());
        assert(e2 == field_equiv(x[2], y[2]));
        let e3 = str_eq(self.routing_key.as_str(), other.routing_key.as_str());
        assert(e3 == field_equiv(x[3], y[3]));
        let e4 = self.nowait == other.nowait;
        assert(e4 == field_equiv(x[4], y[4]));
        let e5 = table_eq(&self.arguments, &other.arguments);
        assert(e5 == field_equiv(x[5], y[5]));
        e0 && e1 && e2 && e3 && e4 && e5
    }
}

impl PartialEqSpecImpl for Bind {
    open spec fn obeys_eq_spec() -> bool {
        true
    }

    open spec fn eq_spec(&self, other: &Bind) -> bool {
        args_equiv(self.spec_args(), other.spec_args())
    }
}

/// The method `queue.bind-ok`.
#[derive(Debug)]
pub struct BindOk {}

impl Method for BindOk {
    open spec fn spec_class_id() -> u16 {
        50
    }

    open spec fn spec_method_id() -> u16 {
        21
    }

    open spec fn spec_kinds() -> Seq<Kind> {
        Seq::empty()
    }

    open spec fn spec_names() -> Seq<Seq<char>> {
        Seq::empty()
    }

    open spec fn spec_args(&self) -> Seq<FieldView> {
        Seq::empty()
    }

    open spec fn spec_str_type(param: Seq<char>) -> Option<StrType> {
        None
    }

    proof fn lemma_kinds(&self) {
        assert(kinds_of(self.spec_args()) =~= Self::spec_kinds());
    }

    proof fn lemma_str_types() {
    }

    fn class_id() -> (r: u16) {
        50
    }

    fn method_id() -> (r: u16) {
        21
    }

    #[allow(unused_variables)]
    fn str_type(param: &str) -> (r: Option<StrType>) {
        None
    }

    fn kinds() -> (r: Vec<Kind>) {
        Vec::new()
    }

    fn args(&self) -> (r: Vec<Field>) {
        let r: Vec<Field> = Vec::new();
        assert(fields_view(r@) =~= self.spec_args());
        r
    }

    fn from_args(args: Vec<Field>) -> (r: Self) {
        let r = BindOk {};
        assert(kinds_of(fields_view(args@)).len() == 0);
        assert(r.spec_args() =~= fields_view(args@));
        r
    }
}

impl Default for BindOk {
    fn default() -> (r: BindOk)
    {
        BindOk {}
    }
}

impl PartialEq for BindOk {
    #[allow(unused_variables)]
    fn eq(&self, other: &BindOk) -> (r: bool) {
        true
    }
}

impl PartialEqSpecImpl for BindOk {
    open spec fn obeys_eq_spec() -> bool {
        true
    }

    open spec fn eq_spec(&self, other: &BindOk) -> bool {
        args_equiv(self.spec_args(), other.spec_args())
    }
}

/// The method `queue.purge`.
#[derive(Debug)]
pub struct Purge {
    pub ticket: Short,
    pub queue: Shortstr,
    pub nowait: Bit,
}

impl Method for Purge {
    open spec fn spec_class_id() -> u16 {
        50
    }

    open spec fn spec_method_id() -> u16 {
        30
    }

    open spec fn spec_kinds() -> Seq<Kind> {
        seq![Kind::Short, Kind::Shortstr, Kind::Bit]
    }

    open spec fn spec_names() -> Seq<Seq<char>> {
        seq!["ticket"@, "queue"@, "nowait"@]
    }

    open spec fn spec_args(&self) -> Seq<FieldView> {
        seq![
            FieldView::Short(self.ticket),
            FieldView::Shortstr(self.queue@),
            FieldView::Bit(self.nowait),
        ]
    }

    open spec fn spec_str_type(param: Seq<char>) -> Option<StrType> {
        if param == "queue"@ {
            Some(StrType::Short)
        } else {
            None
        }
    }

    proof fn lemma_kinds(&self) {
        assert(kinds_of(self.spec_args()) =~= Self::spec_kinds());
    }

    proof fn lemma_str_types() {
        reveal_strlit("ticket");
        reveal_strlit("queue");
        reveal_strlit("nowait");
        assert("ticket"@.len() != "queue"@.len());
        assert("nowait"@.len() != "queue"@.len());
    }

    fn class_id() -> (r: u16) {
        50
    }

    fn method_id() -> (r: u16) {
        30
    }

    fn str_type(param: &str) -> (r: Option<StrType>) {
        if str_eq(param, "queue") {
            Some(StrType::Short)
        } else {
            None
        }
    }

    fn kinds() -> (r: Vec<Kind>) {
        let mut r: Vec<Kind> = Vec::new();
        r.push(Kind::Short);
        r.push(Kind::Shortstr);
        r.push(Kind::Bit);
        assert(r@ =~= Self::spec_kinds());
        r
    }

    fn args(&self) -> (r: Vec<Field>) {
        let mut r: Vec<Field> = Vec::new();
        r.push(Field::Short(self.ticket));
        r.push(Field::Shortstr(self.queue.clone()));
        r.push(Field::Bit(self.nowait));
        assert(fields_view(r@) =~= self.spec_args());
        r
    }

    fn from_args(args: Vec<Field>) -> (r: Self) {
        let mut args = args;
        let ghost all = fields_view(args@);
        assert(kinds_of(all).len() == 3);
        assert(kinds_of(all)[0] == Kind::Short);
        assert(kinds_of(all)[1] == Kind::Shortstr);
        assert(kinds_of(all)[2] == Kind::Bit);
        let nowait = take_bit(&mut args);
        let queue = take_shortstr(&mut args);
        let ticket = take_short(&mut args);
        let r = Purge { ticket, queue, nowait };
        assert(r.spec_args() =~= all);
        r
    }
}

impl Default for Purge {
    fn default() -> (r: Purge)
        ensures
            r.ticket == 0,
            r.queue@ == Seq::<char>::empty(),
            !r.nowait,
    {
        Purge {
            ticket: 0,
            queue: String::new(),
            nowait: false,
        }
    }
}

impl PartialEq for Purge {
    fn eq(&self, other: &Purge) -> (r: bool) {
        let ghost x = self.spec_args();
        let ghost y = other.spec_args();
        let e0 = self.ticket == other.ticket;
        assert(e0 == field_equiv(x[0], y[0]));
        let e1 = str_eq(self.queue.as_str(), other.queue.as_str());
        assert(e1 == field_equiv(x[1], y[1]));
        let e2 = self.nowait == other.nowait;
        assert(e2 == field_equiv(x[2], y[2]));
        e0 && e1 && e2
    }
}

impl PartialEqSpecImpl for Purge {
    open spec fn obeys_eq_spec() -> bool {
        true
    }

    open spec fn eq_spec(&self, other: &Purge) -> bool {
        args_equiv(self.spec_args(), other.spec_args())
    }
}

/// The method `queue.purge-ok`.
#[derive(Debug)]
pub struct PurgeOk {
    pub message_count: Long,
}

impl Method for PurgeOk {
    open spec fn spec_class_id() -> u16 {
        50
    }

    open spec fn spec_method_id() -> u16 {
        31
    }

    open spec fn spec_kinds() -> Seq<Kind> {
        seq![Kind::Long]
    }

    open spec fn spec_names() -> Seq<Seq<char>> {
        seq!["message_count"@]
    }

    open spec fn spec_args(&self) -> Seq<FieldView> {
        seq![FieldView::Long(self.message_count)]
    }

    open spec fn spec_str_type(param: Seq<char>) -> Option<StrType> {
        None
    }

    proof fn lemma_kinds(&self) {
        assert(kinds_of(self.spec_args()) =~= Self::spec_kinds());
    }

    proof fn lemma_str_types() {
    }

    fn class_id() -> (r: u16) {
        50
    }

    fn method_id() -> (r: u16) {
        31
    }

    #[allow(unused_variables)]
    fn str_type(param: &str) -> (r: Option<StrType>) {
        None
    }

    fn kinds() -> (r: Vec<Kind>) {
        let mut r: Vec<Kind> = Vec::new();
        r.push(Kind::Long);
        assert(r@ =~= Self::spec_kinds());
        r
    }

    fn args(&self) -> (r: Vec<Field>) {
        let mut r: Vec<Field> = Vec::new();
        r.push(Field::Long(self.message_count));
        assert(fields_view(r@) =~= self.spec_args());
        r
    }

    fn from_args(args: Vec<Field>) -> (r: Self) {
        let mut args = args;
        let ghost all = fields_view(args@);
        assert(kinds_of(all).len() == 1);
        assert(kinds_of(all)[0] == Kind::Long);
        let message_count = take_long(&mut args);
        let r = PurgeOk { message_count };
        assert(r.spec_args() =~= all);
        r
    }
}

impl Default for PurgeOk {
    fn default() -> (r: PurgeOk)
        ensures
            r.message_count == 0,
    {
        PurgeOk {
            message_count: 0,
        }
    }
}

impl PartialEq for PurgeOk {
    fn eq(&self, other: &PurgeOk) -> (r: bool) {
        let ghost x = self.spec_args();
        let ghost y = other.spec_args();
        let e0 = self.message_count == other.message_count;
        assert(e0 == field_equiv(x[0], y[0]));
        e0
    }
}

impl PartialEqSpecImpl for PurgeOk {
    open spec fn obeys_eq_spec() -> bool {
        true
    }

    open spec fn eq_spec(&self, other: &PurgeOk) -> bool {
        args_equiv(self.spec_args(), other.spec_args())
    }
}

/// The method `queue.delete`.
#[derive(Debug)]
pub struct Delete {
    pub ticket: Short,
    pub queue: Shortstr,
    pub if_unused: Bit,
    pub if_empty: Bit,
    pub nowait: Bit,
}

impl Method for Delete {
    open spec fn spec_class_id() -> u16 {
        50
    }

    open spec fn spec_method_id() -> u16 {
        40
    }

    open spec fn spec_kinds() -> Seq<Kind> {
        seq![Kind::Short, Kind::Shortstr, Kind::Bit, Kind::Bit, Kind::Bit]
    }

    open spec fn spec_names() -> Seq<Seq<char>> {
        seq!["ticket"@, "queue"@, "if_unused"@, "if_empty"@, "nowait"@]
    }

    open spec fn spec_args(&self) -> Seq<FieldView> {
        seq![
            FieldView::Short(self.ticket),
            FieldView::Shortstr(self.queue@),
            FieldView::Bit(self.if_unused),
            FieldView::Bit(self.if_empty),
            FieldView::Bit(self.nowait),
        ]
    }

    open spec fn spec_str_type(param: Seq<char>) -> Option<StrType> {
        if param == "queue"@ {
            Some(StrType::Short)
        } else {
            None
        }
    }

    proof fn lemma_kinds(&self) {
        assert(kinds_of(self.spec_args()) =~= Self::spec_kinds());
    }

    proof fn lemma_str_types() {
        reveal_strlit("ticket");
        reveal_strlit("queue");
        reveal_strlit("if_unused");
        reveal_strlit("if_empty");
        reveal_strlit("nowait");
        assert("ticket"@.len() != "queue"@.len());
        assert("if_unused"@.len() != "queue"@.len());
        assert("if_empty"@.len() != "queue"@.len());
        assert("nowait"@.len() != "queue"@.len());
    }

    fn class_id() -> (r: u16) {
        50
    }

    fn method_id() -> (r: u16) {
        40
    }

    fn str_type(param: &str) -> (r: Option<StrType>) {
        if str_eq(param, "queue") {
            Some(StrType::Short)
        } else {
            None
        }
    }

    fn kinds() -> (r: Vec<Kind>) {
        let mut r: Vec<Kind> = Vec::new();
        r.push(Kind::Short);
        r.push(Kind::Shortstr);
        r.push(Kind::Bit);
        r.push(Kind::Bit);
        r.push(Kind::Bit);
        assert(r@ =~= Self::spec_kinds());
        r
    }

    fn args(&self) -> (r: Vec<Field>) {
        let mut r: Vec<Field> = Vec::new();
        r.push(Field::Short(self.ticket));
        r.push(Field::Shortstr(self.queue.clone()));
        r.push(Field::Bit(self.if_unused));
        r.push(Field::Bit(self.if_empty));
        r.push(Field::Bit(self.nowait));
        assert(fields_view(r@) =~= self.spec_args());
        r
    }

    fn from_args(args: Vec<Field>) -> (r: Self) {
        let mut args = args;
        let ghost all = fields_view(args@);
        assert(kinds_of(all).len() == 5);
        assert(kinds_of(all)[0] == Kind::Short);
        assert(kinds_of(all)[1] == Kind::Shortstr);
        assert(kinds_of(all)[2] == Kind::Bit);
        assert(kinds_of(all)[3] == Kind::Bit);
        assert(kinds_of(all)[4] == Kind::Bit);
        let nowait = take_bit(&mut args);
        let if_empty = take_bit(&mut args);
        let if_unused = take_bit(&mut args);
        let queue = take_shortstr(&mut args);
        let ticket = take_short(&mut args);
        let r = Delete { ticket, queue, if_unused, if_empty, nowait };
        assert(r.spec_args() =~= all);
        r
    }
}

impl Default for Delete {
    fn default() -> (r: Delete)
        ensures
            r.ticket == 0,
            r.queue@ == Seq::<char>::empty(),
            !r.if_unused,
            !r.if_empty,
            !r.nowait,
    {
        Delete {
            ticket: 0,
            queue: String::new(),
            if_unused: false,
            if_empty: false,
            nowait: false,
        }
    }
}

impl PartialEq for Delete {
    fn eq(&self, other: &Delete) -> (r: bool) {
        let ghost x = self.spec_args();
        let ghost y = other.spec_args();
        let e0 = self.ticket == other.ticket;
        assert(e0 == field_equiv(x[0], y[0]));
        let e1 = str_eq(self.queue.as_str(), other.queue.as_str());
        assert(e1 == field_equiv(x[1], y[1]));
        let e2 = self.if_unused == other.if_unused;
        assert(e2 == field_equiv(x[2], y[2]));
        let e3 = self.if_empty == other.if_empty;
        assert(e3 == field_equiv(x[3], y[3]));
        let e4 = self.nowait == other.nowait;
        assert(e4 == field_equiv(x[4], y[4]));
        e0 && e1 && e2 && e3 && e4
    }
}

impl PartialEqSpecImpl for Delete {
    open spec fn obeys_eq_spec() -> bool {
        true
    }

    open spec fn eq_spec(&self, other: &Delete) -> bool {
        args_equiv(self.spec_args(), other.spec_args())
    }
}

/// The method `queue.delete-ok`.
#[derive(Debug)]
pub struct DeleteOk {
    pub message_count: Long,
}

impl Method for DeleteOk {
    open spec fn spec_class_id() -> u16 {
        50
    }

    open spec fn spec_method_id() -> u16 {
        41
    }

    open spec fn spec_kinds() -> Seq<Kind> {
        seq![Kind::Long]
    }

    open spec fn spec_names() -> Seq<Seq<char>> {
        seq!["message_count"@]
    }

    open spec fn spec_args(&self) -> Seq<FieldView> {
        seq![FieldView::Long(self.message_count)]
    }

    open spec fn spec_str_type(param: Seq<char>) -> Option<StrType> {
        None
    }

    proof fn lemma_kinds(&self) {
        assert(kinds_of(self.spec_args()) =~= Self::spec_kinds());
    }

    proof fn lemma_str_types() {
    }

    fn class_id() -> (r: u16) {
        50
    }

    fn method_id() -> (r: u16) {
        41
    }

    #[allow(unused_variables)]
    fn str_type(param: &str) -> (r: Option<StrType>) {
        None
    }

    fn kinds() -> (r: Vec<Kind>) {
        let mut r: Vec<Kind> = Vec::new();
        r.push(Kind::Long);
        assert(r@ =~= Self::spec_kinds());
        r
    }

    fn args(&self) -> (r: Vec<Field>) {
        let mut r: Vec<Field> = Vec::new();
        r.push(Field::Long(self.message_count));
        assert(fields_view(r@) =~= self.spec_args());
        r
    }

    fn from_args(args: Vec<Field>) -> (r: Self) {
        let mut args = args;
        let ghost all = fields_view(args@);
        assert(kinds_of(all).len() == 1);
        assert(kinds_of(all)[0] == Kind::Long);
        let message_count = take_long(&mut args);
        let r = DeleteOk { message_count };
        assert(r.spec_args() =~= all);
        r
    }
}

impl Default for DeleteOk {
    fn default() -> (r: DeleteOk)
        ensures
            r.message_count == 0,
    {
        DeleteOk {
            message_count: 0,
        }
    }
}

impl PartialEq for DeleteOk {
    fn eq(&self, other: &DeleteOk) -> (r: bool) {
        let ghost x = self.spec_args();
        let ghost y = other.spec_args();
        let e0 = self.message_count == other.message_count;
        assert(e0 == field_equiv(x[0], y[0]));
        e0
    }
}

impl PartialEqSpecImpl for DeleteOk {
    open spec fn obeys_eq_spec() -> bool {
        true
    }

    open spec fn eq_spec(&self, other: &DeleteOk) -> bool {
        args_equiv(self.spec_args(), other.spec_args())
    }
}

/// The method `queue.unbind`.
#[derive(Debug)]
pub struct Unbind {
    pub ticket: Short,
    pub queue: Shortstr,
    pub exchange: Shortstr,
    pub routing_key: Shortstr,
    pub arguments: Table,
}

impl Method for Unbind {
    open spec fn spec_class_id() -> u16 {
        50
    }

    open spec fn spec_method_id() -> u16 {
        50
    }

    open spec fn spec_kinds() -> Seq<Kind> {
        seq![Kind::Short, Kind::Shortstr, Kind::Shortstr, Kind::Shortstr, Kind::Table]
    }

    open spec fn spec_names() -> Seq<Seq<char>> {
        seq!["ticket"@, "queue"@, "exchange"@, "routing_key"@, "arguments"@]
    }

    open spec fn spec_args(&self) -> Seq<FieldView> {
        seq![
            FieldView::Short(self.ticket),
            FieldView::Shortstr(self.queue@),
            FieldView::Shortstr(self.exchange@),
            FieldView::Shortstr(self.routing_key@),
            FieldView::Table(self.arguments@),
        ]
    }

    open spec fn spec_str_type(param: Seq<char>) -> Option<StrType> {
        if param == "queue"@ {
            Some(StrType::Short)
        } else if param == "exchange"@ {
            Some(StrType::Short)
        } else if param == "routing_key"@ {
            Some(StrType::Short)
        } else {
            None
        }
    }

    proof fn lemma_kinds(&self) {
        assert(kinds_of(self.spec_args()) =~= Self::spec_kinds());
    }

    proof fn lemma_str_types() {
        reveal_strlit("ticket");
        reveal_strlit("queue");
        reveal_strlit("exchange");
        reveal_strlit("routing_key");
        reveal_strlit("arguments");
        assert("ticket"@.len() != "queue"@.len());
        assert("ticket"@.len() != "exchange"@.len());
        assert("ticket"@.len() != "routing_key"@.len());
        assert("queue"@.len() != "exchange"@.len());
        assert("queue"@.len() != "routing_key"@.len());
        assert("exchange"@.len() != "routing_key"@.len());
        assert("arguments"@.len() != "queue"@.len());
        assert("arguments"@.len() != "exchange"@.len());
        assert("arguments"@.len() != "routing_key"@.len());
    }

    fn class_id() -> (r: u16) {
        50
    }

    fn method_id() -> (r: u16) {
        50
    }

    fn str_type(param: &str) -> (r: Option<StrType>) {
        if str_eq(param, "queue") {
            Some(StrType::Short)
        } else if str_eq(param, "exchange") {
            Some(StrType::Short)
        } else if str_eq(param, "routing_key") {
            Some(StrType::Short)
        } else {
            None
        }
    }

    fn kinds() -> (r: Vec<Kind>) {
        let mut r: Vec<Kind> = Vec::new();
        r.push(Kind::Short);
        r.push(Kind::Shortstr);
        r.push(Kind::Shortstr);
        r.push(Kind::Shortstr);
        r.push(Kind::Table);
        assert(r@ =~= Self::spec_kinds());
        r
    }

    fn args(&self) -> (r: Vec<Field>) {
        let mut r: Vec<Field> = Vec::new();
        r.push(Field::Short(self.ticket));
        r.push(Field::Shortstr(self.queue.clone()));
        r.push(Field::Shortstr(self.exchange.clone()));
        r.push(Field::Shortstr(self.routing_key.clone()));
        r.push(Field::Table(self.arguments.clone()));
        assert(fields_view(r@) =~= self.spec_args());
        r
    }

    fn from_args(args: Vec<Field>) -> (r: Self) {
        let mut args = args;
        let ghost all = fields_view(args@);
        assert(kinds_of(all).len() == 5);
        assert(kinds_of(all)[0] == Kind::Short);
        assert(kinds_of(all)[1] == Kind::Shortstr);
        assert(kinds_of(all)[2] == Kind::Shortstr);
        assert(kinds_of(all)[3] == Kind::Shortstr);
        assert(kinds_of(all)[4] == Kind::Table);
        let arguments = take_table(&mut args);
        let routing_key = take_shortstr(&mut args);
        let exchange = take_shortstr(&mut args);
        let queue = take_shortstr(&mut args);
        let ticket = take_short(&mut args);
        let r = Unbind { ticket, queue, exchange, routing_key, arguments };
        assert(r.spec_args() =~= all);
        r
    }
}

impl Default for Unbind {
    fn default() -> (r: Unbind)
        ensures
            r.ticket == 0,
            r.queue@ == Seq::<char>::empty(),
            r.exchange@ == Seq::<char>::empty(),
            r.routing_key@ == Seq::<char>::empty(),
            r.arguments@ == Entries::empty(),
    {
        Unbind {
            ticket: 0,
            queue: String::new(),
            exchange: String::new(),
            routing_key: String::new(),
            arguments: Table::new(),
        }
    }
}

impl PartialEq for Unbind {
    fn eq(&self, other: &Unbind) -> (r: bool) {
        let ghost x = self.spec_args();
        let ghost y = other.spec_args();
        let e0 = self.ticket == other.ticket;
        assert(e0 == field_equiv(x[0], y[0]));
        let e1 = str_eq(self.queue.as_str(), other.queue.as_str());
        assert(e1 == field_equiv(x[1], y[1]));
        let e2 = str_eq(self.exchange.as_str(), other.exchange.as_str());
        assert(e2 == field_equiv(x[2], y[2]));
        let e3 = str_eq(self.routing_key.as_str(), other.routing_key.as_str());
        assert(e3 == field_equiv(x[3], y[3]));
        let e4 = table_eq(&self.arguments, &other.arguments);
        assert(e4 == field_equiv(x[4], y[4]));
        e0 && e1 && e2 && e3 && e4
    }
}

impl PartialEqSpecImpl for Unbind {
    open spec fn obeys_eq_spec() -> bool {
        true
    }

    open spec fn eq_spec(&self, other: &Unbind) -> bool {
        args_equiv(self.spec_args(), other.spec_args())
    }
}

/// The method `queue.unbind-ok`.
#[derive(Debug)]
pub struct UnbindOk {}

impl Method for UnbindOk {
    open spec fn spec_class_id() -> u16 {
        50
    }

    open spec fn spec_method_id() -> u16 {
        51
    }

    open spec fn spec_kinds() -> Seq<Kind> {
        Seq::empty()
    }

    open spec fn spec_names() -> Seq<Seq<char>> {
        Seq::empty()
    }

    open spec fn spec_args(&self) -> Seq<FieldView> {
        Seq::empty()
    }

    open spec fn spec_str_type(param: Seq<char>) -> Option<StrType> {
        None
    }

    proof fn lemma_kinds(&self) {
        assert(kinds_of(self.spec_args()) =~= Self::spec_kinds());
    }

    proof fn lemma_str_types() {
    }

    fn class_id() -> (r: u16) {
        50
    }

    fn method_id() -> (r: u16) {
        51
    }

    #[allow(unused_variables)]
    fn str_type(param: &str) -> (r: Option<StrType>) {
        None
    }

    fn kinds() -> (r: Vec<Kind>) {
        Vec::new()
    }

    fn args(&self) -> (r: Vec<Field>) {
        let r: Vec<Field> = Vec::new();
        assert(fields_view(r@) =~= self.spec_args());
        r
    }

    fn from_args(args: Vec<Field>) -> (r: Self) {
        let r = UnbindOk {};
        assert(kinds_of(fields_view(args@)).len() == 0);
        assert(r.spec_args() =~= fields_view(args@));
        r
    }
}

impl Default for UnbindOk {
    fn default() -> (r: UnbindOk)
    {
        UnbindOk {}
    }
}

impl PartialEq for UnbindOk {
    #[allow(unused_variables)]
    fn eq(&self, other: &UnbindOk) -> (r: bool) {
        true
    }
}

impl PartialEqSpecImpl for UnbindOk {
    open spec fn obeys_eq_spec() -> bool {
        true
    }

    open spec fn eq_spec(&self, other: &UnbindOk) -> bool {
        args_equiv(self.spec_args(), other.spec_args())
    }
}
} // verus!
