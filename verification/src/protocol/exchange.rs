//! The methods of the class `exchange`.

use vstd::prelude::*;
use vstd::std_specs::cmp::PartialEqSpecImpl;

use crate::method::{
    args_equiv, field_equiv, fields_view, kinds_of, take_bit, take_short, take_shortstr,
    take_table, Field, FieldView, Kind, Method,
};
use crate::types::{str_eq, table_eq, Bit, Entries, Short, Shortstr, StrType, Table};

verus! {

/// The method `exchange.declare`.
#[derive(Debug)]
pub struct Declare {
    pub ticket: Short,
    pub exchange: Shortstr,
    pub ty: Shortstr,
    pub passive: Bit,
    pub durable: Bit,
    pub auto_delete: Bit,
    pub internal: Bit,
    pub nowait: Bit,
    pub arguments: Table,
}

impl Method for Declare {
    open spec fn spec_class_id() -> u16 {
        40
    }

    open spec fn spec_method_id() -> u16 {
        10
    }

    open spec fn spec_kinds() -> Seq<Kind> {
        seq![
            Kind::Short,
            Kind::Shortstr,
            Kind::Shortstr,
            Kind::Bit,
            Kind::Bit,
            Kind::Bit,
            Kind::Bit,
            Kind::Bit,
            Kind::Table,
        ]
    }

    open spec fn spec_names() -> Seq<Seq<char>> {
        seq![
            "ticket"@,
            "exchange"@,
            "ty"@,
            "passive"@,
            "durable"@,
            "auto_delete"@,
            "internal"@,
            "nowait"@,
            "arguments"@,
        ]
    }

    open spec fn spec_args(&self) -> Seq<FieldView> {
        seq![
            FieldView::Short(self.ticket),
            FieldView::Shortstr(self.exchange@),
            FieldView::Shortstr(self.ty@),
            FieldView::Bit(self.passive),
            FieldView::Bit(self.durable),
            FieldView::Bit(self.auto_delete),
            FieldView::Bit(self.internal),
            FieldView::Bit(self.nowait),
            FieldView::Table(self.arguments@),
        ]
    }

    open spec fn spec_str_type(param: Seq<char>) -> Option<StrType> {
        if param == "exchange"@ {
            Some(StrType::Short)
        } else if param == "ty"@ {
            Some(StrType::Short)
        } else {
            None
        }
    }

    proof fn lemma_kinds(&self) {
        assert(kinds_of(self.spec_args()) =~= Self::spec_kinds());
    }

    proof fn lemma_str_types() {
        reveal_strlit("ticket");
        reveal_strlit("exchange");
        reveal_strlit("ty");
        reveal_strlit("passive");
        reveal_strlit("durable");
        reveal_strlit("auto_delete");
        reveal_strlit("internal");
        reveal_strlit("nowait");
        reveal_strlit("arguments");
        assert("ticket"@.len() != "exchange"@.len());
        assert("ticket"@.len() != "ty"@.len());
        assert("exchange"@.len() != "ty"@.len());
        assert("passive"@.len() != "exchange"@.len());
        assert("passive"@.len() != "ty"@.len());
        assert("durable"@.len() != "exchange"@.len());
        assert("durable"@.len() != "ty"@.len());
        assert("auto_delete"@.len() != "exchange"@.len());
        assert("auto_delete"@.len() != "ty"@.len());
        assert("internal"@[0] != "exchange"@[0]);
        assert("internal"@.len() != "ty"@.len());
        assert("nowait"@.len() != "exchange"@.len());
        assert("nowait"@.len() != "ty"@.len());
        assert("arguments"@.len() != "exchange"@.len());
        assert("arguments"@.len() != "ty"@.len());
    }

    fn class_id() -> (r: u16) {
        40
    }

    fn method_id() -> (r: u16) {
        10
    }

    fn str_type(param: &str) -> (r: Option<StrType>) {
        if str_eq(param, "exchange") {
            Some(StrType::Short)
        } else if str_eq(param, "ty") {
            Some(StrType::Short)
        } else {
            None
        }
    }

    fn kinds() -> (r: Vec<Kind>) {
        let mut r: Vec<Kind> = Vec::new();
        r.push(Kind::Short);
        r.push(Kind::Shortstr);
        r.push(Kind::Shortstr);
        r.push(Kind::Bit);
        r.push(Kind::Bit);
        r.push(Kind::Bit);
        r.push(Kind::Bit);
        r.push(Kind::Bit);
        r.push(Kind::Table);
        assert(r@ =~= Self::spec_kinds());
        r
    }

    fn args(&self) -> (r: Vec<Field>) {
        let mut r: Vec<Field> = Vec::new();
        r.push(Field::Short(self.ticket));
        r.push(Field::Shortstr(self.exchange.clone()));
        r.push(Field::Shortstr(self.ty.clone()));
        r.push(Field::Bit(self.passive));
        r.push(Field::Bit(self.durable));
        r.push(Field::Bit(self.auto_delete));
        r.push(Field::Bit(self.internal));
        r.push(Field::Bit(self.nowait));
        r.push(Field::Table(self.arguments.clone()));
        assert(fields_view(r@) =~= self.spec_args());
        r
    }

    fn from_args(args: Vec<Field>) -> (r: Self) {
        let mut args = args;
        let ghost all = fields_view(args@);
        assert(kinds_of(all).len() == 9);
        assert(kinds_of(all)[0] == Kind::Short);
        assert(kinds_of(all)[1] == Kind::Shortstr);
        assert(kinds_of(all)[2] == Kind::Shortstr);
        assert(kinds_of(all)[3] == Kind::Bit);
        assert(kinds_of(all)[4] == Kind::Bit);
        assert(kinds_of(all)[5] == Kind::Bit);
        assert(kinds_of(all)[6] == Kind::Bit);
        assert(kinds_of(all)[7] == Kind::Bit);
        assert(kinds_of(all)[8] == Kind::Table);
        let arguments = take_table(&mut args);
        let nowait = take_bit(&mut args);
        let internal = take_bit(&mut args);
        let auto_delete = take_bit(&mut args);
        let durable = take_bit(&mut args);
        let passive = take_bit(&mut args);
        let ty = take_shortstr(&mut args);
        let exchange = take_shortstr(&mut args);
        let ticket = take_short(&mut args);
        let r = Declare {
            ticket,
            exchange,
            ty,
            passive,
            durable,
            auto_delete,
            internal,
            nowait,
            arguments,
        };
        assert(r.spec_args() =~= all);
        r
    }
}

impl Default for Declare {
    fn default() -> (r: Declare)
        ensures
            r.ticket == 0,
            r.exchange@ == Seq::<char>::empty(),
            r.ty@ == "direct"@,
            !r.passive,
            !r.durable,
            !r.auto_delete,
            !r.internal,
            !r.nowait,
            r.arguments@ == Entries::empty(),
    {
        Declare {
            ticket: 0,
            exchange: String::new(),
            ty: "direct".to_owned(),
            passive: false,
            durable: false,
            auto_delete: false,
            internal: false,
            nowait: false,
            arguments: Table::new(),
        }
    }
}

impl PartialEq for Declare {
    fn eq(&self, other: &Declare) -> (r: bool) {
        let ghost x = self.spec_args();
        let ghost y = other.spec_args();
        let e0 = self.ticket == other.ticket;
        assert(e0 == field_equiv(x[0], y[0]));
        let e1 = str_eq(self.exchange.as_str(), other.exchange.as_str());
        assert(e1 == field_equiv(x[1], y[1]));
        let e2 = str_eq(self.ty.as_str(), other.ty.as_str());
        assert(e2 == field_equiv(x[2], y[2]));
        let e3 = self.passive == other.passive;
        assert(e3 == field_equiv(x[3], y[3]));
        let e4 = self.durable == other.durable;
        assert(e4 == field_equiv(x[4], y[4]));
        let e5 = self.auto_delete == other.auto_delete;
        assert(e5 == field_equiv(x[5], y[5]));
        let e6 = self.internal == other.internal;
        assert(e6 == field_equiv(x[6], y[6]));
        let e7 = self.nowait == other.nowait;
        assert(e7 == field_equiv(x[7], y[7]));
        let e8 = table_eq(&self.arguments, &other.arguments);
        assert(e8 == field_equiv(x[8], y[8]));
        e0 && e1 && e2 && e3 && e4 && e5 && e6 && e7 && e8
    }
}

impl PartialEqSpecImpl for Declare {
    open spec fn obeys_eq_spec() -> bool {
        true
    }

    open spec fn eq_spec(&self, other: &Declare) -> bool {
        args_equiv(self.spec_args(), other.spec_args())
    }
}

/// The method `exchange.declare-ok`.
#[derive(Debug)]
pub struct DeclareOk {}

impl Method for DeclareOk {
    open spec fn spec_class_id() -> u16 {
        40
    }

    open spec fn spec_method_id() -> u16 {
        11
    }

    open spec fn spec_kinds() -> Seq<Kind> {
        Seq::empty()
    }

    open spec fn spec_names() -> Seq<Seq<char>> {
        Seq::empty()
    }

    open spec fn spec_args(&self) -> Seq<FieldView> {
        Seq::empty()
    }

    open spec fn spec_str_type(param: Seq<char>) -> Option<StrType> {
        None
    }

    proof fn lemma_kinds(&self) {
        assert(kinds_of(self.spec_args()) =~= Self::spec_kinds());
    }

    proof fn lemma_str_types() {
    }

    fn class_id() -> (r: u16) {
        40
    }

    fn method_id() -> (r: u16) {
        11
    }

    #[allow(unused_variables)]
    fn str_type(param: &str) -> (r: Option<StrType>) {
        None
    }

    fn kinds() -> (r: Vec<Kind>) {
        Vec::new()
    }

    fn args(&self) -> (r: Vec<Field>) {
        let r: Vec<Field> = Vec::new();
        assert(fields_view(r@) =~= self.spec_args());
        r
    }

    fn from_args(args: Vec<Field>) -> (r: Self) {
        let r = DeclareOk {};
        assert(kinds_of(fields_view(args@)).len() == 0);
        assert(r.spec_args() =~= fields_view(args@));
        r
    }
}

impl Default for DeclareOk {
    fn default() -> (r: DeclareOk)
    {
        DeclareOk {}
    }
}

impl PartialEq for DeclareOk {
    #[allow(unused_variables)]
    fn eq(&self, other: &DeclareOk) -> (r: bool) {
        true
    }
}

impl PartialEqSpecImpl for DeclareOk {
    open spec fn obeys_eq_spec() -> bool {
        true
    }

    open spec fn eq_spec(&self, other: &DeclareOk) -> bool {
        args_equiv(self.spec_args(), other.spec_args())
    }
}

/// The method `exchange.delete`.
#[derive(Debug)]
pub struct Delete {
    pub ticket: Short,
    pub exchange: Shortstr,
    pub if_unused: Bit,
    pub nowait: Bit,
}

impl Method for Delete {
    open spec fn spec_class_id() -> u16 {
        40
    }

    open spec fn spec_method_id() -> u16 {
        20
    }

    open spec fn spec_kinds() -> Seq<Kind> {
        seq![Kind::Short, Kind::Shortstr, Kind::Bit, Kind::Bit]
    }

    open spec fn spec_names() -> Seq<Seq<char>> {
        seq!["ticket"@, "exchange"@, "if_unused"@, "nowait"@]
    }

    open spec fn spec_args(&self) -> Seq<FieldView> {
        seq![
            FieldView::Short(self.ticket),
            FieldView::Shortstr(self.exchange@),
            FieldView::Bit(self.if_unused),
            FieldView::Bit(self.nowait),
        ]
    }

    open spec fn spec_str_type(param: Seq<char>) -> Option<StrType> {
        if param == "exchange"@ {
            Some(StrType::Short)
        } else {
            None
        }
    }

    proof fn lemma_kinds(&self) {
        assert(kinds_of(self.spec_args()) =~= Self::spec_kinds());
    }

    proof fn lemma_str_types() {
        reveal_strlit("ticket");
        reveal_strlit("exchange");
        reveal_strlit("if_unused");
        reveal_strlit("nowait");
        assert("ticket"@.len() != "exchange"@.len());
        assert("if_unused"@.len() != "exchange"@.len());
        assert("nowait"@.len() != "exchange"@.len());
    }

    fn class_id() -> (r: u16) {
        40
    }

    fn method_id() -> (r: u16) {
        20
    }

    fn str_type(param: &str) -> (r: Option<StrType>) {
        if str_eq(param, "exchange") {
            Some(StrType::Short)
        } else {
            None
        }
    }

    fn kinds() -> (r: Vec<Kind>) {
        let mut r: Vec<Kind> = Vec::new();
        r.push(Kind::Short);
        r.push(Kind::Shortstr);
        r.push(Kind::Bit);
        r.push(Kind::Bit);
        assert(r@ =~= Self::spec_kinds());
        r
    }

    fn args(&self) -> (r: Vec<Field>) {
        let mut r: Vec<Field> = Vec::new();
        r.push(Field::Short(self.ticket));
        r.push(Field::Shortstr(self.exchange.clone()));
        r.push(Field::Bit(self.if_unused));
        r.push(Field::Bit(self.nowait));
        assert(fields_view(r@) =~= self.spec_args());
        r
    }

    fn from_args(args: Vec<Field>) -> (r: Self) {
        let mut args = args;
        let ghost all = fields_view(args@);
        assert(kinds_of(all).len() == 4);
        assert(kinds_of(all)[0] == Kind::Short);
        assert(kinds_of(all)[1] == Kind::Shortstr);
        assert(kinds_of(all)[2] == Kind::Bit);
        assert(kinds_of(all)[3] == Kind::Bit);
        let nowait = take_bit(&mut args);
        let if_unused = take_bit(&mut args);
        let exchange = take_shortstr(&mut args);
        let ticket = take_short(&mut args);
        let r = Delete { ticket, exchange, if_unused, nowait };
        assert(r.spec_args() =~= all);
        r
    }
}

impl Default for Delete {
    fn default() -> (r: Delete)
        ensures
            r.ticket == 0,
            r.exchange@ == Seq::<char>::empty(),
            !r.if_unused,
            !r.nowait,
    {
        Delete {
            ticket: 0,
            exchange: String::new(),
            if_unused: false,
            nowait: false,
        }
    }
}

impl PartialEq for Delete {
    fn eq(&self, other: &Delete) -> (r: bool) {
        let ghost x = self.spec_args();
        let ghost y = other.spec_args();
        let e0 = self.ticket == other.ticket;
        assert(e0 == field_equiv(x[0], y[0]));
        let e1 = str_eq(self.exchange.as_str(), other.exchange.as_str());
        assert(e1 == field_equiv(x[1], y[1]));
        let e2 = self.if_unused == other.if_unused;
        assert(e2 == field_equiv(x[2], y[2]));
        let e3 = self.nowait == other.nowait;
        assert(e3 == field_equiv(x[3], y[3]));
        e0 && e1 && e2 && e3
    }
}

impl PartialEqSpecImpl for Delete {
    open spec fn obeys_eq_spec() -> bool {
        true
    }

    open spec fn eq_spec(&self, other: &Delete) -> bool {
        args_equiv(self.spec_args(), other.spec_args())
    }
}

/// The method `exchange.delete-ok`.
#[derive(Debug)]
pub struct DeleteOk {}

impl Method for DeleteOk {
    open spec fn spec_class_id() -> u16 {
        40
    }

    open spec fn spec_method_id() -> u16 {
        21
    }

    open spec fn spec_kinds() -> Seq<Kind> {
        Seq::empty()
    }

    open spec fn spec_names() -> Seq<Seq<char>> {
        Seq::empty()
    }

    open spec fn spec_args(&self) -> Seq<FieldView> {
        Seq::empty()
    }

    open spec fn spec_str_type(param: Seq<char>) -> Option<StrType> {
        None
    }

    proof fn lemma_kinds(&self) {
        assert(kinds_of(self.spec_args()) =~= Self::spec_kinds());
    }

    proof fn lemma_str_types() {
    }

    fn class_id() -> (r: u16) {
        40
    }

    fn method_id() -> (r: u16) {
        21
    }

    #[allow(unused_variables)]
    fn str_type(param: &str) -> (r: Option<StrType>) {
        None
    }

    fn kinds() -> (r: Vec<Kind>) {
        Vec::new()
    }

    fn args(&self) -> (r: Vec<Field>) {
        let r: Vec<Field> = Vec::new();
        assert(fields_view(r@) =~= self.spec_args());
        r
    }

    fn from_args(args: Vec<Field>) -> (r: Self) {
        let r = DeleteOk {};
        assert(kinds_of(fields_view(args@)).len() == 0);
        assert(r.spec_args() =~= fields_view(args@));
        r
    }
}

impl Default for DeleteOk {
    fn default() -> (r: DeleteOk)
    {
        DeleteOk {}
    }
}

impl PartialEq for DeleteOk {
    #[allow(unused_variables)]
    fn eq(&self, other: &DeleteOk) -> (r: bool) {
        true
    }
}

impl PartialEqSpecImpl for DeleteOk {
    open spec fn obeys_eq_spec() -> bool {
        true
    }

    open spec fn eq_spec(&self, other: &DeleteOk) -> bool {
        args_equiv(self.spec_args(), other.spec_args())
    }
}

/// The method `exchange.bind`.
#[derive(Debug)]
pub struct Bind {
    pub ticket: Short,
    pub destination: Shortstr,
    pub source: Shortstr,
    pub routing_key: Shortstr,
    pub nowait: Bit,
    pub arguments: Table,
}

impl Method for Bind {
    open spec fn spec_class_id() -> u16 {
        40
    }

    open spec fn spec_method_id() -> u16 {
        30
    }

    open spec fn spec_kinds() -> Seq<Kind> {
        seq![
            Kind::Short,
            Kind::Shortstr,
            Kind::Shortstr,
            Kind::Shortstr,
            Kind::Bit,
            Kind::Table,
        ]
    }

    open spec fn spec_names() -> Seq<Seq<char>> {
        seq!["ticket"@, "destination"@, "source"@, "routing_key"@, "nowait"@, "arguments"@]
    }

    open spec fn spec_args(&self) -> Seq<FieldView> {
        seq![
            FieldView::Short(self.ticket),
            FieldView::Shortstr(self.destination@),
            FieldView::Shortstr(self.source@),
            FieldView::Shortstr(self.routing_key@),
            FieldView::Bit(self.nowait),
            FieldView::Table(self.arguments@),
        ]
    }

    open spec fn spec_str_type(param: Seq<char>) -> Option<StrType> {
        if param == "destination"@ {
            Some(StrType::Short)
        } else if param == "source"@ {
            Some(StrType::Short)
        } else if param == "routing_key"@ {
            Some(StrType::Short)
        } else {
            None
        }
    }

    proof fn lemma_kinds(&self) {
        assert(kinds_of(self.spec_args()) =~= Self::spec_kinds());
    }

    proof fn lemma_str_types() {
        reveal_strlit("ticket");
        reveal_strlit("destination");
        reveal_strlit("source");
        reveal_strlit("routing_key");
        reveal_strlit("nowait");
        reveal_strlit("arguments");
        assert("ticket"@.len() != "destination"@.len());
        assert("ticket"@[0] != "source"@[0]);
        assert("ticket"@.len() != "routing_key"@.len());
        assert("destination"@.len() != "source"@.len());
        assert("destination"@[0] != "routing_key"@[0]);
        assert("source"@.len() != "routing_key"@.len());
        assert("nowait"@.len() != "destination"@.len());
        assert("nowait"@[0] != "source"@[0]);
        assert("nowait"@.len() != "routing_key"@.len());
        assert("arguments"@.len() != "destination"@.len());
        assert("arguments"@.len() != "source"@.len());
        assert("arguments"@.len() != "routing_key"@.len());
    }

    fn class_id() -> (r: u16) {
        40
    }

    fn method_id() -> (r: u16) {
        30
    }

    fn str_type(param: &str) -> (r: Option<StrType>) {
        if str_eq(param, "destination") {
            Some(StrType::Short)
        } else if str_eq(param, "source") {
            Some(StrType::Short)
        } else if str_eq(param, "routing_key") {
            Some(StrType::Short)
        } else {
            None
        }
    }

    fn kinds() -> (r: Vec<Kind>) {
        let mut r: Vec<Kind> = Vec::new();
        r.push(Kind::Short);
        r.push(Kind::Shortstr);
        r.push(Kind::Shortstr);
        r.push(Kind::Shortstr);
        r.push(Kind::Bit);
        r.push(Kind::Table);
        assert(r@ =~= Self::spec_kinds());
        r
    }

    fn args(&self) -> (r: Vec<Field>) {
        let mut r: Vec<Field> = Vec::new();
        r.push(Field::Short(self.ticket));
        r.push(Field::Shortstr(self.destination.clone()));
        r.push(Field::Shortstr(self.source.clone()));
        r.push(Field::Shortstr(self.routing_key.clone()));
        r.push(Field::Bit(self.nowait));
        r.push(Field::Table(self.arguments.clone()));
        assert(fields_view(r@) =~= self.spec_args());
        r
    }

    fn from_args(args: Vec<Field>) -> (r: Self) {
        let mut args = args;
        let ghost all = fields_view(args@);
        assert(kinds_of(all).len() == 6);
        assert(kinds_of(all)[0] == Kind::Short);
        assert(kinds_of(all)[1] == Kind::Shortstr);
        assert(kinds_of(all)[2] == Kind::Shortstr);
        assert(kinds_of(all)[3] == Kind::Shortstr);
        assert(kinds_of(all)[4] == Kind::Bit);
        assert(kinds_of(all)[5] == Kind::Table);
        let arguments = take_table(&mut args);
        let nowait = take_bit(&mut args);
        let routing_key = take_shortstr(&mut args);
        let source = take_shortstr(&mut args);
        let destination = take_shortstr(&mut args);
        let ticket = take_short(&mut args);
        let r = Bind { ticket, destination, source, routing_key, nowait, arguments };
        assert(r.spec_args() =~= all);
        r
    }
}

impl Default for Bind {
    fn default() -> (r: Bind)
        ensures
            r.ticket == 0,
            r.destination@ == Seq::<char>::empty(),
            r.source@ == Seq::<char>::empty(),
            r.routing_key@ == Seq::<char>::empty(),
            !r.nowait,
            r.arguments@ == Entries::empty(),
    {
        Bind {
            ticket: 0,
            destination: String::new(),
            source: String::new(),
            routing_key: String::new(),
            nowait: false,
            arguments: Table::new(),
        }
    }
}

impl PartialEq for Bind {
    fn eq(&self, other: &Bind) -> (r: bool) {
        let ghost x = self.spec_args();
        let ghost y = other.spec_args();
        let e0 = self.ticket == other.ticket;
        assert(e0 == field_equiv(x[0], y[0]));
        let e1 = str_eq(self.destination.as_str(), other.destination.as_str());
        assert(e1 == field_equiv(x[1], y[1]));
        let e2 = str_eq(self.source.as_str(), other.source.as_str());
        assert(e2 == field_equiv(x[2], y[2]));
        let e3 = str_eq(self.routing_key.as_str(), other.routing_key.as_str());
        assert(e3 == field_equiv(x[3], y[3]));
        let e4 = self.nowait == other.nowait;
        assert(e4 == field_equiv(x[4], y[4]));
        let e5 = table_eq(&self.arguments, &other.arguments);
        assert(e5 == field_equiv(x[5], y[5]));
        e0 && e1 && e2 && e3 && e4 && e5
    }
}

impl PartialEqSpecImpl for Bind {
    open spec fn obeys_eq_spec() -> bool {
        true
    }

    open spec fn eq_spec(&self, other: &Bind) -> bool {
        args_equiv(self.spec_args(), other.spec_args())
    }
}

/// The method `exchange.bind-ok`.
#[derive(Debug)]
pub struct BindOk {}

impl Method for BindOk {
    open spec fn spec_class_id() -> u16 {
        40
    }

    open spec fn spec_method_id() -> u16 {
        31
    }

    open spec fn spec_kinds() -> Seq<Kind> {
        Seq::empty()
    }

    open spec fn spec_names() -> Seq<Seq<char>> {
        Seq::empty()
    }

    open spec fn spec_args(&self) -> Seq<FieldView> {
        Seq::empty()
    }

    open spec fn spec_str_type(param: Seq<char>) -> Option<StrType> {
        None
    }

    proof fn lemma_kinds(&self) {
        assert(kinds_of(self.spec_args()) =~= Self::spec_kinds());
    }

    proof fn lemma_str_types() {
    }

    fn class_id() -> (r: u16) {
        40
    }

    fn method_id() -> (r: u16) {
        31
    }

    #[allow(unused_variables)]
    fn str_type(param: &str) -> (r: Option<StrType>) {
        None
    }

    fn kinds() -> (r: Vec<Kind>) {
        Vec::new()
    }

    fn args(&self) -> (r: Vec<Field>) {
        let r: Vec<Field> = Vec::new();
        assert(fields_view(r@) =~= self.spec_args());
        r
    }

    fn from_args(args: Vec<Field>) -> (r: Self) {
        let r = BindOk {};
        assert(kinds_of(fields_view(args@)).len() == 0);
        assert(r.spec_args() =~= fields_view(args@));
        r
    }
}

impl Default for BindOk {
    fn default() -> (r: BindOk)
    {
        BindOk {}
    }
}

impl PartialEq for BindOk {
    #[allow(unused_variables)]
    fn eq(&self, other: &BindOk) -> (r: bool) {
        true
    }
}

impl PartialEqSpecImpl for BindOk {
    open spec fn obeys_eq_spec() -> bool {
        true
    }

    open spec fn eq_spec(&self, other: &BindOk) -> bool {
        args_equiv(self.spec_args(), other.spec_args())
    }
}

/// The method `exchange.unbind`.
#[derive(Debug)]
pub struct Unbind {
    pub ticket: Short,
    pub destination: Shortstr,
    pub source: Shortstr,
    pub routing_key: Shortstr,
    pub nowait: Bit,
    pub arguments: Table,
}

impl Method for Unbind {
    open spec fn spec_class_id() -> u16 {
        40
    }

    open spec fn spec_method_id() -> u16 {
        40
    }

    open spec fn spec_kinds() -> Seq<Kind> {
        seq![
            Kind::Short,
            Kind::Shortstr,
            Kind::Shortstr,
            Kind::Shortstr,
            Kind::Bit,
            Kind::Table,
        ]
    }

    open spec fn spec_names() -> Seq<Seq<char>> {
        seq!["ticket"@, "destination"@, "source"@, "routing_key"@, "nowait"@, "arguments"@]
    }

    open spec fn spec_args(&self) -> Seq<FieldView> {
        seq![
            FieldView::Short(self.ticket),
            FieldView::Shortstr(self.destination@),
            FieldView::Shortstr(self.source@),
            FieldView::Shortstr(self.routing_key@),
            FieldView::Bit(self.nowait),
            FieldView::Table(self.arguments@),
        ]
    }

    open spec fn spec_str_type(param: Seq<char>) -> Option<StrType> {
        if param == "destination"@ {
            Some(StrType::Short)
        } else if param == "source"@ {
            Some(StrType::Short)
        } else if param == "routing_key"@ {
            Some(StrType::Short)
        } else {
            None
        }
    }

    proof fn lemma_kinds(&self) {
        assert(kinds_of(self.spec_args()) =~= Self::spec_kinds());
    }

    proof fn lemma_str_types() {
        reveal_strlit("ticket");
        reveal_strlit("destination");
        reveal_strlit("source");
        reveal_strlit("routing_key");
        reveal_strlit("nowait");
        reveal_strlit("arguments");
        assert("ticket"@.len() != "destination"@.len());
        assert("ticket"@[0] != "source"@[0]);
        assert("ticket"@.len() != "routing_key"@.len());
        assert("destination"@.len() != "source"@.len());
        assert("destination"@[0] != "routing_key"@[0]);
        assert("source"@.len() != "routing_key"@.len());
        assert("nowait"@.len() != "destination"@.len());
        assert("nowait"@[0] != "source"@[0]);
        assert("nowait"@.len() != "routing_key"@.len());
        assert("arguments"@.len() != "destination"@.len());
        assert("arguments"@.len() != "source"@.len());
        assert("arguments"@.len() != "routing_key"@.len());
    }

    fn class_id() -> (r: u16) {
        40
    }

    fn method_id() -> (r: u16) {
        40
    }

    fn str_type(param: &str) -> (r: Option<StrType>) {
        if str_eq(param, "destination") {
            Some(StrType::Short)
        } else if str_eq(param, "source") {
            Some(StrType::Short)
        } else if str_eq(param, "routing_key") {
            Some(StrType::Short)
        } else {
            None
        }
    }

    fn kinds() -> (r: Vec<Kind>) {
        let mut r: Vec<Kind> = Vec::new();
        r.push(Kind::Short);
        r.push(Kind::Shortstr);
        r.push(Kind::Shortstr);
        r.push(Kind::Shortstr);
        r.push(Kind::Bit);
        r.push(Kind::Table);
        assert(r@ =~= Self::spec_kinds());
        r
    }

    fn args(&self) -> (r: Vec<Field>) {
        let mut r: Vec<Field> = Vec::new();
        r.push(Field::Short(self.ticket));
        r.push(Field::Shortstr(self.destination.clone()));
        r.push(Field::Shortstr(self.source.clone()));
        r.push(Field::Shortstr(self.routing_key.clone()));
        r.push(Field::Bit(self.nowait));
        r.push(Field::Table(self.arguments.clone()));
        assert(fields_view(r@) =~= self.spec_args());
        r
    }

    fn from_args(args: Vec<Field>) -> (r: Self) {
        let mut args = args;
        let ghost all = fields_view(args@);
        assert(kinds_of(all).len() == 6);
        assert(kinds_of(all)[0] == Kind::Short);
        assert(kinds_of(all)[1] == Kind::Shortstr);
        assert(kinds_of(all)[2] == Kind::Shortstr);
        assert(kinds_of(all)[3] == Kind::Shortstr);
        assert(kinds_of(all)[4] == Kind::Bit);
        assert(kinds_of(all)[5] == Kind::Table);
        let arguments = take_table(&mut args);
        let nowait = take_bit(&mut args);
        let routing_key = take_shortstr(&mut args);
        let source = take_shortstr(&mut args);
        let destination = take_shortstr(&mut args);
        let ticket = take_short(&mut args);
        let r = Unbind { ticket, destination, source, routing_key, nowait, arguments };
        assert(r.spec_args() =~= all);
        r
    }
}

impl Default for Unbind {
    fn default() -> (r: Unbind)
        ensures
            r.ticket == 0,
            r.destination@ == Seq::<char>::empty(),
            r.source@ == Seq::<char>::empty(),
            r.routing_key@ == Seq::<char>::empty(),
            !r.nowait,
            r.arguments@ == Entries::empty(),
    {
        Unbind {
            ticket: 0,
            destination: String::new(),
            source: String::new(),
            routing_key: String::new(),
            nowait: false,
            arguments: Table::new(),
        }
    }
}

impl PartialEq for Unbind {
    fn eq(&self, other: &Unbind) -> (r: bool) {
        let ghost x = self.spec_args();
        let ghost y = other.spec_args();
        let e0 = self.ticket == other.ticket;
        assert(e0 == field_equiv(x[0], y[0]));
        let e1 = str_eq(self.destination.as_str(), other.destination.as_str());
        assert(e1 == field_equiv(x[1], y[1]));
        let e2 = str_eq(self.source.as_str(), other.source.as_str());
        assert(e2 == field_equiv(x[2], y[2]));
        let e3 = str_eq(self.routing_key.as_str(), other.routing_key.as_str());
        assert(e3 == field_equiv(x[3], y[3]));
        let e4 = self.nowait == other.nowait;
        assert(e4 == field_equiv(x[4], y[4]));
        let e5 = table_eq(&self.arguments, &other.arguments);
        assert(e5 == field_equiv(x[5], y[5]));
        e0 && e1 && e2 && e3 && e4 && e5
    }
}

impl PartialEqSpecImpl for Unbind {
    open spec fn obeys_eq_spec() -> bool {
        true
    }

    open spec fn eq_spec(&self, other: &Unbind) -> bool {
        args_equiv(self.spec_args(), other.spec_args())
    }
}

/// The method `exchange.unbind-ok`.
#[derive(Debug)]
pub struct UnbindOk {}

impl Method for UnbindOk {
    open spec fn spec_class_id() -> u16 {
        40
    }

    open spec fn spec_method_id() -> u16 {
        51
    }

    open spec fn spec_kinds() -> Seq<Kind> {
        Seq::empty()
    }

    open spec fn spec_names() -> Seq<Seq<char>> {
        Seq::empty()
    }

    open spec fn spec_args(&self) -> Seq<FieldView> {
        Seq::empty()
    }

    open spec fn spec_str_type(param: Seq<char>) -> Option<StrType> {
        None
    }

    proof fn lemma_kinds(&self) {
        assert(kinds_of(self.spec_args()) =~= Self::spec_kinds());
    }

    proof fn lemma_str_types() {
    }

    fn class_id() -> (r: u16) {
        40
    }

    fn method_id() -> (r: u16) {
        51
    }

    #[allow(unused_variables)]
    fn str_type(param: &str) -> (r: Option<StrType>) {
        None
    }

    fn kinds() -> (r: Vec<Kind>) {
        Vec::new()
    }

    fn args(&self) -> (r: Vec<Field>) {
        let r: Vec<Field> = Vec::new();
        assert(fields_view(r@) =~= self.spec_args());
        r
    }

    fn from_args(args: Vec<Field>) -> (r: Self) {
        let r = UnbindOk {};
        assert(kinds_of(fields_view(args@)).len() == 0);
        assert(r.spec_args() =~= fields_view(args@));
        r
    }
}

impl Default for UnbindOk {
    fn default() -> (r: UnbindOk)
    {
        UnbindOk {}
    }
}

impl PartialEq for UnbindOk {
    #[allow(unused_variables)]
    fn eq(&self, other: &UnbindOk) -> (r: bool) {
        true
    }
}

impl PartialEqSpecImpl for UnbindOk {
    open spec fn obeys_eq_spec() -> bool {
        true
    }

    open spec fn eq_spec(&self, other: &UnbindOk) -> bool {
        args_equiv(self.spec_args(), other.spec_args())
    }
}
} // verus!
