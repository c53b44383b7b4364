//! The methods of the class `access`.

use vstd::prelude::*;
use vstd::std_specs::cmp::PartialEqSpecImpl;

use crate::method::{
    args_equiv, field_equiv, fields_view, kinds_of, take_bit, take_short, take_shortstr, Field,
    FieldView, Kind, Method,
};
use crate::types::{str_eq, Bit, Short, Shortstr, StrType};

verus! {

/// The method `access.request`.
#[derive(Debug)]
pub struct Request {
    pub realm: Shortstr,
    pub exclusive: Bit,
    pub passive: Bit,
    pub active: Bit,
    pub write: Bit,
    pub read: Bit,
}

impl Method for Request {
    open spec fn spec_class_id() -> u16 {
        30
    }

    open spec fn spec_method_id() -> u16 {
        10
    }

    open spec fn spec_kinds() -> Seq<Kind> {
        seq![Kind::Shortstr, Kind::Bit, Kind::Bit, Kind::Bit, Kind::Bit, Kind::Bit]
    }

    open spec fn spec_names() -> Seq<Seq<char>> {
        seq!["realm"@, "exclusive"@, "passive"@, "active"@, "write"@, "read"@]
    }

    open spec fn spec_args(&self) -> Seq<FieldView> {
        seq![
            FieldView::Shortstr(self.realm@),
            FieldView::Bit(self.exclusive),
            FieldView::Bit(self.passive),
            FieldView::Bit(self.active),
            FieldView::Bit(self.write),
            FieldView::Bit(self.read),
        ]
    }

    open spec fn spec_str_type(param: Seq<char>) -> Option<StrType> {
        if param == "realm"@ {
            Some(StrType::Short)
        } else {
            None
        }
    }

    proof fn lemma_kinds(&self) {
        assert(kinds_of(self.spec_args()) =~= Self::spec_kinds());
    }

    proof fn lemma_str_types() {
        reveal_strlit("realm");
        reveal_strlit("exclusive");
        reveal_strlit("passive");
        reveal_strlit("active");
        reveal_strlit("write");
        reveal_strlit("read");
        assert("exclusive"@.len() != "realm"@.len());
        assert("passive"@.len() != "realm"@.len());
        assert("active"@.len() != "realm"@.len());
        assert("write"@[0] != "realm"@[0]);
        assert("read"@.len() != "realm"@.len());
    }

    fn class_id() -> (r: u16) {
        30
    }

    fn method_id() -> (r: u16) {
        10
    }

    fn str_type(param: &str) -> (r: Option<StrType>) {
        if str_eq(param, "realm") {
            Some(StrType::Short)
        } else {
            None
        }
    }

    fn kinds() -> (r: Vec<Kind>) {
        let mut r: Vec<Kind> = Vec::new();
        r.push(Kind::Shortstr);
        r.push(Kind::Bit);
        r.push(Kind::Bit);
        r.push(Kind::Bit);
        r.push(Kind::Bit);
        r.push(Kind::Bit);
        assert(r@ =~= Self::spec_kinds());
        r
    }

    fn args(&self) -> (r: Vec<Field>) {
        let mut r: Vec<Field> = Vec::new();
        r.push(Field::Shortstr(self.realm.clone()));
        r.push(Field::Bit(self.exclusive));
        r.push(Field::Bit(self.passive));
        r.push(Field::Bit(self.active));
        r.push(Field::Bit(self.write));
        r.push(Field::Bit(self.read));
        assert(fields_view(r@) =~= self.spec_args());
        r
    }

    fn from_args(args: Vec<Field>) -> (r: Self) {
        let mut args = args;
        let ghost all = fields_view(args@);
        assert(kinds_of(all).len() == 6);
        assert(kinds_of(all)[0] == Kind::Shortstr);
        assert(kinds_of(all)[1] == Kind::Bit);
        assert(kinds_of(all)[2] == Kind::Bit);
        assert(kinds_of(all)[3] == Kind::Bit);
        assert(kinds_of(all)[4] == Kind::Bit);
        assert(kinds_of(all)[5] == Kind::Bit);
        let read = take_bit(&mut args);
        let write = take_bit(&mut args);
        let active = take_bit(&mut args);
        let passive = take_bit(&mut args);
        let exclusive = take_bit(&mut args);
        let realm = take_shortstr(&mut args);
        let r = Request { realm, exclusive, passive, active, write, read };
        assert(r.spec_args() =~= all);
        r
    }
}

impl Default for Request {
    fn default() -> (r: Request)
        ensures
            r.realm@ == "/data"@,
            !r.exclusive,
            r.passive,
            r.active,
            r.write,
            r.read,
    {
        Request {
            realm: "/data".to_owned(),
            exclusive: false,
            passive: true,
            active: true,
            write: true,
            read: true,
        }
    }
}

impl PartialEq for Request {
    fn eq(&self, other: &Request) -> (r: bool) {
        let ghost x = self.spec_args();
        let ghost y = other.spec_args();
        let e0 = str_eq(self.realm.as_str(), other.realm.as_str());
        assert(e0 == field_equiv(x[0], y[0]));
        let e1 = self.exclusive == other.exclusive;
        assert(e1 == field_equiv(x[1], y[1]));
        let e2 = self.passive == other.passive;
        assert(e2 == field_equiv(x[2], y[2]));
        let e3 = self.active == other.active;
        assert(e3 == field_equiv(x[3], y[3]));
        let e4 = self.write == other.write;
        assert(e4 == field_equiv(x[4], y[4]));
        let e5 = self.read == other.read;
        assert(e5 == field_equiv(x[5], y[5]));
        e0 && e1 && e2 && e3 && e4 && e5
    }
}

impl PartialEqSpecImpl for Request {
    open spec fn obeys_eq_spec() -> bool {
        true
    }

    open spec fn eq_spec(&self, other: &Request) -> bool {
        args_equiv(self.spec_args(), other.spec_args())
    }
}

/// The method `access.request-ok`.
#[derive(Debug)]
pub struct RequestOk {
    pub ticket: Short,
}

impl Method for RequestOk {
    open spec fn spec_class_id() -> u16 {
        30
    }

    open spec fn spec_method_id() -> u16 {
        11
    }

    open spec fn spec_kinds() -> Seq<Kind> {
        seq![Kind::Short]
    }

    open spec fn spec_names() -> Seq<Seq<char>> {
        seq!["ticket"@]
    }

    open spec fn spec_args(&self) -> Seq<FieldView> {
        seq![FieldView::Short(self.ticket)]
    }

    open spec fn spec_str_type(param: Seq<char>) -> Option<StrType> {
        None
    }

    proof fn lemma_kinds(&self) {
        assert(kinds_of(self.spec_args()) =~= Self::spec_kinds());
    }

    proof fn lemma_str_types() {
    }

    fn class_id() -> (r: u16) {
        30
    }

    fn method_id() -> (r: u16) {
        11
    }

    #[allow(unused_variables)]
    fn str_type(param: &str) -> (r: Option<StrType>) {
        None
    }

    fn kinds() -> (r: Vec<Kind>) {
        let mut r: Vec<Kind> = Vec::new();
        r.push(Kind::Short);
        assert(r@ =~= Self::spec_kinds());
        r
    }

    fn args(&self) -> (r: Vec<Field>) {
        let mut r: Vec<Field> = Vec::new();
        r.push(Field::Short(self.ticket));
        assert(fields_view(r@) =~= self.spec_args());
        r
    }

    fn from_args(args: Vec<Field>) -> (r: Self) {
        let mut args = args;
        let ghost all = fields_view(args@);
        assert(kinds_of(all).len() == 1);
        assert(kinds_of(all)[0] == Kind::Short);
        let ticket = take_short(&mut args);
        let r = RequestOk { ticket };
        assert(r.spec_args() =~= all);
        r
    }
}

impl Default for RequestOk {
    fn default() -> (r: RequestOk)
        ensures
            r.ticket == 1,
    {
        RequestOk {
            ticket: 1,
        }
    }
}

impl PartialEq for RequestOk {
    fn eq(&self, other: &RequestOk) -> (r: bool) {
        let ghost x = self.spec_args();
        let ghost y = other.spec_args();
        let e0 = self.ticket == other.ticket;
        assert(e0 == field_equiv(x[0], y[0]));
        e0
    }
}

impl PartialEqSpecImpl for RequestOk {
    open spec fn obeys_eq_spec() -> bool {
        true
    }

    open spec fn eq_spec(&self, other: &RequestOk) -> bool {
        args_equiv(self.spec_args(), other.spec_args())
    }
}
} // verus!
