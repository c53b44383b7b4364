//! The methods of the class `confirm`.

use vstd::prelude::*;
use vstd::std_specs::cmp::PartialEqSpecImpl;

use crate::method::{
    args_equiv, field_equiv, fields_view, kinds_of, take_bit, Field, FieldView, Kind, Method,
};
use crate::types::{Bit, StrType};

verus! {

/// The method `confirm.select`.
#[derive(Debug)]
pub struct Select {
    pub nowait: Bit,
}

impl Method for Select {
    open spec fn spec_class_id() -> u16 {
        85
    }

    open spec fn spec_method_id() -> u16 {
        10
    }

    open spec fn spec_kinds() -> Seq<Kind> {
        seq![Kind::Bit]
    }

    open spec fn spec_names() -> Seq<Seq<char>> {
        seq!["nowait"@]
    }

    open spec fn spec_args(&self) -> Seq<FieldView> {
        seq![FieldView::Bit(self.nowait)]
    }

    open spec fn spec_str_type(param: Seq<char>) -> Option<StrType> {
        None
    }

    proof fn lemma_kinds(&self) {
        assert(kinds_of(self.spec_args()) =~= Self::spec_kinds());
    }

    proof fn lemma_str_types() {
    }

    fn class_id() -> (r: u16) {
        85
    }

    fn method_id() -> (r: u16) {
        10
    }

    #[allow(unused_variables)]
    fn str_type(param: &str) -> (r: Option<StrType>) {
        None
    }

    fn kinds() -> (r: Vec<Kind>) {
        let mut r: Vec<Kind> = Vec::new();
        r.push(Kind::Bit);
        assert(r@ =~= Self::spec_kinds());
        r
    }

    fn args(&self) -> (r: Vec<Field>) {
        let mut r: Vec<Field> = Vec::new();
        r.push(Field::Bit(self.nowait));
        assert(fields_view(r@) =~= self.spec_args());
        r
    }

    fn from_args(args: Vec<Field>) -> (r: Self) {
        let mut args = args;
        let ghost all = fields_view(args@);
        assert(kinds_of(all).len() == 1);
        assert(kinds_of(all)[0] == Kind::Bit);
        let nowait = take_bit(&mut args);
        let r = Select { nowait };
        assert(r.spec_args() =~= all);
        r
    }
}

impl Default for Select {
    fn default() -> (r: Select)
        ensures
            !r.nowait,
    {
        Select {
            nowait: false,
        }
    }
}

impl PartialEq for Select {
    fn eq(&self, other: &Select) -> (r: bool) {
        let ghost x = self.spec_args();
        let ghost y = other.spec_args();
        let e0 = self.nowait == other.nowait;
        assert(e0 == field_equiv(x[0], y[0]));
        e0
    }
}

impl PartialEqSpecImpl for Select {
    open spec fn obeys_eq_spec() -> bool {
        true
    }

    open spec fn eq_spec(&self, other: &Select) -> bool {
        args_equiv(self.spec_args(), other.spec_args())
    }
}

/// The method `confirm.select-ok`.
#[derive(Debug)]
pub struct SelectOk {}

impl Method for SelectOk {
    open spec fn spec_class_id() -> u16 {
        85
    }

    open spec fn spec_method_id() -> u16 {
        11
    }

    open spec fn spec_kinds() -> Seq<Kind> {
        Seq::empty()
    }

    open spec fn spec_names() -> Seq<Seq<char>> {
        Seq::empty()
    }

    open spec fn spec_args(&self) -> Seq<FieldView> {
        Seq::empty()
    }

    open spec fn spec_str_type(param: Seq<char>) -> Option<StrType> {
        None
    }

    proof fn lemma_kinds(&self) {
        assert(kinds_of(self.spec_args()) =~= Self::spec_kinds());
    }

    proof fn lemma_str_types() {
    }

    fn class_id() -> (r: u16) {
        85
    }

    fn method_id() -> (r: u16) {
        11
    }

    #[allow(unused_variables)]
    fn str_type(param: &str) -> (r: Option<StrType>) {
        None
    }

    fn kinds() -> (r: Vec<Kind>) {
        Vec::new()
    }

    fn args(&self) -> (r: Vec<Field>) {
        let r: Vec<Field> = Vec::new();
        assert(fields_view(r@) =~= self.spec_args());
        r
    }

    fn from_args(args: Vec<Field>) -> (r: Self) {
        let r = SelectOk {};
        assert(kinds_of(fields_view(args@)).len() == 0);
        assert(r.spec_args() =~= fields_view(args@));
        r
    }
}

impl Default for SelectOk {
    fn default() -> (r: SelectOk)
    {
        SelectOk {}
    }
}

impl PartialEq for SelectOk {
    #[allow(unused_variables)]
    fn eq(&self, other: &SelectOk) -> (r: bool) {
        true
    }
}

impl PartialEqSpecImpl for SelectOk {
    open spec fn obeys_eq_spec() -> bool {
        true
    }

    open spec fn eq_spec(&self, other: &SelectOk) -> bool {
        args_equiv(self.spec_args(), other.spec_args())
    }
}
} // verus!
