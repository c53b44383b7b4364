//! The methods of the class `tx`.

use vstd::prelude::*;
use vstd::std_specs::cmp::PartialEqSpecImpl;

use crate::method::{args_equiv, fields_view, kinds_of, Field, FieldView, Kind, Method};
use crate::types::{StrType};

verus! {

/// The method `tx.select`.
#[derive(Debug)]
pub struct Select {}

impl Method for Select {
    open spec fn spec_class_id() -> u16 {
        90
    }

    open spec fn spec_method_id() -> u16 {
        10
    }

    open spec fn spec_kinds() -> Seq<Kind> {
        Seq::empty()
    }

    open spec fn spec_names() -> Seq<Seq<char>> {
        Seq::empty()
    }

    open spec fn spec_args(&self) -> Seq<FieldView> {
        Seq::empty()
    }

    open spec fn spec_str_type(param: Seq<char>) -> Option<StrType> {
        None
    }

    proof fn lemma_kinds(&self) {
        assert(kinds_of(self.spec_args()) =~= Self::spec_kinds());
    }

    proof fn lemma_str_types() {
    }

    fn class_id() -> (r: u16) {
        90
    }

    fn method_id() -> (r: u16) {
        10
    }

    #[allow(unused_variables)]
    fn str_type(param: &str) -> (r: Option<StrType>) {
        None
    }

    fn kinds() -> (r: Vec<Kind>) {
        Vec::new()
    }

    fn args(&self) -> (r: Vec<Field>) {
        let r: Vec<Field> = Vec::new();
        assert(fields_view(r@) =~= self.spec_args());
        r
    }

    fn from_args(args: Vec<Field>) -> (r: Self) {
        let r = Select {};
        assert(kinds_of(fields_view(args@)).len() == 0);
        assert(r.spec_args() =~= fields_view(args@));
        r
    }
}

impl Default for Select {
    fn default() -> (r: Select)
    {
        Select {}
    }
}

impl PartialEq for Select {
    #[allow(unused_variables)]
    fn eq(&self, other: &Select) -> (r: bool) {
        true
    }
}

impl PartialEqSpecImpl for Select {
    open spec fn obeys_eq_spec() -> bool {
        true
    }

    open spec fn eq_spec(&self, other: &Select) -> bool {
        args_equiv(self.spec_args(), other.spec_args())
    }
}

/// The method `tx.select-ok`.
#[derive(Debug)]
pub struct SelectOk {}

impl Method for SelectOk {
    open spec fn spec_class_id() -> u16 {
        90
    }

    open spec fn spec_method_id() -> u16 {
        11
    }

    open spec fn spec_kinds() -> Seq<Kind> {
        Seq::empty()
    }

    open spec fn spec_names() -> Seq<Seq<char>> {
        Seq::empty()
    }

    open spec fn spec_args(&self) -> Seq<FieldView> {
        Seq::empty()
    }

    open spec fn spec_str_type(param: Seq<char>) -> Option<StrType> {
        None
    }

    proof fn lemma_kinds(&self) {
        assert(kinds_of(self.spec_args()) =~= Self::spec_kinds());
    }

    proof fn lemma_str_types() {
    }

    fn class_id() -> (r: u16) {
        90
    }

    fn method_id() -> (r: u16) {
        11
    }

    #[allow(unused_variables)]
    fn str_type(param: &str) -> (r: Option<StrType>) {
        None
    }

    fn kinds() -> (r: Vec<Kind>) {
        Vec::new()
    }

    fn args(&self) -> (r: Vec<Field>) {
        let r: Vec<Field> = Vec::new();
        assert(fields_view(r@) =~= self.spec_args());
        r
    }

    fn from_args(args: Vec<Field>) -> (r: Self) {
        let r = SelectOk {};
        assert(kinds_of(fields_view(args@)).len() == 0);
        assert(r.spec_args() =~= fields_view(args@));
        r
    }
}

impl Default for SelectOk {
    fn default() -> (r: SelectOk)
    {
        SelectOk {}
    }
}

impl PartialEq for SelectOk {
    #[allow(unused_variables)]
    fn eq(&self, other: &SelectOk) -> (r: bool) {
        true
    }
}

impl PartialEqSpecImpl for SelectOk {
    open spec fn obeys_eq_spec() -> bool {
        true
    }

    open spec fn eq_spec(&self, other: &SelectOk) -> bool {
        args_equiv(self.spec_args(), other.spec_args())
    }
}

/// The method `tx.commit`.
#[derive(Debug)]
pub struct Commit {}

impl Method for Commit {
    open spec fn spec_class_id() -> u16 {
        90
    }

    open spec fn spec_method_id() -> u16 {
        20
    }

    open spec fn spec_kinds() -> Seq<Kind> {
        Seq::empty()
    }

    open spec fn spec_names() -> Seq<Seq<char>> {
        Seq::empty()
    }

    open spec fn spec_args(&self) -> Seq<FieldView> {
        Seq::empty()
    }

    open spec fn spec_str_type(param: Seq<char>) -> Option<StrType> {
        None
    }

    proof fn lemma_kinds(&self) {
        assert(kinds_of(self.spec_args()) =~= Self::spec_kinds());
    }

    proof fn lemma_str_types() {
    }

    fn class_id() -> (r: u16) {
        90
    }

    fn method_id() -> (r: u16) {
        20
    }

    #[allow(unused_variables)]
    fn str_type(param: &str) -> (r: Option<StrType>) {
        None
    }

    fn kinds() -> (r: Vec<Kind>) {
        Vec::new()
    }

    fn args(&self) -> (r: Vec<Field>) {
        let r: Vec<Field> = Vec::new();
        assert(fields_view(r@) =~= self.spec_args());
        r
    }

    fn from_args(args: Vec<Field>) -> (r: Self) {
        let r = Commit {};
        assert(kinds_of(fields_view(args@)).len() == 0);
        assert(r.spec_args() =~= fields_view(args@));
        r
    }
}

impl Default for Commit {
    fn default() -> (r: Commit)
    {
        Commit {}
    }
}

impl PartialEq for Commit {
    #[allow(unused_variables)]
    fn eq(&self, other: &Commit) -> (r: bool) {
        true
    }
}

impl PartialEqSpecImpl for Commit {
    open spec fn obeys_eq_spec() -> bool {
        true
    }

    open spec fn eq_spec(&self, other: &Commit) -> bool {
        args_equiv(self.spec_args(), other.spec_args())
    }
}

/// The method `tx.commit-ok`.
#[derive(Debug)]
pub struct CommitOk {}

impl Method for CommitOk {
    open spec fn spec_class_id() -> u16 {
        90
    }

    open spec fn spec_method_id() -> u16 {
        21
    }

    open spec fn spec_kinds() -> Seq<Kind> {
        Seq::empty()
    }

    open spec fn spec_names() -> Seq<Seq<char>> {
        Seq::empty()
    }

    open spec fn spec_args(&self) -> Seq<FieldView> {
        Seq::empty()
    }

    open spec fn spec_str_type(param: Seq<char>) -> Option<StrType> {
        None
    }

    proof fn lemma_kinds(&self) {
        assert(kinds_of(self.spec_args()) =~= Self::spec_kinds());
    }

    proof fn lemma_str_types() {
    }

    fn class_id() -> (r: u16) {
        90
    }

    fn method_id() -> (r: u16) {
        21
    }

    #[allow(unused_variables)]
    fn str_type(param: &str) -> (r: Option<StrType>) {
        None
    }

    fn kinds() -> (r: Vec<Kind>) {
        Vec::new()
    }

    fn args(&self) -> (r: Vec<Field>) {
        let r: Vec<Field> = Vec::new();
        assert(fields_view(r@) =~= self.spec_args());
        r
    }

    fn from_args(args: Vec<Field>) -> (r: Self) {
        let r = CommitOk {};
        assert(kinds_of(fields_view(args@)).len() == 0);
        assert(r.spec_args() =~= fields_view(args@));
        r
    }
}

impl Default for CommitOk {
    fn default() -> (r: CommitOk)
    {
        CommitOk {}
    }
}

impl PartialEq for CommitOk {
    #[allow(unused_variables)]
    fn eq(&self, other: &CommitOk) -> (r: bool) {
        true
    }
}

impl PartialEqSpecImpl for CommitOk {
    open spec fn obeys_eq_spec() -> bool {
        true
    }

    open spec fn eq_spec(&self, other: &CommitOk) -> bool {
        args_equiv(self.spec_args(), other.spec_args())
    }
}

/// The method `tx.rollback`.
#[derive(Debug)]
pub struct Rollback {}

impl Method for Rollback {
    open spec fn spec_class_id() -> u16 {
        90
    }

    open spec fn spec_method_id() -> u16 {
        30
    }

    open spec fn spec_kinds() -> Seq<Kind> {
        Seq::empty()
    }

    open spec fn spec_names() -> Seq<Seq<char>> {
        Seq::empty()
    }

    open spec fn spec_args(&self) -> Seq<FieldView> {
        Seq::empty()
    }

    open spec fn spec_str_type(param: Seq<char>) -> Option<StrType> {
        None
    }

    proof fn lemma_kinds(&self) {
        assert(kinds_of(self.spec_args()) =~= Self::spec_kinds());
    }

    proof fn lemma_str_types() {
    }

    fn class_id() -> (r: u16) {
        90
    }

    fn method_id() -> (r: u16) {
        30
    }

    #[allow(unused_variables)]
    fn str_type(param: &str) -> (r: Option<StrType>) {
        None
    }

    fn kinds() -> (r: Vec<Kind>) {
        Vec::new()
    }

    fn args(&self) -> (r: Vec<Field>) {
        let r: Vec<Field> = Vec::new();
        assert(fields_view(r@) =~= self.spec_args());
        r
    }

    fn from_args(args: Vec<Field>) -> (r: Self) {
        let r = Rollback {};
        assert(kinds_of(fields_view(args@)).len() == 0);
        assert(r.spec_args() =~= fields_view(args@));
        r
    }
}

impl Default for Rollback {
    fn default() -> (r: Rollback)
    {
        Rollback {}
    }
}

impl PartialEq for Rollback {
    #[allow(unused_variables)]
    fn eq(&self, other: &Rollback) -> (r: bool) {
        true
    }
}

impl PartialEqSpecImpl for Rollback {
    open spec fn obeys_eq_spec() -> bool {
        true
    }

    open spec fn eq_spec(&self, other: &Rollback) -> bool {
        args_equiv(self.spec_args(), other.spec_args())
    }
}

/// The method `tx.rollback-ok`.
#[derive(Debug)]
pub struct RollbackOk {}

impl Method for RollbackOk {
    open spec fn spec_class_id() -> u16 {
        90
    }

    open spec fn spec_method_id() -> u16 {
        31
    }

    open spec fn spec_kinds() -> Seq<Kind> {
        Seq::empty()
    }

    open spec fn spec_names() -> Seq<Seq<char>> {
        Seq::empty()
    }

    open spec fn spec_args(&self) -> Seq<FieldView> {
        Seq::empty()
    }

    open spec fn spec_str_type(param: Seq<char>) -> Option<StrType> {
        None
    }

    proof fn lemma_kinds(&self) {
        assert(kinds_of(self.spec_args()) =~= Self::spec_kinds());
    }

    proof fn lemma_str_types() {
    }

    fn class_id() -> (r: u16) {
        90
    }

    fn method_id() -> (r: u16) {
        31
    }

    #[allow(unused_variables)]
    fn str_type(param: &str) -> (r: Option<StrType>) {
        None
    }

    fn kinds() -> (r: Vec<Kind>) {
        Vec::new()
    }

    fn args(&self) -> (r: Vec<Field>) {
        let r: Vec<Field> = Vec::new();
        assert(fields_view(r@) =~= self.spec_args());
        r
    }

    fn from_args(args: Vec<Field>) -> (r: Self) {
        let r = RollbackOk {};
        assert(kinds_of(fields_view(args@)).len() == 0);
        assert(r.spec_args() =~= fields_view(args@));
        r
    }
}

impl Default for RollbackOk {
    fn default() -> (r: RollbackOk)
    {
        RollbackOk {}
    }
}

impl PartialEq for RollbackOk {
    #[allow(unused_variables)]
    fn eq(&self, other: &RollbackOk) -> (r: bool) {
        true
    }
}

impl PartialEqSpecImpl for RollbackOk {
    open spec fn obeys_eq_spec() -> bool {
        true
    }

    open spec fn eq_spec(&self, other: &RollbackOk) -> bool {
        args_equiv(self.spec_args(), other.spec_args())
    }
}
} // verus!
