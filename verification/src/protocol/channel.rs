//! The methods of the class `channel`.

use vstd::prelude::*;
use vstd::std_specs::cmp::PartialEqSpecImpl;

use crate::method::{
    args_equiv, field_equiv, fields_view, kinds_of, take_bit, take_longstr, take_short,
    take_shortstr, Field, FieldView, Kind, Method,
};
use crate::types::{bytes_eq, copy_bytes, str_eq, Bit, Longstr, Short, Shortstr, StrType};

verus! {

/// The method `channel.open`.
#[derive(Debug)]
pub struct Open {
    pub out_of_band: Shortstr,
}

impl Method for Open {
    open spec fn spec_class_id() -> u16 {
        20
    }

    open spec fn spec_method_id() -> u16 {
        10
    }

    open spec fn spec_kinds() -> Seq<Kind> {
        seq![Kind::Shortstr]
    }

    open spec fn spec_names() -> Seq<Seq<char>> {
        seq!["out_of_band"@]
    }

    open spec fn spec_args(&self) -> Seq<FieldView> {
        seq![FieldView::Shortstr(self.out_of_band@)]
    }

    open spec fn spec_str_type(param: Seq<char>) -> Option<StrType> {
        if param == "out_of_band"@ {
            Some(StrType::Short)
        } else {
            None
        }
    }

    proof fn lemma_kinds(&self) {
        assert(kinds_of(self.spec_args()) =~= Self::spec_kinds());
    }

    proof fn lemma_str_types() {
        reveal_strlit("out_of_band");
    }

    fn class_id() -> (r: u16) {
        20
    }

    fn method_id() -> (r: u16) {
        10
    }

    fn str_type(param: &str) -> (r: Option<StrType>) {
        if str_eq(param, "out_of_band") {
            Some(StrType::Short)
        } else {
            None
        }
    }

    fn kinds() -> (r: Vec<Kind>) {
        let mut r: Vec<Kind> = Vec::new();
        r.push(Kind::Shortstr);
        assert(r@ =~= Self::spec_kinds());
        r
    }

    fn args(&self) -> (r: Vec<Field>) {
        let mut r: Vec<Field> = Vec::new();
        r.push(Field::Shortstr(self.out_of_band.clone()));
        assert(fields_view(r@) =~= self.spec_args());
        r
    }

    fn from_args(args: Vec<Field>) -> (r: Self) {
        let mut args = args;
        let ghost all = fields_view(args@);
        assert(kinds_of(all).len() == 1);
        assert(kinds_of(all)[0] == Kind::Shortstr);
        let out_of_band = take_shortstr(&mut args);
        let r = Open { out_of_band };
        assert(r.spec_args() =~= all);
        r
    }
}

impl Default for Open {
    fn default() -> (r: Open)
        ensures
            r.out_of_band@ == Seq::<char>::empty(),
    {
        Open {
            out_of_band: String::new(),
        }
    }
}

impl PartialEq for Open {
    fn eq(&self, other: &Open) -> (r: bool) {
        let ghost x = self.spec_args();
        let ghost y = other.spec_args();
        let e0 = str_eq(self.out_of_band.as_str(), other.out_of_band.as_str());
        assert(e0 == field_equiv(x[0], y[0]));
        e0
    }
}

impl PartialEqSpecImpl for Open {
    open spec fn obeys_eq_spec() -> bool {
        true
    }

    open spec fn eq_spec(&self, other: &Open) -> bool {
        args_equiv(self.spec_args(), other.spec_args())
    }
}

/// The method `channel.open-ok`.
#[derive(Debug)]
pub struct OpenOk {
    pub channel_id: Longstr,
}

impl Method for OpenOk {
    open spec fn spec_class_id() -> u16 {
        20
    }

    open spec fn spec_method_id() -> u16 {
        11
    }

    open spec fn spec_kinds() -> Seq<Kind> {
        seq![Kind::Longstr]
    }

    open spec fn spec_names() -> Seq<Seq<char>> {
        seq!["channel_id"@]
    }

    open spec fn spec_args(&self) -> Seq<FieldView> {
        seq![FieldView::Longstr(self.channel_id@)]
    }

    open spec fn spec_str_type(param: Seq<char>) -> Option<StrType> {
        if param == "channel_id"@ {
            Some(StrType::Long)
        } else {
            None
        }
    }

    proof fn lemma_kinds(&self) {
        assert(kinds_of(self.spec_args()) =~= Self::spec_kinds());
    }

    proof fn lemma_str_types() {
        reveal_strlit("channel_id");
    }

    fn class_id() -> (r: u16) {
        20
    }

    fn method_id() -> (r: u16) {
        11
    }

    fn str_type(param: &str) -> (r: Option<StrType>) {
        if str_eq(param, "channel_id") {
            Some(StrType::Long)
        } else {
            None
        }
    }

    fn kinds() -> (r: Vec<Kind>) {
        let mut r: Vec<Kind> = Vec::new();
        r.push(Kind::Longstr);
        assert(r@ =~= Self::spec_kinds());
        r
    }

    fn args(&self) -> (r: Vec<Field>) {
        let mut r: Vec<Field> = Vec::new();
        r.push(Field::Longstr(copy_bytes(&self.channel_id)));
        assert(fields_view(r@) =~= self.spec_args());
        r
    }

    fn from_args(args: Vec<Field>) -> (r: Self) {
        let mut args = args;
        let ghost all = fields_view(args@);
        assert(kinds_of(all).len() == 1);
        assert(kinds_of(all)[0] == Kind::Longstr);
        let channel_id = take_longstr(&mut args);
        let r = OpenOk { channel_id };
        assert(r.spec_args() =~= all);
        r
    }
}

impl Default for OpenOk {
    fn default() -> (r: OpenOk)
        ensures
            r.channel_id@ == Seq::<u8>::empty(),
    {
        OpenOk {
            channel_id: Vec::new(),
        }
    }
}

impl PartialEq for OpenOk {
    fn eq(&self, other: &OpenOk) -> (r: bool) {
        let ghost x = self.spec_args();
        let ghost y = other.spec_args();
        let e0 = bytes_eq(self.channel_id.as_slice(), other.channel_id.as_slice());
        assert(e0 == field_equiv(x[0], y[0]));
        e0
    }
}

impl PartialEqSpecImpl for OpenOk {
    open spec fn obeys_eq_spec() -> bool {
        true
    }

    open spec fn eq_spec(&self, other: &OpenOk) -> bool {
        args_equiv(self.spec_args(), other.spec_args())
    }
}

/// The method `channel.flow`.
#[derive(Debug)]
pub struct Flow {
    pub active: Bit,
}

impl Method for Flow {
    open spec fn spec_class_id() -> u16 {
        20
    }

    open spec fn spec_method_id() -> u16 {
        20
    }

    open spec fn spec_kinds() -> Seq<Kind> {
        seq![Kind::Bit]
    }

    open spec fn spec_names() -> Seq<Seq<char>> {
        seq!["active"@]
    }

    open spec fn spec_args(&self) -> Seq<FieldView> {
        seq![FieldView::Bit(self.active)]
    }

    open spec fn spec_str_type(param: Seq<char>) -> Option<StrType> {
        None
    }

    proof fn lemma_kinds(&self) {
        assert(kinds_of(self.spec_args()) =~= Self::spec_kinds());
    }

    proof fn lemma_str_types() {
    }

    fn class_id() -> (r: u16) {
        20
    }

    fn method_id() -> (r: u16) {
        20
    }

    #[allow(unused_variables)]
    fn str_type(param: &str) -> (r: Option<StrType>) {
        None
    }

    fn kinds() -> (r: Vec<Kind>) {
        let mut r: Vec<Kind> = Vec::new();
        r.push(Kind::Bit);
        assert(r@ =~= Self::spec_kinds());
        r
    }

    fn args(&self) -> (r: Vec<Field>) {
        let mut r: Vec<Field> = Vec::new();
        r.push(Field::Bit(self.active));
        assert(fields_view(r@) =~= self.spec_args());
        r
    }

    fn from_args(args: Vec<Field>) -> (r: Self) {
        let mut args = args;
        let ghost all = fields_view(args@);
        assert(kinds_of(all).len() == 1);
        assert(kinds_of(all)[0] == Kind::Bit);
        let active = take_bit(&mut args);
        let r = Flow { active };
        assert(r.spec_args() =~= all);
        r
    }
}

impl Default for Flow {
    fn default() -> (r: Flow)
        ensures
            !r.active,
    {
        Flow {
            active: false,
        }
    }
}

impl PartialEq for Flow {
    fn eq(&self, other: &Flow) -> (r: bool) {
        let ghost x = self.spec_args();
        let ghost y = other.spec_args();
        let e0 = self.active == other.active;
        assert(e0 == field_equiv(x[0], y[0]));
        e0
    }
}

impl PartialEqSpecImpl for Flow {
    open spec fn obeys_eq_spec() -> bool {
        true
    }

    open spec fn eq_spec(&self, other: &Flow) -> bool {
        args_equiv(self.spec_args(), other.spec_args())
    }
}

/// The method `channel.flow-ok`.
#[derive(Debug)]
pub struct FlowOk {
    pub active: Bit,
}

impl Method for FlowOk {
    open spec fn spec_class_id() -> u16 {
        20
    }

    open spec fn spec_method_id() -> u16 {
        21
    }

    open spec fn spec_kinds() -> Seq<Kind> {
        seq![Kind::Bit]
    }

    open spec fn spec_names() -> Seq<Seq<char>> {
        seq!["active"@]
    }

    open spec fn spec_args(&self) -> Seq<FieldView> {
        seq![FieldView::Bit(self.active)]
    }

    open spec fn spec_str_type(param: Seq<char>) -> Option<StrType> {
        None
    }

    proof fn lemma_kinds(&self) {
        assert(kinds_of(self.spec_args()) =~= Self::spec_kinds());
    }

    proof fn lemma_str_types() {
    }

    fn class_id() -> (r: u16) {
        20
    }

    fn method_id() -> (r: u16) {
        21
    }

    #[allow(unused_variables)]
    fn str_type(param: &str) -> (r: Option<StrType>) {
        None
    }

    fn kinds() -> (r: Vec<Kind>) {
        let mut r: Vec<Kind> = Vec::new();
        r.push(Kind::Bit);
        assert(r@ =~= Self::spec_kinds());
        r
    }

    fn args(&self) -> (r: Vec<Field>) {
        let mut r: Vec<Field> = Vec::new();
        r.push(Field::Bit(self.active));
        assert(fields_view(r@) =~= self.spec_args());
        r
    }

    fn from_args(args: Vec<Field>) -> (r: Self) {
        let mut args = args;
        let ghost all = fields_view(args@);
        assert(kinds_of(all).len() == 1);
        assert(kinds_of(all)[0] == Kind::Bit);
        let active = take_bit(&mut args);
        let r = FlowOk { active };
        assert(r.spec_args() =~= all);
        r
    }
}

impl Default for FlowOk {
    fn default() -> (r: FlowOk)
        ensures
            !r.active,
    {
        FlowOk {
            active: false,
        }
    }
}

impl PartialEq for FlowOk {
    fn eq(&self, other: &FlowOk) -> (r: bool) {
        let ghost x = self.spec_args();
        let ghost y = other.spec_args();
        let e0 = self.active == other.active;
        assert(e0 == field_equiv(x[0], y[0]));
        e0
    }
}

impl PartialEqSpecImpl for FlowOk {
    open spec fn obeys_eq_spec() -> bool {
        true
    }

    open spec fn eq_spec(&self, other: &FlowOk) -> bool {
        args_equiv(self.spec_args(), other.spec_args())
    }
}

/// The method `channel.close`.
#[derive(Debug)]
pub struct Close {
    pub reply_code: Short,
    pub reply_text: Shortstr,
    pub class_id: Short,
    pub method_id: Short,
}

impl Method for Close {
    open spec fn spec_class_id() -> u16 {
        20
    }

    open spec fn spec_method_id() -> u16 {
        40
    }

    open spec fn spec_kinds() -> Seq<Kind> {
        seq![Kind::Short, Kind::Shortstr, Kind::Short, Kind::Short]
    }

    open spec fn spec_names() -> Seq<Seq<char>> {
        seq!["reply_code"@, "reply_text"@, "class_id"@, "method_id"@]
    }

    open spec fn spec_args(&self) -> Seq<FieldView> {
        seq![
            FieldView::Short(self.reply_code),
            FieldView::Shortstr(self.reply_text@),
            FieldView::Short(self.class_id),
            FieldView::Short(self.method_id),
        ]
    }

    open spec fn spec_str_type(param: Seq<char>) -> Option<StrType> {
        if param == "reply_text"@ {
            Some(StrType::Short)
        } else {
            None
        }
    }

    proof fn lemma_kinds(&self) {
        assert(kinds_of(self.spec_args()) =~= Self::spec_kinds());
    }

    proof fn lemma_str_types() {
        reveal_strlit("reply_code");
        reveal_strlit("reply_text");
        reveal_strlit("class_id");
        reveal_strlit("method_id");
        assert("reply_code"@[6] != "reply_text"@[6]);
        assert("class_id"@.len() != "reply_text"@.len());
        assert("method_id"@.len() != "reply_text"@.len());
    }

    fn class_id() -> (r: u16) {
        20
    }

    fn method_id() -> (r: u16) {
        40
    }

    fn str_type(param: &str) -> (r: Option<StrType>) {
        if str_eq(param, "reply_text") {
            Some(StrType::Short)
        } else {
            None
        }
    }

    fn kinds() -> (r: Vec<Kind>) {
        let mut r: Vec<Kind> = Vec::new();
        r.push(Kind::Short);
        r.push(Kind::Shortstr);
        r.push(Kind::Short);
        r.push(Kind::Short);
        assert(r@ =~= Self::spec_kinds());
        r
    }

    fn args(&self) -> (r: Vec<Field>) {
        let mut r: Vec<Field> = Vec::new();
        r.push(Field::Short(self.reply_code));
        r.push(Field::Shortstr(self.reply_text.clone()));
        r.push(Field::Short(self.class_id));
        r.push(Field::Short(self.method_id));
        assert(fields_view(r@) =~= self.spec_args());
        r
    }

    fn from_args(args: Vec<Field>) -> (r: Self) {
        let mut args = args;
        let ghost all = fields_view(args@);
        assert(kinds_of(all).len() == 4);
        assert(kinds_of(all)[0] == Kind::Short);
        assert(kinds_of(all)[1] == Kind::Shortstr);
        assert(kinds_of(all)[2] == Kind::Short);
        assert(kinds_of(all)[3] == Kind::Short);
        let method_id = take_short(&mut args);
        let class_id = take_short(&mut args);
        let reply_text = take_shortstr(&mut args);
        let reply_code = take_short(&mut args);
        let r = Close { reply_code, reply_text, class_id, method_id };
        assert(r.spec_args() =~= all);
        r
    }
}

impl Default for Close {
    fn default() -> (r: Close)
        ensures
            r.reply_code == 0,
            r.reply_text@ == Seq::<char>::empty(),
            r.class_id == 0,
            r.method_id == 0,
    {
        Close {
            reply_code: 0,
            reply_text: String::new(),
            class_id: 0,
            method_id: 0,
        }
    }
}

impl PartialEq for Close {
    fn eq(&self, other: &Close) -> (r: bool) {
        let ghost x = self.spec_args();
        let ghost y = other.spec_args();
        let e0 = self.reply_code == other.reply_code;
        assert(e0 == field_equiv(x[0], y[0]));
        let e1 = str_eq(self.reply_text.as_str(), other.reply_text.as_str());
        assert(e1 == field_equiv(x[1], y[1]));
        let e2 = self.class_id == other.class_id;
        assert(e2 == field_equiv(x[2], y[2]));
        let e3 = self.method_id == other.method_id;
        assert(e3 == field_equiv(x[3], y[3]));
        e0 && e1 && e2 && e3
    }
}

impl PartialEqSpecImpl for Close {
    open spec fn obeys_eq_spec() -> bool {
        true
    }

    open spec fn eq_spec(&self, other: &Close) -> bool {
        args_equiv(self.spec_args(), other.spec_args())
    }
}

/// The method `channel.close-ok`.
#[derive(Debug)]
pub struct CloseOk {}

impl Method for CloseOk {
    open spec fn spec_class_id() -> u16 {
        20
    }

    open spec fn spec_method_id() -> u16 {
        41
    }

    open spec fn spec_kinds() -> Seq<Kind> {
        Seq::empty()
    }

    open spec fn spec_names() -> Seq<Seq<char>> {
        Seq::empty()
    }

    open spec fn spec_args(&self) -> Seq<FieldView> {
        Seq::empty()
    }

    open spec fn spec_str_type(param: Seq<char>) -> Option<StrType> {
        None
    }

    proof fn lemma_kinds(&self) {
        assert(kinds_of(self.spec_args()) =~= Self::spec_kinds());
    }

    proof fn lemma_str_types() {
    }

    fn class_id() -> (r: u16) {
        20
    }

    fn method_id() -> (r: u16) {
        41
    }

    #[allow(unused_variables)]
    fn str_type(param: &str) -> (r: Option<StrType>) {
        None
    }

    fn kinds() -> (r: Vec<Kind>) {
        Vec::new()
    }

    fn args(&self) -> (r: Vec<Field>) {
        let r: Vec<Field> = Vec::new();
        assert(fields_view(r@) =~= self.spec_args());
        r
    }

    fn from_args(args: Vec<Field>) -> (r: Self) {
        let r = CloseOk {};
        assert(kinds_of(fields_view(args@)).len() == 0);
        assert(r.spec_args() =~= fields_view(args@));
        r
    }
}

impl Default for CloseOk {
    fn default() -> (r: CloseOk)
    {
        CloseOk {}
    }
}

impl PartialEq for CloseOk {
    #[allow(unused_variables)]
    fn eq(&self, other: &CloseOk) -> (r: bool) {
        true
    }
}

impl PartialEqSpecImpl for CloseOk {
    open spec fn obeys_eq_spec() -> bool {
        true
    }

    open spec fn eq_spec(&self, other: &CloseOk) -> bool {
        args_equiv(self.spec_args(), other.spec_args())
    }
}
} // verus!
