//! Field values and field tables, with the mathematical model that the
//! contracts of the codec speak of.

use vstd::prelude::*;
use vstd::slice::slice_to_vec;
use vstd::std_specs::cmp::PartialEqSpecImpl;

verus! {

/// Whether a string field travels with a one-octet or a four-octet length.
#[derive(Debug, Clone, Copy, PartialEq, Eq, Structural)]
pub enum StrType {
    Short,
    Long,
}

pub type Bit = bool;

pub type Octet = u8;

pub type Short = u16;

pub type Long = u32;

pub type Longlong = u64;

pub type Shortstr = String;

pub type Longstr = Vec<u8>;

pub type FieldName = Shortstr;

/// What a [`FieldValue`] denotes. Strings are sequences of characters, byte
/// strings sequences of bytes, and a table is the sequence of its entries in
/// the order in which they are written to the wire.
pub enum Value {
    Bool(bool),
    ShortShortInt(i8),
    ShortShortUint(u8),
    ShortInt(i16),
    ShortUint(u16),
    LongInt(i32),
    LongUint(u32),
    LongLongInt(i64),
    LongLongUint(u64),
    Float(u32),
    Double(u64),
    DecimalValue(u8, u32),
    ShortString(Seq<char>),
    LongString(Seq<u8>),
    FieldArray(Seq<Value>),
    Timestamp(u64),
    FieldTable(Seq<(Seq<char>, Value)>),
    Void,
}

/// The entries of a table, in wire order.
pub type Entries = Seq<(Seq<char>, Value)>;

/// A value of a field table.
///
/// `Float` and `Double` hold the bit pattern of an IEEE-754 number
/// (`f32::to_bits`, `f64::to_bits`), which is what travels on the wire.
#[derive(Debug)]
pub enum FieldValue {
    Bool(bool),
    ShortShortInt(i8),
    ShortShortUint(u8),
    ShortInt(i16),
    ShortUint(u16),
    LongInt(i32),
    LongUint(u32),
    LongLongInt(i64),
    LongLongUint(u64),
    Float(u32),
    Double(u64),
    /// Scale, then value.
    DecimalValue(u8, u32),
    ShortString(Shortstr),
    LongString(Longstr),
    FieldArray(Vec<FieldValue>),
    Timestamp(u64),
    FieldTable(Table),
    Void,
}

/// A field table: field names with their values. A name occurs at most once;
/// the entries keep the order in which their names were first inserted.
#[derive(Debug)]
pub struct Table {
    entries: Vec<(FieldName, FieldValue)>,
}

/// What the values of an array denote, one by one.
pub open spec fn values_view(a: Seq<FieldValue>) -> Seq<Value>
    decreases a,
{
    Seq::new(
        a.len(),
        |i: int|
            if 0 <= i < a.len() {
                a[i]@
            } else {
                Value::Void
            },
    )
}

impl View for FieldValue {
    type V = Value;

    open spec fn view(&self) -> Value
        decreases self,
    {
        match self {
            FieldValue::Bool(v) => Value::Bool(*v),
            FieldValue::ShortShortInt(v) => Value::ShortShortInt(*v),
            FieldValue::ShortShortUint(v) => Value::ShortShortUint(*v),
            FieldValue::ShortInt(v) => Value::ShortInt(*v),
            FieldValue::ShortUint(v) => Value::ShortUint(*v),
            FieldValue::LongInt(v) => Value::LongInt(*v),
            FieldValue::LongUint(v) => Value::LongUint(*v),
            FieldValue::LongLongInt(v) => Value::LongLongInt(*v),
            FieldValue::LongLongUint(v) => Value::LongLongUint(*v),
            FieldValue::Float(v) => Value::Float(*v),
            FieldValue::Double(v) => Value::Double(*v),
            FieldValue::DecimalValue(scale, v) => Value::DecimalValue(*scale, *v),
            FieldValue::ShortString(s) => Value::ShortString(s@),
            FieldValue::LongString(b) => Value::LongString(b@),
            FieldValue::FieldArray(a) => Value::FieldArray(values_view(a@)),
            FieldValue::Timestamp(v) => Value::Timestamp(*v),
            FieldValue::FieldTable(t) => Value::FieldTable(t@),
            FieldValue::Void => Value::Void,
        }
    }
}

impl View for Table {
    type V = Entries;

    closed spec fn view(&self) -> Entries
        decreases self,
    {
        Seq::new(
            self.entries@.len(),
            |i: int|
                if 0 <= i < self.entries@.len() {
                    (self.entries@[i].0@, self.entries@[i].1@)
                } else {
                    (Seq::empty(), Value::Void)
                },
        )
    }
}

/// Whether `i` is the first entry of `t` under the name `key`.
pub open spec fn is_first(t: Entries, key: Seq<char>, i: int) -> bool {
    &&& 0 <= i < t.len()
    &&& t[i].0 == key
    &&& forall|j: int| 0 <= j < i ==> t[j].0 != key
}

/// Whether `t` has an entry under the name `key`.
pub open spec fn has_key(t: Entries, key: Seq<char>) -> bool {
    exists|i: int| 0 <= i < t.len() && (#[trigger] t[i]).0 == key
}

/// The index of the first entry of `t` under the name `key`.
pub open spec fn first_index(t: Entries, key: Seq<char>) -> int {
    choose|i: int| is_first(t, key, i)
}

/// The value that `t` holds under the name `key`.
pub open spec fn lookup(t: Entries, key: Seq<char>) -> Option<Value> {
    if has_key(t, key) {
        Some(t[first_index(t, key)].1)
    } else {
        None
    }
}

/// `t` after `value` was put under the name `key`: in the place of the entry
/// of that name, or behind all entries where there is none.
pub open spec fn inserted(t: Entries, key: Seq<char>, value: Value) -> Entries {
    if has_key(t, key) {
        t.update(first_index(t, key), (key, value))
    } else {
        t.push((key, value))
    }
}

/// No name occurs twice in `t`.
pub open spec fn distinct_names(t: Entries) -> bool {
    forall|i: int, j: int| 0 <= i < j < t.len() ==> t[i].0 != t[j].0
}

/// Every table inside `v`, at any depth, has distinct names.
pub open spec fn value_wf(v: Value) -> bool
    decreases v,
{
    match v {
        Value::FieldArray(a) => forall|i: int| 0 <= i < a.len() ==> value_wf(#[trigger] a[i]),
        Value::FieldTable(t) => distinct_names(t) && forall|i: int|
            0 <= i < t.len() ==> value_wf((#[trigger] t[i]).1),
        _ => true,
    }
}

/// `t` has distinct names, and so has every table inside it.
pub open spec fn entries_wf(t: Entries) -> bool {
    value_wf(Value::FieldTable(t))
}

/// A name that occurs in `t` has a first entry, and [`first_index`] is its index.
pub proof fn lemma_first_index(t: Entries, key: Seq<char>)
    requires
        has_key(t, key),
    ensures
        is_first(t, key, first_index(t, key)),
{
    let i = choose|i: int| 0 <= i < t.len() && (#[trigger] t[i]).0 == key;
    lemma_first_before(t, key, i);
}

proof fn lemma_first_before(t: Entries, key: Seq<char>, i: int)
    requires
        0 <= i < t.len(),
        t[i].0 == key,
    ensures
        exists|k: int| is_first(t, key, k),
    decreases i,
{
    if exists|j: int| 0 <= j < i && (#[trigger] t[j]).0 == key {
        let j = choose|j: int| 0 <= j < i && (#[trigger] t[j]).0 == key;
        lemma_first_before(t, key, j);
    } else {
        assert(is_first(t, key, i));
    }
}

/// A name that does not occur in `t` is inserted behind all entries.
pub proof fn lemma_insert_fresh(t: Entries, key: Seq<char>, value: Value)
    requires
        forall|i: int| 0 <= i < t.len() ==> (#[trigger] t[i]).0 != key,
    ensures
        inserted(t, key, value) == t.push((key, value)),
{
}

/// Whether two byte strings hold the same bytes.
pub fn bytes_eq(x: &[u8], y: &[u8]) -> (r: bool)
    ensures
        r == (x@ == y@),
{
    if x.len() != y.len() {
        return false;
    }
    let mut i: usize = 0;
    while i < x.len()
        invariant
            i <= x@.len(),
            x@.len() == y@.len(),
            forall|j: int| 0 <= j < i ==> x@[j] == y@[j],
        decreases x@.len() - i,
    {
        if x[i] != y[i] {
            return false;
        }
        i += 1;
    }
    assert(x@ =~= y@);
    true
}

/// Whether two strings spell the same characters.
pub fn str_eq(a: &str, b: &str) -> (r: bool)
    ensures
        r == (a@ == b@),
{
    broadcast use vstd::utf8::encode_utf8_decode_utf8;

    assert(a@ == vstd::utf8::decode_utf8(vstd::utf8::encode_utf8(a@)));
    assert(b@ == vstd::utf8::decode_utf8(vstd::utf8::encode_utf8(b@)));
    bytes_eq(a.as_bytes(), b.as_bytes())
}

impl Table {
    /// The invariant of a table: names are distinct, at every depth.
    pub open spec fn wf(&self) -> bool {
        entries_wf(self@)
    }

    /// An empty table.
    pub fn new() -> (t: Table)
        ensures
            t@ == Entries::empty(),
            t.wf(),
    {
        Table { entries: Vec::new() }
    }

    /// The number of entries.
    pub fn len(&self) -> (n: usize)
        ensures
            n == self@.len(),
    {
        self.entries.len()
    }

    pub fn is_empty(&self) -> (b: bool)
        ensures
            b == (self@.len() == 0),
    {
        self.entries.len() == 0
    }

    /// The name of the entry at `i`.
    pub fn name_at(&self, i: usize) -> (name: &FieldName)
        requires
            i < self@.len(),
        ensures
            name@ == self@[i as int].0,
    {
        &self.entries[i].0
    }

    /// The value of the entry at `i`.
    pub fn value_at(&self, i: usize) -> (value: &FieldValue)
        requires
            i < self@.len(),
        ensures
            value@ == self@[i as int].1,
            decreases_to!(*self => *value),
    {
        &self.entries[i].1
    }

    /// The index of the entry under the name `key`.
    pub fn position(&self, key: &str) -> (r: Option<usize>)
        ensures
            r is Some <==> has_key(self@, key@),
            r matches Some(i) ==> i == first_index(self@, key@) && is_first(self@, key@, i as int),
    {
        let ghost t = self@;
        let mut i: usize = 0;
        while i < self.entries.len()
            invariant
                i <= self.entries@.len(),
                t == self@,
                forall|j: int| 0 <= j < i ==> (#[trigger] t[j]).0 != key@,
            decreases self.entries@.len() - i,
        {
            if str_eq(self.entries[i].0.as_str(), key) {
                assert(t[i as int].0 == key@);
                assert(is_first(t, key@, i as int));
                return Some(i);
            }
            assert(t[i as int].0 != key@);
            i += 1;
        }
        None
    }

    /// The value under the name `key`.
    pub fn get(&self, key: &str) -> (r: Option<&FieldValue>)
        ensures
            r is Some <==> has_key(self@, key@),
            r matches Some(v) ==> lookup(self@, key@) == Some(v@),
    {
        match self.position(key) {
            Some(i) => Some(&self.entries[i].1),
            None => None,
        }
    }

    pub fn contains_key(&self, key: &str) -> (b: bool)
        ensures
            b == has_key(self@, key@),
    {
        self.position(key).is_some()
    }

    /// Puts `value` under the name `key` and gives back the value that was
    /// there before.
    pub fn insert(&mut self, key: FieldName, value: FieldValue) -> (r: Option<FieldValue>)
        ensures
            final(self)@ == inserted(old(self)@, key@, value@),
            r is Some <==> has_key(old(self)@, key@),
            r matches Some(v) ==> lookup(old(self)@, key@) == Some(v@),
            old(self).wf() && value_wf(value@) ==> final(self).wf(),
    {
        let found = self.position(key.as_str());
        let ghost before = self@;
        let ghost k = key@;
        let ghost v = value@;
        self.entries.push((key, value));
        match found {
            Some(i) => {
                let gone = self.entries.swap_remove(i);
                assert(self@ =~= before.update(i as int, (k, v)));
                proof {
                    if entries_wf(before) && value_wf(v) {
                        assert(distinct_names(self@));
                        assert forall|j: int| 0 <= j < self@.len() implies value_wf(
                            (#[trigger] self@[j]).1,
                        ) by {
                            if j != i {
                                assert(self@[j] == before[j]);
                            }
                        }
                    }
                }
                Some(gone.1)
            },
            None => {
                assert(self@ =~= before.push((k, v)));
                proof {
                    if entries_wf(before) && value_wf(v) {
                        assert(distinct_names(self@));
                        assert forall|j: int| 0 <= j < self@.len() implies value_wf(
                            (#[trigger] self@[j]).1,
                        ) by {
                            if j < before.len() {
                                assert(self@[j] == before[j]);
                            }
                        }
                    }
                }
                None
            },
        }
    }
}

/// The UTF-8 bytes of `s`.
pub fn bytes_of(s: &str) -> (r: Vec<u8>)
    ensures
        r@ == vstd::utf8::encode_utf8(s@),
{
    slice_to_vec(s.as_bytes())
}

/// A copy of the bytes `b`.
pub fn copy_bytes(b: &Vec<u8>) -> (r: Vec<u8>)
    ensures
        r@ == b@,
{
    slice_to_vec(b.as_slice())
}

/// A copy of the values `a`.
pub fn copy_values(a: &Vec<FieldValue>) -> (r: Vec<FieldValue>)
    ensures
        values_view(r@) == values_view(a@),
    decreases a,
{
    let mut items: Vec<FieldValue> = Vec::new();
    let mut i: usize = 0;
    while i < a.len()
        invariant
            i <= a@.len(),
            items@.len() == i,
            forall|j: int| 0 <= j < i ==> (#[trigger] items@[j])@ == a@[j]@,
        decreases a@.len() - i,
    {
        let item = a[i].clone();
        items.push(item);
        i += 1;
    }
    assert(values_view(items@) =~= values_view(a@));
    items
}

impl Clone for FieldValue {
    fn clone(&self) -> (r: FieldValue)
        ensures
            r@ == self@,
        decreases self,
    {
        match self {
            FieldValue::Bool(v) => FieldValue::Bool(*v),
            FieldValue::ShortShortInt(v) => FieldValue::ShortShortInt(*v),
            FieldValue::ShortShortUint(v) => FieldValue::ShortShortUint(*v),
            FieldValue::ShortInt(v) => FieldValue::ShortInt(*v),
            FieldValue::ShortUint(v) => FieldValue::ShortUint(*v),
            FieldValue::LongInt(v) => FieldValue::LongInt(*v),
            FieldValue::LongUint(v) => FieldValue::LongUint(*v),
            FieldValue::LongLongInt(v) => FieldValue::LongLongInt(*v),
            FieldValue::LongLongUint(v) => FieldValue::LongLongUint(*v),
            FieldValue::Float(v) => FieldValue::Float(*v),
            FieldValue::Double(v) => FieldValue::Double(*v),
            FieldValue::DecimalValue(scale, v) => FieldValue::DecimalValue(*scale, *v),
            FieldValue::ShortString(s) => FieldValue::ShortString(s.clone()),
            FieldValue::LongString(b) => FieldValue::LongString(copy_bytes(b)),
            FieldValue::FieldArray(a) => FieldValue::FieldArray(copy_values(a)),
            FieldValue::Timestamp(v) => FieldValue::Timestamp(*v),
            FieldValue::FieldTable(t) => FieldValue::FieldTable(t.clone()),
            FieldValue::Void => FieldValue::Void,
        }
    }
}

impl Clone for Table {
    fn clone(&self) -> (r: Table)
        ensures
            r@ == self@,
        decreases self,
    {
        let mut entries: Vec<(FieldName, FieldValue)> = Vec::new();
        let mut i: usize = 0;
        while i < self.entries.len()
            invariant
                i <= self.entries@.len(),
                entries@.len() == i,
                forall|j: int|
                    0 <= j < i ==> (#[trigger] entries@[j]).0@ == self.entries@[j].0@
                        && entries@[j].1@ == self.entries@[j].1@,
            decreases self.entries@.len() - i,
        {
            let name = self.entries[i].0.clone();
            let value = self.entries[i].1.clone();
            entries.push((name, value));
            i += 1;
        }
        let r = Table { entries };
        assert(r@ =~= self@);
        r
    }
}

impl Default for Table {
    fn default() -> (t: Table)
        ensures
            t@ == Entries::empty(),
            t.wf(),
    {
        Table::new()
    }
}

/// Whether two values are equal, the order of the entries of their tables
/// aside: values of two kinds differ; arrays are equal item by item; tables
/// are equal where they have as many entries and each name of the first has
/// an equal value in the second; all others are equal where they hold the
/// same.
pub open spec fn value_equiv(a: Value, b: Value) -> bool
    decreases a,
{
    match a {
        Value::FieldArray(x) => b matches Value::FieldArray(y) && x.len() == y.len() && forall|
            i: int,
        |
            0 <= i < x.len() ==> value_equiv(#[trigger] x[i], y[i]),
        Value::FieldTable(x) => b matches Value::FieldTable(y) && x.len() == y.len() && forall|
            i: int,
        |
            0 <= i < x.len() ==> has_key(y, (#[trigger] x[i]).0) && value_equiv(
                x[i].1,
                y[first_index(y, x[i].0)].1,
            ),
        _ => a == b,
    }
}

/// Every value whose tables have distinct names is equal to itself.
pub proof fn lemma_equiv_reflexive(v: Value)
    requires
        value_wf(v),
    ensures
        value_equiv(v, v),
    decreases v,
{
    match v {
        Value::FieldArray(x) => {
            assert forall|i: int| 0 <= i < x.len() implies value_equiv(#[trigger] x[i], x[i]) by {
                lemma_equiv_reflexive(x[i]);
            }
        },
        Value::FieldTable(x) => {
            assert forall|i: int| 0 <= i < x.len() implies has_key(x, (#[trigger] x[i]).0)
                && value_equiv(x[i].1, x[first_index(x, x[i].0)].1) by {
                lemma_first_index(x, x[i].0);
                let j = first_index(x, x[i].0);
                assert(j == i);
                lemma_equiv_reflexive(x[i].1);
            }
        },
        _ => {},
    }
}

/// After `value` was put under the name `key`, `key` has that value, every
/// other name has what it had, and as many entries are there as before, or
/// one more where the name is new.
pub proof fn lemma_lookup_inserted(t: Entries, key: Seq<char>, value: Value, other: Seq<char>)
    ensures
        lookup(inserted(t, key, value), key) == Some(value),
        other != key ==> lookup(inserted(t, key, value), other) == lookup(t, other),
        inserted(t, key, value).len() == if has_key(t, key) {
            t.len()
        } else {
            t.len() + 1
        },
        distinct_names(t) ==> distinct_names(inserted(t, key, value)),
{
    let u = inserted(t, key, value);
    if has_key(t, key) {
        lemma_first_index(t, key);
        let i = first_index(t, key);
        assert(is_first(u, key, i));
        assert(u[i].0 == key);
        lemma_first_index(u, key);
        if other != key {
            if has_key(t, other) {
                lemma_first_index(t, other);
                let j = first_index(t, other);
                assert(u[j] == t[j]);
                assert(is_first(u, other, j)) by {
                    assert forall|k: int| 0 <= k < j implies u[k].0 != other by {
                        if k != i {
                            assert(u[k] == t[k]);
                        }
                    }
                }
                assert(has_key(u, other));
                lemma_first_index(u, other);
            } else {
                assert forall|k: int| 0 <= k < u.len() implies (#[trigger] u[k]).0 != other by {
                    if k != i {
                        assert(u[k] == t[k]);
                    }
                }
            }
        }
    } else {
        let n = t.len() as int;
        assert(u[n] == (key, value));
        assert(is_first(u, key, n)) by {
            assert forall|k: int| 0 <= k < n implies u[k].0 != key by {
                assert(u[k] == t[k]);
            }
        }
        assert(has_key(u, key));
        lemma_first_index(u, key);
        if other != key {
            if has_key(t, other) {
                lemma_first_index(t, other);
                let j = first_index(t, other);
                assert(u[j] == t[j]);
                assert(is_first(u, other, j)) by {
                    assert forall|k: int| 0 <= k < j implies u[k].0 != other by {
                        assert(u[k] == t[k]);
                    }
                }
                assert(has_key(u, other));
                lemma_first_index(u, other);
            } else {
                assert forall|k: int| 0 <= k < u.len() implies (#[trigger] u[k]).0 != other by {
                    if k < n {
                        assert(u[k] == t[k]);
                    }
                }
            }
        }
    }
}

/// Whether two tables are equal, the order of their entries aside.
pub open spec fn entries_equiv(x: Entries, y: Entries) -> bool {
    value_equiv(Value::FieldTable(x), Value::FieldTable(y))
}

/// Whether `a` and `b` are equal, the order of table entries aside.
pub fn value_eq(a: &FieldValue, b: &FieldValue) -> (r: bool)
    ensures
        r == value_equiv(a@, b@),
    decreases a,
{
    match (a, b) {
        (FieldValue::Bool(x), FieldValue::Bool(y)) => *x == *y,
        (FieldValue::ShortShortInt(x), FieldValue::ShortShortInt(y)) => *x == *y,
        (FieldValue::ShortShortUint(x), FieldValue::ShortShortUint(y)) => *x == *y,
        (FieldValue::ShortInt(x), FieldValue::ShortInt(y)) => *x == *y,
        (FieldValue::ShortUint(x), FieldValue::ShortUint(y)) => *x == *y,
        (FieldValue::LongInt(x), FieldValue::LongInt(y)) => *x == *y,
        (FieldValue::LongUint(x), FieldValue::LongUint(y)) => *x == *y,
        (FieldValue::LongLongInt(x), FieldValue::LongLongInt(y)) => *x == *y,
        (FieldValue::LongLongUint(x), FieldValue::LongLongUint(y)) => *x == *y,
        (FieldValue::Float(x), FieldValue::Float(y)) => *x == *y,
        (FieldValue::Double(x), FieldValue::Double(y)) => *x == *y,
        (FieldValue::DecimalValue(s, x), FieldValue::DecimalValue(t, y)) => *s == *t && *x == *y,
        (FieldValue::ShortString(x), FieldValue::ShortString(y)) => str_eq(
            x.as_str(),
            y.as_str(),
        ),
        (FieldValue::LongString(x), FieldValue::LongString(y)) => bytes_eq(
            x.as_slice(),
            y.as_slice(),
        ),
        (FieldValue::FieldArray(x), FieldValue::FieldArray(y)) => values_eq(x, y),
        (FieldValue::Timestamp(x), FieldValue::Timestamp(y)) => *x == *y,
        (FieldValue::FieldTable(x), FieldValue::FieldTable(y)) => table_eq(x, y),
        (FieldValue::Void, FieldValue::Void) => true,
        _ => false,
    }
}

/// Whether `a` and `b` are equal item by item.
pub fn values_eq(a: &Vec<FieldValue>, b: &Vec<FieldValue>) -> (r: bool)
    ensures
        r == value_equiv(Value::FieldArray(values_view(a@)), Value::FieldArray(values_view(b@))),
    decreases a,
{
    if a.len() != b.len() {
        return false;
    }
    let ghost x = values_view(a@);
    let ghost y = values_view(b@);
    let mut i: usize = 0;
    while i < a.len()
        invariant
            i <= a@.len(),
            a@.len() == b@.len(),
            x == values_view(a@),
            y == values_view(b@),
            forall|j: int| 0 <= j < i ==> value_equiv(#[trigger] x[j], y[j]),
        decreases a@.len() - i,
    {
        if !value_eq(&a[i], &b[i]) {
            assert(!value_equiv(x[i as int], y[i as int]));
            return false;
        }
        i += 1;
    }
    true
}

/// Whether `a` and `b` have the same names with equal values.
pub fn table_eq(a: &Table, b: &Table) -> (r: bool)
    ensures
        r == entries_equiv(a@, b@),
    decreases a,
{
    if a.entries.len() != b.entries.len() {
        return false;
    }
    let ghost x = a@;
    let ghost y = b@;
    let mut i: usize = 0;
    while i < a.entries.len()
        invariant
            i <= a.entries@.len(),
            a.entries@.len() == b.entries@.len(),
            x == a@,
            y == b@,
            forall|j: int|
                0 <= j < i ==> has_key(y, (#[trigger] x[j]).0) && value_equiv(
                    x[j].1,
                    y[first_index(y, x[j].0)].1,
                ),
        decreases a.entries@.len() - i,
    {
        match b.position(a.entries[i].0.as_str()) {
            Some(j) => {
                if !value_eq(&a.entries[i].1, &b.entries[j].1) {
                    assert(!value_equiv(x[i as int].1, y[first_index(y, x[i as int].0)].1));
                    return false;
                }
            },
            None => {
                assert(!has_key(y, x[i as int].0));
                return false;
            },
        }
        i += 1;
    }
    true
}

impl PartialEq for FieldValue {
    fn eq(&self, other: &FieldValue) -> (r: bool) {
        value_eq(self, other)
    }
}

impl PartialEqSpecImpl for FieldValue {
    open spec fn obeys_eq_spec() -> bool {
        true
    }

    open spec fn eq_spec(&self, other: &FieldValue) -> bool {
        value_equiv(self@, other@)
    }
}

impl PartialEq for Table {
    fn eq(&self, other: &Table) -> (r: bool) {
        table_eq(self, other)
    }
}

impl PartialEqSpecImpl for Table {
    open spec fn obeys_eq_spec() -> bool {
        true
    }

    open spec fn eq_spec(&self, other: &Table) -> bool {
        entries_equiv(self@, other@)
    }
}

} // verus!
