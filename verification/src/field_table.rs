//! The wire format of field tables: each entry is a name as a short string,
//! a one-octet tag and the value; a table or an array is a body of entries or
//! of tagged values behind its length in four octets.

use vstd::prelude::*;

use crate::result::{AmqpError, AmqpResult, Fault, Violation};
use crate::types::{
    distinct_names, entries_wf, has_key, inserted, value_wf, values_view, Entries, FieldValue,
    Table, Value,
};
use crate::wire::{
    appended, be16, be32, be64, put_short_str, put_sized, put_u16, put_u32, put_u64, read_long_str,
    read_short_str, read_u16, read_u32, read_u64, read_u8, reads_view, short_str_bytes, sized,
    take_long_str, take_short_str, take_u16, take_u32, take_u64, take_u8, truncated, holds_at, fits,
    lemma_holds_self, lemma_holds_split, lemma_take_long_str, lemma_take_short_str,
    lemma_take_sized, lemma_take_u16, lemma_take_u32, lemma_take_u64, lemma_take_u8,
};

verus! {

/// The tag of a bool, `t`.
pub const TAG_BOOL: u8 = 0x74;

/// The tag of a signed octet, `b`.
pub const TAG_SHORT_SHORT_INT: u8 = 0x62;

/// The tag of an unsigned octet, `B`.
pub const TAG_SHORT_SHORT_UINT: u8 = 0x42;

/// The tag of a signed 16-bit number, `U`.
pub const TAG_SHORT_INT: u8 = 0x55;

/// The tag of an unsigned 16-bit number, `u`.
pub const TAG_SHORT_UINT: u8 = 0x75;

/// The tag of a signed 32-bit number, `I`.
pub const TAG_LONG_INT: u8 = 0x49;

/// The tag of an unsigned 32-bit number, `i`.
pub const TAG_LONG_UINT: u8 = 0x69;

/// The tag of a signed 64-bit number, `L`.
pub const TAG_LONG_LONG_INT: u8 = 0x4c;

/// The tag of an unsigned 64-bit number, `l`.
pub const TAG_LONG_LONG_UINT: u8 = 0x6c;

/// The tag of a float, `f`.
pub const TAG_FLOAT: u8 = 0x66;

/// The tag of a double, `d`.
pub const TAG_DOUBLE: u8 = 0x64;

/// The tag of a decimal, `D`.
pub const TAG_DECIMAL: u8 = 0x44;

/// The tag of a short string, `s`.
pub const TAG_SHORT_STRING: u8 = 0x73;

/// The tag of a long string, `S`.
pub const TAG_LONG_STRING: u8 = 0x53;

/// The tag of an array, `A`.
pub const TAG_ARRAY: u8 = 0x41;

/// The tag of a timestamp, `T`.
pub const TAG_TIMESTAMP: u8 = 0x54;

/// The tag of a table, `F`.
pub const TAG_TABLE: u8 = 0x46;

/// The tag of no value, `V`.
pub const TAG_VOID: u8 = 0x56;

/// The tag that announces a value of each kind.
pub open spec fn tag_of(v: Value) -> u8 {
    match v {
        Value::Bool(_) => TAG_BOOL,
        Value::ShortShortInt(_) => TAG_SHORT_SHORT_INT,
        Value::ShortShortUint(_) => TAG_SHORT_SHORT_UINT,
        Value::ShortInt(_) => TAG_SHORT_INT,
        Value::ShortUint(_) => TAG_SHORT_UINT,
        Value::LongInt(_) => TAG_LONG_INT,
        Value::LongUint(_) => TAG_LONG_UINT,
        Value::LongLongInt(_) => TAG_LONG_LONG_INT,
        Value::LongLongUint(_) => TAG_LONG_LONG_UINT,
        Value::Float(_) => TAG_FLOAT,
        Value::Double(_) => TAG_DOUBLE,
        Value::DecimalValue(_, _) => TAG_DECIMAL,
        Value::ShortString(_) => TAG_SHORT_STRING,
        Value::LongString(_) => TAG_LONG_STRING,
        Value::FieldArray(_) => TAG_ARRAY,
        Value::Timestamp(_) => TAG_TIMESTAMP,
        Value::FieldTable(_) => TAG_TABLE,
        Value::Void => TAG_VOID,
    }
}

/// `bytes` behind `head`, or the fault that kept `bytes` from being made.
pub open spec fn behind(head: Seq<u8>, bytes: Result<Seq<u8>, Fault>) -> Result<Seq<u8>, Fault> {
    match bytes {
        Ok(b) => Ok(head + b),
        Err(fault) => Err(fault),
    }
}

/// `body` behind its four-octet length, or the fault that kept it from being made.
pub open spec fn sized_body(body: Result<Seq<u8>, Fault>) -> Result<Seq<u8>, Fault> {
    match body {
        Ok(b) => sized(b),
        Err(fault) => Err(fault),
    }
}

/// The bytes of a value behind its tag.
pub open spec fn value_bytes(v: Value) -> Result<Seq<u8>, Fault>
    decreases v, 0int,
{
    match v {
        Value::Bool(b) => Ok(
            seq![
                if b {
                    1u8
                } else {
                    0u8
                },
            ],
        ),
        Value::ShortShortInt(x) => Ok(seq![x as u8]),
        Value::ShortShortUint(x) => Ok(seq![x]),
        Value::ShortInt(x) => Ok(be16(x as u16)),
        Value::ShortUint(x) => Ok(be16(x)),
        Value::LongInt(x) => Ok(be32(x as u32)),
        Value::LongUint(x) => Ok(be32(x)),
        Value::LongLongInt(x) => Ok(be64(x as u64)),
        Value::LongLongUint(x) => Ok(be64(x)),
        Value::Float(x) => Ok(be32(x)),
        Value::Double(x) => Ok(be64(x)),
        Value::DecimalValue(scale, x) => Ok(seq![scale] + be32(x)),
        Value::ShortString(s) => short_str_bytes(s),
        Value::LongString(b) => sized(b),
        Value::FieldArray(a) => sized_body(items_bytes(a)),
        Value::Timestamp(x) => Ok(be64(x)),
        Value::FieldTable(t) => sized_body(entries_bytes(t)),
        Value::Void => Ok(Seq::empty()),
    }
}

/// A value as it stands in a table or an array: its tag, then its bytes.
pub open spec fn tagged_bytes(v: Value) -> Result<Seq<u8>, Fault>
    decreases v, 1int,
{
    behind(seq![tag_of(v)], value_bytes(v))
}

/// The body of an array: its values, each behind its tag, one after another.
pub open spec fn items_bytes(a: Seq<Value>) -> Result<Seq<u8>, Fault>
    decreases a, 2int,
{
    if a.len() == 0 {
        Ok(Seq::empty())
    } else {
        match tagged_bytes(a[0]) {
            Ok(first) => behind(first, items_bytes(a.drop_first())),
            Err(fault) => Err(fault),
        }
    }
}

/// One entry of a table: the name as a short string, then the tagged value.
pub open spec fn entry_bytes(name: Seq<char>, v: Value) -> Result<Seq<u8>, Fault>
    decreases v, 2int,
{
    match short_str_bytes(name) {
        Ok(n) => behind(n, tagged_bytes(v)),
        Err(fault) => Err(fault),
    }
}

/// The body of a table: its entries one after another.
pub open spec fn entries_bytes(t: Entries) -> Result<Seq<u8>, Fault>
    decreases t, 3int,
{
    if t.len() == 0 {
        Ok(Seq::empty())
    } else {
        match entry_bytes(t[0].0, t[0].1) {
            Ok(first) => behind(first, entries_bytes(t.drop_first())),
            Err(fault) => Err(fault),
        }
    }
}

/// A table on the wire: its body behind the body's length in four octets.
pub open spec fn table_bytes(t: Entries) -> Result<Seq<u8>, Fault> {
    sized_body(entries_bytes(t))
}

/// Appends `v` behind its tag. A value that cannot be written leaves `out`
/// as it was.
pub fn put_value(out: &mut Vec<u8>, v: &FieldValue) -> (r: AmqpResult<()>)
    ensures
        appended(r, old(out)@, final(out)@, tagged_bytes(v@)),
    decreases v,
{
    let mark = out.len();
    let r = match v {
        FieldValue::Bool(b) => {
            out.push(TAG_BOOL);
            out.push(
                if *b {
                    1
                } else {
                    0
                },
            );
            Ok(())
        },
        FieldValue::ShortShortInt(x) => {
            out.push(TAG_SHORT_SHORT_INT);
            out.push(*x as u8);
            Ok(())
        },
        FieldValue::ShortShortUint(x) => {
            out.push(TAG_SHORT_SHORT_UINT);
            out.push(*x);
            Ok(())
        },
        FieldValue::ShortInt(x) => {
            out.push(TAG_SHORT_INT);
            put_u16(out, *x as u16);
            Ok(())
        },
        FieldValue::ShortUint(x) => {
            out.push(TAG_SHORT_UINT);
            put_u16(out, *x);
            Ok(())
        },
        FieldValue::LongInt(x) => {
            out.push(TAG_LONG_INT);
            put_u32(out, *x as u32);
            Ok(())
        },
        FieldValue::LongUint(x) => {
            out.push(TAG_LONG_UINT);
            put_u32(out, *x);
            Ok(())
        },
        FieldValue::LongLongInt(x) => {
            out.push(TAG_LONG_LONG_INT);
            put_u64(out, *x as u64);
            Ok(())
        },
        FieldValue::LongLongUint(x) => {
            out.push(TAG_LONG_LONG_UINT);
            put_u64(out, *x);
            Ok(())
        },
        FieldValue::Float(x) => {
            out.push(TAG_FLOAT);
            put_u32(out, *x);
            Ok(())
        },
        FieldValue::Double(x) => {
            out.push(TAG_DOUBLE);
            put_u64(out, *x);
            Ok(())
        },
        FieldValue::DecimalValue(scale, x) => {
            out.push(TAG_DECIMAL);
            out.push(*scale);
            put_u32(out, *x);
            Ok(())
        },
        FieldValue::ShortString(s) => {
            out.push(TAG_SHORT_STRING);
            put_short_str(out, s.as_str())
        },
        FieldValue::LongString(b) => {
            out.push(TAG_LONG_STRING);
            put_sized(out, b.as_slice())
        },
        FieldValue::FieldArray(a) => {
            match items_body(a) {
                Ok(body) => {
                    out.push(TAG_ARRAY);
                    put_sized(out, body.as_slice())
                },
                Err(e) => Err(e),
            }
        },
        FieldValue::Timestamp(x) => {
            out.push(TAG_TIMESTAMP);
            put_u64(out, *x);
            Ok(())
        },
        FieldValue::FieldTable(t) => {
            match table_body(t) {
                Ok(body) => {
                    out.push(TAG_TABLE);
                    put_sized(out, body.as_slice())
                },
                Err(e) => Err(e),
            }
        },
        FieldValue::Void => {
            out.push(TAG_VOID);
            Ok(())
        },
    };
    match r {
        Ok(()) => {
            assert(out@ == old(out)@ + tagged_bytes(v@)->Ok_0);
            Ok(())
        },
        Err(e) => {
            out.truncate(mark);
            assert(out@ == old(out)@);
            Err(e)
        },
    }
}

/// Whether `r` holds the bytes `expected`, or an error that says `expected`'s fault.
pub open spec fn gives(r: AmqpResult<Vec<u8>>, expected: Result<Seq<u8>, Fault>) -> bool {
    match expected {
        Ok(bytes) => r is Ok && r->Ok_0@ == bytes,
        Err(fault) => r is Err && r->Err_0@ == fault,
    }
}

/// The body of an array of the values `a`.
pub fn items_body(a: &Vec<FieldValue>) -> (r: AmqpResult<Vec<u8>>)
    ensures
        gives(r, items_bytes(values_view(a@))),
    decreases a,
{
    let ghost items = values_view(a@);
    let mut body: Vec<u8> = Vec::new();
    let mut i: usize = 0;
    assert(items.skip(0) =~= items);
    while i < a.len()
        invariant
            i <= a@.len(),
            items == values_view(a@),
            items_bytes(items) == behind(body@, items_bytes(items.skip(i as int))),
        decreases a@.len() - i,
    {
        assert(items.skip(i as int).drop_first() =~= items.skip(i as int + 1));
        let ghost before = body@;
        match put_value(&mut body, &a[i]) {
            Ok(()) => {
                proof {
                    let first = tagged_bytes(items[i as int])->Ok_0;
                    let rest = items_bytes(items.skip(i as int + 1));
                    if rest is Ok {
                        assert(before + (first + rest->Ok_0) =~= (before + first) + rest->Ok_0);
                    }
                }
            },
            Err(e) => {
                return Err(e);
            },
        }
        i += 1;
    }
    Ok(body)
}

/// The body of the table `t`: its entries in order.
pub fn table_body(t: &Table) -> (r: AmqpResult<Vec<u8>>)
    ensures
        gives(r, entries_bytes(t@)),
    decreases t,
{
    let ghost entries = t@;
    let mut body: Vec<u8> = Vec::new();
    let mut i: usize = 0;
    assert(entries.skip(0) =~= entries);
    while i < t.len()
        invariant
            i <= t@.len(),
            entries == t@,
            entries_bytes(entries) == behind(body@, entries_bytes(entries.skip(i as int))),
        decreases t@.len() - i,
    {
        assert(entries.skip(i as int).drop_first() =~= entries.skip(i as int + 1));
        assert(entries.skip(i as int)[0] == entries[i as int]);
        let ghost before = body@;
        match put_short_str(&mut body, t.name_at(i).as_str()) {
            Ok(()) => {},
            Err(e) => {
                assert(short_str_bytes(entries[i as int].0) is Err);
                assert(entry_bytes(entries[i as int].0, entries[i as int].1) is Err);
                assert(entries_bytes(entries.skip(i as int)) is Err);
                return Err(e);
            },
        }
        match put_value(&mut body, t.value_at(i)) {
            Ok(()) => {
                proof {
                    let name = short_str_bytes(entries[i as int].0)->Ok_0;
                    let value = tagged_bytes(entries[i as int].1)->Ok_0;
                    let rest = entries_bytes(entries.skip(i as int + 1));
                    assert(body@ == before + name + value);
                    if rest is Ok {
                        assert(before + ((name + value) + rest->Ok_0) =~= (before + name + value)
                            + rest->Ok_0);
                    }
                }
            },
            Err(e) => {
                assert(tagged_bytes(entries[i as int].1) is Err);
                assert(entry_bytes(entries[i as int].0, entries[i as int].1) is Err);
                assert(entries_bytes(entries.skip(i as int)) is Err);
                return Err(e);
            },
        }
        i += 1;
    }
    Ok(body)
}

/// Appends the table `t`: its body behind the body's length. A table that
/// cannot be written leaves `out` as it was.
pub fn put_table(out: &mut Vec<u8>, t: &Table) -> (r: AmqpResult<()>)
    ensures
        appended(r, old(out)@, final(out)@, table_bytes(t@)),
{
    match table_body(t) {
        Ok(body) => put_sized(out, body.as_slice()),
        Err(e) => Err(e),
    }
}

/// The fault of a tag that announces no kind of value.
pub open spec fn unknown_tag(tag: u8, pos: int) -> Fault {
    Fault::Violation(Violation::UnknownTag(tag, pos as usize))
}

/// The value that the bytes behind the tag `tag` spell; the tag stands at
/// `pos`, the bytes start at `at`.
pub open spec fn parse_tagged(s: Seq<u8>, tag: u8, pos: int, at: int, end: int) -> Result<
    (Value, int),
    Fault,
>
    decreases end - at, 0int,
{
    if tag == TAG_BOOL {
        match take_u8(s, at, end) {
            Ok((x, next)) => Ok((Value::Bool(x != 0), next)),
            Err(fault) => Err(fault),
        }
    } else if tag == TAG_SHORT_SHORT_INT {
        match take_u8(s, at, end) {
            Ok((x, next)) => Ok((Value::ShortShortInt(x as i8), next)),
            Err(fault) => Err(fault),
        }
    } else if tag == TAG_SHORT_SHORT_UINT {
        match take_u8(s, at, end) {
            Ok((x, next)) => Ok((Value::ShortShortUint(x), next)),
            Err(fault) => Err(fault),
        }
    } else if tag == TAG_SHORT_INT {
        match take_u16(s, at, end) {
            Ok((x, next)) => Ok((Value::ShortInt(x as i16), next)),
            Err(fault) => Err(fault),
        }
    } else if tag == TAG_SHORT_UINT {
        match take_u16(s, at, end) {
            Ok((x, next)) => Ok((Value::ShortUint(x), next)),
            Err(fault) => Err(fault),
        }
    } else if tag == TAG_LONG_INT {
        match take_u32(s, at, end) {
            Ok((x, next)) => Ok((Value::LongInt(x as i32), next)),
            Err(fault) => Err(fault),
        }
    } else if tag == TAG_LONG_UINT {
        match take_u32(s, at, end) {
            Ok((x, next)) => Ok((Value::LongUint(x), next)),
            Err(fault) => Err(fault),
        }
    } else if tag == TAG_LONG_LONG_INT {
        match take_u64(s, at, end) {
            Ok((x, next)) => Ok((Value::LongLongInt(x as i64), next)),
            Err(fault) => Err(fault),
        }
    } else if tag == TAG_LONG_LONG_UINT {
        match take_u64(s, at, end) {
            Ok((x, next)) => Ok((Value::LongLongUint(x), next)),
            Err(fault) => Err(fault),
        }
    } else if tag == TAG_FLOAT {
        match take_u32(s, at, end) {
            Ok((x, next)) => Ok((Value::Float(x), next)),
            Err(fault) => Err(fault),
        }
    } else if tag == TAG_DOUBLE {
        match take_u64(s, at, end) {
            Ok((x, next)) => Ok((Value::Double(x), next)),
            Err(fault) => Err(fault),
        }
    } else if tag == TAG_DECIMAL {
        match take_u8(s, at, end) {
            Ok((scale, mid)) => match take_u32(s, mid, end) {
                Ok((x, next)) => Ok((Value::DecimalValue(scale, x), next)),
                Err(fault) => Err(fault),
            },
            Err(fault) => Err(fault),
        }
    } else if tag == TAG_SHORT_STRING {
        match take_short_str(s, at, end) {
            Ok((x, next)) => Ok((Value::ShortString(x), next)),
            Err(fault) => Err(fault),
        }
    } else if tag == TAG_LONG_STRING {
        match take_long_str(s, at, end) {
            Ok((x, next)) => Ok((Value::LongString(x), next)),
            Err(fault) => Err(fault),
        }
    } else if tag == TAG_ARRAY {
        match take_u32(s, at, end) {
            Ok((n, body)) => if !fits(s, body, end, n as int) {
                Err(truncated(body))
            } else {
                match parse_items(s, body, body + n, Seq::empty()) {
                    Ok(items) => Ok((Value::FieldArray(items), body + n)),
                    Err(fault) => Err(fault),
                }
            },
            Err(fault) => Err(fault),
        }
    } else if tag == TAG_TIMESTAMP {
        match take_u64(s, at, end) {
            Ok((x, next)) => Ok((Value::Timestamp(x), next)),
            Err(fault) => Err(fault),
        }
    } else if tag == TAG_TABLE {
        match take_u32(s, at, end) {
            Ok((n, body)) => if !fits(s, body, end, n as int) {
                Err(truncated(body))
            } else {
                match parse_entries(s, body, body + n, Seq::empty()) {
                    Ok(entries) => Ok((Value::FieldTable(entries), body + n)),
                    Err(fault) => Err(fault),
                }
            },
            Err(fault) => Err(fault),
        }
    } else if tag == TAG_VOID {
        Ok((Value::Void, at))
    } else {
        Err(unknown_tag(tag, pos))
    }
}

/// The tagged value at `pos` in the region that ends at `end`, and the
/// offset behind it.
pub open spec fn parse_value(s: Seq<u8>, pos: int, end: int) -> Result<(Value, int), Fault>
    decreases end - pos, 0int,
{
    match take_u8(s, pos, end) {
        Ok((tag, at)) => parse_tagged(s, tag, pos, at, end),
        Err(fault) => Err(fault),
    }
}

/// The values that fill the region from `pos` to `end` exactly, behind those
/// in `acc`.
pub open spec fn parse_items(s: Seq<u8>, pos: int, end: int, acc: Seq<Value>) -> Result<
    Seq<Value>,
    Fault,
>
    decreases end - pos, 1int,
{
    if pos >= end {
        Ok(acc)
    } else {
        match parse_value(s, pos, end) {
            Ok((v, next)) => if pos < next <= end {
                parse_items(s, next, end, acc.push(v))
            } else {
                Err(truncated(pos))
            },
            Err(fault) => Err(fault),
        }
    }
}

/// The table that the entries filling the region from `pos` to `end` exactly
/// make when they are inserted, in their order, into `acc`: of two entries of
/// one name the later gives the value.
pub open spec fn parse_entries(s: Seq<u8>, pos: int, end: int, acc: Entries) -> Result<
    Entries,
    Fault,
>
    decreases end - pos, 1int,
{
    if pos >= end {
        Ok(acc)
    } else {
        match take_short_str(s, pos, end) {
            Ok((name, at)) => if pos < at <= end {
                match parse_value(s, at, end) {
                    Ok((v, next)) => if at < next <= end {
                        parse_entries(s, next, end, inserted(acc, name, v))
                    } else {
                        Err(truncated(pos))
                    },
                    Err(fault) => Err(fault),
                }
            } else {
                Err(truncated(pos))
            },
            Err(fault) => Err(fault),
        }
    }
}

/// The table at `pos`: four octets of length, then entries that fill that
/// many bytes exactly.
pub open spec fn parse_table(s: Seq<u8>, pos: int, end: int) -> Result<(Entries, int), Fault> {
    match take_u32(s, pos, end) {
        Ok((n, body)) => if !fits(s, body, end, n as int) {
            Err(truncated(body))
        } else {
            match parse_entries(s, body, body + n, Seq::empty()) {
                Ok(entries) => Ok((entries, body + n)),
                Err(fault) => Err(fault),
            }
        },
        Err(fault) => Err(fault),
    }
}

/// Whether `r` holds values that denote `expected`, or an error that says
/// `expected`'s fault.
pub open spec fn gives_items(r: AmqpResult<Vec<FieldValue>>, expected: Result<Seq<Value>, Fault>) -> bool {
    match expected {
        Ok(items) => r is Ok && values_view(r->Ok_0@) == items,
        Err(fault) => r is Err && r->Err_0@ == fault,
    }
}

/// Whether `r` holds a table of the entries `expected`, or an error that says
/// `expected`'s fault.
pub open spec fn gives_table(r: AmqpResult<Table>, expected: Result<Entries, Fault>) -> bool {
    match expected {
        Ok(entries) => r is Ok && r->Ok_0@ == entries,
        Err(fault) => r is Err && r->Err_0@ == fault,
    }
}

/// Reads the tagged value at `pos` in the region that ends at `end`.
#[verifier::rlimit(40)]
pub fn decode_table_field_value(data: &[u8], pos: usize, end: usize) -> (r: AmqpResult<
    (FieldValue, usize),
>)
    ensures
        reads_view(r, parse_value(data@, pos as int, end as int)),
        r matches Ok((v, next)) ==> pos < next <= end && value_wf(v@),
    decreases end - pos, 0int,
{
    let (tag, at) = read_u8(data, pos, end)?;
    if tag == TAG_BOOL {
        let (x, next) = read_u8(data, at, end)?;
        Ok((FieldValue::Bool(x != 0), next))
    } else if tag == TAG_SHORT_SHORT_INT {
        let (x, next) = read_u8(data, at, end)?;
        Ok((FieldValue::ShortShortInt(x as i8), next))
    } else if tag == TAG_SHORT_SHORT_UINT {
        let (x, next) = read_u8(data, at, end)?;
        Ok((FieldValue::ShortShortUint(x), next))
    } else if tag == TAG_SHORT_INT {
        let (x, next) = read_u16(data, at, end)?;
        Ok((FieldValue::ShortInt(x as i16), next))
    } else if tag == TAG_SHORT_UINT {
        let (x, next) = read_u16(data, at, end)?;
        Ok((FieldValue::ShortUint(x), next))
    } else if tag == TAG_LONG_INT {
        let (x, next) = read_u32(data, at, end)?;
        Ok((FieldValue::LongInt(x as i32), next))
    } else if tag == TAG_LONG_UINT {
        let (x, next) = read_u32(data, at, end)?;
        Ok((FieldValue::LongUint(x), next))
    } else if tag == TAG_LONG_LONG_INT {
        let (x, next) = read_u64(data, at, end)?;
        Ok((FieldValue::LongLongInt(x as i64), next))
    } else if tag == TAG_LONG_LONG_UINT {
        let (x, next) = read_u64(data, at, end)?;
        Ok((FieldValue::LongLongUint(x), next))
    } else if tag == TAG_FLOAT {
        let (x, next) = read_u32(data, at, end)?;
        Ok((FieldValue::Float(x), next))
    } else if tag == TAG_DOUBLE {
        let (x, next) = read_u64(data, at, end)?;
        Ok((FieldValue::Double(x), next))
    } else if tag == TAG_DECIMAL {
        let (scale, mid) = read_u8(data, at, end)?;
        let (x, next) = read_u32(data, mid, end)?;
        Ok((FieldValue::DecimalValue(scale, x), next))
    } else if tag == TAG_SHORT_STRING {
        let (x, next) = read_short_str(data, at, end)?;
        Ok((FieldValue::ShortString(x), next))
    } else if tag == TAG_LONG_STRING {
        let (x, next) = read_long_str(data, at, end)?;
        Ok((FieldValue::LongString(x), next))
    } else if tag == TAG_ARRAY {
        let (n, body) = read_u32(data, at, end)?;
        if end - body < n as usize {
            Err(AmqpError::ProtocolViolation(Violation::Truncated(body)))
        } else {
            let items = decode_items(data, body, body + n as usize)?;
            Ok((FieldValue::FieldArray(items), body + n as usize))
        }
    } else if tag == TAG_TIMESTAMP {
        let (x, next) = read_u64(data, at, end)?;
        Ok((FieldValue::Timestamp(x), next))
    } else if tag == TAG_TABLE {
        let (n, body) = read_u32(data, at, end)?;
        if end - body < n as usize {
            Err(AmqpError::ProtocolViolation(Violation::Truncated(body)))
        } else {
            let table = decode_entries(data, body, body + n as usize)?;
            Ok((FieldValue::FieldTable(table), body + n as usize))
        }
    } else if tag == TAG_VOID {
        Ok((FieldValue::Void, at))
    } else {
        Err(AmqpError::ProtocolViolation(Violation::UnknownTag(tag, pos)))
    }
}

/// Reads the tagged values that fill the region from `pos` to `end`.
pub fn decode_items(data: &[u8], pos: usize, end: usize) -> (r: AmqpResult<Vec<FieldValue>>)
    ensures
        gives_items(r, parse_items(data@, pos as int, end as int, Seq::empty())),
        r matches Ok(items) ==> value_wf(Value::FieldArray(values_view(items@))),
    decreases end - pos, 1int,
{
    let mut items: Vec<FieldValue> = Vec::new();
    let mut at: usize = pos;
    assert(values_view(items@) =~= Seq::empty());
    while at < end
        invariant
            at == pos || pos <= at <= end <= data@.len(),
            parse_items(data@, pos as int, end as int, Seq::empty()) == parse_items(
                data@,
                at as int,
                end as int,
                values_view(items@),
            ),
            forall|i: int| 0 <= i < items@.len() ==> value_wf(#[trigger] values_view(items@)[i]),
        decreases end - at,
    {
        let ghost before = values_view(items@);
        match decode_table_field_value(data, at, end) {
            Ok((v, next)) => {
                items.push(v);
                assert(values_view(items@) =~= before.push(v@));
                at = next;
            },
            Err(e) => {
                return Err(e);
            },
        }
    }
    Ok(items)
}

/// Reads the entries that fill the region from `pos` to `end` into a table.
pub fn decode_entries(data: &[u8], pos: usize, end: usize) -> (r: AmqpResult<Table>)
    ensures
        gives_table(r, parse_entries(data@, pos as int, end as int, Seq::empty())),
        r matches Ok(t) ==> t.wf(),
    decreases end - pos, 1int,
{
    let mut table = Table::new();
    let mut at: usize = pos;
    while at < end
        invariant
            at == pos || pos <= at <= end <= data@.len(),
            parse_entries(data@, pos as int, end as int, Seq::empty()) == parse_entries(
                data@,
                at as int,
                end as int,
                table@,
            ),
            table.wf(),
        decreases end - at,
    {
        let (name, mid) = match read_short_str(data, at, end) {
            Ok(read) => read,
            Err(e) => {
                return Err(e);
            },
        };
        match decode_table_field_value(data, mid, end) {
            Ok((v, next)) => {
                table.insert(name, v);
                at = next;
            },
            Err(e) => {
                return Err(e);
            },
        }
    }
    Ok(table)
}

/// Reads the table at `pos`: its length, then its entries.
pub fn decode_table(data: &[u8], pos: usize, end: usize) -> (r: AmqpResult<(Table, usize)>)
    ensures
        reads_view(r, parse_table(data@, pos as int, end as int)),
        r matches Ok((t, next)) ==> pos < next <= end && t.wf(),
{
    let (n, body) = read_u32(data, pos, end)?;
    if end - body < n as usize {
        Err(AmqpError::ProtocolViolation(Violation::Truncated(body)))
    } else {
        let table = decode_entries(data, body, body + n as usize)?;
        Ok((table, body + n as usize))
    }
}

/// Where `s` holds the bytes of the value `v`, reading a value there gives
/// `v` and the offset behind those bytes, however far the region goes on.
#[verifier::rlimit(60)]
pub proof fn lemma_parse_written_value(s: Seq<u8>, pos: int, end: int, v: Value)
    requires
        value_wf(v),
        tagged_bytes(v) is Ok,
        holds_at(s, pos, tagged_bytes(v)->Ok_0),
        pos + tagged_bytes(v)->Ok_0.len() <= end <= s.len(),
    ensures
        parse_value(s, pos, end) == Ok::<(Value, int), Fault>(
            (v, pos + tagged_bytes(v)->Ok_0.len()),
        ),
    decreases v, 0int,
{
    let payload = value_bytes(v)->Ok_0;
    lemma_holds_split(s, pos, seq![tag_of(v)], payload);
    lemma_take_u8(s, pos, end, tag_of(v));
    let at = pos + 1;
    match v {
        Value::Bool(b) => {
            lemma_take_u8(
                s,
                at,
                end,
                if b {
                    1u8
                } else {
                    0u8
                },
            );
        },
        Value::ShortShortInt(x) => {
            lemma_take_u8(s, at, end, x as u8);
            assert((x as u8) as i8 == x) by (bit_vector);
        },
        Value::ShortShortUint(x) => {
            lemma_take_u8(s, at, end, x);
        },
        Value::ShortInt(x) => {
            lemma_take_u16(s, at, end, x as u16);
            assert((x as u16) as i16 == x) by (bit_vector);
        },
        Value::ShortUint(x) => {
            lemma_take_u16(s, at, end, x);
        },
        Value::LongInt(x) => {
            lemma_take_u32(s, at, end, x as u32);
            assert((x as u32) as i32 == x) by (bit_vector);
        },
        Value::LongUint(x) => {
            lemma_take_u32(s, at, end, x);
        },
        Value::LongLongInt(x) => {
            lemma_take_u64(s, at, end, x as u64);
            assert((x as u64) as i64 == x) by (bit_vector);
        },
        Value::LongLongUint(x) => {
            lemma_take_u64(s, at, end, x);
        },
        Value::Float(x) => {
            lemma_take_u32(s, at, end, x);
        },
        Value::Double(x) => {
            lemma_take_u64(s, at, end, x);
        },
        Value::DecimalValue(scale, x) => {
            lemma_holds_split(s, at, seq![scale], be32(x));
            lemma_take_u8(s, at, end, scale);
            lemma_take_u32(s, at + 1, end, x);
        },
        Value::ShortString(x) => {
            lemma_take_short_str(s, at, end, x);
        },
        Value::LongString(x) => {
            lemma_take_long_str(s, at, end, x);
        },
        Value::FieldArray(a) => {
            let body = items_bytes(a)->Ok_0;
            lemma_take_sized(s, at, end, body);
            lemma_parse_written_items(s, at + 4, at + 4 + body.len(), a, Seq::empty());
            assert(Seq::<Value>::empty() + a =~= a);
        },
        Value::Timestamp(x) => {
            lemma_take_u64(s, at, end, x);
        },
        Value::FieldTable(t) => {
            let body = entries_bytes(t)->Ok_0;
            lemma_take_sized(s, at, end, body);
            assert(Entries::empty() + t =~= t);
            lemma_parse_written_entries(s, at + 4, at + 4 + body.len(), t, Seq::empty());
        },
        Value::Void => {},
    }
}

/// Where the region from `pos` to `end` holds the body of an array of the
/// values `a`, reading values to its end gives `a`, behind what was there.
pub proof fn lemma_parse_written_items(
    s: Seq<u8>,
    pos: int,
    end: int,
    a: Seq<Value>,
    acc: Seq<Value>,
)
    requires
        forall|i: int| 0 <= i < a.len() ==> value_wf(#[trigger] a[i]),
        items_bytes(a) is Ok,
        holds_at(s, pos, items_bytes(a)->Ok_0),
        end == pos + items_bytes(a)->Ok_0.len(),
        end <= s.len(),
    ensures
        parse_items(s, pos, end, acc) == Ok::<Seq<Value>, Fault>(acc + a),
    decreases a, 1int,
{
    if a.len() == 0 {
        assert(acc + a =~= acc);
    } else {
        let first = tagged_bytes(a[0])->Ok_0;
        let rest = items_bytes(a.drop_first())->Ok_0;
        lemma_holds_split(s, pos, first, rest);
        lemma_parse_written_value(s, pos, end, a[0]);
        assert forall|i: int| 0 <= i < a.drop_first().len() implies value_wf(
            #[trigger] a.drop_first()[i],
        ) by {
            assert(a.drop_first()[i] == a[i + 1]);
        }
        lemma_parse_written_items(s, pos + first.len(), end, a.drop_first(), acc.push(a[0]));
        assert(acc.push(a[0]) + a.drop_first() =~= acc + a);
    }
}

/// Where the region from `pos` to `end` holds the body of a table of the
/// entries `t`, and no name of `t` occurs twice or in `acc`, reading entries
/// to its end gives `t`, behind what was there.
pub proof fn lemma_parse_written_entries(
    s: Seq<u8>,
    pos: int,
    end: int,
    t: Entries,
    acc: Entries,
)
    requires
        forall|i: int| 0 <= i < t.len() ==> value_wf((#[trigger] t[i]).1),
        distinct_names(acc + t),
        entries_bytes(t) is Ok,
        holds_at(s, pos, entries_bytes(t)->Ok_0),
        end == pos + entries_bytes(t)->Ok_0.len(),
        end <= s.len(),
    ensures
        parse_entries(s, pos, end, acc) == Ok::<Entries, Fault>(acc + t),
    decreases t, 1int,
{
    if t.len() == 0 {
        assert(acc + t =~= acc);
    } else {
        let name = short_str_bytes(t[0].0)->Ok_0;
        let value = tagged_bytes(t[0].1)->Ok_0;
        let rest = entries_bytes(t.drop_first())->Ok_0;
        assert(entry_bytes(t[0].0, t[0].1) is Ok);
        assert(tagged_bytes(t[0].1) is Ok);
        assert(entry_bytes(t[0].0, t[0].1)->Ok_0 == name + value);
        assert(entries_bytes(t)->Ok_0 == (name + value) + rest);
        lemma_holds_split(s, pos, name + value, rest);
        lemma_holds_split(s, pos, name, value);
        lemma_take_short_str(s, pos, end, t[0].0);
        lemma_parse_written_value(s, pos + name.len(), end, t[0].1);
        assert(!has_key(acc, t[0].0)) by {
            assert forall|i: int| 0 <= i < acc.len() implies (#[trigger] acc[i]).0 != t[0].0 by {
                assert((acc + t)[i] == acc[i]);
                assert((acc + t)[acc.len() as int] == t[0]);
            }
        }
        assert(inserted(acc, t[0].0, t[0].1) == acc.push(t[0]));
        assert(acc.push(t[0]) + t.drop_first() =~= acc + t);
        assert forall|i: int| 0 <= i < t.drop_first().len() implies value_wf(
            (#[trigger] t.drop_first()[i]).1,
        ) by {
            assert(t.drop_first()[i] == t[i + 1]);
        }
        lemma_parse_written_entries(
            s,
            pos + name.len() + value.len(),
            end,
            t.drop_first(),
            acc.push(t[0]),
        );
    }
}

/// Decoding the bytes of a value gives the value back: for every value
/// whose tables have distinct names and whose strings and bodies are short
/// enough to be written.
pub proof fn lemma_value_round_trip(v: Value)
    requires
        value_wf(v),
        tagged_bytes(v) is Ok,
    ensures
        ({
            let bytes = tagged_bytes(v)->Ok_0;
            parse_value(bytes, 0, bytes.len() as int) == Ok::<(Value, int), Fault>(
                (v, bytes.len() as int),
            )
        }),
{
    let bytes = tagged_bytes(v)->Ok_0;
    lemma_holds_self(bytes);
    lemma_parse_written_value(bytes, 0, bytes.len() as int, v);
}

/// Decoding the bytes of a table gives the table back, entry by entry in
/// their order: for every table that has distinct names, at every depth,
/// and can be written.
pub proof fn lemma_table_round_trip(t: Entries)
    requires
        entries_wf(t),
        table_bytes(t) is Ok,
    ensures
        ({
            let bytes = table_bytes(t)->Ok_0;
            parse_table(bytes, 0, bytes.len() as int) == Ok::<(Entries, int), Fault>(
                (t, bytes.len() as int),
            )
        }),
{
    let bytes = table_bytes(t)->Ok_0;
    lemma_holds_self(bytes);
    lemma_parse_written_table(bytes, 0, bytes.len() as int, t);
}

/// Where `s` holds the bytes of the table `t`, reading a table there gives
/// `t` and the offset behind those bytes.
pub proof fn lemma_parse_written_table(s: Seq<u8>, pos: int, end: int, t: Entries)
    requires
        entries_wf(t),
        table_bytes(t) is Ok,
        holds_at(s, pos, table_bytes(t)->Ok_0),
        pos + table_bytes(t)->Ok_0.len() <= end <= s.len(),
    ensures
        parse_table(s, pos, end) == Ok::<(Entries, int), Fault>(
            (t, pos + table_bytes(t)->Ok_0.len()),
        ),
{
    let body = entries_bytes(t)->Ok_0;
    lemma_take_sized(s, pos, end, body);
    assert(Entries::empty() + t =~= t);
    lemma_parse_written_entries(s, pos + 4, pos + 4 + body.len(), t, Seq::empty());
}

} // verus!
