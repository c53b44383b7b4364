//! Method payloads: the class id and the method id, then the fields of the
//! method in their declared order. Consecutive bit fields share octets, the
//! first bit of a run in the lowest bit of its first octet.
//!
//! [`encode_fields`] says what the bytes of a list of fields are, and
//! [`decode_fields`] what fields a payload holds; [`encode`] and [`decode`]
//! compute them, through an [`Encoder`] and a [`Decoder`] that can also be
//! driven field by field. [`lemma_fields_round_trip`] and
//! [`lemma_method_round_trip`] state that decoding undoes encoding, and
//! [`lemma_bit_run_octets`] how many octets a run of bits takes.
//!
//! A [`Method`] is a record of the catalog in [`crate::protocol`]; [`Method::se`]
//! gives its payload and [`de`] reads one.

use vstd::pervasive::unreached;
use vstd::prelude::*;
use vstd::std_specs::cmp::PartialEqSpecImpl;

use crate::bits::{
    bit_at, bits_of, held, holds_bits, lemma_bit_step, lemma_octet_bit, lemma_octet_bound,
    lemma_octet_push, lemma_pack_holds, lemma_pack_octet, lemma_pack_split, mask_ok, octet_of,
    pack_bits, taken,
};
use crate::field_table::{
    behind, decode_table, gives, lemma_parse_written_table, parse_table, put_table, table_bytes,
};
use crate::result::{AmqpError, AmqpResult, Fault};
use crate::types::{
    bytes_eq, entries_equiv, entries_wf, lemma_equiv_reflexive, str_eq, table_eq, Entries, StrType,
    Table, Value,
};
use crate::wire::{
    be16, be32, be64, put_short_str, put_sized, put_u16, put_u32, put_u64, put_u8, read_long_str,
    read_short_str, read_u16, read_u32, read_u64, read_u8, short_str_bytes, sized, take_long_str,
    take_short_str, take_u16, take_u32, take_u64, take_u8, holds_at, lemma_holds, lemma_holds_self,
    lemma_holds_split, lemma_take_long_str, lemma_take_short_str, lemma_take_u16, lemma_take_u32,
    lemma_take_u64, lemma_take_u8,
};

verus! {

/// The declared type of a method field.
#[derive(Debug, Clone, Copy, PartialEq, Eq, Structural)]
pub enum Kind {
    Bit,
    Octet,
    Short,
    Long,
    Longlong,
    Shortstr,
    Longstr,
    Table,
}

/// What a [`Field`] denotes.
pub enum FieldView {
    Bit(bool),
    Octet(u8),
    Short(u16),
    Long(u32),
    Longlong(u64),
    Shortstr(Seq<char>),
    Longstr(Seq<u8>),
    Table(Entries),
}

/// The value of one field of a method.
#[derive(Debug)]
pub enum Field {
    Bit(bool),
    Octet(u8),
    Short(u16),
    Long(u32),
    Longlong(u64),
    Shortstr(String),
    Longstr(Vec<u8>),
    Table(Table),
}

impl View for Field {
    type V = FieldView;

    open spec fn view(&self) -> FieldView {
        match self {
            Field::Bit(v) => FieldView::Bit(*v),
            Field::Octet(v) => FieldView::Octet(*v),
            Field::Short(v) => FieldView::Short(*v),
            Field::Long(v) => FieldView::Long(*v),
            Field::Longlong(v) => FieldView::Longlong(*v),
            Field::Shortstr(v) => FieldView::Shortstr(v@),
            Field::Longstr(v) => FieldView::Longstr(v@),
            Field::Table(v) => FieldView::Table(v@),
        }
    }
}

impl Field {
    /// The declared type that the field belongs to.
    pub fn kind(&self) -> (k: Kind)
        ensures
            k == kind_of(self@),
    {
        match self {
            Field::Bit(_) => Kind::Bit,
            Field::Octet(_) => Kind::Octet,
            Field::Short(_) => Kind::Short,
            Field::Long(_) => Kind::Long,
            Field::Longlong(_) => Kind::Longlong,
            Field::Shortstr(_) => Kind::Shortstr,
            Field::Longstr(_) => Kind::Longstr,
            Field::Table(_) => Kind::Table,
        }
    }
}

/// The declared type that a field value belongs to.
pub open spec fn kind_of(f: FieldView) -> Kind {
    match f {
        FieldView::Bit(_) => Kind::Bit,
        FieldView::Octet(_) => Kind::Octet,
        FieldView::Short(_) => Kind::Short,
        FieldView::Long(_) => Kind::Long,
        FieldView::Longlong(_) => Kind::Longlong,
        FieldView::Shortstr(_) => Kind::Shortstr,
        FieldView::Longstr(_) => Kind::Longstr,
        FieldView::Table(_) => Kind::Table,
    }
}

/// The declared types of a list of field values.
pub open spec fn kinds_of(fs: Seq<FieldView>) -> Seq<Kind> {
    Seq::new(fs.len(), |i: int| kind_of(fs[i]))
}

/// What a list of fields denotes.
pub open spec fn fields_view(fs: Seq<Field>) -> Seq<FieldView> {
    Seq::new(fs.len(), |i: int| fs[i]@)
}

/// Every table among the fields has distinct names, at every depth.
pub open spec fn fields_wf(fs: Seq<FieldView>) -> bool {
    forall|i: int|
        0 <= i < fs.len() ==> ((#[trigger] fs[i]) matches FieldView::Table(t) ==> entries_wf(t))
}

/// Whether two field values are equal: tables where they have the same names
/// with equal values, whatever the order of their entries; all others where
/// they are of one type and hold the same.
pub open spec fn field_equiv(a: FieldView, b: FieldView) -> bool {
    match a {
        FieldView::Table(x) => b matches FieldView::Table(y) && entries_equiv(x, y),
        _ => a == b,
    }
}

/// Whether `a` and `b` are equal.
pub fn field_eq(a: &Field, b: &Field) -> (r: bool)
    ensures
        r == field_equiv(a@, b@),
{
    match (a, b) {
        (Field::Bit(x), Field::Bit(y)) => *x == *y,
        (Field::Octet(x), Field::Octet(y)) => *x == *y,
        (Field::Short(x), Field::Short(y)) => *x == *y,
        (Field::Long(x), Field::Long(y)) => *x == *y,
        (Field::Longlong(x), Field::Longlong(y)) => *x == *y,
        (Field::Shortstr(x), Field::Shortstr(y)) => str_eq(x.as_str(), y.as_str()),
        (Field::Longstr(x), Field::Longstr(y)) => bytes_eq(x.as_slice(), y.as_slice()),
        (Field::Table(x), Field::Table(y)) => table_eq(x, y),
        _ => false,
    }
}

impl PartialEq for Field {
    fn eq(&self, other: &Field) -> (r: bool) {
        field_eq(self, other)
    }
}

impl PartialEqSpecImpl for Field {
    open spec fn obeys_eq_spec() -> bool {
        true
    }

    open spec fn eq_spec(&self, other: &Field) -> bool {
        field_equiv(self@, other@)
    }
}

/// Whether two lists of field values are equal, value by value.
pub open spec fn args_equiv(a: Seq<FieldView>, b: Seq<FieldView>) -> bool {
    a.len() == b.len() && forall|i: int| 0 <= i < a.len() ==> field_equiv(#[trigger] a[i], b[i])
}

/// Fields whose tables have distinct names are equal to themselves.
pub proof fn lemma_args_equiv_reflexive(a: Seq<FieldView>)
    requires
        fields_wf(a),
    ensures
        args_equiv(a, a),
{
    assert forall|i: int| 0 <= i < a.len() implies field_equiv(#[trigger] a[i], a[i]) by {
        match a[i] {
            FieldView::Table(t) => {
                lemma_equiv_reflexive(Value::FieldTable(t));
            },
            _ => {},
        }
    }
}

/// How a string field of this declared type travels.
pub open spec fn hint_of(kind: Kind) -> Option<StrType> {
    match kind {
        Kind::Shortstr => Some(StrType::Short),
        Kind::Longstr => Some(StrType::Long),
        _ => None,
    }
}

/// The bytes of one field that is no bit.
pub open spec fn field_bytes(f: FieldView) -> Result<Seq<u8>, Fault> {
    match f {
        FieldView::Bit(b) => Ok(pack_bits(seq![b])),
        FieldView::Octet(x) => Ok(seq![x]),
        FieldView::Short(x) => Ok(be16(x)),
        FieldView::Long(x) => Ok(be32(x)),
        FieldView::Longlong(x) => Ok(be64(x)),
        FieldView::Shortstr(x) => short_str_bytes(x),
        FieldView::Longstr(x) => sized(x),
        FieldView::Table(t) => table_bytes(t),
    }
}

/// The bytes of the fields `fs` where the bit fields just before them, not
/// yet written, hold `run`: a bit field joins the run; any other field is
/// written behind the octets of the run, and a new run starts behind it; the
/// end of the fields writes the octets of the last run.
pub open spec fn encode_from(fs: Seq<FieldView>, run: Seq<bool>) -> Result<Seq<u8>, Fault>
    decreases fs.len(),
{
    if fs.len() == 0 {
        Ok(pack_bits(run))
    } else {
        match fs[0] {
            FieldView::Bit(b) => encode_from(fs.drop_first(), run.push(b)),
            f => match field_bytes(f) {
                Ok(bytes) => behind(
                    pack_bits(run) + bytes,
                    encode_from(fs.drop_first(), Seq::empty()),
                ),
                Err(fault) => Err(fault),
            },
        }
    }
}

/// The bytes of a list of fields.
pub open spec fn encode_fields(fs: Seq<FieldView>) -> Result<Seq<u8>, Fault> {
    encode_from(fs, Seq::empty())
}

/// Builds the payload of a method field by field. Bit fields gather in an
/// accumulator of up to eight bits, which is written out as one octet before
/// the next field that is no bit, before a ninth bit, and at the end.
pub struct Encoder {
    data: Vec<u8>,
    bit_mask: u8,
    bit_value: u8,
}

/// What writing the field `f` makes of the written bytes and the pending
/// bits: the bytes, the pending bits, and the fault if the field cannot be
/// written.
pub open spec fn after_field(bytes: Seq<u8>, pending: Seq<bool>, f: FieldView) -> (
    Seq<u8>,
    Seq<bool>,
    Option<Fault>,
) {
    match f {
        FieldView::Bit(b) => if pending.len() >= 8 {
            (bytes + pack_bits(pending), seq![b], None)
        } else {
            (bytes, pending.push(b), None)
        },
        _ => match field_bytes(f) {
            Ok(x) => (bytes + pack_bits(pending) + x, Seq::empty(), None),
            Err(fault) => (bytes + pack_bits(pending), Seq::empty(), Some(fault)),
        },
    }
}

/// Whether the encoder `after`, with the result `r`, is what writing `f`
/// makes of the encoder `before`.
pub open spec fn wrote(before: &Encoder, after: &Encoder, r: AmqpResult<()>, f: FieldView) -> bool {
    let (bytes, pending, fault) = after_field(before.bytes(), before.pending(), f);
    &&& after.wf()
    &&& after.bytes() == bytes
    &&& after.pending() == pending
    &&& match fault {
        None => r is Ok,
        Some(fault) => r is Err && r->Err_0@ == fault,
    }
}

impl Encoder {
    /// The bytes written so far, without the pending bits.
    pub closed spec fn bytes(&self) -> Seq<u8> {
        self.data@
    }

    /// The bits that wait in the accumulator, first bit first.
    pub closed spec fn pending(&self) -> Seq<bool> {
        bits_of(self.bit_value, held(self.bit_mask))
    }

    /// The invariant of the accumulator.
    pub closed spec fn wf(&self) -> bool {
        &&& mask_ok(self.bit_mask)
        &&& self.bit_value == octet_of(self.pending())
    }

    pub fn new() -> (e: Encoder)
        ensures
            e.wf(),
            e.bytes() == Seq::<u8>::empty(),
            e.pending() == Seq::<bool>::empty(),
    {
        let e = Encoder { data: Vec::new(), bit_mask: 1, bit_value: 0 };
        assert(e.pending() =~= Seq::<bool>::empty());
        e
    }

    /// Writes the pending bits out as one octet, if there are any.
    pub fn flush_bit(&mut self) -> (r: AmqpResult<()>)
        requires
            old(self).wf(),
        ensures
            r is Ok,
            final(self).wf(),
            final(self).bytes() == old(self).bytes() + pack_bits(old(self).pending()),
            final(self).pending() == Seq::<bool>::empty(),
    {
        proof {
            lemma_pack_octet(self.pending());
        }
        if self.bit_mask != 1 {
            self.do_flush_bit();
        } else {
            assert(self.pending() =~= Seq::<bool>::empty());
            assert(self.data@ + Seq::<u8>::empty() =~= self.data@);
        }
        Ok(())
    }

    fn do_flush_bit(&mut self)
        requires
            old(self).wf(),
        ensures
            final(self).wf(),
            final(self).bytes() == old(self).bytes() + seq![octet_of(old(self).pending())],
            final(self).pending() == Seq::<bool>::empty(),
    {
        self.data.push(self.bit_value);
        self.bit_mask = 1;
        self.bit_value = 0;
        assert(self.pending() =~= Seq::<bool>::empty());
        assert(self.data@ =~= old(self).data@ + seq![octet_of(old(self).pending())]);
    }

    /// Puts a bit into the accumulator, after writing the accumulator out if
    /// it is full.
    pub fn write_bool(&mut self, v: bool) -> (r: AmqpResult<()>)
        requires
            old(self).wf(),
        ensures
            wrote(old(self), final(self), r, FieldView::Bit(v)),
    {
        proof {
            lemma_pack_octet(self.pending());
        }
        if self.bit_mask == 0 {
            self.do_flush_bit();
        }
        let ghost held_bits = self.pending();
        let mask = self.bit_mask;
        let value = self.bit_value;
        proof {
            lemma_octet_bound(held_bits);
            lemma_octet_push(held_bits, v);
        }
        assert(mask_ok(mask) && value < mask ==> (value | mask) == value + mask) by (bit_vector);
        assert(mask_ok(mask) && mask != 0 ==> mask << 1u8 == if mask == 128 {
            0u8
        } else {
            (mask * 2) as u8
        }) by (bit_vector);
        if v {
            self.bit_value = value | mask;
        }
        self.bit_mask = mask << 1;
        proof {
            let more = held_bits.push(v);
            assert(self.bit_value == octet_of(more));
            assert forall|k: int| 0 <= k < more.len() implies bit_at(self.bit_value, k)
                == more[k] by {
                lemma_octet_bit(more, k);
            }
            assert(self.pending() =~= more);
            assert(seq![v] =~= Seq::<bool>::empty().push(v));
        }
        Ok(())
    }

    /// Writes the pending bits out, then `v` as one octet.
    pub fn write_u8(&mut self, v: u8) -> (r: AmqpResult<()>)
        requires
            old(self).wf(),
        ensures
            wrote(old(self), final(self), r, FieldView::Octet(v)),
    {
        let _ = self.flush_bit();
        put_u8(&mut self.data, v);
        Ok(())
    }

    /// Writes the pending bits out, then `v` in two octets.
    pub fn write_u16(&mut self, v: u16) -> (r: AmqpResult<()>)
        requires
            old(self).wf(),
        ensures
            wrote(old(self), final(self), r, FieldView::Short(v)),
    {
        let _ = self.flush_bit();
        put_u16(&mut self.data, v);
        Ok(())
    }

    /// Writes the pending bits out, then `v` in four octets.
    pub fn write_u32(&mut self, v: u32) -> (r: AmqpResult<()>)
        requires
            old(self).wf(),
        ensures
            wrote(old(self), final(self), r, FieldView::Long(v)),
    {
        let _ = self.flush_bit();
        put_u32(&mut self.data, v);
        Ok(())
    }

    /// Writes the pending bits out, then `v` in eight octets.
    pub fn write_u64(&mut self, v: u64) -> (r: AmqpResult<()>)
        requires
            old(self).wf(),
        ensures
            wrote(old(self), final(self), r, FieldView::Longlong(v)),
    {
        let _ = self.flush_bit();
        put_u64(&mut self.data, v);
        Ok(())
    }

    /// Writes the pending bits out, then `v` as a short string.
    pub fn write_short_str(&mut self, v: &str) -> (r: AmqpResult<()>)
        requires
            old(self).wf(),
        ensures
            wrote(old(self), final(self), r, FieldView::Shortstr(v@)),
    {
        let _ = self.flush_bit();
        put_short_str(&mut self.data, v)
    }

    /// Writes the pending bits out, then `v` as a long string.
    pub fn write_long_str(&mut self, v: &[u8]) -> (r: AmqpResult<()>)
        requires
            old(self).wf(),
        ensures
            wrote(old(self), final(self), r, FieldView::Longstr(v@)),
    {
        let _ = self.flush_bit();
        put_sized(&mut self.data, v)
    }

    /// Writes the pending bits out, then the table `t`.
    pub fn write_table(&mut self, t: &Table) -> (r: AmqpResult<()>)
        requires
            old(self).wf(),
        ensures
            wrote(old(self), final(self), r, FieldView::Table(t@)),
    {
        let _ = self.flush_bit();
        put_table(&mut self.data, t)
    }

    /// Writes one field.
    pub fn write_field(&mut self, f: &Field) -> (r: AmqpResult<()>)
        requires
            old(self).wf(),
        ensures
            wrote(old(self), final(self), r, f@),
    {
        match f {
            Field::Bit(v) => self.write_bool(*v),
            Field::Octet(v) => self.write_u8(*v),
            Field::Short(v) => self.write_u16(*v),
            Field::Long(v) => self.write_u32(*v),
            Field::Longlong(v) => self.write_u64(*v),
            Field::Shortstr(v) => self.write_short_str(v.as_str()),
            Field::Longstr(v) => self.write_long_str(v.as_slice()),
            Field::Table(v) => self.write_table(v),
        }
    }

    /// Writes the pending bits out and hands over the bytes.
    pub fn finish(self) -> (bytes: Vec<u8>)
        requires
            self.wf(),
        ensures
            bytes@ == self.bytes() + pack_bits(self.pending()),
    {
        let mut e = self;
        let _ = e.flush_bit();
        e.data
    }
}

/// How an encoder stands to the fields written through it: `settled` is
/// what was written up to the last field that is no bit, `run` holds the bits
/// of the bit fields since. The encoder has written `settled` and the full
/// octets of `run` but the last, whose bits are pending.
pub open spec fn carries(bytes: Seq<u8>, pending: Seq<bool>, settled: Seq<u8>, run: Seq<bool>) -> bool {
    let p = pending.len() as int;
    &&& p <= 8
    &&& p <= run.len()
    &&& (run.len() - p) % 8 == 0
    &&& run.len() > 0 ==> p > 0
    &&& pending == run.skip(run.len() - p)
    &&& bytes == settled + pack_bits(run.take(run.len() - p))
}

/// Writing the pending bits out completes the octets of the run.
proof fn lemma_carries_flush(bytes: Seq<u8>, pending: Seq<bool>, settled: Seq<u8>, run: Seq<bool>)
    requires
        carries(bytes, pending, settled, run),
    ensures
        bytes + pack_bits(pending) == settled + pack_bits(run),
{
    let m = run.len() - pending.len();
    lemma_pack_split(run, m);
    assert(bytes + pack_bits(pending) =~= settled + (pack_bits(run.take(m)) + pack_bits(
        run.skip(m),
    )));
}

/// A bit field keeps the encoder in step with the run that it joins.
proof fn lemma_carries_bit(
    bytes: Seq<u8>,
    pending: Seq<bool>,
    settled: Seq<u8>,
    run: Seq<bool>,
    b: bool,
)
    requires
        carries(bytes, pending, settled, run),
    ensures
        ({
            let (bytes2, pending2, fault) = after_field(bytes, pending, FieldView::Bit(b));
            carries(bytes2, pending2, settled, run.push(b))
        }),
{
    let more = run.push(b);
    let p = pending.len() as int;
    let (bytes2, pending2, fault) = after_field(bytes, pending, FieldView::Bit(b));
    if p >= 8 {
        lemma_carries_flush(bytes, pending, settled, run);
        assert(more.take(more.len() - 1) =~= run);
        assert(more.skip(more.len() - 1) =~= seq![b]);
    } else {
        assert(more.skip(more.len() - (p + 1)) =~= pending.push(b));
        assert(more.take(more.len() - (p + 1)) =~= run.take(run.len() - p));
    }
}

/// The payload bytes of a list of fields.
pub fn encode(fields: &Vec<Field>) -> (r: AmqpResult<Vec<u8>>)
    ensures
        gives(r, encode_fields(fields_view(fields@))),
{
    let ghost fs = fields_view(fields@);
    let mut enc = Encoder::new();
    let ghost mut settled = Seq::<u8>::empty();
    let ghost mut run = Seq::<bool>::empty();
    let mut i: usize = 0;
    proof {
        assert(fs.skip(0) =~= fs);
        assert(run.take(0) =~= Seq::<bool>::empty());
        assert(run.skip(0) =~= Seq::<bool>::empty());
        lemma_pack_octet(Seq::empty());
        assert(settled + pack_bits(run.take(0)) =~= Seq::<u8>::empty());
    }
    while i < fields.len()
        invariant
            i <= fields@.len(),
            fs == fields_view(fields@),
            enc.wf(),
            encode_fields(fs) == behind(settled, encode_from(fs.skip(i as int), run)),
            carries(enc.bytes(), enc.pending(), settled, run),
        decreases fields@.len() - i,
    {
        let ghost bytes = enc.bytes();
        let ghost pending = enc.pending();
        let ghost f = fs[i as int];
        proof {
            assert(fs.skip(i as int)[0] == f);
            assert(fs.skip(i as int).drop_first() =~= fs.skip(i as int + 1));
            lemma_carries_flush(bytes, pending, settled, run);
        }
        match enc.write_field(&fields[i]) {
            Ok(()) => {
                proof {
                    match f {
                        FieldView::Bit(b) => {
                            lemma_carries_bit(bytes, pending, settled, run, b);
                            run = run.push(b);
                        },
                        _ => {
                            let x = field_bytes(f)->Ok_0;
                            let rest = encode_from(fs.skip(i as int + 1), Seq::empty());
                            if rest is Ok {
                                assert(settled + ((pack_bits(run) + x) + rest->Ok_0) =~= (settled
                                    + pack_bits(run) + x) + rest->Ok_0);
                            }
                            settled = settled + pack_bits(run) + x;
                            run = Seq::empty();
                            assert(run.take(0) =~= Seq::<bool>::empty());
                            assert(run.skip(0) =~= Seq::<bool>::empty());
                            lemma_pack_octet(Seq::empty());
                            assert(settled + pack_bits(run.take(0)) =~= settled);
                        },
                    }
                }
            },
            Err(e) => {
                return Err(e);
            },
        }
        i += 1;
    }
    proof {
        lemma_carries_flush(enc.bytes(), enc.pending(), settled, run);
    }
    Ok(enc.finish())
}

/// The field of the declared type `kind` at `pos`, and the offset behind it.
/// A bit that is read by itself is bit 0 of one octet.
pub open spec fn parse_field(s: Seq<u8>, pos: int, end: int, kind: Kind) -> Result<
    (FieldView, int),
    Fault,
> {
    match kind {
        Kind::Bit => match take_u8(s, pos, end) {
            Ok((x, next)) => Ok((FieldView::Bit(bit_at(x, 0)), next)),
            Err(fault) => Err(fault),
        },
        Kind::Octet => match take_u8(s, pos, end) {
            Ok((x, next)) => Ok((FieldView::Octet(x), next)),
            Err(fault) => Err(fault),
        },
        Kind::Short => match take_u16(s, pos, end) {
            Ok((x, next)) => Ok((FieldView::Short(x), next)),
            Err(fault) => Err(fault),
        },
        Kind::Long => match take_u32(s, pos, end) {
            Ok((x, next)) => Ok((FieldView::Long(x), next)),
            Err(fault) => Err(fault),
        },
        Kind::Longlong => match take_u64(s, pos, end) {
            Ok((x, next)) => Ok((FieldView::Longlong(x), next)),
            Err(fault) => Err(fault),
        },
        Kind::Shortstr => match take_short_str(s, pos, end) {
            Ok((x, next)) => Ok((FieldView::Shortstr(x), next)),
            Err(fault) => Err(fault),
        },
        Kind::Longstr => match take_long_str(s, pos, end) {
            Ok((x, next)) => Ok((FieldView::Longstr(x), next)),
            Err(fault) => Err(fault),
        },
        Kind::Table => match parse_table(s, pos, end) {
            Ok((x, next)) => Ok((FieldView::Table(x), next)),
            Err(fault) => Err(fault),
        },
    }
}

/// One step of reading the fields of a payload `s`. The reader stands at the
/// offset `pos` and has taken `k` bits from the octet before it (0: no octet
/// is held). A bit field takes the next bit of the held octet, or bit 0 of a
/// new octet where none is held or all eight bits are taken; any other field
/// lets go of the held octet and is read at `pos`. The step gives the field,
/// the new offset and the new count of bits taken.
pub open spec fn after_read(s: Seq<u8>, pos: int, k: int, kind: Kind) -> Result<
    (FieldView, int, int),
    Fault,
> {
    if kind == Kind::Bit && k != 0 {
        Ok((FieldView::Bit(bit_at(s[pos - 1], k)), pos, (k + 1) % 8))
    } else {
        match parse_field(s, pos, s.len() as int, kind) {
            Ok((f, next)) => Ok(
                (
                    f,
                    next,
                    if kind == Kind::Bit {
                        1
                    } else {
                        0
                    },
                ),
            ),
            Err(fault) => Err(fault),
        }
    }
}

/// The fields of the declared types `kinds` that a reader in the state
/// (`pos`, `k`) reads from `s`, behind those in `acc`.
pub open spec fn decode_from(
    s: Seq<u8>,
    pos: int,
    k: int,
    kinds: Seq<Kind>,
    acc: Seq<FieldView>,
) -> Result<Seq<FieldView>, Fault>
    decreases kinds.len(),
{
    if kinds.len() == 0 {
        Ok(acc)
    } else {
        match after_read(s, pos, k, kinds[0]) {
            Ok((f, next, taken)) => decode_from(s, next, taken, kinds.drop_first(), acc.push(f)),
            Err(fault) => Err(fault),
        }
    }
}

/// The fields of the declared types `kinds` that the payload `s` starts
/// with. Bytes behind the last field are not looked at.
pub open spec fn decode_fields(s: Seq<u8>, kinds: Seq<Kind>) -> Result<Seq<FieldView>, Fault> {
    decode_from(s, 0, 0, kinds, Seq::empty())
}

/// Reads the fields of a method payload one by one. For bit fields it holds
/// the octet read last and the mask of the next bit to take from it.
pub struct Decoder<'a> {
    data: &'a [u8],
    pos: usize,
    bit_mask: u8,
    bit_value: u8,
}

/// Whether the decoder `after`, with the result `r`, is what reading a field
/// of the declared type `kind` makes of the decoder `before`.
pub open spec fn took(before: &Decoder, after: &Decoder, r: AmqpResult<Field>, kind: Kind) -> bool {
    &&& after.wf()
    &&& after.input() == before.input()
    &&& match after_read(before.input(), before.offset(), before.cursor(), kind) {
        Ok((f, next, k)) => {
            &&& r is Ok
            &&& r->Ok_0@ == f
            &&& after.offset() == next
            &&& after.cursor() == k
        },
        Err(fault) => r is Err && r->Err_0@ == fault,
    }
}

impl<'a> Decoder<'a> {
    /// The payload that is read.
    pub closed spec fn input(&self) -> Seq<u8> {
        self.data@
    }

    /// The offset of the next octet to read.
    pub closed spec fn offset(&self) -> int {
        self.pos as int
    }

    /// The number of bits taken from the octet before the offset; 0 where
    /// no octet is held.
    pub closed spec fn cursor(&self) -> int {
        taken(self.bit_mask)
    }

    /// The invariant of the reader.
    pub closed spec fn wf(&self) -> bool {
        &&& self.pos <= self.data@.len()
        &&& self.bit_mask != 1
        &&& mask_ok(self.bit_mask)
        &&& self.bit_mask != 0 ==> self.pos >= 1 && self.bit_value == self.data@[self.pos - 1]
    }

    pub fn new(data: &'a [u8]) -> (d: Decoder<'a>)
        ensures
            d.wf(),
            d.input() == data@,
            d.offset() == 0,
            d.cursor() == 0,
    {
        Decoder { data, pos: 0, bit_mask: 0, bit_value: 0 }
    }

    fn clear_bit(&mut self)
        requires
            old(self).wf(),
        ensures
            final(self).wf(),
            final(self).input() == old(self).input(),
            final(self).offset() == old(self).offset(),
            final(self).cursor() == 0,
            final(self).data == old(self).data,
            final(self).pos == old(self).pos,
    {
        self.bit_mask = 0;
        self.bit_value = 0;
    }

    /// Reads a bit field.
    pub fn read_bool(&mut self) -> (r: AmqpResult<bool>)
        requires
            old(self).wf(),
        ensures
            took(
                old(self),
                final(self),
                match r {
                    Ok(v) => Ok(Field::Bit(v)),
                    Err(e) => Err(e),
                },
                Kind::Bit,
            ),
    {
        if self.bit_mask == 0 {
            let (x, next) = read_u8(self.data, self.pos, self.data.len())?;
            self.bit_mask = 1;
            self.bit_value = x;
            self.pos = next;
        }
        let mask = self.bit_mask;
        let value = self.bit_value;
        assert(mask_ok(mask) && mask != 0 ==> ((value & mask) != 0) == ((value / mask) % 2 == 1))
            by (bit_vector);
        assert(mask_ok(mask) && mask != 0 ==> mask << 1u8 == if mask == 128 {
            0u8
        } else {
            (mask * 2) as u8
        }) by (bit_vector);
        let result = (value & mask) != 0;
        self.bit_mask = mask << 1;
        Ok(result)
    }

    /// Reads an octet.
    pub fn read_u8(&mut self) -> (r: AmqpResult<u8>)
        requires
            old(self).wf(),
        ensures
            took(
                old(self),
                final(self),
                match r {
                    Ok(v) => Ok(Field::Octet(v)),
                    Err(e) => Err(e),
                },
                Kind::Octet,
            ),
    {
        self.clear_bit();
        let (x, next) = read_u8(self.data, self.pos, self.data.len())?;
        self.pos = next;
        Ok(x)
    }

    /// Reads a 16-bit number.
    pub fn read_u16(&mut self) -> (r: AmqpResult<u16>)
        requires
            old(self).wf(),
        ensures
            took(
                old(self),
                final(self),
                match r {
                    Ok(v) => Ok(Field::Short(v)),
                    Err(e) => Err(e),
                },
                Kind::Short,
            ),
    {
        self.clear_bit();
        let (x, next) = read_u16(self.data, self.pos, self.data.len())?;
        self.pos = next;
        Ok(x)
    }

    /// Reads a 32-bit number.
    pub fn read_u32(&mut self) -> (r: AmqpResult<u32>)
        requires
            old(self).wf(),
        ensures
            took(
                old(self),
                final(self),
                match r {
                    Ok(v) => Ok(Field::Long(v)),
                    Err(e) => Err(e),
                },
                Kind::Long,
            ),
    {
        self.clear_bit();
        let (x, next) = read_u32(self.data, self.pos, self.data.len())?;
        self.pos = next;
        Ok(x)
    }

    /// Reads a 64-bit number.
    pub fn read_u64(&mut self) -> (r: AmqpResult<u64>)
        requires
            old(self).wf(),
        ensures
            took(
                old(self),
                final(self),
                match r {
                    Ok(v) => Ok(Field::Longlong(v)),
                    Err(e) => Err(e),
                },
                Kind::Longlong,
            ),
    {
        self.clear_bit();
        let (x, next) = read_u64(self.data, self.pos, self.data.len())?;
        self.pos = next;
        Ok(x)
    }

    /// Reads a short string.
    pub fn read_short_str(&mut self) -> (r: AmqpResult<String>)
        requires
            old(self).wf(),
        ensures
            took(
                old(self),
                final(self),
                match r {
                    Ok(v) => Ok(Field::Shortstr(v)),
                    Err(e) => Err(e),
                },
                Kind::Shortstr,
            ),
    {
        self.clear_bit();
        let (x, next) = read_short_str(self.data, self.pos, self.data.len())?;
        self.pos = next;
        Ok(x)
    }

    /// Reads a long string.
    pub fn read_long_str(&mut self) -> (r: AmqpResult<Vec<u8>>)
        requires
            old(self).wf(),
        ensures
            took(
                old(self),
                final(self),
                match r {
                    Ok(v) => Ok(Field::Longstr(v)),
                    Err(e) => Err(e),
                },
                Kind::Longstr,
            ),
    {
        self.clear_bit();
        let (x, next) = read_long_str(self.data, self.pos, self.data.len())?;
        self.pos = next;
        Ok(x)
    }

    /// Reads a table.
    pub fn decode_table(&mut self) -> (r: AmqpResult<Table>)
        requires
            old(self).wf(),
        ensures
            took(
                old(self),
                final(self),
                match r {
                    Ok(v) => Ok(Field::Table(v)),
                    Err(e) => Err(e),
                },
                Kind::Table,
            ),
            r matches Ok(t) ==> t.wf(),
    {
        self.clear_bit();
        let (x, next) = decode_table(self.data, self.pos, self.data.len())?;
        self.pos = next;
        Ok(x)
    }

    /// Reads a field of the declared type `kind`.
    pub fn read_field(&mut self, kind: Kind) -> (r: AmqpResult<Field>)
        requires
            old(self).wf(),
        ensures
            took(old(self), final(self), r, kind),
            r matches Ok(f) ==> kind_of(f@) == kind && (f matches Field::Table(t) ==> t.wf()),
    {
        match kind {
            Kind::Bit => Ok(Field::Bit(self.read_bool()?)),
            Kind::Octet => Ok(Field::Octet(self.read_u8()?)),
            Kind::Short => Ok(Field::Short(self.read_u16()?)),
            Kind::Long => Ok(Field::Long(self.read_u32()?)),
            Kind::Longlong => Ok(Field::Longlong(self.read_u64()?)),
            Kind::Shortstr => Ok(Field::Shortstr(self.read_short_str()?)),
            Kind::Longstr => Ok(Field::Longstr(self.read_long_str()?)),
            Kind::Table => Ok(Field::Table(self.decode_table()?)),
        }
    }
}

/// Whether `r` holds fields that denote `expected`, or an error that says
/// `expected`'s fault.
pub open spec fn gives_fields(r: AmqpResult<Vec<Field>>, expected: Result<Seq<FieldView>, Fault>) -> bool {
    match expected {
        Ok(fields) => r is Ok && fields_view(r->Ok_0@) == fields,
        Err(fault) => r is Err && r->Err_0@ == fault,
    }
}

/// Reads the fields of the declared types `kinds` from the start of a payload.
pub fn decode(data: &[u8], kinds: &Vec<Kind>) -> (r: AmqpResult<Vec<Field>>)
    ensures
        gives_fields(r, decode_fields(data@, kinds@)),
        r matches Ok(fields) ==> kinds_of(fields_view(fields@)) == kinds@ && fields_wf(
            fields_view(fields@),
        ),
{
    let mut dec = Decoder::new(data);
    let mut fields: Vec<Field> = Vec::new();
    let mut i: usize = 0;
    proof {
        assert(kinds@.skip(0) =~= kinds@);
        assert(fields_view(fields@) =~= Seq::<FieldView>::empty());
    }
    while i < kinds.len()
        invariant
            i <= kinds@.len(),
            dec.wf(),
            dec.input() == data@,
            fields@.len() == i,
            decode_fields(data@, kinds@) == decode_from(
                data@,
                dec.offset(),
                dec.cursor(),
                kinds@.skip(i as int),
                fields_view(fields@),
            ),
            forall|j: int| 0 <= j < i ==> kind_of(#[trigger] fields_view(fields@)[j]) == kinds@[j],
            fields_wf(fields_view(fields@)),
        decreases kinds@.len() - i,
    {
        let ghost before = fields_view(fields@);
        proof {
            assert(kinds@.skip(i as int)[0] == kinds@[i as int]);
            assert(kinds@.skip(i as int).drop_first() =~= kinds@.skip(i as int + 1));
        }
        match dec.read_field(kinds[i]) {
            Ok(f) => {
                fields.push(f);
                assert(fields_view(fields@) =~= before.push(f@));
            },
            Err(e) => {
                return Err(e);
            },
        }
        i += 1;
    }
    assert(kinds_of(fields_view(fields@)) =~= kinds@);
    Ok(fields)
}

/// The bytes of fields behind a pending run start with the octets of that run.
proof fn lemma_encode_holds_run(fs: Seq<FieldView>, run: Seq<bool>)
    requires
        encode_from(fs, run) is Ok,
    ensures
        holds_bits(encode_from(fs, run)->Ok_0, run),
    decreases fs.len(),
{
    let out = encode_from(fs, run)->Ok_0;
    if fs.len() == 0 {
        lemma_pack_holds(run);
    } else {
        match fs[0] {
            FieldView::Bit(b) => {
                lemma_encode_holds_run(fs.drop_first(), run.push(b));
                assert forall|i: int| 0 <= i < run.len() implies bit_at(out[i / 8], i % 8)
                    == #[trigger] run[i] by {
                    assert(run.push(b)[i] == run[i]);
                }
            },
            f => {
                lemma_pack_holds(run);
                let head = pack_bits(run);
                assert forall|i: int| 0 <= i < run.len() implies bit_at(out[i / 8], i % 8)
                    == #[trigger] run[i] by {
                    assert(out[i / 8] == head[i / 8]);
                }
            },
        }
    }
}

/// Where `s` holds the bytes of the field `f`, reading a field of its
/// declared type there gives `f` and the offset behind those bytes.
#[verifier::rlimit(40)]
pub proof fn lemma_parse_written_field(s: Seq<u8>, pos: int, end: int, f: FieldView)
    requires
        !(f is Bit),
        f matches FieldView::Table(t) ==> entries_wf(t),
        field_bytes(f) is Ok,
        holds_at(s, pos, field_bytes(f)->Ok_0),
        pos + field_bytes(f)->Ok_0.len() <= end <= s.len(),
    ensures
        parse_field(s, pos, end, kind_of(f)) == Ok::<(FieldView, int), Fault>(
            (f, pos + field_bytes(f)->Ok_0.len()),
        ),
{
    match f {
        FieldView::Bit(_) => {},
        FieldView::Octet(x) => {
            lemma_take_u8(s, pos, end, x);
        },
        FieldView::Short(x) => {
            lemma_take_u16(s, pos, end, x);
        },
        FieldView::Long(x) => {
            lemma_take_u32(s, pos, end, x);
        },
        FieldView::Longlong(x) => {
            lemma_take_u64(s, pos, end, x);
        },
        FieldView::Shortstr(x) => {
            lemma_take_short_str(s, pos, end, x);
        },
        FieldView::Longstr(x) => {
            lemma_take_long_str(s, pos, end, x);
        },
        FieldView::Table(t) => {
            lemma_parse_written_table(s, pos, end, t);
        },
    }
}

/// A reader that has read the bits of `run` from octets that hold one more
/// bit reads that bit next.
proof fn lemma_read_written_bit(s: Seq<u8>, base: int, out: Seq<u8>, run: Seq<bool>, b: bool)
    requires
        holds_at(s, base, out),
        holds_bits(out, run.push(b)),
    ensures
        after_read(s, base + (run.len() + 7) / 8, (run.len() % 8) as int, Kind::Bit) == Ok::<
            (FieldView, int, int),
            Fault,
        >((FieldView::Bit(b), base + (run.len() + 8) / 8, ((run.len() + 1) % 8) as int)),
{
    let j = run.len() as int;
    let more = run.push(b);
    lemma_bit_step(j);
    assert(more[j] == b);
    assert(bit_at(out[j / 8], j % 8) == b);
    assert(j / 8 < out.len());
    lemma_holds(s, base, out);
    assert(out[j / 8] == s[base + j / 8]);
    if j % 8 == 0 {
        let pos = base + j / 8;
        assert(take_u8(s, pos, s.len() as int) == Ok::<(u8, int), Fault>((s[pos], pos + 1)));
    }
}

/// A reader that has read the bits of `run` reads the field `f` that was
/// written behind the octets of `run`.
proof fn lemma_read_written_field(
    s: Seq<u8>,
    base: int,
    run: Seq<bool>,
    f: FieldView,
    rest: Seq<u8>,
)
    requires
        !(f is Bit),
        f matches FieldView::Table(t) ==> entries_wf(t),
        field_bytes(f) is Ok,
        holds_at(s, base, (pack_bits(run) + field_bytes(f)->Ok_0) + rest),
    ensures
        after_read(s, base + (run.len() + 7) / 8, (run.len() % 8) as int, kind_of(f)) == Ok::<
            (FieldView, int, int),
            Fault,
        >((f, base + (run.len() + 7) / 8 + field_bytes(f)->Ok_0.len(), 0)),
        holds_at(s, base + (run.len() + 7) / 8 + field_bytes(f)->Ok_0.len(), rest),
{
    let head = pack_bits(run);
    let x = field_bytes(f)->Ok_0;
    lemma_pack_holds(run);
    lemma_holds_split(s, base, head + x, rest);
    lemma_holds_split(s, base, head, x);
    lemma_parse_written_field(s, base + head.len(), s.len() as int, f);
}

/// Where `s` holds, from `base` on, the bytes of the fields `fs` behind a
/// pending run, a reader that has read the bits of that run reads `fs`.
#[verifier::rlimit(60)]
proof fn lemma_decode_written(
    s: Seq<u8>,
    base: int,
    fs: Seq<FieldView>,
    run: Seq<bool>,
    acc: Seq<FieldView>,
)
    requires
        fields_wf(fs),
        encode_from(fs, run) is Ok,
        holds_at(s, base, encode_from(fs, run)->Ok_0),
    ensures
        decode_from(s, base + (run.len() + 7) / 8, (run.len() % 8) as int, kinds_of(fs), acc)
            == Ok::<Seq<FieldView>, Fault>(acc + fs),
    decreases fs.len(),
{
    let out = encode_from(fs, run)->Ok_0;
    let kinds = kinds_of(fs);
    if fs.len() == 0 {
        assert(acc + fs =~= acc);
    } else {
        assert(kinds[0] == kind_of(fs[0]));
        assert(kinds.drop_first() =~= kinds_of(fs.drop_first()));
        assert(acc.push(fs[0]) + fs.drop_first() =~= acc + fs);
        assert(fields_wf(fs.drop_first())) by {
            assert forall|i: int| 0 <= i < fs.drop_first().len() implies ((
            #[trigger] fs.drop_first()[i]) matches FieldView::Table(t) ==> entries_wf(t)) by {
                assert(fs.drop_first()[i] == fs[i + 1]);
            }
        }
        match fs[0] {
            FieldView::Bit(b) => {
                let more = run.push(b);
                lemma_encode_holds_run(fs.drop_first(), more);
                lemma_read_written_bit(s, base, out, run, b);
                lemma_decode_written(s, base, fs.drop_first(), more, acc.push(fs[0]));
            },
            f => {
                let x = field_bytes(f)->Ok_0;
                let rest = encode_from(fs.drop_first(), Seq::empty())->Ok_0;
                assert(out == (pack_bits(run) + x) + rest);
                assert(fs[0] matches FieldView::Table(t) ==> entries_wf(t));
                lemma_read_written_field(s, base, run, f, rest);
                lemma_decode_written(
                    s,
                    base + (run.len() + 7) / 8 + x.len(),
                    fs.drop_first(),
                    Seq::empty(),
                    acc.push(fs[0]),
                );
            },
        }
    }
}

/// Decoding the bytes of a list of fields by their declared types gives the
/// fields back: for all fields whose tables have distinct names, at every
/// depth, and that can be written.
pub proof fn lemma_fields_round_trip(fs: Seq<FieldView>)
    requires
        fields_wf(fs),
        encode_fields(fs) is Ok,
    ensures
        decode_fields(encode_fields(fs)->Ok_0, kinds_of(fs)) == Ok::<Seq<FieldView>, Fault>(fs),
{
    let out = encode_fields(fs)->Ok_0;
    lemma_holds_self(out);
    lemma_decode_written(out, 0, fs, Seq::empty(), Seq::empty());
    assert(Seq::<FieldView>::empty() + fs =~= fs);
}

/// The bit fields that hold `bits`, in their order.
pub open spec fn bit_fields(bits: Seq<bool>) -> Seq<FieldView> {
    Seq::new(bits.len(), |i: int| FieldView::Bit(bits[i]))
}

/// `second` behind `first`, or the fault of the first of them that has one.
pub open spec fn joined(first: Result<Seq<u8>, Fault>, second: Result<Seq<u8>, Fault>) -> Result<
    Seq<u8>,
    Fault,
> {
    match first {
        Ok(bytes) => behind(bytes, second),
        Err(fault) => Err(fault),
    }
}

/// Bit fields at the front join the pending run.
proof fn lemma_encode_bits(bits: Seq<bool>, tail: Seq<FieldView>, run: Seq<bool>)
    ensures
        encode_from(bit_fields(bits) + tail, run) == encode_from(tail, run + bits),
    decreases bits.len(),
{
    let fs = bit_fields(bits) + tail;
    if bits.len() == 0 {
        assert(fs =~= tail);
        assert(run + bits =~= run);
    } else {
        assert(fs[0] == FieldView::Bit(bits[0]));
        assert(fs.drop_first() =~= bit_fields(bits.drop_first()) + tail);
        lemma_encode_bits(bits.drop_first(), tail, run.push(bits[0]));
        assert(run.push(bits[0]) + bits.drop_first() =~= run + bits);
    }
}

/// Behind fields that end in a field that is no bit, the fields that follow
/// are written as if they stood alone.
proof fn lemma_encode_append(pre: Seq<FieldView>, post: Seq<FieldView>, run: Seq<bool>)
    requires
        pre.len() > 0,
        !(pre.last() is Bit),
    ensures
        encode_from(pre + post, run) == joined(encode_from(pre, run), encode_fields(post)),
    decreases pre.len(),
{
    let fs = pre + post;
    assert(fs[0] == pre[0]);
    assert(fs.drop_first() =~= pre.drop_first() + post);
    lemma_pack_octet(Seq::empty());
    match pre[0] {
        FieldView::Bit(b) => {
            assert(pre.drop_first().last() == pre.last());
            lemma_encode_append(pre.drop_first(), post, run.push(b));
        },
        f => {
            if pre.len() == 1 {
                assert(pre.drop_first() + post =~= post);
                if field_bytes(f) is Ok {
                    let x = pack_bits(run) + field_bytes(f)->Ok_0;
                    assert(x + Seq::<u8>::empty() =~= x);
                }
            } else {
                assert(pre.drop_first().last() == pre.last());
                lemma_encode_append(pre.drop_first(), post, Seq::empty());
                if field_bytes(f) is Ok {
                    let x = pack_bits(run) + field_bytes(f)->Ok_0;
                    let mid = encode_from(pre.drop_first(), Seq::empty());
                    let end = encode_fields(post);
                    if mid is Ok && end is Ok {
                        assert(x + (mid->Ok_0 + end->Ok_0) =~= (x + mid->Ok_0) + end->Ok_0);
                    }
                }
            }
        },
    }
}

/// A run of `n` bit fields before a field that is no bit is written as
/// `(n + 7) / 8` octets that hold the bits, directly before the bytes of
/// that field: whatever stands before the run, as long as the run starts
/// there, and whatever follows the field.
pub proof fn lemma_bit_run_octets(
    pre: Seq<FieldView>,
    bits: Seq<bool>,
    f: FieldView,
    rest: Seq<FieldView>,
)
    requires
        pre.len() == 0 || !(pre.last() is Bit),
        !(f is Bit),
    ensures
        encode_fields(pre + bit_fields(bits) + seq![f] + rest) == joined(
            encode_fields(pre),
            joined(behind(pack_bits(bits), field_bytes(f)), encode_fields(rest)),
        ),
        pack_bits(bits).len() == (bits.len() + 7) / 8,
        holds_bits(pack_bits(bits), bits),
{
    lemma_pack_holds(bits);
    lemma_pack_octet(Seq::empty());
    let tail = seq![f] + rest;
    let group = bit_fields(bits) + tail;
    let all = pre + bit_fields(bits) + seq![f] + rest;
    assert(all =~= pre + group);
    lemma_encode_bits(bits, tail, Seq::empty());
    assert(Seq::<bool>::empty() + bits =~= bits);
    assert(tail[0] == f);
    assert(tail.drop_first() =~= rest);
    if pre.len() == 0 {
        assert(pre + group =~= group);
        let whole = encode_fields(group);
        if whole is Ok {
            assert(Seq::<u8>::empty() + whole->Ok_0 =~= whole->Ok_0);
        }
    } else {
        lemma_encode_append(pre, group, Seq::empty());
    }
}

/// A method of the protocol: a record of fields under a class id and a
/// method id.
pub trait Method: Sized {
    /// The id of the class that the method belongs to.
    spec fn spec_class_id() -> u16;

    /// The id of the method within its class.
    spec fn spec_method_id() -> u16;

    /// The declared types of the fields, in their order.
    spec fn spec_kinds() -> Seq<Kind>;

    /// The names of the fields, in their order.
    spec fn spec_names() -> Seq<Seq<char>>;

    /// The values of the fields, in their order.
    spec fn spec_args(&self) -> Seq<FieldView>;

    /// How the field of the name `param` travels, if it is a string.
    spec fn spec_str_type(param: Seq<char>) -> Option<StrType>;

    /// Every record has the declared types of its method.
    proof fn lemma_kinds(&self)
        ensures
            kinds_of(self.spec_args()) == Self::spec_kinds(),
    ;

    /// Each field has a name, and the string fields are those that
    /// `str_type` knows, short or long as they are declared.
    proof fn lemma_str_types()
        ensures
            Self::spec_names().len() == Self::spec_kinds().len(),
            forall|i: int|
                0 <= i < Self::spec_kinds().len() ==> Self::spec_str_type(
                    #[trigger] Self::spec_names()[i],
                ) == hint_of(Self::spec_kinds()[i]),
    ;

    fn class_id() -> (r: u16)
        ensures
            r == Self::spec_class_id(),
    ;

    fn method_id() -> (r: u16)
        ensures
            r == Self::spec_method_id(),
    ;

    /// Whether the field of the name `param` is a short or a long string.
    fn str_type(param: &str) -> (r: Option<StrType>)
        ensures
            r == Self::spec_str_type(param@),
    ;

    /// The declared types of the fields.
    fn kinds() -> (r: Vec<Kind>)
        ensures
            r@ == Self::spec_kinds(),
    ;

    /// The values of the fields.
    fn args(&self) -> (r: Vec<Field>)
        ensures
            fields_view(r@) == self.spec_args(),
    ;

    /// The record that has the fields `args`.
    fn from_args(args: Vec<Field>) -> (r: Self)
        requires
            kinds_of(fields_view(args@)) == Self::spec_kinds(),
        ensures
            r.spec_args() == fields_view(args@),
    ;

    /// The payload of the method: class id, method id, fields.
    fn se(&self) -> (r: AmqpResult<Vec<u8>>)
        ensures
            gives(
                r,
                encode_fields(
                    seq![
                        FieldView::Short(Self::spec_class_id()),
                        FieldView::Short(Self::spec_method_id()),
                    ] + self.spec_args(),
                ),
            ),
    {
        let mut fields: Vec<Field> = Vec::new();
        fields.push(Field::Short(Self::class_id()));
        fields.push(Field::Short(Self::method_id()));
        let mut args = self.args();
        fields.append(&mut args);
        assert(fields_view(fields@) =~= seq![
            FieldView::Short(Self::spec_class_id()),
            FieldView::Short(Self::spec_method_id()),
        ] + self.spec_args());
        encode(&fields)
    }
}

/// A record as a list of fields: the class id and the method id as 16-bit
/// numbers, then the fields of the method.
pub open spec fn record<M: Method>(m: &M) -> Seq<FieldView> {
    seq![FieldView::Short(M::spec_class_id()), FieldView::Short(M::spec_method_id())]
        + m.spec_args()
}

/// The declared types of a record's fields, the two ids included.
pub open spec fn record_kinds<M: Method>() -> Seq<Kind> {
    seq![Kind::Short, Kind::Short] + M::spec_kinds()
}

/// The payload bytes of a method.
pub open spec fn payload<M: Method>(m: &M) -> Result<Seq<u8>, Fault> {
    encode_fields(record(m))
}

/// The fields of the method `M` that the payload `s` holds behind a class id
/// and a method id. The two ids are read and not compared with those of `M`.
pub open spec fn payload_args<M: Method>(s: Seq<u8>) -> Result<Seq<FieldView>, Fault> {
    match decode_fields(s, record_kinds::<M>()) {
        Ok(fields) => Ok(fields.skip(2)),
        Err(fault) => Err(fault),
    }
}

/// Reads the payload `v` as the method `M`.
pub fn de<M: Method>(v: &[u8]) -> (r: Result<M, AmqpError>)
    ensures
        match payload_args::<M>(v@) {
            Ok(args) => r is Ok && r->Ok_0.spec_args() == args && fields_wf(args),
            Err(fault) => r is Err && r->Err_0@ == fault,
        },
{
    let mut kinds: Vec<Kind> = Vec::new();
    kinds.push(Kind::Short);
    kinds.push(Kind::Short);
    let mut declared = M::kinds();
    kinds.append(&mut declared);
    assert(kinds@ =~= record_kinds::<M>());
    let mut fields = decode(v, &kinds)?;
    let ghost all = fields_view(fields@);
    let args = fields.split_off(2);
    assert(fields_view(args@) =~= all.skip(2));
    assert(kinds_of(all.skip(2)) =~= M::spec_kinds()) by {
        assert(kinds_of(all) == kinds@);
        assert forall|i: int| 0 <= i < all.skip(2).len() implies kinds_of(all.skip(2))[i]
            == M::spec_kinds()[i] by {
            assert(kinds_of(all)[i + 2] == kinds@[i + 2]);
        }
    }
    assert(fields_wf(all.skip(2))) by {
        assert forall|i: int| 0 <= i < all.skip(2).len() implies ((
        #[trigger] all.skip(2)[i]) matches FieldView::Table(t) ==> entries_wf(t)) by {
            assert(all.skip(2)[i] == all[i + 2]);
        }
    }
    Ok(M::from_args(args))
}

/// The record of the method `M` that has the fields `args`, where they are
/// of the declared types of `M`.
pub fn record_of<M: Method>(args: Vec<Field>) -> (r: Option<M>)
    ensures
        r is Some <==> kinds_of(fields_view(args@)) == M::spec_kinds(),
        r matches Some(m) ==> m.spec_args() == fields_view(args@),
{
    let kinds = M::kinds();
    let ghost given = kinds_of(fields_view(args@));
    if args.len() != kinds.len() {
        return None;
    }
    let mut i: usize = 0;
    while i < args.len()
        invariant
            i <= args@.len(),
            args@.len() == kinds@.len(),
            kinds@ == M::spec_kinds(),
            given == kinds_of(fields_view(args@)),
            forall|j: int| 0 <= j < i ==> given[j] == kinds@[j],
        decreases args@.len() - i,
    {
        if args[i].kind() != kinds[i] {
            assert(given[i as int] != M::spec_kinds()[i as int]);
            return None;
        }
        i += 1;
    }
    assert(given =~= M::spec_kinds());
    Some(M::from_args(args))
}

/// Decoding the payload of a method as that method gives its fields back,
/// behind its own class id and method id: for every record whose tables
/// have distinct names, at every depth, and that can be written.
pub proof fn lemma_method_round_trip<M: Method>(m: &M)
    requires
        fields_wf(m.spec_args()),
        payload(m) is Ok,
    ensures
        decode_fields(payload(m)->Ok_0, record_kinds::<M>()) == Ok::<Seq<FieldView>, Fault>(
            record(m),
        ),
        payload_args::<M>(payload(m)->Ok_0) == Ok::<Seq<FieldView>, Fault>(m.spec_args()),
{
    let fs = record(m);
    m.lemma_kinds();
    assert(kinds_of(fs) =~= record_kinds::<M>());
    assert(fields_wf(fs)) by {
        assert forall|i: int| 0 <= i < fs.len() implies ((#[trigger] fs[i]) matches FieldView::Table(
            t,
        ) ==> entries_wf(t)) by {
            if i >= 2 {
                assert(fs[i] == m.spec_args()[i - 2]);
            }
        }
    }
    lemma_fields_round_trip(fs);
    assert(fs.skip(2) =~= m.spec_args());
}

/// A record that is read back from the payload of a record is equal to it,
/// in the sense of `==` on the records of the catalog: for every record
/// whose tables have distinct names, at every depth, and that can be written.
pub proof fn lemma_read_back_equal<M: Method>(m: &M, back: &M)
    requires
        fields_wf(m.spec_args()),
        payload(m) is Ok,
        payload_args::<M>(payload(m)->Ok_0) == Ok::<Seq<FieldView>, Fault>(back.spec_args()),
    ensures
        back.spec_args() == m.spec_args(),
        args_equiv(back.spec_args(), m.spec_args()),
{
    lemma_method_round_trip(m);
    lemma_args_equiv_reflexive(m.spec_args());
}

/// Takes the last field, a bit, off `args`.
pub(crate) fn take_bit(args: &mut Vec<Field>) -> (r: bool)
    requires
        old(args)@.len() > 0,
        old(args)@.last() is Bit,
    ensures
        final(args)@ == old(args)@.drop_last(),
        old(args)@.last()@ == FieldView::Bit(r),
{
    match args.pop() {
        Some(Field::Bit(v)) => v,
        _ => unreached(),
    }
}

/// Takes the last field, an octet, off `args`.
pub(crate) fn take_octet(args: &mut Vec<Field>) -> (r: u8)
    requires
        old(args)@.len() > 0,
        old(args)@.last() is Octet,
    ensures
        final(args)@ == old(args)@.drop_last(),
        old(args)@.last()@ == FieldView::Octet(r),
{
    match args.pop() {
        Some(Field::Octet(v)) => v,
        _ => unreached(),
    }
}

/// Takes the last field, a 16-bit number, off `args`.
pub(crate) fn take_short(args: &mut Vec<Field>) -> (r: u16)
    requires
        old(args)@.len() > 0,
        old(args)@.last() is Short,
    ensures
        final(args)@ == old(args)@.drop_last(),
        old(args)@.last()@ == FieldView::Short(r),
{
    match args.pop() {
        Some(Field::Short(v)) => v,
        _ => unreached(),
    }
}

/// Takes the last field, a 32-bit number, off `args`.
pub(crate) fn take_long(args: &mut Vec<Field>) -> (r: u32)
    requires
        old(args)@.len() > 0,
        old(args)@.last() is Long,
    ensures
        final(args)@ == old(args)@.drop_last(),
        old(args)@.last()@ == FieldView::Long(r),
{
    match args.pop() {
        Some(Field::Long(v)) => v,
        _ => unreached(),
    }
}

/// Takes the last field, a 64-bit number, off `args`.
pub(crate) fn take_longlong(args: &mut Vec<Field>) -> (r: u64)
    requires
        old(args)@.len() > 0,
        old(args)@.last() is Longlong,
    ensures
        final(args)@ == old(args)@.drop_last(),
        old(args)@.last()@ == FieldView::Longlong(r),
{
    match args.pop() {
        Some(Field::Longlong(v)) => v,
        _ => unreached(),
    }
}

/// Takes the last field, a short string, off `args`.
pub(crate) fn take_shortstr(args: &mut Vec<Field>) -> (r: String)
    requires
        old(args)@.len() > 0,
        old(args)@.last() is Shortstr,
    ensures
        final(args)@ == old(args)@.drop_last(),
        old(args)@.last()@ == FieldView::Shortstr(r@),
{
    match args.pop() {
        Some(Field::Shortstr(v)) => v,
        _ => unreached(),
    }
}

/// Takes the last field, a long string, off `args`.
pub(crate) fn take_longstr(args: &mut Vec<Field>) -> (r: Vec<u8>)
    requires
        old(args)@.len() > 0,
        old(args)@.last() is Longstr,
    ensures
        final(args)@ == old(args)@.drop_last(),
        old(args)@.last()@ == FieldView::Longstr(r@),
{
    match args.pop() {
        Some(Field::Longstr(v)) => v,
        _ => unreached(),
    }
}

/// Takes the last field, a table, off `args`.
pub(crate) fn take_table(args: &mut Vec<Field>) -> (r: Table)
    requires
        old(args)@.len() > 0,
        old(args)@.last() is Table,
    ensures
        final(args)@ == old(args)@.drop_last(),
        old(args)@.last()@ == FieldView::Table(r@),
{
    match args.pop() {
        Some(Field::Table(v)) => v,
        _ => unreached(),
    }
}

} // verus!
