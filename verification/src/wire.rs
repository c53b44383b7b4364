//! Integers and strings on the wire: big-endian numbers, short strings with a
//! one-octet length and long strings with a four-octet length.
//!
//! A reading function takes the buffer, the offset to read at and the offset
//! at which the enclosing region (frame payload, table or array) ends; it
//! gives back what it read and the offset behind it. What does not lie
//! within the region, or a region that does not lie within the buffer, is
//! refused as truncated.

use byteorder::{BigEndian, ByteOrder};
use vstd::prelude::*;
use vstd::slice::{slice_subrange, slice_to_vec};
use vstd::utf8::{decode_utf8, encode_utf8, valid_utf8};

use crate::result::{AmqpError, AmqpResult, Fault, Violation};

verus! {

/// The two octets of `v`, most significant first.
pub open spec fn be16(v: u16) -> Seq<u8> {
    seq![(v / 0x100) as u8, (v % 0x100) as u8]
}

/// The four octets of `v`, most significant first.
pub open spec fn be32(v: u32) -> Seq<u8> {
    seq![
        (v / 0x100_0000) as u8,
        (v / 0x1_0000 % 0x100) as u8,
        (v / 0x100 % 0x100) as u8,
        (v % 0x100) as u8,
    ]
}

/// The eight octets of `v`, most significant first: those of its upper half,
/// then those of its lower half.
pub open spec fn be64(v: u64) -> Seq<u8> {
    be32((v / 0x1_0000_0000) as u32) + be32((v % 0x1_0000_0000) as u32)
}

/// The number that the octets `s[at]`, `s[at + 1]` spell, most significant first.
pub open spec fn from_be16(s: Seq<u8>, at: int) -> u16 {
    (s[at] * 0x100 + s[at + 1]) as u16
}

/// The number that the four octets from `s[at]` on spell, most significant first.
pub open spec fn from_be32(s: Seq<u8>, at: int) -> u32 {
    (s[at] * 0x100_0000 + s[at + 1] * 0x1_0000 + s[at + 2] * 0x100 + s[at + 3]) as u32
}

/// The number that the eight octets from `s[at]` on spell, most significant
/// first: the first four spell its upper half, the last four its lower half.
pub open spec fn from_be64(s: Seq<u8>, at: int) -> u64 {
    (from_be32(s, at) * 0x1_0000_0000 + from_be32(s, at + 4)) as u64
}

/// Calls `byteorder::BigEndian::write_u16` on a buffer of two octets: the
/// buffer then holds `v` in big-endian order.
#[verifier::external_body]
fn u16_octets(v: u16) -> (b: [u8; 2])
    ensures
        b@ == be16(v),
{
    let mut b: [u8; 2] = [0; 2];
    BigEndian::write_u16(&mut b, v);
    b
}

/// Calls `byteorder::BigEndian::write_u32` on a buffer of four octets: the
/// buffer then holds `v` in big-endian order.
#[verifier::external_body]
fn u32_octets(v: u32) -> (b: [u8; 4])
    ensures
        b@ == be32(v),
{
    let mut b: [u8; 4] = [0; 4];
    BigEndian::write_u32(&mut b, v);
    b
}

/// Calls `byteorder::BigEndian::write_u64` on a buffer of eight octets: the
/// buffer then holds `v` in big-endian order.
#[verifier::external_body]
fn u64_octets(v: u64) -> (b: [u8; 8])
    ensures
        b@ == be64(v),
{
    let mut b: [u8; 8] = [0; 8];
    BigEndian::write_u64(&mut b, v);
    b
}

/// Calls `byteorder::BigEndian::read_u16`, which reads the first two octets of
/// `b` as a big-endian number and panics on a shorter slice.
#[verifier::external_body]
fn octets_u16(b: &[u8]) -> (v: u16)
    requires
        b@.len() >= 2,
    ensures
        v == from_be16(b@, 0),
{
    BigEndian::read_u16(b)
}

/// Calls `byteorder::BigEndian::read_u32`, which reads the first four octets
/// of `b` as a big-endian number and panics on a shorter slice.
#[verifier::external_body]
fn octets_u32(b: &[u8]) -> (v: u32)
    requires
        b@.len() >= 4,
    ensures
        v == from_be32(b@, 0),
{
    BigEndian::read_u32(b)
}

/// Calls `byteorder::BigEndian::read_u64`, which reads the first eight octets
/// of `b` as a big-endian number and panics on a shorter slice.
#[verifier::external_body]
fn octets_u64(b: &[u8]) -> (v: u64)
    requires
        b@.len() >= 8,
    ensures
        v == from_be64(b@, 0),
{
    BigEndian::read_u64(b)
}

/// Calls `String::from_utf8`: the bytes become a string exactly when they are
/// valid UTF-8, and the string then spells the characters that they encode.
#[verifier::external_body]
fn string_from_utf8(bytes: Vec<u8>) -> (r: Result<String, std::string::FromUtf8Error>)
    ensures
        r is Ok <==> valid_utf8(bytes@),
        r matches Ok(s) ==> s@ == decode_utf8(bytes@),
{
    String::from_utf8(bytes)
}

/// Appends `bytes` to `out`.
pub fn put_bytes(out: &mut Vec<u8>, bytes: &[u8])
    ensures
        final(out)@ == old(out)@ + bytes@,
{
    let mut i: usize = 0;
    while i < bytes.len()
        invariant
            i <= bytes@.len(),
            out@ == old(out)@ + bytes@.subrange(0, i as int),
        decreases bytes@.len() - i,
    {
        out.push(bytes[i]);
        i += 1;
    }
}

/// Appends `v` as one octet.
pub fn put_u8(out: &mut Vec<u8>, v: u8)
    ensures
        final(out)@ == old(out)@ + seq![v],
{
    out.push(v);
}

/// Appends `v` as two octets, big-endian.
pub fn put_u16(out: &mut Vec<u8>, v: u16)
    ensures
        final(out)@ == old(out)@ + be16(v),
{
    let b = u16_octets(v);
    put_bytes(out, b.as_slice());
}

/// Appends `v` as four octets, big-endian.
pub fn put_u32(out: &mut Vec<u8>, v: u32)
    ensures
        final(out)@ == old(out)@ + be32(v),
{
    let b = u32_octets(v);
    put_bytes(out, b.as_slice());
}

/// Appends `v` as eight octets, big-endian.
pub fn put_u64(out: &mut Vec<u8>, v: u64)
    ensures
        final(out)@ == old(out)@ + be64(v),
{
    let b = u64_octets(v);
    put_bytes(out, b.as_slice());
}

/// What a short string is on the wire: one octet of length, then its UTF-8
/// bytes. More than 255 bytes cannot be written.
pub open spec fn short_str_bytes(s: Seq<char>) -> Result<Seq<u8>, Fault> {
    let b = encode_utf8(s);
    if b.len() > 255 {
        Err(Fault::ShortStrTooLong(b.len()))
    } else {
        Ok(seq![b.len() as u8] + b)
    }
}

/// The fault of a body of `n` bytes, too long for a four-octet length.
pub open spec fn oversize(n: nat) -> Fault {
    Fault::Violation(Violation::Oversize(n as usize))
}

/// A body behind its four-octet length. A body of more than `u32::MAX` bytes
/// cannot be written.
pub open spec fn sized(body: Seq<u8>) -> Result<Seq<u8>, Fault> {
    if body.len() > u32::MAX {
        Err(oversize(body.len()))
    } else {
        Ok(be32(body.len() as u32) + body)
    }
}

/// Whether `r` is the outcome `expected` of appending to a buffer that held
/// `before` and now holds `after`: on success the bytes were appended, on
/// failure the buffer is as it was and the error says `expected`'s fault.
pub open spec fn appended(
    r: AmqpResult<()>,
    before: Seq<u8>,
    after: Seq<u8>,
    expected: Result<Seq<u8>, Fault>,
) -> bool {
    match expected {
        Ok(bytes) => r is Ok && after == before + bytes,
        Err(fault) => r is Err && r->Err_0@ == fault && after == before,
    }
}

/// Appends `s` as a short string.
pub fn put_short_str(out: &mut Vec<u8>, s: &str) -> (r: AmqpResult<()>)
    ensures
        appended(r, old(out)@, final(out)@, short_str_bytes(s@)),
{
    let bytes = s.as_bytes();
    let len = bytes.len();
    if len > 255 {
        Err(AmqpError::ShortStrTooLong(len))
    } else {
        out.push(len as u8);
        put_bytes(out, bytes);
        assert(out@ == old(out)@ + (seq![len as u8] + encode_utf8(s@)));
        Ok(())
    }
}

/// Appends `body` behind its four-octet length.
pub fn put_sized(out: &mut Vec<u8>, body: &[u8]) -> (r: AmqpResult<()>)
    ensures
        appended(r, old(out)@, final(out)@, sized(body@)),
{
    let len = body.len();
    if len > 0xffff_ffff {
        Err(AmqpError::ProtocolViolation(Violation::Oversize(len)))
    } else {
        put_u32(out, len as u32);
        put_bytes(out, body);
        assert(out@ == old(out)@ + (be32(len as u32) + body@));
        Ok(())
    }
}

/// The fault of an item that starts at `pos` and does not fit in its region.
pub open spec fn truncated(pos: int) -> Fault {
    Fault::Violation(Violation::Truncated(pos as usize))
}

/// Whether the `n` octets from `pos` on lie in the region that ends at `end`,
/// and the region in `s`.
pub open spec fn fits(s: Seq<u8>, pos: int, end: int, n: int) -> bool {
    0 <= pos && 0 <= n && pos + n <= end <= s.len()
}

/// One octet at `pos`.
pub open spec fn take_u8(s: Seq<u8>, pos: int, end: int) -> Result<(u8, int), Fault> {
    if fits(s, pos, end, 1) {
        Ok((s[pos], pos + 1))
    } else {
        Err(truncated(pos))
    }
}

/// Two octets at `pos`, big-endian.
pub open spec fn take_u16(s: Seq<u8>, pos: int, end: int) -> Result<(u16, int), Fault> {
    if fits(s, pos, end, 2) {
        Ok((from_be16(s, pos), pos + 2))
    } else {
        Err(truncated(pos))
    }
}

/// Four octets at `pos`, big-endian.
pub open spec fn take_u32(s: Seq<u8>, pos: int, end: int) -> Result<(u32, int), Fault> {
    if fits(s, pos, end, 4) {
        Ok((from_be32(s, pos), pos + 4))
    } else {
        Err(truncated(pos))
    }
}

/// Eight octets at `pos`, big-endian.
pub open spec fn take_u64(s: Seq<u8>, pos: int, end: int) -> Result<(u64, int), Fault> {
    if fits(s, pos, end, 8) {
        Ok((from_be64(s, pos), pos + 8))
    } else {
        Err(truncated(pos))
    }
}

/// The `n` octets at `pos`.
pub open spec fn take_bytes(s: Seq<u8>, pos: int, end: int, n: int) -> Result<
    (Seq<u8>, int),
    Fault,
> {
    if fits(s, pos, end, n) {
        Ok((s.subrange(pos, pos + n), pos + n))
    } else {
        Err(truncated(pos))
    }
}

/// A short string at `pos`: its length in one octet, then that many bytes,
/// which must be UTF-8.
pub open spec fn take_short_str(s: Seq<u8>, pos: int, end: int) -> Result<(Seq<char>, int), Fault> {
    match take_u8(s, pos, end) {
        Err(fault) => Err(fault),
        Ok((n, at)) => match take_bytes(s, at, end, n as int) {
            Err(fault) => Err(fault),
            Ok((bytes, next)) => if valid_utf8(bytes) {
                Ok((decode_utf8(bytes), next))
            } else {
                Err(Fault::Utf8)
            },
        },
    }
}

/// A long string at `pos`: its length in four octets, then that many bytes.
pub open spec fn take_long_str(s: Seq<u8>, pos: int, end: int) -> Result<(Seq<u8>, int), Fault> {
    match take_u32(s, pos, end) {
        Err(fault) => Err(fault),
        Ok((n, at)) => take_bytes(s, at, end, n as int),
    }
}

/// Whether `r` is the outcome `expected` of a read: the same value and next
/// offset, or an error that says the same fault.
pub open spec fn reads<T>(r: AmqpResult<(T, usize)>, expected: Result<(T, int), Fault>) -> bool {
    match expected {
        Ok((v, next)) => r is Ok && r->Ok_0.0 == v && r->Ok_0.1 == next,
        Err(fault) => r is Err && r->Err_0@ == fault,
    }
}

/// As [`reads`], for a value that is compared by its view.
pub open spec fn reads_view<T: View>(
    r: AmqpResult<(T, usize)>,
    expected: Result<(T::V, int), Fault>,
) -> bool {
    match expected {
        Ok((v, next)) => r is Ok && r->Ok_0.0@ == v && r->Ok_0.1 == next,
        Err(fault) => r is Err && r->Err_0@ == fault,
    }
}

/// Reads one octet at `pos`.
pub fn read_u8(data: &[u8], pos: usize, end: usize) -> (r: AmqpResult<(u8, usize)>)
    ensures
        reads(r, take_u8(data@, pos as int, end as int)),
{
    if pos > end || end > data.len() || end - pos < 1 {
        Err(AmqpError::ProtocolViolation(Violation::Truncated(pos)))
    } else {
        Ok((data[pos], pos + 1))
    }
}

/// Reads two octets at `pos`, big-endian.
pub fn read_u16(data: &[u8], pos: usize, end: usize) -> (r: AmqpResult<(u16, usize)>)
    ensures
        reads(r, take_u16(data@, pos as int, end as int)),
{
    if pos > end || end > data.len() || end - pos < 2 {
        Err(AmqpError::ProtocolViolation(Violation::Truncated(pos)))
    } else {
        let v = octets_u16(slice_subrange(data, pos, pos + 2));
        Ok((v, pos + 2))
    }
}

/// Reads four octets at `pos`, big-endian.
pub fn read_u32(data: &[u8], pos: usize, end: usize) -> (r: AmqpResult<(u32, usize)>)
    ensures
        reads(r, take_u32(data@, pos as int, end as int)),
{
    if pos > end || end > data.len() || end - pos < 4 {
        Err(AmqpError::ProtocolViolation(Violation::Truncated(pos)))
    } else {
        let v = octets_u32(slice_subrange(data, pos, pos + 4));
        Ok((v, pos + 4))
    }
}

/// Reads eight octets at `pos`, big-endian.
pub fn read_u64(data: &[u8], pos: usize, end: usize) -> (r: AmqpResult<(u64, usize)>)
    ensures
        reads(r, take_u64(data@, pos as int, end as int)),
{
    if pos > end || end > data.len() || end - pos < 8 {
        Err(AmqpError::ProtocolViolation(Violation::Truncated(pos)))
    } else {
        let v = octets_u64(slice_subrange(data, pos, pos + 8));
        Ok((v, pos + 8))
    }
}

/// Copies the `n` octets at `pos`.
pub fn read_bytes(data: &[u8], pos: usize, end: usize, n: usize) -> (r: AmqpResult<
    (Vec<u8>, usize),
>)
    ensures
        reads_view(r, take_bytes(data@, pos as int, end as int, n as int)),
{
    if pos > end || end > data.len() || end - pos < n {
        Err(AmqpError::ProtocolViolation(Violation::Truncated(pos)))
    } else {
        let bytes = slice_to_vec(slice_subrange(data, pos, pos + n));
        Ok((bytes, pos + n))
    }
}

/// Reads a short string at `pos`.
pub fn read_short_str(data: &[u8], pos: usize, end: usize) -> (r: AmqpResult<(String, usize)>)
    ensures
        reads_view(r, take_short_str(data@, pos as int, end as int)),
{
    let (n, at) = read_u8(data, pos, end)?;
    let (bytes, next) = read_bytes(data, at, end, n as usize)?;
    match string_from_utf8(bytes) {
        Ok(s) => Ok((s, next)),
        Err(e) => Err(AmqpError::Utf8Err(e)),
    }
}

/// Reads a long string at `pos`.
pub fn read_long_str(data: &[u8], pos: usize, end: usize) -> (r: AmqpResult<(Vec<u8>, usize)>)
    ensures
        reads_view(r, take_long_str(data@, pos as int, end as int)),
{
    let (n, at) = read_u32(data, pos, end)?;
    read_bytes(data, at, end, n as usize)
}

/// Whether `s` holds the bytes `b` from the offset `pos` on.
pub closed spec fn holds_at(s: Seq<u8>, pos: int, b: Seq<u8>) -> bool {
    &&& 0 <= pos
    &&& pos + b.len() <= s.len()
    &&& forall|i: int| 0 <= i < b.len() ==> #[trigger] b[i] == s[pos + i]
}

/// Bytes that `s` holds from `pos` on lie within `s`, and each of them is
/// the byte of `s` at its place.
pub proof fn lemma_holds(s: Seq<u8>, pos: int, b: Seq<u8>)
    requires
        holds_at(s, pos, b),
    ensures
        0 <= pos,
        pos + b.len() <= s.len(),
        forall|i: int| 0 <= i < b.len() ==> #[trigger] b[i] == s[pos + i],
{
}

/// Where `s` holds `a + b`, it holds `a` and, behind it, `b`.
pub proof fn lemma_holds_split(s: Seq<u8>, pos: int, a: Seq<u8>, b: Seq<u8>)
    requires
        holds_at(s, pos, a + b),
    ensures
        holds_at(s, pos, a),
        holds_at(s, pos + a.len(), b),
        0 <= pos,
        pos + a.len() + b.len() <= s.len(),
{
    assert forall|i: int| 0 <= i < a.len() implies #[trigger] a[i] == s[pos + i] by {
        assert((a + b)[i] == a[i]);
    }
    assert forall|i: int| 0 <= i < b.len() implies #[trigger] b[i] == s[pos + a.len() + i] by {
        assert((a + b)[a.len() + i] == b[i]);
    }
}

/// A sequence holds itself from its start on.
pub proof fn lemma_holds_self(b: Seq<u8>)
    ensures
        holds_at(b, 0, b),
{
}

/// Reading where one octet was written gives that octet.
pub proof fn lemma_take_u8(s: Seq<u8>, pos: int, end: int, v: u8)
    requires
        holds_at(s, pos, seq![v]),
        pos + 1 <= end <= s.len(),
    ensures
        take_u8(s, pos, end) == Ok::<(u8, int), Fault>((v, pos + 1)),
{
    assert(seq![v][0] == s[pos + 0]);
}

/// Reading where a 16-bit number was written gives that number.
pub proof fn lemma_take_u16(s: Seq<u8>, pos: int, end: int, v: u16)
    requires
        holds_at(s, pos, be16(v)),
        pos + 2 <= end <= s.len(),
    ensures
        take_u16(s, pos, end) == Ok::<(u16, int), Fault>((v, pos + 2)),
{
    let b = be16(v);
    assert(b[0] == s[pos + 0]);
    assert(b[1] == s[pos + 1]);
}

/// Reading where a 32-bit number was written gives that number.
pub proof fn lemma_take_u32(s: Seq<u8>, pos: int, end: int, v: u32)
    requires
        holds_at(s, pos, be32(v)),
        pos + 4 <= end <= s.len(),
    ensures
        take_u32(s, pos, end) == Ok::<(u32, int), Fault>((v, pos + 4)),
{
    let b = be32(v);
    assert(b[0] == s[pos + 0]);
    assert(b[1] == s[pos + 1]);
    assert(b[2] == s[pos + 2]);
    assert(b[3] == s[pos + 3]);
}

/// Reading where a 64-bit number was written gives that number.
pub proof fn lemma_take_u64(s: Seq<u8>, pos: int, end: int, v: u64)
    requires
        holds_at(s, pos, be64(v)),
        pos + 8 <= end <= s.len(),
    ensures
        take_u64(s, pos, end) == Ok::<(u64, int), Fault>((v, pos + 8)),
{
    let hi = (v / 0x1_0000_0000) as u32;
    let lo = (v % 0x1_0000_0000) as u32;
    lemma_holds_split(s, pos, be32(hi), be32(lo));
    lemma_take_u32(s, pos, pos + 4, hi);
    lemma_take_u32(s, pos + 4, pos + 8, lo);
}

/// Reading where bytes were written gives those bytes.
pub proof fn lemma_take_bytes(s: Seq<u8>, pos: int, end: int, b: Seq<u8>)
    requires
        holds_at(s, pos, b),
        pos + b.len() <= end <= s.len(),
    ensures
        take_bytes(s, pos, end, b.len() as int) == Ok::<(Seq<u8>, int), Fault>(
            (b, pos + b.len()),
        ),
{
    assert(s.subrange(pos, pos + b.len()) =~= b);
}

/// Reading where a short string was written gives that string.
pub proof fn lemma_take_short_str(s: Seq<u8>, pos: int, end: int, x: Seq<char>)
    requires
        short_str_bytes(x) is Ok,
        holds_at(s, pos, short_str_bytes(x)->Ok_0),
        pos + short_str_bytes(x)->Ok_0.len() <= end <= s.len(),
    ensures
        take_short_str(s, pos, end) == Ok::<(Seq<char>, int), Fault>(
            (x, pos + short_str_bytes(x)->Ok_0.len()),
        ),
{
    broadcast use vstd::utf8::encode_utf8_decode_utf8, vstd::utf8::encode_utf8_valid_utf8;

    let b = encode_utf8(x);
    lemma_holds_split(s, pos, seq![b.len() as u8], b);
    lemma_take_u8(s, pos, end, b.len() as u8);
    lemma_take_bytes(s, pos + 1, end, b);
}

/// Where a body was written behind its length, reading the length gives the
/// body's length, and the body stands behind it.
pub proof fn lemma_take_sized(s: Seq<u8>, pos: int, end: int, body: Seq<u8>)
    requires
        sized(body) is Ok,
        holds_at(s, pos, sized(body)->Ok_0),
        pos + sized(body)->Ok_0.len() <= end <= s.len(),
    ensures
        take_u32(s, pos, end) == Ok::<(u32, int), Fault>((body.len() as u32, pos + 4)),
        holds_at(s, pos + 4, body),
        sized(body)->Ok_0.len() == 4 + body.len(),
        body.len() <= u32::MAX,
{
    lemma_holds_split(s, pos, be32(body.len() as u32), body);
    lemma_take_u32(s, pos, end, body.len() as u32);
}

/// Reading where a long string was written gives that string.
pub proof fn lemma_take_long_str(s: Seq<u8>, pos: int, end: int, x: Seq<u8>)
    requires
        sized(x) is Ok,
        holds_at(s, pos, sized(x)->Ok_0),
        pos + sized(x)->Ok_0.len() <= end <= s.len(),
    ensures
        take_long_str(s, pos, end) == Ok::<(Seq<u8>, int), Fault>(
            (x, pos + sized(x)->Ok_0.len()),
        ),
{
    lemma_take_sized(s, pos, end, x);
    lemma_take_bytes(s, pos + 4, end, x);
}

} // verus!
