//! Frames: a type, a channel and a payload, and their image on the wire.

use vstd::prelude::*;

use crate::method::{de, fields_wf, payload, payload_args, Method};
use crate::protocol::{FRAME_END, FRAME_METHOD};
use crate::result::{AmqpError, AmqpResult, Fault};
use crate::wire::{
    be16, lemma_holds_self, lemma_holds_split, lemma_take_bytes, lemma_take_sized,
    lemma_take_u16, lemma_take_u8, put_sized, put_u16, read_bytes, read_u16, read_u32, read_u8,
    sized, take_bytes, take_u16, take_u32, take_u8,
};

verus! {

#[derive(Debug)]
pub struct Frame {
    pub ty: u8,
    pub channel: u16,
    pub payload: Vec<u8>,
}

/// What a [`Frame`] denotes.
pub struct FrameView {
    pub ty: u8,
    pub channel: u16,
    pub payload: Seq<u8>,
}

impl View for Frame {
    type V = FrameView;

    open spec fn view(&self) -> FrameView {
        FrameView { ty: self.ty, channel: self.channel, payload: self.payload@ }
    }
}

/// The image of a frame on the wire: the type in one octet, the channel in
/// two, the payload behind its length in four octets, and the frame-end
/// octet. A payload of more than `u32::MAX` bytes has no image.
pub open spec fn frame_bytes(f: FrameView) -> Result<Seq<u8>, Fault> {
    match sized(f.payload) {
        Ok(body) => Ok(seq![f.ty] + be16(f.channel) + body + seq![FRAME_END]),
        Err(fault) => Err(fault),
    }
}

/// The type, the channel and the payload length that the seven octets at
/// the start of a frame spell.
pub open spec fn parse_frame_header(s: Seq<u8>) -> Result<(u8, u16, u32), Fault> {
    match take_u8(s, 0, s.len() as int) {
        Ok((ty, at)) => match take_u16(s, at, s.len() as int) {
            Ok((channel, mid)) => match take_u32(s, mid, s.len() as int) {
                Ok((size, _)) => Ok((ty, channel, size)),
                Err(fault) => Err(fault),
            },
            Err(fault) => Err(fault),
        },
        Err(fault) => Err(fault),
    }
}

/// The frame that `s` starts with, and the offset behind it: the header, as
/// many payload bytes as it announces, and the frame-end octet; any other
/// octet in its place is a fault.
pub open spec fn parse_frame(s: Seq<u8>) -> Result<(FrameView, int), Fault> {
    match parse_frame_header(s) {
        Ok((ty, channel, size)) => match take_bytes(s, 7, s.len() as int, size as int) {
            Ok((data, at)) => match take_u8(s, at, s.len() as int) {
                Ok((end, next)) => if end == FRAME_END {
                    Ok((FrameView { ty, channel, payload: data }, next))
                } else {
                    Err(Fault::FrameEnd(end))
                },
                Err(fault) => Err(fault),
            },
            Err(fault) => Err(fault),
        },
        Err(fault) => Err(fault),
    }
}

impl Frame {
    /// A method frame on `channel` that carries `method`.
    pub fn from_method<M: Method>(channel: u16, method: &M) -> (r: AmqpResult<Frame>)
        ensures
            match payload(method) {
                Ok(bytes) => r is Ok && r->Ok_0@ == (FrameView {
                    ty: FRAME_METHOD,
                    channel,
                    payload: bytes,
                }),
                Err(fault) => r is Err && r->Err_0@ == fault,
            },
    {
        let payload = method.se()?;
        let frame = Frame { ty: FRAME_METHOD, channel, payload };
        Ok(frame)
    }

    /// The method `M` that the payload of the frame holds.
    pub fn to_method<M: Method>(&self) -> (r: AmqpResult<M>)
        ensures
            match payload_args::<M>(self.payload@) {
                Ok(args) => r is Ok && r->Ok_0.spec_args() == args && fields_wf(args),
                Err(fault) => r is Err && r->Err_0@ == fault,
            },
    {
        de(self.payload.as_slice())
    }

    /// The class id and the method id that the payload starts with, where
    /// it holds as much.
    pub fn method_ids(&self) -> (r: Option<(u16, u16)>)
        ensures
            r == ids_of(self.payload@),
    {
        let data = self.payload.as_slice();
        match read_u16(data, 0, data.len()) {
            Ok((class_id, at)) => match read_u16(data, at, data.len()) {
                Ok((method_id, _)) => Some((class_id, method_id)),
                Err(_) => None,
            },
            Err(_) => None,
        }
    }

    /// The image of the frame on the wire.
    pub fn to_bytes(&self) -> (r: AmqpResult<Vec<u8>>)
        ensures
            match frame_bytes(self@) {
                Ok(bytes) => r is Ok && r->Ok_0@ == bytes,
                Err(fault) => r is Err && r->Err_0@ == fault,
            },
    {
        let mut out: Vec<u8> = Vec::new();
        out.push(self.ty);
        put_u16(&mut out, self.channel);
        put_sized(&mut out, self.payload.as_slice())?;
        out.push(FRAME_END);
        assert(out@ =~= seq![self.ty] + be16(self.channel) + sized(self.payload@)->Ok_0
            + seq![FRAME_END]);
        Ok(out)
    }

    /// Reads the seven octets at the start of a frame: its type, its
    /// channel and the length of its payload.
    pub fn parse_header(header: &[u8]) -> (r: AmqpResult<(u8, u16, u32)>)
        ensures
            match parse_frame_header(header@) {
                Ok(h) => r == Ok::<(u8, u16, u32), AmqpError>(h),
                Err(fault) => r is Err && r->Err_0@ == fault,
            },
    {
        let (ty, at) = read_u8(header, 0, header.len())?;
        let (channel, mid) = read_u16(header, at, header.len())?;
        let (size, _) = read_u32(header, mid, header.len())?;
        Ok((ty, channel, size))
    }

    /// Makes the frame of what was received: the type and the channel of
    /// the header, the payload, and the octet that came behind it, which
    /// must be the frame-end octet.
    pub fn finish(ty: u8, channel: u16, payload: Vec<u8>, frame_end: u8) -> (r: AmqpResult<Frame>)
        ensures
            frame_end == FRAME_END ==> r is Ok && r->Ok_0@ == (FrameView {
                ty,
                channel,
                payload: payload@,
            }),
            frame_end != FRAME_END ==> r is Err && r->Err_0@ == Fault::FrameEnd(frame_end),
    {
        if frame_end != FRAME_END {
            return Err(AmqpError::FrameEndErr(frame_end));
        }
        Ok(Frame { ty, channel, payload })
    }

    /// Reads the frame that `data` starts with.
    pub fn from_bytes(data: &[u8]) -> (r: AmqpResult<(Frame, usize)>)
        ensures
            match parse_frame(data@) {
                Ok((frame, next)) => r is Ok && r->Ok_0.0@ == frame && r->Ok_0.1 == next,
                Err(fault) => r is Err && r->Err_0@ == fault,
            },
    {
        let (ty, channel, size) = Self::parse_header(data)?;
        let (payload, at) = read_bytes(data, 7, data.len(), size as usize)?;
        let (end, next) = read_u8(data, at, data.len())?;
        let frame = Self::finish(ty, channel, payload, end)?;
        Ok((frame, next))
    }
}

/// The class id and the method id that a payload starts with, where it
/// holds as much.
pub open spec fn ids_of(s: Seq<u8>) -> Option<(u16, u16)> {
    match take_u16(s, 0, s.len() as int) {
        Ok((class_id, at)) => match take_u16(s, at, s.len() as int) {
            Ok((method_id, _)) => Some((class_id, method_id)),
            Err(_) => None,
        },
        Err(_) => None,
    }
}

/// Reading the image of a frame gives the frame back, and the offset behind
/// the image.
pub proof fn lemma_frame_round_trip(f: FrameView)
    requires
        frame_bytes(f) is Ok,
    ensures
        parse_frame(frame_bytes(f)->Ok_0) == Ok::<(FrameView, int), Fault>(
            (f, frame_bytes(f)->Ok_0.len() as int),
        ),
{
    let s = frame_bytes(f)->Ok_0;
    let body = sized(f.payload)->Ok_0;
    let end = s.len() as int;
    lemma_holds_self(s);
    lemma_holds_split(s, 0, seq![f.ty] + be16(f.channel) + body, seq![FRAME_END]);
    lemma_holds_split(s, 0, seq![f.ty] + be16(f.channel), body);
    lemma_holds_split(s, 0, seq![f.ty], be16(f.channel));
    lemma_take_u8(s, 0, end, f.ty);
    lemma_take_u16(s, 1, end, f.channel);
    lemma_take_sized(s, 3, end, f.payload);
    lemma_take_bytes(s, 7, end, f.payload);
    lemma_take_u8(s, 7 + f.payload.len() as int, end, FRAME_END);
}

} // verus!
