//! The constants of the protocol and the catalog of its methods.
//!
//! Each method is a record in the module of its class. A record knows its
//! class id and method id, the declared types and names of its fields and,
//! for its string fields, whether they travel as short or as long strings.

use vstd::prelude::*;

use crate::method::{Kind, Method};

pub mod access;
pub mod basic;
pub mod channel;
pub mod confirm;
pub mod connection;
pub mod exchange;
pub mod queue;
pub mod tx;

verus! {

/// The name and the version of the protocol.
#[derive(Debug, Clone, Copy)]
pub struct Header {
    pub name: [u8; 4],
    pub major: u8,
    pub minor: u8,
    pub revision: u8,
}

impl Header {
    /// The header of AMQP 0-9-1.
    pub fn current() -> (h: Header)
        ensures
            h.name@ == seq![0x41u8, 0x4d, 0x51, 0x50],
            h.major == 0,
            h.minor == 9,
            h.revision == 1,
    {
        Header { name: [0x41, 0x4d, 0x51, 0x50], major: 0, minor: 9, revision: 1 }
    }

    /// The eight octets that open a connection: the name, a zero octet, and
    /// the three numbers of the version.
    pub open spec fn spec_bytes(&self) -> Seq<u8> {
        self.name@ + seq![0u8, self.major, self.minor, self.revision]
    }

    /// The eight octets that open a connection.
    pub fn bytes(&self) -> (b: [u8; 8])
        ensures
            b@ == self.spec_bytes(),
    {
        let b: [u8; 8] = [
            self.name[0],
            self.name[1],
            self.name[2],
            self.name[3],
            0,
            self.major,
            self.minor,
            self.revision,
        ];
        assert(b@ =~= self.spec_bytes());
        b
    }
}

pub const PORT: u16 = 5672;

/// The octets that a client sends first: `AMQP`, 0, 0, 9, 1.
pub const PROT_HEADER: [u8; 8] = [65, 77, 81, 80, 0, 0, 9, 1];

pub const FRAME_METHOD: u8 = 1;

pub const FRAME_HEADER: u8 = 2;

pub const FRAME_BODY: u8 = 3;

pub const FRAME_HEARTBEAT: u8 = 8;

pub const FRAME_MIN_SIZE: u16 = 4096;

pub const FRAME_END: u8 = 206;

pub const REPLY_SUCCESS: u8 = 200;

pub const CONTENT_TOO_LARGE: u16 = 311;

pub const NO_ROUTE: u16 = 312;

pub const NO_CONSUMERS: u16 = 313;

pub const ACCESS_REFUSED: u16 = 403;

pub const NOT_FOUND: u16 = 404;

pub const RESOURCE_LOCKED: u16 = 405;

pub const PRECONDITION_FAILED: u16 = 406;

pub const CONNECTION_FORCED: u16 = 320;

pub const INVALID_PATH: u16 = 402;

pub const FRAME_ERROR: u16 = 501;

pub const SYNTAX_ERROR: u16 = 502;

pub const COMMAND_INVALID: u16 = 503;

pub const CHANNEL_ERROR: u16 = 504;

pub const UNEXPECTED_FRAME: u16 = 505;

pub const RESOURCE_ERROR: u16 = 506;

pub const NOT_ALLOWED: u16 = 530;

pub const NOT_IMPLEMENTED: u16 = 540;

pub const INTERNAL_ERROR: u16 = 541;

/// The declared types of the fields of the method with these ids, for each
/// method of the catalog.
pub open spec fn spec_lookup(class_id: u16, method_id: u16) -> Option<Seq<Kind>> {
    if class_id == 10 && method_id == 10 {
        Some(connection::Start::spec_kinds())
    } else if class_id == 10 && method_id == 11 {
        Some(connection::StartOk::spec_kinds())
    } else if class_id == 10 && method_id == 20 {
        Some(connection::Secure::spec_kinds())
    } else if class_id == 10 && method_id == 21 {
        Some(connection::SecureOk::spec_kinds())
    } else if class_id == 10 && method_id == 30 {
        Some(connection::Tune::spec_kinds())
    } else if class_id == 10 && method_id == 31 {
        Some(connection::TuneOk::spec_kinds())
    } else if class_id == 10 && method_id == 40 {
        Some(connection::Open::spec_kinds())
    } else if class_id == 10 && method_id == 41 {
        Some(connection::OpenOk::spec_kinds())
    } else if class_id == 10 && method_id == 50 {
        Some(connection::Close::spec_kinds())
    } else if class_id == 10 && method_id == 51 {
        Some(connection::CloseOk::spec_kinds())
    } else if class_id == 10 && method_id == 60 {
        Some(connection::Blocked::spec_kinds())
    } else if class_id == 10 && method_id == 61 {
        Some(connection::Unblocked::spec_kinds())
    } else if class_id == 20 && method_id == 10 {
        Some(channel::Open::spec_kinds())
    } else if class_id == 20 && method_id == 11 {
        Some(channel::OpenOk::spec_kinds())
    } else if class_id == 20 && method_id == 20 {
        Some(channel::Flow::spec_kinds())
    } else if class_id == 20 && method_id == 21 {
        Some(channel::FlowOk::spec_kinds())
    } else if class_id == 20 && method_id == 40 {
        Some(channel::Close::spec_kinds())
    } else if class_id == 20 && method_id == 41 {
        Some(channel::CloseOk::spec_kinds())
    } else if class_id == 30 && method_id == 10 {
        Some(access::Request::spec_kinds())
    } else if class_id == 30 && method_id == 11 {
        Some(access::RequestOk::spec_kinds())
    } else if class_id == 40 && method_id == 10 {
        Some(exchange::Declare::spec_kinds())
    } else if class_id == 40 && method_id == 11 {
        Some(exchange::DeclareOk::spec_kinds())
    } else if class_id == 40 && method_id == 20 {
        Some(exchange::Delete::spec_kinds())
    } else if class_id == 40 && method_id == 21 {
        Some(exchange::DeleteOk::spec_kinds())
    } else if class_id == 40 && method_id == 30 {
        Some(exchange::Bind::spec_kinds())
    } else if class_id == 40 && method_id == 31 {
        Some(exchange::BindOk::spec_kinds())
    } else if class_id == 40 && method_id == 40 {
        Some(exchange::Unbind::spec_kinds())
    } else if class_id == 40 && method_id == 51 {
        Some(exchange::UnbindOk::spec_kinds())
    } else if class_id == 50 && method_id == 10 {
        Some(queue::Declare::spec_kinds())
    } else if class_id == 50 && method_id == 11 {
        Some(queue::DeclareOk::spec_kinds())
    } else if class_id == 50 && method_id == 20 {
        Some(queue::Bind::spec_kinds())
    } else if class_id == 50 && method_id == 21 {
        Some(queue::BindOk::spec_kinds())
    } else if class_id == 50 && method_id == 30 {
        Some(queue::Purge::spec_kinds())
    } else if class_id == 50 && method_id == 31 {
        Some(queue::PurgeOk::spec_kinds())
    } else if class_id == 50 && method_id == 40 {
        Some(queue::Delete::spec_kinds())
    } else if class_id == 50 && method_id == 41 {
        Some(queue::DeleteOk::spec_kinds())
    } else if class_id == 50 && method_id == 50 {
        Some(queue::Unbind::spec_kinds())
    } else if class_id == 50 && method_id == 51 {
        Some(queue::UnbindOk::spec_kinds())
    } else if class_id == 60 && method_id == 10 {
        Some(basic::Qos::spec_kinds())
    } else if class_id == 60 && method_id == 11 {
        Some(basic::QosOk::spec_kinds())
    } else if class_id == 60 && method_id == 20 {
        Some(basic::Consume::spec_kinds())
    } else if class_id == 60 && method_id == 21 {
        Some(basic::ConsumeOk::spec_kinds())
    } else if class_id == 60 && method_id == 30 {
        Some(basic::Cancel::spec_kinds())
    } else if class_id == 60 && method_id == 31 {
        Some(basic::CancelOk::spec_kinds())
    } else if class_id == 60 && method_id == 40 {
        Some(basic::Publish::spec_kinds())
    } else if class_id == 60 && method_id == 50 {
        Some(basic::Return::spec_kinds())
    } else if class_id == 60 && method_id == 60 {
        Some(basic::Deliver::spec_kinds())
    } else if class_id == 60 && method_id == 70 {
        Some(basic::Get::spec_kinds())
    } else if class_id == 60 && method_id == 71 {
        Some(basic::GetOk::spec_kinds())
    } else if class_id == 60 && method_id == 72 {
        Some(basic::GetEmpty::spec_kinds())
    } else if class_id == 60 && method_id == 80 {
        Some(basic::Ack::spec_kinds())
    } else if class_id == 60 && method_id == 90 {
        Some(basic::Reject::spec_kinds())
    } else if class_id == 60 && method_id == 100 {
        Some(basic::RecoverAsync::spec_kinds())
    } else if class_id == 60 && method_id == 110 {
        Some(basic::Recover::spec_kinds())
    } else if class_id == 60 && method_id == 111 {
        Some(basic::RecoverOk::spec_kinds())
    } else if class_id == 60 && method_id == 120 {
        Some(basic::Nack::spec_kinds())
    } else if class_id == 90 && method_id == 10 {
        Some(tx::Select::spec_kinds())
    } else if class_id == 90 && method_id == 11 {
        Some(tx::SelectOk::spec_kinds())
    } else if class_id == 90 && method_id == 20 {
        Some(tx::Commit::spec_kinds())
    } else if class_id == 90 && method_id == 21 {
        Some(tx::CommitOk::spec_kinds())
    } else if class_id == 90 && method_id == 30 {
        Some(tx::Rollback::spec_kinds())
    } else if class_id == 90 && method_id == 31 {
        Some(tx::RollbackOk::spec_kinds())
    } else if class_id == 85 && method_id == 10 {
        Some(confirm::Select::spec_kinds())
    } else if class_id == 85 && method_id == 11 {
        Some(confirm::SelectOk::spec_kinds())
    } else {
        None
    }
}

/// Looks a method up by its class id and its method id: the declared types
/// of its fields, or nothing where the catalog has no such method.
pub fn lookup(class_id: u16, method_id: u16) -> (r: Option<Vec<Kind>>)
    ensures
        match spec_lookup(class_id, method_id) {
            Some(kinds) => r is Some && r->Some_0@ == kinds,
            None => r is None,
        },
{
    if class_id == 10 && method_id == 10 {
        Some(connection::Start::kinds())
    } else if class_id == 10 && method_id == 11 {
        Some(connection::StartOk::kinds())
    } else if class_id == 10 && method_id == 20 {
        Some(connection::Secure::kinds())
    } else if class_id == 10 && method_id == 21 {
        Some(connection::SecureOk::kinds())
    } else if class_id == 10 && method_id == 30 {
        Some(connection::Tune::kinds())
    } else if class_id == 10 && method_id == 31 {
        Some(connection::TuneOk::kinds())
    } else if class_id == 10 && method_id == 40 {
        Some(connection::Open::kinds())
    } else if class_id == 10 && method_id == 41 {
        Some(connection::OpenOk::kinds())
    } else if class_id == 10 && method_id == 50 {
        Some(connection::Close::kinds())
    } else if class_id == 10 && method_id == 51 {
        Some(connection::CloseOk::kinds())
    } else if class_id == 10 && method_id == 60 {
        Some(connection::Blocked::kinds())
    } else if class_id == 10 && method_id == 61 {
        Some(connection::Unblocked::kinds())
    } else if class_id == 20 && method_id == 10 {
        Some(channel::Open::kinds())
    } else if class_id == 20 && method_id == 11 {
        Some(channel::OpenOk::kinds())
    } else if class_id == 20 && method_id == 20 {
        Some(channel::Flow::kinds())
    } else if class_id == 20 && method_id == 21 {
        Some(channel::FlowOk::kinds())
    } else if class_id == 20 && method_id == 40 {
        Some(channel::Close::kinds())
    } else if class_id == 20 && method_id == 41 {
        Some(channel::CloseOk::kinds())
    } else if class_id == 30 && method_id == 10 {
        Some(access::Request::kinds())
    } else if class_id == 30 && method_id == 11 {
        Some(access::RequestOk::kinds())
    } else if class_id == 40 && method_id == 10 {
        Some(exchange::Declare::kinds())
    } else if class_id == 40 && method_id == 11 {
        Some(exchange::DeclareOk::kinds())
    } else if class_id == 40 && method_id == 20 {
        Some(exchange::Delete::kinds())
    } else if class_id == 40 && method_id == 21 {
        Some(exchange::DeleteOk::kinds())
    } else if class_id == 40 && method_id == 30 {
        Some(exchange::Bind::kinds())
    } else if class_id == 40 && method_id == 31 {
        Some(exchange::BindOk::kinds())
    } else if class_id == 40 && method_id == 40 {
        Some(exchange::Unbind::kinds())
    } else if class_id == 40 && method_id == 51 {
        Some(exchange::UnbindOk::kinds())
    } else if class_id == 50 && method_id == 10 {
        Some(queue::Declare::kinds())
    } else if class_id == 50 && method_id == 11 {
        Some(queue::DeclareOk::kinds())
    } else if class_id == 50 && method_id == 20 {
        Some(queue::Bind::kinds())
    } else if class_id == 50 && method_id == 21 {
        Some(queue::BindOk::kinds())
    } else if class_id == 50 && method_id == 30 {
        Some(queue::Purge::kinds())
    } else if class_id == 50 && method_id == 31 {
        Some(queue::PurgeOk::kinds())
    } else if class_id == 50 && method_id == 40 {
        Some(queue::Delete::kinds())
    } else if class_id == 50 && method_id == 41 {
        Some(queue::DeleteOk::kinds())
    } else if class_id == 50 && method_id == 50 {
        Some(queue::Unbind::kinds())
    } else if class_id == 50 && method_id == 51 {
        Some(queue::UnbindOk::kinds())
    } else if class_id == 60 && method_id == 10 {
        Some(basic::Qos::kinds())
    } else if class_id == 60 && method_id == 11 {
        Some(basic::QosOk::kinds())
    } else if class_id == 60 && method_id == 20 {
        Some(basic::Consume::kinds())
    } else if class_id == 60 && method_id == 21 {
        Some(basic::ConsumeOk::kinds())
    } else if class_id == 60 && method_id == 30 {
        Some(basic::Cancel::kinds())
    } else if class_id == 60 && method_id == 31 {
        Some(basic::CancelOk::kinds())
    } else if class_id == 60 && method_id == 40 {
        Some(basic::Publish::kinds())
    } else if class_id == 60 && method_id == 50 {
        Some(basic::Return::kinds())
    } else if class_id == 60 && method_id == 60 {
        Some(basic::Deliver::kinds())
    } else if class_id == 60 && method_id == 70 {
        Some(basic::Get::kinds())
    } else if class_id == 60 && method_id == 71 {
        Some(basic::GetOk::kinds())
    } else if class_id == 60 && method_id == 72 {
        Some(basic::GetEmpty::kinds())
    } else if class_id == 60 && method_id == 80 {
        Some(basic::Ack::kinds())
    } else if class_id == 60 && method_id == 90 {
        Some(basic::Reject::kinds())
    } else if class_id == 60 && method_id == 100 {
        Some(basic::RecoverAsync::kinds())
    } else if class_id == 60 && method_id == 110 {
        Some(basic::Recover::kinds())
    } else if class_id == 60 && method_id == 111 {
        Some(basic::RecoverOk::kinds())
    } else if class_id == 60 && method_id == 120 {
        Some(basic::Nack::kinds())
    } else if class_id == 90 && method_id == 10 {
        Some(tx::Select::kinds())
    } else if class_id == 90 && method_id == 11 {
        Some(tx::SelectOk::kinds())
    } else if class_id == 90 && method_id == 20 {
        Some(tx::Commit::kinds())
    } else if class_id == 90 && method_id == 21 {
        Some(tx::CommitOk::kinds())
    } else if class_id == 90 && method_id == 30 {
        Some(tx::Rollback::kinds())
    } else if class_id == 90 && method_id == 31 {
        Some(tx::RollbackOk::kinds())
    } else if class_id == 85 && method_id == 10 {
        Some(confirm::Select::kinds())
    } else if class_id == 85 && method_id == 11 {
        Some(confirm::SelectOk::kinds())
    } else {
        None
    }
}

} // verus!
