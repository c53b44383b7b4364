//! The errors of the codec, the transport and the handshake.

use vstd::prelude::*;
use vstd::std_specs::convert::FromSpecImpl;

verus! {

/// `std::io::Error`, carried through unread.
#[verifier::external_type_specification]
#[verifier::external_body]
pub struct ExIoError(std::io::Error);

/// `std::string::FromUtf8Error`, carried through unread.
#[verifier::external_type_specification]
#[verifier::external_body]
pub struct ExFromUtf8Error(std::string::FromUtf8Error);

/// How a payload or a value breaks the wire format.
#[derive(Debug, Clone, Copy, PartialEq, Eq, Structural)]
pub enum Violation {
    /// An item that starts at this offset needs more bytes than its frame,
    /// table or array holds.
    Truncated(usize),
    /// The byte at this offset (second field) is no field-value tag (first field).
    UnknownTag(u8, usize),
    /// A long string, array or table body of this many bytes cannot be
    /// described by a four-octet length.
    Oversize(usize),
    /// The connection was told of something that its state does not allow.
    OutOfOrder,
}

/// What an [`AmqpError`] says, without the causes that only the standard
/// library can read.
pub enum Fault {
    ShortStrTooLong(nat),
    FrameEnd(u8),
    Io,
    Utf8,
    UnexpectedMethod(u16, u16),
    Violation(Violation),
}

#[derive(Debug)]
pub enum AmqpError {
    /// A short string of this many bytes was to be encoded; 255 is the limit.
    ShortStrTooLong(usize),
    /// A frame ended in this octet instead of the frame-end octet.
    FrameEndErr(u8),
    /// The byte stream failed.
    IoErr(std::io::Error),
    /// A short string on the wire was not UTF-8.
    Utf8Err(std::string::FromUtf8Error),
    /// A method with this class id and method id arrived where another was expected.
    UnexpectedMethod(u16, u16),
    /// The bytes do not follow the wire format.
    ProtocolViolation(Violation),
}

impl View for AmqpError {
    type V = Fault;

    open spec fn view(&self) -> Fault {
        match self {
            AmqpError::ShortStrTooLong(n) => Fault::ShortStrTooLong(*n as nat),
            AmqpError::FrameEndErr(b) => Fault::FrameEnd(*b),
            AmqpError::IoErr(_) => Fault::Io,
            AmqpError::Utf8Err(_) => Fault::Utf8,
            AmqpError::UnexpectedMethod(c, m) => Fault::UnexpectedMethod(*c, *m),
            AmqpError::ProtocolViolation(v) => Fault::Violation(*v),
        }
    }
}

impl From<std::io::Error> for AmqpError {
    fn from(err: std::io::Error) -> (r: AmqpError) {
        AmqpError::IoErr(err)
    }
}

impl FromSpecImpl<std::io::Error> for AmqpError {
    open spec fn obeys_from_spec() -> bool {
        true
    }

    open spec fn from_spec(err: std::io::Error) -> AmqpError {
        AmqpError::IoErr(err)
    }
}

impl From<std::string::FromUtf8Error> for AmqpError {
    fn from(err: std::string::FromUtf8Error) -> (r: AmqpError) {
        AmqpError::Utf8Err(err)
    }
}

impl FromSpecImpl<std::string::FromUtf8Error> for AmqpError {
    open spec fn obeys_from_spec() -> bool {
        true
    }

    open spec fn from_spec(err: std::string::FromUtf8Error) -> AmqpError {
        AmqpError::Utf8Err(err)
    }
}

impl AmqpError {
    /// A fixed sentence for each kind of error.
    pub fn description(&self) -> (r: &'static str)
        ensures
            r@ == Self::description_of(self@),
    {
        match self {
            AmqpError::ShortStrTooLong(_) => "short string length is too long",
            AmqpError::FrameEndErr(_) => "frame end error",
            AmqpError::IoErr(_) => "i/o error",
            AmqpError::Utf8Err(_) => "invalid utf-8 in short string",
            AmqpError::UnexpectedMethod(_, _) => "unexpected method",
            AmqpError::ProtocolViolation(_) => "protocol violation",
        }
    }

    pub open spec fn description_of(fault: Fault) -> Seq<char> {
        match fault {
            Fault::ShortStrTooLong(_) => "short string length is too long"@,
            Fault::FrameEnd(_) => "frame end error"@,
            Fault::Io => "i/o error"@,
            Fault::Utf8 => "invalid utf-8 in short string"@,
            Fault::UnexpectedMethod(_, _) => "unexpected method"@,
            Fault::Violation(_) => "protocol violation"@,
        }
    }

    /// Whether the error wraps a cause of the standard library.
    pub fn has_cause(&self) -> (r: bool)
        ensures
            r == (self@ is Io || self@ is Utf8),
    {
        match self {
            AmqpError::IoErr(_) | AmqpError::Utf8Err(_) => true,
            _ => false,
        }
    }
}

pub type AmqpResult<T> = Result<T, AmqpError>;

/// The view of a result: the view of the value, or what the error says.
pub open spec fn result_view<T: View>(r: AmqpResult<T>) -> Result<T::V, Fault> {
    match r {
        Ok(v) => Ok(v@),
        Err(e) => Err(e@),
    }
}

} // verus!
