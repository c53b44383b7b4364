//! Client-side core of AMQP 0-9-1: the wire codec of method frames and the
//! connection handshake, with the behaviour of each function stated in its
//! contract.
//!
//! - [`types`]: field values and field tables, and what they denote.
//! - [`wire`]: big-endian numbers, short strings and long strings.
//! - [`field_table`]: the format of field tables and arrays.
//! - [`bits`]: how runs of bit fields are packed into octets.
//! - [`method`]: the payload of a method, field by field.
//! - [`protocol`]: the constants and the catalog of methods.
//! - [`frame`]: frames and their image on the wire.
//! - [`connection`]: opening and closing a connection, as a state machine.
//! - [`conf`] and [`result`]: configuration and errors.
//!
//! The library does no input or output. A transport hands it the bytes that
//! arrived and sends the bytes that it made.

pub mod bits;
pub mod conf;
pub mod connection;
pub mod field_table;
pub mod frame;
pub mod method;
pub mod protocol;
pub mod result;
pub mod types;
pub mod wire;
