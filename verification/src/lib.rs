//! Host-side engine for programming, reading and verifying an EEPROM over a
//! serial link.
//!
//! [`protocol`] is the packet codec (checksum, chunk framing, packet
//! decoding) and [`engine`] is the session state machine that drives a read,
//! write or verify-and-fix session to completion. Both are pure: all
//! transport and file I/O is performed by the caller, which feeds decoded
//! packets in and carries wire bytes, file appends and effects out. [`laws`]
//! states and proves what whole sessions do, packet by packet.

pub mod engine;
pub mod laws;
pub mod protocol;
