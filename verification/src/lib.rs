//! OxiSH: an SSH server, with its protocol layer free of I/O.
//!
//! Message types and state machines for the SSH protocol as specified in RFC 4250 through 4254 and
//! related documents.

pub mod auth;
pub mod authentication;
pub mod authorized_keys;
pub mod channels;
pub mod crypto;
pub mod error;
pub mod handshake;
pub mod host_keys;
pub mod identification;
pub mod io;
pub mod key_exchange;
pub mod laws;
pub mod named;
pub mod packet;
pub mod server;
pub mod session;
pub mod text;
pub mod users;
pub mod wire;
