//! What the operations of the library are for, stated apart from how they are specified.

pub mod accounts;
pub mod auth_messages;
pub mod authenticating;
pub mod channel_messages;
pub mod channels;
pub mod encoding;
pub mod key_exchange;
pub mod negotiation;
pub mod sessions;
