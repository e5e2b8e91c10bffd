//! A session: channels, terminals and what is sent over them.

pub mod banner;
pub mod connections;
pub mod dispatch;
pub mod driver;
pub mod handoff;
pub mod state;
pub mod terminal;
