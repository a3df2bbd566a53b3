//! What travels between client and server, and what the server does with it.

pub mod messages;
pub mod server;
