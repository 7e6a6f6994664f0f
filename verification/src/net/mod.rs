//! Networking: the wire protocol, its framing, invite links, and the
//! decisions of the hall server and client.

pub mod client;
pub mod error;
pub mod frame;
pub mod invite;
pub mod protocol;
pub mod server;
