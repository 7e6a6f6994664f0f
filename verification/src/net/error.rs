//! Network errors.

use vstd::prelude::*;

verus! {

#[verifier::external_type_specification]
#[verifier::external_body]
pub struct ExIoError(std::io::Error);

/// Network errors
#[derive(Debug)]
pub enum Error {
    /// An I/O error of the connection
    Io(std::io::Error),
    /// The peer closed the connection
    ConnectionClosed,
    /// The peer broke the protocol
    Protocol(String),
    /// The join request was refused
    Rejected(String),
    /// There is no connection to send on
    NotConnected,
    /// A hall is already being hosted
    AlreadyHosting,
    /// The server has no room for another peer
    ServerFull,
}

} // verus!
