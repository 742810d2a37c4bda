//! The messages of the first protocol generation.

use vstd::prelude::*;
use crate::tunnel_specifier::{ResolvedTunnelSpecifier, TunnelSpecifier};

verus! {

/// The first byte of every connection, saying which kind it is.
pub struct ClientHello;

impl ClientHello {
    pub const INIT_CONTROL_CONNECTION: u8 = 0x41;
    pub const INIT_TUNNEL_CONNECTION: u8 = 0x42;
}

/// What the client asks for when it opens a control connection.
#[derive(Debug)]
pub struct ClientControlHello {
    pub tunnel_specifiers: Vec<TunnelSpecifier>,
    // Options
    pub ssl: bool,
}

/// The server's answer to a `ClientControlHello`.
#[derive(Debug)]
pub enum ServerControlHello {
    Goodbye { reason: String },
    Listening { specifiers: Vec<ResolvedTunnelSpecifier>, public_host: Option<String> },
}

/// What the server asks of the client once the tunnels are open.
#[derive(Debug, Clone, Copy, PartialEq, Eq, Structural)]
pub enum ServerControlCommand {
    /// Server sends this to the client, to request the client to start a connection.
    StartTunnelConnection { connection_id: u64, server_port: u16 },
}

} // verus!
