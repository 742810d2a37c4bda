//! A tunnel the server has opened for a client: which port to bind for a
//! requested tunnel, and what to ask of the client for each connection
//! that comes in on it.

use vstd::prelude::*;
use crate::protocol::ServerControlCommand;
use crate::tunnel_specifier::{ResolvedTunnelSpecifier, TunnelSpecifier};

verus! {

/// The port to bind for a requested tunnel: the requested one, or `0`
/// (any free port) when none was requested.
pub open spec fn requested_port(specifier: TunnelSpecifier) -> u16 {
    match specifier.server_port {
        Some(p) => p,
        None => 0,
    }
}

/// The tunnel the client is told of once its request is bound to
/// `bound_port`.
pub open spec fn resolved_tunnel(specifier: TunnelSpecifier, bound_port: u16) -> ResolvedTunnelSpecifier {
    ResolvedTunnelSpecifier {
        tunnel_type: specifier.tunnel_type,
        client_port: specifier.client_port,
        server_port: bound_port,
    }
}

/// Law: a tunnel bound on the port it asked for is reported to the client
/// with that port, its type and its local port; a tunnel that asked for no
/// port is bound on any free port and reported with the port chosen.
pub proof fn lemma_resolved_reports_bound_port(specifier: TunnelSpecifier, bound_port: u16)
    ensures
        specifier.server_port matches Some(p) ==> resolved_tunnel(specifier, requested_port(specifier)).server_port == p,
        specifier.server_port is None ==> requested_port(specifier) == 0,
        resolved_tunnel(specifier, bound_port).server_port == bound_port,
        resolved_tunnel(specifier, bound_port).client_port == specifier.client_port,
        resolved_tunnel(specifier, bound_port).tunnel_type == specifier.tunnel_type,
{
}

/// An opened tunnel, by the specifier the client is told.
#[derive(Debug, Clone, Copy)]
pub struct TunnelListener {
    pub specifier: ResolvedTunnelSpecifier,
}

impl TunnelListener {
    /// The port to bind for `specifier`: the requested one, or `0` (any
    /// free port) when none was requested.
    pub fn bind_port(specifier: &TunnelSpecifier) -> (r: u16)
        ensures
            r == requested_port(*specifier),
    {
        match specifier.server_port {
            Some(p) => p,
            None => 0,
        }
    }

    /// The tunnel opened for `specifier` once bound to `bound_port`.
    pub fn init(specifier: TunnelSpecifier, bound_port: u16) -> (r: TunnelListener)
        ensures
            r.specifier == resolved_tunnel(specifier, bound_port),
    {
        TunnelListener {
            specifier: ResolvedTunnelSpecifier {
                tunnel_type: specifier.tunnel_type,
                client_port: specifier.client_port,
                server_port: bound_port,
            },
        }
    }

    /// What the client is asked when a connection comes in on this tunnel
    /// and is awaited under `connection_id`.
    pub fn start_command(&self, connection_id: u64) -> (r: ServerControlCommand)
        ensures
            r == (ServerControlCommand::StartTunnelConnection {
                connection_id,
                server_port: self.specifier.server_port,
            }),
    {
        ServerControlCommand::StartTunnelConnection {
            connection_id,
            server_port: self.specifier.server_port,
        }
    }
}

} // verus!
