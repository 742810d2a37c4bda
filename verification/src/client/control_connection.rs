//! The client's side of a control connection: the answer to its hello,
//! the map from the server's ports to local ports, and what each command
//! of the server asks it to do.

use vstd::prelude::*;
use crate::protocol::{ServerControlCommand, ServerControlHello};
use crate::tunnel_specifier::ResolvedTunnelSpecifier;
use std::collections::HashMap;

verus! {

broadcast use vstd::std_specs::hash::group_hash_axioms;

/// How the client reaches the server.
pub trait ConnectionInitializer {
    /// The scheme shown to the user (`rgtp` or `rgtps`).
    fn protocol_identifier(&self) -> &'static str;

    /// The host named to the user when the server names no public host.
    fn server_name_fallback(&self) -> (r: String)
        default_ensures
            r@ == "<server_host>"@,
    {
        String::from_str("<server_host>")
    }
}

/// Reaches the server over plain TCP.
#[derive(Debug)]
pub struct TcpInitializer {
    server_addr: (String, u16),
}

impl TcpInitializer {
    /// The server's host and port.
    pub closed spec fn spec_server_addr(&self) -> (String, u16) {
        self.server_addr
    }

    /// Reaches the server at `server_addr`.
    pub fn new(server_addr: (String, u16)) -> (r: TcpInitializer)
        ensures
            r.spec_server_addr() == server_addr,
    {
        TcpInitializer { server_addr }
    }

    /// The server's host and port.
    pub fn server_addr(&self) -> (r: &(String, u16))
        ensures
            *r == self.spec_server_addr(),
    {
        &self.server_addr
    }
}

impl ConnectionInitializer for TcpInitializer {
    fn protocol_identifier(&self) -> (r: &'static str)
        ensures
            r@ == "rgtp"@,
    {
        "rgtp"
    }

    /// The server's host as configured.
    fn server_name_fallback(&self) -> (r: String)
        ensures
            r@ == self.spec_server_addr().0@,
    {
        self.server_addr.0.clone()
    }
}

/// The map from server ports to local ports that the opened tunnels make;
/// a later tunnel on the same server port wins.
pub open spec fn ports_of(specs: Seq<ResolvedTunnelSpecifier>) -> Map<u16, u16>
    decreases specs.len(),
{
    if specs.len() == 0 {
        Map::empty()
    } else {
        ports_of(specs.drop_last()).insert(specs.last().server_port, specs.last().client_port)
    }
}

/// A tunnel connection the client is to open: it presents
/// `connection_id` to the server and forwards to local `client_port`.
#[derive(Debug, Clone, Copy, PartialEq, Eq, Structural)]
pub struct TunnelRequest {
    pub connection_id: u64,
    pub client_port: u16,
}

/// An established control connection, by the tunnels it holds open.
pub struct ControlConnection {
    ports: HashMap<u16, u16>,
}

impl ControlConnection {
    /// The local port of each tunnel, by the server port it listens on.
    pub closed spec fn ports(&self) -> Map<u16, u16> {
        self.ports@
    }

    /// The connection that the server's answer to the hello establishes:
    /// a refusal ends in an error that gives the server's reason.
    pub fn init(reply: ServerControlHello) -> (r: Result<ControlConnection, String>)
        ensures
            match reply {
                ServerControlHello::Error { reason } => r matches Err(e) && e@
                    == "Server said goodbye: "@ + reason@,
                ServerControlHello::Listening { specifiers, public_host } => r matches Ok(c)
                    && c.ports() == ports_of(specifiers@),
            },
    {
        match reply {
            ServerControlHello::Error { reason } => {
                let e = String::from_str("Server said goodbye: ");
                Err(e.concat(reason.as_str()))
            },
            ServerControlHello::Listening { specifiers, public_host: _ } => {
                let mut ports: HashMap<u16, u16> = HashMap::new();
                let mut i: usize = 0;
                while i < specifiers.len()
                    invariant
                        i <= specifiers@.len(),
                        ports@ == ports_of(specifiers@.take(i as int)),
                    decreases specifiers@.len() - i,
                {
                    proof {
                        assert(specifiers@.take(i + 1).drop_last() =~= specifiers@.take(i as int));
                    }
                    let s = specifiers[i];
                    ports.insert(s.server_port, s.client_port);
                    i = i + 1;
                }
                assert(specifiers@.take(specifiers@.len() as int) =~= specifiers@);
                Ok(ControlConnection { ports })
            },
        }
    }

    /// The local port of the tunnel on `server_port`, if there is one.
    pub fn client_port(&self, server_port: u16) -> (r: Option<u16>)
        ensures
            self.ports().contains_key(server_port) ==> r == Some(self.ports()[server_port]),
            !self.ports().contains_key(server_port) ==> r.is_none(),
    {
        match self.ports.get(&server_port) {
            Some(p) => Some(*p),
            None => None,
        }
    }

    /// What a command of the server asks: to open a tunnel connection to
    /// the local port of the tunnel it names; a command for a port with no
    /// tunnel is ignored.
    pub fn handle_command(&self, command: ServerControlCommand) -> (r: Option<TunnelRequest>)
        ensures
            match command {
                ServerControlCommand::StartTunnelConnection { connection_id, server_port } => {
                    &&& self.ports().contains_key(server_port) ==> r == Some(
                        TunnelRequest { connection_id, client_port: self.ports()[server_port] },
                    )
                    &&& !self.ports().contains_key(server_port) ==> r.is_none()
                },
            },
    {
        match command {
            ServerControlCommand::StartTunnelConnection { connection_id, server_port } => {
                match self.client_port(server_port) {
                    Some(client_port) => Some(TunnelRequest { connection_id, client_port }),
                    None => None,
                }
            },
        }
    }
}

/// Law: a command for the server port of an opened tunnel is forwarded to
/// the local port of the last tunnel opened on that server port; a command
/// for any other server port is ignored.
pub proof fn lemma_commands_reach_their_tunnel(specs: Seq<ResolvedTunnelSpecifier>, i: int, port: u16)
    ensures
        0 <= i < specs.len() && (forall|j: int|
            i < j < specs.len() ==> (#[trigger] specs[j]).server_port != specs[i].server_port)
            ==> ports_of(specs).contains_key(specs[i].server_port) && ports_of(specs)[specs[i].server_port]
            == specs[i].client_port,
        (forall|j: int| 0 <= j < specs.len() ==> (#[trigger] specs[j]).server_port != port)
            ==> !ports_of(specs).contains_key(port),
    decreases specs.len(),
{
    if specs.len() > 0 {
        let t = specs.drop_last();
        lemma_commands_reach_their_tunnel(t, i, port);
        if 0 <= i < specs.len() - 1 && (forall|j: int|
            i < j < specs.len() ==> (#[trigger] specs[j]).server_port != specs[i].server_port) {
            assert(t[i] == specs[i]);
            assert forall|j: int| i < j < t.len() implies (#[trigger] t[j]).server_port
                != t[i].server_port by {
                assert(t[j] == specs[j]);
            }
            assert(specs[specs.len() - 1] == specs.last());
        }
        if forall|j: int| 0 <= j < specs.len() ==> (#[trigger] specs[j]).server_port != port {
            assert forall|j: int| 0 <= j < t.len() implies (#[trigger] t[j]).server_port != port by {
                assert(t[j] == specs[j]);
            }
            assert(specs[specs.len() - 1] == specs.last());
        }
    }
}

/// Checks that the server answered the hello at all (an empty line means
/// it closed the connection).
pub fn check_handshake_reply(line: &str) -> (r: Result<(), String>)
    ensures
        line@.len() == 0 <==> r is Err,
        r matches Err(e) ==> e@ == "Server did not respond to handshake"@,
{
    if line.unicode_len() == 0 {
        Err(String::from_str("Server did not respond to handshake"))
    } else {
        Ok(())
    }
}

/// Whether reading the server's next command line finds the control
/// connection closed: the read failed (`None`) or hit the end of input
/// (no bytes read).
pub fn closed_by_server(bytes_read: Option<usize>) -> (r: bool)
    ensures
        r == (bytes_read is None || bytes_read == Some(0usize)),
{
    match bytes_read {
        None => true,
        Some(n) => n == 0,
    }
}

} // verus!
