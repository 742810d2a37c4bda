//! The first-generation client: its configuration, the server address it
//! connects to, and its side of the control connection.

use vstd::prelude::*;
use crate::client::control_connection::{ports_of, TunnelRequest};
use crate::legacy::protocol::{ServerControlCommand, ServerControlHello};
use std::collections::HashMap;

verus! {

broadcast use vstd::std_specs::hash::group_hash_axioms;

/// The server to connect to, as configured.
#[derive(Debug)]
pub struct ServerConfig {
    pub host: Option<String>,
    pub port: u16,
}

/// The whole client configuration.
#[derive(Debug)]
pub struct Config {
    pub server: ServerConfig,
}

/// The `[server]` section as the file gives it.
#[derive(Debug)]
pub struct ServerSection {
    pub host: Option<String>,
    pub port: Option<u16>,
}

/// The configuration file as read, before defaults are applied.
#[derive(Debug)]
pub struct ConfigFile {
    pub server: ServerSection,
}

/// The server port used unless the file names one.
pub const DEFAULT_SERVER_PORT: u16 = 7267;

impl Config {
    /// Fills in the defaults: the server port is 7267 unless given.
    pub fn load(file: ConfigFile) -> (r: Config)
        ensures
            r.server.host == file.server.host,
            r.server.port == match file.server.port {
                Some(p) => p,
                None => DEFAULT_SERVER_PORT,
            },
    {
        let ServerSection { host, port } = file.server;
        let port = match port {
            Some(p) => p,
            None => DEFAULT_SERVER_PORT,
        };
        Config { server: ServerConfig { host, port } }
    }
}

/// The command line of the client.
#[derive(Debug)]
pub struct CliArguments {
    pub server_host: Option<String>,
    pub server_port: Option<u16>,
    pub tunnel_specifiers: Vec<String>,
}

/// Why the client cannot start.
#[derive(Debug, Clone, Copy, PartialEq, Eq, Structural)]
pub enum CliError {
    MissingConnectionDetails,
}

impl CliError {
    /// The message shown to the user.
    pub fn message(&self) -> (r: String)
        ensures
            r@ == "Missing server details. Either provide through cli args or configuration file."@,
    {
        String::from_str("Missing server details. Either provide through cli args or configuration file.")
    }
}

/// The server to connect to: the command line wins over the configuration
/// for host and port alike; without a host from either, the client cannot
/// start.
pub fn get_connection_addr(config: &ServerConfig, cli_args: &CliArguments) -> (r: Result<
    (String, u16),
    CliError,
>)
    ensures
        match (cli_args.server_host, config.host) {
            (None, None) => r == Err::<(String, u16), CliError>(CliError::MissingConnectionDetails),
            _ => r matches Ok((host, port)) && host == match cli_args.server_host {
                Some(h) => h,
                None => config.host->0,
            } && port == match cli_args.server_port {
                Some(p) => p,
                None => config.port,
            },
        },
{
    let host = match &cli_args.server_host {
        Some(h) => h.clone(),
        None => match &config.host {
            Some(h) => h.clone(),
            None => {
                return Err(CliError::MissingConnectionDetails);
            },
        },
    };
    let port = match cli_args.server_port {
        Some(p) => p,
        None => config.port,
    };
    Ok((host, port))
}

/// An established first-generation control connection: the server it
/// talks to and the tunnels it holds open.
pub struct ControlConnection {
    server_addr: (String, u16),
    ports: HashMap<u16, u16>,
}

impl ControlConnection {
    /// The local port of each tunnel, by the server port it listens on.
    pub closed spec fn ports(&self) -> Map<u16, u16> {
        self.ports@
    }

    /// The server's host and port.
    pub closed spec fn spec_server_addr(&self) -> (String, u16) {
        self.server_addr
    }

    /// The connection that the server's answer to the hello establishes:
    /// a goodbye ends in an error that gives the server's reason.
    pub fn init(server_addr: (String, u16), reply: ServerControlHello) -> (r: Result<
        ControlConnection,
        String,
    >)
        ensures
            match reply {
                ServerControlHello::Goodbye { reason } => r matches Err(e) && e@
                    == "Server said goodbye: "@ + reason@,
                ServerControlHello::Listening { specifiers, public_host } => r matches Ok(c)
                    && c.ports() == ports_of(specifiers@) && c.spec_server_addr() == server_addr,
            },
    {
        match reply {
            ServerControlHello::Goodbye { reason } => {
                let e = String::from_str("Server said goodbye: ");
                Err(e.concat(reason.as_str()))
            },
            ServerControlHello::Listening { specifiers, public_host: _ } => {
                let mut ports: HashMap<u16, u16> = HashMap::new();
                let mut i: usize = 0;
                while i < specifiers.len()
                    invariant
                        i <= specifiers@.len(),
                        ports@ == ports_of(specifiers@.take(i as int)),
                    decreases specifiers@.len() - i,
                {
                    proof {
                        assert(specifiers@.take(i + 1).drop_last() =~= specifiers@.take(i as int));
                    }
                    let s = specifiers[i];
                    ports.insert(s.server_port, s.client_port);
                    i = i + 1;
                }
                assert(specifiers@.take(specifiers@.len() as int) =~= specifiers@);
                Ok(ControlConnection { server_addr, ports })
            },
        }
    }

    /// The server's host and port.
    pub fn server_addr(&self) -> (r: &(String, u16))
        ensures
            *r == self.spec_server_addr(),
    {
        &self.server_addr
    }

    /// What a command of the server asks: to open a tunnel connection to
    /// the local port of the tunnel it names; a command for a port with no
    /// tunnel is ignored.
    pub fn handle_command(&self, command: ServerControlCommand) -> (r: Option<TunnelRequest>)
        ensures
            match command {
                ServerControlCommand::StartTunnelConnection { connection_id, server_port } => {
                    &&& self.ports().contains_key(server_port) ==> r == Some(
                        TunnelRequest { connection_id, client_port: self.ports()[server_port] },
                    )
                    &&& !self.ports().contains_key(server_port) ==> r.is_none()
                },
            },
    {
        match command {
            ServerControlCommand::StartTunnelConnection { connection_id, server_port } => {
                match self.ports.get(&server_port) {
                    Some(p) => Some(TunnelRequest { connection_id, client_port: *p }),
                    None => None,
                }
            },
        }
    }
}

} // verus!
