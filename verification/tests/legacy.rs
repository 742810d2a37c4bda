use ripgrok::legacy::client::{
    get_connection_addr, CliArguments, CliError, Config as ClientConfig, ConfigFile as ClientFile,
    ControlConnection, ServerConfig, ServerSection,
};
use ripgrok::legacy::protocol::{ClientHello, ServerControlCommand, ServerControlHello};
use ripgrok::legacy::server::{listening_reply, BindSection, Config, ConfigFile};
use ripgrok::tunnel_specifier::{ResolvedTunnelSpecifier, TunnelType};

fn resolved(client_port: u16, server_port: u16) -> ResolvedTunnelSpecifier {
    ResolvedTunnelSpecifier { tunnel_type: TunnelType::Tcp, client_port, server_port }
}

fn cli(host: Option<&str>, port: Option<u16>) -> CliArguments {
    CliArguments { server_host: host.map(|h| h.to_string()), server_port: port, tunnel_specifiers: vec![] }
}

#[test]
fn legacy_hello_bytes() {
    assert_eq!(ClientHello::INIT_CONTROL_CONNECTION, 0x41);
    assert_eq!(ClientHello::INIT_TUNNEL_CONNECTION, 0x42);
}

#[test]
fn legacy_server_defaults() {
    let c = Config::load(ConfigFile { bind: BindSection { host: None, port: None, public_host: None } });
    assert_eq!(c.bind.host, "0.0.0.0");
    assert_eq!(c.bind.port, 7267);
    assert_eq!(c.bind.public_host, None);
}

#[test]
fn legacy_client_defaults() {
    let c = ClientConfig::load(ClientFile { server: ServerSection { host: None, port: None } });
    assert_eq!(c.server.port, 7267);
    assert_eq!(c.server.host, None);
}

#[test]
fn connection_addr_prefers_command_line() {
    let config = ServerConfig { host: Some("conf".to_string()), port: 1 };
    assert_eq!(get_connection_addr(&config, &cli(None, None)), Ok(("conf".to_string(), 1)));
    assert_eq!(get_connection_addr(&config, &cli(Some("cli"), Some(2))), Ok(("cli".to_string(), 2)));
    let no_host = ServerConfig { host: None, port: 1 };
    assert_eq!(get_connection_addr(&no_host, &cli(None, Some(2))), Err(CliError::MissingConnectionDetails));
    assert_eq!(get_connection_addr(&no_host, &cli(Some("cli"), None)), Ok(("cli".to_string(), 1)));
    assert_eq!(
        CliError::MissingConnectionDetails.message(),
        "Missing server details. Either provide through cli args or configuration file."
    );
}

#[test]
fn legacy_listening_reply() {
    match listening_reply(Some("pub".to_string()), vec![Ok(resolved(1, 2))]) {
        Ok(ServerControlHello::Listening { specifiers, public_host }) => {
            assert_eq!(specifiers, vec![resolved(1, 2)]);
            assert_eq!(public_host, Some("pub".to_string()));
        }
        _ => panic!("expected listening"),
    }
    let r = listening_reply(None, vec![Ok(resolved(1, 2)), Err("Failed to bind tunnel listener".to_string())]);
    assert_eq!(r.err(), Some("Failed to bind tunnel listener".to_string()));
}

#[test]
fn legacy_client_connection() {
    let addr = ("srv".to_string(), 7267);
    let r = ControlConnection::init(addr.clone(), ServerControlHello::Goodbye { reason: "bye".to_string() });
    assert_eq!(r.err(), Some("Server said goodbye: bye".to_string()));
    let conn = ControlConnection::init(
        addr.clone(),
        ServerControlHello::Listening { specifiers: vec![resolved(3000, 80)], public_host: None },
    )
    .ok()
    .unwrap();
    assert_eq!(conn.server_addr(), &addr);
    let req = conn
        .handle_command(ServerControlCommand::StartTunnelConnection { connection_id: 1, server_port: 80 })
        .unwrap();
    assert_eq!((req.connection_id, req.client_port), (1, 3000));
    assert!(conn
        .handle_command(ServerControlCommand::StartTunnelConnection { connection_id: 1, server_port: 81 })
        .is_none());
}
