use ripgrok::client::commands::{InitCommand, RunCommand};
use ripgrok::client::config::{Config, ConfigFile, GeneralConfig, ServerConfig, ServerSection, TlsConfig};
use ripgrok::client::control_connection::{
    check_handshake_reply, closed_by_server, ConnectionInitializer, ControlConnection, TcpInitializer, TunnelRequest,
};
use ripgrok::client::tls::trusted_cert_source;
use ripgrok::pem::PemSource;
use ripgrok::protocol::{ServerControlCommand, ServerControlHello};
use ripgrok::tunnel_specifier::{ResolvedTunnelSpecifier, TunnelSpecifier, TunnelType};

fn resolved(client_port: u16, server_port: u16) -> ResolvedTunnelSpecifier {
    ResolvedTunnelSpecifier { tunnel_type: TunnelType::Tcp, client_port, server_port }
}

fn config(token: Option<&str>, tls: bool) -> Config {
    Config {
        server: ServerConfig { host: "example.org".to_string(), port: 7000 },
        tls: if tls { Some(TlsConfig::default()) } else { None },
        general: Some(GeneralConfig { token: token.map(|t| t.to_string()) }),
    }
}

#[test]
fn client_config_default_port() {
    let c = Config::load(ConfigFile {
        server: ServerSection { host: "h".to_string(), port: None },
        tls: None,
        general: None,
    });
    assert_eq!(c.server.host, "h");
    assert_eq!(c.server.port, 7267);
    assert_eq!(c.token(), None);
    let c = Config::load(ConfigFile {
        server: ServerSection { host: "h".to_string(), port: Some(9) },
        tls: None,
        general: Some(GeneralConfig { token: Some("t".to_string()) }),
    });
    assert_eq!(c.server.port, 9);
    assert_eq!(c.token(), Some("t".to_string()));
}

#[test]
fn init_builds_config() {
    let cmd = InitCommand {
        host: "srv".to_string(),
        port: 7267,
        overwrite: false,
        token: Some("tok".to_string()),
        no_tls: false,
    };
    let c = cmd.run(false).unwrap();
    assert_eq!(c.server.host, "srv");
    assert_eq!(c.server.port, 7267);
    assert_eq!(c.general.unwrap().token, Some("tok".to_string()));
    let t = c.tls.unwrap();
    assert!(t.cert_b64.is_none() && t.cert_file.is_none());
}

#[test]
fn init_without_tls() {
    let cmd = InitCommand { host: "srv".to_string(), port: 1, overwrite: true, token: None, no_tls: true };
    let c = cmd.run(true).unwrap();
    assert!(c.tls.is_none());
    assert_eq!(c.general.unwrap().token, None);
}

#[test]
fn init_keeps_existing_config() {
    let cmd = InitCommand { host: "srv".to_string(), port: 1, overwrite: false, token: None, no_tls: true };
    assert_eq!(
        cmd.run(true).unwrap_err(),
        "Config path already exists - use --overwite to overwrite config"
    );
}

#[test]
fn run_plans_tunnels() {
    let cmd = RunCommand { tunnel_specifiers: vec!["80".to_string(), ":443".to_string()] };
    let plan = cmd.run(config(Some("tok"), true)).unwrap();
    assert_eq!(plan.server_addr, ("example.org".to_string(), 7000));
    assert_eq!(plan.token, Some("tok".to_string()));
    assert!(plan.tls.is_some());
    assert_eq!(
        plan.tunnel_specifiers,
        vec![
            TunnelSpecifier { tunnel_type: TunnelType::Tcp, client_port: 80, server_port: None },
            TunnelSpecifier { tunnel_type: TunnelType::Tcp, client_port: 443, server_port: Some(443) },
        ]
    );
}

#[test]
fn run_reports_first_bad_specifier() {
    let cmd = RunCommand {
        tunnel_specifiers: vec!["80".to_string(), "x:1".to_string(), "1:2:3".to_string()],
    };
    assert_eq!(
        cmd.run(config(None, false)).unwrap_err(),
        "Failed to parse tunnel specifier: Invalid client port"
    );
    let empty = RunCommand { tunnel_specifiers: vec![] };
    assert_eq!(empty.parse_specifiers(), Ok(vec![]));
}

#[test]
fn goodbye_from_server() {
    let r = ControlConnection::init(ServerControlHello::Error { reason: "Invalid token".to_string() });
    assert_eq!(r.err(), Some("Server said goodbye: Invalid token".to_string()));
}

#[test]
fn commands_go_to_local_ports() {
    let conn = ControlConnection::init(ServerControlHello::Listening {
        specifiers: vec![resolved(3000, 80), resolved(4000, 81), resolved(5000, 80)],
        public_host: None,
    })
    .ok()
    .unwrap();
    assert_eq!(conn.client_port(80), Some(5000));
    assert_eq!(conn.client_port(81), Some(4000));
    assert_eq!(conn.client_port(82), None);
    assert_eq!(
        conn.handle_command(ServerControlCommand::StartTunnelConnection { connection_id: 5, server_port: 81 }),
        Some(TunnelRequest { connection_id: 5, client_port: 4000 })
    );
    assert_eq!(
        conn.handle_command(ServerControlCommand::StartTunnelConnection { connection_id: 5, server_port: 99 }),
        None
    );
}

#[test]
fn tcp_initializer_names() {
    let init = TcpInitializer::new(("host.example".to_string(), 7267));
    assert_eq!(init.protocol_identifier(), "rgtp");
    assert_eq!(init.server_name_fallback(), "host.example");
    assert_eq!(init.server_addr(), &("host.example".to_string(), 7267));
}

#[test]
fn handshake_reply_must_not_be_empty() {
    assert_eq!(check_handshake_reply(""), Err("Server did not respond to handshake".to_string()));
    assert_eq!(check_handshake_reply("{}\n"), Ok(()));
}

#[test]
fn trusted_cert_sources() {
    let t = |b: Option<&str>, f: Option<&str>| TlsConfig {
        cert_b64: b.map(|s| s.to_string()),
        cert_file: f.map(|s| s.to_string()),
    };
    assert_eq!(trusted_cert_source(&t(None, None)), Ok(None));
    assert_eq!(
        trusted_cert_source(&t(Some("a"), Some("b"))),
        Err("You cannot specify both tls.cert_b64 and tls.cert_file".to_string())
    );
    assert_eq!(trusted_cert_source(&t(None, Some("/c"))), Ok(Some(PemSource::File("/c".to_string()))));
    assert_eq!(trusted_cert_source(&t(Some("QQ=="), None)), Ok(Some(PemSource::Inline("QQ==".to_string()))));
}

#[test]
fn command_read_closed() {
    assert!(closed_by_server(None));
    assert!(closed_by_server(Some(0)));
    assert!(!closed_by_server(Some(42)));
}
