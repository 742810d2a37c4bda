use ripgrok::tunnel_specifier::{TunnelSpecifier, TunnelType};

fn tcp(client_port: u16, server_port: Option<u16>) -> TunnelSpecifier {
    TunnelSpecifier { tunnel_type: TunnelType::Tcp, client_port, server_port }
}

#[test]
fn parse_single_port() {
    assert_eq!(TunnelSpecifier::parse("80"), Ok(tcp(80, None)));
}

#[test]
fn parse_client_and_server_port() {
    assert_eq!(TunnelSpecifier::parse("80:8080"), Ok(tcp(80, Some(8080))));
}

#[test]
fn parse_empty_client_port_means_same_port() {
    assert_eq!(TunnelSpecifier::parse(":80"), Ok(tcp(80, Some(80))));
    assert_eq!(TunnelSpecifier::parse(":80"), TunnelSpecifier::parse("80:80"));
}

#[test]
fn parse_via_from_str() {
    let t: TunnelSpecifier = "443:8443".parse().unwrap();
    assert_eq!(t, tcp(443, Some(8443)));
}

#[test]
fn parse_plus_sign_and_leading_zeros() {
    assert_eq!(TunnelSpecifier::parse("+80"), Ok(tcp(80, None)));
    assert_eq!(TunnelSpecifier::parse("0080:+0090"), Ok(tcp(80, Some(90))));
}

#[test]
fn parse_invalid_port() {
    assert_eq!(TunnelSpecifier::parse(""), Err("Invalid port".to_string()));
    assert_eq!(TunnelSpecifier::parse("abc"), Err("Invalid port".to_string()));
    assert_eq!(TunnelSpecifier::parse("65536"), Err("Invalid port".to_string()));
    assert_eq!(TunnelSpecifier::parse("-1"), Err("Invalid port".to_string()));
    assert_eq!(TunnelSpecifier::parse("+"), Err("Invalid port".to_string()));
}

#[test]
fn parse_invalid_server_port_reported_first() {
    assert_eq!(TunnelSpecifier::parse("x:y"), Err("Invalid server port".to_string()));
    assert_eq!(TunnelSpecifier::parse("80:"), Err("Invalid server port".to_string()));
    assert_eq!(TunnelSpecifier::parse(":"), Err("Invalid server port".to_string()));
}

#[test]
fn parse_invalid_client_port() {
    assert_eq!(TunnelSpecifier::parse("x:80"), Err("Invalid client port".to_string()));
    assert_eq!(TunnelSpecifier::parse("70000:80"), Err("Invalid client port".to_string()));
}

#[test]
fn parse_too_many_colons() {
    assert_eq!(
        TunnelSpecifier::parse("1:2:3"),
        Err("Invalid tunnel specifier format".to_string())
    );
    assert_eq!(TunnelSpecifier::parse("::"), Err("Invalid tunnel specifier format".to_string()));
}

#[test]
fn specifier_to_string() {
    assert_eq!(tcp(80, None).to_string(), "80");
    assert_eq!(tcp(80, Some(8080)).to_string(), "80:8080");
    assert_eq!(tcp(0, Some(65535)).to_string(), "0:65535");
}

#[test]
fn specifier_text_round_trip() {
    for spec in [tcp(1, None), tcp(65535, Some(0)), tcp(22, Some(2222)), tcp(0, None)] {
        assert_eq!(TunnelSpecifier::parse(&spec.to_string()), Ok(spec));
    }
}

#[test]
fn tunnel_type_names() {
    assert_eq!(TunnelType::Tcp.to_string(), "tcp");
    assert_eq!(TunnelType::Ssl.to_string(), "ssl");
}
