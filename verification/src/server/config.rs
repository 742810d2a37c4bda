//! The server's configuration and the defaults that fill in what the
//! configuration file leaves out.

use vstd::prelude::*;

verus! {

/// Settings shared by every control connection.
#[derive(Debug, Clone)]
pub struct GeneralConfig {
    /// The host name under which tunnels are reachable, told to clients.
    pub public_host: Option<String>,
    /// Which ports clients are allowed to bind to. None to allow all ports.
    pub allowed_ports: Option<Vec<u16>>,
    /// Token that the client has to send to connect. No token required if None
    pub token: Option<String>,
}

/// Where the tunnel server listens.
#[derive(Debug, Clone)]
pub struct BindConfig {
    pub host: String,
    pub port: u16,
}

/// Where the server's certificate chain and key come from: each either
/// inline (base64 of the PEM text) or from a file.
#[derive(Debug, Clone)]
pub struct TlsConfig {
    pub fullchain_b64: Option<String>,
    pub fullchain_file: Option<String>,
    pub key_b64: Option<String>,
    pub key_file: Option<String>,
}

/// The credentials of the admin web API.
#[derive(Debug, Clone)]
pub struct WebServerAuthConfig {
    pub username: String,
    pub password: String,
}

/// Where the admin web API listens, and who may use it.
#[derive(Debug, Clone)]
pub struct WebServerConfig {
    pub auth: Option<WebServerAuthConfig>,
    pub host: String,
    pub port: u16,
}

/// The whole server configuration.
#[derive(Debug, Clone)]
pub struct Config {
    pub general: GeneralConfig,
    pub bind: BindConfig,
    pub web_server: WebServerConfig,
    pub tls: Option<TlsConfig>,
}

/// The `[bind]` section as the file gives it.
#[derive(Debug, Clone)]
pub struct BindSection {
    pub host: Option<String>,
    pub port: Option<u16>,
}

/// The `[web_server]` section as the file gives it.
#[derive(Debug, Clone)]
pub struct WebServerSection {
    pub auth: Option<WebServerAuthConfig>,
    pub host: Option<String>,
    pub port: Option<u16>,
}

/// The configuration file as read, before defaults are applied.
#[derive(Debug, Clone)]
pub struct ConfigFile {
    pub general: GeneralConfig,
    pub bind: BindSection,
    pub web_server: WebServerSection,
    pub tls: Option<TlsConfig>,
}

/// The port the tunnel server listens on unless told otherwise.
pub const DEFAULT_BIND_PORT: u16 = 7267;

/// The port the admin web API listens on unless told otherwise.
pub const DEFAULT_WEB_SERVER_PORT: u16 = 5000;

/// A host given in the file, or else every interface.
pub open spec fn host_or_any(host: Option<String>) -> Seq<char> {
    match host {
        Some(h) => h@,
        None => "0.0.0.0"@,
    }
}

/// A port given in the file, or else the default.
pub open spec fn port_or(port: Option<u16>, default: u16) -> u16 {
    match port {
        Some(p) => p,
        None => default,
    }
}

fn host_or_any_exec(host: Option<String>) -> (r: String)
    ensures
        r@ == host_or_any(host),
{
    match host {
        Some(h) => h,
        None => String::from_str("0.0.0.0"),
    }
}

impl Config {
    /// Fills in the defaults: the tunnel server binds to `0.0.0.0:7267`,
    /// the web API to `0.0.0.0:5000`; everything else is as the file says.
    pub fn load(file: ConfigFile) -> (r: Config)
        ensures
            r.general == file.general,
            r.bind.host@ == host_or_any(file.bind.host),
            r.bind.port == port_or(file.bind.port, DEFAULT_BIND_PORT),
            r.web_server.auth == file.web_server.auth,
            r.web_server.host@ == host_or_any(file.web_server.host),
            r.web_server.port == port_or(file.web_server.port, DEFAULT_WEB_SERVER_PORT),
            r.tls == file.tls,
    {
        let ConfigFile { general, bind, web_server, tls } = file;
        let bind_port = match bind.port {
            Some(p) => p,
            None => DEFAULT_BIND_PORT,
        };
        let web_port = match web_server.port {
            Some(p) => p,
            None => DEFAULT_WEB_SERVER_PORT,
        };
        Config {
            general,
            bind: BindConfig { host: host_or_any_exec(bind.host), port: bind_port },
            web_server: WebServerConfig {
                auth: web_server.auth,
                host: host_or_any_exec(web_server.host),
                port: web_port,
            },
            tls,
        }
    }
}

} // verus!
