//! The client's configuration and the defaults that fill in what the
//! configuration file leaves out.

use vstd::prelude::*;

verus! {

/// The server to connect to.
#[derive(Debug)]
pub struct ServerConfig {
    pub host: String,
    pub port: u16,
}

/// A certificate to trust besides the usual roots: inline (base64 of the
/// PEM text) or from a file.
#[derive(Debug)]
pub struct TlsConfig {
    pub cert_b64: Option<String>,
    pub cert_file: Option<String>,
}

impl Default for TlsConfig {
    fn default() -> (r: TlsConfig)
        ensures
            r.cert_b64.is_none(),
            r.cert_file.is_none(),
    {
        TlsConfig { cert_b64: None, cert_file: None }
    }
}

/// Settings of the client as a whole.
#[derive(Debug)]
pub struct GeneralConfig {
    /// The token to present to the server.
    pub token: Option<String>,
}

impl Default for GeneralConfig {
    fn default() -> (r: GeneralConfig)
        ensures
            r.token.is_none(),
    {
        GeneralConfig { token: None }
    }
}

/// The whole client configuration. Without a `tls` section the client
/// connects unencrypted.
#[derive(Debug)]
pub struct Config {
    pub server: ServerConfig,
    pub tls: Option<TlsConfig>,
    pub general: Option<GeneralConfig>,
}

/// The `[server]` section as the file gives it.
#[derive(Debug)]
pub struct ServerSection {
    pub host: String,
    pub port: Option<u16>,
}

/// The configuration file as read, before defaults are applied.
#[derive(Debug)]
pub struct ConfigFile {
    pub server: ServerSection,
    pub tls: Option<TlsConfig>,
    pub general: Option<GeneralConfig>,
}

/// The server port used unless the file names one.
pub const DEFAULT_SERVER_PORT: u16 = 7267;

impl Config {
    /// Fills in the defaults: the server port is 7267 unless given.
    pub fn load(file: ConfigFile) -> (r: Config)
        ensures
            r.server.host == file.server.host,
            r.server.port == match file.server.port {
                Some(p) => p,
                None => DEFAULT_SERVER_PORT,
            },
            r.tls == file.tls,
            r.general == file.general,
    {
        let ConfigFile { server, tls, general } = file;
        let port = match server.port {
            Some(p) => p,
            None => DEFAULT_SERVER_PORT,
        };
        Config { server: ServerConfig { host: server.host, port }, tls, general }
    }

    /// The token to present: the one of the `general` section, if any.
    pub fn token(&self) -> (r: Option<String>)
        ensures
            r == match self.general {
                Some(g) => g.token,
                None => None,
            },
    {
        match &self.general {
            Some(g) => match &g.token {
                Some(t) => Some(t.clone()),
                None => None,
            },
            None => None,
        }
    }
}

} // verus!
