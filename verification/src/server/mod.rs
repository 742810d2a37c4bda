//! The tunnel server: its configuration, the handshake of a control
//! connection, the registry of pending tunnels, and the admin web API's
//! authentication.

pub mod config;

pub mod control_connection;
pub mod tunnel_server;
pub mod tunnel_listener;
pub mod tls;
pub mod web_server;
