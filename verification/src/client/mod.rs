//! The tunnel client: its configuration, its commands, and its side of the
//! control connection.

pub mod config;
pub mod control_connection;
pub mod tls;
pub mod commands;
