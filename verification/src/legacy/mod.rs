//! The first generation of the protocol and of its server and client:
//! no tokens, no port restrictions, no TLS settings.

pub mod protocol;
pub mod server;
pub mod client;
