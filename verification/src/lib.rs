//! Core logic of the RipGrok tunnel protocol: tunnel specifiers, protocol
//! framing, the server's handshake decisions and pending-tunnel registry,
//! the client's command handling, and the configuration rules of both sides.

pub mod text;
pub mod tunnel_specifier;
pub mod protocol;
pub mod copy;
pub mod encoding;
pub mod pem;
pub mod server;
pub mod client;
pub mod legacy;
