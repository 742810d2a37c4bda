//! The messages of the tunnel protocol and their byte framing.
//!
//! A connection opens with one `ClientHello` byte. A control connection then
//! carries one JSON message per line; a tunnel connection carries the
//! connection id as 8 big-endian bytes, then raw data.

use vstd::prelude::*;
use crate::tunnel_specifier::{ResolvedTunnelSpecifier, TunnelSpecifier};

verus! {

/// The first byte of every connection, saying which kind it is.
pub struct ClientHello;

impl ClientHello {
    pub const INIT_CONTROL_CONNECTION: u8 = 0x41;
    pub const INIT_TUNNEL_CONNECTION: u8 = 0x42;
}

/// What the client asks for when it opens a control connection.
#[derive(Debug)]
pub struct ClientControlHello {
    pub specifiers: Vec<TunnelSpecifier>,
    pub token: Option<String>,
}

/// The server's answer to a `ClientControlHello`.
#[derive(Debug)]
pub enum ServerControlHello {
    Error { reason: String },
    Listening { specifiers: Vec<ResolvedTunnelSpecifier>, public_host: Option<String> },
}

impl ServerControlHello {
    /// A refusal with the given reason.
    pub fn error(e: String) -> (r: ServerControlHello)
        ensures
            r == (ServerControlHello::Error { reason: e }),
    {
        ServerControlHello::Error { reason: e }
    }
}

/// What the server asks of the client once the tunnels are open.
#[derive(Debug, Clone, Copy, PartialEq, Eq, Structural)]
pub enum ServerControlCommand {
    /// The server received a connection on `server_port`: the client is to
    /// open a tunnel connection that presents `connection_id`.
    StartTunnelConnection { connection_id: u64, server_port: u16 },
}

/// A value with a name, kept for logging. The owner announces the value's
/// end by printing `drop_message`; nothing is printed by itself when the
/// value is dropped.
pub struct DropLogger<T> {
    name: String,
    inner: T,
}

impl<T> DropLogger<T> {
    /// The name under which the value is logged.
    pub closed spec fn spec_name(&self) -> Seq<char> {
        self.name@
    }

    /// The value held.
    pub closed spec fn spec_inner(&self) -> T {
        self.inner
    }

    /// Wraps `val` under `name`.
    pub fn new(val: T, name: String) -> (r: DropLogger<T>)
        ensures
            r.spec_name() == name@,
            r.spec_inner() == val,
    {
        DropLogger { inner: val, name }
    }

    /// The line that announces the value's end: `DROPPED <name>`.
    pub fn drop_message(&self) -> (r: String)
        ensures
            r@ == "DROPPED "@ + self.spec_name(),
    {
        let r = String::from_str("DROPPED ");
        r.concat(self.name.as_str())
    }

    /// The value held.
    pub fn get(&self) -> (r: &T)
        ensures
            *r == self.spec_inner(),
    {
        &self.inner
    }

    /// The value held, for change.
    pub fn get_mut(&mut self) -> (r: &mut T)
        ensures
            *r == old(self).spec_inner(),
            final(self).spec_inner() == *final(r),
            final(self).spec_name() == old(self).spec_name(),
    {
        &mut self.inner
    }
}

/// The 8 big-endian bytes by which a tunnel connection names its id.
pub open spec fn connection_id_bytes(id: u64) -> Seq<u8> {
    seq![
        (id >> 56u64) as u8,
        (id >> 48u64) as u8,
        (id >> 40u64) as u8,
        (id >> 32u64) as u8,
        (id >> 24u64) as u8,
        (id >> 16u64) as u8,
        (id >> 8u64) as u8,
        id as u8,
    ]
}

/// The id that 8 big-endian bytes name.
pub open spec fn connection_id_of(b: Seq<u8>) -> u64
    recommends
        b.len() == 8,
{
    ((b[0] as u64) << 56u64) | ((b[1] as u64) << 48u64) | ((b[2] as u64) << 40u64) | ((
    b[3] as u64) << 32u64) | ((b[4] as u64) << 24u64) | ((b[5] as u64) << 16u64) | ((b[6] as u64)
        << 8u64) | (b[7] as u64)
}

/// A control message as sent on the wire: its JSON text, then a newline.
pub open spec fn framed_line(payload: Seq<u8>) -> Seq<u8> {
    payload.push(10u8)
}

/// The bytes a client sends to open a tunnel connection: the
/// `INIT_TUNNEL_CONNECTION` byte, then the connection id.
pub fn tunnel_connection_preamble(connection_id: u64) -> (r: Vec<u8>)
    ensures
        r@ == seq![ClientHello::INIT_TUNNEL_CONNECTION].add(connection_id_bytes(connection_id)),
{
    let mut r: Vec<u8> = Vec::new();
    r.push(ClientHello::INIT_TUNNEL_CONNECTION);
    r.push((connection_id >> 56u64) as u8);
    r.push((connection_id >> 48u64) as u8);
    r.push((connection_id >> 40u64) as u8);
    r.push((connection_id >> 32u64) as u8);
    r.push((connection_id >> 24u64) as u8);
    r.push((connection_id >> 16u64) as u8);
    r.push((connection_id >> 8u64) as u8);
    r.push(connection_id as u8);
    assert(r@ =~= seq![ClientHello::INIT_TUNNEL_CONNECTION].add(connection_id_bytes(connection_id)));
    r
}

/// Reads the connection id that follows `INIT_TUNNEL_CONNECTION`.
pub fn connection_id_from_bytes(b: &[u8]) -> (id: u64)
    requires
        b@.len() == 8,
    ensures
        id == connection_id_of(b@),
{
    ((b[0] as u64) << 56u64) | ((b[1] as u64) << 48u64) | ((b[2] as u64) << 40u64) | ((
    b[3] as u64) << 32u64) | ((b[4] as u64) << 24u64) | ((b[5] as u64) << 16u64) | ((b[6] as u64)
        << 8u64) | (b[7] as u64)
}

/// Appends the newline that ends a control message.
pub fn frame_line(payload: Vec<u8>) -> (r: Vec<u8>)
    ensures
        r@ == framed_line(payload@),
{
    let mut r = payload;
    r.push(10u8);
    r
}

/// The bytes a client sends to open a control connection: the
/// `INIT_CONTROL_CONNECTION` byte, then its hello as one line.
pub fn control_connection_request(hello_json: Vec<u8>) -> (r: Vec<u8>)
    ensures
        r@ == seq![ClientHello::INIT_CONTROL_CONNECTION].add(framed_line(hello_json@)),
{
    let mut r: Vec<u8> = Vec::new();
    r.push(ClientHello::INIT_CONTROL_CONNECTION);
    let mut line = frame_line(hello_json);
    r.append(&mut line);
    r
}

/// Law: the server reads back the very connection id that the client sent.
pub proof fn lemma_connection_id_round_trip(id: u64)
    ensures
        connection_id_of(connection_id_bytes(id)) == id,
        connection_id_bytes(id).len() == 8,
{
    let b = connection_id_bytes(id);
    assert(b[0] == (id >> 56u64) as u8);
    assert(b[7] == id as u8);
    assert(((((id >> 56u64) as u8) as u64) << 56u64) | ((((id >> 48u64) as u8) as u64) << 48u64)
        | ((((id >> 40u64) as u8) as u64) << 40u64) | ((((id >> 32u64) as u8) as u64) << 32u64)
        | ((((id >> 24u64) as u8) as u64) << 24u64) | ((((id >> 16u64) as u8) as u64) << 16u64)
        | ((((id >> 8u64) as u8) as u64) << 8u64) | ((id as u8) as u64) == id) by (bit_vector);
}

/// Law: 8 bytes read as an id are exactly the bytes that id is sent as.
pub proof fn lemma_connection_bytes_round_trip(b: Seq<u8>)
    requires
        b.len() == 8,
    ensures
        connection_id_bytes(connection_id_of(b)) == b,
{
    let (b0, b1, b2, b3, b4, b5, b6, b7) = (b[0], b[1], b[2], b[3], b[4], b[5], b[6], b[7]);
    let v = connection_id_of(b);
    assert(v == ((b0 as u64) << 56u64) | ((b1 as u64) << 48u64) | ((b2 as u64) << 40u64) | ((
    b3 as u64) << 32u64) | ((b4 as u64) << 24u64) | ((b5 as u64) << 16u64) | ((b6 as u64) << 8u64)
        | (b7 as u64));
    assert((v >> 56u64) as u8 == b0 && (v >> 48u64) as u8 == b1 && (v >> 40u64) as u8 == b2 && (v
        >> 32u64) as u8 == b3 && (v >> 24u64) as u8 == b4 && (v >> 16u64) as u8 == b5 && (v
        >> 8u64) as u8 == b6 && v as u8 == b7) by (bit_vector)
        requires
            v == ((b0 as u64) << 56u64) | ((b1 as u64) << 48u64) | ((b2 as u64) << 40u64) | ((
            b3 as u64) << 32u64) | ((b4 as u64) << 24u64) | ((b5 as u64) << 16u64) | ((b6 as u64)
                << 8u64) | (b7 as u64),
    ;
    assert(connection_id_bytes(v) =~= b);
}

} // verus!
