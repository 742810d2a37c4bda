use ripgrok::copy::{CopyProgress, CopyStep};
use ripgrok::protocol::{
    connection_id_from_bytes, control_connection_request, frame_line, tunnel_connection_preamble,
    ClientHello, DropLogger, ServerControlCommand, ServerControlHello,
};
use ripgrok::server::tunnel_server::{connection_kind, ConnectionKind};

#[test]
fn client_hello_bytes() {
    assert_eq!(ClientHello::INIT_CONTROL_CONNECTION, 0x41);
    assert_eq!(ClientHello::INIT_TUNNEL_CONNECTION, 0x42);
}

#[test]
fn tunnel_preamble_is_big_endian() {
    assert_eq!(
        tunnel_connection_preamble(0x0102_0304_0506_0708),
        vec![0x42, 1, 2, 3, 4, 5, 6, 7, 8]
    );
    assert_eq!(tunnel_connection_preamble(0), vec![0x42, 0, 0, 0, 0, 0, 0, 0, 0]);
}

#[test]
fn connection_id_round_trip() {
    for id in [0u64, 1, 0xdead_beef, u64::MAX, 0x8000_0000_0000_0001] {
        let bytes = tunnel_connection_preamble(id);
        assert_eq!(connection_id_from_bytes(&bytes[1..]), id);
    }
    assert_eq!(connection_id_from_bytes(&[0, 0, 0, 0, 0, 0, 1, 0]), 256);
}

#[test]
fn control_messages_end_with_newline() {
    assert_eq!(frame_line(b"{}".to_vec()), b"{}\n".to_vec());
    assert_eq!(control_connection_request(b"{\"a\":1}".to_vec()), b"A{\"a\":1}\n".to_vec());
}

#[test]
fn server_hello_error() {
    match ServerControlHello::error("nope".to_string()) {
        ServerControlHello::Error { reason } => assert_eq!(reason, "nope"),
        _ => panic!("expected an error hello"),
    }
}

#[test]
fn start_tunnel_command_fields() {
    let c = ServerControlCommand::StartTunnelConnection { connection_id: 7, server_port: 9 };
    assert_eq!(c, ServerControlCommand::StartTunnelConnection { connection_id: 7, server_port: 9 });
}

#[test]
fn drop_logger_holds_value_and_name() {
    let mut d = DropLogger::new(5u32, "five".to_string());
    assert_eq!(*d.get(), 5);
    *d.get_mut() = 6;
    assert_eq!(*d.get(), 6);
    assert_eq!(d.drop_message(), "DROPPED five");
}

#[test]
fn hello_byte_kinds() {
    assert_eq!(connection_kind(0x41), ConnectionKind::Control);
    assert_eq!(connection_kind(0x42), ConnectionKind::Tunnel);
    assert_eq!(connection_kind(0x43), ConnectionKind::Unknown);
    assert_eq!(connection_kind(0), ConnectionKind::Unknown);
}

#[test]
fn copy_counts_bytes() {
    let mut p = CopyProgress::new();
    assert_eq!(p.on_read(10), CopyStep::Forward(10));
    assert_eq!(p.on_read(5), CopyStep::Forward(5));
    assert_eq!(p.total(), 15);
    assert_eq!(p.on_read(0), CopyStep::Finish(15));
    assert_eq!(p.total(), 15);
}
