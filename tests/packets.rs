use mc::error::McError;
use mc::field::{read_field_value, write_field_value, FieldKind, FieldValue};
use mc::packet::{check_frame_length, decode_fields, encode_packet, read_packet, split_frame, PacketBody};
use mc::protocol::{Handshake, Ping, Pong, StatusResponse, TeleportConfirm};

fn handshake_body(next_state: u8) -> Vec<u8> {
    // protocol 0, address "x", port 25565, next state
    vec![0x00, 0x01, b'x', 0x63, 0xdd, next_state]
}

#[test]
fn handshake_decodes() {
    let body = PacketBody { id: 0, body: handshake_body(1) };
    let h = Handshake::read_packet(&body).unwrap();
    assert_eq!(h.protocol_version, 0);
    assert_eq!(h.server_address, "x");
    assert_eq!(h.server_port, 25565);
    assert_eq!(h.next_state, 1);
}

#[test]
fn payload_longer_than_layout() {
    let mut bytes = handshake_body(1);
    bytes.push(0x00);
    let body = PacketBody { id: 0, body: bytes };
    assert_eq!(
        Handshake::read_packet(&body).unwrap_err(),
        McError::FullPacketNotRead { length: 7, read: 6 }
    );
}

#[test]
fn payload_shorter_than_layout() {
    let full = handshake_body(1);
    for cut in 0..full.len() {
        let body = PacketBody { id: 0, body: full[..cut].to_vec() };
        match Handshake::read_packet(&body) {
            Err(McError::FullPacketNotRead { length, .. }) => assert_eq!(length, cut),
            other => panic!("cut at {}: {:?}", cut, other.map(|h| h.next_state)),
        }
    }
}

#[test]
fn unexpected_packet_id() {
    let body = PacketBody { id: 0, body: vec![0; 8] };
    assert_eq!(
        Ping::read_packet(&body).unwrap_err(),
        McError::UnexpectedPacket { expected: 1, actual: 0 }
    );
}

#[test]
fn generic_decode_matches_layout() {
    let kinds = vec![FieldKind::VarInt, FieldKind::Bool, FieldKind::Rest];
    let body = PacketBody { id: 7, body: vec![0xac, 0x02, 0x01, 9, 8, 7] };
    let values = decode_fields(7, &kinds, &body).unwrap();
    assert_eq!(values.len(), 3);
    assert!(matches!(values[0], FieldValue::VarInt(300)));
    assert!(matches!(values[1], FieldValue::Bool(true)));
    match &values[2] {
        FieldValue::Rest(b) => assert_eq!(b, &vec![9, 8, 7]),
        _ => panic!("rest"),
    }
}

#[test]
fn pong_frame_bytes() {
    let frame = Pong { payload: 42 }.encode().unwrap();
    assert_eq!(frame, vec![9, 0x01, 0, 0, 0, 0, 0, 0, 0, 42]);
    let (body, used) = read_packet(&frame).unwrap();
    assert_eq!(used, frame.len());
    assert_eq!(body.id, 1);
    assert_eq!(body.body, vec![0, 0, 0, 0, 0, 0, 0, 42]);
}

#[test]
fn teleport_confirm_round_trip() {
    let body = PacketBody { id: 0x00, body: vec![0x05] };
    assert_eq!(TeleportConfirm::read_packet(&body).unwrap().teleport_id, 5);
}

#[test]
fn frame_errors() {
    assert_eq!(read_packet(&[]).unwrap_err(), McError::PleaseDisconnect);
    assert_eq!(read_packet(&[0x80]).unwrap_err(), McError::PleaseDisconnect);
    assert_eq!(read_packet(&[0x00]).unwrap_err(), McError::MalformedPacket(0));
    assert_eq!(
        read_packet(&[0x80, 0x80, 0x04]).unwrap_err(),
        McError::MalformedPacket(65536)
    );
    assert_eq!(read_packet(&[0x05, 0x00, 0x01]).unwrap_err(), McError::UnexpectedEof);
    assert_eq!(check_frame_length(65535), Ok(65535));
    assert_eq!(check_frame_length(-1), Err(McError::MalformedPacket(-1)));
    assert_eq!(split_frame(&[0x80]).unwrap_err(), McError::MalformedPacket(1));
}

#[test]
fn oversized_packet_is_refused() {
    let json = "a".repeat(70_000);
    let response = StatusResponse { json_response: json };
    assert_eq!(response.encode().unwrap_err(), McError::PacketTooLarge);
    assert_eq!(encode_packet(1, &vec![FieldValue::Position(1 << 26, 0, 0)]).unwrap_err(), McError::PacketTooLarge);
}

#[test]
fn position_packing() {
    let mut out = Vec::new();
    write_field_value(&FieldValue::Position(500, 64, -500), &mut out);
    let word = u64::from_be_bytes(out.clone().try_into().unwrap());
    assert_eq!(word >> 38, 500);
    assert_eq!(word & 0xfff, 64);
    assert_eq!((word >> 12) & 0x3ff_ffff, (-500i64 as u64) & 0x3ff_ffff);
    match read_field_value(FieldKind::Position, &out, 0).unwrap() {
        (FieldValue::Position(x, y, z), 8) => assert_eq!((x, y, z), (500, 64, -500)),
        _ => panic!("position"),
    }
    let mut out = Vec::new();
    write_field_value(&FieldValue::Position(-1, -2048, 33_554_431), &mut out);
    match read_field_value(FieldKind::Position, &out, 0).unwrap() {
        (FieldValue::Position(x, y, z), 8) => assert_eq!((x, y, z), (-1, -2048, 33_554_431)),
        _ => panic!("position"),
    }
}
