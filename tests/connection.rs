use mc::auth::{check_auth_response, generate_hash, uuid_text};
use mc::connection::{
    generate_json, verify_encryption, ConnectionPhase, ConnectionState, LoginDraw, PostPacketAction,
};
use mc::error::McError;
use mc::fields::StringField;
use mc::packet::{read_packet, PacketBody};
use mc::server::ServerData;

fn server(online: bool) -> ServerData {
    ServerData::new(online, "mInEcRaFt".to_owned(), "AAAA".to_owned()).unwrap()
}

fn draw() -> LoginDraw {
    LoginDraw { uuid: 0x0123_4567_89ab_cdef_0123_4567_89ab_cdef, verify_token: vec![7, 9] }
}

fn handshake(next_state: u8) -> PacketBody {
    PacketBody { id: 0, body: vec![0x00, 0x01, b'x', 0x63, 0xdd, next_state] }
}

fn frame_of(bytes: &[u8]) -> PacketBody {
    let (body, used) = read_packet(bytes).unwrap();
    assert_eq!(used, bytes.len());
    body
}

#[test]
fn status_session_end_to_end() {
    let server = server(false);
    let draw = draw();
    let mut conn = ConnectionState::new();

    let step = conn.handle_packet(&handshake(1), &server, &draw);
    assert!(step.responses.is_empty());
    assert!(matches!(step.result, Ok(PostPacketAction::Nothing)));
    assert!(matches!(conn.phase(), ConnectionPhase::Status));

    let step = conn.handle_packet(&PacketBody { id: 0, body: vec![] }, &server, &draw);
    assert!(matches!(step.result, Ok(PostPacketAction::Nothing)));
    assert!(matches!(conn.phase(), ConnectionPhase::Status));
    assert_eq!(step.responses.len(), 1);
    let response = frame_of(&step.responses[0]);
    assert_eq!(response.id, 0);
    let (json, end) = StringField::read_field(&response.body, 0).unwrap();
    assert_eq!(end, response.body.len());
    assert_eq!(json.value(), &generate_json("mInEcRaFt", "AAAA"));
    assert!(json.value().contains("\"text\": \"mInEcRaFt\""));

    let step = conn.handle_packet(&PacketBody { id: 1, body: 42i64.to_be_bytes().to_vec() }, &server, &draw);
    assert_eq!(step.responses.len(), 1);
    let pong = frame_of(&step.responses[0]);
    assert_eq!(pong.id, 1);
    assert_eq!(pong.body, 42i64.to_be_bytes().to_vec());
    assert!(matches!(step.result, Err(McError::PleaseDisconnect)));
    assert!(matches!(conn.phase(), ConnectionPhase::Closed));
}

#[test]
fn wrong_packet_in_handshake_is_kicked() {
    let server = server(false);
    let draw = draw();
    let mut conn = ConnectionState::new();
    let step = conn.handle_packet(&PacketBody { id: 3, body: vec![] }, &server, &draw);
    assert_eq!(step.result.err(), Some(McError::UnexpectedPacket { expected: 0, actual: 3 }));
    assert_eq!(step.responses.len(), 1);
    let kick = frame_of(&step.responses[0]);
    assert_eq!(kick.id, 0x1b);
    let (reason, _) = StringField::read_field(&kick.body, 0).unwrap();
    assert_eq!(reason.value(), "{\"text\": \"Unexpected packet\"}");
}

#[test]
fn handshake_next_states() {
    let server = server(false);
    let draw = draw();
    let mut conn = ConnectionState::new();
    conn.handle_packet(&handshake(2), &server, &draw);
    assert!(matches!(conn.phase(), ConnectionPhase::Login { .. }));

    let mut conn = ConnectionState::new();
    let step = conn.handle_packet(&handshake(3), &server, &draw);
    assert!(matches!(step.result, Err(McError::BadNextState(3))));
    assert_eq!(step.responses.len(), 1);
    assert_eq!(frame_of(&step.responses[0]).id, 0x1b);
    assert!(matches!(conn.phase(), ConnectionPhase::Closed));
}

#[test]
fn status_request_does_not_close() {
    let server = server(false);
    let draw = draw();
    let mut conn = ConnectionState::new();
    conn.handle_packet(&handshake(1), &server, &draw);
    for _ in 0..3 {
        let step = conn.handle_packet(&PacketBody { id: 0, body: vec![] }, &server, &draw);
        assert!(step.result.is_ok());
        assert!(matches!(conn.phase(), ConnectionPhase::Status));
    }
    let step = conn.handle_packet(&PacketBody { id: 5, body: vec![] }, &server, &draw);
    assert!(matches!(step.result, Err(McError::BadPacketId(5))));
    assert_eq!(step.responses.len(), 1);
    assert_eq!(frame_of(&step.responses[0]).id, 0x1b);
}

fn login_start(name: &str) -> PacketBody {
    let mut body = vec![name.len() as u8];
    body.extend_from_slice(name.as_bytes());
    PacketBody { id: 0, body }
}

#[test]
fn offline_login_enters_play() {
    let server = server(false);
    let draw = draw();
    let mut conn = ConnectionState::new();
    conn.handle_packet(&handshake(2), &server, &draw);
    let step = conn.handle_packet(&login_start("steve"), &server, &draw);
    match &step.result {
        Ok(PostPacketAction::EnteredPlayState { player_name, player_uuid }) => {
            assert_eq!(player_name, "steve");
            assert_eq!(*player_uuid, draw.uuid);
        }
        _ => panic!("expected to enter play"),
    }
    assert_eq!(step.responses.len(), 1);
    let success = frame_of(&step.responses[0]);
    assert_eq!(success.id, 2);
    let (uuid, at) = StringField::read_field(&success.body, 0).unwrap();
    assert_eq!(uuid.value(), "01234567-89AB-CDEF-0123-456789ABCDEF");
    let (name, _) = StringField::read_field(&success.body, at).unwrap();
    assert_eq!(name.value(), "steve");
    assert!(matches!(conn.phase(), ConnectionPhase::Play { .. }));
    assert_eq!(conn.on_disconnect(), Some(draw.uuid));
    assert_eq!(conn.on_disconnect(), None);
}

#[test]
fn online_login_sends_encryption_request() {
    let server = server(true);
    let draw = draw();
    let mut conn = ConnectionState::new();
    conn.handle_packet(&handshake(2), &server, &draw);
    let step = conn.handle_packet(&login_start("alex"), &server, &draw);
    assert!(matches!(step.result, Ok(PostPacketAction::Nothing)));
    let request = frame_of(&step.responses[0]);
    assert_eq!(request.id, 1);
    let public_key = server.public_key().unwrap();
    let mut expected = vec![0x00];
    expected.extend_from_slice(&mc::varint::encode_varint(public_key.len() as i32));
    expected.extend_from_slice(&public_key);
    expected.extend_from_slice(&[2, 7, 9]);
    assert_eq!(request.body, expected);
    match conn.phase() {
        ConnectionPhase::Login { player_name, verify_token } => {
            assert_eq!(player_name, "alex");
            assert_eq!(verify_token, &vec![7, 9]);
        }
        _ => panic!("expected login"),
    }

    // an answer that does not decrypt ends the login with a kick
    let step = conn.handle_packet(&PacketBody { id: 1, body: vec![1, 0xaa, 1, 0xbb] }, &server, &draw);
    assert!(matches!(step.result, Err(McError::OpenSsl)));
    assert_eq!(step.responses.len(), 1);
    assert_eq!(frame_of(&step.responses[0]).id, 0x00);
}

#[test]
fn verify_token_mismatch_and_match() {
    let (phase, step) = verify_encryption("alex".to_owned(), &vec![1, 2], &vec![1, 3], vec![5; 16], &vec![8]);
    assert!(matches!(step.result, Err(McError::VerifyTokenMismatch)));
    assert!(matches!(phase, ConnectionPhase::Closed));

    let (phase, step) = verify_encryption("alex".to_owned(), &vec![1, 2], &vec![1, 2], vec![5; 16], &vec![8]);
    match step.result {
        Ok(PostPacketAction::Authenticate { player_name, shared_secret, server_hash }) => {
            assert_eq!(player_name, "alex");
            assert_eq!(shared_secret, vec![5; 16]);
            assert_eq!(server_hash, generate_hash("", &[5; 16], &[8]));
        }
        _ => panic!("expected authentication"),
    }
    assert!(matches!(phase, ConnectionPhase::Authenticating { .. }));
}

#[test]
fn complete_login_after_authentication() {
    let mut conn = ConnectionState::new();
    let step = conn.complete_login(Ok(5));
    assert!(matches!(step.result, Err(McError::PleaseDisconnect)));

    let server = server(false);
    let draw = draw();
    let mut conn = ConnectionState::new();
    conn.handle_packet(&handshake(2), &server, &draw);
    let (phase, _) = verify_encryption("alex".to_owned(), &vec![], &vec![], vec![1; 16], &vec![]);
    assert!(matches!(phase, ConnectionPhase::Authenticating { .. }));
}

fn play_connection() -> (ConnectionState, ServerData, LoginDraw) {
    let server = server(false);
    let draw = draw();
    let mut conn = ConnectionState::new();
    conn.handle_packet(&handshake(2), &server, &draw);
    conn.handle_packet(&login_start("steve"), &server, &draw);
    (conn, server, draw)
}

#[test]
fn play_packets() {
    let (mut conn, server, draw) = play_connection();
    let step = conn.handle_packet(&PacketBody { id: 0x00, body: vec![0x05] }, &server, &draw);
    assert!(matches!(step.result, Ok(PostPacketAction::VerifyTeleport(5))));
    let step = conn.handle_packet(&PacketBody { id: 0x0f, body: 77i64.to_be_bytes().to_vec() }, &server, &draw);
    assert!(matches!(step.result, Ok(PostPacketAction::VerifyKeepAlive(77))));

    let mut brand = vec![15];
    brand.extend_from_slice(b"minecraft:brand");
    brand.extend_from_slice(&[7]);
    brand.extend_from_slice(b"vanilla");
    let step = conn.handle_packet(&PacketBody { id: 0x0b, body: brand }, &server, &draw);
    assert!(matches!(step.result, Ok(PostPacketAction::Nothing)));

    let step = conn.handle_packet(&PacketBody { id: 0x50, body: vec![] }, &server, &draw);
    assert!(matches!(step.result, Err(McError::BadPacketId(0x50))));
    assert_eq!(step.responses.len(), 1);
    assert_eq!(frame_of(&step.responses[0]).id, 0x1b);
    assert!(matches!(conn.phase(), ConnectionPhase::Closed));
}

#[test]
fn malformed_brand_is_fatal() {
    let (mut conn, server, draw) = play_connection();
    let mut brand = vec![5];
    brand.extend_from_slice(b"brand");
    brand.extend_from_slice(&[7, b'x']);
    let step = conn.handle_packet(&PacketBody { id: 0x0b, body: brand }, &server, &draw);
    assert!(matches!(step.result, Err(McError::UnexpectedEof)));
}

#[test]
fn auth_response_checks() {
    let id = "0123456789abcdef0123456789abcdef".to_owned();
    assert_eq!(
        check_auth_response("steve", 200, Some(id.clone()), Some("steve".to_owned())),
        Ok(0x0123_4567_89ab_cdef_0123_4567_89ab_cdef)
    );
    assert_eq!(
        check_auth_response("steve", 200, Some(id.clone()), Some("alex".to_owned())),
        Err(McError::BadAuthResponse)
    );
    assert_eq!(
        check_auth_response("steve", 200, Some("nope".to_owned()), Some("steve".to_owned())),
        Err(McError::BadAuthResponse)
    );
    assert_eq!(check_auth_response("steve", 200, None, None), Err(McError::BadAuthResponse));
    assert_eq!(
        check_auth_response("steve", 204, Some(id), Some("steve".to_owned())),
        Ok(0x0123_4567_89ab_cdef_0123_4567_89ab_cdef)
    );
    assert_eq!(check_auth_response("steve", 403, None, None), Err(McError::UnexpectedAuthResponse(403)));
}

#[test]
fn hash() {
    assert_eq!("-7c9d5b0044c130109a5d7b5fb5c317c02b4e28c1", generate_hash("jeb_", &[], &[]));
    assert_eq!("4ed1f46bbe04bc756bcb17c0c7ce3e4632f06a48", generate_hash("Notch", &[], &[]));
    assert_eq!("88e16a1019277b15d58faf0541e11910eb756f6", generate_hash("simon", &[], &[]));
}

#[test]
fn uuid_text_is_hyphenated_upper() {
    assert_eq!(uuid_text(0), "00000000-0000-0000-0000-000000000000");
    assert_eq!(uuid_text(0xdead_beef_0000_0000_0000_0000_0000_00ff), "DEADBEEF-0000-0000-0000-0000000000FF");
}

#[test]
fn kick_reason_is_chat_json() {
    let frames = mc::connection::kick(false, &McError::BadPacketId(3));
    let body = frame_of(&frames[0]);
    assert_eq!(body.id, 0x1b);
    let (reason, _) = StringField::read_field(&body.body, 0).unwrap();
    assert_eq!(reason.value(), "{\"text\": \"Unexpected packet id\"}");
}
