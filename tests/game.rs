use mc::error::McError;
use mc::game::{Game, FIRST_TELEPORT_ID};
use mc::packet::read_packet;
use mc::transport::Encryption;

#[test]
fn teleport_confirmation_clears() {
    let mut game = Game::new();
    let frames = game.add_player(7, "steve".to_owned()).unwrap();
    assert_eq!(frames.len(), 3);
    let ids: Vec<i32> = frames.iter().map(|f| read_packet(f).unwrap().0.id).collect();
    assert_eq!(ids, vec![0x26, 0x4e, 0x36]);
    assert!(game.contains(7));
    assert_eq!(game.len(), 1);

    assert_eq!(
        game.verify_teleport(7, 99),
        Err(McError::IncorrectTeleportConfirm { expected: Some(FIRST_TELEPORT_ID), actual: 99 })
    );
    game.add_player(7, "steve".to_owned()).unwrap();
    assert_eq!(game.verify_teleport(7, FIRST_TELEPORT_ID), Ok(()));
    assert_eq!(
        game.verify_teleport(7, FIRST_TELEPORT_ID),
        Err(McError::IncorrectTeleportConfirm { expected: None, actual: FIRST_TELEPORT_ID })
    );
}

#[test]
fn keep_alive_confirmation_clears() {
    let mut game = Game::new();
    game.add_player(1, "alex".to_owned()).unwrap();
    let frame = game.issue_keep_alive(1, 42).unwrap();
    let (body, _) = read_packet(&frame).unwrap();
    assert_eq!(body.id, 0x21);
    assert_eq!(body.body, 42i64.to_be_bytes().to_vec());
    assert_eq!(game.verify_keep_alive(1, 41), Err(McError::IncorrectKeepAlive(41)));
    game.issue_keep_alive(1, 42).unwrap();
    assert_eq!(game.verify_keep_alive(1, 42), Ok(()));
    assert_eq!(game.verify_keep_alive(1, 42), Err(McError::IncorrectKeepAlive(42)));
}

#[test]
fn unknown_player() {
    let mut game = Game::new();
    assert_eq!(game.verify_teleport(3, 1), Err(McError::NoSuchPlayer(3)));
    assert_eq!(game.verify_keep_alive(3, 1), Err(McError::NoSuchPlayer(3)));
    assert_eq!(game.issue_keep_alive(3, 1).unwrap_err(), McError::NoSuchPlayer(3));
    game.add_player(3, "x".to_owned()).unwrap();
    assert!(game.remove_player(3));
    assert!(!game.remove_player(3));
    assert_eq!(game.len(), 0);
}

#[test]
fn encryption_upgrade() {
    let mut enc = Encryption::new();
    let frame = vec![9, 0x01, 0, 0, 0, 0, 0, 0, 0, 42];
    assert_eq!(enc.seal(&frame).unwrap(), frame);
    assert_eq!(enc.open(&frame).unwrap(), frame);

    let secret: Vec<u8> = (1..=16).collect();
    assert!(enc.upgrade(secret.clone()));
    let sealed = enc.seal(&frame).unwrap();
    assert_eq!(sealed.len(), frame.len());
    assert_ne!(sealed, frame);

    // the peer's incoming stream, keyed by the same secret, recovers it
    let mut peer = Encryption::new();
    peer.upgrade(secret.clone());
    assert_eq!(peer.open(&sealed).unwrap(), frame);

    // a different secret does not
    let mut other = Encryption::new();
    other.upgrade(vec![0; 16]);
    assert_ne!(other.open(&sealed).unwrap(), frame);

    // the upgrade happens once
    assert!(!enc.upgrade(vec![3; 16]));
}

#[test]
fn encryption_is_one_stream() {
    let secret: Vec<u8> = (100..116).collect();
    let first = vec![1u8, 2, 3, 4, 5];
    let second = vec![6u8; 40];

    let mut framewise = Encryption::new();
    framewise.upgrade(secret.clone());
    let mut wire = framewise.seal(&first).unwrap();
    wire.extend(framewise.seal(&second).unwrap());

    let mut at_once = Encryption::new();
    at_once.upgrade(secret.clone());
    let mut all = first.clone();
    all.extend(&second);
    assert_eq!(at_once.seal(&all).unwrap(), wire);

    // read back in chunks that do not follow the frames
    let mut reader = Encryption::new();
    reader.upgrade(secret);
    let mut plain = reader.open(&wire[..17]).unwrap();
    plain.extend(reader.open(&wire[17..]).unwrap());
    assert_eq!(plain, all);
}

#[test]
fn encryption_with_bad_key_fails() {
    let mut enc = Encryption::new();
    enc.upgrade(vec![1, 2, 3]);
    assert_eq!(enc.seal(&[1, 2]).unwrap_err(), McError::OpenSsl);
    assert_eq!(enc.open(&[1, 2]).unwrap_err(), McError::OpenSsl);
}
