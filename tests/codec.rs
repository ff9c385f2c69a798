use fps_core::messages::{ClientMessage, ServerMessage};
use fps_core::player::{Rotation, Vec3};

fn v(x: i32, y: i32, z: i32) -> Vec3 {
    Vec3 { x, y, z }
}

fn server_samples() -> Vec<ServerMessage> {
    vec![
        ServerMessage::PlayerJoined {
            player_id: 7,
            name: "Zoé".to_string(),
            position: v(-1, 1700, i32::MAX),
            health: 3,
            score: 9,
        },
        ServerMessage::PlayerJoined { player_id: 0, name: String::new(), position: v(0, 0, 0), health: 0, score: 0 },
        ServerMessage::PlayerUpdate { player_id: u64::MAX, position: v(i32::MIN, 2, 3), rotation: Rotation { yaw: -3141, pitch: 500 } },
        ServerMessage::PlayerLeft { player_id: 42 },
        ServerMessage::MapData { data: vec![1, 2, 3, 0, 255] },
        ServerMessage::MapData { data: vec![] },
        ServerMessage::PlayerDamaged { player_id: 1, new_health: 2, attacker_id: 0 },
        ServerMessage::PlayerDied { player_id: 1, killer_id: 0 },
        ServerMessage::PlayerRespawned { player_id: 1, position: v(2500, 1700, 2500), health: 3 },
        ServerMessage::ScoreUpdate { player_id: 0, new_score: 1 },
    ]
}

#[test]
fn server_messages_round_trip() {
    for m in server_samples() {
        let bytes = m.to_bytes();
        assert_eq!(ServerMessage::from_bytes(&bytes), Some(m));
    }
}

#[test]
fn client_messages_round_trip() {
    let samples = vec![
        ClientMessage::PlayerMovement { position: v(1, -2, 3), rotation: Rotation { yaw: 10, pitch: -20 } },
        ClientMessage::Shoot { position: v(10000, 1700, 1000), direction: v(-10000, -1700, 0) },
    ];
    for m in samples {
        assert_eq!(ClientMessage::from_bytes(&m.to_bytes()), Some(m));
    }
}

#[test]
fn client_message_layout() {
    let m = ClientMessage::PlayerMovement { position: v(1, -1, 256), rotation: Rotation { yaw: 0, pitch: 2 } };
    assert_eq!(
        m.to_bytes(),
        vec![0, 1, 0, 0, 0, 255, 255, 255, 255, 0, 1, 0, 0, 0, 0, 0, 0, 2, 0, 0, 0]
    );
}

#[test]
fn server_message_layout() {
    let m = ServerMessage::PlayerLeft { player_id: 0x0102 };
    assert_eq!(m.to_bytes(), vec![2, 2, 1, 0, 0, 0, 0, 0, 0]);
    let j = ServerMessage::PlayerJoined { player_id: 1, name: "ab".to_string(), position: v(0, 0, 0), health: 3, score: 5 };
    let b = j.to_bytes();
    assert_eq!(b.len(), 36);
    assert_eq!(&b[9..19], &[2, 0, 0, 0, 0, 0, 0, 0, b'a', b'b']);
    assert_eq!(b[31], 3);
    assert_eq!(&b[32..36], &[5, 0, 0, 0]);
}

#[test]
fn malformed_messages_are_rejected() {
    assert_eq!(ClientMessage::from_bytes(&[]), None);
    assert_eq!(ClientMessage::from_bytes(&[2; 21]), None);
    assert_eq!(ClientMessage::from_bytes(&[0; 20]), None);
    assert_eq!(ClientMessage::from_bytes(&[0; 22]), None);
    assert_eq!(ServerMessage::from_bytes(&[]), None);
    assert_eq!(ServerMessage::from_bytes(&[9, 0, 0]), None);
    assert_eq!(ServerMessage::from_bytes(&[2, 0, 0, 0]), None);
    // Declared length larger than what follows.
    assert_eq!(ServerMessage::from_bytes(&[3, 5, 0, 0, 0, 0, 0, 0, 0, 1]), None);
    // A name that is not UTF-8.
    let mut j = ServerMessage::PlayerJoined { player_id: 1, name: "ab".to_string(), position: v(0, 0, 0), health: 3, score: 5 }.to_bytes();
    j[17] = 0xff;
    assert_eq!(ServerMessage::from_bytes(&j), None);
    // A length that would overflow.
    let mut huge = vec![0u8; 40];
    for b in &mut huge[9..17] {
        *b = 0xff;
    }
    assert_eq!(ServerMessage::from_bytes(&huge), None);
}
