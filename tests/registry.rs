use fps_core::spawn::SpawnRotation;
use fps_core::player::{
    extract_name_from_user_data, name_to_user_data, PlayerRegistry, Rotation, Vec3, MAX_HEALTH,
};

fn v(x: i32, y: i32, z: i32) -> Vec3 {
    Vec3 { x, y, z }
}

#[test]
fn add_player_assigns_increasing_ids() {
    let mut reg = PlayerRegistry::new();
    let mut rot = SpawnRotation::default();
    let a = reg.add_player(100, "alice".to_string(), &mut rot);
    let b = reg.add_player(200, "bob".to_string(), &mut rot);
    assert_eq!((a, b), (0, 1));
    assert_eq!(reg.get_player_id_from_temp(200), Some(1));
    assert_eq!(reg.get_player_id_from_temp(300), None);
    assert_eq!(reg.get_spawn_index(a), Some(0));
    assert_eq!(reg.get_spawn_index(b), Some(1));
    assert_eq!(rot.last_used_index, Some(1));
    let st = reg.get_player(b).unwrap();
    assert_eq!(st.name, "bob");
    assert_eq!(st.health, MAX_HEALTH);
    assert_eq!(st.score, 0);
    assert_eq!(st.position, v(0, 0, 0));
}

#[test]
fn damage_saturates_at_zero() {
    let mut reg = PlayerRegistry::new();
    let mut rot = SpawnRotation::default();
    let a = reg.add_player(1, "a".to_string(), &mut rot);
    assert_eq!(reg.damage_player(a, 1), Some((2, false)));
    assert_eq!(reg.damage_player(a, 5), Some((0, true)));
    assert_eq!(reg.damage_player(a, 1), Some((0, true)));
    assert_eq!(reg.damage_player(a, 255), Some((0, true)));
    assert_eq!(reg.get_player(a).unwrap().health, 0);
    assert_eq!(reg.damage_player(42, 1), None);
}

#[test]
fn heal_caps_at_three() {
    let mut reg = PlayerRegistry::new();
    let mut rot = SpawnRotation::default();
    let a = reg.add_player(1, "a".to_string(), &mut rot);
    reg.damage_player(a, 2);
    reg.heal_player(a, 1);
    assert_eq!(reg.get_player(a).unwrap().health, 2);
    reg.heal_player(a, 200);
    assert_eq!(reg.get_player(a).unwrap().health, 3);
    reg.heal_player(a, 255);
    assert_eq!(reg.get_player(a).unwrap().health, 3);
    reg.heal_player(99, 1);
}

#[test]
fn respawn_restores_health_and_moves() {
    let mut reg = PlayerRegistry::new();
    let mut rot = SpawnRotation::default();
    let a = reg.add_player(1, "a".to_string(), &mut rot);
    reg.add_kill(a);
    reg.damage_player(a, 3);
    reg.respawn_player(a, v(2500, 1700, 2500));
    let st = reg.get_player(a).unwrap();
    assert_eq!(st.health, 3);
    assert_eq!(st.position, v(2500, 1700, 2500));
    assert_eq!(st.score, 1);
    assert_eq!(st.name, "a");
}

#[test]
fn add_kill_increments_and_saturates() {
    let mut reg = PlayerRegistry::new();
    let mut rot = SpawnRotation::default();
    let a = reg.add_player(1, "a".to_string(), &mut rot);
    reg.add_kill(a);
    reg.add_kill(a);
    assert_eq!(reg.get_player(a).unwrap().score, 2);
    reg.players[0].score = u32::MAX;
    reg.add_kill(a);
    assert_eq!(reg.get_player(a).unwrap().score, u32::MAX);
}

#[test]
fn update_position_overwrites() {
    let mut reg = PlayerRegistry::new();
    let mut rot = SpawnRotation::default();
    let a = reg.add_player(1, "a".to_string(), &mut rot);
    reg.update_player_position(a, v(1, 2, 3), Rotation { yaw: 4, pitch: -5 });
    let st = reg.get_player(a).unwrap();
    assert_eq!(st.position, v(1, 2, 3));
    assert_eq!(st.rotation, Rotation { yaw: 4, pitch: -5 });
    reg.update_player_position(77, v(9, 9, 9), Rotation { yaw: 0, pitch: 0 });
    assert_eq!(reg.get_player(a).unwrap().position, v(1, 2, 3));
}

#[test]
fn remove_player_is_idempotent() {
    let mut reg = PlayerRegistry::new();
    let mut rot = SpawnRotation::default();
    let a = reg.add_player(10, "a".to_string(), &mut rot);
    let b = reg.add_player(20, "b".to_string(), &mut rot);
    assert_eq!(reg.remove_player(10), Some(a));
    assert_eq!(reg.remove_player(10), None);
    assert_eq!(reg.players.len(), 1);
    assert_eq!(reg.get_player_id_from_temp(20), Some(b));
    assert!(reg.get_player(a).is_none());
    let c = reg.add_player(10, "c".to_string(), &mut rot);
    assert_eq!(c, 2);
}

#[test]
fn all_players_except_keeps_order() {
    let mut reg = PlayerRegistry::new();
    let mut rot = SpawnRotation::default();
    reg.add_player(10, "a".to_string(), &mut rot);
    reg.add_player(20, "b".to_string(), &mut rot);
    reg.add_player(30, "c".to_string(), &mut rot);
    let others = reg.get_all_players_except(1);
    let ids: Vec<u64> = others.iter().map(|(id, _)| *id).collect();
    assert_eq!(ids, vec![0, 2]);
    assert_eq!(others[1].1.name, "c");
    assert_eq!(reg.get_all_players_except(9).len(), 3);
}

#[test]
fn user_data_round_trip() {
    let blob = name_to_user_data("Zoé");
    assert_eq!(&blob[..4], "Zoé".as_bytes());
    assert!(blob[4..].iter().all(|b| *b == 0));
    assert_eq!(extract_name_from_user_data(&blob), "Zoé");
}

#[test]
fn user_data_truncates_long_names() {
    let long: String = std::iter::repeat('x').take(300).collect();
    let blob = name_to_user_data(&long);
    assert!(blob.iter().all(|b| *b == b'x'));
    assert_eq!(extract_name_from_user_data(&blob).len(), 256);
}

#[test]
fn user_data_invalid_utf8_is_replaced() {
    let mut blob = [0u8; 256];
    blob[0] = b'a';
    blob[1] = 0xff;
    blob[2] = b'b';
    blob[4] = b'z';
    assert_eq!(extract_name_from_user_data(&blob), "a\u{FFFD}b");
}

#[test]
fn spawn_slots_come_from_the_rotation() {
    let mut reg = PlayerRegistry::new();
    let mut rot = SpawnRotation::default();
    let mut slots = Vec::new();
    for c in 0..8u64 {
        let id = reg.add_player(c, format!("p{}", c), &mut rot);
        slots.push(reg.get_spawn_index(id).unwrap());
    }
    assert_eq!(slots, vec![0, 1, 2, 3, 4, 5, 0, 1]);
    reg.remove_player(3);
    let id = reg.add_player(3, "again".to_string(), &mut rot);
    assert_eq!(reg.get_spawn_index(id), Some(2));
}
