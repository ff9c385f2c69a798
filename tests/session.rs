use fps_core::hit::find_hit;
use fps_core::map::GameMap;
use fps_core::messages::{ClientMessage, ServerMessage};
use fps_core::player::{name_to_user_data, PlayerRegistry, Rotation, Vec3};
use fps_core::session::{
    handle_client_connected, handle_client_disconnected, handle_client_message, perform_raycast_hit,
    Recipient,
};
use fps_core::spawn::SpawnRotation;

fn v(x: i32, y: i32, z: i32) -> Vec3 {
    Vec3 { x, y, z }
}

struct World {
    reg: PlayerRegistry,
    rot: SpawnRotation,
    map: GameMap,
}

fn world() -> World {
    World { reg: PlayerRegistry::new(), rot: SpawnRotation::default(), map: GameMap::from_global() }
}

fn join(w: &mut World, client: u64, name: &str) -> u64 {
    handle_client_connected(&mut w.reg, &mut w.rot, client, &name_to_user_data(name)).unwrap().player_id
}

fn send(w: &mut World, client: u64, m: ClientMessage) -> Vec<(Recipient, ServerMessage)> {
    handle_client_message(&mut w.reg, &w.map, &mut w.rot, client, &m.to_bytes())
        .into_iter()
        .map(|o| (o.to, o.message))
        .collect()
}

fn place(w: &mut World, client: u64, p: Vec3) {
    send(w, client, ClientMessage::PlayerMovement { position: p, rotation: Rotation { yaw: 0, pitch: 0 } });
}

/// A at (3, 1.7, 12.5) m and B at (8, 1.7, 12.5) m, in an open row of the map.
fn duel() -> (World, u64, u64) {
    let mut w = world();
    let a = join(&mut w, 100, "A");
    let b = join(&mut w, 200, "B");
    place(&mut w, 100, v(3000, 1700, 12500));
    place(&mut w, 200, v(8000, 1700, 12500));
    (w, a, b)
}

fn shot_at_b() -> ClientMessage {
    ClientMessage::Shoot { position: v(3000, 1700, 12500), direction: v(5000, -900, 0) }
}

#[test]
fn connect_sends_roster_then_announces() {
    let mut w = world();
    let a = join(&mut w, 100, "A");
    let j = handle_client_connected(&mut w.reg, &mut w.rot, 200, &name_to_user_data("B")).unwrap();
    assert_eq!(j.player_id, a + 1);
    assert_eq!((j.map.spawn_x, j.map.spawn_z), (17500, 2500));
    assert_eq!(j.messages.len(), 2);
    assert_eq!(j.messages[0].to, Recipient::Only(200));
    assert_eq!(
        j.messages[0].message,
        ServerMessage::PlayerJoined { player_id: a, name: "A".to_string(), position: v(2500, 1700, 2500), health: 3, score: 0 }
    );
    assert_eq!(j.messages[1].to, Recipient::AllExcept(200));
    assert_eq!(
        j.messages[1].message,
        ServerMessage::PlayerJoined { player_id: a + 1, name: "B".to_string(), position: v(17500, 1700, 2500), health: 3, score: 0 }
    );
}

#[test]
fn duplicate_connection_is_refused() {
    let mut w = world();
    join(&mut w, 100, "A");
    assert!(handle_client_connected(&mut w.reg, &mut w.rot, 100, &name_to_user_data("again")).is_none());
    assert_eq!(w.reg.players.len(), 1);
}

#[test]
fn movement_is_relayed_to_others() {
    let mut w = world();
    let a = join(&mut w, 100, "A");
    join(&mut w, 200, "B");
    let out = send(&mut w, 100, ClientMessage::PlayerMovement { position: v(1, 2, 3), rotation: Rotation { yaw: 7, pitch: 8 } });
    assert_eq!(
        out,
        vec![(
            Recipient::AllExcept(100),
            ServerMessage::PlayerUpdate { player_id: a, position: v(1, 2, 3), rotation: Rotation { yaw: 7, pitch: 8 } }
        )]
    );
    assert_eq!(w.reg.get_player(a).unwrap().position, v(1, 2, 3));
}

#[test]
fn garbage_and_strangers_are_dropped() {
    let mut w = world();
    join(&mut w, 100, "A");
    assert!(handle_client_message(&mut w.reg, &w.map, &mut w.rot, 100, &[9, 9, 9]).is_empty());
    assert!(send(&mut w, 555, shot_at_b()).is_empty());
}

#[test]
fn shot_into_north_wall_misses() {
    let mut w = world();
    let a = join(&mut w, 100, "A");
    let b = join(&mut w, 200, "B");
    place(&mut w, 100, v(10000, 1700, 1000));
    place(&mut w, 200, v(5000, 1700, 5000));
    let out = send(&mut w, 100, ClientMessage::Shoot { position: v(10000, 1700, 1000), direction: v(-10000, -1700, 0) });
    assert!(out.is_empty());
    assert_eq!(w.reg.get_player(a).unwrap().health, 3);
    assert_eq!(w.reg.get_player(b).unwrap().health, 3);
}

#[test]
fn wall_shields_player_behind_it() {
    let mut w = world();
    join(&mut w, 100, "A");
    let b = join(&mut w, 200, "B");
    // Row 9 has walls in columns 9 and 10; B stands behind them.
    place(&mut w, 100, v(3000, 1700, 9500));
    place(&mut w, 200, v(15000, 1700, 9500));
    let out = send(&mut w, 100, ClientMessage::Shoot { position: v(3000, 1700, 9500), direction: v(12000, -900, 0) });
    assert!(out.is_empty());
    assert_eq!(w.reg.get_player(b).unwrap().health, 3);
}

#[test]
fn hit_broadcasts_damage() {
    let (mut w, a, b) = duel();
    let out = send(&mut w, 100, shot_at_b());
    assert_eq!(
        out,
        vec![(Recipient::All, ServerMessage::PlayerDamaged { player_id: b, new_health: 2, attacker_id: a })]
    );
    assert_eq!(w.reg.get_player(b).unwrap().health, 2);
}

#[test]
fn lethal_hit_sequence() {
    let (mut w, a, b) = duel();
    send(&mut w, 100, shot_at_b());
    send(&mut w, 100, shot_at_b());
    let next = w.rot.clone().get_next_spawn();
    let spawn = GameMap::from_global().with_spawn_position(next);
    let out = send(&mut w, 100, shot_at_b());
    let msgs: Vec<ServerMessage> = out.iter().map(|(_, m)| m.clone()).collect();
    assert!(out.iter().all(|(to, _)| *to == Recipient::All));
    assert_eq!(
        msgs,
        vec![
            ServerMessage::PlayerDamaged { player_id: b, new_health: 0, attacker_id: a },
            ServerMessage::PlayerDied { player_id: b, killer_id: a },
            ServerMessage::ScoreUpdate { player_id: a, new_score: 1 },
            ServerMessage::PlayerRespawned { player_id: b, position: v(spawn.spawn_x, 1700, spawn.spawn_z), health: 3 },
        ]
    );
    let bs = w.reg.get_player(b).unwrap();
    assert_eq!(bs.health, 3);
    assert_eq!(bs.position, v(spawn.spawn_x, 1700, spawn.spawn_z));
    assert_eq!(w.reg.get_player(a).unwrap().score, 1);
}

#[test]
fn kill_heals_the_killer() {
    let (mut w, a, b) = duel();
    w.reg.damage_player(a, 2);
    w.reg.damage_player(b, 2);
    send(&mut w, 100, shot_at_b());
    assert_eq!(w.reg.get_player(a).unwrap().health, 2);
}

#[test]
fn disconnect_announces_departure_once() {
    let mut w = world();
    let a = join(&mut w, 100, "A");
    let b = join(&mut w, 200, "B");
    join(&mut w, 300, "C");
    let out = handle_client_disconnected(&mut w.reg, 200);
    assert_eq!(out.len(), 1);
    assert_eq!(out[0].to, Recipient::All);
    assert_eq!(out[0].message, ServerMessage::PlayerLeft { player_id: b });
    assert!(handle_client_disconnected(&mut w.reg, 200).is_empty());
    assert!(send(&mut w, 200, ClientMessage::PlayerMovement { position: v(0, 0, 0), rotation: Rotation { yaw: 0, pitch: 0 } }).is_empty());
    let out = send(&mut w, 100, ClientMessage::PlayerMovement { position: v(1, 1, 1), rotation: Rotation { yaw: 0, pitch: 0 } });
    assert_eq!(out.len(), 1);
    match &out[0].1 {
        ServerMessage::PlayerUpdate { player_id, .. } => assert_eq!(*player_id, a),
        other => panic!("unexpected {:?}", other),
    }
}

#[test]
fn shooter_is_never_its_own_target() {
    let (mut w, a, _b) = duel();
    place(&mut w, 200, v(15000, 1700, 15000));
    // Straight down through the shooter's own hitbox.
    let hit = find_hit(&w.map, &w.reg, a, v(3000, 1700, 12500), v(0, -1, 0));
    assert_eq!(hit, None);
}

#[test]
fn zero_direction_hits_nothing() {
    let (w, a, _b) = duel();
    assert_eq!(find_hit(&w.map, &w.reg, a, v(3000, 1700, 12500), v(0, 0, 0)), None);
}

#[test]
fn direction_scale_does_not_matter() {
    let (w, a, b) = duel();
    assert_eq!(find_hit(&w.map, &w.reg, a, v(3000, 1700, 12500), v(5, 0, 0)), None);
    assert_eq!(find_hit(&w.map, &w.reg, a, v(3000, 1700, 12500), v(50, -9, 0)), Some(b));
    assert_eq!(find_hit(&w.map, &w.reg, a, v(3000, 1700, 12500), v(5_000_000, -900_000, 0)), Some(b));
}

#[test]
fn raycast_reports_messages_without_transport() {
    let (mut w, a, b) = duel();
    let out = perform_raycast_hit(a, v(3000, 1700, 12500), v(5000, -900, 0), &mut w.reg, &w.map, &mut w.rot);
    assert_eq!(out, vec![ServerMessage::PlayerDamaged { player_id: b, new_health: 2, attacker_id: a }]);
}
