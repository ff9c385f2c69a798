use vstd::prelude::*;
use crate::hit::{
    blocked, find_hit, isqrt, lemma_wall_stops_shot, ray_point, shot_target, sq_len, target_from,
    MAX_STEPS,
};
use crate::map::{
    global_digit, spawn_point, spawn_point_at, tile_of_digit, GameMap, SPAWN_COUNT, SPAWN_HEIGHT,
};
use crate::messages::{parse_client, ClientMessage, ServerMessage, ServerMessageView};
use crate::player::{
    damaged, extract_name_from_user_data, name_in_user_data, seq_damage, seq_has, seq_heal,
    lemma_ids_kept, seq_index, seq_kill, seq_move, seq_player, seq_respawn, PlayerRegistry, PlayerState, Rotation, Vec3,
    MAX_HEALTH,
};
use crate::spawn::SpawnRotation;

verus! {

/// Where fixed spawn point `index` (taken modulo their number) puts a player.
pub open spec fn spawn_position(index: int) -> Vec3 {
    Vec3 {
        x: spawn_point(index % (SPAWN_COUNT as int)).0,
        y: SPAWN_HEIGHT,
        z: spawn_point(index % (SPAWN_COUNT as int)).1,
    }
}

pub open spec fn views(v: Seq<ServerMessage>) -> Seq<ServerMessageView> {
    v.map_values(|m: ServerMessage| m@)
}

/// The players, the spawn rotation and the broadcast messages after a shot.
pub struct ShotOutcome {
    pub players: Seq<PlayerState>,
    pub rotation: SpawnRotation,
    pub messages: Seq<ServerMessageView>,
}

/// The effect of a shot by `shooter` that hit `target`: one point of damage;
/// on death, the death, the killer's heal and kill credit with its new score,
/// and an immediate respawn of the victim at the next spawn point.
pub open spec fn shot_outcome(
    s: Seq<PlayerState>,
    rot: SpawnRotation,
    shooter: u64,
    target: Option<u64>,
) -> ShotOutcome {
    match target {
        Some(victim) if seq_has(s, victim) => {
            let h = damaged(seq_player(s, victim).health, 1);
            let s1 = seq_damage(s, victim, 1);
            let hurt = ServerMessageView::PlayerDamaged {
                player_id: victim,
                new_health: h,
                attacker_id: shooter,
            };
            if h != 0 {
                ShotOutcome { players: s1, rotation: rot, messages: seq![hurt] }
            } else {
                let s2 = seq_kill(seq_heal(s1, shooter, 1), shooter);
                let score = if seq_has(s2, shooter) {
                    seq![
                        ServerMessageView::ScoreUpdate {
                            player_id: shooter,
                            new_score: seq_player(s2, shooter).score,
                        },
                    ]
                } else {
                    seq![]
                };
                let pos = spawn_position(rot.next_pick() as int);
                ShotOutcome {
                    players: seq_respawn(s2, victim, pos),
                    rotation: rot.advanced(),
                    messages: seq![
                        hurt,
                        ServerMessageView::PlayerDied { player_id: victim, killer_id: shooter },
                    ] + score + seq![
                        ServerMessageView::PlayerRespawned {
                            player_id: victim,
                            position: pos,
                            health: MAX_HEALTH,
                        },
                    ],
                }
            }
        },
        _ => ShotOutcome { players: s, rotation: rot, messages: seq![] },
    }
}

/// Resolves a shot by `shooter_id` from `start` along `direction`: finds
/// what it hits, applies the damage and any death and respawn, and returns
/// the messages to broadcast to every client, in order.
pub fn perform_raycast_hit(
    shooter_id: u64,
    start: Vec3,
    direction: Vec3,
    players: &mut PlayerRegistry,
    map: &GameMap,
    spawn_rotation: &mut SpawnRotation,
) -> (r: Vec<ServerMessage>)
    requires
        old(players).wf(),
        old(spawn_rotation).wf(),
        map.wf(),
    ensures
        final(players).wf(),
        final(spawn_rotation).wf(),
        final(players).next_id == old(players).next_id,
        ({
            let out = shot_outcome(
                old(players).players@,
                *old(spawn_rotation),
                shooter_id,
                shot_target(*map, old(players).players@, shooter_id, start, direction),
            );
            &&& final(players).players@ == out.players
            &&& *final(spawn_rotation) == out.rotation
            &&& views(r@) == out.messages
        }),
{
    let mut out: Vec<ServerMessage> = Vec::new();
    let hit = find_hit(map, players, shooter_id, start, direction);
    let hit_id = match hit {
        Some(id) => id,
        None => {
            assert(views(out@) =~= seq![]);
            return out;
        },
    };
    let (new_health, is_dead) = match players.damage_player(hit_id, 1) {
        Some(res) => res,
        None => {
            assert(views(out@) =~= seq![]);
            return out;
        },
    };
    out.push(ServerMessage::PlayerDamaged { player_id: hit_id, new_health, attacker_id: shooter_id });
    if !is_dead {
        assert(views(out@) =~= shot_outcome(
            old(players).players@,
            *old(spawn_rotation),
            shooter_id,
            hit,
        ).messages);
        return out;
    }
    out.push(ServerMessage::PlayerDied { player_id: hit_id, killer_id: shooter_id });
    players.heal_player(shooter_id, 1);
    players.add_kill(shooter_id);
    if let Some(killer) = players.get_player(shooter_id) {
        out.push(ServerMessage::ScoreUpdate { player_id: shooter_id, new_score: killer.score });
    }
    let spawn_index = spawn_rotation.get_next_spawn();
    let (sx, sz) = spawn_point_at(spawn_index % SPAWN_COUNT);
    let spawn_pos = Vec3 { x: sx, y: SPAWN_HEIGHT, z: sz };
    players.respawn_player(hit_id, spawn_pos);
    out.push(ServerMessage::PlayerRespawned { player_id: hit_id, position: spawn_pos, health: MAX_HEALTH });
    assert(views(out@) =~= shot_outcome(
        old(players).players@,
        *old(spawn_rotation),
        shooter_id,
        hit,
    ).messages);
    out
}

/// A shot whose ray reaches a wall (or the map's edge) at step `k`, with no
/// player's hitbox on an earlier step, produces no damage nor any other
/// message and changes nothing, wherever the players beyond the wall stand.
pub proof fn lemma_wall_blocked_shot_is_harmless(
    map: GameMap,
    s: Seq<PlayerState>,
    rot: SpawnRotation,
    shooter: u64,
    o: Vec3,
    d: Vec3,
    k: int,
)
    requires
        sq_len(d) > 0,
        1 <= k <= MAX_STEPS,
        blocked(map, ray_point(o, d, isqrt(sq_len(d)), k)),
        forall|j: int|
            1 <= j < k ==> #[trigger] target_from(s, shooter, ray_point(o, d, isqrt(sq_len(d)), j), 0)
                is None,
    ensures
        ({
            let out = shot_outcome(s, rot, shooter, shot_target(map, s, shooter, o, d));
            &&& out.messages.len() == 0
            &&& out.players == s
            &&& out.rotation == rot
        }),
{
    lemma_wall_stops_shot(map, s, shooter, o, d, k);
}

/// A shot that takes its victim from 1 health to 0 produces exactly one
/// death message and, after it, exactly one respawn message, at full health.
pub proof fn lemma_lethal_shot_messages(
    s: Seq<PlayerState>,
    rot: SpawnRotation,
    shooter: u64,
    victim: u64,
)
    requires
        seq_has(s, victim),
        seq_player(s, victim).health == 1,
    ensures
        ({
            let m = shot_outcome(s, rot, shooter, Some(victim)).messages;
            &&& m.len() >= 3
            &&& m[1] == ServerMessageView::PlayerDied { player_id: victim, killer_id: shooter }
            &&& m[m.len() - 1] is PlayerRespawned
            &&& m[m.len() - 1]->PlayerRespawned_player_id == victim
            &&& m[m.len() - 1]->PlayerRespawned_health == MAX_HEALTH
            &&& forall|i: int| 0 <= i < m.len() ==> ((#[trigger] m[i] is PlayerDied) <==> i == 1)
            &&& forall|i: int|
                0 <= i < m.len() ==> ((#[trigger] m[i] is PlayerRespawned) <==> i == m.len() - 1)
        }),
{
}

/// A table in which every player is alive stays so through any shot: a
/// lethal hit is undone by the respawn at full health in the same step.
pub proof fn lemma_shot_leaves_no_one_dead(
    reg: PlayerRegistry,
    rot: SpawnRotation,
    shooter: u64,
    target: Option<u64>,
)
    requires
        reg.wf(),
        forall|i: int| 0 <= i < reg.players@.len() ==> #[trigger] reg.players@[i].health > 0,
    ensures
        ({
            let out = shot_outcome(reg.players@, rot, shooter, target);
            &&& out.players.len() == reg.players@.len()
            &&& forall|i: int| 0 <= i < out.players.len() ==> #[trigger] out.players[i].health > 0
        }),
{
    let s = reg.players@;
    if let Some(victim) = target {
        if seq_has(s, victim) {
            let k = seq_index(s, victim);
            let h = damaged(seq_player(s, victim).health, 1);
            let s1 = seq_damage(s, victim, 1);
            if h == 0 {
                let s2a = seq_heal(s1, shooter, 1);
                let s2 = seq_kill(s2a, shooter);
                assert forall|i: int| 0 <= i < s.len() && i != k implies #[trigger] s2[i].health
                    >= s[i].health by {
                    if seq_has(s1, shooter) {
                        let k2 = seq_index(s1, shooter);
                        assert(s2a[k2].health >= s1[k2].health);
                    }
                }
                lemma_ids_kept(s, s1);
                lemma_ids_kept(s, s2a);
                lemma_ids_kept(s, s2);
            }
        }
    }
}

/// A shot by registered player `shooter` that takes `victim` (another
/// player) from 1 health to 0 produces, in order: the damage to 0, the death
/// credited to the shooter, the shooter's score raised by one, and the
/// victim's respawn at full health at the spawn point the rotation hands out
/// next. The score cannot rise past its largest value, so the shooter's score
/// is below it.
pub proof fn lemma_lethal_shot_sequence(
    reg: PlayerRegistry,
    rot: SpawnRotation,
    shooter: u64,
    victim: u64,
)
    requires
        reg.wf(),
        shooter != victim,
        reg.has_player(shooter),
        reg.has_player(victim),
        reg.player(victim).health == 1,
        reg.player(shooter).score < u32::MAX,
    ensures
        shot_outcome(reg.players@, rot, shooter, Some(victim)).messages == seq![
            ServerMessageView::PlayerDamaged { player_id: victim, new_health: 0, attacker_id: shooter },
            ServerMessageView::PlayerDied { player_id: victim, killer_id: shooter },
            ServerMessageView::ScoreUpdate {
                player_id: shooter,
                new_score: (reg.player(shooter).score + 1) as u32,
            },
            ServerMessageView::PlayerRespawned {
                player_id: victim,
                position: spawn_position(rot.next_pick() as int),
                health: MAX_HEALTH,
            },
        ],
        shot_outcome(reg.players@, rot, shooter, Some(victim)).rotation == rot.advanced(),
{
    let s = reg.players@;
    let s1 = seq_damage(s, victim, 1);
    let s2a = seq_heal(s1, shooter, 1);
    let s2 = seq_kill(s2a, shooter);
    lemma_ids_kept(s, s1);
    lemma_ids_kept(s, s2a);
    lemma_ids_kept(s, s2);
    let ks = seq_index(s, shooter);
    let kv = seq_index(s, victim);
    assert(ks != kv);
    assert(s1[ks] == s[ks]);
    assert(s2a[ks].score == s[ks].score);
    assert(seq_player(s2, shooter).score == s[ks].score + 1);
    let m = shot_outcome(s, rot, shooter, Some(victim)).messages;
    assert(m =~= seq![
        ServerMessageView::PlayerDamaged { player_id: victim, new_health: 0, attacker_id: shooter },
        ServerMessageView::PlayerDied { player_id: victim, killer_id: shooter },
        ServerMessageView::ScoreUpdate {
            player_id: shooter,
            new_score: (reg.player(shooter).score + 1) as u32,
        },
        ServerMessageView::PlayerRespawned {
            player_id: victim,
            position: spawn_position(rot.next_pick() as int),
            health: MAX_HEALTH,
        },
    ]);
}

/// Which clients a message goes to, by transport connection id.
#[derive(Debug, Clone, Copy, PartialEq, Eq, Structural)]
pub enum Recipient {
    All,
    AllExcept(u64),
    Only(u64),
}

/// A message and the clients it goes to.
#[derive(Debug)]
pub struct Outgoing {
    pub to: Recipient,
    pub message: ServerMessage,
}

pub open spec fn outgoing_views(v: Seq<Outgoing>) -> Seq<(Recipient, ServerMessageView)> {
    v.map_values(|o: Outgoing| (o.to, o.message@))
}

/// Every message of `m`, to every client.
pub open spec fn to_all(m: Seq<ServerMessageView>) -> Seq<(Recipient, ServerMessageView)> {
    m.map_values(|v: ServerMessageView| (Recipient::All, v))
}

/// How a connected player is announced to a client.
pub open spec fn joined_view(p: PlayerState) -> ServerMessageView {
    ServerMessageView::PlayerJoined {
        player_id: p.player_id,
        name: p.name@,
        position: p.position,
        health: p.health,
        score: p.score,
    }
}

/// The roster sent to a joining client: every player already there, in order.
pub open spec fn roster(s: Seq<PlayerState>, client: u64) -> Seq<(Recipient, ServerMessageView)> {
    s.map_values(|p: PlayerState| (Recipient::Only(client), joined_view(p)))
}

/// What a joining client is told besides the map, and the map it gets.
pub struct Join {
    pub player_id: u64,
    pub map: GameMap,
    pub messages: Vec<Outgoing>,
}

/// Registers the client that connected on `client_id` with the name carried
/// in `user_data`, at the next spawn point of the rotation. The joiner is to
/// be sent `map` first and then `messages`: the roster of the players already
/// there, and, to everyone else, the joiner's arrival. `None` (and no change)
/// when the connection is already registered or no player id is left.
pub fn handle_client_connected(
    registry: &mut PlayerRegistry,
    spawn_rotation: &mut SpawnRotation,
    client_id: u64,
    user_data: &[u8; 256],
) -> (r: Option<Join>)
    requires
        old(registry).wf(),
        old(spawn_rotation).wf(),
    ensures
        final(registry).wf(),
        final(spawn_rotation).wf(),
        r is None <==> (old(registry).has_connection(client_id) || old(registry).next_id
            == u64::MAX),
        r is None ==> *final(registry) == *old(registry) && *final(spawn_rotation) == *old(
            spawn_rotation,
        ),
        r matches Some(j) ==> {
            let s = old(registry).players@;
            let pos = spawn_position(old(spawn_rotation).next_pick() as int);
            let me = final(registry).players@.last();
            &&& j.player_id == old(registry).next_id
            &&& *final(spawn_rotation) == old(spawn_rotation).advanced()
            &&& j.map.has_global_layout()
            &&& j.map.spawn_x == pos.x && j.map.spawn_z == pos.z
            &&& final(registry).next_id == old(registry).next_id + 1
            &&& final(registry).players@.len() == s.len() + 1
            &&& final(registry).players@.drop_last() == s
            &&& me.player_id == j.player_id
            &&& me.connection_id == client_id
            &&& me.name@ == name_in_user_data(user_data@)
            &&& me.position == pos
            &&& me.rotation == (Rotation { yaw: 0, pitch: 0 })
            &&& me.health == MAX_HEALTH
            &&& me.score == 0
            &&& me.spawn_index == old(spawn_rotation).next_pick()
            &&& outgoing_views(j.messages@) == roster(s, client_id) + seq![
                (Recipient::AllExcept(client_id), joined_view(me)),
            ]
        },
{
    if registry.get_player_id_from_temp(client_id).is_some() || registry.next_id == u64::MAX {
        return None;
    }
    let ghost s = registry.players@;
    let mut messages: Vec<Outgoing> = Vec::new();
    let mut i: usize = 0;
    while i < registry.players.len()
        invariant
            registry.players@ == s,
            i <= s.len(),
            outgoing_views(messages@) == roster(s.take(i as int), client_id),
        decreases s.len() - i,
    {
        let p = &registry.players[i];
        messages.push(
            Outgoing {
                to: Recipient::Only(client_id),
                message: ServerMessage::PlayerJoined {
                    player_id: p.player_id,
                    name: p.name.clone(),
                    position: p.position,
                    health: p.health,
                    score: p.score,
                },
            },
        );
        assert(s.take(i + 1) =~= s.take(i as int).push(s[i as int]));
        assert(outgoing_views(messages@).last() == (Recipient::Only(client_id), joined_view(s[i as int])));
        assert(roster(s.take(i + 1), client_id) =~= roster(s.take(i as int), client_id).push((Recipient::Only(client_id), joined_view(s[i as int]))));
        assert(outgoing_views(messages@) =~= roster(s.take(i + 1), client_id));
        i = i + 1;
    }
    assert(s.take(i as int) =~= s);
    let name = extract_name_from_user_data(user_data);
    let announced = name.clone();
    let player_id = registry.add_player(client_id, name, spawn_rotation);
    let spawn_index = registry.get_spawn_index(player_id).unwrap();
    let global = GameMap::from_global();
    let ghost global_map = global;
    let map = global.with_spawn_position(spawn_index);
    let position = Vec3 { x: map.spawn_x, y: SPAWN_HEIGHT, z: map.spawn_z };
    let rotation = Rotation { yaw: 0, pitch: 0 };
    let ghost added = registry.players@;
    registry.update_player_position(player_id, position, rotation);
    proof {
        assert(added[s.len() as int].player_id == player_id);
        assert(registry.has_player(player_id));
        let k = registry.index_of(player_id);
        if k != s.len() {
            assert(added[k].player_id < player_id);
        }
        assert(registry.players@.drop_last() =~= s);
    }
    messages.push(
        Outgoing {
            to: Recipient::AllExcept(client_id),
            message: ServerMessage::PlayerJoined {
                player_id,
                name: announced,
                position,
                health: MAX_HEALTH,
                score: 0,
            },
        },
    );
    assert(outgoing_views(messages@) =~= roster(s, client_id) + seq![
        (Recipient::AllExcept(client_id), joined_view(registry.players@.last())),
    ]);
    proof {
        assert(map.has_global_layout()) by {
            assert forall|x: int, y: int| 0 <= x < 20 && 0 <= y < 20 implies #[trigger] map.tile(x, y) == tile_of_digit(global_digit(x as u32, y)) by {
                assert(global_map.tile(x, y) == tile_of_digit(global_digit(x as u32, y)));
            }
        }
    }
    Some(Join { player_id, map, messages })
}

/// Handles the departure of the client on `client_id`: everyone still
/// connected is told that its player left, then the player is removed. No
/// message and no change for an unknown connection.
pub fn handle_client_disconnected(registry: &mut PlayerRegistry, client_id: u64) -> (r: Vec<Outgoing>)
    requires
        old(registry).wf(),
    ensures
        final(registry).wf(),
        final(registry).next_id == old(registry).next_id,
        final(registry).players@ == (if old(registry).has_connection(client_id) {
            old(registry).players@.remove(old(registry).index_of_connection(client_id))
        } else {
            old(registry).players@
        }),
        outgoing_views(r@) == (if old(registry).has_connection(client_id) {
            seq![
                (
                    Recipient::All,
                    ServerMessageView::PlayerLeft {
                        player_id: old(registry).players@[old(registry).index_of_connection(
                            client_id,
                        )].player_id,
                    },
                ),
            ]
        } else {
            seq![]
        }),
{
    let mut out: Vec<Outgoing> = Vec::new();
    if let Some(player_id) = registry.get_player_id_from_temp(client_id) {
        out.push(Outgoing { to: Recipient::All, message: ServerMessage::PlayerLeft { player_id } });
        registry.remove_player(client_id);
    }
    assert(outgoing_views(out@) =~= (if old(registry).has_connection(client_id) {
        seq![
            (
                Recipient::All,
                ServerMessageView::PlayerLeft {
                    player_id: old(registry).players@[old(registry).index_of_connection(
                        client_id,
                    )].player_id,
                },
            ),
        ]
    } else {
        seq![]
    }));
    out
}

/// Handles one message received from the client on `client_id`. A movement
/// overwrites the sender's position and orientation (trusted as reported) and
/// is relayed to every other client; a shot is resolved and its consequences go to every client.
/// Malformed messages, and messages from an unknown connection, are dropped.
pub fn handle_client_message(
    registry: &mut PlayerRegistry,
    map: &GameMap,
    spawn_rotation: &mut SpawnRotation,
    client_id: u64,
    bytes: &[u8],
) -> (r: Vec<Outgoing>)
    requires
        old(registry).wf(),
        old(spawn_rotation).wf(),
        map.wf(),
    ensures
        final(registry).wf(),
        final(spawn_rotation).wf(),
        final(registry).next_id == old(registry).next_id,
        ({
            let s = old(registry).players@;
            let pid = s[old(registry).index_of_connection(client_id)].player_id;
            if !old(registry).has_connection(client_id) || parse_client(bytes@) is None {
                &&& final(registry).players@ == s
                &&& *final(spawn_rotation) == *old(spawn_rotation)
                &&& r@.len() == 0
            } else {
                match parse_client(bytes@).unwrap() {
                    ClientMessage::PlayerMovement { position, rotation } => {
                        &&& final(registry).players@ == seq_move(s, pid, position, rotation)
                        &&& *final(spawn_rotation) == *old(spawn_rotation)
                        &&& outgoing_views(r@) == seq![
                            (
                                Recipient::AllExcept(client_id),
                                ServerMessageView::PlayerUpdate { player_id: pid, position, rotation },
                            ),
                        ]
                    },
                    ClientMessage::Shoot { position, direction } => {
                        let out = shot_outcome(
                            s,
                            *old(spawn_rotation),
                            pid,
                            shot_target(*map, s, pid, position, direction),
                        );
                        &&& final(registry).players@ == out.players
                        &&& *final(spawn_rotation) == out.rotation
                        &&& outgoing_views(r@) == to_all(out.messages)
                    },
                }
            }
        }),
{
    let mut out: Vec<Outgoing> = Vec::new();
    let player_id = match registry.get_player_id_from_temp(client_id) {
        Some(id) => id,
        None => return out,
    };
    let msg = match ClientMessage::from_bytes(bytes) {
        Some(m) => m,
        None => return out,
    };
    match msg {
        ClientMessage::PlayerMovement { position, rotation } => {
            registry.update_player_position(player_id, position, rotation);
            out.push(
                Outgoing {
                    to: Recipient::AllExcept(client_id),
                    message: ServerMessage::PlayerUpdate { player_id, position, rotation },
                },
            );
            assert(outgoing_views(out@) =~= seq![
                (
                    Recipient::AllExcept(client_id),
                    ServerMessageView::PlayerUpdate { player_id, position, rotation },
                ),
            ]);
        },
        ClientMessage::Shoot { position, direction } => {
            let mut events = perform_raycast_hit(
                player_id,
                position,
                direction,
                registry,
                map,
                spawn_rotation,
            );
            let ghost ev = views(events@);
            while events.len() > 0
                invariant
                    outgoing_views(out@) + to_all(views(events@)) == to_all(ev),
                decreases events@.len(),
            {
                let ghost before = events@;
                let m = events.remove(0);
                out.push(Outgoing { to: Recipient::All, message: m });
                assert(views(before) =~= seq![m@] + views(events@));
                assert(to_all(views(before)) =~= seq![(Recipient::All, m@)] + to_all(views(events@)));
                assert(outgoing_views(out@) =~= outgoing_views(out@.drop_last()).push((Recipient::All, m@)));
            }
            assert(outgoing_views(out@) =~= to_all(ev));
        },
    }
    out
}

} // verus!
