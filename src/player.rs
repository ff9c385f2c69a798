use vstd::prelude::*;
use vstd::utf8::{valid_utf8, decode_utf8, encode_utf8};
use vstd::string::StringSliceAdditionalSpecFns;
use crate::spawn::SpawnRotation;

verus! {

/// Health of a fresh or respawned player, and the cap on healing.
pub const MAX_HEALTH: u8 = 3;

/// Score awarded for a kill.
pub const KILL_REWARD: u32 = 1;

/// A point or a vector in world space, in millimetres.
#[derive(Debug, Clone, Copy, PartialEq, Eq, Structural)]
pub struct Vec3 {
    pub x: i32,
    pub y: i32,
    pub z: i32,
}

/// Orientation reported by a client (yaw, pitch), in milliradians.
#[derive(Debug, Clone, Copy, PartialEq, Eq, Structural)]
pub struct Rotation {
    pub yaw: i32,
    pub pitch: i32,
}

/// Everything the server knows of one connected player.
#[derive(Debug)]
pub struct PlayerState {
    pub player_id: u64,
    pub connection_id: u64,
    pub name: String,
    pub position: Vec3,
    pub rotation: Rotation,
    pub health: u8,
    pub score: u32,
    pub spawn_index: usize,
}

/// The authoritative table of connected players, in order of arrival.
#[derive(Debug)]
pub struct PlayerRegistry {
    pub players: Vec<PlayerState>,
    pub next_id: u64,
}

pub open spec fn origin() -> Vec3 {
    Vec3 { x: 0, y: 0, z: 0 }
}

/// The players of `s` other than `exclude`, in order.
pub open spec fn players_except(s: Seq<PlayerState>, exclude: u64) -> Seq<PlayerState>
    decreases s.len(),
{
    if s.len() == 0 {
        seq![]
    } else if s.last().player_id != exclude {
        players_except(s.drop_last(), exclude).push(s.last())
    } else {
        players_except(s.drop_last(), exclude)
    }
}

pub open spec fn healed(h: u8, amount: u8) -> u8 {
    if h as int + amount as int >= MAX_HEALTH as int {
        MAX_HEALTH
    } else {
        (h + amount) as u8
    }
}

pub open spec fn damaged(h: u8, amount: u8) -> u8 {
    if h >= amount {
        (h - amount) as u8
    } else {
        0
    }
}

pub open spec fn with_kill(score: u32) -> u32 {
    if score as int + KILL_REWARD as int > u32::MAX as int {
        u32::MAX
    } else {
        (score + KILL_REWARD) as u32
    }
}

pub open spec fn seq_has(s: Seq<PlayerState>, id: u64) -> bool {
    exists|i: int| 0 <= i < s.len() && #[trigger] s[i].player_id == id
}

/// Position of player `id` in `s` (meaningful when `seq_has(s, id)`).
pub open spec fn seq_index(s: Seq<PlayerState>, id: u64) -> int {
    choose|i: int| 0 <= i < s.len() && #[trigger] s[i].player_id == id
}

/// State of player `id` in `s` (meaningful when `seq_has(s, id)`).
pub open spec fn seq_player(s: Seq<PlayerState>, id: u64) -> PlayerState {
    s[seq_index(s, id)]
}

/// `s` after player `id` moved to `position` facing `rotation`.
pub open spec fn seq_move(s: Seq<PlayerState>, id: u64, position: Vec3, rotation: Rotation) -> Seq<
    PlayerState,
> {
    if seq_has(s, id) {
        s.update(seq_index(s, id), PlayerState { position, rotation, ..seq_player(s, id) })
    } else {
        s
    }
}

/// `s` after player `id` took `amount` damage.
pub open spec fn seq_damage(s: Seq<PlayerState>, id: u64, amount: u8) -> Seq<PlayerState> {
    if seq_has(s, id) {
        s.update(
            seq_index(s, id),
            PlayerState { health: damaged(seq_player(s, id).health, amount), ..seq_player(s, id) },
        )
    } else {
        s
    }
}

/// `s` after player `id` was healed by `amount`.
pub open spec fn seq_heal(s: Seq<PlayerState>, id: u64, amount: u8) -> Seq<PlayerState> {
    if seq_has(s, id) {
        s.update(
            seq_index(s, id),
            PlayerState { health: healed(seq_player(s, id).health, amount), ..seq_player(s, id) },
        )
    } else {
        s
    }
}

/// `s` after player `id` respawned at `position`.
pub open spec fn seq_respawn(s: Seq<PlayerState>, id: u64, position: Vec3) -> Seq<PlayerState> {
    if seq_has(s, id) {
        s.update(
            seq_index(s, id),
            PlayerState { health: MAX_HEALTH, position, ..seq_player(s, id) },
        )
    } else {
        s
    }
}

/// `s` after player `id` was credited with a kill.
pub open spec fn seq_kill(s: Seq<PlayerState>, id: u64) -> Seq<PlayerState> {
    if seq_has(s, id) {
        s.update(
            seq_index(s, id),
            PlayerState { score: with_kill(seq_player(s, id).score), ..seq_player(s, id) },
        )
    } else {
        s
    }
}

/// Tables with the same ids at the same places, the ids unique in the first:
/// each player is in both or in neither, and at the same place.
pub proof fn lemma_ids_kept(a: Seq<PlayerState>, b: Seq<PlayerState>)
    requires
        a.len() == b.len(),
        forall|i: int| 0 <= i < a.len() ==> #[trigger] b[i].player_id == a[i].player_id,
        forall|i: int, j: int|
            0 <= i < j < a.len() ==> #[trigger] a[i].player_id < #[trigger] a[j].player_id,
    ensures
        forall|id: u64| #[trigger] seq_has(b, id) == seq_has(a, id),
        forall|id: u64| seq_has(a, id) ==> #[trigger] seq_index(b, id) == seq_index(a, id),
{
    assert forall|id: u64| #[trigger] seq_has(b, id) == seq_has(a, id) by {
        if seq_has(a, id) {
            let k = seq_index(a, id);
            assert(b[k].player_id == id);
        }
        if seq_has(b, id) {
            let k = seq_index(b, id);
            assert(a[k].player_id == id);
        }
    }
    assert forall|id: u64| seq_has(a, id) implies #[trigger] seq_index(b, id) == seq_index(a, id) by {
        let k = seq_index(a, id);
        assert(b[k].player_id == id);
        let k2 = seq_index(b, id);
        assert(a[k2].player_id == id);
        if k < k2 {
            assert(a[k].player_id < a[k2].player_id);
        } else if k2 < k {
            assert(a[k2].player_id < a[k].player_id);
        }
    }
}

impl PlayerRegistry {
    /// Ids increase in order of arrival (so they are unique and below
    /// `next_id`), connections are unique, and health is at most the maximum.
    pub open spec fn wf(&self) -> bool {
        &&& forall|i: int, j: int|
            0 <= i < j < self.players@.len() ==> #[trigger] self.players@[i].player_id
                < #[trigger] self.players@[j].player_id
        &&& forall|i: int, j: int|
            0 <= i < j < self.players@.len() ==> #[trigger] self.players@[i].connection_id
                != #[trigger] self.players@[j].connection_id
        &&& forall|i: int|
            0 <= i < self.players@.len() ==> #[trigger] self.players@[i].player_id < self.next_id
        &&& forall|i: int|
            0 <= i < self.players@.len() ==> #[trigger] self.players@[i].health <= MAX_HEALTH
    }

    pub open spec fn has_player(&self, id: u64) -> bool {
        seq_has(self.players@, id)
    }

    /// Position of player `id` in the table (meaningful when `has_player(id)`).
    pub open spec fn index_of(&self, id: u64) -> int {
        seq_index(self.players@, id)
    }

    pub open spec fn has_connection(&self, c: u64) -> bool {
        exists|i: int|
            0 <= i < self.players@.len() && #[trigger] self.players@[i].connection_id == c
    }

    pub open spec fn index_of_connection(&self, c: u64) -> int {
        choose|i: int|
            0 <= i < self.players@.len() && #[trigger] self.players@[i].connection_id == c
    }

    /// State of player `id` (meaningful when `has_player(id)`).
    pub open spec fn player(&self, id: u64) -> PlayerState {
        self.players@[self.index_of(id)]
    }

    pub fn new() -> (r: PlayerRegistry)
        ensures
            r.wf(),
            r.players@.len() == 0,
            r.next_id == 0,
    {
        PlayerRegistry { players: Vec::new(), next_id: 0 }
    }

    fn find_player(&self, id: u64) -> (r: Option<usize>)
        requires
            self.wf(),
        ensures
            r is None <==> !self.has_player(id),
            r matches Some(i) ==> i == self.index_of(id) && i < self.players@.len(),
    {
        let mut i: usize = 0;
        while i < self.players.len()
            invariant
                self.wf(),
                i <= self.players@.len(),
                forall|k: int| 0 <= k < i ==> #[trigger] self.players@[k].player_id != id,
            decreases self.players@.len() - i,
        {
            if self.players[i].player_id == id {
                proof {
                    assert(self.has_player(id));
                    let j = self.index_of(id);
                    if j != i {
                        if j < i {
                            assert(self.players@[j].player_id < self.players@[i as int].player_id);
                        } else {
                            assert(self.players@[i as int].player_id < self.players@[j].player_id);
                        }
                    }
                }
                return Some(i);
            }
            i = i + 1;
        }
        None
    }

    fn find_connection(&self, c: u64) -> (r: Option<usize>)
        requires
            self.wf(),
        ensures
            r is None <==> !self.has_connection(c),
            r matches Some(i) ==> i == self.index_of_connection(c) && i < self.players@.len(),
    {
        let mut i: usize = 0;
        while i < self.players.len()
            invariant
                self.wf(),
                i <= self.players@.len(),
                forall|k: int| 0 <= k < i ==> #[trigger] self.players@[k].connection_id != c,
            decreases self.players@.len() - i,
        {
            if self.players[i].connection_id == c {
                proof {
                    assert(self.has_connection(c));
                    let j = self.index_of_connection(c);
                    if j != i {
                        if j < i {
                            assert(self.players@[j].connection_id
                                != self.players@[i as int].connection_id);
                        } else {
                            assert(self.players@[i as int].connection_id
                                != self.players@[j].connection_id);
                        }
                    }
                }
                return Some(i);
            }
            i = i + 1;
        }
        None
    }
    /// Registers a newly connected player under the next id, with full
    /// health, no score, and the spawn slot that `spawn_rotation` hands out
    /// next.
    pub fn add_player(
        &mut self,
        connection_id: u64,
        name: String,
        spawn_rotation: &mut SpawnRotation,
    ) -> (r: u64)
        requires
            old(self).wf(),
            old(spawn_rotation).wf(),
            old(self).next_id < u64::MAX,
            !old(self).has_connection(connection_id),
        ensures
            final(self).wf(),
            final(spawn_rotation).wf(),
            *final(spawn_rotation) == old(spawn_rotation).advanced(),
            old(spawn_rotation).next_pick() < old(spawn_rotation).spawn_count,
            r == old(self).next_id,
            final(self).next_id == old(self).next_id + 1,
            final(self).has_player(r),
            final(self).index_of(r) == old(self).players@.len(),
            final(self).has_connection(connection_id),
            final(self).index_of_connection(connection_id) == old(self).players@.len(),
            final(self).players@ == old(self).players@.push(
                PlayerState {
                    player_id: r,
                    connection_id,
                    name,
                    position: origin(),
                    rotation: Rotation { yaw: 0, pitch: 0 },
                    health: MAX_HEALTH,
                    score: 0,
                    spawn_index: old(spawn_rotation).next_pick(),
                },
            ),
    {
        let player_id = self.next_id;
        self.next_id = self.next_id + 1;
        let spawn_index = spawn_rotation.get_next_spawn();
        let state = PlayerState {
            player_id,
            connection_id,
            name,
            position: Vec3 { x: 0, y: 0, z: 0 },
            rotation: Rotation { yaw: 0, pitch: 0 },
            health: MAX_HEALTH,
            score: 0,
            spawn_index,
        };
        self.players.push(state);
        proof {
            let n = old(self).players@.len() as int;
            assert(self.players@[n].player_id == player_id);
            assert(self.players@[n].connection_id == connection_id);
            let k = self.index_of(player_id);
            if k != n {
                assert(self.players@[k] == old(self).players@[k]);
            }
            let c = self.index_of_connection(connection_id);
            if c != n {
                assert(self.players@[c] == old(self).players@[c]);
            }
            assert forall|i: int| 0 <= i < old(self).players@.len() implies !(
            #[trigger] self.players@[i].connection_id == connection_id) by {
                assert(self.players@[i] == old(self).players@[i]);
            }
        }
        player_id
    }

    /// The spawn slot recorded for player `player_id`, if connected.
    pub fn get_spawn_index(&self, player_id: u64) -> (r: Option<usize>)
        requires
            self.wf(),
        ensures
            r == (if self.has_player(player_id) {
                Some(self.player(player_id).spawn_index)
            } else {
                None
            }),
    {
        match self.find_player(player_id) {
            Some(i) => Some(self.players[i].spawn_index),
            None => None,
        }
    }

    /// The player id mapped to transport connection `temp_id`, if any.
    pub fn get_player_id_from_temp(&self, temp_id: u64) -> (r: Option<u64>)
        requires
            self.wf(),
        ensures
            r == (if self.has_connection(temp_id) {
                Some(self.players@[self.index_of_connection(temp_id)].player_id)
            } else {
                None
            }),
    {
        match self.find_connection(temp_id) {
            Some(i) => Some(self.players[i].player_id),
            None => None,
        }
    }

    /// The state of player `player_id`, if connected.
    pub fn get_player(&self, player_id: u64) -> (r: Option<&PlayerState>)
        requires
            self.wf(),
        ensures
            r is None <==> !self.has_player(player_id),
            r matches Some(st) ==> *st == self.player(player_id),
    {
        match self.find_player(player_id) {
            Some(i) => Some(&self.players[i]),
            None => None,
        }
    }

    /// Overwrites the position and orientation of player `player_id`; no
    /// effect when the player is unknown. Positions are taken as the client
    /// reports them: there is no check of speed or geometry.
    pub fn update_player_position(&mut self, player_id: u64, position: Vec3, rotation: Rotation)
        requires
            old(self).wf(),
        ensures
            final(self).wf(),
            final(self).next_id == old(self).next_id,
            final(self).players@ == seq_move(old(self).players@, player_id, position, rotation),
            forall|id: u64| #[trigger] final(self).has_player(id) == old(self).has_player(id),
            forall|id: u64|
                old(self).has_player(id) ==> #[trigger] final(self).index_of(id) == old(self).index_of(id),
    {
        if let Some(i) = self.find_player(player_id) {
            self.players[i].position = position;
            self.players[i].rotation = rotation;
        }
        proof {
            lemma_ids_kept(old(self).players@, self.players@);
        }
    }

    /// The players other than `exclude_id`, in order, each with its id.
    pub fn get_all_players_except(&self, exclude_id: u64) -> (r: Vec<(u64, &PlayerState)>)
        ensures
            r@.len() == players_except(self.players@, exclude_id).len(),
            forall|k: int|
                0 <= k < r@.len() ==> (#[trigger] r@[k]).0 == r@[k].1.player_id && *r@[k].1
                    == players_except(self.players@, exclude_id)[k],
    {
        let mut out: Vec<(u64, &PlayerState)> = Vec::new();
        let mut i: usize = 0;
        while i < self.players.len()
            invariant
                i <= self.players@.len(),
                out@.len() == players_except(self.players@.take(i as int), exclude_id).len(),
                forall|k: int|
                    0 <= k < out@.len() ==> (#[trigger] out@[k]).0 == out@[k].1.player_id
                        && *out@[k].1 == players_except(self.players@.take(i as int), exclude_id)[k],
            decreases self.players@.len() - i,
        {
            let st = &self.players[i];
            assert(self.players@.take(i + 1).drop_last() =~= self.players@.take(i as int));
            if st.player_id != exclude_id {
                out.push((st.player_id, st));
            }
            i = i + 1;
        }
        assert(self.players@.take(i as int) =~= self.players@);
        out
    }

    /// Removes the player mapped to transport connection `temp_id` and
    /// returns its id; no effect when there is none.
    pub fn remove_player(&mut self, temp_id: u64) -> (r: Option<u64>)
        requires
            old(self).wf(),
        ensures
            final(self).wf(),
            final(self).next_id == old(self).next_id,
            r == (if old(self).has_connection(temp_id) {
                Some(old(self).players@[old(self).index_of_connection(temp_id)].player_id)
            } else {
                None
            }),
            final(self).players@ == (if old(self).has_connection(temp_id) {
                old(self).players@.remove(old(self).index_of_connection(temp_id))
            } else {
                old(self).players@
            }),
    {
        match self.find_connection(temp_id) {
            Some(i) => {
                let st = self.players.remove(i);
                proof {
                    assert forall|a: int, b: int|
                        0 <= a < b < self.players@.len() implies #[trigger] self.players@[a].player_id
                        < #[trigger] self.players@[b].player_id && self.players@[a].connection_id
                        != self.players@[b].connection_id by {
                        let a0 = if a < i { a } else { a + 1 };
                        let b0 = if b < i { b } else { b + 1 };
                        assert(self.players@[a] == old(self).players@[a0]);
                        assert(self.players@[b] == old(self).players@[b0]);
                        assert(old(self).players@[a0].player_id < old(self).players@[b0].player_id);
                        assert(old(self).players@[a0].connection_id
                            != old(self).players@[b0].connection_id);
                    }
                    assert forall|a: int| 0 <= a < self.players@.len() implies #[trigger] self.players@[a].player_id
                        < self.next_id && self.players@[a].health <= MAX_HEALTH by {
                        let a0 = if a < i { a } else { a + 1 };
                        assert(self.players@[a] == old(self).players@[a0]);
                    }
                }
                Some(st.player_id)
            },
            None => None,
        }
    }

    /// Takes `amount` from the health of player `player_id`, stopping at 0;
    /// returns the new health and whether it is 0, or `None` for an unknown
    /// player.
    pub fn damage_player(&mut self, player_id: u64, amount: u8) -> (r: Option<(u8, bool)>)
        requires
            old(self).wf(),
        ensures
            final(self).wf(),
            final(self).next_id == old(self).next_id,
            r == (if old(self).has_player(player_id) {
                Some(
                    (
                        damaged(old(self).player(player_id).health, amount),
                        damaged(old(self).player(player_id).health, amount) == 0,
                    ),
                )
            } else {
                None
            }),
            final(self).players@ == seq_damage(old(self).players@, player_id, amount),
            forall|id: u64| #[trigger] final(self).has_player(id) == old(self).has_player(id),
            forall|id: u64|
                old(self).has_player(id) ==> #[trigger] final(self).index_of(id) == old(self).index_of(id),
    {
        let r = match self.find_player(player_id) {
            Some(i) => {
                let h = self.players[i].health.saturating_sub(amount);
                self.players[i].health = h;
                Some((h, h == 0))
            },
            None => None,
        };
        proof {
            lemma_ids_kept(old(self).players@, self.players@);
        }
        r
    }

    /// Adds `amount` to the health of player `player_id`, capped at the
    /// maximum; no effect when the player is unknown.
    pub fn heal_player(&mut self, player_id: u64, amount: u8)
        requires
            old(self).wf(),
        ensures
            final(self).wf(),
            final(self).next_id == old(self).next_id,
            final(self).players@ == seq_heal(old(self).players@, player_id, amount),
            forall|id: u64| #[trigger] final(self).has_player(id) == old(self).has_player(id),
            forall|id: u64|
                old(self).has_player(id) ==> #[trigger] final(self).index_of(id) == old(self).index_of(id),
    {
        if let Some(i) = self.find_player(player_id) {
            let h = self.players[i].health.saturating_add(amount);
            self.players[i].health = if h > MAX_HEALTH { MAX_HEALTH } else { h };
        }
        proof {
            lemma_ids_kept(old(self).players@, self.players@);
        }
    }

    /// Restores player `player_id` to full health at `position`; no effect
    /// when the player is unknown.
    pub fn respawn_player(&mut self, player_id: u64, position: Vec3)
        requires
            old(self).wf(),
        ensures
            final(self).wf(),
            final(self).next_id == old(self).next_id,
            final(self).players@ == seq_respawn(old(self).players@, player_id, position),
            forall|id: u64| #[trigger] final(self).has_player(id) == old(self).has_player(id),
            forall|id: u64|
                old(self).has_player(id) ==> #[trigger] final(self).index_of(id) == old(self).index_of(id),
    {
        if let Some(i) = self.find_player(player_id) {
            self.players[i].health = MAX_HEALTH;
            self.players[i].position = position;
        }
        proof {
            lemma_ids_kept(old(self).players@, self.players@);
        }
    }

    /// Credits player `player_id` with a kill (the score saturates); no
    /// effect when the player is unknown.
    pub fn add_kill(&mut self, player_id: u64)
        requires
            old(self).wf(),
        ensures
            final(self).wf(),
            final(self).next_id == old(self).next_id,
            final(self).players@ == seq_kill(old(self).players@, player_id),
            forall|id: u64| #[trigger] final(self).has_player(id) == old(self).has_player(id),
            forall|id: u64|
                old(self).has_player(id) ==> #[trigger] final(self).index_of(id) == old(self).index_of(id),
    {
        if let Some(i) = self.find_player(player_id) {
            self.players[i].score = self.players[i].score.saturating_add(KILL_REWARD);
        }
        proof {
            lemma_ids_kept(old(self).players@, self.players@);
        }
    }
}

/// Size of the opaque blob a client hands over at connect time.
pub const USER_DATA_SIZE: usize = 256;

/// What `String::from_utf8_lossy` makes of a byte string.
pub uninterp spec fn lossy_text(b: Seq<u8>) -> Seq<char>;

/// Relies on `String::from_utf8_lossy`: the result depends on the bytes alone,
/// and valid UTF-8 is decoded as it stands.
#[verifier::external_body]
fn decode_lossy(b: &[u8]) -> (r: String)
    ensures
        r@ == lossy_text(b@),
        valid_utf8(b@) ==> r@ == decode_utf8(b@),
{
    String::from_utf8_lossy(b).into_owned()
}

/// Index of the first zero byte of `d` at or after `i`, or the length.
pub open spec fn zero_from(d: Seq<u8>, i: int) -> int
    decreases d.len() - i,
{
    if i >= d.len() {
        d.len() as int
    } else if d[i] == 0 {
        i
    } else {
        zero_from(d, i + 1)
    }
}

/// The display name carried in a connect blob: the bytes before the first
/// zero, decoded leniently.
pub open spec fn name_in_user_data(d: Seq<u8>) -> Seq<char> {
    lossy_text(d.take(zero_from(d, 0)))
}

/// The connect blob that carries `name`: its UTF-8 bytes, cut at the blob's
/// size, then zeros.
pub open spec fn user_data_of(name: Seq<char>) -> Seq<u8> {
    let b = encode_utf8(name);
    Seq::new(
        USER_DATA_SIZE as nat,
        |i: int|
            if i < b.len() {
                b[i]
            } else {
                0u8
            },
    )
}

/// Reads the display name out of a connect blob.
pub fn extract_name_from_user_data(user_data: &[u8; 256]) -> (r: String)
    ensures
        r@ == name_in_user_data(user_data@),
        valid_utf8(user_data@.take(zero_from(user_data@, 0))) ==> r@ == decode_utf8(
            user_data@.take(zero_from(user_data@, 0)),
        ),
{
    let mut bytes: Vec<u8> = Vec::new();
    let mut i: usize = 0;
    while i < USER_DATA_SIZE && user_data[i] != 0
        invariant
            i <= USER_DATA_SIZE,
            user_data@.len() == USER_DATA_SIZE,
            zero_from(user_data@, 0) == zero_from(user_data@, i as int),
            bytes@ == user_data@.take(i as int),
        decreases USER_DATA_SIZE - i,
    {
        bytes.push(user_data[i]);
        assert(user_data@.take(i + 1) =~= user_data@.take(i as int).push(user_data@[i as int]));
        i = i + 1;
    }
    decode_lossy(bytes.as_slice())
}

/// Builds the connect blob that carries `name`.
pub fn name_to_user_data(name: &str) -> (r: [u8; 256])
    ensures
        r@ == user_data_of(name@),
{
    let mut user_data = [0u8; 256];
    let bytes = name.as_bytes();
    let len = if bytes.len() < USER_DATA_SIZE { bytes.len() } else { USER_DATA_SIZE };
    let mut i: usize = 0;
    while i < len
        invariant
            i <= len,
            len <= USER_DATA_SIZE,
            len <= bytes@.len(),
            bytes@ == name.spec_bytes(),
            len == bytes@.len() || len == USER_DATA_SIZE,
            user_data@.len() == USER_DATA_SIZE,
            forall|k: int| 0 <= k < i ==> user_data@[k] == bytes@[k],
            forall|k: int| i <= k < USER_DATA_SIZE ==> user_data@[k] == 0,
        decreases len - i,
    {
        user_data[i] = bytes[i];
        i = i + 1;
    }
    assert(user_data@ =~= user_data_of(name@));
    user_data
}

} // verus!
