use vstd::prelude::*;
use crate::map::{GameMap, TileType, TILE_MM};
use crate::player::{PlayerRegistry, PlayerState, Vec3};

verus! {

/// Length of one marching step, in millimetres.
pub const STEP_MM: u64 = 50;

/// Number of steps in the maximum range (1000 m).
pub const MAX_STEPS: u64 = 20000;

/// A point on the ray, in millimetres.
pub struct RayPoint {
    pub x: i64,
    pub y: i64,
    pub z: i64,
}

pub open spec fn sq_len(d: Vec3) -> int {
    d.x * d.x + d.y * d.y + d.z * d.z
}

/// `r` is the integer square root of `n`.
pub open spec fn is_isqrt(n: int, r: int) -> bool {
    0 <= r && r * r <= n < (r + 1) * (r + 1)
}

/// The integer square root of `n` (for `n >= 0`).
pub open spec fn isqrt(n: int) -> int {
    choose|r: int| is_isqrt(n, r)
}

/// Component `d` of the direction scaled to `k` steps of a ray of length
/// `len`, rounded toward zero.
pub open spec fn step_offset(d: int, k: int, len: int) -> int {
    if d >= 0 {
        (d * k * STEP_MM) / len
    } else {
        -(((-d) * k * STEP_MM) / len)
    }
}

/// The point that `k` steps along `d` (of length `len`) reach from `o`.
pub open spec fn ray_point(o: Vec3, d: Vec3, len: int, k: int) -> RayPoint {
    RayPoint {
        x: (o.x + step_offset(d.x as int, k, len)) as i64,
        y: (o.y + step_offset(d.y as int, k, len)) as i64,
        z: (o.z + step_offset(d.z as int, k, len)) as i64,
    }
}

/// The point is outside the map or inside a wall tile.
pub open spec fn blocked(map: GameMap, p: RayPoint) -> bool {
    p.x < 0 || p.z < 0 || p.x / TILE_MM >= map.width || p.z / TILE_MM >= map.height || map.tile(
        p.x / TILE_MM,
        p.z / TILE_MM,
    ) == TileType::Wall
}

/// `p` lies strictly inside the box centred at `c` with half extents `h`.
pub open spec fn in_box(p: RayPoint, cx: int, cy: int, cz: int, hx: int, hy: int, hz: int) -> bool {
    &&& -hx < p.x - cx < hx
    &&& -hy < p.y - cy < hy
    &&& -hz < p.z - cz < hz
}

/// The composite hitbox of a player whose reference point (the camera) is
/// at `pos`: chassis, turret and the two tracks.
pub open spec fn in_hitbox(p: RayPoint, pos: Vec3) -> bool {
    ||| in_box(p, pos.x as int, pos.y - 1300, pos.z as int, 600, 200, 900)
    ||| in_box(p, pos.x as int, pos.y - 900, pos.z as int, 400, 250, 400)
    ||| in_box(p, pos.x - 650, pos.y - 1300, pos.z as int, 75, 150, 900)
    ||| in_box(p, pos.x + 650, pos.y - 1300, pos.z as int, 75, 150, 900)
}

/// The first player of `s` from index `i` on, other than `shooter`, whose
/// hitbox holds `p`.
pub open spec fn target_from(s: Seq<PlayerState>, shooter: u64, p: RayPoint, i: int) -> Option<u64>
    decreases s.len() - i,
{
    if i < 0 || i >= s.len() {
        None
    } else if s[i].player_id != shooter && in_hitbox(p, s[i].position) {
        Some(s[i].player_id)
    } else {
        target_from(s, shooter, p, i + 1)
    }
}

/// What the ray hits from step `k` on: `None` when a wall or the map's edge
/// comes first or the range runs out.
pub open spec fn march(
    map: GameMap,
    s: Seq<PlayerState>,
    shooter: u64,
    o: Vec3,
    d: Vec3,
    len: int,
    k: int,
) -> Option<u64>
    decreases MAX_STEPS + 1 - k,
{
    if k < 1 || k > MAX_STEPS {
        None
    } else if blocked(map, ray_point(o, d, len, k)) {
        None
    } else {
        match target_from(s, shooter, ray_point(o, d, len, k), 0) {
            Some(id) => Some(id),
            None => march(map, s, shooter, o, d, len, k + 1),
        }
    }
}

/// The player that a shot from `o` along `d` by `shooter` hits, if any.
pub open spec fn shot_target(map: GameMap, s: Seq<PlayerState>, shooter: u64, o: Vec3, d: Vec3) -> Option<u64> {
    if sq_len(d) == 0 {
        None
    } else {
        march(map, s, shooter, o, d, isqrt(sq_len(d)), 1)
    }
}

proof fn lemma_isqrt_unique(n: int, a: int, b: int)
    requires
        is_isqrt(n, a),
        is_isqrt(n, b),
    ensures
        a == b,
{
    if a < b {
        assert((a + 1) * (a + 1) <= b * b) by (nonlinear_arith)
            requires
                0 <= a + 1 <= b,
        ;
    } else if b < a {
        assert((b + 1) * (b + 1) <= a * a) by (nonlinear_arith)
            requires
                0 <= b + 1 <= a,
        ;
    }
}

/// Integer square root by bisection.
fn int_sqrt(n: u64) -> (r: u64)
    ensures
        is_isqrt(n as int, r as int),
        r as int == isqrt(n as int),
{
    let mut lo: u64 = 0;
    let mut hi: u64 = 0x1_0000_0000;
    assert(n < hi * hi);
    while hi - lo > 1
        invariant
            lo < hi <= 0x1_0000_0000,
            lo * lo <= n,
            n < hi * hi,
        decreases hi - lo,
    {
        let mid = lo + (hi - lo) / 2;
        assert(mid * mid <= 0xffff_ffff * 0xffff_ffff) by (nonlinear_arith)
            requires
                mid < 0x1_0000_0000,
        ;
        if mid * mid <= n {
            lo = mid;
        } else {
            hi = mid;
        }
    }
    assert(hi == lo + 1);
    proof {
        lemma_isqrt_unique(n as int, lo as int, isqrt(n as int));
    }
    lo
}

fn offset_at(d: i32, k: u64, len: u64) -> (r: i64)
    requires
        1 <= k <= MAX_STEPS,
        len > 0,
    ensures
        r == step_offset(d as int, k as int, len as int),
{
    let m: u64 = if d >= 0 { d as u64 } else { (-(d as i64)) as u64 };
    assert(m * k * STEP_MM <= 0x8000_0000 * MAX_STEPS * STEP_MM) by (nonlinear_arith)
        requires
            m <= 0x8000_0000,
            k <= MAX_STEPS,
    ;
    let prod = m * k * STEP_MM;
    let q = prod / len;
    assert(q <= prod) by (nonlinear_arith)
        requires
            len > 0,
            q == prod / len,
    ;
    if d >= 0 {
        q as i64
    } else {
        -(q as i64)
    }
}

fn point_at(o: Vec3, d: Vec3, len: u64, k: u64) -> (r: RayPoint)
    requires
        1 <= k <= MAX_STEPS,
        len > 0,
    ensures
        r == ray_point(o, d, len as int, k as int),
        -0x10_0000_0000_0000 <= r.x <= 0x10_0000_0000_0000,
        -0x10_0000_0000_0000 <= r.y <= 0x10_0000_0000_0000,
        -0x10_0000_0000_0000 <= r.z <= 0x10_0000_0000_0000,
{
    let ox = offset_at(d.x, k, len);
    let oy = offset_at(d.y, k, len);
    let oz = offset_at(d.z, k, len);
    proof {
        lemma_offset_bound(d.x as int, k as int, len as int);
        lemma_offset_bound(d.y as int, k as int, len as int);
        lemma_offset_bound(d.z as int, k as int, len as int);
    }
    RayPoint { x: o.x as i64 + ox, y: o.y as i64 + oy, z: o.z as i64 + oz }
}

proof fn lemma_offset_bound(d: int, k: int, len: int)
    requires
        -0x8000_0000 <= d <= 0x8000_0000,
        1 <= k <= MAX_STEPS,
        len > 0,
    ensures
        -0x8000_0000 * MAX_STEPS * STEP_MM <= step_offset(d, k, len) <= 0x8000_0000 * MAX_STEPS
            * STEP_MM,
{
    let m = if d >= 0 { d } else { -d };
    assert(0 <= m * k * STEP_MM <= 0x8000_0000 * MAX_STEPS * STEP_MM) by (nonlinear_arith)
        requires
            0 <= m <= 0x8000_0000,
            1 <= k <= MAX_STEPS,
    ;
    assert(0 <= (m * k * STEP_MM) / len <= m * k * STEP_MM) by (nonlinear_arith)
        requires
            len > 0,
            0 <= m * k * STEP_MM,
    ;
}

fn is_blocked(map: &GameMap, p: &RayPoint) -> (r: bool)
    requires
        map.wf(),
    ensures
        r == blocked(*map, *p),
{
    if p.x < 0 || p.z < 0 {
        return true;
    }
    let tx = (p.x as u64) / (TILE_MM as u64);
    let tz = (p.z as u64) / (TILE_MM as u64);
    if tx >= map.width as u64 || tz >= map.height as u64 {
        return true;
    }
    map.tiles[tz as usize][tx as usize] == TileType::Wall
}

fn box_holds(p: &RayPoint, cx: i64, cy: i64, cz: i64, hx: i64, hy: i64, hz: i64) -> (r: bool)
    requires
        -0x10_0000_0000_0000 <= p.x <= 0x10_0000_0000_0000,
        -0x10_0000_0000_0000 <= p.y <= 0x10_0000_0000_0000,
        -0x10_0000_0000_0000 <= p.z <= 0x10_0000_0000_0000,
        -0x1_0000_0000 <= cx <= 0x1_0000_0000,
        -0x1_0000_0000 <= cy <= 0x1_0000_0000,
        -0x1_0000_0000 <= cz <= 0x1_0000_0000,
        0 <= hx <= 0x1_0000_0000,
        0 <= hy <= 0x1_0000_0000,
        0 <= hz <= 0x1_0000_0000,
    ensures
        r == in_box(*p, cx as int, cy as int, cz as int, hx as int, hy as int, hz as int),
{
    let dx = p.x - cx;
    let dy = p.y - cy;
    let dz = p.z - cz;
    -hx < dx && dx < hx && -hy < dy && dy < hy && -hz < dz && dz < hz
}

fn hitbox_holds(p: &RayPoint, pos: Vec3) -> (r: bool)
    requires
        -0x10_0000_0000_0000 <= p.x <= 0x10_0000_0000_0000,
        -0x10_0000_0000_0000 <= p.y <= 0x10_0000_0000_0000,
        -0x10_0000_0000_0000 <= p.z <= 0x10_0000_0000_0000,
    ensures
        r == in_hitbox(*p, pos),
{
    let x = pos.x as i64;
    let y = pos.y as i64;
    let z = pos.z as i64;
    box_holds(p, x, y - 1300, z, 600, 200, 900) || box_holds(p, x, y - 900, z, 400, 250, 400)
        || box_holds(p, x - 650, y - 1300, z, 75, 150, 900) || box_holds(
        p,
        x + 650,
        y - 1300,
        z,
        75,
        150,
        900,
    )
}

fn first_target(players: &Vec<PlayerState>, shooter: u64, p: &RayPoint) -> (r: Option<u64>)
    requires
        -0x10_0000_0000_0000 <= p.x <= 0x10_0000_0000_0000,
        -0x10_0000_0000_0000 <= p.y <= 0x10_0000_0000_0000,
        -0x10_0000_0000_0000 <= p.z <= 0x10_0000_0000_0000,
    ensures
        r == target_from(players@, shooter, *p, 0),
{
    let mut i: usize = 0;
    while i < players.len()
        invariant
            i <= players@.len(),
            target_from(players@, shooter, *p, 0) == target_from(players@, shooter, *p, i as int),
            -0x10_0000_0000_0000 <= p.x <= 0x10_0000_0000_0000,
            -0x10_0000_0000_0000 <= p.y <= 0x10_0000_0000_0000,
            -0x10_0000_0000_0000 <= p.z <= 0x10_0000_0000_0000,
        decreases players@.len() - i,
    {
        let st = &players[i];
        if st.player_id != shooter && hitbox_holds(p, st.position) {
            return Some(st.player_id);
        }
        i = i + 1;
    }
    None
}

/// Marches a shot by `shooter_id` from `origin` along `direction` in steps of
/// 5 cm up to the maximum range, and returns the first other player whose
/// hitbox a step lands in, unless a wall or the map's edge comes first.
pub fn find_hit(
    map: &GameMap,
    registry: &PlayerRegistry,
    shooter_id: u64,
    origin: Vec3,
    direction: Vec3,
) -> (r: Option<u64>)
    requires
        map.wf(),
    ensures
        r == shot_target(*map, registry.players@, shooter_id, origin, direction),
{
    let dx = direction.x as i64;
    let dy = direction.y as i64;
    let dz = direction.z as i64;
    assert(dx * dx <= 0x4000_0000_0000_0000 && dy * dy <= 0x4000_0000_0000_0000 && dz * dz
        <= 0x4000_0000_0000_0000) by (nonlinear_arith)
        requires
            -0x8000_0000 <= dx <= 0x8000_0000,
            -0x8000_0000 <= dy <= 0x8000_0000,
            -0x8000_0000 <= dz <= 0x8000_0000,
    ;
    assert(0 <= dx * dx && 0 <= dy * dy && 0 <= dz * dz) by (nonlinear_arith);
    let sq: u64 = (dx * dx) as u64 + (dy * dy) as u64 + (dz * dz) as u64;
    if sq == 0 {
        return None;
    }
    let len = int_sqrt(sq);
    if len == 0 {
        assert(sq < 1);
        return None;
    }
    let ghost s = registry.players@;
    let mut k: u64 = 1;
    while k <= MAX_STEPS
        invariant
            1 <= k <= MAX_STEPS + 1,
            map.wf(),
            len > 0,
            len == isqrt(sq_len(direction)),
            s == registry.players@,
            shot_target(*map, s, shooter_id, origin, direction) == march(
                *map,
                s,
                shooter_id,
                origin,
                direction,
                len as int,
                k as int,
            ),
        decreases MAX_STEPS + 1 - k,
    {
        let p = point_at(origin, direction, len, k);
        if is_blocked(map, &p) {
            return None;
        }
        if let Some(id) = first_target(&registry.players, shooter_id, &p) {
            return Some(id);
        }
        k = k + 1;
    }
    None
}

/// A shot whose ray is stopped at step `k` by a wall or the map's edge, with
/// no player's hitbox on any earlier step, hits no one, wherever the players
/// beyond that point stand.
pub proof fn lemma_wall_stops_shot(
    map: GameMap,
    s: Seq<PlayerState>,
    shooter: u64,
    o: Vec3,
    d: Vec3,
    k: int,
)
    requires
        sq_len(d) > 0,
        1 <= k <= MAX_STEPS,
        blocked(map, ray_point(o, d, isqrt(sq_len(d)), k)),
        forall|j: int|
            1 <= j < k ==> #[trigger] target_from(s, shooter, ray_point(o, d, isqrt(sq_len(d)), j), 0)
                is None,
    ensures
        shot_target(map, s, shooter, o, d) is None,
{
    lemma_march_stops(map, s, shooter, o, d, isqrt(sq_len(d)), 1, k);
}

proof fn lemma_march_stops(
    map: GameMap,
    s: Seq<PlayerState>,
    shooter: u64,
    o: Vec3,
    d: Vec3,
    len: int,
    j: int,
    k: int,
)
    requires
        1 <= j <= k <= MAX_STEPS,
        blocked(map, ray_point(o, d, len, k)),
        forall|i: int| 1 <= i < k ==> #[trigger] target_from(s, shooter, ray_point(o, d, len, i), 0) is None,
    ensures
        march(map, s, shooter, o, d, len, j) is None,
    decreases k - j,
{
    if j < k {
        assert(target_from(s, shooter, ray_point(o, d, len, j), 0) is None);
        lemma_march_stops(map, s, shooter, o, d, len, j + 1, k);
    }
}

} // verus!
