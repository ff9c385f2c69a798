use vstd::prelude::*;

verus! {

/// One cell of the level grid.
#[derive(Debug, Clone, Copy, PartialEq, Eq, Structural)]
pub enum TileType {
    Floor,
    Wall,
}

/// Millimetres in one tile side.
pub const TILE_MM: i64 = 1000;

/// Largest admissible map side, in tiles; keeps every coordinate in `i32`.
pub const MAX_SIDE: usize = 1_000_000;

/// Height of a spawned player's reference point (the camera), in millimetres.
pub const SPAWN_HEIGHT: i32 = 1700;

/// Number of fixed spawn points.
pub const SPAWN_COUNT: usize = 6;

/// Spawn coordinate (both `x` and `z`) of the built-in level's anchor: the
/// first fixed spawn point.
pub const DEFAULT_SPAWN: i32 = 2500;

/// Spawn coordinate (both `x` and `z`) taken by a random draw on a map without
/// any clear cell.
pub const FALLBACK_SPAWN: i32 = 10000;

/// Multiplier and increment of the linear congruential step that picks a
/// random spawn cell.
pub const LCG_MUL: u64 = 6364136223846793005;

pub const LCG_INC: u64 = 1442695040888963407;

pub open spec fn tile_of_digit(d: u8) -> TileType {
    if d == 1 {
        TileType::Wall
    } else {
        TileType::Floor
    }
}

impl TileType {
    /// `1` is a wall; every other digit is floor.
    pub fn from_digit(d: u8) -> (r: TileType)
        ensures
            r == tile_of_digit(d),
    {
        if d == 1 {
            TileType::Wall
        } else {
            TileType::Floor
        }
    }
}

/// The built-in level: one bit per tile, bit `x` of row `y` set for a wall.
pub open spec fn global_row_bits(y: int) -> u32 {
    if y == 0 || y == 19 {
        0xfffff
    } else if y == 3 || y == 17 {
        0x83fe1
    } else if (4 <= y <= 7) || (14 <= y <= 16) {
        0x82021
    } else if 8 <= y <= 11 {
        0x80601
    } else {
        0x80001
    }
}

/// The digit (0 floor, 1 wall) of the built-in level at column `x`, row `y`.
pub open spec fn global_digit(x: u32, y: int) -> u8 {
    ((global_row_bits(y) >> x) & 1u32) as u8
}

fn global_row(y: usize) -> (r: u32)
    ensures
        r == global_row_bits(y as int),
{
    if y == 0 || y == 19 {
        0xfffff
    } else if y == 3 || y == 17 {
        0x83fe1
    } else if (4 <= y && y <= 7) || (14 <= y && y <= 16) {
        0x82021
    } else if 8 <= y && y <= 11 {
        0x80601
    } else {
        0x80001
    }
}

/// The fixed spawn points, as `(x, z)` in millimetres; on the built-in level
/// each lies in a floor cell with floor on its four sides (see
/// `lemma_spawn_points_clear`).
pub open spec fn spawn_point(i: int) -> (i32, i32) {
    if i == 0 {
        (2500, 2500)
    } else if i == 1 {
        (17500, 2500)
    } else if i == 2 {
        (2500, 17500)
    } else if i == 3 {
        (17500, 17500)
    } else if i == 4 {
        (2500, 10000)
    } else {
        (17500, 10000)
    }
}

pub fn spawn_point_at(i: usize) -> (r: (i32, i32))
    requires
        i < SPAWN_COUNT,
    ensures
        r == spawn_point(i as int),
{
    if i == 0 {
        (2500, 2500)
    } else if i == 1 {
        (17500, 2500)
    } else if i == 2 {
        (2500, 17500)
    } else if i == 3 {
        (17500, 17500)
    } else if i == 4 {
        (2500, 10000)
    } else {
        (17500, 10000)
    }
}

/// The step of the generator that picks a random spawn cell.
pub open spec fn lcg_next(seed: u64) -> u64 {
    seed.wrapping_mul(LCG_MUL).wrapping_add(LCG_INC)
}

/// The level: a row-major grid of tiles and one spawn anchor, in millimetres.
#[derive(Debug, Clone)]
pub struct GameMap {
    pub width: usize,
    pub height: usize,
    pub tiles: Vec<Vec<TileType>>,
    pub spawn_x: i32,
    pub spawn_z: i32,
}

impl GameMap {
    pub open spec fn wf(&self) -> bool {
        &&& 0 < self.width <= MAX_SIDE
        &&& 0 < self.height <= MAX_SIDE
        &&& self.tiles@.len() == self.height
        &&& forall|y: int| 0 <= y < self.height ==> #[trigger] self.tiles@[y]@.len() == self.width
    }

    pub open spec fn tile(&self, x: int, y: int) -> TileType {
        self.tiles@[y]@[x]
    }

    pub open spec fn is_floor(&self, x: int, y: int) -> bool {
        self.tile(x, y) == TileType::Floor
    }

    /// A floor cell away from the border with floor on its four sides.
    pub open spec fn is_clear_cell(&self, x: int, y: int) -> bool {
        &&& 1 <= x && x + 1 < self.width
        &&& 1 <= y && y + 1 < self.height
        &&& self.is_floor(x, y)
        &&& self.is_floor(x, y - 1)
        &&& self.is_floor(x, y + 1)
        &&& self.is_floor(x - 1, y)
        &&& self.is_floor(x + 1, y)
    }

    /// Clear cells among the first `n` cells of row `y`, left to right.
    pub open spec fn clear_cells_in_row(&self, y: int, n: int) -> Seq<(usize, usize)>
        decreases n,
    {
        if n <= 0 {
            seq![]
        } else if self.is_clear_cell(n - 1, y) {
            self.clear_cells_in_row(y, n - 1).push(((n - 1) as usize, y as usize))
        } else {
            self.clear_cells_in_row(y, n - 1)
        }
    }

    /// Clear cells of the rows above row `y`, in row-major order.
    pub open spec fn clear_cells_above(&self, y: int) -> Seq<(usize, usize)>
        decreases y,
    {
        if y <= 0 {
            seq![]
        } else {
            self.clear_cells_above(y - 1) + self.clear_cells_in_row(y - 1, self.width as int)
        }
    }

    /// Every clear cell of the map, in row-major order.
    pub open spec fn clear_cells(&self) -> Seq<(usize, usize)> {
        self.clear_cells_above(self.height as int)
    }

    /// The same map with its spawn anchor moved to `(x, z)`.
    pub open spec fn respawned_at(&self, x: i32, z: i32) -> GameMap {
        GameMap { spawn_x: x, spawn_z: z, ..*self }
    }

    /// The map is well formed and has the built-in 20 x 20 layout.
    pub open spec fn has_global_layout(&self) -> bool {
        &&& self.wf()
        &&& self.width == 20
        &&& self.height == 20
        &&& forall|x: int, y: int|
            0 <= x < 20 && 0 <= y < 20 ==> #[trigger] self.tile(x, y) == tile_of_digit(
                global_digit(x as u32, y),
            )
    }

    /// The built-in 20 x 20 level, spawn anchor at the first fixed spawn
    /// point, a clear cell.
    pub fn from_global() -> (r: GameMap)
        ensures
            r.has_global_layout(),
            r.spawn_x == DEFAULT_SPAWN,
            r.spawn_z == DEFAULT_SPAWN,
            r.is_clear_cell(r.spawn_x as int / TILE_MM as int, r.spawn_z as int / TILE_MM as int),
    {
        let height: usize = 20;
        let width: usize = 20;
        let mut tiles: Vec<Vec<TileType>> = Vec::new();
        let mut y: usize = 0;
        while y < height
            invariant
                y <= height,
                height == 20,
                width == 20,
                tiles@.len() == y,
                forall|j: int| 0 <= j < y ==> #[trigger] tiles@[j]@.len() == width,
                forall|i: int, j: int|
                    0 <= i < 20 && 0 <= j < y ==> #[trigger] tiles@[j]@[i] == tile_of_digit(
                        global_digit(i as u32, j),
                    ),
            decreases height - y,
        {
            let bits = global_row(y);
            let mut row: Vec<TileType> = Vec::new();
            let mut x: usize = 0;
            while x < width
                invariant
                    x <= width,
                    width == 20,
                    bits == global_row_bits(y as int),
                    row@.len() == x,
                    forall|i: int|
                        0 <= i < x ==> #[trigger] row@[i] == tile_of_digit(
                            global_digit(i as u32, y as int),
                        ),
                decreases width - x,
            {
                let d = ((bits >> (x as u32)) & 1u32) as u8;
                row.push(TileType::from_digit(d));
                x = x + 1;
            }
            tiles.push(row);
            y = y + 1;
        }
        let r = GameMap { width, height, tiles, spawn_x: DEFAULT_SPAWN, spawn_z: DEFAULT_SPAWN };
        proof {
            lemma_spawn_points_clear(r, 0);
        }
        r
    }

    /// The spawn anchor that a random draw `seed` picks: the centre of clear
    /// cell number `lcg_next(seed) % n` of the `n` clear cells, or the
    /// fallback when there is none.
    pub open spec fn random_spawn(&self, seed: u64) -> (i32, i32) {
        let cells = self.clear_cells();
        if cells.len() == 0 {
            (FALLBACK_SPAWN, FALLBACK_SPAWN)
        } else {
            let c = cells[(lcg_next(seed) % (cells.len() as u64)) as int];
            ((c.0 * TILE_MM + TILE_MM / 2) as i32, (c.1 * TILE_MM + TILE_MM / 2) as i32)
        }
    }

    fn is_clear_at(&self, x: usize, y: usize) -> (r: bool)
        requires
            self.wf(),
            x < self.width,
            y < self.height,
        ensures
            r == self.is_clear_cell(x as int, y as int),
    {
        if x < 1 || x + 1 >= self.width || y < 1 || y + 1 >= self.height {
            return false;
        }
        self.tiles[y][x] == TileType::Floor && self.tiles[y - 1][x] == TileType::Floor
            && self.tiles[y + 1][x] == TileType::Floor && self.tiles[y][x - 1] == TileType::Floor
            && self.tiles[y][x + 1] == TileType::Floor
    }

    /// Moves the spawn anchor to a clear cell picked by the random draw `seed`
    /// (see `random_spawn`).
    pub fn with_random_spawn(self, seed: u64) -> (r: GameMap)
        requires
            self.wf(),
        ensures
            r == self.respawned_at(self.random_spawn(seed).0, self.random_spawn(seed).1),
    {
        let mut cells: Vec<(usize, usize)> = Vec::new();
        let mut y: usize = 0;
        while y < self.height
            invariant
                self.wf(),
                y <= self.height,
                cells@ == self.clear_cells_above(y as int),
                forall|i: int|
                    0 <= i < cells@.len() ==> (#[trigger] cells@[i]).0 < self.width
                        && cells@[i].1 < self.height,
            decreases self.height - y,
        {
            let mut x: usize = 0;
            while x < self.width
                invariant
                    self.wf(),
                    y < self.height,
                    x <= self.width,
                    cells@ == self.clear_cells_above(y as int) + self.clear_cells_in_row(
                        y as int,
                        x as int,
                    ),
                    forall|i: int|
                        0 <= i < cells@.len() ==> (#[trigger] cells@[i]).0 < self.width
                            && cells@[i].1 < self.height,
                decreases self.width - x,
            {
                if self.is_clear_at(x, y) {
                    cells.push((x, y));
                }
                proof {
                    assert(self.clear_cells_in_row(y as int, x + 1) =~= (if self.is_clear_cell(
                        x as int,
                        y as int,
                    ) {
                        self.clear_cells_in_row(y as int, x as int).push((x, y))
                    } else {
                        self.clear_cells_in_row(y as int, x as int)
                    }));
                }
                x = x + 1;
            }
            y = y + 1;
        }
        let ghost target = self.random_spawn(seed);
        if cells.len() == 0 {
            GameMap { spawn_x: FALLBACK_SPAWN, spawn_z: FALLBACK_SPAWN, ..self }
        } else {
            let draw = seed.wrapping_mul(LCG_MUL).wrapping_add(LCG_INC);
            let k = (draw % (cells.len() as u64)) as usize;
            let (cx, cy) = cells[k];
            proof {
                assert(cells@[k as int] == self.clear_cells()[k as int]);
            }
            let sx = (cx as i64 * TILE_MM + TILE_MM / 2) as i32;
            let sz = (cy as i64 * TILE_MM + TILE_MM / 2) as i32;
            GameMap { spawn_x: sx, spawn_z: sz, ..self }
        }
    }

    /// Moves the spawn anchor to fixed spawn point `spawn_index` (taken modulo
    /// the number of spawn points).
    pub fn with_spawn_position(self, spawn_index: usize) -> (r: GameMap)
        ensures
            r == self.respawned_at(
                spawn_point((spawn_index % SPAWN_COUNT) as int).0,
                spawn_point((spawn_index % SPAWN_COUNT) as int).1,
            ),
    {
        let (x, z) = spawn_point_at(spawn_index % SPAWN_COUNT);
        GameMap { spawn_x: x, spawn_z: z, ..self }
    }
}

/// The digits around the fixed spawn points of the built-in level.
proof fn lemma_spawn_neighbourhood_digits()
    ensures
        global_digit(2u32, 2) == 0,
        global_digit(2u32, 1) == 0,
        global_digit(2u32, 3) == 0,
        global_digit(1u32, 2) == 0,
        global_digit(3u32, 2) == 0,
        global_digit(17u32, 2) == 0,
        global_digit(17u32, 1) == 0,
        global_digit(17u32, 3) == 0,
        global_digit(16u32, 2) == 0,
        global_digit(18u32, 2) == 0,
        global_digit(2u32, 17) == 0,
        global_digit(2u32, 16) == 0,
        global_digit(2u32, 18) == 0,
        global_digit(1u32, 17) == 0,
        global_digit(3u32, 17) == 0,
        global_digit(17u32, 17) == 0,
        global_digit(17u32, 16) == 0,
        global_digit(17u32, 18) == 0,
        global_digit(16u32, 17) == 0,
        global_digit(18u32, 17) == 0,
        global_digit(2u32, 10) == 0,
        global_digit(2u32, 9) == 0,
        global_digit(2u32, 11) == 0,
        global_digit(1u32, 10) == 0,
        global_digit(3u32, 10) == 0,
        global_digit(17u32, 10) == 0,
        global_digit(17u32, 9) == 0,
        global_digit(17u32, 11) == 0,
        global_digit(16u32, 10) == 0,
        global_digit(18u32, 10) == 0,
{
    let a = 0x80001u32;
    let b = 0x83fe1u32;
    let c = 0x82021u32;
    let d = 0x80601u32;
    assert(a >> 1u32 & 1u32 == 0 && a >> 2u32 & 1u32 == 0 && a >> 3u32 & 1u32 == 0 && a >> 16u32
        & 1u32 == 0 && a >> 17u32 & 1u32 == 0 && a >> 18u32 & 1u32 == 0) by (bit_vector)
        requires
            a == 0x80001u32,
    ;
    assert(b >> 1u32 & 1u32 == 0 && b >> 2u32 & 1u32 == 0 && b >> 3u32 & 1u32 == 0 && b >> 16u32
        & 1u32 == 0 && b >> 17u32 & 1u32 == 0 && b >> 18u32 & 1u32 == 0) by (bit_vector)
        requires
            b == 0x83fe1u32,
    ;
    assert(c >> 2u32 & 1u32 == 0 && c >> 17u32 & 1u32 == 0) by (bit_vector)
        requires
            c == 0x82021u32,
    ;
    assert(d >> 1u32 & 1u32 == 0 && d >> 2u32 & 1u32 == 0 && d >> 3u32 & 1u32 == 0 && d >> 16u32
        & 1u32 == 0 && d >> 17u32 & 1u32 == 0 && d >> 18u32 & 1u32 == 0) by (bit_vector)
        requires
            d == 0x80601u32,
    ;
}

/// On the built-in level every fixed spawn point lies on a floor tile with
/// floor on each of its four sides.
pub proof fn lemma_spawn_points_clear(m: GameMap, i: int)
    requires
        m.has_global_layout(),
        0 <= i < SPAWN_COUNT,
    ensures
        m.is_clear_cell(spawn_point(i).0 as int / TILE_MM as int, spawn_point(i).1 as int / TILE_MM as int),
{
    lemma_spawn_neighbourhood_digits();
    let x = spawn_point(i).0 as int / TILE_MM as int;
    let y = spawn_point(i).1 as int / TILE_MM as int;
    assert(m.tile(x, y) == tile_of_digit(global_digit(x as u32, y)));
    assert(m.tile(x, y - 1) == tile_of_digit(global_digit(x as u32, y - 1)));
    assert(m.tile(x, y + 1) == tile_of_digit(global_digit(x as u32, y + 1)));
    assert(m.tile(x - 1, y) == tile_of_digit(global_digit((x - 1) as u32, y)));
    assert(m.tile(x + 1, y) == tile_of_digit(global_digit((x + 1) as u32, y)));
}

} // verus!
