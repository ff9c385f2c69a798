use fps_core::map::{GameMap, TileType, SPAWN_COUNT};
use fps_core::spawn::SpawnRotation;

fn open_map(width: usize, height: usize) -> GameMap {
    GameMap {
        width,
        height,
        tiles: vec![vec![TileType::Floor; width]; height],
        spawn_x: 0,
        spawn_z: 0,
    }
}

#[test]
fn from_digit_maps_one_to_wall() {
    assert_eq!(TileType::from_digit(1), TileType::Wall);
    assert_eq!(TileType::from_digit(0), TileType::Floor);
    assert_eq!(TileType::from_digit(7), TileType::Floor);
}

#[test]
fn global_map_has_walled_border() {
    let m = GameMap::from_global();
    assert_eq!((m.width, m.height), (20, 20));
    for i in 0..20 {
        assert_eq!(m.tiles[0][i], TileType::Wall);
        assert_eq!(m.tiles[19][i], TileType::Wall);
        assert_eq!(m.tiles[i][0], TileType::Wall);
        assert_eq!(m.tiles[i][19], TileType::Wall);
    }
    assert_eq!(m.tiles[1][1], TileType::Floor);
    assert_eq!(m.tiles[3][5], TileType::Wall);
    assert_eq!(m.tiles[3][14], TileType::Floor);
    assert_eq!(m.tiles[8][9], TileType::Wall);
    assert_eq!(m.tiles[8][10], TileType::Wall);
    assert_eq!(m.tiles[8][11], TileType::Floor);
    assert_eq!((m.spawn_x, m.spawn_z), (2500, 2500));
    let (x, y) = ((m.spawn_x / 1000) as usize, (m.spawn_z / 1000) as usize);
    assert_eq!(m.tiles[y][x], TileType::Floor);
    assert_eq!(m.tiles[y - 1][x], TileType::Floor);
    assert_eq!(m.tiles[y + 1][x], TileType::Floor);
    assert_eq!(m.tiles[y][x - 1], TileType::Floor);
    assert_eq!(m.tiles[y][x + 1], TileType::Floor);
}

#[test]
fn spawn_points_are_clear_floor() {
    let m = GameMap::from_global();
    for i in 0..SPAWN_COUNT {
        let s = GameMap::from_global().with_spawn_position(i);
        let (x, y) = ((s.spawn_x / 1000) as usize, (s.spawn_z / 1000) as usize);
        assert_eq!(m.tiles[y][x], TileType::Floor);
        assert_eq!(m.tiles[y - 1][x], TileType::Floor);
        assert_eq!(m.tiles[y + 1][x], TileType::Floor);
        assert_eq!(m.tiles[y][x - 1], TileType::Floor);
        assert_eq!(m.tiles[y][x + 1], TileType::Floor);
    }
}

#[test]
fn spawn_position_wraps_around() {
    let a = GameMap::from_global().with_spawn_position(1);
    let b = GameMap::from_global().with_spawn_position(1 + SPAWN_COUNT);
    assert_eq!((a.spawn_x, a.spawn_z), (17500, 2500));
    assert_eq!((b.spawn_x, b.spawn_z), (17500, 2500));
    let c = GameMap::from_global().with_spawn_position(0);
    assert_eq!((c.spawn_x, c.spawn_z), (2500, 2500));
}

#[test]
fn random_spawn_single_clear_cell() {
    let m = open_map(3, 3).with_random_spawn(12345);
    assert_eq!((m.spawn_x, m.spawn_z), (1500, 1500));
    let m = open_map(3, 3).with_random_spawn(0);
    assert_eq!((m.spawn_x, m.spawn_z), (1500, 1500));
}

#[test]
fn random_spawn_without_clear_cell_falls_back() {
    let m = open_map(2, 2).with_random_spawn(99);
    assert_eq!((m.spawn_x, m.spawn_z), (10000, 10000));
    let mut walled = open_map(3, 3);
    walled.tiles[0][1] = TileType::Wall;
    let m = walled.with_random_spawn(5);
    assert_eq!((m.spawn_x, m.spawn_z), (10000, 10000));
}

#[test]
fn random_spawn_picks_by_draw() {
    // A 4 x 3 open map has two clear cells, (1, 1) and (2, 1).
    let seed: u64 = 0;
    let draw = seed.wrapping_mul(6364136223846793005).wrapping_add(1442695040888963407);
    let expected_x = if draw % 2 == 0 { 1500 } else { 2500 };
    let m = open_map(4, 3).with_random_spawn(seed);
    assert_eq!((m.spawn_x, m.spawn_z), (expected_x, 1500));
    let m = open_map(4, 3).with_random_spawn(1);
    let draw = 1u64.wrapping_mul(6364136223846793005).wrapping_add(1442695040888963407);
    assert_eq!(m.spawn_x, if draw % 2 == 0 { 1500 } else { 2500 });
}

#[test]
fn random_spawn_on_global_map_is_clear() {
    let g = GameMap::from_global();
    for seed in 0..50u64 {
        let m = GameMap::from_global().with_random_spawn(seed);
        let (x, y) = ((m.spawn_x / 1000) as usize, (m.spawn_z / 1000) as usize);
        assert_eq!(m.spawn_x % 1000, 500);
        assert_eq!(g.tiles[y][x], TileType::Floor);
        assert_eq!(g.tiles[y - 1][x], TileType::Floor);
        assert_eq!(g.tiles[y + 1][x], TileType::Floor);
        assert_eq!(g.tiles[y][x - 1], TileType::Floor);
        assert_eq!(g.tiles[y][x + 1], TileType::Floor);
    }
}

#[test]
fn rotation_cycles_through_points() {
    let mut r = SpawnRotation::default();
    let got: Vec<usize> = (0..8).map(|_| r.get_next_spawn()).collect();
    assert_eq!(got, vec![0, 1, 2, 3, 4, 5, 0, 1]);
}

#[test]
fn rotation_never_repeats_consecutively() {
    for n in 2..6usize {
        for start in 0..n {
            for last in 0..n {
                let mut r = SpawnRotation { next_index: start, last_used_index: Some(last), spawn_count: n };
                let a = r.get_next_spawn();
                let b = r.get_next_spawn();
                assert_ne!(a, last);
                assert_ne!(a, b);
            }
        }
    }
}

#[test]
fn rotation_skips_last_used_candidate() {
    let mut r = SpawnRotation { next_index: 2, last_used_index: Some(2), spawn_count: 3 };
    assert_eq!(r.get_next_spawn(), 0);
    assert_eq!(r.next_index, 1);
    assert_eq!(r.last_used_index, Some(0));
}

#[test]
fn rotation_with_one_point_repeats() {
    let mut r = SpawnRotation::new(1);
    assert_eq!(r.get_next_spawn(), 0);
    assert_eq!(r.get_next_spawn(), 0);
}
