use bracket_random::prelude::RandomNumberGenerator;
use tile_dungeon::{
    accept_room, new_map_rooms_and_corridors, place_room, room_fits, ConfigError, MapConfig,
    RoomDraw, TRect, TileGrid, TileType,
};

fn floor_count(g: &TileGrid) -> usize {
    g.tiles().iter().filter(|t| **t == TileType::Floor).count()
}

fn in_interior(r: &TRect, x: i32, y: i32) -> bool {
    r.x1 < x && x <= r.x2 && r.y1 < y && y <= r.y2
}

fn on_leg(a: i32, b: i32, v: i32) -> bool {
    a.min(b) <= v && v <= a.max(b)
}

fn on_some_corridor(from: (i32, i32), to: (i32, i32), x: i32, y: i32) -> bool {
    let horizontal_first =
        (y == from.1 && on_leg(from.0, to.0, x)) || (x == to.0 && on_leg(from.1, to.1, y));
    let vertical_first =
        (x == from.0 && on_leg(from.1, to.1, y)) || (y == to.1 && on_leg(from.0, to.0, x));
    horizontal_first || vertical_first
}

fn small_config(max_rooms: usize) -> MapConfig {
    MapConfig { width: 80, height: 50, max_rooms, min_size: 6, max_size: 10 }
}

#[test]
fn canonical_config_has_the_usual_values() {
    let c = MapConfig::canonical();
    assert_eq!(c, MapConfig { width: 80, height: 50, max_rooms: 30, min_size: 6, max_size: 10 });
    assert_eq!(c.validate(), Ok(()));
}

#[test]
fn config_with_room_side_below_one_is_refused() {
    let c = MapConfig { width: 80, height: 50, max_rooms: 30, min_size: 0, max_size: 10 };
    assert_eq!(c.validate(), Err(ConfigError::RoomSizeNotPositive));
    let mut rng = RandomNumberGenerator::seeded(1);
    assert_eq!(new_map_rooms_and_corridors(&c, &mut rng).err(), Some(ConfigError::RoomSizeNotPositive));
}

#[test]
fn config_with_smallest_side_over_the_bound_is_refused() {
    let c = MapConfig { width: 80, height: 50, max_rooms: 30, min_size: 10, max_size: 6 };
    assert_eq!(c.validate(), Err(ConfigError::EmptySizeRange));
    let same = MapConfig { width: 80, height: 50, max_rooms: 30, min_size: 6, max_size: 6 };
    assert_eq!(same.validate(), Err(ConfigError::EmptySizeRange));
    let mut rng = RandomNumberGenerator::seeded(1);
    assert_eq!(new_map_rooms_and_corridors(&c, &mut rng).err(), Some(ConfigError::EmptySizeRange));
}

#[test]
fn config_with_grid_too_small_is_refused() {
    let narrow = MapConfig { width: 10, height: 50, max_rooms: 30, min_size: 6, max_size: 10 };
    assert_eq!(narrow.validate(), Err(ConfigError::GridTooSmall));
    let low = MapConfig { width: 80, height: 7, max_rooms: 30, min_size: 6, max_size: 10 };
    assert_eq!(low.validate(), Err(ConfigError::GridTooSmall));
    let none = MapConfig { width: 0, height: 0, max_rooms: 30, min_size: 6, max_size: 10 };
    assert_eq!(none.validate(), Err(ConfigError::GridTooSmall));
    let mut rng = RandomNumberGenerator::seeded(1);
    assert_eq!(new_map_rooms_and_corridors(&low, &mut rng).err(), Some(ConfigError::GridTooSmall));
}

#[test]
fn config_with_smallest_grid_that_fits_is_accepted() {
    let c = MapConfig { width: 11, height: 11, max_rooms: 3, min_size: 6, max_size: 10 };
    assert_eq!(c.validate(), Ok(()));
    for seed in 0..50 {
        let mut rng = RandomNumberGenerator::seeded(seed);
        let (rooms, grid) = new_map_rooms_and_corridors(&c, &mut rng).unwrap();
        assert_eq!(rooms.len(), 1);
        assert!(rooms[0].x2 <= 9 && rooms[0].y2 <= 9);
        assert_eq!(grid.tiles().len(), 121);
    }
}

#[test]
fn config_with_too_many_cells_is_refused() {
    let c = MapConfig { width: 65536, height: 65536, max_rooms: 30, min_size: 6, max_size: 10 };
    assert_eq!(c.validate(), Err(ConfigError::GridTooLarge));
    let mut rng = RandomNumberGenerator::seeded(1);
    assert_eq!(new_map_rooms_and_corridors(&c, &mut rng).err(), Some(ConfigError::GridTooLarge));
}

#[test]
fn config_errors_are_reported_sides_first() {
    let c = MapConfig { width: 0, height: 0, max_rooms: 0, min_size: 0, max_size: 0 };
    assert_eq!(c.validate(), Err(ConfigError::RoomSizeNotPositive));
    let c = MapConfig { width: 0, height: 0, max_rooms: 0, min_size: 3, max_size: 3 };
    assert_eq!(c.validate(), Err(ConfigError::EmptySizeRange));
}

#[test]
fn no_attempts_leave_a_grid_of_walls() {
    let mut rng = RandomNumberGenerator::seeded(3);
    let (rooms, grid) = new_map_rooms_and_corridors(&small_config(0), &mut rng).unwrap();
    assert!(rooms.is_empty());
    assert_eq!(grid.width(), 80);
    assert_eq!(grid.height(), 50);
    assert_eq!(grid.tiles().len(), 4000);
    assert_eq!(floor_count(&grid), 0);
}

#[test]
fn one_attempt_is_always_accepted() {
    for seed in 0..40 {
        let mut rng = RandomNumberGenerator::seeded(seed);
        let (rooms, grid) = new_map_rooms_and_corridors(&small_config(1), &mut rng).unwrap();
        assert_eq!(rooms.len(), 1);
        let r = rooms[0];
        assert_eq!(floor_count(&grid), ((r.x2 - r.x1) * (r.y2 - r.y1)) as usize);
    }
}

#[test]
fn two_rooms_with_a_fixed_seed() {
    let mut rng = RandomNumberGenerator::seeded(6);
    let (rooms, grid) = new_map_rooms_and_corridors(&small_config(2), &mut rng).unwrap();
    assert_eq!(
        rooms,
        vec![TRect { x1: 24, y1: 13, x2: 33, y2: 20 }, TRect { x1: 34, y1: 33, x2: 41, y2: 42 }]
    );
    assert!(!rooms[0].intersects(&rooms[1]));
    assert_eq!(rooms[0].center(), (28, 16));
    assert_eq!(rooms[1].center(), (37, 37));
    for r in rooms.iter() {
        for y in r.y1 + 1..=r.y2 {
            for x in r.x1 + 1..=r.x2 {
                assert_eq!(grid.get(x, y), Some(TileType::Floor));
            }
        }
        assert_eq!(grid.get(r.x1, r.y1), Some(TileType::Wall));
        assert_eq!(grid.get(r.x1, r.y2), Some(TileType::Wall));
        assert_eq!(grid.get(r.x2, r.y1), Some(TileType::Wall));
        assert_eq!(grid.get(r.x2 + 1, r.y2 + 1), Some(TileType::Wall));
    }
    // one corridor: along row 16 from the first center, then down column 37
    for y in 0..50 {
        for x in 0..80 {
            let open = in_interior(&rooms[0], x, y) || in_interior(&rooms[1], x, y)
                || (y == 16 && 28 <= x && x <= 37) || (x == 37 && 16 <= y && y <= 37);
            let want = if open { TileType::Floor } else { TileType::Wall };
            assert_eq!(grid.get(x, y), Some(want));
        }
    }
    assert_eq!(grid.get(28, 30), Some(TileType::Wall));
    assert_eq!(floor_count(&grid), 63 + 63 + 4 + 17);
}

#[test]
fn rooms_never_overlap_or_touch() {
    for seed in 0..60 {
        let mut rng = RandomNumberGenerator::seeded(seed);
        let (rooms, _grid) =
            new_map_rooms_and_corridors(&MapConfig::canonical(), &mut rng).unwrap();
        assert!(!rooms.is_empty() && rooms.len() <= 30);
        for i in 0..rooms.len() {
            for j in 0..rooms.len() {
                if i != j {
                    assert!(!rooms[i].intersects(&rooms[j]));
                }
            }
        }
    }
}

#[test]
fn rooms_keep_their_margin_and_sides() {
    for seed in 0..60 {
        let mut rng = RandomNumberGenerator::seeded(seed);
        let (rooms, _grid) =
            new_map_rooms_and_corridors(&MapConfig::canonical(), &mut rng).unwrap();
        for r in rooms.iter() {
            assert!(0 <= r.x1 && r.x2 <= 78 && 0 <= r.y1 && r.y2 <= 48);
            assert!(6 <= r.x2 - r.x1 && r.x2 - r.x1 < 10);
            assert!(6 <= r.y2 - r.y1 && r.y2 - r.y1 < 10);
        }
    }
}

#[test]
fn drawn_sides_and_corners_vary() {
    let mut widths = Vec::new();
    let mut corners = Vec::new();
    for seed in 0..60 {
        let mut rng = RandomNumberGenerator::seeded(seed);
        let (rooms, _grid) = new_map_rooms_and_corridors(&small_config(1), &mut rng).unwrap();
        widths.push(rooms[0].x2 - rooms[0].x1);
        corners.push(rooms[0].x1);
    }
    assert!(widths.iter().any(|w| *w != 6));
    assert!(widths.iter().any(|w| *w != widths[0]));
    assert!(corners.iter().any(|x| *x != corners[0]));
}

#[test]
fn both_corridor_orders_are_drawn() {
    let mut horizontal = 0;
    let mut vertical = 0;
    for seed in 0..200 {
        let mut rng = RandomNumberGenerator::seeded(seed);
        let (rooms, grid) = new_map_rooms_and_corridors(&small_config(2), &mut rng).unwrap();
        if rooms.len() != 2 {
            continue;
        }
        let from = rooms[0].center();
        let to = rooms[1].center();
        if from.0 == to.0 || from.1 == to.1 {
            continue;
        }
        if in_interior(&rooms[0], to.0, from.1) || in_interior(&rooms[1], to.0, from.1) {
            continue;
        }
        if in_interior(&rooms[0], from.0, to.1) || in_interior(&rooms[1], from.0, to.1) {
            continue;
        }
        let bend_h = grid.get(to.0, from.1) == Some(TileType::Floor);
        let bend_v = grid.get(from.0, to.1) == Some(TileType::Floor);
        assert!(bend_h != bend_v);
        if bend_h {
            horizontal += 1;
        } else {
            vertical += 1;
        }
    }
    assert!(horizontal > 0);
    assert!(vertical > 0);
}

#[test]
fn outer_ring_stays_wall() {
    for seed in 0..60 {
        let mut rng = RandomNumberGenerator::seeded(seed);
        let (_rooms, grid) =
            new_map_rooms_and_corridors(&MapConfig::canonical(), &mut rng).unwrap();
        for x in 0..80 {
            assert_eq!(grid.get(x, 0), Some(TileType::Wall));
            assert_eq!(grid.get(x, 49), Some(TileType::Wall));
        }
        for y in 0..50 {
            assert_eq!(grid.get(0, y), Some(TileType::Wall));
            assert_eq!(grid.get(79, y), Some(TileType::Wall));
        }
    }
}

#[test]
fn floor_appears_only_where_carved() {
    for seed in 0..30 {
        let mut rng = RandomNumberGenerator::seeded(seed);
        let (rooms, grid) =
            new_map_rooms_and_corridors(&MapConfig::canonical(), &mut rng).unwrap();
        for y in 0..50 {
            for x in 0..80 {
                let in_room = rooms.iter().any(|r| in_interior(r, x, y));
                let in_corridor = (1..rooms.len())
                    .any(|k| on_some_corridor(rooms[k - 1].center(), rooms[k].center(), x, y));
                if in_room {
                    assert_eq!(grid.get(x, y), Some(TileType::Floor));
                }
                if grid.get(x, y) == Some(TileType::Floor) {
                    assert!(in_room || in_corridor);
                }
            }
        }
    }
}

#[test]
fn room_centers_are_joined_by_floor() {
    for seed in 0..30 {
        let mut rng = RandomNumberGenerator::seeded(seed);
        let (rooms, grid) =
            new_map_rooms_and_corridors(&MapConfig::canonical(), &mut rng).unwrap();
        for k in 1..rooms.len() {
            let from = rooms[k - 1].center();
            let to = rooms[k].center();
            let leg = |fixed_row: Option<i32>, fixed_col: Option<i32>| -> bool {
                match (fixed_row, fixed_col) {
                    (Some(y), None) => (from.0.min(to.0)..=from.0.max(to.0))
                        .all(|x| grid.get(x, y) == Some(TileType::Floor)),
                    (None, Some(x)) => (from.1.min(to.1)..=from.1.max(to.1))
                        .all(|y| grid.get(x, y) == Some(TileType::Floor)),
                    _ => false,
                }
            };
            let horizontal_first = leg(Some(from.1), None) && leg(None, Some(to.0));
            let vertical_first = leg(None, Some(from.0)) && leg(Some(to.1), None);
            assert!(horizontal_first || vertical_first);
        }
    }
}

#[test]
fn same_seed_gives_the_same_dungeon() {
    for seed in [0u64, 1, 7, 12345, u64::MAX] {
        let mut first = RandomNumberGenerator::seeded(seed);
        let mut second = RandomNumberGenerator::seeded(seed);
        let (rooms_a, grid_a) =
            new_map_rooms_and_corridors(&MapConfig::canonical(), &mut first).unwrap();
        let (rooms_b, grid_b) =
            new_map_rooms_and_corridors(&MapConfig::canonical(), &mut second).unwrap();
        assert_eq!(rooms_a, rooms_b);
        assert_eq!(grid_a.width(), grid_b.width());
        assert_eq!(grid_a.height(), grid_b.height());
        assert_eq!(grid_a.tiles(), grid_b.tiles());
    }
}

#[test]
fn different_seeds_give_different_dungeons() {
    let mut first = RandomNumberGenerator::seeded(1);
    let mut second = RandomNumberGenerator::seeded(2);
    let (rooms_a, _) = new_map_rooms_and_corridors(&MapConfig::canonical(), &mut first).unwrap();
    let (rooms_b, _) = new_map_rooms_and_corridors(&MapConfig::canonical(), &mut second).unwrap();
    assert_ne!(rooms_a, rooms_b);
}

#[test]
fn room_fits_among_rooms_that_are_apart() {
    let rooms = vec![TRect::new(0, 0, 5, 5), TRect::new(20, 20, 5, 5)];
    assert!(room_fits(&rooms, &TRect::new(10, 0, 5, 5)));
    assert!(room_fits(&Vec::new(), &TRect::new(10, 0, 5, 5)));
    assert!(!room_fits(&rooms, &TRect::new(3, 3, 5, 5)));
    assert!(!room_fits(&rooms, &TRect::new(25, 25, 2, 2)));
    assert!(!room_fits(&rooms, &TRect::new(5, 0, 2, 2)));
}

#[test]
fn placing_draws_by_hand() {
    let mut grid = TileGrid::new(30, 20, TileType::Wall).unwrap();
    let mut rooms: Vec<TRect> = Vec::new();
    let first = RoomDraw { w: 4, h: 3, x: 2, y: 2, horizontal_first: true };
    let clash = RoomDraw { w: 4, h: 4, x: 6, y: 5, horizontal_first: true };
    let second = RoomDraw { w: 5, h: 4, x: 20, y: 10, horizontal_first: true };
    assert!(place_room(&mut rooms, &mut grid, &first));
    assert_eq!(floor_count(&grid), 12);
    assert!(!place_room(&mut rooms, &mut grid, &clash));
    assert_eq!(rooms.len(), 1);
    assert_eq!(floor_count(&grid), 12);
    assert!(place_room(&mut rooms, &mut grid, &second));
    assert_eq!(rooms, vec![TRect::new(2, 2, 4, 3), TRect::new(20, 10, 5, 4)]);
    assert_eq!(rooms[0].center(), (4, 3));
    assert_eq!(rooms[1].center(), (22, 12));
    for x in 4..=22 {
        assert_eq!(grid.get(x, 3), Some(TileType::Floor));
    }
    for y in 3..=12 {
        assert_eq!(grid.get(22, y), Some(TileType::Floor));
    }
    assert_eq!(grid.get(4, 8), Some(TileType::Wall));
    assert_eq!(grid.get(10, 12), Some(TileType::Wall));
    // 12 + 20 interior cells; the row leg adds x = 7..=22 on row 3, the
    // column leg adds y = 4..=10 on column 22.
    assert_eq!(floor_count(&grid), 12 + 20 + 16 + 7);
}

#[test]
fn placing_with_the_other_coin_bends_the_other_way() {
    let mut grid = TileGrid::new(30, 20, TileType::Wall).unwrap();
    let mut rooms: Vec<TRect> = Vec::new();
    accept_room(&mut rooms, &mut grid, TRect::new(2, 2, 4, 3), false);
    accept_room(&mut rooms, &mut grid, TRect::new(20, 10, 5, 4), false);
    for y in 3..=12 {
        assert_eq!(grid.get(4, y), Some(TileType::Floor));
    }
    for x in 4..=22 {
        assert_eq!(grid.get(x, 12), Some(TileType::Floor));
    }
    assert_eq!(grid.get(22, 5), Some(TileType::Wall));
    assert_eq!(grid.get(10, 3), Some(TileType::Wall));
    // the column leg adds y = 6..=12 on column 4, the row leg adds
    // x = 5..=20 on row 12.
    assert_eq!(floor_count(&grid), 12 + 20 + 7 + 16);
}

#[test]
fn first_room_gets_no_corridor() {
    let mut grid = TileGrid::new(30, 20, TileType::Wall).unwrap();
    let mut rooms: Vec<TRect> = Vec::new();
    accept_room(&mut rooms, &mut grid, TRect::new(5, 5, 3, 3), true);
    assert_eq!(floor_count(&grid), 9);
    assert_eq!(rooms, vec![TRect::new(5, 5, 3, 3)]);
}

#[test]
fn corridor_from_a_room_in_the_corner_opens_the_ring() {
    // A room of side 1 in the corner has its center on the ring, so the
    // corridor that leaves it runs along the top row.
    let mut grid = TileGrid::new(12, 12, TileType::Wall).unwrap();
    let mut rooms: Vec<TRect> = Vec::new();
    accept_room(&mut rooms, &mut grid, TRect::new(0, 0, 1, 1), true);
    accept_room(&mut rooms, &mut grid, TRect::new(5, 5, 2, 2), true);
    assert_eq!(rooms[0].center(), (0, 0));
    assert_eq!(rooms[1].center(), (6, 6));
    assert_eq!(grid.get(0, 0), Some(TileType::Wall));
    for x in 1..=6 {
        assert_eq!(grid.get(x, 0), Some(TileType::Floor));
    }
    for y in 0..=6 {
        assert_eq!(grid.get(6, y), Some(TileType::Floor));
    }
}

#[test]
fn coin_of_a_dropped_or_first_candidate_changes_nothing() {
    let run = |coins: [bool; 3]| {
        let mut grid = TileGrid::new(30, 20, TileType::Wall).unwrap();
        let mut rooms: Vec<TRect> = Vec::new();
        let draws = [
            RoomDraw { w: 4, h: 3, x: 2, y: 2, horizontal_first: coins[0] },
            RoomDraw { w: 4, h: 4, x: 6, y: 5, horizontal_first: coins[1] },
            RoomDraw { w: 5, h: 4, x: 20, y: 10, horizontal_first: coins[2] },
        ];
        for d in draws.iter() {
            place_room(&mut rooms, &mut grid, d);
        }
        (rooms, grid.tiles().to_vec())
    };
    assert_eq!(run([true, true, true]), run([false, false, true]));
    assert_eq!(run([true, false, false]), run([false, true, false]));
    assert_ne!(run([true, true, true]), run([true, true, false]));
}
