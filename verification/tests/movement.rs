use tile_dungeon::{
    held_steps, is_walkable, player_input, try_move, HeldKeys, TileGrid, TileType, PLAYER_STEP,
};

fn open_grid(width: i32, height: i32) -> TileGrid {
    TileGrid::new(width, height, TileType::Floor).unwrap()
}

fn keys(left: bool, right: bool, up: bool, down: bool) -> HeldKeys {
    HeldKeys { left, right, up, down }
}

#[test]
fn move_into_wall_is_blocked() {
    let mut grid = open_grid(10, 10);
    assert!(grid.set(2, 2, TileType::Wall));
    assert_eq!(try_move((40, 40), 2, 2, &grid, (160, 160)), None);
    assert_eq!(try_move((40, 40), 0, 0, &grid, (160, 160)), None);
    assert_eq!(try_move((31, 40), 1, 0, &grid, (160, 160)), None);
}

#[test]
fn move_onto_floor_is_accepted() {
    let mut grid = open_grid(10, 10);
    assert!(grid.set(2, 2, TileType::Wall));
    assert_eq!(try_move((40, 40), 8, 0, &grid, (160, 160)), Some((48, 40)));
    assert_eq!(try_move((40, 40), -9, -9, &grid, (160, 160)), Some((31, 31)));
    assert_eq!(try_move((30, 40), 1, 0, &grid, (160, 160)), Some((31, 40)));
}

#[test]
fn move_next_to_a_wall_goes_the_other_way() {
    let mut grid = TileGrid::new(5, 5, TileType::Wall).unwrap();
    assert!(grid.set(1, 1, TileType::Floor));
    assert!(grid.set(2, 1, TileType::Floor));
    // standing in tile (1, 1) at its right edge
    assert_eq!(try_move((31, 20), 1, 0, &grid, (80, 80)), Some((32, 20)));
    // standing in tile (1, 1) at its left edge, tile (0, 1) is wall
    assert_eq!(try_move((16, 20), -1, 0, &grid, (80, 80)), None);
    assert_eq!(try_move((20, 16), 0, -1, &grid, (80, 80)), None);
    assert_eq!(try_move((20, 31), 0, 1, &grid, (80, 80)), None);
}

#[test]
fn accepted_move_is_clamped_to_the_bounds() {
    let grid = open_grid(10, 10);
    assert_eq!(try_move((100, 50), 5, 0, &grid, (102, 200)), Some((102, 50)));
    assert_eq!(try_move((100, 50), 5, 60, &grid, (102, 100)), Some((102, 100)));
    assert_eq!(try_move((100, 50), 1, 1, &grid, (102, 100)), Some((101, 51)));
}

#[test]
fn clamping_is_done_on_each_axis_alone() {
    let grid = open_grid(10, 10);
    assert_eq!(try_move((100, 50), 30, 3, &grid, (110, 100)), Some((110, 53)));
    assert_eq!(try_move((100, 50), 3, 30, &grid, (110, 60)), Some((103, 60)));
}

#[test]
fn clamping_with_a_negative_bound_gives_the_bound() {
    let grid = open_grid(10, 10);
    assert_eq!(try_move((10, 10), 1, 1, &grid, (-5, 100)), Some((-5, 11)));
}

#[test]
fn destination_outside_the_grid_is_blocked() {
    let grid = open_grid(10, 10);
    assert_eq!(try_move((0, 0), -1, 0, &grid, (160, 160)), None);
    assert_eq!(try_move((0, 0), 0, -1, &grid, (160, 160)), None);
    assert_eq!(try_move((159, 0), 1, 0, &grid, (1000, 1000)), None);
    assert_eq!(try_move((0, 159), 0, 1, &grid, (1000, 1000)), None);
    assert_eq!(try_move((159, 159), 0, 0, &grid, (1000, 1000)), Some((159, 159)));
}

#[test]
fn destination_far_away_is_blocked() {
    let grid = open_grid(10, 10);
    assert_eq!(try_move((i64::MAX, 0), i64::MAX, 0, &grid, (160, 160)), None);
    assert_eq!(try_move((i64::MIN, 0), i64::MIN, 0, &grid, (160, 160)), None);
    assert_eq!(try_move((0, i64::MAX), 0, 1, &grid, (160, 160)), None);
    assert_eq!(try_move((i64::MAX, 5), i64::MIN, 0, &grid, (160, 160)), None);
    assert_eq!(try_move((i64::MAX, 5), -i64::MAX, 0, &grid, (160, 160)), Some((0, 5)));
}

#[test]
fn walkable_tiles() {
    let mut grid = open_grid(4, 3);
    assert!(grid.set(1, 1, TileType::Wall));
    assert!(is_walkable(&grid, 0, 0));
    assert!(is_walkable(&grid, 3, 2));
    assert!(!is_walkable(&grid, 1, 1));
    assert!(!is_walkable(&grid, 4, 0));
    assert!(!is_walkable(&grid, 0, 3));
    assert!(!is_walkable(&grid, -1, 0));
    assert!(!is_walkable(&grid, i64::MAX, 0));
    assert!(!is_walkable(&grid, 4294967296, 0));
}

#[test]
fn no_key_held_leaves_the_player() {
    let grid = open_grid(10, 10);
    assert_eq!(player_input((40, 40), &keys(false, false, false, false), &grid, (160, 160)), (40, 40));
}

#[test]
fn one_key_moves_one_step() {
    let grid = open_grid(10, 10);
    assert_eq!(PLAYER_STEP, 1);
    assert_eq!(player_input((40, 40), &keys(true, false, false, false), &grid, (160, 160)), (39, 40));
    assert_eq!(player_input((40, 40), &keys(false, true, false, false), &grid, (160, 160)), (41, 40));
    assert_eq!(player_input((40, 40), &keys(false, false, true, false), &grid, (160, 160)), (40, 39));
    assert_eq!(player_input((40, 40), &keys(false, false, false, true), &grid, (160, 160)), (40, 41));
}

#[test]
fn two_keys_add_up() {
    let grid = open_grid(10, 10);
    assert_eq!(player_input((40, 40), &keys(true, false, true, false), &grid, (160, 160)), (39, 39));
    assert_eq!(player_input((40, 40), &keys(true, true, false, false), &grid, (160, 160)), (40, 40));
    assert_eq!(player_input((40, 40), &keys(true, true, true, true), &grid, (160, 160)), (40, 40));
}

#[test]
fn later_key_starts_where_the_earlier_one_ended() {
    // Tile (1, 2) is wall. From (32, 47) a step down alone is open, a step
    // left alone is open, but after the step left the step down is blocked.
    let mut grid = open_grid(10, 10);
    assert!(grid.set(1, 3, TileType::Wall));
    assert_eq!(player_input((32, 47), &keys(false, false, false, true), &grid, (160, 160)), (32, 48));
    assert_eq!(player_input((32, 47), &keys(true, false, false, false), &grid, (160, 160)), (31, 47));
    assert_eq!(player_input((32, 47), &keys(true, false, false, true), &grid, (160, 160)), (31, 47));
}

#[test]
fn blocked_key_does_not_stop_the_others() {
    let mut grid = open_grid(10, 10);
    assert!(grid.set(1, 2, TileType::Wall));
    // left of (32, 40) lies the wall tile (1, 2)
    assert_eq!(player_input((32, 40), &keys(true, false, true, false), &grid, (160, 160)), (32, 39));
}

#[test]
fn held_keys_give_their_steps_in_order() {
    assert_eq!(held_steps(&keys(false, false, false, false)), Vec::<(i64, i64)>::new());
    assert_eq!(held_steps(&keys(true, false, false, false)), vec![(-1, 0)]);
    assert_eq!(held_steps(&keys(false, true, false, true)), vec![(1, 0), (0, 1)]);
    assert_eq!(held_steps(&keys(true, true, true, true)), vec![(-1, 0), (1, 0), (0, -1), (0, 1)]);
}
