use vstd::prelude::*;
use vstd::math::{max, min};
use crate::carve::{lemma_same_tile, on_horizontal_run, on_vertical_run};
use crate::config::MapConfig;
use crate::generator::{fits, generate, generated_by, RoomDraw};
use crate::grid::TileGrid;
use crate::tile::TileType;
use crate::trect::TRect;

verus! {

/// No two rooms of the list overlap or touch.
pub open spec fn rooms_keep_clear(rooms: Seq<TRect>) -> bool {
    forall|i: int, j: int|
        #![trigger rooms[i], rooms[j]]
        0 <= i < rooms.len() && 0 <= j < rooms.len() && i != j ==> !rooms[i].spec_intersects(
            &rooms[j],
        )
}

/// `room` is one that `cfg` lets the generator draw: its corner is in the
/// grid, its sides are in the range of room sides, and one tile is left to
/// the right and bottom edge of the grid.
pub open spec fn room_in_margin(room: TRect, cfg: MapConfig) -> bool {
    &&& 0 <= room.x1
    &&& 0 <= room.y1
    &&& cfg.min_size <= room.x2 - room.x1 < cfg.max_size
    &&& cfg.min_size <= room.y2 - room.y1 < cfg.max_size
    &&& room.x2 <= cfg.width - 2
    &&& room.y2 <= cfg.height - 2
}

/// Every draw of the sequence is valid for `cfg`.
pub open spec fn all_valid(cfg: MapConfig, draws: Seq<RoomDraw>) -> bool {
    forall|k: int| 0 <= k < draws.len() ==> (#[trigger] draws[k]).valid_for(cfg)
}

/// Cell number `i` lies on the L-shaped corridor between the tiles `from`
/// and `to` that starts along the row of `from` if `horizontal_first`, and
/// along its column if not.
pub open spec fn on_corridor_with(
    i: int,
    width: int,
    from: (int, int),
    to: (int, int),
    horizontal_first: bool,
) -> bool {
    if horizontal_first {
        on_horizontal_run(i, width, from.0, to.0, from.1) || on_vertical_run(
            i,
            width,
            from.1,
            to.1,
            to.0,
        )
    } else {
        on_vertical_run(i, width, from.1, to.1, from.0) || on_horizontal_run(
            i,
            width,
            from.0,
            to.0,
            to.1,
        )
    }
}

/// Cell number `i` lies on one of the two L-shaped corridors between the
/// tiles `from` and `to`.
pub open spec fn on_corridor(i: int, width: int, from: (int, int), to: (int, int)) -> bool {
    on_corridor_with(i, width, from, to, true) || on_corridor_with(i, width, from, to, false)
}

/// Every cell of the grid on the corridor of the given order between `from`
/// and `to` is floor.
pub open spec fn corridor_open(
    tiles: Seq<TileType>,
    width: int,
    from: (int, int),
    to: (int, int),
    horizontal_first: bool,
) -> bool {
    forall|i: int|
        0 <= i < tiles.len() && on_corridor_with(i, width, from, to, horizontal_first)
            ==> #[trigger] tiles[i] == TileType::Floor
}

/// Room number `k` is joined to the room before it: one of the two corridors
/// between their centers is floor from end to end.
pub open spec fn joined(rooms: Seq<TRect>, tiles: Seq<TileType>, width: int, k: int) -> bool {
    exists|horizontal_first: bool| #[trigger]
        corridor_open(
            tiles,
            width,
            rooms[k - 1].spec_center(),
            rooms[k].spec_center(),
            horizontal_first,
        )
}

/// Cell number `i` was opened for room number `k`: it lies in the interior
/// of the room, or on a corridor from the room before it.
pub open spec fn carved_for(rooms: Seq<TRect>, width: int, k: int, i: int) -> bool {
    ||| rooms[k].interior_contains(i % width, i / width)
    ||| (k >= 1 && on_corridor(i, width, rooms[k - 1].spec_center(), rooms[k].spec_center()))
}

/// Cell number `i` was opened for some room of the list.
pub open spec fn carved(rooms: Seq<TRect>, width: int, i: int) -> bool {
    exists|k: int| 0 <= k < rooms.len() && #[trigger] carved_for(rooms, width, k, i)
}

/// Cell number `i` lies on the outer ring of a grid of `width` by `height`.
pub open spec fn on_ring(i: int, width: int, height: int) -> bool {
    i % width == 0 || i % width == width - 1 || i / width == 0 || i / width == height - 1
}

/// A horizontal run that stays inside its row reaches exactly the tiles of
/// that row between its two columns.
pub proof fn lemma_horizontal_run_in_row(i: int, width: int, x1: int, x2: int, y: int)
    requires
        0 <= x1 < width,
        0 <= x2 < width,
        0 < i,
    ensures
        on_horizontal_run(i, width, x1, x2, y) <==> (i / width == y && min(x1, x2) <= i % width
            <= max(x1, x2)),
{
    if on_horizontal_run(i, width, x1, x2, y) {
        lemma_same_tile(i, i - y * width, y, width);
    }
    if i / width == y && min(x1, x2) <= i % width <= max(x1, x2) {
        lemma_same_tile(i, i % width, y, width);
    }
}

/// A vertical run in a column of the grid reaches exactly the tiles of that
/// column between its two rows.
pub proof fn lemma_vertical_run_in_column(i: int, width: int, y1: int, y2: int, x: int)
    requires
        0 <= x < width,
        0 < i,
    ensures
        on_vertical_run(i, width, y1, y2, x) <==> (i % width == x && min(y1, y2) <= i / width
            <= max(y1, y2)),
{
    if on_vertical_run(i, width, y1, y2, x) {
        let y = (i - x) / width;
        lemma_same_tile(i - x, 0, y, width);
        lemma_same_tile(i, x, y, width);
    }
    if i % width == x && min(y1, y2) <= i / width <= max(y1, y2) {
        let y = i / width;
        lemma_same_tile(i, x, y, width);
        lemma_same_tile(i - x, 0, y, width);
    }
}

/// The center of a room with sides of at least 2 lies in its interior.
pub proof fn lemma_center_in_interior(room: TRect)
    requires
        0 <= room.x1,
        0 <= room.y1,
        room.x2 - room.x1 >= 2,
        room.y2 - room.y1 >= 2,
    ensures
        room.interior_contains(room.spec_center().0, room.spec_center().1),
{
}

/// The accepted rooms never overlap or touch one another, whatever was drawn.
pub proof fn lemma_rooms_keep_clear(cfg: MapConfig, draws: Seq<RoomDraw>)
    ensures
        rooms_keep_clear(generate(cfg, draws).0),
    decreases draws.len(),
{
    if draws.len() > 0 {
        lemma_rooms_keep_clear(cfg, draws.drop_last());
        let before = generate(cfg, draws.drop_last()).0;
        let room = draws.last().room();
        let after = generate(cfg, draws).0;
        if fits(before, room) {
            assert(after == before.push(room));
            assert forall|i: int, j: int|
                #![trigger after[i], after[j]]
                0 <= i < after.len() && 0 <= j < after.len() && i != j implies !after[i].spec_intersects(
                &after[j],
            ) by {
                if i < before.len() && j < before.len() {
                    assert(!before[i].spec_intersects(&before[j]));
                } else if i < before.len() {
                    assert(!room.spec_intersects(&before[i]));
                } else {
                    assert(!room.spec_intersects(&before[j]));
                }
            }
        }
    }
}

/// Under a valid configuration and valid draws the grid keeps its size, no
/// more rooms are accepted than were drawn, the first candidate is always
/// accepted, and every accepted room keeps its margin.
pub proof fn lemma_generate_shape(cfg: MapConfig, draws: Seq<RoomDraw>)
    requires
        cfg.valid(),
        all_valid(cfg, draws),
    ensures
        generate(cfg, draws).1.len() == cfg.width * cfg.height,
        generate(cfg, draws).0.len() <= draws.len(),
        draws.len() > 0 ==> generate(cfg, draws).0.len() > 0,
        forall|k: int|
            0 <= k < generate(cfg, draws).0.len() ==> room_in_margin(
                #[trigger] generate(cfg, draws).0[k],
                cfg,
            ),
    decreases draws.len(),
{
    assert(cfg.width * cfg.height >= 0) by (nonlinear_arith)
        requires
            cfg.width > 0,
            cfg.height > 0,
    ;
    if draws.len() > 0 {
        let head = draws.drop_last();
        lemma_generate_shape(cfg, head);
        let before = generate(cfg, head);
        let room = draws.last().room();
        let after = generate(cfg, draws);
        assert(draws.last().valid_for(cfg));
        assert(room_in_margin(room, cfg));
        if fits(before.0, room) {
            assert(after.0 == before.0.push(room));
            assert forall|k: int| 0 <= k < after.0.len() implies room_in_margin(
                #[trigger] after.0[k],
                cfg,
            ) by {
                if k < before.0.len() {
                    assert(room_in_margin(before.0[k], cfg));
                }
            }
        }
    }
}

/// Floor appears only where it was opened: every floor cell lies in the
/// interior of an accepted room or on a corridor between two rooms accepted
/// one after the other. All other cells are wall as at the start.
pub proof fn lemma_floor_is_carved(cfg: MapConfig, draws: Seq<RoomDraw>)
    ensures
        forall|i: int|
            0 <= i < generate(cfg, draws).1.len() && #[trigger] generate(cfg, draws).1[i]
                == TileType::Floor ==> carved(generate(cfg, draws).0, cfg.width as int, i),
    decreases draws.len(),
{
    if draws.len() > 0 {
        let head = draws.drop_last();
        lemma_floor_is_carved(cfg, head);
        let before = generate(cfg, head);
        let room = draws.last().room();
        let after = generate(cfg, draws);
        let w = cfg.width as int;
        if fits(before.0, room) {
            assert(after.0 == before.0.push(room));
            let last = before.0.len() as int;
            assert forall|i: int|
                0 <= i < after.1.len() && #[trigger] after.1[i] == TileType::Floor implies carved(
                after.0,
                w,
                i,
            ) by {
                if before.1[i] == TileType::Floor {
                    let k = choose|k: int|
                        0 <= k < before.0.len() && #[trigger] carved_for(before.0, w, k, i);
                    assert(carved_for(after.0, w, k, i));
                } else {
                    assert(carved_for(after.0, w, last, i));
                }
            }
        }
    }
}

/// The interior of every accepted room is floor, whatever was opened later.
pub proof fn lemma_rooms_are_floor(cfg: MapConfig, draws: Seq<RoomDraw>)
    ensures
        forall|k: int, i: int|
            0 <= k < generate(cfg, draws).0.len() && 0 <= i < generate(cfg, draws).1.len()
                && (#[trigger] generate(cfg, draws).0[k]).interior_contains(
                i % (cfg.width as int),
                i / (cfg.width as int),
            ) ==> #[trigger] generate(cfg, draws).1[i] == TileType::Floor,
    decreases draws.len(),
{
    if draws.len() > 0 {
        let head = draws.drop_last();
        lemma_rooms_are_floor(cfg, head);
        let before = generate(cfg, head);
        let room = draws.last().room();
        let after = generate(cfg, draws);
        let w = cfg.width as int;
        if fits(before.0, room) {
            assert(after.0 == before.0.push(room));
            assert forall|k: int, i: int|
                0 <= k < after.0.len() && 0 <= i < after.1.len() && (#[trigger] after.0[k]).interior_contains(
                    i % w,
                    i / w,
                ) implies #[trigger] after.1[i] == TileType::Floor by {
                if k < before.0.len() {
                    assert(before.0[k].interior_contains(i % w, i / w));
                    assert(before.1[i] == TileType::Floor);
                }
            }
        }
    }
}

/// Every accepted room but the first is joined to the room accepted before
/// it by a corridor of floor between the two centers.
pub proof fn lemma_rooms_are_joined(cfg: MapConfig, draws: Seq<RoomDraw>)
    ensures
        forall|k: int|
            1 <= k < generate(cfg, draws).0.len() ==> #[trigger] joined(
                generate(cfg, draws).0,
                generate(cfg, draws).1,
                cfg.width as int,
                k,
            ),
    decreases draws.len(),
{
    if draws.len() > 0 {
        let head = draws.drop_last();
        lemma_rooms_are_joined(cfg, head);
        let before = generate(cfg, head);
        let room = draws.last().room();
        let after = generate(cfg, draws);
        let w = cfg.width as int;
        if fits(before.0, room) {
            assert(after.0 == before.0.push(room));
            assert forall|k: int| 1 <= k < after.0.len() implies #[trigger] joined(
                after.0,
                after.1,
                w,
                k,
            ) by {
                if k < before.0.len() {
                    assert(joined(before.0, before.1, w, k));
                    let flag = choose|flag: bool| #[trigger]
                        corridor_open(
                            before.1,
                            w,
                            before.0[k - 1].spec_center(),
                            before.0[k].spec_center(),
                            flag,
                        );
                    assert(corridor_open(
                        after.1,
                        w,
                        after.0[k - 1].spec_center(),
                        after.0[k].spec_center(),
                        flag,
                    ));
                } else {
                    assert(corridor_open(
                        after.1,
                        w,
                        after.0[k - 1].spec_center(),
                        after.0[k].spec_center(),
                        draws.last().horizontal_first,
                    ));
                }
            }
        }
    }
}

/// The outer ring always keeps a wall: the top-left corner of the grid is
/// never opened.
pub proof fn lemma_corner_stays_wall(cfg: MapConfig, draws: Seq<RoomDraw>)
    requires
        cfg.valid(),
        all_valid(cfg, draws),
    ensures
        generate(cfg, draws).1.len() > 0,
        on_ring(0, cfg.width as int, cfg.height as int),
        generate(cfg, draws).1[0] == TileType::Wall,
    decreases draws.len(),
{
    lemma_generate_shape(cfg, draws);
    assert(cfg.width * cfg.height > 0) by (nonlinear_arith)
        requires
            cfg.width > 0,
            cfg.height > 0,
    ;
    if draws.len() > 0 {
        let head = draws.drop_last();
        lemma_corner_stays_wall(cfg, head);
        lemma_generate_shape(cfg, head);
        assert(draws.last().valid_for(cfg));
    }
}

/// With room sides of at least 2, the outer ring of the grid stays wall:
/// rooms keep their margin, and corridors run between tiles inside rooms.
pub proof fn lemma_ring_is_wall(cfg: MapConfig, draws: Seq<RoomDraw>)
    requires
        cfg.valid(),
        cfg.min_size >= 2,
        all_valid(cfg, draws),
    ensures
        forall|i: int|
            0 <= i < generate(cfg, draws).1.len() && on_ring(
                i,
                cfg.width as int,
                cfg.height as int,
            ) ==> #[trigger] generate(cfg, draws).1[i] == TileType::Wall,
    decreases draws.len(),
{
    if draws.len() > 0 {
        let head = draws.drop_last();
        lemma_ring_is_wall(cfg, head);
        lemma_generate_shape(cfg, head);
        lemma_generate_shape(cfg, draws);
        let before = generate(cfg, head);
        let room = draws.last().room();
        let after = generate(cfg, draws);
        let w = cfg.width as int;
        let h = cfg.height as int;
        if fits(before.0, room) {
            assert(draws.last().valid_for(cfg));
            lemma_center_in_interior(room);
            let to = room.spec_center();
            assert forall|i: int| 0 <= i < after.1.len() && on_ring(i, w, h) implies #[trigger] after.1[i]
                == TileType::Wall by {
                assert(before.1[i] == TileType::Wall);
                assert(!room.interior_contains(i % w, i / w));
                if before.0.len() > 0 {
                    let prev = before.0.last();
                    assert(room_in_margin(prev, cfg));
                    lemma_center_in_interior(prev);
                    let from = prev.spec_center();
                    if i > 0 {
                        lemma_horizontal_run_in_row(i, w, from.0, to.0, from.1);
                        lemma_horizontal_run_in_row(i, w, from.0, to.0, to.1);
                        lemma_vertical_run_in_column(i, w, from.1, to.1, from.0);
                        lemma_vertical_run_in_column(i, w, from.1, to.1, to.0);
                    }
                }
            }
        }
    }
}

/// What holds of every dungeon that the generator returns under `cfg`.
pub open spec fn well_built(cfg: MapConfig, rooms: Seq<TRect>, tiles: Seq<TileType>) -> bool {
    let width = cfg.width as int;
    let height = cfg.height as int;
    // The grid has its size, and its top-left corner is wall.
    &&& tiles.len() == width * height
    &&& tiles.len() > 0
    &&& tiles[0] == TileType::Wall
    // No more rooms than attempts, and one room if there was an attempt.
    &&& rooms.len() <= cfg.max_rooms
    &&& cfg.max_rooms > 0 ==> rooms.len() > 0
    // Every room keeps its margin, and no two rooms overlap or touch.
    &&& forall|k: int| 0 <= k < rooms.len() ==> room_in_margin(#[trigger] rooms[k], cfg)
    &&& rooms_keep_clear(rooms)
    // The interior of every room is floor.
    &&& forall|k: int, i: int|
        0 <= k < rooms.len() && 0 <= i < tiles.len() && (#[trigger] rooms[k]).interior_contains(
            i % width,
            i / width,
        ) ==> #[trigger] tiles[i] == TileType::Floor
    // Every room but the first is joined to the room before it.
    &&& forall|k: int| 1 <= k < rooms.len() ==> #[trigger] joined(rooms, tiles, width, k)
    // Floor is only where a room or a corridor was opened.
    &&& forall|i: int|
        0 <= i < tiles.len() && #[trigger] tiles[i] == TileType::Floor ==> carved(rooms, width, i)
    // With room sides of at least 2 the whole outer ring is wall.
    &&& cfg.min_size >= 2 ==> forall|i: int|
        0 <= i < tiles.len() && on_ring(i, width, height) ==> #[trigger] tiles[i]
            == TileType::Wall
}

/// Every full run of valid draws under a valid configuration leaves a
/// dungeon that is well built.
pub proof fn lemma_generate_is_well_built(cfg: MapConfig, draws: Seq<RoomDraw>)
    requires
        cfg.valid(),
        all_valid(cfg, draws),
        draws.len() == cfg.max_rooms,
    ensures
        well_built(cfg, generate(cfg, draws).0, generate(cfg, draws).1),
{
    lemma_generate_shape(cfg, draws);
    lemma_rooms_keep_clear(cfg, draws);
    lemma_rooms_are_floor(cfg, draws);
    lemma_rooms_are_joined(cfg, draws);
    lemma_floor_is_carved(cfg, draws);
    lemma_corner_stays_wall(cfg, draws);
    if cfg.min_size >= 2 {
        lemma_ring_is_wall(cfg, draws);
    }
}

/// The two sequences hold the same candidates: as many, with the same sides
/// and corners. Their coins may differ.
pub open spec fn same_candidates(a: Seq<RoomDraw>, b: Seq<RoomDraw>) -> bool {
    &&& a.len() == b.len()
    &&& forall|k: int| 0 <= k < a.len() ==> (#[trigger] a[k]).room() == b[k].room()
}

/// The generator looks at the coin of draw number `k`: the candidate is
/// accepted and is not the first room.
pub open spec fn coin_used(cfg: MapConfig, draws: Seq<RoomDraw>, k: int) -> bool {
    let before = generate(cfg, draws.take(k)).0;
    before.len() > 0 && fits(before, draws[k].room())
}

/// The dungeon depends on the draws only through what the generator looks
/// at: runs with the same candidates, and the same coin wherever a coin is
/// used, leave the same rooms and the same cells.
pub proof fn lemma_unused_coins_do_not_matter(cfg: MapConfig, a: Seq<RoomDraw>, b: Seq<RoomDraw>)
    requires
        same_candidates(a, b),
        forall|k: int|
            0 <= k < a.len() && #[trigger] coin_used(cfg, a, k) ==> a[k].horizontal_first
                == b[k].horizontal_first,
    ensures
        generate(cfg, a) == generate(cfg, b),
    decreases a.len(),
{
    if a.len() > 0 {
        let n = a.len() - 1;
        let head_a = a.drop_last();
        let head_b = b.drop_last();
        assert(head_a =~= a.take(n));
        assert forall|k: int| 0 <= k < head_a.len() implies (#[trigger] head_a[k]).room()
            == head_b[k].room() by {
            assert(a[k].room() == b[k].room());
        }
        assert forall|k: int| 0 <= k < head_a.len() && #[trigger] coin_used(cfg, head_a, k) implies head_a[k].horizontal_first
            == head_b[k].horizontal_first by {
            assert(head_a.take(k) =~= a.take(k));
            assert(coin_used(cfg, a, k));
        }
        lemma_unused_coins_do_not_matter(cfg, head_a, head_b);
        assert(a[n].room() == b[n].room());
        let before = generate(cfg, head_a);
        if before.0.len() > 0 && fits(before.0, a[n].room()) {
            assert(coin_used(cfg, a, n));
        }
    }
}

/// The same draws give the same dungeon: two outcomes of the generator
/// under one configuration and one sequence of draws have the same rooms,
/// the same shape and the same cells.
pub proof fn lemma_same_draws_same_dungeon(
    cfg: MapConfig,
    draws: Seq<RoomDraw>,
    rooms_a: Seq<TRect>,
    grid_a: TileGrid,
    rooms_b: Seq<TRect>,
    grid_b: TileGrid,
)
    requires
        generated_by(cfg, draws, rooms_a, grid_a),
        generated_by(cfg, draws, rooms_b, grid_b),
    ensures
        rooms_a == rooms_b,
        grid_a.same_shape(&grid_b),
        grid_a@ == grid_b@,
{
}

} // verus!
