use vstd::prelude::*;

verus! {

/// Side of a tile in world units.
pub const TILE_SIZE: i64 = 16;

/// The world position of the top-left corner of the tile `(x, y)`.
pub open spec fn spec_xy_world(x: int, y: int) -> (int, int) {
    (x * TILE_SIZE, y * TILE_SIZE)
}

/// The tile that holds the world position `(wx, wy)`: each coordinate
/// divided by the side of a tile and rounded down, also below zero.
pub open spec fn spec_world_xy(wx: int, wy: int) -> (int, int) {
    (wx / (TILE_SIZE as int), wy / (TILE_SIZE as int))
}

/// The world position of the top-left corner of the tile `(x, y)`.
pub fn xy_world(x: i32, y: i32) -> (p: (i64, i64))
    ensures
        (p.0 as int, p.1 as int) == spec_xy_world(x as int, y as int),
{
    ((x as i64) * TILE_SIZE, (y as i64) * TILE_SIZE)
}

/// One world coordinate divided by the side of a tile, rounded down.
fn floor_tile(w: i64) -> (t: i64)
    ensures
        t == (w as int) / (TILE_SIZE as int),
{
    let q = w / TILE_SIZE;
    if w % TILE_SIZE < 0 {
        q - 1
    } else {
        q
    }
}

/// The tile that holds the world position `(wx, wy)`. World positions left
/// of or above the origin lie in tiles with negative coordinates.
pub fn world_xy(wx: i64, wy: i64) -> (t: (i64, i64))
    ensures
        (t.0 as int, t.1 as int) == spec_world_xy(wx as int, wy as int),
{
    (floor_tile(wx), floor_tile(wy))
}

/// Going from a tile to its world position and back gives the tile again.
pub proof fn lemma_tile_round_trip(x: int, y: int)
    ensures
        ({
            let p = spec_xy_world(x, y);
            spec_world_xy(p.0, p.1)
        }) == (x, y),
{
}

/// Every world position lies in the tile that `spec_world_xy` names: at or
/// after the tile's corner and less than one tile side from it.
pub proof fn lemma_world_position_in_its_tile(wx: int, wy: int)
    ensures
        ({
            let t = spec_world_xy(wx, wy);
            let p = spec_xy_world(t.0, t.1);
            p.0 <= wx < p.0 + TILE_SIZE && p.1 <= wy < p.1 + TILE_SIZE
        }),
{
}

} // verus!
