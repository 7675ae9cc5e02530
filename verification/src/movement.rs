use vstd::prelude::*;
use crate::coords::{spec_world_xy, TILE_SIZE};
use crate::grid::TileGrid;
use crate::tile::TileType;

verus! {

/// `v` held to the range from 0 to `bound`: the smaller of `bound` and the
/// larger of 0 and `v`.
pub open spec fn clamp_to(v: int, bound: int) -> int {
    if v < 0 {
        if bound < 0 {
            bound
        } else {
            0
        }
    } else if v > bound {
        bound
    } else {
        v
    }
}

/// The tile `(tx, ty)` can be walked on: it is a cell of the grid and holds
/// floor. Every tile outside the grid blocks.
pub open spec fn walkable(grid: &TileGrid, tx: int, ty: int) -> bool {
    grid.in_bounds(tx, ty) && grid.tile_at(tx, ty) == TileType::Floor
}

/// Where a move from `pos` by `(dx, dy)` ends: at the destination held to
/// the world bounds if the tile under the destination can be walked on,
/// nowhere if it blocks.
pub open spec fn spec_try_move(
    pos: (int, int),
    dx: int,
    dy: int,
    grid: &TileGrid,
    bounds: (int, int),
) -> Option<(int, int)> {
    let tile = spec_world_xy(pos.0 + dx, pos.1 + dy);
    if walkable(grid, tile.0, tile.1) {
        Some((clamp_to(pos.0 + dx, bounds.0), clamp_to(pos.1 + dy, bounds.1)))
    } else {
        None
    }
}

/// Whether the tile `(tx, ty)` can be walked on. The coordinates are held
/// against the extent of the grid before any cell is read.
pub fn is_walkable(grid: &TileGrid, tx: i64, ty: i64) -> (b: bool)
    requires
        grid.wf(),
    ensures
        b == walkable(grid, tx as int, ty as int),
{
    if 0 <= tx && tx < grid.width() as i64 && 0 <= ty && ty < grid.height() as i64 {
        match grid.get(tx as i32, ty as i32) {
            Some(TileType::Floor) => true,
            _ => false,
        }
    } else {
        false
    }
}

/// One world coordinate held to the range from 0 to `bound`.
fn clamp_coordinate(v: i128, bound: i64) -> (c: i64)
    ensures
        c == clamp_to(v as int, bound as int),
{
    if v < 0 {
        if bound < 0 {
            bound
        } else {
            0
        }
    } else if v > bound as i128 {
        bound
    } else {
        v as i64
    }
}

/// One world coordinate divided by the side of a tile, rounded down, or
/// `None` if the tile coordinate is beyond every grid.
fn tile_of(w: i128) -> (t: Option<i64>)
    ensures
        match t {
            Some(v) => v == (w as int) / (TILE_SIZE as int),
            None => (w as int) / (TILE_SIZE as int) < 0 || (w as int) / (TILE_SIZE as int)
                > i32::MAX,
        },
{
    let q = w / 16;
    let f = if w % 16 < 0 {
        q - 1
    } else {
        q
    };
    if 0 <= f && f <= 0x7fff_ffff {
        Some(f as i64)
    } else {
        None
    }
}

/// Tries to move from the world position `pos` by `(dx, dy)`. The move is
/// accepted if the tile under the destination is floor; the new position is
/// then the destination, each coordinate held on its own to the range from 0
/// to its world bound. A destination on a wall or outside the grid rejects
/// the move, and the result is `None`: the position stays as it is.
pub fn try_move(pos: (i64, i64), dx: i64, dy: i64, grid: &TileGrid, bounds: (i64, i64)) -> (r:
    Option<(i64, i64)>)
    requires
        grid.wf(),
    ensures
        match spec_try_move(
            (pos.0 as int, pos.1 as int),
            dx as int,
            dy as int,
            grid,
            (bounds.0 as int, bounds.1 as int),
        ) {
            Some(p) => r matches Some(q) && q.0 == p.0 && q.1 == p.1,
            None => r is None,
        },
{
    let dest_x: i128 = pos.0 as i128 + dx as i128;
    let dest_y: i128 = pos.1 as i128 + dy as i128;
    let tx = match tile_of(dest_x) {
        Some(t) => t,
        None => {
            return None;
        },
    };
    let ty = match tile_of(dest_y) {
        Some(t) => t,
        None => {
            return None;
        },
    };
    if is_walkable(grid, tx, ty) {
        Some((clamp_coordinate(dest_x, bounds.0), clamp_coordinate(dest_y, bounds.1)))
    } else {
        None
    }
}

/// Which of the four direction keys are held down.
#[derive(PartialEq, Eq, Structural, Clone, Copy, Debug)]
pub struct HeldKeys {
    pub left: bool,
    pub right: bool,
    pub up: bool,
    pub down: bool,
}

/// How far one held key moves the player, in world units.
pub const PLAYER_STEP: i64 = 1;

/// The position after one attempt to move: the new position if the move is
/// accepted, the old one if it is rejected.
pub open spec fn step_or_stay(
    pos: (int, int),
    dx: int,
    dy: int,
    grid: &TileGrid,
    bounds: (int, int),
) -> (int, int) {
    match spec_try_move(pos, dx, dy, grid, bounds) {
        Some(p) => p,
        None => pos,
    }
}

/// The steps that the held keys ask for, in the order left, right, up, down.
pub open spec fn spec_held_steps(keys: HeldKeys) -> Seq<(int, int)> {
    let left: Seq<(int, int)> = if keys.left {
        seq![(-PLAYER_STEP, 0int)]
    } else {
        seq![]
    };
    let right: Seq<(int, int)> = if keys.right {
        seq![(PLAYER_STEP as int, 0int)]
    } else {
        seq![]
    };
    let up: Seq<(int, int)> = if keys.up {
        seq![(0int, -PLAYER_STEP)]
    } else {
        seq![]
    };
    let down: Seq<(int, int)> = if keys.down {
        seq![(0int, PLAYER_STEP as int)]
    } else {
        seq![]
    };
    left + right + up + down
}

/// The position after the attempts `steps`, made one after the other, each
/// from the position that the one before it left.
pub open spec fn walk(pos: (int, int), steps: Seq<(int, int)>, grid: &TileGrid, bounds: (int, int)) -> (
    int,
    int,
)
    decreases steps.len(),
{
    if steps.len() == 0 {
        pos
    } else {
        step_or_stay(
            walk(pos, steps.drop_last(), grid, bounds),
            steps.last().0,
            steps.last().1,
            grid,
            bounds,
        )
    }
}

/// The position after one tick: one attempt for each held key, in the
/// order left, right, up, down, each starting where the one before ended.
pub open spec fn spec_player_input(
    pos: (int, int),
    keys: HeldKeys,
    grid: &TileGrid,
    bounds: (int, int),
) -> (int, int) {
    let after_left = if keys.left {
        step_or_stay(pos, -PLAYER_STEP, 0, grid, bounds)
    } else {
        pos
    };
    let after_right = if keys.right {
        step_or_stay(after_left, PLAYER_STEP as int, 0, grid, bounds)
    } else {
        after_left
    };
    let after_up = if keys.up {
        step_or_stay(after_right, 0, -PLAYER_STEP, grid, bounds)
    } else {
        after_right
    };
    if keys.down {
        step_or_stay(after_up, 0, PLAYER_STEP as int, grid, bounds)
    } else {
        after_up
    }
}

/// The steps that the held keys ask for: one step of `PLAYER_STEP` for each
/// held key, in the order left, right, up, down.
pub fn held_steps(keys: &HeldKeys) -> (steps: Vec<(i64, i64)>)
    ensures
        steps@.len() == spec_held_steps(*keys).len(),
        forall|k: int|
            0 <= k < steps@.len() ==> (#[trigger] steps@[k]).0 == spec_held_steps(*keys)[k].0
                && steps@[k].1 == spec_held_steps(*keys)[k].1,
{
    let mut steps: Vec<(i64, i64)> = Vec::new();
    if keys.left {
        steps.push((-PLAYER_STEP, 0));
    }
    if keys.right {
        steps.push((PLAYER_STEP, 0));
    }
    if keys.up {
        steps.push((0, -PLAYER_STEP));
    }
    if keys.down {
        steps.push((0, PLAYER_STEP));
    }
    steps
}

/// One attempt to move; a rejected move leaves the position as it is.
fn move_or_stay(pos: (i64, i64), dx: i64, dy: i64, grid: &TileGrid, bounds: (i64, i64)) -> (p: (
    i64,
    i64,
))
    requires
        grid.wf(),
    ensures
        (p.0 as int, p.1 as int) == step_or_stay(
            (pos.0 as int, pos.1 as int),
            dx as int,
            dy as int,
            grid,
            (bounds.0 as int, bounds.1 as int),
        ),
{
    match try_move(pos, dx, dy, grid, bounds) {
        Some(p) => p,
        None => pos,
    }
}

/// Moves the player for one tick. Every held key makes its own attempt, in
/// the order left, right, up, down, and each attempt starts from the
/// position that the one before it left, so two held keys add up.
pub fn player_input(pos: (i64, i64), keys: &HeldKeys, grid: &TileGrid, bounds: (i64, i64)) -> (p:
    (i64, i64))
    requires
        grid.wf(),
    ensures
        (p.0 as int, p.1 as int) == spec_player_input(
            (pos.0 as int, pos.1 as int),
            *keys,
            grid,
            (bounds.0 as int, bounds.1 as int),
        ),
{
    let mut p = pos;
    if keys.left {
        p = move_or_stay(p, -PLAYER_STEP, 0, grid, bounds);
    }
    if keys.right {
        p = move_or_stay(p, PLAYER_STEP, 0, grid, bounds);
    }
    if keys.up {
        p = move_or_stay(p, 0, -PLAYER_STEP, grid, bounds);
    }
    if keys.down {
        p = move_or_stay(p, 0, PLAYER_STEP, grid, bounds);
    }
    p
}

/// One tick is a walk over the steps of the held keys: making the attempts
/// of `spec_held_steps` one after the other ends where `spec_player_input`
/// does.
pub proof fn lemma_player_input_walks_held_steps(
    pos: (int, int),
    keys: HeldKeys,
    grid: &TileGrid,
    bounds: (int, int),
)
    ensures
        walk(pos, spec_held_steps(keys), grid, bounds) == spec_player_input(pos, keys, grid, bounds),
{
    let left: Seq<(int, int)> = if keys.left {
        seq![(-PLAYER_STEP, 0int)]
    } else {
        seq![]
    };
    let right: Seq<(int, int)> = if keys.right {
        seq![(PLAYER_STEP as int, 0int)]
    } else {
        seq![]
    };
    let up: Seq<(int, int)> = if keys.up {
        seq![(0int, -PLAYER_STEP)]
    } else {
        seq![]
    };
    let down: Seq<(int, int)> = if keys.down {
        seq![(0int, PLAYER_STEP as int)]
    } else {
        seq![]
    };
    lemma_walk_one_more(pos, left, right, grid, bounds);
    lemma_walk_one_more(pos, left + right, up, grid, bounds);
    lemma_walk_one_more(pos, left + right + up, down, grid, bounds);
    lemma_walk_one_more(pos, seq![], left, grid, bounds);
    assert(Seq::<(int, int)>::empty() + left =~= left);
}

/// A walk followed by at most one more step.
proof fn lemma_walk_one_more(
    pos: (int, int),
    steps: Seq<(int, int)>,
    more: Seq<(int, int)>,
    grid: &TileGrid,
    bounds: (int, int),
)
    requires
        more.len() <= 1,
    ensures
        walk(pos, steps + more, grid, bounds) == if more.len() == 0 {
            walk(pos, steps, grid, bounds)
        } else {
            step_or_stay(walk(pos, steps, grid, bounds), more[0].0, more[0].1, grid, bounds)
        },
{
    if more.len() == 0 {
        assert(steps + more =~= steps);
    } else {
        assert((steps + more).drop_last() =~= steps);
        assert((steps + more).last() == more[0]);
    }
}

/// A move toward a wall, or toward a tile outside the grid, is rejected.
pub proof fn lemma_move_into_wall_is_rejected(
    pos: (int, int),
    dx: int,
    dy: int,
    grid: &TileGrid,
    bounds: (int, int),
)
    requires
        ({
            let tile = spec_world_xy(pos.0 + dx, pos.1 + dy);
            !grid.in_bounds(tile.0, tile.1) || grid.tile_at(tile.0, tile.1) == TileType::Wall
        }),
    ensures
        spec_try_move(pos, dx, dy, grid, bounds) is None,
        step_or_stay(pos, dx, dy, grid, bounds) == pos,
{
}

/// A move toward a floor tile is accepted and ends at the destination held
/// to the world bounds; within non-negative bounds the result lies between 0
/// and the bound on each axis.
pub proof fn lemma_move_onto_floor_is_clamped(
    pos: (int, int),
    dx: int,
    dy: int,
    grid: &TileGrid,
    bounds: (int, int),
)
    requires
        ({
            let tile = spec_world_xy(pos.0 + dx, pos.1 + dy);
            grid.in_bounds(tile.0, tile.1) && grid.tile_at(tile.0, tile.1) == TileType::Floor
        }),
    ensures
        spec_try_move(pos, dx, dy, grid, bounds) == Some(
            (clamp_to(pos.0 + dx, bounds.0), clamp_to(pos.1 + dy, bounds.1)),
        ),
        step_or_stay(pos, dx, dy, grid, bounds) == (
            clamp_to(pos.0 + dx, bounds.0),
            clamp_to(pos.1 + dy, bounds.1),
        ),
        0 <= bounds.0 ==> 0 <= clamp_to(pos.0 + dx, bounds.0) <= bounds.0,
        0 <= bounds.1 ==> 0 <= clamp_to(pos.1 + dy, bounds.1) <= bounds.1,
        0 <= pos.0 + dx <= bounds.0 ==> clamp_to(pos.0 + dx, bounds.0) == pos.0 + dx,
        0 <= pos.1 + dy <= bounds.1 ==> clamp_to(pos.1 + dy, bounds.1) == pos.1 + dy,
{
}

} // verus!
