use vstd::prelude::*;
use bracket_random::prelude::RandomNumberGenerator;
use crate::grid::{flat_index, TileGrid};
use crate::tile::TileType;

verus! {

/// Number of columns of the scattered map.
pub const SCATTER_WIDTH: i32 = 80;

/// Number of rows of the scattered map.
pub const SCATTER_HEIGHT: i32 = 50;

/// Number of walls that are thrown onto the scattered map.
pub const SCATTER_WALLS: usize = 400;

/// Column of the tile that is kept free of scattered walls.
pub const SCATTER_CLEAR_X: i32 = 40;

/// Row of the tile that is kept free of scattered walls.
pub const SCATTER_CLEAR_Y: i32 = 25;

/// The tile `(x, y)` lies on the outer ring of the scattered map.
pub open spec fn on_rim(x: int, y: int) -> bool {
    x == 0 || x == SCATTER_WIDTH - 1 || y == 0 || y == SCATTER_HEIGHT - 1
}

/// A place where a wall may be thrown: column 1 to 79, row 1 to 49.
pub open spec fn spot_valid(spot: (int, int)) -> bool {
    1 <= spot.0 <= SCATTER_WIDTH - 1 && 1 <= spot.1 <= SCATTER_HEIGHT - 1
}

/// The cell number of a place.
pub open spec fn spot_index(spot: (int, int)) -> int {
    flat_index(spot.0, spot.1, SCATTER_WIDTH as int)
}

/// Cell number `i` is one of the places `spots`.
pub open spec fn hit(spots: Seq<(int, int)>, i: int) -> bool {
    exists|k: int| 0 <= k < spots.len() && spot_index(#[trigger] spots[k]) == i
}

/// The cells of the scattered map for the places `spots`: wall on the outer
/// ring and on every place but the one kept clear, floor elsewhere.
pub open spec fn scattered(spots: Seq<(int, int)>) -> Seq<TileType> {
    Seq::new(
        (SCATTER_WIDTH * SCATTER_HEIGHT) as nat,
        |i: int|
            if on_rim(i % (SCATTER_WIDTH as int), i / (SCATTER_WIDTH as int)) || (hit(spots, i)
                && i != spot_index((SCATTER_CLEAR_X as int, SCATTER_CLEAR_Y as int))) {
                TileType::Wall
            } else {
                TileType::Floor
            },
    )
}

/// `grid` is a scattered map: 80 by 50 cells, laid out by 400 valid places.
pub open spec fn is_scattered_map(grid: TileGrid) -> bool {
    &&& grid.wf()
    &&& grid.spec_width() == SCATTER_WIDTH
    &&& grid.spec_height() == SCATTER_HEIGHT
    &&& exists|spots: Seq<(int, int)>|
        spots.len() == SCATTER_WALLS && (forall|k: int|
            0 <= k < spots.len() ==> spot_valid(#[trigger] spots[k])) && grid@ == #[trigger] scattered(
            spots,
        )
}

/// One more place hits the cells hit before and its own cell.
pub proof fn lemma_hit_push(spots: Seq<(int, int)>, spot: (int, int), i: int)
    ensures
        hit(spots.push(spot), i) <==> (hit(spots, i) || spot_index(spot) == i),
{
    let more = spots.push(spot);
    if hit(more, i) {
        let k = choose|k: int| 0 <= k < more.len() && spot_index(#[trigger] more[k]) == i;
        if k < spots.len() {
            assert(spot_index(spots[k]) == i);
        }
    }
    if hit(spots, i) {
        let k = choose|k: int| 0 <= k < spots.len() && spot_index(#[trigger] spots[k]) == i;
        assert(spot_index(more[k]) == i);
    }
    if spot_index(spot) == i {
        assert(spot_index(more[spots.len() as int]) == i);
    }
}

/// Throws one wall at the tile `(x, y)`. The tile that is kept clear stays
/// as it is.
pub fn scatter_wall(grid: &mut TileGrid, x: i32, y: i32)
    requires
        old(grid).wf(),
        old(grid).spec_width() == SCATTER_WIDTH,
        old(grid).in_bounds(x as int, y as int),
    ensures
        final(grid).wf(),
        final(grid).same_shape(old(grid)),
        final(grid)@ == if (x, y) == (SCATTER_CLEAR_X, SCATTER_CLEAR_Y) {
            old(grid)@
        } else {
            old(grid)@.update(spot_index((x as int, y as int)), TileType::Wall)
        },
{
    if !(x == SCATTER_CLEAR_X && y == SCATTER_CLEAR_Y) {
        grid.set(x, y, TileType::Wall);
    }
}

/// Makes a map of 80 by 50 tiles with a solid outer ring and 400 walls
/// thrown at random places inside it; two walls may land on one place. The
/// tile at column 40, row 25 is always left open.
pub fn new_map_test(rng: &mut RandomNumberGenerator) -> (grid: TileGrid)
    ensures
        is_scattered_map(grid),
{
    let mut grid = TileGrid::new(SCATTER_WIDTH, SCATTER_HEIGHT, TileType::Floor).unwrap();
    let mut x: i32 = 0;
    while x < SCATTER_WIDTH
        invariant
            grid.wf(),
            grid.spec_width() == SCATTER_WIDTH,
            grid.spec_height() == SCATTER_HEIGHT,
            0 <= x <= SCATTER_WIDTH,
            grid@ == Seq::new(
                4000,
                |i: int|
                    if (i / 80 == 0 || i / 80 == 49) && i % 80 < x {
                        TileType::Wall
                    } else {
                        TileType::Floor
                    },
            ),
        decreases SCATTER_WIDTH - x,
    {
        grid.set(x, 0, TileType::Wall);
        grid.set(x, SCATTER_HEIGHT - 1, TileType::Wall);
        x = x + 1;
        assert(grid@ =~= Seq::new(
            4000,
            |i: int|
                if (i / 80 == 0 || i / 80 == 49) && i % 80 < x {
                    TileType::Wall
                } else {
                    TileType::Floor
                },
        ));
    }
    let mut y: i32 = 0;
    assert(grid@ =~= Seq::new(
        4000,
        |i: int|
            if i / 80 == 0 || i / 80 == 49 || ((i % 80 == 0 || i % 80 == 79) && i / 80 < y) {
                TileType::Wall
            } else {
                TileType::Floor
            },
    ));
    while y < SCATTER_HEIGHT
        invariant
            grid.wf(),
            grid.spec_width() == SCATTER_WIDTH,
            grid.spec_height() == SCATTER_HEIGHT,
            0 <= y <= SCATTER_HEIGHT,
            grid@ == Seq::new(
                4000,
                |i: int|
                    if i / 80 == 0 || i / 80 == 49 || ((i % 80 == 0 || i % 80 == 79) && i / 80
                        < y) {
                        TileType::Wall
                    } else {
                        TileType::Floor
                    },
            ),
        decreases SCATTER_HEIGHT - y,
    {
        grid.set(0, y, TileType::Wall);
        grid.set(SCATTER_WIDTH - 1, y, TileType::Wall);
        y = y + 1;
        assert(grid@ =~= Seq::new(
            4000,
            |i: int|
                if i / 80 == 0 || i / 80 == 49 || ((i % 80 == 0 || i % 80 == 79) && i / 80 < y) {
                    TileType::Wall
                } else {
                    TileType::Floor
                },
        ));
    }
    let ghost mut spots: Seq<(int, int)> = Seq::empty();
    assert(grid@ =~= scattered(spots));
    let mut thrown: usize = 0;
    while thrown < SCATTER_WALLS
        invariant
            grid.wf(),
            grid.spec_width() == SCATTER_WIDTH,
            grid.spec_height() == SCATTER_HEIGHT,
            thrown <= SCATTER_WALLS,
            spots.len() == thrown,
            forall|k: int| 0 <= k < spots.len() ==> spot_valid(#[trigger] spots[k]),
            grid@ == scattered(spots),
        decreases SCATTER_WALLS - thrown,
    {
        let x = rng.roll_dice(1, SCATTER_WIDTH - 1);
        let y = rng.roll_dice(1, SCATTER_HEIGHT - 1);
        scatter_wall(&mut grid, x, y);
        proof {
            let spot = (x as int, y as int);
            assert forall|i: int| 0 <= i < 4000 implies grid@[i] == scattered(spots.push(spot))[i] by {
                lemma_hit_push(spots, spot, i);
            }
            assert(grid@ =~= scattered(spots.push(spot)));
            spots = spots.push(spot);
        }
        thrown = thrown + 1;
    }
    assert(spots.len() == SCATTER_WALLS && (forall|k: int|
        0 <= k < spots.len() ==> spot_valid(#[trigger] spots[k])) && grid@ == scattered(spots));
    grid
}

} // verus!
