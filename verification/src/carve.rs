use vstd::prelude::*;
use vstd::arithmetic::div_mod::lemma_fundamental_div_mod;
use vstd::math::{max, min};
use crate::grid::{flat_index, lemma_flat_index_decodes, lemma_flat_index_in_range, TileGrid};
use crate::tile::TileType;
use crate::trect::TRect;

verus! {

/// Cell number `i` of a grid of `width` columns is the tile `(x, y)` exactly
/// when its remainder and quotient by `width` are `x` and `y`.
pub proof fn lemma_same_tile(i: int, x: int, y: int, width: int)
    requires
        0 <= x < width,
    ensures
        (i % width == x && i / width == y) <==> i == flat_index(x, y, width),
{
    if i == flat_index(x, y, width) {
        lemma_flat_index_decodes(x, y, width);
    }
    if i % width == x && i / width == y {
        lemma_fundamental_div_mod(i, width);
        assert(width * y == y * width) by (nonlinear_arith);
    }
}

/// The cells after a room is opened: every cell in the interior of `room`
/// holds floor, every other cell is as before.
pub open spec fn with_room(tiles: Seq<TileType>, width: int, room: TRect) -> Seq<TileType> {
    Seq::new(
        tiles.len(),
        |i: int|
            if room.interior_contains(i % width, i / width) {
                TileType::Floor
            } else {
                tiles[i]
            },
    )
}

/// Cell number `i` is reached by a horizontal run in row `y` over the columns
/// between `x1` and `x2`, both included. Columns outside the row count on
/// into the neighbouring rows; cell number 0 is never reached.
pub open spec fn on_horizontal_run(i: int, width: int, x1: int, x2: int, y: int) -> bool {
    0 < i && min(x1, x2) <= i - y * width <= max(x1, x2)
}

/// Cell number `i` is reached by a vertical run in column `x` over the rows
/// between `y1` and `y2`, both included: `i - x` is a whole number of rows,
/// and that number is in the range. Cell number 0 is never reached.
pub open spec fn on_vertical_run(i: int, width: int, y1: int, y2: int, x: int) -> bool {
    0 < i && (i - x) % width == 0 && min(y1, y2) <= (i - x) / width <= max(y1, y2)
}

/// The cells after a horizontal tunnel: floor on the run, the rest as before.
pub open spec fn with_horizontal_tunnel(
    tiles: Seq<TileType>,
    width: int,
    x1: int,
    x2: int,
    y: int,
) -> Seq<TileType> {
    Seq::new(
        tiles.len(),
        |i: int|
            if on_horizontal_run(i, width, x1, x2, y) {
                TileType::Floor
            } else {
                tiles[i]
            },
    )
}

/// The cells after a vertical tunnel: floor on the run, the rest as before.
pub open spec fn with_vertical_tunnel(
    tiles: Seq<TileType>,
    width: int,
    y1: int,
    y2: int,
    x: int,
) -> Seq<TileType> {
    Seq::new(
        tiles.len(),
        |i: int|
            if on_vertical_run(i, width, y1, y2, x) {
                TileType::Floor
            } else {
                tiles[i]
            },
    )
}

/// The interior of `room`, if it has one, lies inside a grid of `width` by
/// `height` cells.
pub open spec fn room_inside(room: TRect, width: int, height: int) -> bool {
    room.wf() ==> -1 <= room.x1 && room.x2 < width && -1 <= room.y1 && room.y2 < height
}

/// The part of `with_room` that is done when the rows above `y` are finished
/// and row `y` is finished left of column `x`.
spec fn room_so_far(tiles: Seq<TileType>, width: int, room: TRect, y: int, x: int) -> Seq<
    TileType,
> {
    Seq::new(
        tiles.len(),
        |i: int|
            if room.interior_contains(i % width, i / width) && (i / width < y || (i / width == y
                && i % width < x)) {
                TileType::Floor
            } else {
                tiles[i]
            },
    )
}

/// Opens a room: every tile `(x, y)` with `x1 < x <= x2` and `y1 < y <= y2`
/// becomes floor. The row `y1` and the column `x1` stay as they are, so a wall
/// is left along the top and the left of the rectangle.
pub fn apply_room_to_map(room: &TRect, grid: &mut TileGrid)
    requires
        old(grid).wf(),
        room_inside(*room, old(grid).spec_width(), old(grid).spec_height()),
    ensures
        final(grid).wf(),
        final(grid).same_shape(old(grid)),
        final(grid)@ == with_room(old(grid)@, old(grid).spec_width(), *room),
        forall|x: int, y: int|
            #![trigger final(grid).tile_at(x, y)]
            old(grid).in_bounds(x, y) ==> final(grid).tile_at(x, y) == if room.interior_contains(
                x,
                y,
            ) {
                TileType::Floor
            } else {
                old(grid).tile_at(x, y)
            },
{
    proof {
        let w = grid.spec_width();
        let h = grid.spec_height();
        assert forall|x: int, y: int| 0 <= x < w && 0 <= y < h implies 0 <= #[trigger] flat_index(
            x,
            y,
            w,
        ) < w * h && flat_index(x, y, w) % w == x && flat_index(x, y, w) / w == y by {
            lemma_flat_index_in_range(x, y, w, h);
            lemma_flat_index_decodes(x, y, w);
        }
    }
    let ghost before = grid@;
    let ghost w = grid.spec_width();
    let ghost h = grid.spec_height();
    let width = grid.width();
    if !(room.x1 < room.x2 && room.y1 < room.y2) {
        assert(grid@ =~= with_room(before, w, *room));
        return ;
    }
    let mut y: i32 = room.y1 + 1;
    assert(grid@ =~= room_so_far(before, w, *room, y as int, room.x1 + 1));
    while y <= room.y2
        invariant
            room.wf(),
            room_inside(*room, w, h),
            grid.wf(),
            grid.spec_width() == w,
            grid.spec_height() == h,
            width == w,
            room.y1 + 1 <= y <= room.y2 + 1,
            grid@ == room_so_far(before, w, *room, y as int, room.x1 + 1),
            grid@.len() == before.len(),
        decreases room.y2 + 1 - y,
    {
        let mut x: i32 = room.x1 + 1;
        while x <= room.x2
            invariant
                room.wf(),
                room_inside(*room, w, h),
                grid.wf(),
                grid.spec_width() == w,
                grid.spec_height() == h,
                width == w,
                room.y1 + 1 <= y <= room.y2,
                room.x1 + 1 <= x <= room.x2 + 1,
                grid@ == room_so_far(before, w, *room, y as int, x as int),
                grid@.len() == before.len(),
            decreases room.x2 + 1 - x,
        {
            proof {
                lemma_flat_index_in_range(x as int, y as int, w, h);
            }
            let idx = crate::grid::xy_idx(x, y, width);
            grid.set_index(idx, TileType::Floor);
            proof {
                assert forall|i: int| 0 <= i < before.len() implies grid@[i] == room_so_far(
                    before,
                    w,
                    *room,
                    y as int,
                    x + 1,
                )[i] by {
                    lemma_same_tile(i, x as int, y as int, w);
                }
                assert(grid@ =~= room_so_far(before, w, *room, y as int, x + 1));
            }
            x = x + 1;
        }
        assert(grid@ =~= room_so_far(before, w, *room, y + 1, room.x1 + 1));
        y = y + 1;
    }
    assert(grid@ =~= with_room(before, w, *room));
}

/// Opens a horizontal tunnel in row `y` over the columns between `x1` and
/// `x2`, both included, in either order. A step whose cell number
/// `y * width + x` is not above 0 and below the number of cells is skipped.
pub fn apply_horizontal_tunnel(grid: &mut TileGrid, x1: i32, x2: i32, y: i32)
    requires
        old(grid).wf(),
    ensures
        final(grid).wf(),
        final(grid).same_shape(old(grid)),
        final(grid)@ == with_horizontal_tunnel(
            old(grid)@,
            old(grid).spec_width(),
            x1 as int,
            x2 as int,
            y as int,
        ),
{
    let ghost before = grid@;
    let ghost w = grid.spec_width();
    let lo: i64 = if x1 <= x2 { x1 as i64 } else { x2 as i64 };
    let hi: i64 = if x1 <= x2 { x2 as i64 } else { x1 as i64 };
    assert(-0x4000_0000_0000_0000 <= y * grid.spec_width() <= 0x4000_0000_0000_0000)
        by (nonlinear_arith)
        requires
            -0x8000_0000 <= y <= 0x7fff_ffff,
            0 <= grid.spec_width() <= 0x7fff_ffff,
    ;
    let base: i64 = (y as i64) * (grid.width() as i64);
    let cells: i64 = (grid.width() as i64) * (grid.height() as i64);
    let mut x: i64 = lo;
    assert(grid@ =~= Seq::new(
        before.len(),
        |i: int|
            if 0 < i && lo <= i - base < x {
                TileType::Floor
            } else {
                before[i]
            },
    ));
    while x <= hi
        invariant
            grid.wf(),
            grid.spec_width() == w,
            grid.same_shape(old(grid)),
            lo == min(x1 as int, x2 as int),
            hi == max(x1 as int, x2 as int),
            lo <= x <= hi + 1,
            base == y * w,
            -0x4000_0000_0000_0000 <= base <= 0x4000_0000_0000_0000,
            cells == before.len(),
            grid@.len() == before.len(),
            grid@ == Seq::new(
                before.len(),
                |i: int|
                    if 0 < i && lo <= i - base < x {
                        TileType::Floor
                    } else {
                        before[i]
                    },
            ),
        decreases hi + 1 - x,
    {
        let idx: i64 = base + x;
        if 0 < idx && idx < cells {
            grid.set_index(idx as usize, TileType::Floor);
        }
        assert(grid@ =~= Seq::new(
            before.len(),
            |i: int|
                if 0 < i && lo <= i - base < x + 1 {
                    TileType::Floor
                } else {
                    before[i]
                },
        ));
        x = x + 1;
    }
    assert(grid@ =~= with_horizontal_tunnel(before, w, x1 as int, x2 as int, y as int));
}

/// Opens a vertical tunnel in column `x` over the rows between `y1` and `y2`,
/// both included, in either order. A step whose cell number `y * width + x`
/// is not above 0 and below the number of cells is skipped.
pub fn apply_vertical_tunnel(grid: &mut TileGrid, y1: i32, y2: i32, x: i32)
    requires
        old(grid).wf(),
    ensures
        final(grid).wf(),
        final(grid).same_shape(old(grid)),
        final(grid)@ == with_vertical_tunnel(
            old(grid)@,
            old(grid).spec_width(),
            y1 as int,
            y2 as int,
            x as int,
        ),
{
    let ghost before = grid@;
    let ghost w = grid.spec_width();
    let lo: i64 = if y1 <= y2 { y1 as i64 } else { y2 as i64 };
    let hi: i64 = if y1 <= y2 { y2 as i64 } else { y1 as i64 };
    let width: i64 = grid.width() as i64;
    let cells: i64 = (grid.width() as i64) * (grid.height() as i64);
    let mut y: i64 = lo;
    assert(grid@ =~= Seq::new(
        before.len(),
        |i: int|
            if 0 < i && (i - x) % w == 0 && lo <= (i - x) / w < y {
                TileType::Floor
            } else {
                before[i]
            },
    ));
    while y <= hi
        invariant
            grid.wf(),
            grid.spec_width() == w,
            grid.same_shape(old(grid)),
            lo == min(y1 as int, y2 as int),
            hi == max(y1 as int, y2 as int),
            lo <= y <= hi + 1,
            width == w,
            cells == before.len(),
            grid@.len() == before.len(),
            grid@ == Seq::new(
                before.len(),
                |i: int|
                    if 0 < i && (i - x) % w == 0 && lo <= (i - x) / w < y {
                        TileType::Floor
                    } else {
                        before[i]
                    },
            ),
        decreases hi + 1 - y,
    {
        assert(-0x4000_0000_0000_0000 <= y * w <= 0x4000_0000_0000_0000) by (nonlinear_arith)
            requires
                -0x8000_0000 <= y <= 0x7fff_ffff,
                0 <= w <= 0x7fff_ffff,
        ;
        let idx: i64 = y * width + (x as i64);
        if 0 < idx && idx < cells {
            grid.set_index(idx as usize, TileType::Floor);
        }
        proof {
            assert forall|i: int| 0 <= i < before.len() implies grid@[i] == (if 0 < i && (i - x)
                % w == 0 && lo <= (i - x) / w < y + 1 {
                TileType::Floor
            } else {
                before[i]
            }) by {
                lemma_same_tile(i - x, 0, y as int, w);
            }
            assert(grid@ =~= Seq::new(
                before.len(),
                |i: int|
                    if 0 < i && (i - x) % w == 0 && lo <= (i - x) / w < y + 1 {
                        TileType::Floor
                    } else {
                        before[i]
                    },
            ));
        }
        y = y + 1;
    }
    assert(grid@ =~= with_vertical_tunnel(before, w, y1 as int, y2 as int, x as int));
}

} // verus!
