use vstd::prelude::*;
use crate::carve::lemma_same_tile;
use crate::coords::TILE_SIZE;
use crate::grid::{flat_index, TileGrid};
use crate::tile::TileType;

verus! {

/// A square to draw for one tile: the world position of its top-left
/// corner, its side, and what the tile holds.
#[derive(PartialEq, Eq, Structural, Clone, Copy, Debug)]
pub struct TileSprite {
    /// World position of the left edge.
    pub x: i64,
    /// World position of the top edge.
    pub y: i64,
    /// Side of the square in world units.
    pub size: i64,
    /// What the tile holds; it decides the colour.
    pub tile: TileType,
}

/// The square for cell number `i` of a grid of `width` columns.
pub open spec fn sprite_of(i: int, width: int, tile: TileType) -> TileSprite {
    TileSprite {
        x: ((i % width) * TILE_SIZE) as i64,
        y: ((i / width) * TILE_SIZE) as i64,
        size: TILE_SIZE,
        tile,
    }
}

/// The squares of all cells of a grid, row by row.
pub open spec fn spec_render_map(tiles: Seq<TileType>, width: int) -> Seq<TileSprite> {
    Seq::new(tiles.len(), |i: int| sprite_of(i, width, tiles[i]))
}

/// Lays the grid out for drawing: one square of a tile's side for each cell,
/// row by row from the top-left corner, each at the world position of its
/// tile.
pub fn render_map(grid: &TileGrid) -> (sprites: Vec<TileSprite>)
    requires
        grid.wf(),
    ensures
        sprites@ == spec_render_map(grid@, grid.spec_width()),
{
    let tiles = grid.tiles();
    let width = grid.width();
    let ghost w = grid.spec_width();
    let ghost h = grid.spec_height();
    let mut sprites: Vec<TileSprite> = Vec::with_capacity(tiles.len());
    let mut x: i32 = 0;
    let mut y: i32 = 0;
    let mut i: usize = 0;
    assert(flat_index(0, 0, w) == 0) by (nonlinear_arith);
    while i < tiles.len()
        invariant
            grid.wf(),
            tiles@ == grid@,
            width == w,
            w == grid.spec_width(),
            h == grid.spec_height(),
            i <= tiles.len(),
            0 <= x < w,
            0 <= y <= h,
            i == flat_index(x as int, y as int, w),
            sprites@ == spec_render_map(grid@, w).subrange(0, i as int),
        decreases tiles.len() - i,
    {
        proof {
            lemma_same_tile(i as int, x as int, y as int, w);
            if y >= h {
                assert(y * w >= h * w) by (nonlinear_arith)
                    requires
                        y >= h,
                        w > 0,
                ;
                assert(h * w == w * h) by (nonlinear_arith);
            }
        }
        sprites.push(
            TileSprite {
                x: (x as i64) * TILE_SIZE,
                y: (y as i64) * TILE_SIZE,
                size: TILE_SIZE,
                tile: tiles[i],
            },
        );
        assert(sprites@ =~= spec_render_map(grid@, w).subrange(0, i + 1));
        proof {
            assert((y + 1) * w + 0 == y * w + (x + 1) + (w - x - 1)) by (nonlinear_arith);
        }
        x = x + 1;
        if x >= width {
            x = 0;
            y = y + 1;
        }
        i = i + 1;
    }
    assert(sprites@ =~= spec_render_map(grid@, w));
    sprites
}

} // verus!
