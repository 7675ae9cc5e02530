use vstd::prelude::*;
use vstd::arithmetic::div_mod::lemma_fundamental_div_mod_converse;
use crate::config::{grid_size_error, ConfigError, MAX_CELLS};
use crate::tile::TileType;

verus! {

/// The place of the tile `(x, y)` in a row-major grid of `width` columns.
pub open spec fn flat_index(x: int, y: int, width: int) -> int {
    y * width + x
}

/// A tile of a grid lies inside the sequence of its cells.
pub proof fn lemma_flat_index_in_range(x: int, y: int, width: int, height: int)
    requires
        0 <= x < width,
        0 <= y < height,
    ensures
        0 <= flat_index(x, y, width) < width * height,
        flat_index(x, y, width) >= y * width,
{
    assert(0 <= y * width <= (height - 1) * width) by (nonlinear_arith)
        requires
            0 <= y <= height - 1,
            0 < width,
    ;
    assert((height - 1) * width == width * height - width) by (nonlinear_arith);
}

/// Column and row are read back from a flat index by remainder and quotient.
pub proof fn lemma_flat_index_decodes(x: int, y: int, width: int)
    requires
        0 <= x < width,
    ensures
        flat_index(x, y, width) % width == x,
        flat_index(x, y, width) / width == y,
{
    lemma_fundamental_div_mod_converse(flat_index(x, y, width), width, y, x);
}

/// The flat index of an in-range tile: `y * width + x`.
pub fn xy_idx(x: i32, y: i32, width: i32) -> (idx: usize)
    requires
        0 <= x < width,
        0 <= y,
        flat_index(x as int, y as int, width as int) <= usize::MAX,
    ensures
        idx == flat_index(x as int, y as int, width as int),
{
    assert(0 <= y * width <= 0x4000_0000_0000_0000) by (nonlinear_arith)
        requires
            0 <= y <= 0x7fff_ffff,
            0 <= width <= 0x7fff_ffff,
    ;
    let wide: u64 = (y as u64) * (width as u64) + (x as u64);
    wide as usize
}

/// A rectangular grid of tiles, stored row by row from the top-left corner.
#[derive(Debug)]
pub struct TileGrid {
    width: i32,
    height: i32,
    tiles: Vec<TileType>,
}

impl View for TileGrid {
    type V = Seq<TileType>;

    /// The cells in row-major order.
    closed spec fn view(&self) -> Seq<TileType> {
        self.tiles@
    }
}

impl TileGrid {
    /// Number of columns.
    pub closed spec fn spec_width(&self) -> int {
        self.width as int
    }

    /// Number of rows.
    pub closed spec fn spec_height(&self) -> int {
        self.height as int
    }

    /// The grid has at least one cell and at most `MAX_CELLS`, and holds
    /// exactly one tile for each cell.
    pub open spec fn wf(&self) -> bool {
        &&& 0 < self.spec_width() <= i32::MAX
        &&& 0 < self.spec_height() <= i32::MAX
        &&& self.spec_width() * self.spec_height() <= MAX_CELLS
        &&& self@.len() == self.spec_width() * self.spec_height()
    }

    /// The tile `(x, y)` is a cell of the grid.
    pub open spec fn in_bounds(&self, x: int, y: int) -> bool {
        0 <= x < self.spec_width() && 0 <= y < self.spec_height()
    }

    /// What the cell `(x, y)` holds.
    pub open spec fn tile_at(&self, x: int, y: int) -> TileType
        recommends
            self.in_bounds(x, y),
    {
        self@[flat_index(x, y, self.spec_width())]
    }

    /// The same number of columns and rows as `other`.
    pub open spec fn same_shape(&self, other: &TileGrid) -> bool {
        self.spec_width() == other.spec_width() && self.spec_height() == other.spec_height()
    }

    /// A grid of `width` by `height` cells that all hold `fill`.
    pub fn new(width: i32, height: i32, fill: TileType) -> (r: Result<TileGrid, ConfigError>)
        ensures
            match grid_size_error(width as int, height as int) {
                Some(e) => r == Err::<TileGrid, ConfigError>(e),
                None => r matches Ok(g) && g.wf() && g.spec_width() == width && g.spec_height()
                    == height && g@ == Seq::new((width * height) as nat, |i: int| fill),
            },
    {
        if width < 1 || height < 1 {
            return Err(ConfigError::GridTooSmall);
        }
        assert(0 < width * height <= 0x4000_0000_0000_0000) by (nonlinear_arith)
            requires
                0 < width <= 0x7fff_ffff,
                0 < height <= 0x7fff_ffff,
        ;
        let cells: i64 = (width as i64) * (height as i64);
        if cells > MAX_CELLS as i64 {
            return Err(ConfigError::GridTooLarge);
        }
        let n: usize = cells as usize;
        let mut tiles: Vec<TileType> = Vec::with_capacity(n);
        while tiles.len() < n
            invariant
                tiles.len() <= n,
                forall|i: int| 0 <= i < tiles.len() ==> tiles[i] == fill,
            decreases n - tiles.len(),
        {
            tiles.push(fill);
        }
        let g = TileGrid { width, height, tiles };
        assert(g@ =~= Seq::new((width * height) as nat, |i: int| fill));
        Ok(g)
    }

    /// Number of columns.
    pub fn width(&self) -> (w: i32)
        ensures
            w == self.spec_width(),
    {
        self.width
    }

    /// Number of rows.
    pub fn height(&self) -> (h: i32)
        ensures
            h == self.spec_height(),
    {
        self.height
    }

    /// The cells in row-major order.
    pub fn tiles(&self) -> (s: &[TileType])
        ensures
            s@ == self@,
    {
        self.tiles.as_slice()
    }

    /// Whether `(x, y)` is a cell of the grid.
    pub fn contains(&self, x: i32, y: i32) -> (b: bool)
        ensures
            b == self.in_bounds(x as int, y as int),
    {
        0 <= x && x < self.width && 0 <= y && y < self.height
    }

    /// The tile at `(x, y)`, or `None` outside the grid.
    pub fn get(&self, x: i32, y: i32) -> (t: Option<TileType>)
        requires
            self.wf(),
        ensures
            t == if self.in_bounds(x as int, y as int) {
                Some(self.tile_at(x as int, y as int))
            } else {
                None
            },
    {
        if self.contains(x, y) {
            proof {
                lemma_flat_index_in_range(x as int, y as int, self.width as int, self.height as int);
            }
            let idx = xy_idx(x, y, self.width);
            Some(self.tiles[idx])
        } else {
            None
        }
    }

    /// Puts `tile` at `(x, y)` and returns `true`; outside the grid nothing
    /// changes and the result is `false`.
    pub fn set(&mut self, x: i32, y: i32, tile: TileType) -> (done: bool)
        requires
            old(self).wf(),
        ensures
            final(self).wf(),
            final(self).same_shape(old(self)),
            done == old(self).in_bounds(x as int, y as int),
            final(self)@ == if done {
                old(self)@.update(flat_index(x as int, y as int, old(self).spec_width()), tile)
            } else {
                old(self)@
            },
    {
        if self.contains(x, y) {
            proof {
                lemma_flat_index_in_range(x as int, y as int, self.width as int, self.height as int);
            }
            let idx = xy_idx(x, y, self.width);
            self.tiles[idx] = tile;
            true
        } else {
            false
        }
    }

    /// The tile in cell number `idx`, counting row by row.
    pub fn tile_at_index(&self, idx: usize) -> (t: TileType)
        requires
            idx < self@.len(),
        ensures
            t == self@[idx as int],
    {
        self.tiles[idx]
    }

    /// Puts `tile` in cell number `idx`, counting row by row.
    pub fn set_index(&mut self, idx: usize, tile: TileType)
        requires
            idx < old(self)@.len(),
        ensures
            final(self)@ == old(self)@.update(idx as int, tile),
            final(self).same_shape(old(self)),
    {
        self.tiles[idx] = tile;
    }
}

} // verus!
