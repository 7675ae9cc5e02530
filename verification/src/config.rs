use vstd::prelude::*;

verus! {

/// The largest number of cells a grid may have.
pub const MAX_CELLS: i32 = 0x7fff_ffff;

/// Why a grid or a generator configuration is refused.
#[derive(PartialEq, Eq, Structural, Clone, Copy, Debug)]
pub enum ConfigError {
    /// The smallest room side is less than one tile.
    RoomSizeNotPositive,
    /// The smallest room side is not below the bound on room sides, so there
    /// is no side length to choose from.
    EmptySizeRange,
    /// The grid has no cells, or is too narrow or too low for the largest
    /// room with a margin of one tile on each side.
    GridTooSmall,
    /// The grid has more than `MAX_CELLS` cells.
    GridTooLarge,
}

impl ConfigError {
    /// The text that `message` gives for each error.
    pub open spec fn spec_message(&self) -> Seq<char> {
        match self {
            ConfigError::RoomSizeNotPositive => "the smallest room side must be at least 1"@,
            ConfigError::EmptySizeRange =>
                "the smallest room side must be below the bound on room sides"@,
            ConfigError::GridTooSmall => "the grid is too small for the largest room and its margin"@,
            ConfigError::GridTooLarge => "the grid has too many cells"@,
        }
    }

    /// A sentence that says what is wrong.
    pub fn message(&self) -> (s: &'static str)
        ensures
            s@ == self.spec_message(),
    {
        match self {
            ConfigError::RoomSizeNotPositive => "the smallest room side must be at least 1",
            ConfigError::EmptySizeRange =>
                "the smallest room side must be below the bound on room sides",
            ConfigError::GridTooSmall => "the grid is too small for the largest room and its margin",
            ConfigError::GridTooLarge => "the grid has too many cells",
        }
    }
}

/// The error for a grid of `width` by `height` cells, if it has one.
pub open spec fn grid_size_error(width: int, height: int) -> Option<ConfigError> {
    if width < 1 || height < 1 {
        Some(ConfigError::GridTooSmall)
    } else if width * height > MAX_CELLS {
        Some(ConfigError::GridTooLarge)
    } else {
        None
    }
}

/// What the generator is asked for: the size of the grid, how many rooms to
/// attempt, and the range of room sides.
#[derive(PartialEq, Eq, Structural, Clone, Copy, Debug)]
pub struct MapConfig {
    /// Number of columns of the grid.
    pub width: i32,
    /// Number of rows of the grid.
    pub height: i32,
    /// Number of candidate rooms that are drawn.
    pub max_rooms: usize,
    /// Smallest side of a room, in tiles.
    pub min_size: i32,
    /// Bound on the side of a room: every side is below it.
    pub max_size: i32,
}

impl MapConfig {
    /// The error of this configuration, if it has one. The room sides are
    /// looked at first, then the grid against the largest room, then the
    /// number of cells.
    pub open spec fn error(&self) -> Option<ConfigError> {
        if self.min_size < 1 {
            Some(ConfigError::RoomSizeNotPositive)
        } else if self.min_size >= self.max_size {
            Some(ConfigError::EmptySizeRange)
        } else if self.width <= self.max_size || self.height <= self.max_size {
            Some(ConfigError::GridTooSmall)
        } else {
            grid_size_error(self.width as int, self.height as int)
        }
    }

    /// The configuration can be generated from.
    pub open spec fn valid(&self) -> bool {
        self.error() is None
    }

    /// A grid of 80 by 50 tiles and 30 attempts at rooms with sides from 6 to 9.
    pub fn canonical() -> (c: MapConfig)
        ensures
            c == (MapConfig { width: 80, height: 50, max_rooms: 30, min_size: 6, max_size: 10 }),
            c.valid(),
    {
        assert(80int * 50int == 4000) by (nonlinear_arith);
        MapConfig { width: 80, height: 50, max_rooms: 30, min_size: 6, max_size: 10 }
    }

    /// Checks the configuration: `Ok` when it is valid, else its error.
    pub fn validate(&self) -> (r: Result<(), ConfigError>)
        ensures
            match self.error() {
                Some(e) => r == Err::<(), ConfigError>(e),
                None => r is Ok,
            },
    {
        if self.min_size < 1 {
            Err(ConfigError::RoomSizeNotPositive)
        } else if self.min_size >= self.max_size {
            Err(ConfigError::EmptySizeRange)
        } else if self.width <= self.max_size || self.height <= self.max_size {
            Err(ConfigError::GridTooSmall)
        } else {
            assert(0 < self.width * self.height <= 0x4000_0000_0000_0000) by (nonlinear_arith)
                requires
                    0 < self.width <= 0x7fff_ffff,
                    0 < self.height <= 0x7fff_ffff,
            ;
            let cells: i64 = (self.width as i64) * (self.height as i64);
            if cells > MAX_CELLS as i64 {
                Err(ConfigError::GridTooLarge)
            } else {
                Ok(())
            }
        }
    }
}

} // verus!
