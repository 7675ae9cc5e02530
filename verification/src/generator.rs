use vstd::prelude::*;
use bracket_random::prelude::RandomNumberGenerator;
use crate::carve::{
    apply_horizontal_tunnel, apply_room_to_map, apply_vertical_tunnel, room_inside,
    with_horizontal_tunnel, with_room, with_vertical_tunnel,
};
use crate::config::{ConfigError, MapConfig};
use crate::grid::TileGrid;
use crate::laws::{lemma_generate_is_well_built, rooms_keep_clear, well_built};
use crate::rng::range_i32;
use crate::tile::TileType;
use crate::trect::TRect;

verus! {

/// One candidate room as the random source gave it: its sides, its top-left
/// corner, and the coin that orders the two legs of its corridor.
#[derive(PartialEq, Eq, Structural, Clone, Copy, Debug)]
pub struct RoomDraw {
    /// Side along the columns.
    pub w: i32,
    /// Side along the rows.
    pub h: i32,
    /// Column of the top-left corner.
    pub x: i32,
    /// Row of the top-left corner.
    pub y: i32,
    /// The corridor to the room runs along the row first, then the column.
    pub horizontal_first: bool,
}

impl RoomDraw {
    /// The draw is one that `cfg` allows: both sides in the range of room
    /// sides, and the corner such that the room keeps a margin of one tile to
    /// the right and bottom edge of the grid.
    pub open spec fn valid_for(&self, cfg: MapConfig) -> bool {
        &&& cfg.min_size <= self.w < cfg.max_size
        &&& cfg.min_size <= self.h < cfg.max_size
        &&& 0 <= self.x <= cfg.width - self.w - 2
        &&& 0 <= self.y <= cfg.height - self.h - 2
    }

    /// The rectangle of the candidate.
    pub open spec fn room(&self) -> TRect {
        TRect { x1: self.x, y1: self.y, x2: (self.x + self.w) as i32, y2: (self.y + self.h) as i32 }
    }
}

/// `room` keeps clear of every room in `rooms`: it neither overlaps nor
/// touches any of them.
pub open spec fn fits(rooms: Seq<TRect>, room: TRect) -> bool {
    forall|k: int| #![trigger rooms[k]] 0 <= k < rooms.len() ==> !room.spec_intersects(&rooms[k])
}

/// The cells after an L-shaped corridor between `from` and `to`. With
/// `horizontal_first` the corridor leaves `from` along its row and reaches
/// `to` along the column of `to`; otherwise it leaves along the column of
/// `from` and arrives along the row of `to`.
pub open spec fn with_corridor(
    tiles: Seq<TileType>,
    width: int,
    from: (int, int),
    to: (int, int),
    horizontal_first: bool,
) -> Seq<TileType> {
    if horizontal_first {
        with_vertical_tunnel(
            with_horizontal_tunnel(tiles, width, from.0, to.0, from.1),
            width,
            from.1,
            to.1,
            to.0,
        )
    } else {
        with_horizontal_tunnel(
            with_vertical_tunnel(tiles, width, from.1, to.1, from.0),
            width,
            from.0,
            to.0,
            to.1,
        )
    }
}

/// The rooms and cells after `room` is accepted: the room is opened, joined
/// to the room accepted before it, if there is one, and put last in the list.
pub open spec fn with_accepted(
    rooms: Seq<TRect>,
    tiles: Seq<TileType>,
    width: int,
    room: TRect,
    horizontal_first: bool,
) -> (Seq<TRect>, Seq<TileType>) {
    let opened = with_room(tiles, width, room);
    let joined = if rooms.len() > 0 {
        with_corridor(opened, width, rooms.last().spec_center(), room.spec_center(), horizontal_first)
    } else {
        opened
    };
    (rooms.push(room), joined)
}

/// The rooms and cells after one candidate: accepted if it fits, else
/// dropped with nothing changed.
pub open spec fn place(rooms: Seq<TRect>, tiles: Seq<TileType>, width: int, draw: RoomDraw) -> (
    Seq<TRect>,
    Seq<TileType>,
) {
    if fits(rooms, draw.room()) {
        with_accepted(rooms, tiles, width, draw.room(), draw.horizontal_first)
    } else {
        (rooms, tiles)
    }
}

/// The rooms and cells that the candidates `draws`, taken in order, leave on
/// a grid of `cfg.width` by `cfg.height` walls.
pub open spec fn generate(cfg: MapConfig, draws: Seq<RoomDraw>) -> (Seq<TRect>, Seq<TileType>)
    decreases draws.len(),
{
    if draws.len() == 0 {
        (Seq::empty(), Seq::new((cfg.width * cfg.height) as nat, |i: int| TileType::Wall))
    } else {
        let before = generate(cfg, draws.drop_last());
        place(before.0, before.1, cfg.width as int, draws.last())
    }
}

/// `draws` is a full run for `cfg`: one valid draw for each attempt.
pub open spec fn full_run(cfg: MapConfig, draws: Seq<RoomDraw>) -> bool {
    &&& draws.len() == cfg.max_rooms
    &&& forall|k: int| 0 <= k < draws.len() ==> (#[trigger] draws[k]).valid_for(cfg)
}

/// `rooms` and `grid` are what the candidates `draws` leave under `cfg`.
pub open spec fn generated_by(
    cfg: MapConfig,
    draws: Seq<RoomDraw>,
    rooms: Seq<TRect>,
    grid: TileGrid,
) -> bool {
    &&& grid.wf()
    &&& grid.spec_width() == cfg.width
    &&& grid.spec_height() == cfg.height
    &&& (rooms, grid@) == generate(cfg, draws)
}

/// `rooms` and `grid` are what some full run of candidates leaves under `cfg`.
pub open spec fn is_dungeon_of(cfg: MapConfig, rooms: Seq<TRect>, grid: TileGrid) -> bool {
    exists|draws: Seq<RoomDraw>|
        full_run(cfg, draws) && #[trigger] generated_by(cfg, draws, rooms, grid)
}

/// Whether `room` keeps clear of every room in `rooms`.
pub fn room_fits(rooms: &Vec<TRect>, room: &TRect) -> (ok: bool)
    ensures
        ok == fits(rooms@, *room),
{
    let mut i: usize = 0;
    while i < rooms.len()
        invariant
            i <= rooms.len(),
            forall|k: int| #![trigger rooms@[k]] 0 <= k < i ==> !room.spec_intersects(&rooms@[k]),
        decreases rooms.len() - i,
    {
        if room.intersects(&rooms[i]) {
            return false;
        }
        i = i + 1;
    }
    true
}

/// Opens an L-shaped corridor between the tiles `from` and `to`.
pub fn apply_corridor(grid: &mut TileGrid, from: (i32, i32), to: (i32, i32), horizontal_first: bool)
    requires
        old(grid).wf(),
    ensures
        final(grid).wf(),
        final(grid).same_shape(old(grid)),
        final(grid)@ == with_corridor(
            old(grid)@,
            old(grid).spec_width(),
            (from.0 as int, from.1 as int),
            (to.0 as int, to.1 as int),
            horizontal_first,
        ),
{
    if horizontal_first {
        apply_horizontal_tunnel(grid, from.0, to.0, from.1);
        apply_vertical_tunnel(grid, from.1, to.1, to.0);
    } else {
        apply_vertical_tunnel(grid, from.1, to.1, from.0);
        apply_horizontal_tunnel(grid, from.0, to.0, to.1);
    }
}

/// Accepts `room`: opens it, joins it to the last room of `rooms` by a
/// corridor between the two centers, and appends it to `rooms`.
pub fn accept_room(rooms: &mut Vec<TRect>, grid: &mut TileGrid, room: TRect, horizontal_first: bool)
    requires
        old(grid).wf(),
        room_inside(room, old(grid).spec_width(), old(grid).spec_height()),
    ensures
        final(grid).wf(),
        final(grid).same_shape(old(grid)),
        (final(rooms)@, final(grid)@) == with_accepted(
            old(rooms)@,
            old(grid)@,
            old(grid).spec_width(),
            room,
            horizontal_first,
        ),
{
    apply_room_to_map(&room, grid);
    if rooms.len() > 0 {
        let to = room.center();
        let from = rooms[rooms.len() - 1].center();
        apply_corridor(grid, from, to, horizontal_first);
    }
    rooms.push(room);
}

/// Takes one candidate: accepts it if it keeps clear of every room so far,
/// else drops it. The result says whether it was accepted.
pub fn place_room(rooms: &mut Vec<TRect>, grid: &mut TileGrid, draw: &RoomDraw) -> (placed: bool)
    requires
        old(grid).wf(),
        i32::MIN <= draw.x + draw.w <= i32::MAX,
        i32::MIN <= draw.y + draw.h <= i32::MAX,
        room_inside(draw.room(), old(grid).spec_width(), old(grid).spec_height()),
    ensures
        final(grid).wf(),
        final(grid).same_shape(old(grid)),
        placed == fits(old(rooms)@, draw.room()),
        (final(rooms)@, final(grid)@) == place(
            old(rooms)@,
            old(grid)@,
            old(grid).spec_width(),
            *draw,
        ),
{
    let room = TRect::new(draw.x, draw.y, draw.w, draw.h);
    if room_fits(rooms, &room) {
        accept_room(rooms, grid, room, draw.horizontal_first);
        true
    } else {
        false
    }
}

/// Generates a dungeon: starts from a grid of walls and makes
/// `cfg.max_rooms` attempts. Each attempt draws the two sides of a room from
/// `cfg.min_size` up to, not including, `cfg.max_size`, then a corner that
/// leaves a margin of one tile to the right and bottom edge, and accepts the
/// room if it keeps clear of every room accepted before. An accepted room is
/// opened and joined to the room accepted before it by an L-shaped corridor
/// between the two centers, the order of whose legs a coin decides. A
/// configuration with an error is refused before anything is drawn.
pub fn new_map_rooms_and_corridors(cfg: &MapConfig, rng: &mut RandomNumberGenerator) -> (r: Result<
    (Vec<TRect>, TileGrid),
    ConfigError,
>)
    ensures
        match cfg.error() {
            Some(e) => r == Err::<(Vec<TRect>, TileGrid), ConfigError>(e),
            None => r matches Ok(out) && is_dungeon_of(*cfg, out.0@, out.1),
        },
        r matches Ok(out) ==> rooms_keep_clear(out.0@),
        r matches Ok(out) ==> well_built(*cfg, out.0@, out.1@),
{
    match cfg.validate() {
        Err(e) => {
            return Err(e);
        },
        Ok(_) => {},
    }
    let mut grid = match TileGrid::new(cfg.width, cfg.height, TileType::Wall) {
        Ok(g) => g,
        Err(e) => {
            return Err(e);
        },
    };
    let mut rooms: Vec<TRect> = Vec::new();
    let ghost mut draws: Seq<RoomDraw> = Seq::empty();
    let mut attempt: usize = 0;
    while attempt < cfg.max_rooms
        invariant
            cfg.valid(),
            attempt <= cfg.max_rooms,
            draws.len() == attempt,
            forall|k: int| 0 <= k < draws.len() ==> (#[trigger] draws[k]).valid_for(*cfg),
            generated_by(*cfg, draws, rooms@, grid),
        decreases cfg.max_rooms - attempt,
    {
        let w = range_i32(rng, cfg.min_size, cfg.max_size);
        let h = range_i32(rng, cfg.min_size, cfg.max_size);
        let x = rng.roll_dice(1, cfg.width - w - 1) - 1;
        let y = rng.roll_dice(1, cfg.height - h - 1) - 1;
        let room = TRect::new(x, y, w, h);
        let mut horizontal_first = false;
        if room_fits(&rooms, &room) {
            if rooms.len() > 0 {
                horizontal_first = range_i32(rng, 0, 2) == 1;
            }
            accept_room(&mut rooms, &mut grid, room, horizontal_first);
        }
        proof {
            let draw = RoomDraw { w, h, x, y, horizontal_first };
            assert(draw.room() == room);
            assert(draws.push(draw).drop_last() =~= draws);
            draws = draws.push(draw);
        }
        attempt = attempt + 1;
    }
    let out = (rooms, grid);
    assert(full_run(*cfg, draws) && generated_by(*cfg, draws, out.0@, out.1));
    proof {
        lemma_generate_is_well_built(*cfg, draws);
    }
    Ok(out)
}

} // verus!
