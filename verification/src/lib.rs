//! Tile-grid dungeons: rectangles, a grid of wall and floor tiles, carving of
//! rooms and corridors, random generation, and movement against the walls.

pub mod carve;
pub mod config;
pub mod coords;
pub mod generator;
pub mod grid;
pub mod laws;
pub mod movement;
pub mod render;
pub mod rng;
pub mod scatter;
pub mod tile;
pub mod trect;

pub use carve::{apply_horizontal_tunnel, apply_room_to_map, apply_vertical_tunnel};
pub use config::{ConfigError, MapConfig, MAX_CELLS};
pub use coords::{world_xy, xy_world, TILE_SIZE};
pub use generator::{
    accept_room, apply_corridor, new_map_rooms_and_corridors, place_room, room_fits, RoomDraw,
};
pub use grid::{xy_idx, TileGrid};
pub use movement::{held_steps, is_walkable, player_input, try_move, HeldKeys, PLAYER_STEP};
pub use render::{render_map, TileSprite};
pub use scatter::{new_map_test, scatter_wall};
pub use tile::TileType;
pub use trect::TRect;
