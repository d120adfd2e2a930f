//! Decision engine for an autonomous snake-game agent: given a board
//! snapshot, choose one cardinal direction to move this turn.

pub mod engine;
pub mod geometry;
pub mod moves;
pub mod types;

pub use engine::{decide_move, end, get_move, safe_moves, start};
pub use geometry::{in_bounds, manhattan_distance, select_away, select_toward};
pub use moves::Move;
pub use types::{Battlesnake, Board, Coord, Game};
