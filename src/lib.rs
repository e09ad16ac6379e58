//! A small text adventure: a world of named locations joined by compass
//! exits, and the game state of a player who walks it collecting items.
pub mod command;
pub mod data;
pub mod game;
pub mod world;

pub use command::{classify, is_direction, parse_command, play_turn, Command, Outcome, Turn};
pub use data::{get_items, get_locations};
pub use game::{has_won, look_around, move_to, GameState, Look, MoveError, START_LOCATION};
pub use world::{check_world, describe, destination, exits_of, item_at, Item, Location, WorldError};
