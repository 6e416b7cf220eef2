//! A single-threaded grid game core: a player walks a maze, enemies pursue,
//! bombs explode into directional fire, and stairs lead to the next level.
//! Entities react to events by emitting result effects that a central
//! dispatch loop applies; time-delayed effects go through a deadline-ordered
//! scheduler.

pub mod bomb;
pub mod coordinates;
pub mod enemy;
pub mod events;
pub mod fire;
pub mod game;
pub mod level;
pub mod maze;
pub mod player;
pub mod stairs;
pub mod time;
pub mod utils;

pub use bomb::Bomb;
pub use coordinates::Coordinates;
pub use enemy::Enemy;
pub use events::{Direction, GameEvent, InputEvent, ResultEvent};
pub use fire::Fire;
pub use game::{Game, GameMode};
pub use level::{Level, LevelContent};
pub use maze::{Maze, Tile};
pub use player::Player;
pub use stairs::Stairs;
pub use time::{TimeController, Timeout};
pub use utils::InsertAtEmpty;
