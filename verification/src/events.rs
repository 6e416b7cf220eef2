//! The three event families of the game pipeline.
//!
//! An `InputEvent` comes from the user, a `GameEvent` addresses one entity
//! for one lifecycle phase, and a `ResultEvent` is the effect an entity
//! reaction asks the dispatch loop to apply centrally.

use vstd::prelude::*;
use crate::bomb::Bomb;
use crate::fire::Fire;

verus! {

/// The four directions the player can move toward.
#[derive(Clone, Copy, Debug, PartialEq, Eq, Structural)]
pub enum Direction {
    /// Towards north.
    Up,

    /// Towards south.
    Down,

    /// Towards west.
    Left,

    /// Towards east.
    Right,
}

/// An `InputEvent` is an event produced as a consequence of a user input.
#[derive(Clone, Copy, Debug, PartialEq, Eq, Structural)]
pub enum InputEvent {
    /// Move the player towards the given direction.
    PlayerMove(Direction),

    /// Create a new `Bomb` at the `Player` position.
    PlayerCreateBomb,

    /// Stop the game keeping the state.
    GamePause,

    /// Set the system to exit.
    GameQuit,
}

/// A `GameEvent` is an event generated by the game itself, addressed to a
/// specific entity (by arena id where the entity is dynamic) for a specific
/// lifecycle phase.
#[derive(Clone, Copy, Debug, PartialEq, Eq, Structural)]
pub enum GameEvent {
    /// Let the player recover one available bomb.
    PlayerRecoverBomb,

    /// Initialize the enemy with identifier `id`.
    EnemyInit { id: usize },

    /// Allow the enemy with identifier `id` to move.
    EnemyMove { id: usize },

    /// Allow the enemy with identifier `id` to check collision with the
    /// player.
    EnemyCheckCollision { id: usize },

    /// Initialize an already created bomb.
    BombInit { id: usize },

    /// Set a bomb to explode.
    BombExplode { id: usize },

    /// Set the fire with identifier `id` to burn.
    FireInit { id: usize },

    /// Allow the fire with identifier `id` to check collision with other
    /// game elements.
    FireCheckCollision { id: usize },

    /// Put the fire with identifier `id` out.
    FirePutOut { id: usize },

    /// Allow the `Stairs` to check collision with the player.
    StairsCheckCollision,
}

/// A `ResultEvent` is an effect produced by a game element's reaction; the
/// dispatch loop applies it centrally against the shared world state.
#[derive(Clone, Copy, Debug, PartialEq, Eq, Structural)]
pub enum ResultEvent {
    /// Discard event: used when a reaction requires no extra action.
    DoNothing,

    /// Change the game to the next level.
    NextLevel,

    /// The player died, so the game ends.
    PlayerDied,

    /// Leave the main loop.
    GameExit,

    /// Stop the game keeping the state.
    GamePause,

    /// Notify that the game state has changed, so the world is rendered
    /// again.
    GameUpdated,

    /// Schedule `event` to fire after `millis` milliseconds.
    GameScheduleEvent { millis: u64, event: GameEvent },

    /// Push `event` to the game queue, to be handled on a later drain.
    GameSetEvent { event: GameEvent },

    /// Break the maze tile at position `x`, `y` if it is breakable.
    MazeBreak { x: usize, y: usize },

    /// Add a new bomb to the level.
    BombNew { bomb: Bomb },

    /// Discard the bomb with identifier `id` at exploding time.
    BombDelete { id: usize },

    /// Add a new fire to the level.
    FireNew { fire: Fire },

    /// Discard the fire with identifier `id`.
    FireDelete { id: usize },

    /// Discard the enemy with identifier `id`.
    EnemyDelete { id: usize },
}

} // verus!
