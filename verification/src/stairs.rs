//! The stairs to the next level. They poll for a collision with the
//! player: on contact the game advances, otherwise they re-enqueue their
//! own next check.

use vstd::prelude::*;
use std::collections::VecDeque;
use crate::coordinates::Coordinates;
use crate::events::{GameEvent, ResultEvent};
use crate::player::Player;

verus! {

/// A `Stairs` object represents the way to go to the next level.
#[derive(Clone, Copy, Debug, PartialEq, Eq, Structural)]
pub struct Stairs {
    /// The `Coordinates` where this game element is located.
    pub position: Coordinates,
}

/// Character to represent a `Stairs` object in the maze.
pub const STAIRS_REPRESENTATION: char = '%';

impl Stairs {
    /// Creates a new `Stairs` object given its coordinates.
    pub fn new(x: usize, y: usize) -> (s: Stairs)
        ensures
            s == (Stairs { position: Coordinates { x, y } }),
    {
        let position = Coordinates { x, y };

        Stairs { position }
    }

    /// Update the `Stairs` state according to a game event: on a
    /// collision check, ask for the next level if the player stands on
    /// the stairs, and re-enqueue the check otherwise. Any other event
    /// also just re-enqueues the check, as the stairs react to nothing
    /// else.
    pub fn update(
        &mut self,
        player: &Player,
        event: GameEvent,
        results: &mut VecDeque<ResultEvent>,
    )
        ensures
            *final(self) == *old(self),
            final(results)@ == old(results)@.push(
                if event == GameEvent::StairsCheckCollision && player.position == old(
                    self,
                ).position {
                    ResultEvent::NextLevel
                } else {
                    ResultEvent::GameSetEvent { event: GameEvent::StairsCheckCollision }
                },
            ),
    {
        match event {
            GameEvent::StairsCheckCollision if player.get_position().x == self.position.x
                && player.get_position().y == self.position.y => {
                // If the player collides with the stairs, then go to the
                // next level.
                results.push_back(ResultEvent::NextLevel);
            }
            _ => {
                // If no meaningful collision then check again on a later
                // tick.
                results.push_back(ResultEvent::GameSetEvent {
                    event: GameEvent::StairsCheckCollision,
                });
            }
        }
    }

    /// Return the current position of the `Stairs`.
    pub fn get_position(&self) -> (r: &Coordinates)
        ensures
            *r == self.position,
    {
        &self.position
    }

    /// Return the `Stairs` representation.
    pub fn get_representation(&self) -> (c: char)
        ensures
            c == STAIRS_REPRESENTATION,
    {
        STAIRS_REPRESENTATION
    }
}

} // verus!
