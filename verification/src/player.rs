//! The player: moves through open tiles, places bombs while it has any
//! available, and recovers one bomb at a time after a fixed delay.

use vstd::prelude::*;
use std::collections::VecDeque;
use crate::bomb::Bomb;
use crate::coordinates::{spec_step, Coordinates};
use crate::events::{Direction, GameEvent, InputEvent, ResultEvent};
use crate::maze::Maze;

verus! {

/// Represent the Player.
#[derive(Clone, Copy, Debug, PartialEq, Eq, Structural)]
pub struct Player {
    /// The `Coordinates` where this game element is located.
    pub position: Coordinates,

    /// Maximum number of simultaneous `Bomb`s allowed for the `Player`.
    pub max_bombs: usize,

    /// Number of bombs that the `Player` can put at this moment.
    pub bombs: usize,

    /// Milliseconds for the `Player` to recover one available `Bomb`.
    pub bomb_recovery_millis: u64,
}

/// Character to represent a `Player` object in the maze.
pub const PLAYER_REPRESENTATION: char = '@';

/// Initial maximum number of simultaneous player bombs.
pub const PLAYER_INITIAL_MAX_BOMBS: usize = 3;

/// Initial time in milliseconds needed to recover one player bomb.
pub const PLAYER_INITIAL_BOMB_RECOVERY_MILLIS: u64 = 4000;

impl Player {
    /// The player after a move toward `d` in `maze`: one step toward `d`
    /// if that tile is open, unchanged otherwise.
    pub open spec fn spec_after_move(self, maze: Maze, d: Direction) -> Player {
        if !maze.spec_blocked_at(spec_step(self.position, d)) {
            Player { position: spec_step(self.position, d), ..self }
        } else {
            self
        }
    }

    /// The player after a bomb-creation input: one bomb fewer while any
    /// is available, unchanged otherwise.
    pub open spec fn spec_after_create_bomb(self) -> Player {
        if self.bombs > 0 {
            Player { bombs: (self.bombs - 1) as usize, ..self }
        } else {
            self
        }
    }

    /// The player after a bomb-recovery event: one bomb more, up to the
    /// allowed maximum.
    pub open spec fn spec_after_recover(self) -> Player {
        if self.bombs < self.max_bombs {
            Player { bombs: (self.bombs + 1) as usize, ..self }
        } else {
            self
        }
    }

    /// The result events a bomb-creation input produces: none while no
    /// bomb is available, otherwise the new bomb at the player position
    /// followed by the request to schedule one bomb recovery.
    pub open spec fn spec_create_bomb_events(self) -> Seq<ResultEvent> {
        if self.bombs > 0 {
            seq![
                ResultEvent::BombNew { bomb: Bomb { position: self.position } },
                ResultEvent::GameScheduleEvent {
                    millis: self.bomb_recovery_millis,
                    event: GameEvent::PlayerRecoverBomb,
                },
            ]
        } else {
            Seq::<ResultEvent>::empty()
        }
    }

    /// Creates a new `Player` object given its coordinates, holding the
    /// full initial allowance of bombs.
    pub fn new(x: usize, y: usize) -> (p: Player)
        ensures
            p == (Player {
                position: Coordinates { x, y },
                max_bombs: PLAYER_INITIAL_MAX_BOMBS,
                bombs: PLAYER_INITIAL_MAX_BOMBS,
                bomb_recovery_millis: PLAYER_INITIAL_BOMB_RECOVERY_MILLIS,
            }),
    {
        let position = Coordinates { x, y };
        let max_bombs = PLAYER_INITIAL_MAX_BOMBS;
        let bombs = max_bombs;
        let bomb_recovery_millis = PLAYER_INITIAL_BOMB_RECOVERY_MILLIS;

        Player { position, max_bombs, bombs, bomb_recovery_millis }
    }

    /// Update the `Player` state according to an `InputEvent` and push
    /// the resulting `ResultEvent`s.
    ///
    /// A move input steps toward its direction only when the maze does
    /// not block the tile, and reports that the world changed. A
    /// bomb-creation input is refused while no bomb is available;
    /// otherwise it emits the new bomb and one recovery request, and
    /// spends one bomb. Pause and quit inputs are not addressed to the
    /// player and leave everything unchanged.
    pub fn update_from_input_event(
        &mut self,
        maze: &Maze,
        event: InputEvent,
        results: &mut VecDeque<ResultEvent>,
    )
        requires
            maze.wf(),
            maze.spec_wall_ring(),
            maze.spec_interior(old(self).position),
        ensures
            maze.spec_interior(final(self).position),
            match event {
                InputEvent::PlayerMove(d) => {
                    &&& *final(self) == old(self).spec_after_move(*maze, d)
                    &&& final(results)@ == old(results)@.push(ResultEvent::GameUpdated)
                },
                InputEvent::PlayerCreateBomb => {
                    &&& *final(self) == old(self).spec_after_create_bomb()
                    &&& final(results)@ == old(results)@ + old(self).spec_create_bomb_events()
                },
                _ => *final(self) == *old(self) && final(results)@ == old(results)@,
            },
    {
        match event {
            InputEvent::PlayerMove(dir) => {
                // Move player in the input direction.
                self.move_player(maze, dir);

                // Notify that the game state has changed.
                results.push_back(ResultEvent::GameUpdated);
            }
            InputEvent::PlayerCreateBomb => {
                // Check if the user has bombs.
                if self.bombs > 0 {
                    // Put a bomb in the current position.
                    let bomb = self.put_bomb();
                    results.push_back(ResultEvent::BombNew { bomb });

                    // The player loses a bomb.
                    self.bombs = self.bombs - 1;

                    // Schedule one bomb to recover after the recovery time.
                    results.push_back(ResultEvent::GameScheduleEvent {
                        millis: self.bomb_recovery_millis,
                        event: GameEvent::PlayerRecoverBomb,
                    });
                    proof {
                        assert(results@ =~= old(results)@ + old(self).spec_create_bomb_events());
                    }
                }
            }
            _ => {}
        }
    }

    /// Update the `Player` state according to a game event: on a
    /// recovery event one bomb comes back, up to the allowed maximum.
    pub fn update(&mut self, event: GameEvent)
        ensures
            *final(self) == if event == GameEvent::PlayerRecoverBomb {
                old(self).spec_after_recover()
            } else {
                *old(self)
            },
    {
        match event {
            GameEvent::PlayerRecoverBomb => {
                // Check if the user already holds the maximum number of bombs.
                if self.bombs < self.max_bombs {
                    // Recover one bomb.
                    self.bombs = self.bombs + 1;
                }
            }
            _ => {}
        }
    }

    /// Move the player toward the given direction if the tile is not
    /// blocked.
    fn move_player(&mut self, maze: &Maze, dir: Direction)
        requires
            maze.wf(),
            maze.spec_wall_ring(),
            maze.spec_interior(old(self).position),
        ensures
            *final(self) == old(self).spec_after_move(*maze, dir),
            maze.spec_interior(final(self).position),
    {
        // Compute the next position to move to.
        let next_position = match dir {
            Direction::Up => self.position.up(),
            Direction::Down => self.position.down(),
            Direction::Left => self.position.left(),
            Direction::Right => self.position.right(),
        };

        // Move to the next position if not blocked.
        if !maze.is_blocked(next_position.x, next_position.y) {
            self.position = next_position;
            proof {
                maze.lemma_open_is_interior(self.position);
            }
        }
    }

    /// Build the bomb a bomb-creation input drops at the player
    /// position.
    fn put_bomb(&self) -> (b: Bomb)
        ensures
            b == (Bomb { position: self.position }),
    {
        let position = self.get_position();
        let (x, y): (usize, usize) = (position.x, position.y);

        Bomb::new(x, y)
    }

    /// Return the current position of the `Player`.
    pub fn get_position(&self) -> (r: &Coordinates)
        ensures
            *r == self.position,
    {
        &self.position
    }

    /// Return the `Player` representation.
    pub fn get_representation(&self) -> (c: char)
        ensures
            c == PLAYER_REPRESENTATION,
    {
        PLAYER_REPRESENTATION
    }
}

} // verus!
