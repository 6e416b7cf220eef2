//! An enemy pursuing the player. On its periodic move event it considers
//! staying put and the four neighbouring cells, discards blocked ones, and
//! takes a candidate at the smallest Manhattan distance to the player; a
//! random pre-shuffle of the candidates decides ties. On its periodic
//! collision check it reports the player dead on contact, and re-enqueues
//! the check otherwise. The chosen cell is never a blocked one.

use vstd::prelude::*;
use std::collections::VecDeque;
use rand::seq::SliceRandom;
use rand::thread_rng;
use crate::coordinates::{spec_manhattan, spec_step, Coordinates};
use crate::events::{Direction, GameEvent, ResultEvent};
use crate::maze::Maze;
use crate::player::Player;

verus! {

/// A `Enemy` object represents a game enemy.
#[derive(Clone, Copy, Debug, PartialEq, Eq, Structural)]
pub struct Enemy {
    /// The `Coordinates` where this game element is located.
    pub position: Coordinates,
}

/// Character to represent an `Enemy` object in the maze.
pub const ENEMY_REPRESENTATION: char = 'E';

/// The delay in milliseconds before the next enemy movement. It slows the
/// enemies down to a speed manageable by a human player.
pub const ENEMY_MOVEMENT_DELAY: u64 = 500;

/// The cells an enemy at `c` can try to move to: the four neighbours and
/// staying put.
pub open spec fn spec_candidates(c: Coordinates) -> Seq<Coordinates> {
    seq![
        spec_step(c, Direction::Up),
        spec_step(c, Direction::Down),
        spec_step(c, Direction::Left),
        spec_step(c, Direction::Right),
        c,
    ]
}

/// A cell among the move candidates of an interior cell lies in bounds,
/// and its Manhattan distance to any in-bounds cell is bounded by the
/// grid dimensions.
proof fn lemma_candidate_properties(maze: Maze, pre: Coordinates, target: Coordinates, c: Coordinates)
    requires
        maze.wf(),
        maze.spec_interior(pre),
        maze.spec_interior(target),
        spec_candidates(pre).contains(c),
    ensures
        maze.spec_in_bounds(c.x as int, c.y as int),
        spec_manhattan(c, target) <= maze.spec_width() + maze.spec_height(),
{
    let s = spec_candidates(pre);
    let j = choose|j: int| 0 <= j < s.len() && s[j] == c;
    assert(s[0] == spec_step(pre, Direction::Up));
    assert(s[1] == spec_step(pre, Direction::Down));
    assert(s[2] == spec_step(pre, Direction::Left));
    assert(s[3] == spec_step(pre, Direction::Right));
    assert(s[4] == pre);
}

/// Relies on rand's slice shuffle (`SliceRandom::shuffle`): it permutes
/// the elements in place, so the multiset of elements is unchanged.
#[verifier::external_body]
fn shuffle_coordinates(v: &mut Vec<Coordinates>)
    ensures
        final(v)@.to_multiset() == old(v)@.to_multiset(),
{
    v.shuffle(&mut thread_rng());
}

impl Enemy {
    /// Creates a new `Enemy` object given its coordinates.
    pub fn new(x: usize, y: usize) -> (e: Enemy)
        ensures
            e == (Enemy { position: Coordinates { x, y } }),
    {
        let position = Coordinates { x, y };

        Enemy { position }
    }

    /// Whether `p` is a legal outcome of one enemy move from `pre` in
    /// `maze` toward the player at `target`: a non-blocked candidate cell
    /// whose Manhattan distance to the player no other non-blocked
    /// candidate beats. Which legal outcome the move takes is decided by
    /// the random tie-breaking shuffle.
    pub open spec fn spec_move_choice(
        pre: Coordinates,
        maze: Maze,
        target: Coordinates,
        p: Coordinates,
    ) -> bool {
        &&& spec_candidates(pre).contains(p)
        &&& !maze.spec_blocked_at(p)
        &&& forall|k: int|
            0 <= k < spec_candidates(pre).len() && !maze.spec_blocked_at(
                #[trigger] spec_candidates(pre)[k],
            ) ==> spec_manhattan(p, target) <= spec_manhattan(spec_candidates(pre)[k], target)
    }

    /// The result events this enemy emits for one incoming game event.
    ///
    /// On initialization it starts its movement and its collision poll.
    /// On a move event it re-schedules the next move and reports a world
    /// change. On a collision check it reports the player dead on
    /// contact, and re-enqueues the check otherwise. Any other event
    /// produces nothing.
    pub open spec fn spec_reaction(self, player: Player, event: GameEvent) -> Seq<ResultEvent> {
        match event {
            GameEvent::EnemyInit { id } => seq![
                ResultEvent::GameSetEvent { event: GameEvent::EnemyMove { id } },
                ResultEvent::GameSetEvent { event: GameEvent::EnemyCheckCollision { id } },
            ],
            GameEvent::EnemyMove { id } => seq![
                ResultEvent::GameScheduleEvent {
                    millis: ENEMY_MOVEMENT_DELAY,
                    event: GameEvent::EnemyMove { id },
                },
                ResultEvent::GameUpdated,
            ],
            GameEvent::EnemyCheckCollision { id } => if self.position == player.position {
                seq![ResultEvent::PlayerDied]
            } else {
                seq![ResultEvent::GameSetEvent { event: GameEvent::EnemyCheckCollision { id } }]
            },
            _ => Seq::<ResultEvent>::empty(),
        }
    }

    /// Update the `Enemy` state according to a game event and push the
    /// resulting `ResultEvent`s. Only a move event changes the enemy, and
    /// it never moves it onto a blocked cell.
    pub fn update(
        &mut self,
        player: &Player,
        maze: &Maze,
        event: GameEvent,
        results: &mut VecDeque<ResultEvent>,
    )
        requires
            maze.wf(),
            maze.spec_wall_ring(),
            maze.spec_interior(old(self).position),
            !maze.spec_blocked_at(old(self).position),
            maze.spec_interior(player.position),
        ensures
            final(results)@ == old(results)@ + old(self).spec_reaction(*player, event),
            maze.spec_interior(final(self).position),
            !maze.spec_blocked_at(final(self).position),
            event matches GameEvent::EnemyMove { .. } ==> Enemy::spec_move_choice(
                old(self).position,
                *maze,
                player.position,
                final(self).position,
            ),
            !(event matches GameEvent::EnemyMove { .. }) ==> final(self).position == old(
                self,
            ).position,
    {
        match event {
            GameEvent::EnemyInit { id } => {
                // Let the enemy start moving.
                results.push_back(ResultEvent::GameSetEvent {
                    event: GameEvent::EnemyMove { id },
                });

                // Let the enemy start checking its collisions.
                results.push_back(ResultEvent::GameSetEvent {
                    event: GameEvent::EnemyCheckCollision { id },
                });
                proof {
                    assert(results@ =~= old(results)@ + old(self).spec_reaction(*player, event));
                }
            }
            GameEvent::EnemyMove { id } => {
                // Move the enemy towards the player.
                self.move_towards(player, maze);

                // Reschedule this event to be executed again after a
                // delay.
                results.push_back(ResultEvent::GameScheduleEvent {
                    millis: ENEMY_MOVEMENT_DELAY,
                    event: GameEvent::EnemyMove { id },
                });

                // Notify that the game state has changed.
                results.push_back(ResultEvent::GameUpdated);
                proof {
                    assert(results@ =~= old(results)@ + old(self).spec_reaction(*player, event));
                }
            }
            GameEvent::EnemyCheckCollision { id } => {
                if self.position.x == player.position.x && self.position.y == player.position.y {
                    // If the enemy collides with the player then the
                    // player dies.
                    results.push_back(ResultEvent::PlayerDied);
                } else {
                    // Ensure to recheck the collision again in the
                    // future.
                    results.push_back(ResultEvent::GameSetEvent {
                        event: GameEvent::EnemyCheckCollision { id },
                    });
                }
                proof {
                    assert(results@ =~= old(results)@ + old(self).spec_reaction(*player, event));
                }
            }
            _ => {
                proof {
                    assert(results@ =~= old(results)@ + old(self).spec_reaction(*player, event));
                }
            }
        }
    }

    /// Move the enemy to a non-blocked candidate cell closest to the
    /// player, ties decided by a random pre-shuffle of the candidates.
    fn move_towards(&mut self, player: &Player, maze: &Maze)
        requires
            maze.wf(),
            maze.spec_wall_ring(),
            maze.spec_interior(old(self).position),
            !maze.spec_blocked_at(old(self).position),
            maze.spec_interior(player.position),
        ensures
            Enemy::spec_move_choice(
                old(self).position,
                *maze,
                player.position,
                final(self).position,
            ),
            maze.spec_interior(final(self).position),
            !maze.spec_blocked_at(final(self).position),
    {
        let ghost cands = spec_candidates(old(self).position);

        // Compute all the possible cells to move to.
        let mut directions: Vec<Coordinates> = Vec::new();
        directions.push(self.position.up());
        directions.push(self.position.down());
        directions.push(self.position.left());
        directions.push(self.position.right());
        directions.push(self.position);
        proof {
            assert(directions@ =~= cands);
        }

        // Unorder them to increase movement randomness.
        shuffle_coordinates(&mut directions);

        proof {
            broadcast use vstd::seq_lib::group_to_multiset_ensures;

            // A permutation keeps length and membership in both
            // directions.
            assert(directions@.to_multiset().len() == directions@.len());
            assert(cands.to_multiset().len() == cands.len());
            assert forall|j: int| 0 <= j < directions@.len() implies cands.contains(
                #[trigger] directions@[j],
            ) by {
                assert(directions@.contains(directions@[j]));
                assert(directions@.to_multiset().count(directions@[j]) > 0);
                assert(cands.to_multiset().count(directions@[j]) > 0);
            };
            maze.lemma_dims_fit();
        }

        // Select the first non-blocked candidate with the least Manhattan
        // distance to the player.
        let mut found = false;
        let mut best = self.position;
        let mut best_dist: usize = 0;
        let mut k: usize = 0;
        while k < directions.len()
            invariant
                maze.wf(),
                maze.spec_wall_ring(),
                maze.spec_interior(old(self).position),
                maze.spec_interior(player.position),
                maze.spec_width() + maze.spec_height() <= usize::MAX,
                cands == spec_candidates(old(self).position),
                0 <= k <= directions@.len(),
                forall|j: int|
                    0 <= j < directions@.len() ==> cands.contains(#[trigger] directions@[j]),
                found ==> cands.contains(best) && !maze.spec_blocked_at(best) && best_dist
                    == spec_manhattan(best, player.position),
                forall|j: int|
                    0 <= j < k && !maze.spec_blocked_at(#[trigger] directions@[j]) ==> found
                        && best_dist <= spec_manhattan(directions@[j], player.position),
            decreases directions@.len() - k,
        {
            let c = directions[k];
            proof {
                lemma_candidate_properties(*maze, old(self).position, player.position, c);
            }
            if !maze.is_blocked(c.x, c.y) {
                let dist: usize = c.manhattan_distance(player.get_position());
                if !found || dist < best_dist {
                    found = true;
                    best = c;
                    best_dist = dist;
                }
            }
            k = k + 1;
        }

        proof {
            broadcast use vstd::seq_lib::group_to_multiset_ensures;

            // Staying put is a non-blocked candidate and appears among
            // the shuffled cells, so a choice was found; and every
            // candidate appears among the shuffled cells, so no closer
            // non-blocked candidate was missed.
            assert forall|j: int| 0 <= j < cands.len() implies directions@.contains(
                #[trigger] cands[j],
            ) by {
                assert(cands.contains(cands[j]));
                assert(cands.to_multiset().count(cands[j]) > 0);
                assert(directions@.to_multiset().count(cands[j]) > 0);
            };
            assert(cands[4] == old(self).position);
            assert(directions@.contains(old(self).position));
            let i = choose|i: int|
                0 <= i < directions@.len() && directions@[i] == old(self).position;
            assert(!maze.spec_blocked_at(directions@[i]));
            assert(found);
            assert forall|j: int|
                0 <= j < cands.len() && !maze.spec_blocked_at(#[trigger] cands[j])
                    implies best_dist <= spec_manhattan(cands[j], player.position) by {
                let m = choose|m: int| 0 <= m < directions@.len() && directions@[m] == cands[j];
                assert(!maze.spec_blocked_at(directions@[m]));
            };
            maze.lemma_open_is_interior(best);
        }

        // Update the position to the chosen non-blocked cell closest to
        // the player.
        self.position = best;
    }

    /// Return the current position of the `Enemy`.
    pub fn get_position(&self) -> (r: &Coordinates)
        ensures
            *r == self.position,
    {
        &self.position
    }

    /// Return the `Enemy` representation.
    pub fn get_representation(&self) -> (c: char)
        ensures
            c == ENEMY_REPRESENTATION,
    {
        ENEMY_REPRESENTATION
    }
}

} // verus!
