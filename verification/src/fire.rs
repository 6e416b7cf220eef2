//! The fire left by an exploding bomb. A fire burns for a fixed duration,
//! kills the player and every enemy standing on its cell while it burns,
//! and deletes itself when put out.

use vstd::prelude::*;
use std::collections::VecDeque;
use crate::coordinates::Coordinates;
use crate::enemy::Enemy;
use crate::events::{GameEvent, ResultEvent};
use crate::player::Player;

verus! {

/// The deletion events a burning fire at `pos` emits, one per enemy whose
/// slot among the first `n` holds an enemy standing on `pos`, in id order.
pub open spec fn spec_kill_enemy_events(
    enemies: Seq<Option<Enemy>>,
    pos: Coordinates,
    n: int,
) -> Seq<ResultEvent>
    decreases n,
{
    if n <= 0 {
        Seq::<ResultEvent>::empty()
    } else {
        spec_kill_enemy_events(enemies, pos, n - 1) + (
        if enemies[n - 1] matches Some(e) && e.position == pos {
            seq![ResultEvent::EnemyDelete { id: (n - 1) as usize }]
        } else {
            Seq::<ResultEvent>::empty()
        })
    }
}

/// A `Fire` object represents the explosion fire produced by a bomb.
#[derive(Clone, Copy, Debug, PartialEq, Eq, Structural)]
pub struct Fire {
    /// The `Coordinates` where this game element is located.
    pub position: Coordinates,

    /// Duration in milliseconds before the fire is extinguished.
    pub duration: u64,
}

/// Character to represent a `Fire` object in the maze.
pub const FIRE_REPRESENTATION: char = '*';

/// Every event a fire's collision scan emits is an enemy deletion.
pub proof fn lemma_kill_events_are_deletes(enemies: Seq<Option<Enemy>>, pos: Coordinates, n: int)
    ensures
        forall|i: int|
            0 <= i < spec_kill_enemy_events(enemies, pos, n).len() ==> (
            #[trigger] spec_kill_enemy_events(enemies, pos, n)[i]) matches
                ResultEvent::EnemyDelete { .. },
    decreases n,
{
    if n > 0 {
        lemma_kill_events_are_deletes(enemies, pos, n - 1);
    }
}

impl Fire {
    /// Creates a new `Fire` object given its coordinates and its duration.
    pub fn new(x: usize, y: usize, duration: u64) -> (f: Fire)
        ensures
            f.position == (Coordinates { x, y }),
            f.duration == duration,
    {
        let position = Coordinates { x, y };

        Fire { position, duration }
    }

    /// The result events this fire emits for one incoming game event.
    ///
    /// On initialization it schedules its own extinction after its burn
    /// duration, starts its self-perpetuating collision poll, and reports
    /// a world change. On a collision check it reports the player dead if
    /// the player stands on the fire cell, emits one deletion per enemy
    /// on the cell, and re-enqueues the next check. On put-out it deletes
    /// itself. Any other event produces nothing.
    pub open spec fn spec_reaction(
        self,
        player: Player,
        enemies: Seq<Option<Enemy>>,
        event: GameEvent,
    ) -> Seq<ResultEvent> {
        match event {
            GameEvent::FireInit { id } => seq![
                ResultEvent::GameScheduleEvent {
                    millis: self.duration,
                    event: GameEvent::FirePutOut { id },
                },
                ResultEvent::GameSetEvent { event: GameEvent::FireCheckCollision { id } },
                ResultEvent::GameUpdated,
            ],
            GameEvent::FireCheckCollision { id } => (
            if player.position == self.position {
                seq![ResultEvent::PlayerDied]
            } else {
                Seq::<ResultEvent>::empty()
            }) + spec_kill_enemy_events(enemies, self.position, enemies.len() as int) + seq![
                ResultEvent::GameSetEvent { event: GameEvent::FireCheckCollision { id } },
            ],
            GameEvent::FirePutOut { id } => seq![
                ResultEvent::FireDelete { id },
                ResultEvent::GameUpdated,
            ],
            _ => Seq::<ResultEvent>::empty(),
        }
    }

    /// Update the `Fire` state according to a game event and push the
    /// resulting `ResultEvent`s.
    pub fn update(
        &self,
        player: &Player,
        enemies: &Vec<Option<Enemy>>,
        event: GameEvent,
        results: &mut VecDeque<ResultEvent>,
    )
        ensures
            final(results)@ == old(results)@ + self.spec_reaction(*player, enemies@, event),
    {
        match event {
            GameEvent::FireInit { id } => {
                // Add a fire extinction event to put out the fire after
                // its burn duration.
                results.push_back(ResultEvent::GameScheduleEvent {
                    millis: self.duration,
                    event: GameEvent::FirePutOut { id },
                });

                // Check collisions with other game elements.
                results.push_back(ResultEvent::GameSetEvent {
                    event: GameEvent::FireCheckCollision { id },
                });

                // Notify that the game state has changed.
                results.push_back(ResultEvent::GameUpdated);
                proof {
                    assert(results@ =~= old(results)@ + self.spec_reaction(
                        *player,
                        enemies@,
                        event,
                    ));
                }
            }
            GameEvent::FireCheckCollision { id } => {
                // Kill the player if burnt by fire.
                if player.get_position().x == self.position.x && player.get_position().y
                    == self.position.y {
                    results.push_back(ResultEvent::PlayerDied);
                }
                let ghost head = if player.position == self.position {
                    seq![ResultEvent::PlayerDied]
                } else {
                    Seq::<ResultEvent>::empty()
                };
                proof {
                    assert(results@ =~= old(results)@ + head);
                }

                // Kill every enemy who collides with the fire.
                let kill_enemy_events = self.create_kill_enemy_event(enemies);
                let mut k: usize = 0;
                while k < kill_enemy_events.len()
                    invariant
                        0 <= k <= kill_enemy_events@.len(),
                        results@ == old(results)@ + head + kill_enemy_events@.take(k as int),
                    decreases kill_enemy_events@.len() - k,
                {
                    results.push_back(kill_enemy_events[k]);
                    proof {
                        assert(kill_enemy_events@.take(k + 1) =~= kill_enemy_events@.take(
                            k as int,
                        ).push(kill_enemy_events@[k as int]));
                        assert(old(results)@ + head + kill_enemy_events@.take(k + 1) =~= (old(
                            results,
                        )@ + head + kill_enemy_events@.take(k as int)).push(
                            kill_enemy_events@[k as int],
                        ));
                    }
                    k = k + 1;
                }
                proof {
                    assert(kill_enemy_events@.take(kill_enemy_events@.len() as int)
                        =~= kill_enemy_events@);
                }

                // Recheck collision with other game elements on a later
                // tick.
                results.push_back(ResultEvent::GameSetEvent {
                    event: GameEvent::FireCheckCollision { id },
                });
                proof {
                    assert(results@ =~= old(results)@ + self.spec_reaction(
                        *player,
                        enemies@,
                        event,
                    ));
                }
            }
            GameEvent::FirePutOut { id } => {
                // Extinguish the fire.
                results.push_back(ResultEvent::FireDelete { id });

                // Notify that the game state has changed.
                results.push_back(ResultEvent::GameUpdated);
                proof {
                    assert(results@ =~= old(results)@ + self.spec_reaction(
                        *player,
                        enemies@,
                        event,
                    ));
                }
            }
            _ => {
                proof {
                    assert(results@ =~= old(results)@ + self.spec_reaction(
                        *player,
                        enemies@,
                        event,
                    ));
                }
            }
        }
    }

    /// Create an `EnemyDelete` event for every enemy who collides with
    /// the fire, in id order.
    fn create_kill_enemy_event(&self, enemies: &Vec<Option<Enemy>>) -> (r: Vec<ResultEvent>)
        ensures
            r@ == spec_kill_enemy_events(enemies@, self.position, enemies@.len() as int),
    {
        let mut r: Vec<ResultEvent> = Vec::new();
        let mut k: usize = 0;
        while k < enemies.len()
            invariant
                0 <= k <= enemies@.len(),
                r@ == spec_kill_enemy_events(enemies@, self.position, k as int),
            decreases enemies@.len() - k,
        {
            if self.enemy_collides(&enemies[k]) {
                r.push(ResultEvent::EnemyDelete { id: k });
            }
            k = k + 1;
        }
        r
    }

    /// Checks whether or not a given `Option<Enemy>` holds an enemy in
    /// the same cell as the fire.
    fn enemy_collides(&self, enemy: &Option<Enemy>) -> (b: bool)
        ensures
            b == (enemy matches Some(e) && e.position == self.position),
    {
        if let Some(enemy) = enemy {
            return enemy.get_position().x == self.position.x && enemy.get_position().y
                == self.position.y;
        }

        false
    }

    /// Return the current position of the `Fire`.
    pub fn get_position(&self) -> (r: &Coordinates)
        ensures
            *r == self.position,
    {
        &self.position
    }

    /// Return the `Fire` representation.
    pub fn get_representation(&self) -> (c: char)
        ensures
            c == FIRE_REPRESENTATION,
    {
        FIRE_REPRESENTATION
    }
}

} // verus!
