//! The dispatch loop's state and its phases: the three event queues, the
//! scheduler, the current level and the game mode. Entities react to
//! events by emitting result effects; only the dispatch loop applies the
//! effects against the shared world, one at a time, in the order they
//! were produced.
//!
//! One tick, driven from outside with the current clock reading and at
//! most one fresh input event, performs in strict order: queue the input,
//! drain the expired timeouts into the game queue, drain the input queue,
//! drain the game queue, and drain the result queue. While the game is
//! paused, a tick only polls for the pause toggle and drops every other
//! input, leaving the whole state untouched.

use vstd::prelude::*;
use std::collections::VecDeque;
use crate::bomb::Bomb;
use crate::coordinates::Coordinates;
use crate::enemy::Enemy;
use crate::events::{GameEvent, InputEvent, ResultEvent};
use crate::fire::Fire;
use crate::level::{Level, LevelContent};
use crate::maze::Maze;
use crate::time::{pops_soonest, TimeController, MAX_EVENT_DELAY_MILLIS};
use crate::utils::{spec_first_fit, InsertAtEmpty};

verus! {

/// The `GameMode` defines the meta state of the game.
#[derive(Clone, Copy, Debug, PartialEq, Eq, Structural)]
pub enum GameMode {
    /// The game is reading user input and dispatching events.
    Running,

    /// The game is blocked: only the pause toggle is listened to, and
    /// nothing else advances.
    Paused,

    /// The game is leaving the main loop; there is no way out of this
    /// mode.
    Ended,
}

/// What must hold of a result event sitting in the result queue, so that
/// applying it keeps the world well formed: a scheduling request stays
/// within the game's delay bound, and a new entity stands strictly
/// inside the maze's wall ring.
pub open spec fn spec_result_event_wf(r: ResultEvent, maze: Maze) -> bool {
    match r {
        ResultEvent::GameScheduleEvent { millis, event } => millis <= MAX_EVENT_DELAY_MILLIS,
        ResultEvent::BombNew { bomb } => maze.spec_interior(bomb.position),
        ResultEvent::FireNew { fire } => maze.spec_interior(fire.position) && fire.duration
            <= MAX_EVENT_DELAY_MILLIS,
        _ => true,
    }
}

/// Whether every event of `s` may sit in the result queue.
pub open spec fn spec_results_wf(s: Seq<ResultEvent>, maze: Maze) -> bool {
    forall|i: int| 0 <= i < s.len() ==> spec_result_event_wf(#[trigger] s[i], maze)
}

/// The initial game events of a level: one initialization event per
/// arena slot of the level, then the stairs' first collision check,
/// waking every game element at least once.
pub open spec fn spec_init_game_events(level: Level) -> Seq<GameEvent> {
    Seq::new(level.enemies@.len(), |i: int| GameEvent::EnemyInit { id: i as usize }) + Seq::new(
        level.bombs@.len(),
        |i: int| GameEvent::BombInit { id: i as usize },
    ) + Seq::new(level.fires@.len(), |i: int| GameEvent::FireInit { id: i as usize }) + seq![
        GameEvent::StairsCheckCollision,
    ]
}

/// Generate the initial events to wake up every game element of a level
/// at least once.
pub fn generate_init_game_events(level: &Level) -> (r: VecDeque<GameEvent>)
    ensures
        r@ == spec_init_game_events(*level),
{
    let ghost enemy_events = Seq::new(
        level.enemies@.len(),
        |i: int| GameEvent::EnemyInit { id: i as usize },
    );
    let ghost bomb_events = Seq::new(
        level.bombs@.len(),
        |i: int| GameEvent::BombInit { id: i as usize },
    );
    let ghost fire_events = Seq::new(
        level.fires@.len(),
        |i: int| GameEvent::FireInit { id: i as usize },
    );

    let mut game_events: VecDeque<GameEvent> = VecDeque::new();

    // Generate initialization game events for the enemies.
    let mut k: usize = 0;
    while k < level.enemies.len()
        invariant
            enemy_events == Seq::new(
                level.enemies@.len(),
                |i: int| GameEvent::EnemyInit { id: i as usize },
            ),
            0 <= k <= level.enemies@.len(),
            game_events@ == enemy_events.take(k as int),
        decreases level.enemies@.len() - k,
    {
        game_events.push_back(GameEvent::EnemyInit { id: k });
        proof {
            assert(enemy_events.take(k as int + 1) =~= enemy_events.take(k as int).push(
                enemy_events[k as int],
            ));
        }
        k = k + 1;
    }
    proof {
        assert(enemy_events.take(enemy_events.len() as int) =~= enemy_events);
    }

    // Generate initialization game events for the bombs.
    let mut k: usize = 0;
    while k < level.bombs.len()
        invariant
            enemy_events == Seq::new(
                level.enemies@.len(),
                |i: int| GameEvent::EnemyInit { id: i as usize },
            ),
            bomb_events == Seq::new(
                level.bombs@.len(),
                |i: int| GameEvent::BombInit { id: i as usize },
            ),
            0 <= k <= level.bombs@.len(),
            game_events@ == enemy_events + bomb_events.take(k as int),
        decreases level.bombs@.len() - k,
    {
        game_events.push_back(GameEvent::BombInit { id: k });
        proof {
            assert(bomb_events.take(k as int + 1) =~= bomb_events.take(k as int).push(
                bomb_events[k as int],
            ));
            assert(enemy_events + bomb_events.take(k as int + 1) =~= (enemy_events
                + bomb_events.take(k as int)).push(bomb_events[k as int]));
        }
        k = k + 1;
    }
    proof {
        assert(bomb_events.take(bomb_events.len() as int) =~= bomb_events);
    }

    // Generate initialization game events for the fires.
    let mut k: usize = 0;
    while k < level.fires.len()
        invariant
            enemy_events == Seq::new(
                level.enemies@.len(),
                |i: int| GameEvent::EnemyInit { id: i as usize },
            ),
            bomb_events == Seq::new(
                level.bombs@.len(),
                |i: int| GameEvent::BombInit { id: i as usize },
            ),
            fire_events == Seq::new(
                level.fires@.len(),
                |i: int| GameEvent::FireInit { id: i as usize },
            ),
            0 <= k <= level.fires@.len(),
            game_events@ == enemy_events + bomb_events + fire_events.take(k as int),
        decreases level.fires@.len() - k,
    {
        game_events.push_back(GameEvent::FireInit { id: k });
        proof {
            assert(fire_events.take(k as int + 1) =~= fire_events.take(k as int).push(
                fire_events[k as int],
            ));
            assert(enemy_events + bomb_events + fire_events.take(k as int + 1) =~= (enemy_events
                + bomb_events + fire_events.take(k as int)).push(fire_events[k as int]));
        }
        k = k + 1;
    }
    proof {
        assert(fire_events.take(fire_events.len() as int) =~= fire_events);
    }

    // Generate the event for the stairs to start checking collisions.
    game_events.push_back(GameEvent::StairsCheckCollision);
    proof {
        assert(game_events@ =~= spec_init_game_events(*level));
    }

    game_events
}

/// Breaking a maze tile keeps a well-formed level well formed: the
/// dimensions and the wall ring stay, and no open cell becomes blocked,
/// so every live entity still stands where it may.
proof fn lemma_level_wf_after_break(pre: Level, post: Level)
    requires
        pre.wf(),
        post == (Level { maze: post.maze, ..pre }),
        post.maze.wf(),
        post.maze.spec_width() == pre.maze.spec_width(),
        post.maze.spec_height() == pre.maze.spec_height(),
        post.maze.spec_wall_ring() == pre.maze.spec_wall_ring(),
        forall|cx: int, cy: int|
            #![trigger post.maze.spec_blocked(cx, cy)]
            pre.maze.spec_in_bounds(cx, cy) && !pre.maze.spec_blocked(cx, cy)
                ==> !post.maze.spec_blocked(cx, cy),
    ensures
        post.wf(),
{
    assert forall|i: int|
        0 <= i < post.enemies@.len() implies ((#[trigger] post.enemies@[i]) matches Some(e)
        ==> post.maze.spec_interior(e.position) && !post.maze.spec_blocked_at(e.position)) by {
        match post.enemies@[i] {
            Some(e) => {
                assert(pre.maze.spec_interior(e.position));
                assert(!pre.maze.spec_blocked_at(e.position));
                assert(!post.maze.spec_blocked(e.position.x as int, e.position.y as int));
            }
            None => (),
        }
    };
}

/// A queue of result events stays admissible when the maze changes
/// without changing its dimensions: admissibility constrains positions
/// only through interiority, which depends on the dimensions alone.
proof fn lemma_results_wf_same_dims(s: Seq<ResultEvent>, pre: Maze, post: Maze)
    requires
        spec_results_wf(s, pre),
        post.spec_width() == pre.spec_width(),
        post.spec_height() == pre.spec_height(),
    ensures
        spec_results_wf(s, post),
{
    assert forall|i: int| 0 <= i < s.len() implies spec_result_event_wf(
        #[trigger] s[i],
        post,
    ) by {
        assert(spec_result_event_wf(s[i], pre));
    };
}

/// Two admissible result queues concatenate to an admissible one.
proof fn lemma_results_wf_extend(a: Seq<ResultEvent>, b: Seq<ResultEvent>, maze: Maze)
    requires
        spec_results_wf(a, maze),
        spec_results_wf(b, maze),
    ensures
        spec_results_wf(a + b, maze),
{
    assert forall|i: int| 0 <= i < (a + b).len() implies spec_result_event_wf(
        #[trigger] (a + b)[i],
        maze,
    ) by {
        if i < a.len() {
            assert((a + b)[i] == a[i]);
        } else {
            assert((a + b)[i] == b[i - a.len()]);
        }
    };
}

/// Every event a bomb strictly inside the wall ring can emit is
/// admissible: its scheduling request carries the fixed fuse, and every
/// fire it creates burns for the fixed duration on a blast cell, which
/// lies strictly inside the ring.
proof fn lemma_bomb_reaction_wf(b: Bomb, maze: Maze, e: GameEvent)
    requires
        maze.wf(),
        maze.spec_wall_ring(),
        maze.spec_interior(b.position),
    ensures
        spec_results_wf(b.spec_reaction(maze, e), maze),
{
    let ext = b.spec_reaction(maze, e);
    match e {
        GameEvent::BombExplode { id } => {
            crate::bomb::lemma_blast_cells_interior(maze, b.position);
            let fires = crate::bomb::spec_fire_events(maze, b.position);
            let cells = crate::bomb::spec_blast_cells(maze, b.position);
            assert forall|i: int| 0 <= i < ext.len() implies spec_result_event_wf(
                #[trigger] ext[i],
                maze,
            ) by {
                if i < fires.len() {
                    assert(ext[i] == fires[i]);
                    assert(fires[i] == (ResultEvent::FireNew {
                        fire: Fire {
                            position: cells[i],
                            duration: crate::bomb::BOMB_FIRE_DURATION,
                        },
                    }));
                }
            };
        }
        _ => (),
    }
}

/// Every event a fire with an admissible burn duration can emit is
/// admissible: it only schedules its own extinction, re-enqueues checks,
/// and deletes entities.
proof fn lemma_fire_reaction_wf(
    f: Fire,
    player: crate::player::Player,
    enemies: Seq<Option<Enemy>>,
    maze: Maze,
    e: GameEvent,
)
    requires
        f.duration <= MAX_EVENT_DELAY_MILLIS,
    ensures
        spec_results_wf(f.spec_reaction(player, enemies, e), maze),
{
    let ext = f.spec_reaction(player, enemies, e);
    match e {
        GameEvent::FireCheckCollision { id } => {
            let head = if player.position == f.position {
                seq![ResultEvent::PlayerDied]
            } else {
                Seq::<ResultEvent>::empty()
            };
            let kills = crate::fire::spec_kill_enemy_events(
                enemies,
                f.position,
                enemies.len() as int,
            );
            crate::fire::lemma_kill_events_are_deletes(enemies, f.position, enemies.len() as int);
            assert forall|i: int| 0 <= i < ext.len() implies spec_result_event_wf(
                #[trigger] ext[i],
                maze,
            ) by {
                if i < head.len() {
                    assert(ext[i] == head[i]);
                } else if i < head.len() + kills.len() {
                    assert(ext[i] == kills[i - head.len()]);
                    assert(kills[i - head.len()] matches ResultEvent::EnemyDelete { .. });
                }
            };
        }
        _ => (),
    }
}

/// A `Game` holds the current level, the three event queues, the
/// scheduler and the meta state of the game; its methods are the phases
/// of the dispatch loop.
pub struct Game {
    /// The representation of the current level: the maze and the game
    /// elements.
    pub level: Level,

    /// The queue holding every input event entered by the user.
    pub input_events: VecDeque<InputEvent>,

    /// The queue holding every event generated by the game.
    pub game_events: VecDeque<GameEvent>,

    /// The queue holding every result event.
    pub result_events: VecDeque<ResultEvent>,

    /// The scheduler charged with the time-delayed events.
    pub time_controller: TimeController,

    /// The meta state of the game.
    pub game_mode: GameMode,

    /// Whether the game state has changed since the last render.
    pub updated: bool,

    /// Whether a level transition has been requested and its content is
    /// awaited from the level loader.
    pub pending_next_level: bool,
}

impl Game {
    /// A well-formed game: the level is well formed, every pending
    /// deadline fits the clock, and every queued result event may be
    /// applied safely.
    pub open spec fn wf(self) -> bool {
        &&& self.level.wf()
        &&& self.time_controller.wf()
        &&& spec_results_wf(self.result_events@, self.level.maze)
    }

    /// Initialize a new game on a level: running, nothing queued but the
    /// level's initialization events, nothing scheduled, nothing
    /// rendered yet.
    pub fn new(level: Level) -> (game: Game)
        requires
            level.wf(),
        ensures
            game.wf(),
            game.level == level,
            game.input_events@ == Seq::<InputEvent>::empty(),
            game.game_events@ == spec_init_game_events(level),
            game.result_events@ == Seq::<ResultEvent>::empty(),
            game.time_controller@.len() == 0,
            game.game_mode == GameMode::Running,
            game.updated == false,
            game.pending_next_level == false,
    {
        // Initialize the basic game events to allow the game elements to
        // take their first turn.
        let game_events = generate_init_game_events(&level);

        let game = Game {
            level,
            input_events: VecDeque::new(),
            game_events,
            result_events: VecDeque::new(),
            time_controller: TimeController::new(),
            game_mode: GameMode::Running,
            updated: false,
            pending_next_level: false,
        };
        proof {
            assert(game.input_events@ =~= Seq::<InputEvent>::empty());
            assert(game.result_events@ =~= Seq::<ResultEvent>::empty());
        }
        game
    }

    /// Clear all the events in the game: the three queues and the
    /// scheduler.
    pub fn clear_all_events(&mut self)
        ensures
            *final(self) == (Game {
                input_events: final(self).input_events,
                game_events: final(self).game_events,
                result_events: final(self).result_events,
                time_controller: final(self).time_controller,
                ..*old(self)
            }),
            final(self).input_events@ == Seq::<InputEvent>::empty(),
            final(self).game_events@ == Seq::<GameEvent>::empty(),
            final(self).result_events@ == Seq::<ResultEvent>::empty(),
            final(self).time_controller@ == Seq::<crate::time::Timeout>::empty(),
            final(self).time_controller.wf(),
    {
        self.input_events.clear();
        self.game_events.clear();
        self.result_events.clear();
        self.time_controller.clear();
        proof {
            assert(self.input_events@ =~= Seq::<InputEvent>::empty());
            assert(self.game_events@ =~= Seq::<GameEvent>::empty());
            assert(self.result_events@ =~= Seq::<ResultEvent>::empty());
        }
    }

    /// What applying one result event against the shared world does,
    /// case by case. Everything a case does not name stays as it was.
    pub open spec fn spec_apply_result(pre: Game, post: Game, r: ResultEvent, now: u64) -> bool {
        match r {
            ResultEvent::DoNothing => post == pre,
            ResultEvent::NextLevel => {
                &&& post == (Game {
                    input_events: post.input_events,
                    game_events: post.game_events,
                    result_events: post.result_events,
                    time_controller: post.time_controller,
                    pending_next_level: true,
                    ..pre
                })
                &&& post.input_events@ == Seq::<InputEvent>::empty()
                &&& post.game_events@ == Seq::<GameEvent>::empty()
                &&& post.result_events@ == Seq::<ResultEvent>::empty()
                &&& post.time_controller@ == Seq::<crate::time::Timeout>::empty()
            },
            ResultEvent::PlayerDied => post == (Game { game_mode: GameMode::Ended, ..pre }),
            ResultEvent::GameExit => post == (Game { game_mode: GameMode::Ended, ..pre }),
            ResultEvent::GamePause => post == (Game { game_mode: GameMode::Paused, ..pre }),
            ResultEvent::GameUpdated => post == (Game { updated: true, ..pre }),
            ResultEvent::GameScheduleEvent { millis, event } => {
                &&& post == (Game { time_controller: post.time_controller, ..pre })
                &&& post.time_controller@ == pre.time_controller@.push(
                    crate::time::Timeout { creation_time: now, expire_after: millis, event },
                )
            },
            ResultEvent::GameSetEvent { event } => {
                &&& post == (Game { game_events: post.game_events, ..pre })
                &&& post.game_events@ == pre.game_events@.push(event)
            },
            ResultEvent::MazeBreak { x, y } => {
                &&& post == (Game { level: post.level, ..pre })
                &&& post.level == (Level { maze: post.level.maze, ..pre.level })
                &&& Maze::spec_broken(pre.level.maze, post.level.maze, x as int, y as int)
            },
            ResultEvent::BombNew { bomb } => {
                &&& post == (Game { level: post.level, game_events: post.game_events, ..pre })
                &&& post.level == (Level { bombs: post.level.bombs, ..pre.level })
                &&& exists|id: int|
                    #[trigger] spec_first_fit(pre.level.bombs@, post.level.bombs@, bomb, id)
                        && post.game_events@ == pre.game_events@.push(
                        GameEvent::BombInit { id: id as usize },
                    )
            },
            ResultEvent::BombDelete { id } => {
                &&& post == (Game { level: post.level, ..pre })
                &&& post.level == (Level { bombs: post.level.bombs, ..pre.level })
                &&& post.level.bombs@ == if id < pre.level.bombs@.len() {
                    pre.level.bombs@.update(id as int, None)
                } else {
                    pre.level.bombs@
                }
            },
            ResultEvent::FireNew { fire } => {
                &&& post == (Game { level: post.level, game_events: post.game_events, ..pre })
                &&& post.level == (Level { fires: post.level.fires, ..pre.level })
                &&& exists|id: int|
                    #[trigger] spec_first_fit(pre.level.fires@, post.level.fires@, fire, id)
                        && post.game_events@ == pre.game_events@.push(
                        GameEvent::FireInit { id: id as usize },
                    )
            },
            ResultEvent::FireDelete { id } => {
                &&& post == (Game { level: post.level, ..pre })
                &&& post.level == (Level { fires: post.level.fires, ..pre.level })
                &&& post.level.fires@ == if id < pre.level.fires@.len() {
                    pre.level.fires@.update(id as int, None)
                } else {
                    pre.level.fires@
                }
            },
            ResultEvent::EnemyDelete { id } => {
                &&& post == (Game { level: post.level, ..pre })
                &&& post.level == (Level { enemies: post.level.enemies, ..pre.level })
                &&& post.level.enemies@ == if id < pre.level.enemies@.len() {
                    pre.level.enemies@.update(id as int, None)
                } else {
                    pre.level.enemies@
                }
            },
        }
    }

    /// Apply one result event against the shared world state: the only
    /// place where the world is mutated. A deletion whose arena slot is
    /// already empty, or whose id lies outside the arena, is dropped
    /// silently: an entity racing its own deletion is expected and must
    /// not stop the loop.
    pub fn handle_result_event(&mut self, result_event: ResultEvent, now: u64)
        requires
            old(self).wf(),
            spec_result_event_wf(result_event, old(self).level.maze),
            now <= u64::MAX - MAX_EVENT_DELAY_MILLIS,
        ensures
            final(self).wf(),
            Game::spec_apply_result(*old(self), *final(self), result_event, now),
    {
        match result_event {
            ResultEvent::DoNothing => {
                // Ignored.
            }
            ResultEvent::NextLevel => {
                // The next level is loaded from outside; clear the events
                // of this level at once, so that no stale event fires
                // into the next level's entity ids.
                self.clear_all_events();
                self.pending_next_level = true;
            }
            ResultEvent::PlayerDied | ResultEvent::GameExit => {
                // Exit the game.
                self.game_mode = GameMode::Ended;
            }
            ResultEvent::GamePause => {
                // Change the game to paused mode. Lock movement.
                self.game_mode = GameMode::Paused;
            }
            ResultEvent::GameUpdated => {
                // Remember the change in the world state for the next
                // render.
                self.updated = true;
            }
            ResultEvent::GameScheduleEvent { millis, event } => {
                // Schedule an event to fire after `millis` milliseconds.
                self.time_controller.schedule_event_in(now, millis, event);
            }
            ResultEvent::GameSetEvent { event } => {
                // Set the next game event to execute.
                self.game_events.push_back(event);
            }
            ResultEvent::MazeBreak { x, y } => {
                // Break the tile at position `x` and `y`.
                self.level.maze.break_tile(x, y);
                proof {
                    lemma_level_wf_after_break(old(self).level, self.level);
                    lemma_results_wf_same_dims(
                        self.result_events@,
                        old(self).level.maze,
                        self.level.maze,
                    );
                }
            }
            ResultEvent::BombNew { bomb } => {
                // Add the bomb to the level and get its id.
                let id = self.level.add_bomb(bomb);

                // Initialize the bomb so that it explodes later.
                self.game_events.push_back(GameEvent::BombInit { id });
                proof {
                    assert(spec_first_fit(
                        old(self).level.bombs@,
                        self.level.bombs@,
                        bomb,
                        id as int,
                    ));
                }
            }
            ResultEvent::BombDelete { id } => {
                // Discard the bomb at exploding time.
                if id < self.level.bombs.len() {
                    self.level.bombs.set(id, None);
                }
            }
            ResultEvent::FireNew { fire } => {
                // Add the fire to the level and get its id.
                let id = self.level.add_fire(fire);

                // Initialize the fire so that it is put out later.
                self.game_events.push_back(GameEvent::FireInit { id });
                proof {
                    assert(spec_first_fit(
                        old(self).level.fires@,
                        self.level.fires@,
                        fire,
                        id as int,
                    ));
                }
            }
            ResultEvent::FireDelete { id } => {
                // Discard the fire.
                if id < self.level.fires.len() {
                    self.level.fires.set(id, None);
                }
            }
            ResultEvent::EnemyDelete { id } => {
                // Discard the enemy.
                if id < self.level.enemies.len() {
                    self.level.enemies.set(id, None);
                }
            }
        }
    }

    /// What handling one input event does: movement and bomb placement
    /// go to the player, pause and quit become result effects for the
    /// next drain.
    pub open spec fn spec_apply_input(pre: Game, post: Game, e: InputEvent) -> bool {
        match e {
            InputEvent::PlayerMove(d) => {
                &&& post == (Game { level: post.level, result_events: post.result_events, ..pre })
                &&& post.level == (Level { player: post.level.player, ..pre.level })
                &&& post.level.player == pre.level.player.spec_after_move(pre.level.maze, d)
                &&& post.result_events@ == pre.result_events@.push(ResultEvent::GameUpdated)
            },
            InputEvent::PlayerCreateBomb => {
                &&& post == (Game { level: post.level, result_events: post.result_events, ..pre })
                &&& post.level == (Level { player: post.level.player, ..pre.level })
                &&& post.level.player == pre.level.player.spec_after_create_bomb()
                &&& post.result_events@ == pre.result_events@
                    + pre.level.player.spec_create_bomb_events()
            },
            InputEvent::GameQuit => {
                &&& post == (Game { result_events: post.result_events, ..pre })
                &&& post.result_events@ == pre.result_events@.push(ResultEvent::GameExit)
            },
            InputEvent::GamePause => {
                &&& post == (Game { result_events: post.result_events, ..pre })
                &&& post.result_events@ == pre.result_events@.push(ResultEvent::GamePause)
            },
        }
    }

    /// Consume an `InputEvent`, process it and generate the
    /// corresponding result events. Movement and bomb placement are
    /// forwarded to the player; pause and quit concern the pipeline
    /// itself.
    pub fn handle_input_event(&mut self, input_event: InputEvent)
        requires
            old(self).wf(),
        ensures
            final(self).wf(),
            Game::spec_apply_input(*old(self), *final(self), input_event),
    {
        match input_event {
            InputEvent::PlayerMove(_) | InputEvent::PlayerCreateBomb => {
                // Forward the event to the player.
                self.handle_player_input_event(input_event);
            }
            InputEvent::GameQuit => {
                // Exit the game.
                self.result_events.push_back(ResultEvent::GameExit);
            }
            InputEvent::GamePause => {
                // Pause the game.
                self.result_events.push_back(ResultEvent::GamePause);
            }
        }
    }

    /// What handling one game event does: the event is routed by the id
    /// and kind it carries to the owning entity, whose reaction extends
    /// the result queue; an event addressed to an empty or missing arena
    /// slot is dropped silently.
    pub open spec fn spec_apply_game_event(pre: Game, post: Game, e: GameEvent) -> bool {
        match e {
            GameEvent::PlayerRecoverBomb => {
                &&& post == (Game { level: post.level, ..pre })
                &&& post.level == (Level { player: post.level.player, ..pre.level })
                &&& post.level.player == pre.level.player.spec_after_recover()
            },
            GameEvent::EnemyInit { id } => Game::spec_enemy_dispatch(pre, post, id as int, e),
            GameEvent::EnemyMove { id } => Game::spec_enemy_dispatch(pre, post, id as int, e),
            GameEvent::EnemyCheckCollision { id } => Game::spec_enemy_dispatch(
                pre,
                post,
                id as int,
                e,
            ),
            GameEvent::BombInit { id } => Game::spec_bomb_dispatch(pre, post, id as int, e),
            GameEvent::BombExplode { id } => Game::spec_bomb_dispatch(pre, post, id as int, e),
            GameEvent::FireInit { id } => Game::spec_fire_dispatch(pre, post, id as int, e),
            GameEvent::FireCheckCollision { id } => Game::spec_fire_dispatch(
                pre,
                post,
                id as int,
                e,
            ),
            GameEvent::FirePutOut { id } => Game::spec_fire_dispatch(pre, post, id as int, e),
            GameEvent::StairsCheckCollision => {
                &&& post == (Game { result_events: post.result_events, ..pre })
                &&& post.result_events@ == pre.result_events@.push(
                    if pre.level.player.position == pre.level.stairs.position {
                        ResultEvent::NextLevel
                    } else {
                        ResultEvent::GameSetEvent { event: GameEvent::StairsCheckCollision }
                    },
                )
            },
        }
    }

    /// What routing a game event to the enemy arena slot `id` does: a
    /// live enemy reacts — a move event takes it to a legal move choice,
    /// any other event leaves it in place — and an empty or missing slot
    /// drops the event.
    pub open spec fn spec_enemy_dispatch(pre: Game, post: Game, id: int, e: GameEvent) -> bool {
        if 0 <= id < pre.level.enemies@.len() && pre.level.enemies@[id] is Some {
            let en = pre.level.enemies@[id]->Some_0;
            &&& post == (Game { level: post.level, result_events: post.result_events, ..pre })
            &&& post.level == (Level { enemies: post.level.enemies, ..pre.level })
            &&& post.result_events@ == pre.result_events@ + en.spec_reaction(pre.level.player, e)
            &&& match e {
                GameEvent::EnemyMove { .. } => exists|p: Coordinates|
                    #[trigger] Enemy::spec_move_choice(
                        en.position,
                        pre.level.maze,
                        pre.level.player.position,
                        p,
                    ) && post.level.enemies@ == pre.level.enemies@.update(
                        id,
                        Some(Enemy { position: p }),
                    ),
                _ => post.level.enemies@ == pre.level.enemies@.update(id, Some(en)),
            }
        } else {
            post == pre
        }
    }

    /// What routing a game event to the bomb arena slot `id` does: a
    /// live bomb reacts without moving, and an empty or missing slot
    /// drops the event.
    pub open spec fn spec_bomb_dispatch(pre: Game, post: Game, id: int, e: GameEvent) -> bool {
        if 0 <= id < pre.level.bombs@.len() && pre.level.bombs@[id] is Some {
            let b = pre.level.bombs@[id]->Some_0;
            &&& post == (Game { result_events: post.result_events, ..pre })
            &&& post.result_events@ == pre.result_events@ + b.spec_reaction(pre.level.maze, e)
        } else {
            post == pre
        }
    }

    /// What routing a game event to the fire arena slot `id` does: a
    /// live fire reacts without moving, and an empty or missing slot
    /// drops the event.
    pub open spec fn spec_fire_dispatch(pre: Game, post: Game, id: int, e: GameEvent) -> bool {
        if 0 <= id < pre.level.fires@.len() && pre.level.fires@[id] is Some {
            let f = pre.level.fires@[id]->Some_0;
            &&& post == (Game { result_events: post.result_events, ..pre })
            &&& post.result_events@ == pre.result_events@ + f.spec_reaction(
                pre.level.player,
                pre.level.enemies@,
                e,
            )
        } else {
            post == pre
        }
    }

    /// Consume a `GameEvent`, route it by the id and kind it carries to
    /// the corresponding entity or arena slot, and push the resulting
    /// `ResultEvent`s. An event addressed to an already tombstoned slot
    /// is dropped silently rather than failing: entities racing their
    /// own deletion are expected and must not stop the loop.
    pub fn handle_game_event(&mut self, game_event: GameEvent)
        requires
            old(self).wf(),
        ensures
            final(self).wf(),
            Game::spec_apply_game_event(*old(self), *final(self), game_event),
    {
        match game_event {
            GameEvent::PlayerRecoverBomb => {
                // Execute the player event.
                self.handle_player_event(game_event);
            }
            GameEvent::EnemyMove { id } | GameEvent::EnemyCheckCollision { id }
                | GameEvent::EnemyInit { id } => {
                // Execute the enemy event.
                self.handle_enemy_event(game_event, id);
            }
            GameEvent::FireCheckCollision { id } | GameEvent::FirePutOut { id }
                | GameEvent::FireInit { id } => {
                // Execute the fire event.
                self.handle_fire_event(game_event, id);
            }
            GameEvent::StairsCheckCollision => {
                // Execute the stairs event.
                self.handle_stairs_event(game_event);
            }
            GameEvent::BombExplode { id } | GameEvent::BombInit { id } => {
                // Execute the bomb event.
                self.handle_bomb_event(game_event, id);
            }
        }
    }

    /// Consume an `InputEvent` addressed to the `Player` and forward it.
    fn handle_player_input_event(&mut self, event: InputEvent)
        requires
            old(self).wf(),
            event is PlayerMove || event is PlayerCreateBomb,
        ensures
            final(self).wf(),
            Game::spec_apply_input(*old(self), *final(self), event),
    {
        self.level.player.update_from_input_event(
            &self.level.maze,
            event,
            &mut self.result_events,
        );
        proof {
            let ext = if event is PlayerCreateBomb {
                old(self).level.player.spec_create_bomb_events()
            } else {
                seq![ResultEvent::GameUpdated]
            };
            assert(spec_results_wf(ext, self.level.maze));
            lemma_results_wf_extend(old(self).result_events@, ext, self.level.maze);
            if event is PlayerMove {
                assert(self.result_events@ =~= old(self).result_events@ + ext);
            }
        }
    }

    /// Consume a `GameEvent` addressed to the `Player` and forward it.
    fn handle_player_event(&mut self, event: GameEvent)
        requires
            old(self).wf(),
        ensures
            final(self).wf(),
            *final(self) == (Game { level: final(self).level, ..*old(self) }),
            final(self).level == (Level { player: final(self).level.player, ..old(self).level }),
            final(self).level.player == if event == GameEvent::PlayerRecoverBomb {
                old(self).level.player.spec_after_recover()
            } else {
                old(self).level.player
            },
    {
        self.level.player.update(event);
    }

    /// Consume a `GameEvent` addressed to an enemy and forward it to the
    /// `Enemy` with id `id`, if that arena slot holds one.
    fn handle_enemy_event(&mut self, event: GameEvent, id: usize)
        requires
            old(self).wf(),
        ensures
            final(self).wf(),
            Game::spec_enemy_dispatch(*old(self), *final(self), id as int, event),
    {
        if id < self.level.enemies.len() {
            if let Some(enemy) = self.level.enemies[id] {
                let mut enemy = enemy;
                enemy.update(
                    &self.level.player,
                    &self.level.maze,
                    event,
                    &mut self.result_events,
                );
                self.level.enemies.set(id, Some(enemy));
                proof {
                    let en0 = old(self).level.enemies@[id as int]->Some_0;
                    let ext = en0.spec_reaction(old(self).level.player, event);
                    assert(spec_results_wf(ext, self.level.maze));
                    lemma_results_wf_extend(old(self).result_events@, ext, self.level.maze);
                    assert forall|i: int|
                        0 <= i < self.level.enemies@.len() implies ((
                    #[trigger] self.level.enemies@[i]) matches Some(e)
                        ==> self.level.maze.spec_interior(e.position)
                        && !self.level.maze.spec_blocked_at(e.position)) by {
                        if i != id {
                            assert(self.level.enemies@[i] == old(self).level.enemies@[i]);
                        }
                    };
                }
            }
        }
    }

    /// Consume a `GameEvent` addressed to the `Stairs` and forward it.
    fn handle_stairs_event(&mut self, event: GameEvent)
        requires
            old(self).wf(),
        ensures
            final(self).wf(),
            *final(self) == (Game { result_events: final(self).result_events, ..*old(self) }),
            final(self).result_events@ == old(self).result_events@.push(
                if event == GameEvent::StairsCheckCollision && old(self).level.player.position
                    == old(self).level.stairs.position {
                    ResultEvent::NextLevel
                } else {
                    ResultEvent::GameSetEvent { event: GameEvent::StairsCheckCollision }
                },
            ),
    {
        self.level.stairs.update(&self.level.player, event, &mut self.result_events);
    }

    /// Consume a `GameEvent` addressed to a bomb and forward it to the
    /// `Bomb` with id `id`, if that arena slot holds one.
    fn handle_bomb_event(&mut self, event: GameEvent, id: usize)
        requires
            old(self).wf(),
        ensures
            final(self).wf(),
            Game::spec_bomb_dispatch(*old(self), *final(self), id as int, event),
    {
        if id < self.level.bombs.len() {
            if let Some(bomb) = self.level.bombs[id] {
                bomb.update(&self.level.maze, event, &mut self.result_events);
                proof {
                    let ext = bomb.spec_reaction(self.level.maze, event);
                    lemma_bomb_reaction_wf(bomb, self.level.maze, event);
                    lemma_results_wf_extend(old(self).result_events@, ext, self.level.maze);
                }
            }
        }
    }

    /// Consume a `GameEvent` addressed to a fire and forward it to the
    /// `Fire` with id `id`, if that arena slot holds one.
    fn handle_fire_event(&mut self, event: GameEvent, id: usize)
        requires
            old(self).wf(),
        ensures
            final(self).wf(),
            Game::spec_fire_dispatch(*old(self), *final(self), id as int, event),
    {
        if id < self.level.fires.len() {
            if let Some(fire) = self.level.fires[id] {
                fire.update(
                    &self.level.player,
                    &self.level.enemies,
                    event,
                    &mut self.result_events,
                );
                proof {
                    let ext = fire.spec_reaction(
                        self.level.player,
                        self.level.enemies@,
                        event,
                    );
                    lemma_fire_reaction_wf(
                        fire,
                        self.level.player,
                        self.level.enemies@,
                        self.level.maze,
                        event,
                    );
                    lemma_results_wf_extend(old(self).result_events@, ext, self.level.maze);
                }
            }
        }
    }

    /// The state after a running tick queued its at most one fresh input
    /// event: nothing but the input queue changes.
    pub open spec fn spec_queued_input(pre: Game, post: Game, input: Option<InputEvent>) -> bool {
        &&& post == (Game { input_events: post.input_events, ..pre })
        &&& post.input_events@ == match input {
            Some(e) => pre.input_events@.push(e),
            None => pre.input_events@,
        }
    }

    /// The expired timeouts drain into the game queue: one soonest pop
    /// at a time, each appended to the game queue, until no pending
    /// deadline has passed. `fuel` counts the pops.
    pub open spec fn spec_drains_timeouts(pre: Game, post: Game, now: u64, fuel: nat) -> bool
        decreases fuel,
    {
        if forall|i: int|
            0 <= i < pre.time_controller@.len() ==> (
            #[trigger] pre.time_controller@[i]).spec_deadline() > now {
            post == pre
        } else if fuel == 0 {
            false
        } else {
            exists|mid: Game, i: int|
                {
                    &&& mid == (Game {
                        game_events: mid.game_events,
                        time_controller: mid.time_controller,
                        ..pre
                    })
                    &&& #[trigger] pops_soonest(
                        pre.time_controller@,
                        mid.time_controller@,
                        pre.time_controller@[i].event,
                        now as int,
                        i,
                    )
                    &&& mid.game_events@ == pre.game_events@.push(pre.time_controller@[i].event)
                    &&& Game::spec_drains_timeouts(mid, post, now, (fuel - 1) as nat)
                }
        }
    }

    /// The expired timeouts drain into the game queue in some number of
    /// pops.
    pub open spec fn spec_timeouts_drained(pre: Game, post: Game, now: u64) -> bool {
        exists|fuel: nat| #[trigger] Game::spec_drains_timeouts(pre, post, now, fuel)
    }

    /// The input events of `q` are popped from the front and handled in
    /// order, each through `spec_apply_input`.
    pub open spec fn spec_drains_input(pre: Game, post: Game, q: Seq<InputEvent>) -> bool
        decreases q.len(),
    {
        if q.len() == 0 {
            post == pre
        } else {
            exists|popped: Game, mid: Game|
                {
                    &&& popped == (Game { input_events: popped.input_events, ..pre })
                    &&& popped.input_events@ == q.drop_first()
                    &&& #[trigger] Game::spec_apply_input(popped, mid, q[0])
                    &&& Game::spec_drains_input(mid, post, q.drop_first())
                }
        }
    }

    /// The game events of `q` are popped from the front and handled in
    /// order, each through `spec_apply_game_event`.
    pub open spec fn spec_drains_game(pre: Game, post: Game, q: Seq<GameEvent>) -> bool
        decreases q.len(),
    {
        if q.len() == 0 {
            post == pre
        } else {
            exists|popped: Game, mid: Game|
                {
                    &&& popped == (Game { game_events: popped.game_events, ..pre })
                    &&& popped.game_events@ == q.drop_first()
                    &&& #[trigger] Game::spec_apply_game_event(popped, mid, q[0])
                    &&& Game::spec_drains_game(mid, post, q.drop_first())
                }
        }
    }

    /// The result effects are popped from the front and applied through
    /// `spec_apply_result` until the result queue is empty. Applying one
    /// may refill the game queue or the scheduler, and a level
    /// transition empties the result queue itself. `fuel` counts the
    /// applications.
    pub open spec fn spec_drains_results(pre: Game, post: Game, now: u64, fuel: nat) -> bool
        decreases fuel,
    {
        if pre.result_events@.len() == 0 {
            post == pre
        } else if fuel == 0 {
            false
        } else {
            exists|popped: Game, mid: Game|
                {
                    &&& popped == (Game { result_events: popped.result_events, ..pre })
                    &&& popped.result_events@ == pre.result_events@.drop_first()
                    &&& #[trigger] Game::spec_apply_result(
                        popped,
                        mid,
                        pre.result_events@[0],
                        now,
                    )
                    &&& Game::spec_drains_results(mid, post, now, (fuel - 1) as nat)
                }
        }
    }

    /// The result queue drains completely in some number of
    /// applications.
    pub open spec fn spec_results_drained(pre: Game, post: Game, now: u64) -> bool {
        exists|fuel: nat| #[trigger] Game::spec_drains_results(pre, post, now, fuel)
    }

    /// The tail of a running tick from the game drain on: the game queue
    /// drains completely, then the result queue.
    pub open spec fn spec_phase_game(pre: Game, post: Game, now: u64) -> bool {
        exists|mid: Game|
            #[trigger] Game::spec_drains_game(pre, mid, pre.game_events@)
                && Game::spec_results_drained(mid, post, now)
    }

    /// The tail of a running tick from the input drain on: the input
    /// queue drains completely, then the game and result queues.
    pub open spec fn spec_phase_input(pre: Game, post: Game, now: u64) -> bool {
        exists|mid: Game|
            #[trigger] Game::spec_drains_input(pre, mid, pre.input_events@)
                && Game::spec_phase_game(mid, post, now)
    }

    /// The tail of a running tick from the timeout drain on: the expired
    /// timeouts drain into the game queue, then the input, game and
    /// result queues drain.
    pub open spec fn spec_phase_timeouts(pre: Game, post: Game, now: u64) -> bool {
        exists|mid: Game|
            #[trigger] Game::spec_timeouts_drained(pre, mid, now) && Game::spec_phase_input(
                mid,
                post,
                now,
            )
    }

    /// What one running tick does, in strict order: the fresh input
    /// event, if any, joins the input queue; every expired timeout
    /// drains into the game queue; the input queue drains, routing each
    /// event to its owner; the game queue drains, routing each event to
    /// the entity it addresses; and the result queue drains, applying
    /// each effect against the world. Each single step is pinned by the
    /// per-event relations; the intermediate states are existential.
    pub open spec fn spec_tick_running(
        pre: Game,
        post: Game,
        input: Option<InputEvent>,
        now: u64,
    ) -> bool {
        exists|queued: Game|
            #[trigger] Game::spec_queued_input(pre, queued, input) && Game::spec_phase_timeouts(
                queued,
                post,
                now,
            )
    }

    /// One tick of the dispatch loop, at the clock reading `now`, with at
    /// most one fresh input event, in strict order: queue the input,
    /// drain the expired timeouts into the game queue, drain the input
    /// queue, drain the game queue, and drain the result queue.
    ///
    /// While paused, only the pause toggle is listened to and the whole
    /// state stays untouched otherwise: no queue advances and no timer is
    /// consumed. Once ended, nothing happens at all.
    pub fn tick(&mut self, input: Option<InputEvent>, now: u64)
        requires
            old(self).wf(),
            now <= u64::MAX - MAX_EVENT_DELAY_MILLIS,
        ensures
            final(self).wf(),
            old(self).game_mode == GameMode::Paused ==> *final(self) == if input == Some(
                InputEvent::GamePause,
            ) {
                Game { game_mode: GameMode::Running, ..*old(self) }
            } else {
                *old(self)
            },
            old(self).game_mode == GameMode::Ended ==> *final(self) == *old(self),
            old(self).game_mode == GameMode::Running ==> final(self).input_events@.len() == 0
                && final(self).result_events@.len() == 0,
            old(self).game_mode == GameMode::Running ==> Game::spec_tick_running(
                *old(self),
                *final(self),
                input,
                now,
            ),
    {
        match self.game_mode {
            GameMode::Ended => {}
            GameMode::Paused => {
                // Discard every input event different from the pause
                // toggle; on the toggle, continue the game.
                match input {
                    Some(InputEvent::GamePause) => {
                        self.game_mode = GameMode::Running;
                    }
                    _ => {}
                }
            }
            GameMode::Running => {
                // Read one input event.
                if let Some(input_event) = input {
                    self.input_events.push_back(input_event);
                }
                let ghost queued_state = *self;
                proof {
                    assert(Game::spec_queued_input(*old(self), queued_state, input));
                }

                // Hand every expired timeout to the game queue.
                loop
                    invariant
                        self.wf(),
                        forall|post2: Game|
                            #[trigger] Game::spec_timeouts_drained(*self, post2, now)
                                ==> Game::spec_timeouts_drained(queued_state, post2, now),
                    ensures
                        self.wf(),
                        Game::spec_timeouts_drained(queued_state, *self, now),
                    decreases self.time_controller@.len(),
                {
                    let ghost pre_iter = *self;
                    match self.time_controller.pop_event(now) {
                        Some(game_event) => {
                            self.game_events.push_back(game_event);
                            proof {
                                let i = choose|i: int|
                                    pops_soonest(
                                        pre_iter.time_controller@,
                                        self.time_controller@,
                                        game_event,
                                        now as int,
                                        i,
                                    );
                                pre_iter.time_controller@.remove_ensures(i);

                                // One more pop prepended to any complete
                                // drain from the new state gives a
                                // complete drain from the old one.
                                assert forall|post2: Game|
                                    #[trigger] Game::spec_timeouts_drained(*self, post2, now)
                                        implies Game::spec_timeouts_drained(
                                        pre_iter,
                                        post2,
                                        now,
                                    ) by {
                                    let f = choose|f: nat|
                                        Game::spec_drains_timeouts(*self, post2, now, f);
                                    assert(*self == (Game {
                                        game_events: self.game_events,
                                        time_controller: self.time_controller,
                                        ..pre_iter
                                    }));
                                    assert(pops_soonest(
                                        pre_iter.time_controller@,
                                        self.time_controller@,
                                        pre_iter.time_controller@[i].event,
                                        now as int,
                                        i,
                                    ));
                                    assert(self.game_events@
                                        == pre_iter.game_events@.push(
                                        pre_iter.time_controller@[i].event,
                                    ));
                                    assert(Game::spec_drains_timeouts(
                                        pre_iter,
                                        post2,
                                        now,
                                        f + 1,
                                    ));
                                };
                            }
                        }
                        None => {
                            proof {
                                // No pending deadline has passed: the
                                // drain is complete where it stands.
                                assert(Game::spec_drains_timeouts(*self, *self, now, 0));
                                assert(Game::spec_timeouts_drained(*self, *self, now));
                            }
                            break;
                        }
                    }
                }
                let ghost after_timeouts = *self;

                // Handle every input event in the queue and generate the
                // corresponding result events.
                self.drain_input_events();
                let ghost after_input = *self;

                // Handle every game event in the queue and generate the
                // corresponding result events.
                self.drain_game_events();
                let ghost after_game = *self;

                // Apply all the result events against the world.
                self.drain_result_events(now);

                proof {
                    assert(Game::spec_phase_game(after_input, *self, now));
                    assert(Game::spec_phase_input(after_timeouts, *self, now));
                    assert(Game::spec_phase_timeouts(queued_state, *self, now));
                    assert(Game::spec_tick_running(*old(self), *self, input, now));
                }
            }
        }
    }

    /// Drain the input queue completely, routing each event to its
    /// owner.
    fn drain_input_events(&mut self)
        requires
            old(self).wf(),
        ensures
            final(self).wf(),
            final(self).input_events@.len() == 0,
            final(self).game_events@ == old(self).game_events@,
            final(self).time_controller@ == old(self).time_controller@,
            final(self).game_mode == old(self).game_mode,
            final(self).updated == old(self).updated,
            final(self).pending_next_level == old(self).pending_next_level,
            final(self).level == (Level { player: final(self).level.player, ..old(self).level }),
            Game::spec_drains_input(*old(self), *final(self), old(self).input_events@),
    {
        while self.input_events.len() > 0
            invariant
                self.wf(),
                self.game_events@ == old(self).game_events@,
                self.time_controller@ == old(self).time_controller@,
                self.game_mode == old(self).game_mode,
                self.updated == old(self).updated,
                self.pending_next_level == old(self).pending_next_level,
                self.level == (Level { player: self.level.player, ..old(self).level }),
                forall|post2: Game|
                    #[trigger] Game::spec_drains_input(*self, post2, self.input_events@)
                        ==> Game::spec_drains_input(
                        *old(self),
                        post2,
                        old(self).input_events@,
                    ),
            decreases self.input_events@.len(),
        {
            let ghost pre_iter = *self;
            let input_event = self.input_events.pop_front().unwrap();
            let ghost popped_state = *self;
            self.handle_input_event(input_event);
            proof {
                // One more handled event prepended to any complete drain
                // from the new state gives a complete drain from the old
                // one.
                assert forall|post2: Game|
                    #[trigger] Game::spec_drains_input(*self, post2, self.input_events@)
                        implies Game::spec_drains_input(
                        pre_iter,
                        post2,
                        pre_iter.input_events@,
                    ) by {
                    assert(popped_state == (Game {
                        input_events: popped_state.input_events,
                        ..pre_iter
                    }));
                    assert(popped_state.input_events@ == pre_iter.input_events@.drop_first());
                    assert(Game::spec_apply_input(
                        popped_state,
                        *self,
                        pre_iter.input_events@[0],
                    ));
                    assert(self.input_events@ == pre_iter.input_events@.drop_first());
                };
            }
        }
        proof {
            assert(Game::spec_drains_input(*self, *self, self.input_events@));
        }
    }

    /// Drain the game queue completely, routing each event to the entity
    /// it addresses.
    fn drain_game_events(&mut self)
        requires
            old(self).wf(),
        ensures
            final(self).wf(),
            final(self).game_events@.len() == 0,
            final(self).input_events@ == old(self).input_events@,
            final(self).time_controller@ == old(self).time_controller@,
            final(self).game_mode == old(self).game_mode,
            final(self).updated == old(self).updated,
            final(self).pending_next_level == old(self).pending_next_level,
            Game::spec_drains_game(*old(self), *final(self), old(self).game_events@),
    {
        while self.game_events.len() > 0
            invariant
                self.wf(),
                self.input_events@ == old(self).input_events@,
                self.time_controller@ == old(self).time_controller@,
                self.game_mode == old(self).game_mode,
                self.updated == old(self).updated,
                self.pending_next_level == old(self).pending_next_level,
                forall|post2: Game|
                    #[trigger] Game::spec_drains_game(*self, post2, self.game_events@)
                        ==> Game::spec_drains_game(*old(self), post2, old(self).game_events@),
            decreases self.game_events@.len(),
        {
            let ghost pre_iter = *self;
            let game_event = self.game_events.pop_front().unwrap();
            let ghost popped_state = *self;
            self.handle_game_event(game_event);
            proof {
                // One more handled event prepended to any complete drain
                // from the new state gives a complete drain from the old
                // one.
                assert forall|post2: Game|
                    #[trigger] Game::spec_drains_game(*self, post2, self.game_events@)
                        implies Game::spec_drains_game(
                        pre_iter,
                        post2,
                        pre_iter.game_events@,
                    ) by {
                    assert(popped_state == (Game {
                        game_events: popped_state.game_events,
                        ..pre_iter
                    }));
                    assert(popped_state.game_events@ == pre_iter.game_events@.drop_first());
                    assert(Game::spec_apply_game_event(
                        popped_state,
                        *self,
                        pre_iter.game_events@[0],
                    ));
                    assert(self.game_events@ == pre_iter.game_events@.drop_first());
                };
            }
        }
        proof {
            assert(Game::spec_drains_game(*self, *self, self.game_events@));
        }
    }

    /// Drain the result queue completely, applying each effect against
    /// the world. Applying an effect may enqueue new game events or
    /// scheduler entries; those are processed on a later tick, never
    /// recursively within this drain.
    fn drain_result_events(&mut self, now: u64)
        requires
            old(self).wf(),
            now <= u64::MAX - MAX_EVENT_DELAY_MILLIS,
        ensures
            final(self).wf(),
            final(self).result_events@.len() == 0,
            final(self).input_events@ == old(self).input_events@
                || final(self).input_events@.len() == 0,
            Game::spec_results_drained(*old(self), *final(self), now),
    {
        while self.result_events.len() > 0
            invariant
                self.wf(),
                now <= u64::MAX - MAX_EVENT_DELAY_MILLIS,
                self.input_events@ == old(self).input_events@ || self.input_events@.len() == 0,
                forall|post2: Game|
                    #[trigger] Game::spec_results_drained(*self, post2, now)
                        ==> Game::spec_results_drained(*old(self), post2, now),
            decreases self.result_events@.len(),
        {
            let ghost pre_iter = *self;
            let ghost pre_results = self.result_events@;
            let result_event = self.result_events.pop_front().unwrap();
            proof {
                assert(spec_result_event_wf(result_event, self.level.maze));
                assert forall|i: int| 0 <= i < self.result_events@.len() implies
                    spec_result_event_wf(#[trigger] self.result_events@[i], self.level.maze) by {
                    assert(self.result_events@[i] == pre_results[i + 1]);
                };
            }
            let ghost popped_state = *self;
            self.handle_result_event(result_event, now);
            proof {
                // One more applied effect prepended to any complete
                // drain from the new state gives a complete drain from
                // the old one.
                assert forall|post2: Game|
                    #[trigger] Game::spec_results_drained(*self, post2, now)
                        implies Game::spec_results_drained(pre_iter, post2, now) by {
                    let f = choose|f: nat| Game::spec_drains_results(*self, post2, now, f);
                    assert(popped_state == (Game {
                        result_events: popped_state.result_events,
                        ..pre_iter
                    }));
                    assert(popped_state.result_events@ == pre_iter.result_events@.drop_first());
                    assert(Game::spec_apply_result(
                        popped_state,
                        *self,
                        pre_iter.result_events@[0],
                        now,
                    ));
                    assert(Game::spec_drains_results(pre_iter, post2, now, f + 1));
                };
            }
        }
        proof {
            assert(Game::spec_drains_results(*self, *self, now, 0));
            assert(Game::spec_results_drained(*self, *self, now));
        }
    }

    /// Install the next level, or end the game when the level loader has
    /// no further content. The new level starts with all queues and the
    /// scheduler empty but for the new level's own initialization
    /// events, so nothing of the old level can fire into the new one.
    pub fn advance_level(&mut self, content: Option<LevelContent>)
        requires
            old(self).wf(),
            content matches Some(c) ==> c.wf(),
            old(self).level.index < usize::MAX,
        ensures
            final(self).wf(),
            content is None ==> *final(self) == (Game {
                game_mode: GameMode::Ended,
                pending_next_level: false,
                ..*old(self)
            }),
            content matches Some(c) ==> {
                &&& crate::level::spec_level_from_content(
                    final(self).level,
                    c,
                    old(self).level.index + 1,
                )
                &&& final(self).game_events@ == spec_init_game_events(final(self).level)
                &&& final(self).input_events@.len() == 0
                &&& final(self).result_events@.len() == 0
                &&& final(self).time_controller@.len() == 0
                &&& final(self).pending_next_level == false
                &&& final(self).game_mode == old(self).game_mode
                &&& final(self).updated == old(self).updated
            },
    {
        match self.level.next(content) {
            Some(next_level) => {
                // Update the level to the next one.
                self.level = next_level;

                // Remove every event of the old level.
                self.clear_all_events();

                // Generate the initial game events for the new level.
                self.game_events = generate_init_game_events(&self.level);

                self.pending_next_level = false;
            }
            None => {
                // There is no further level: the game is over.
                self.game_mode = GameMode::Ended;
                self.pending_next_level = false;
            }
        }
    }

    /// Report whether anything changed since the last render, and reset
    /// the flag: the renderer calls this once per frame.
    pub fn take_updated(&mut self) -> (r: bool)
        ensures
            r == old(self).updated,
            *final(self) == (Game { updated: false, ..*old(self) }),
    {
        let r = self.updated;
        self.updated = false;
        r
    }
}

} // verus!
