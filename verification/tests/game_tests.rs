//! Tests for the dispatch loop: pause gating, death and quit, level
//! transition isolation, and silently dropped stale events.

use redoxbombs::coordinates::Coordinates;
use redoxbombs::enemy::Enemy;
use redoxbombs::events::{Direction, GameEvent, InputEvent, ResultEvent};
use redoxbombs::game::{Game, GameMode};
use redoxbombs::level::{Level, LevelContent};
use redoxbombs::maze::{Maze, Tile};
use redoxbombs::player::Player;
use redoxbombs::stairs::Stairs;

/// A maze whose border is permanent wall and whose inside is open,
/// except where `extra` puts another tile.
fn maze_with(width: usize, height: usize, extra: &[(usize, usize, Tile)]) -> Maze {
    let mut tiles = Vec::new();
    for y in 0..height {
        for x in 0..width {
            let border = x == 0 || y == 0 || x == width - 1 || y == height - 1;
            let mut tile = if border { Tile::Wall } else { Tile::Empty };
            for &(ex, ey, et) in extra {
                if ex == x && ey == y {
                    tile = et;
                }
            }
            tiles.push(tile);
        }
    }
    Maze::new(tiles, width, height)
}

fn simple_content(player_pos: (usize, usize), enemies: Vec<Enemy>) -> LevelContent {
    LevelContent {
        maze: maze_with(9, 9, &[]),
        player: Player::new(player_pos.0, player_pos.1),
        stairs: Stairs::new(7, 7),
        enemies,
        bombs: Vec::new(),
    }
}

fn simple_game(player_pos: (usize, usize), enemies: Vec<Enemy>) -> Game {
    let level = Level::new(simple_content(player_pos, enemies));
    assert!(level.valid());
    Game::new(level)
}

#[test]
fn pause_gates_every_input_but_the_toggle() {
    let mut game = simple_game((4, 4), Vec::new());

    // The pause key pauses the game within the tick that reads it.
    game.tick(Some(InputEvent::GamePause), 0);
    assert_eq!(game.game_mode, GameMode::Paused);

    // While paused, a movement key changes nothing at all.
    let pos_before = *game.level.player.get_position();
    let game_events_before = game.game_events.len();
    game.tick(Some(InputEvent::PlayerMove(Direction::Up)), 50);
    assert_eq!(game.game_mode, GameMode::Paused);
    assert_eq!(*game.level.player.get_position(), pos_before);
    assert_eq!(game.game_events.len(), game_events_before);

    // While paused, even the quit key is discarded.
    game.tick(Some(InputEvent::GameQuit), 75);
    assert_eq!(game.game_mode, GameMode::Paused);

    // The pause key again resumes the game, and movement works anew.
    game.tick(Some(InputEvent::GamePause), 100);
    assert_eq!(game.game_mode, GameMode::Running);
    game.tick(Some(InputEvent::PlayerMove(Direction::Up)), 150);
    assert_eq!(*game.level.player.get_position(), Coordinates { x: 4, y: 3 });
}

#[test]
fn enemy_contact_ends_the_game() {
    // Player and an enemy occupy the same cell: applying the enemy's
    // collision check reports the player dead, and draining the result
    // queue ends the game.
    let mut game = simple_game((4, 4), vec![Enemy::new(4, 4)]);

    game.game_events.push_back(GameEvent::EnemyCheckCollision { id: 0 });
    game.tick(None, 0);
    assert_eq!(game.game_mode, GameMode::Ended);

    // Once ended, nothing moves anymore.
    game.tick(Some(InputEvent::PlayerMove(Direction::Up)), 50);
    assert_eq!(*game.level.player.get_position(), Coordinates { x: 4, y: 4 });
    assert_eq!(game.game_mode, GameMode::Ended);
}

#[test]
fn quit_ends_the_game() {
    let mut game = simple_game((4, 4), Vec::new());
    game.tick(Some(InputEvent::GameQuit), 0);
    assert_eq!(game.game_mode, GameMode::Ended);
}

#[test]
fn level_transition_clears_the_scheduler() {
    // Give the scheduler a far-away timeout belonging to this level,
    // then walk the player onto the stairs: the transition request must
    // clear the scheduler before the next level is installed, so no
    // stale timeout can fire into the new level's ids.
    let content = LevelContent {
        maze: maze_with(9, 9, &[]),
        player: Player::new(6, 7),
        stairs: Stairs::new(7, 7),
        enemies: vec![Enemy::new(1, 1)],
        bombs: Vec::new(),
    };
    let level = Level::new(content);
    assert!(level.valid());
    let mut game = Game::new(level);

    // Initialize the entities: the enemy schedules its next move.
    game.tick(None, 0);

    // Step onto the stairs; the stairs' collision check asks for the
    // next level on the following tick.
    game.tick(Some(InputEvent::PlayerMove(Direction::Right)), 10);
    game.tick(None, 20);
    assert!(game.pending_next_level);

    // All queues and the scheduler were cleared with the request.
    assert_eq!(game.input_events.len(), 0);
    assert_eq!(game.game_events.len(), 0);
    assert_eq!(game.result_events.len(), 0);
    assert_eq!(game.time_controller.pop_event(u64::MAX / 2), None);

    // Install the next level: popping the scheduler yields no event
    // referencing the old level, however far the clock advances.
    let next = simple_content((2, 2), Vec::new());
    game.advance_level(Some(next));
    assert_eq!(game.level.get_index(), 1);
    assert!(!game.pending_next_level);
    assert_eq!(game.time_controller.pop_event(u64::MAX / 2), None);
    assert_eq!(game.game_mode, GameMode::Running);
}

#[test]
fn running_out_of_levels_ends_the_game() {
    let mut game = simple_game((4, 4), Vec::new());
    game.advance_level(None);
    assert_eq!(game.game_mode, GameMode::Ended);
}

#[test]
fn events_for_tombstoned_slots_are_dropped_silently() {
    let mut game = simple_game((4, 4), vec![Enemy::new(2, 2)]);

    // Delete the enemy, then let events addressed to its id, and to ids
    // far outside every arena, arrive: they are dropped, nothing
    // crashes, nothing changes.
    game.handle_result_event(ResultEvent::EnemyDelete { id: 0 }, 0);
    assert!(game.level.enemies[0].is_none());

    game.game_events.push_back(GameEvent::EnemyMove { id: 0 });
    game.game_events.push_back(GameEvent::EnemyCheckCollision { id: 99 });
    game.game_events.push_back(GameEvent::BombExplode { id: 12 });
    game.game_events.push_back(GameEvent::FirePutOut { id: 7 });
    game.tick(None, 0);
    assert_eq!(game.game_mode, GameMode::Running);
    assert!(game.level.enemies[0].is_none());
}

#[test]
fn the_no_op_effect_changes_nothing() {
    let mut game = simple_game((4, 4), vec![Enemy::new(2, 2)]);
    let events_before = game.game_events.len();

    game.handle_result_event(ResultEvent::DoNothing, 0);
    assert_eq!(game.game_mode, GameMode::Running);
    assert_eq!(*game.level.player.get_position(), Coordinates { x: 4, y: 4 });
    assert_eq!(game.game_events.len(), events_before);
    assert_eq!(game.result_events.len(), 0);
    assert!(!game.pending_next_level);
}

#[test]
fn breaking_a_wall_through_the_effect_table() {
    let content = LevelContent {
        maze: maze_with(9, 9, &[(5, 5, Tile::BreakableWall)]),
        player: Player::new(4, 4),
        stairs: Stairs::new(7, 7),
        enemies: Vec::new(),
        bombs: Vec::new(),
    };
    let level = Level::new(content);
    assert!(level.valid());
    let mut game = Game::new(level);

    assert!(game.level.maze.is_blocked(5, 5));
    game.handle_result_event(ResultEvent::MazeBreak { x: 5, y: 5 }, 0);
    assert!(!game.level.maze.is_blocked(5, 5));
}

#[test]
fn render_flag_reports_changes_once() {
    let mut game = simple_game((4, 4), Vec::new());
    assert!(!game.take_updated());

    game.tick(Some(InputEvent::PlayerMove(Direction::Left)), 0);
    assert!(game.take_updated());
    assert!(!game.take_updated());
}
