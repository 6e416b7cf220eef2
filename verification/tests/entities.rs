//! Tests for the per-entity reaction functions: player movement and
//! bombs, enemy pursuit, fire collisions, and the stairs.

use std::collections::VecDeque;
use redoxbombs::coordinates::Coordinates;
use redoxbombs::enemy::{Enemy, ENEMY_MOVEMENT_DELAY};
use redoxbombs::events::{Direction, GameEvent, InputEvent, ResultEvent};
use redoxbombs::fire::Fire;
use redoxbombs::maze::{Maze, Tile};
use redoxbombs::player::{Player, PLAYER_INITIAL_MAX_BOMBS};
use redoxbombs::stairs::Stairs;

/// A maze whose border is permanent wall and whose inside is open,
/// except where `extra` puts another tile.
fn maze_with(width: usize, height: usize, extra: &[(usize, usize, Tile)]) -> Maze {
    let mut tiles = Vec::new();
    for y in 0..height {
        for x in 0..width {
            let border = x == 0 || y == 0 || x == width - 1 || y == height - 1;
            let mut tile = if border { Tile::Wall } else { Tile::Empty };
            for &(ex, ey, et) in extra {
                if ex == x && ey == y {
                    tile = et;
                }
            }
            tiles.push(tile);
        }
    }
    Maze::new(tiles, width, height)
}

#[test]
fn player_moves_through_open_tiles_only() {
    let maze = maze_with(5, 5, &[(2, 1, Tile::Wall)]);
    let mut player = Player::new(2, 2);
    let mut results = VecDeque::new();

    // Up is blocked by the wall at (2, 1): no move, still a world update.
    player.update_from_input_event(&maze, InputEvent::PlayerMove(Direction::Up), &mut results);
    assert_eq!(*player.get_position(), Coordinates { x: 2, y: 2 });
    assert_eq!(results.pop_front(), Some(ResultEvent::GameUpdated));

    // Left is open.
    player.update_from_input_event(&maze, InputEvent::PlayerMove(Direction::Left), &mut results);
    assert_eq!(*player.get_position(), Coordinates { x: 1, y: 2 });
}

#[test]
fn player_spends_and_recovers_bombs() {
    let maze = maze_with(5, 5, &[]);
    let mut player = Player::new(2, 2);
    let mut results = VecDeque::new();

    player.update_from_input_event(&maze, InputEvent::PlayerCreateBomb, &mut results);
    assert!(matches!(results.pop_front(), Some(ResultEvent::BombNew { .. })));
    assert!(matches!(
        results.pop_front(),
        Some(ResultEvent::GameScheduleEvent { event: GameEvent::PlayerRecoverBomb, .. })
    ));
    assert!(results.is_empty());

    // Spend the rest of the allowance; the next attempt produces nothing.
    for _ in 1..PLAYER_INITIAL_MAX_BOMBS {
        player.update_from_input_event(&maze, InputEvent::PlayerCreateBomb, &mut results);
    }
    results.clear();
    player.update_from_input_event(&maze, InputEvent::PlayerCreateBomb, &mut results);
    assert!(results.is_empty());

    // One recovery gives one bomb back.
    player.update(GameEvent::PlayerRecoverBomb);
    player.update_from_input_event(&maze, InputEvent::PlayerCreateBomb, &mut results);
    assert!(matches!(results.pop_front(), Some(ResultEvent::BombNew { .. })));
}

#[test]
fn player_recovery_is_capped_at_the_maximum() {
    let mut player = Player::new(2, 2);
    player.update(GameEvent::PlayerRecoverBomb);
    player.update(GameEvent::PlayerRecoverBomb);
    // Still at the maximum: the whole allowance and nothing more.
    let maze = maze_with(5, 5, &[]);
    let mut results = VecDeque::new();
    for _ in 0..PLAYER_INITIAL_MAX_BOMBS {
        player.update_from_input_event(&maze, InputEvent::PlayerCreateBomb, &mut results);
        assert!(matches!(results.pop_front(), Some(ResultEvent::BombNew { .. })));
        results.clear();
    }
    player.update_from_input_event(&maze, InputEvent::PlayerCreateBomb, &mut results);
    assert!(results.is_empty());
}

#[test]
fn enemy_steps_toward_the_player() {
    // Maze entirely open inside the ring, enemy at (5, 5), player at
    // (5, 2): the unique closest candidate is (5, 4).
    let maze = maze_with(11, 11, &[]);
    let player = Player::new(5, 2);
    let mut enemy = Enemy::new(5, 5);
    let mut results = VecDeque::new();

    enemy.update(&player, &maze, GameEvent::EnemyMove { id: 0 }, &mut results);
    assert_eq!(*enemy.get_position(), Coordinates { x: 5, y: 4 });
    assert_eq!(
        results.pop_front(),
        Some(ResultEvent::GameScheduleEvent {
            millis: ENEMY_MOVEMENT_DELAY,
            event: GameEvent::EnemyMove { id: 0 },
        })
    );
    assert_eq!(results.pop_front(), Some(ResultEvent::GameUpdated));
}

#[test]
fn enemy_never_steps_onto_a_blocked_cell() {
    // The enemy's cell is the only open interior cell around it: every
    // neighbour is blocked, so it must stay put — on an open cell.
    let maze = maze_with(
        5,
        5,
        &[
            (2, 1, Tile::Wall),
            (1, 2, Tile::BreakableWall),
            (3, 2, Tile::Wall),
            (2, 3, Tile::BreakableWall),
        ],
    );
    let player = Player::new(1, 1);
    let mut enemy = Enemy::new(2, 2);
    let mut results = VecDeque::new();

    for _ in 0..10 {
        enemy.update(&player, &maze, GameEvent::EnemyMove { id: 0 }, &mut results);
        let p = *enemy.get_position();
        assert!(!maze.is_blocked(p.x, p.y));
        assert_eq!(p, Coordinates { x: 2, y: 2 });
    }
}

#[test]
fn enemy_collision_reports_the_player_dead() {
    let maze = maze_with(5, 5, &[]);
    let player = Player::new(2, 2);
    let mut enemy = Enemy::new(2, 2);
    let mut results = VecDeque::new();

    enemy.update(&player, &maze, GameEvent::EnemyCheckCollision { id: 3 }, &mut results);
    assert_eq!(results.pop_front(), Some(ResultEvent::PlayerDied));
    assert!(results.is_empty());

    // Without contact, the check re-enqueues itself.
    let mut enemy = Enemy::new(3, 3);
    enemy.update(&player, &maze, GameEvent::EnemyCheckCollision { id: 3 }, &mut results);
    assert_eq!(
        results.pop_front(),
        Some(ResultEvent::GameSetEvent { event: GameEvent::EnemyCheckCollision { id: 3 } })
    );
}

#[test]
fn fire_burns_the_player() {
    let player = Player::new(2, 2);
    let enemies: Vec<Option<Enemy>> = Vec::new();
    let fire = Fire::new(2, 2, 200);
    let mut results = VecDeque::new();

    fire.update(&player, &enemies, GameEvent::FireCheckCollision { id: 0 }, &mut results);
    assert_eq!(results.pop_front(), Some(ResultEvent::PlayerDied));
    assert_eq!(
        results.pop_front(),
        Some(ResultEvent::GameSetEvent { event: GameEvent::FireCheckCollision { id: 0 } })
    );
    assert!(results.is_empty());
}

#[test]
fn fire_burns_the_player_and_the_enemies_together() {
    // The player and two enemies all stand on the fire's cell: the check
    // reports the player dead, deletes both enemies, and re-enqueues
    // itself — none of the three actions excludes another.
    let player = Player::new(2, 2);
    let enemies = vec![Some(Enemy::new(2, 2)), Some(Enemy::new(3, 3)), Some(Enemy::new(2, 2))];
    let fire = Fire::new(2, 2, 200);
    let mut results = VecDeque::new();

    fire.update(&player, &enemies, GameEvent::FireCheckCollision { id: 0 }, &mut results);
    assert_eq!(results.pop_front(), Some(ResultEvent::PlayerDied));
    assert_eq!(results.pop_front(), Some(ResultEvent::EnemyDelete { id: 0 }));
    assert_eq!(results.pop_front(), Some(ResultEvent::EnemyDelete { id: 2 }));
    assert_eq!(
        results.pop_front(),
        Some(ResultEvent::GameSetEvent { event: GameEvent::FireCheckCollision { id: 0 } })
    );
    assert!(results.is_empty());
}

#[test]
fn fire_burns_every_enemy_on_its_cell() {
    let player = Player::new(1, 1);
    let enemies = vec![
        Some(Enemy::new(2, 2)),
        Some(Enemy::new(3, 3)),
        None,
        Some(Enemy::new(2, 2)),
    ];
    let fire = Fire::new(2, 2, 200);
    let mut results = VecDeque::new();

    fire.update(&player, &enemies, GameEvent::FireCheckCollision { id: 0 }, &mut results);
    assert_eq!(results.pop_front(), Some(ResultEvent::EnemyDelete { id: 0 }));
    assert_eq!(results.pop_front(), Some(ResultEvent::EnemyDelete { id: 3 }));
    assert_eq!(
        results.pop_front(),
        Some(ResultEvent::GameSetEvent { event: GameEvent::FireCheckCollision { id: 0 } })
    );
    assert!(results.is_empty());
}

#[test]
fn fire_schedules_its_own_extinction() {
    let player = Player::new(1, 1);
    let enemies: Vec<Option<Enemy>> = Vec::new();
    let fire = Fire::new(2, 2, 250);
    let mut results = VecDeque::new();

    fire.update(&player, &enemies, GameEvent::FireInit { id: 4 }, &mut results);
    assert_eq!(
        results.pop_front(),
        Some(ResultEvent::GameScheduleEvent {
            millis: 250,
            event: GameEvent::FirePutOut { id: 4 },
        })
    );
    assert_eq!(
        results.pop_front(),
        Some(ResultEvent::GameSetEvent { event: GameEvent::FireCheckCollision { id: 4 } })
    );
    assert_eq!(results.pop_front(), Some(ResultEvent::GameUpdated));

    fire.update(&player, &enemies, GameEvent::FirePutOut { id: 4 }, &mut results);
    assert_eq!(results.pop_front(), Some(ResultEvent::FireDelete { id: 4 }));
    assert_eq!(results.pop_front(), Some(ResultEvent::GameUpdated));
}

#[test]
fn stairs_ask_for_the_next_level_on_contact() {
    let player = Player::new(4, 4);
    let mut stairs = Stairs::new(4, 4);
    let mut results = VecDeque::new();

    stairs.update(&player, GameEvent::StairsCheckCollision, &mut results);
    assert_eq!(results.pop_front(), Some(ResultEvent::NextLevel));

    // Without contact, the check re-enqueues itself.
    let mut stairs = Stairs::new(5, 5);
    stairs.update(&player, GameEvent::StairsCheckCollision, &mut results);
    assert_eq!(
        results.pop_front(),
        Some(ResultEvent::GameSetEvent { event: GameEvent::StairsCheckCollision })
    );
}

#[test]
fn entity_representations() {
    assert_eq!(Player::new(1, 1).get_representation(), '@');
    assert_eq!(Enemy::new(1, 1).get_representation(), 'E');
    assert_eq!(Stairs::new(1, 1).get_representation(), '%');
    assert_eq!(Fire::new(1, 1, 200).get_representation(), '*');
    assert_eq!(redoxbombs::bomb::Bomb::new(1, 1).get_representation(), 'o');
}
