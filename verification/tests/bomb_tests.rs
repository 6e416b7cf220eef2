//! Tests for bombs: the fuse through the scheduler, and the shape of the
//! blast with and without walls in the way.

use redoxbombs::coordinates::Coordinates;
use redoxbombs::events::{GameEvent, InputEvent, ResultEvent};
use redoxbombs::game::{Game, GameMode};
use redoxbombs::bomb::Bomb;
use redoxbombs::level::{Level, LevelContent};
use redoxbombs::maze::{Maze, Tile};
use redoxbombs::player::Player;
use redoxbombs::stairs::Stairs;

/// A maze whose border is permanent wall and whose inside is open,
/// except where `extra` puts another tile.
fn maze_with(width: usize, height: usize, extra: &[(usize, usize, Tile)]) -> Maze {
    let mut tiles = Vec::new();
    for y in 0..height {
        for x in 0..width {
            let border = x == 0 || y == 0 || x == width - 1 || y == height - 1;
            let mut tile = if border { Tile::Wall } else { Tile::Empty };
            for &(ex, ey, et) in extra {
                if ex == x && ey == y {
                    tile = et;
                }
            }
            tiles.push(tile);
        }
    }
    Maze::new(tiles, width, height)
}

/// A game on a single-bomb level: the bomb at (3, 3), the player and
/// stairs out of the way.
fn game_with_bomb(extra: &[(usize, usize, Tile)]) -> Game {
    let content = LevelContent {
        maze: maze_with(9, 9, extra),
        player: Player::new(7, 7),
        stairs: Stairs::new(7, 6),
        enemies: Vec::new(),
        bombs: vec![Bomb::new(3, 3)],
    };
    let level = Level::new(content);
    assert!(level.valid());
    Game::new(level)
}

/// The positions of the live fires of a game.
fn fire_cells(game: &Game) -> Vec<Coordinates> {
    let mut cells = Vec::new();
    for slot in &game.level.fires {
        if let Some(fire) = slot {
            cells.push(*fire.get_position());
        }
    }
    cells
}

#[test]
fn bomb_explodes_once_its_fuse_has_passed() {
    let mut game = game_with_bomb(&[]);

    // The first tick initializes the bomb: the explosion is scheduled
    // 3000 ms ahead, nothing burns yet.
    game.tick(None, 0);
    assert_eq!(fire_cells(&game).len(), 0);
    assert!(game.level.bombs[0].is_some());

    // Just before the fuse has passed: still nothing.
    game.tick(None, 2999);
    assert_eq!(fire_cells(&game).len(), 0);

    // Once the clock has advanced past the fuse, the explosion event is
    // popped and applied: exactly 9 fire cells, the bomb cell and two
    // cells outward in each of the four directions, and the bomb is
    // gone.
    game.tick(None, 3000);
    let cells = fire_cells(&game);
    assert_eq!(cells.len(), 9);
    for expected in [
        (3, 3),
        (3, 2),
        (3, 1),
        (3, 4),
        (3, 5),
        (2, 3),
        (1, 3),
        (4, 3),
        (5, 3),
    ] {
        let c = Coordinates { x: expected.0, y: expected.1 };
        assert!(cells.contains(&c), "missing fire cell {:?}", c);
    }
    assert!(game.level.bombs[0].is_none());
}

#[test]
fn blast_stops_at_a_wall() {
    // An unbreakable wall one cell north of the bomb: the north arm
    // produces nothing — no fire at (3, 2) and none behind it at (3, 1).
    let mut game = game_with_bomb(&[(3, 2, Tile::Wall)]);

    game.tick(None, 0);
    game.tick(None, 3000);

    let cells = fire_cells(&game);
    assert_eq!(cells.len(), 7);
    assert!(!cells.contains(&Coordinates { x: 3, y: 2 }));
    assert!(!cells.contains(&Coordinates { x: 3, y: 1 }));
    for expected in [(3, 3), (3, 4), (3, 5), (2, 3), (1, 3), (4, 3), (5, 3)] {
        let c = Coordinates { x: expected.0, y: expected.1 };
        assert!(cells.contains(&c), "missing fire cell {:?}", c);
    }
}

#[test]
fn blast_arm_stops_behind_a_blocking_cell() {
    // A wall two cells north: the arm keeps its first cell but not the
    // second.
    let mut game = game_with_bomb(&[(3, 1, Tile::BreakableWall)]);

    game.tick(None, 0);
    game.tick(None, 3000);

    let cells = fire_cells(&game);
    assert_eq!(cells.len(), 8);
    assert!(cells.contains(&Coordinates { x: 3, y: 2 }));
    assert!(!cells.contains(&Coordinates { x: 3, y: 1 }));
}

#[test]
fn fires_burn_out_after_their_duration() {
    let mut game = game_with_bomb(&[]);
    game.tick(None, 0);
    game.tick(None, 3000);
    assert_eq!(fire_cells(&game).len(), 9);

    // The next tick initializes the fires, scheduling their extinction
    // 200 ms ahead; once that delay has passed they are all deleted.
    game.tick(None, 3001);
    game.tick(None, 3202);
    game.tick(None, 3203);
    assert_eq!(fire_cells(&game).len(), 0);
}

#[test]
fn player_placed_bomb_explodes_where_it_was_dropped() {
    let content = LevelContent {
        maze: maze_with(9, 9, &[]),
        player: Player::new(4, 4),
        stairs: Stairs::new(7, 6),
        enemies: Vec::new(),
        bombs: Vec::new(),
    };
    let level = Level::new(content);
    assert!(level.valid());
    let mut game = Game::new(level);

    game.tick(Some(InputEvent::PlayerCreateBomb), 0);
    assert_eq!(game.level.bombs.len(), 1);
    assert_eq!(game.level.bombs[0], Some(Bomb::new(4, 4)));

    // The bomb's own initialization runs on the next tick and starts the
    // fuse from that tick's clock reading.
    game.tick(None, 1);
    game.tick(None, 3000);
    assert!(game.level.bombs[0].is_some());
    game.tick(None, 3001);
    assert!(game.level.bombs[0].is_none());
    assert!(fire_cells(&game).contains(&Coordinates { x: 4, y: 4 }));
    assert_eq!(game.game_mode, GameMode::Running);
}
