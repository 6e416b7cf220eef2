//! Tests for levels: building from content, arena insertion through the
//! level, index sequencing, and the validity check.

use redoxbombs::bomb::Bomb;
use redoxbombs::enemy::Enemy;
use redoxbombs::fire::Fire;
use redoxbombs::level::{Level, LevelContent};
use redoxbombs::maze::{Maze, Tile};
use redoxbombs::player::Player;
use redoxbombs::stairs::Stairs;

/// A maze whose border is permanent wall and whose inside is open,
/// except where `extra` puts another tile.
fn maze_with(width: usize, height: usize, extra: &[(usize, usize, Tile)]) -> Maze {
    let mut tiles = Vec::new();
    for y in 0..height {
        for x in 0..width {
            let border = x == 0 || y == 0 || x == width - 1 || y == height - 1;
            let mut tile = if border { Tile::Wall } else { Tile::Empty };
            for &(ex, ey, et) in extra {
                if ex == x && ey == y {
                    tile = et;
                }
            }
            tiles.push(tile);
        }
    }
    Maze::new(tiles, width, height)
}

fn content() -> LevelContent {
    LevelContent {
        maze: maze_with(9, 9, &[]),
        player: Player::new(1, 1),
        stairs: Stairs::new(7, 7),
        enemies: vec![Enemy::new(3, 3), Enemy::new(5, 5)],
        bombs: vec![Bomb::new(2, 2)],
    }
}

#[test]
fn level_holds_its_content() {
    let level = Level::new(content());
    assert_eq!(level.get_index(), 0);
    assert_eq!(level.enemies, vec![Some(Enemy::new(3, 3)), Some(Enemy::new(5, 5))]);
    assert_eq!(level.bombs, vec![Some(Bomb::new(2, 2))]);
    assert!(level.fires.is_empty());
    assert!(level.valid());
}

#[test]
fn next_level_advances_the_index() {
    let level = Level::new(content());
    let next = level.next(Some(content())).unwrap();
    assert_eq!(next.get_index(), 1);
    let after = next.next(Some(content())).unwrap();
    assert_eq!(after.get_index(), 2);

    // The loader found nothing: there is no next level.
    assert!(after.next(None).is_none());
}

#[test]
fn level_arenas_insert_first_fit() {
    let mut level = Level::new(content());

    // The bomb arena holds one bomb at id 0: the next lands at id 1.
    assert_eq!(level.add_bomb(Bomb::new(3, 1)), 1);

    // Tombstone id 0; the next insertion reuses it.
    level.bombs[0] = None;
    assert_eq!(level.add_bomb(Bomb::new(4, 1)), 0);
    assert_eq!(level.bombs[0], Some(Bomb::new(4, 1)));
    assert_eq!(level.bombs[1], Some(Bomb::new(3, 1)));

    // The fire arena starts empty.
    assert_eq!(level.add_fire(Fire::new(5, 1, 200)), 0);
    assert_eq!(level.add_fire(Fire::new(5, 2, 200)), 1);
    level.fires[0] = None;
    assert_eq!(level.add_fire(Fire::new(5, 3, 200)), 0);
}

#[test]
fn validity_rejects_misplaced_entities() {
    // An enemy standing on a wall makes the level invalid.
    let bad = LevelContent {
        maze: maze_with(9, 9, &[(3, 3, Tile::Wall)]),
        player: Player::new(1, 1),
        stairs: Stairs::new(7, 7),
        enemies: vec![Enemy::new(3, 3)],
        bombs: Vec::new(),
    };
    assert!(!bad.valid());
    assert!(!Level::new(bad).valid());

    // A player on the border ring makes the level invalid.
    let bad = LevelContent {
        maze: maze_with(9, 9, &[]),
        player: Player::new(0, 1),
        stairs: Stairs::new(7, 7),
        enemies: Vec::new(),
        bombs: Vec::new(),
    };
    assert!(!bad.valid());

    // A maze without a full wall ring makes the level invalid.
    let bad = LevelContent {
        maze: maze_with(9, 9, &[(4, 0, Tile::Empty)]),
        player: Player::new(1, 1),
        stairs: Stairs::new(7, 7),
        enemies: Vec::new(),
        bombs: Vec::new(),
    };
    assert!(!bad.valid());
}
