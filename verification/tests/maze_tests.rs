//! Tests for the maze: blocking queries, tile kinds, and wall breaking.

use redoxbombs::maze::{Maze, Tile};

/// A maze whose border is permanent wall and whose inside is open,
/// except where `extra` puts another tile.
fn maze_with(width: usize, height: usize, extra: &[(usize, usize, Tile)]) -> Maze {
    let mut tiles = Vec::new();
    for y in 0..height {
        for x in 0..width {
            let border = x == 0 || y == 0 || x == width - 1 || y == height - 1;
            let mut tile = if border { Tile::Wall } else { Tile::Empty };
            for &(ex, ey, et) in extra {
                if ex == x && ey == y {
                    tile = et;
                }
            }
            tiles.push(tile);
        }
    }
    Maze::new(tiles, width, height)
}

#[test]
fn blocking_by_tile_kind() {
    let m = maze_with(5, 4, &[(2, 1, Tile::BreakableWall)]);

    assert!(m.is_blocked(0, 0));
    assert!(m.is_blocked(4, 3));
    assert!(!m.is_blocked(1, 1));
    assert!(m.is_blocked(2, 1));

    assert!(m.is_blocked_breakable(2, 1));
    assert!(!m.is_blocked_breakable(0, 0));
    assert!(!m.is_blocked_breakable(1, 1));

    assert!(m.is_blocked_unbreakable(0, 0));
    assert!(!m.is_blocked_unbreakable(2, 1));
    assert!(!m.is_blocked_unbreakable(1, 1));
}

#[test]
fn break_tile_opens_only_breakable_walls() {
    let mut m = maze_with(5, 5, &[(2, 2, Tile::BreakableWall)]);

    // Breaking a breakable wall opens it.
    m.break_tile(2, 2);
    assert!(!m.is_blocked(2, 2));

    // Breaking a permanent wall changes nothing.
    m.break_tile(0, 0);
    assert!(m.is_blocked_unbreakable(0, 0));

    // Breaking an open cell changes nothing.
    m.break_tile(1, 1);
    assert!(!m.is_blocked(1, 1));

    // Breaking out of bounds is silently ignored.
    m.break_tile(100, 100);
}

#[test]
fn maze_dimensions() {
    let m = maze_with(7, 3, &[]);
    assert_eq!(m.get_width(), 7);
    assert_eq!(m.get_height(), 3);
}
