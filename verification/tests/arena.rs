//! Tests for the arena: first-fit insertion and stable id reuse.

use redoxbombs::bomb::Bomb;
use redoxbombs::utils::InsertAtEmpty;

#[test]
fn arena_reuses_the_tombstoned_id() {
    // Five entities; delete id 2; the next insertion takes id 2 again.
    let mut arena: Vec<Option<u32>> = Vec::new();
    for v in 0..5u32 {
        let id = arena.insert_at_empty(v * 10);
        assert_eq!(id, v as usize);
    }
    arena[2] = None;

    let id = arena.insert_at_empty(99);
    assert_eq!(id, 2);
    assert_eq!(arena[2], Some(99));
    assert_eq!(arena.len(), 5);
}

#[test]
fn arena_takes_the_lowest_free_id() {
    let mut arena: Vec<Option<u32>> = vec![Some(0), None, Some(2), None];
    assert_eq!(arena.insert_at_empty(11), 1);
    assert_eq!(arena.insert_at_empty(33), 3);
    // All slots occupied: append.
    assert_eq!(arena.insert_at_empty(44), 4);
    assert_eq!(arena, vec![Some(0), Some(11), Some(2), Some(33), Some(44)]);
}

#[test]
fn arena_never_renumbers_survivors() {
    let mut arena: Vec<Option<Bomb>> = Vec::new();
    arena.insert_at_empty(Bomb::new(1, 1));
    arena.insert_at_empty(Bomb::new(2, 2));
    arena.insert_at_empty(Bomb::new(3, 3));
    arena[0] = None;
    arena.insert_at_empty(Bomb::new(9, 9));

    // The survivors kept their ids.
    assert_eq!(arena[1], Some(Bomb::new(2, 2)));
    assert_eq!(arena[2], Some(Bomb::new(3, 3)));
    assert_eq!(arena[0], Some(Bomb::new(9, 9)));
}
