//! Tests for the coordinate geometry helpers.

use redoxbombs::coordinates::{abs_sub, Coordinates};

#[test]
fn abs_sub_both_ways() {
    assert_eq!(abs_sub(7, 3), 4);
    assert_eq!(abs_sub(3, 7), 4);
    assert_eq!(abs_sub(5, 5), 0);
}

#[test]
fn manhattan_distance_exact() {
    let a = Coordinates { x: 1, y: 2 };
    let b = Coordinates { x: 4, y: 6 };
    assert_eq!(a.manhattan_distance(&b), 7);
    assert_eq!(b.manhattan_distance(&a), 7);
    assert_eq!(a.manhattan_distance(&a), 0);
}

#[test]
fn neighbour_cells() {
    let c = Coordinates { x: 3, y: 5 };
    assert_eq!(c.up(), Coordinates { x: 3, y: 4 });
    assert_eq!(c.down(), Coordinates { x: 3, y: 6 });
    assert_eq!(c.left(), Coordinates { x: 2, y: 5 });
    assert_eq!(c.right(), Coordinates { x: 4, y: 5 });
}

#[test]
fn stepping_toward_a_target() {
    let c = Coordinates { x: 3, y: 5 };
    let target = Coordinates { x: 7, y: 2 };
    assert_eq!(c.target_to(&target), Coordinates { x: 4, y: 4 });
    assert_eq!(c.target_x_to(&target), Coordinates { x: 4, y: 5 });
    assert_eq!(c.target_y_to(&target), Coordinates { x: 3, y: 4 });
    assert_eq!(c.target_to(&c), c);
}

#[test]
fn next_to_moves_one_step() {
    assert_eq!(Coordinates::next_to(5, 9), 6);
    assert_eq!(Coordinates::next_to(9, 5), 8);
    assert_eq!(Coordinates::next_to(4, 4), 4);
}
