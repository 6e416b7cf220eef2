//! A bomb waiting to explode. On initialization it schedules its own
//! explosion; on explosion it emits one fire per blast cell and deletes
//! itself. The blast walks up to two cells outward in each cardinal
//! direction, and an arm stops as soon as it meets a blocked cell.

use vstd::prelude::*;
use std::collections::VecDeque;
use crate::coordinates::{spec_step, Coordinates};
use crate::events::{Direction, GameEvent, ResultEvent};
use crate::fire::Fire;
use crate::maze::Maze;

verus! {

/// The first cell of a blast arm: one step from `pos` toward `d`, kept
/// only while not blocked.
pub open spec fn spec_arm1(m: Maze, pos: Coordinates, d: Direction) -> Option<Coordinates> {
    let c = spec_step(pos, d);
    if !m.spec_blocked_at(c) {
        Some(c)
    } else {
        None
    }
}

/// The cell one further step along a blast arm: the arm keeps walking
/// only while nothing blocked it so far.
pub open spec fn spec_arm_next(
    m: Maze,
    arm: Option<Coordinates>,
    d: Direction,
) -> Option<Coordinates> {
    match arm {
        Some(c) => spec_arm1(m, c, d),
        None => None,
    }
}

/// The cells an optional arm cell contributes to the blast.
pub open spec fn spec_opt_cells(o: Option<Coordinates>) -> Seq<Coordinates> {
    match o {
        Some(c) => seq![c],
        None => Seq::<Coordinates>::empty(),
    }
}

/// The cells an explosion at `pos` sets on fire, in the order they are
/// produced: the bomb cell itself, then the surviving cells one step
/// away in the four directions, then the surviving cells two steps
/// away. An arm stops at the first blocked cell, so the blast never
/// passes through a wall.
pub open spec fn spec_blast_cells(m: Maze, pos: Coordinates) -> Seq<Coordinates> {
    let u1 = spec_arm1(m, pos, Direction::Up);
    let d1 = spec_arm1(m, pos, Direction::Down);
    let l1 = spec_arm1(m, pos, Direction::Left);
    let r1 = spec_arm1(m, pos, Direction::Right);
    seq![pos] + spec_opt_cells(u1) + spec_opt_cells(d1) + spec_opt_cells(l1) + spec_opt_cells(r1)
        + spec_opt_cells(spec_arm_next(m, u1, Direction::Up)) + spec_opt_cells(
        spec_arm_next(m, d1, Direction::Down),
    ) + spec_opt_cells(spec_arm_next(m, l1, Direction::Left)) + spec_opt_cells(
        spec_arm_next(m, r1, Direction::Right),
    )
}

/// The fire-creation events of an explosion at `pos`: one fire per blast
/// cell, in blast order, each burning for the fixed bomb fire duration.
pub open spec fn spec_fire_events(m: Maze, pos: Coordinates) -> Seq<ResultEvent> {
    spec_blast_cells(m, pos).map_values(
        |c: Coordinates| ResultEvent::FireNew {
            fire: Fire { position: c, duration: BOMB_FIRE_DURATION },
        },
    )
}

/// A `Bomb` object represents a non exploded bomb.
#[derive(Clone, Copy, Debug, PartialEq, Eq, Structural)]
pub struct Bomb {
    /// The `Coordinates` where this game element is located.
    pub position: Coordinates,
}

/// Character to represent a `Bomb` object in the maze.
pub const BOMB_REPRESENTATION: char = 'o';

/// The time in milliseconds from the bomb creation to the bomb explosion.
pub const BOMB_TIME_TO_EXPLODE: u64 = 3000;

/// The duration in milliseconds of the fire created by a bomb.
pub const BOMB_FIRE_DURATION: u64 = 200;

impl Bomb {
    /// Creates a new `Bomb` object given its coordinates.
    pub fn new(x: usize, y: usize) -> (b: Bomb)
        ensures
            b.position == (Coordinates { x, y }),
    {
        let position = Coordinates { x, y };

        Bomb { position }
    }

    /// The result events this bomb emits for one incoming game event.
    ///
    /// On initialization it schedules its own explosion after the fixed
    /// fuse and reports a world change. On explosion it emits one fire
    /// per blast cell, deletes itself, and reports a world change. Any
    /// other event produces nothing.
    pub open spec fn spec_reaction(self, m: Maze, event: GameEvent) -> Seq<ResultEvent> {
        match event {
            GameEvent::BombInit { id } => seq![
                ResultEvent::GameScheduleEvent {
                    millis: BOMB_TIME_TO_EXPLODE,
                    event: GameEvent::BombExplode { id },
                },
                ResultEvent::GameUpdated,
            ],
            GameEvent::BombExplode { id } => spec_fire_events(m, self.position) + seq![
                ResultEvent::BombDelete { id },
                ResultEvent::GameUpdated,
            ],
            _ => Seq::<ResultEvent>::empty(),
        }
    }

    /// Update the `Bomb` state according to a game event and push the
    /// resulting `ResultEvent`s.
    pub fn update(&self, maze: &Maze, event: GameEvent, results: &mut VecDeque<ResultEvent>)
        requires
            maze.wf(),
            maze.spec_wall_ring(),
            maze.spec_interior(self.position),
        ensures
            final(results)@ == old(results)@ + self.spec_reaction(*maze, event),
    {
        match event {
            GameEvent::BombInit { id } => {
                // Set the bomb to explode in the future.
                results.push_back(ResultEvent::GameScheduleEvent {
                    millis: BOMB_TIME_TO_EXPLODE,
                    event: GameEvent::BombExplode { id },
                });

                // Notify that the game state has changed.
                results.push_back(ResultEvent::GameUpdated);
                proof {
                    assert(results@ =~= old(results)@ + self.spec_reaction(*maze, event));
                }
            }
            GameEvent::BombExplode { id } => {
                // Create the bomb explosion fires.
                let fire_events = self.set_fire(maze);
                let mut k: usize = 0;
                while k < fire_events.len()
                    invariant
                        0 <= k <= fire_events@.len(),
                        results@ == old(results)@ + fire_events@.take(k as int),
                    decreases fire_events@.len() - k,
                {
                    results.push_back(fire_events[k]);
                    proof {
                        assert(fire_events@.take(k as int + 1) =~= fire_events@.take(
                            k as int,
                        ).push(fire_events@[k as int]));
                    }
                    k = k + 1;
                }
                proof {
                    assert(fire_events@.take(fire_events@.len() as int) =~= fire_events@);
                }

                // Remove the bomb from the map.
                results.push_back(ResultEvent::BombDelete { id });

                // Notify that the game state has changed.
                results.push_back(ResultEvent::GameUpdated);
                proof {
                    assert(results@ =~= old(results)@ + self.spec_reaction(*maze, event));
                }
            }
            _ => {
                proof {
                    assert(results@ =~= old(results)@ + self.spec_reaction(*maze, event));
                }
            }
        }
    }

    /// Create one `FireNew` event for every blast cell of an explosion at
    /// the current position.
    fn set_fire(&self, maze: &Maze) -> (r: Vec<ResultEvent>)
        requires
            maze.wf(),
            maze.spec_wall_ring(),
            maze.spec_interior(self.position),
        ensures
            r@ == spec_fire_events(*maze, self.position),
    {
        // Get the coordinates where to create the fires.
        let fire_coordinates = self.compute_fire_coordinates(maze);

        // Convert every fire coordinate to a FireNew event.
        let mut r: Vec<ResultEvent> = Vec::new();
        let mut k: usize = 0;
        while k < fire_coordinates.len()
            invariant
                0 <= k <= fire_coordinates@.len(),
                fire_coordinates@ == spec_blast_cells(*maze, self.position),
                r@ == spec_fire_events(*maze, self.position).take(k as int),
            decreases fire_coordinates@.len() - k,
        {
            let coord = fire_coordinates[k];
            let fire = Fire::new(coord.x, coord.y, BOMB_FIRE_DURATION);
            r.push(ResultEvent::FireNew { fire });
            proof {
                let evs = spec_fire_events(*maze, self.position);
                assert(evs.take(k as int + 1) =~= evs.take(k as int).push(evs[k as int]));
            }
            k = k + 1;
        }
        proof {
            let evs = spec_fire_events(*maze, self.position);
            assert(evs.take(evs.len() as int) =~= evs);
        }
        r
    }

    /// Compute the coordinates where an explosion at the current
    /// position creates fires: the bomb cell, and up to two cells
    /// outward in each of the four directions, each arm stopping at the
    /// first blocked cell.
    fn compute_fire_coordinates(&self, maze: &Maze) -> (r: VecDeque<Coordinates>)
        requires
            maze.wf(),
            maze.spec_wall_ring(),
            maze.spec_interior(self.position),
        ensures
            r@ == spec_blast_cells(*maze, self.position),
    {
        let mut fire_coordinates: VecDeque<Coordinates> = VecDeque::new();

        // The bomb cell itself always burns.
        fire_coordinates.push_back(self.position);

        // Walk each arm one step, then one more, stopping at the first
        // blocked cell, and keep every surviving cell.
        let up1 = next_arm_cell(maze, Some(self.position), Direction::Up);
        let down1 = next_arm_cell(maze, Some(self.position), Direction::Down);
        let left1 = next_arm_cell(maze, Some(self.position), Direction::Left);
        let right1 = next_arm_cell(maze, Some(self.position), Direction::Right);
        push_if_present(&mut fire_coordinates, up1);
        push_if_present(&mut fire_coordinates, down1);
        push_if_present(&mut fire_coordinates, left1);
        push_if_present(&mut fire_coordinates, right1);

        let up2 = next_arm_cell(maze, up1, Direction::Up);
        let down2 = next_arm_cell(maze, down1, Direction::Down);
        let left2 = next_arm_cell(maze, left1, Direction::Left);
        let right2 = next_arm_cell(maze, right1, Direction::Right);
        push_if_present(&mut fire_coordinates, up2);
        push_if_present(&mut fire_coordinates, down2);
        push_if_present(&mut fire_coordinates, left2);
        push_if_present(&mut fire_coordinates, right2);

        proof {
            assert(fire_coordinates@ =~= spec_blast_cells(*maze, self.position));
        }
        fire_coordinates
    }

    /// Return the current position of the `Bomb`.
    pub fn get_position(&self) -> (r: &Coordinates)
        ensures
            *r == self.position,
    {
        &self.position
    }

    /// Return the `Bomb` representation.
    pub fn get_representation(&self) -> (c: char)
        ensures
            c == BOMB_REPRESENTATION,
    {
        BOMB_REPRESENTATION
    }
}

/// Advance one blast arm by one step: from a surviving arm cell, the next
/// cell toward `d` if it is not blocked; a stopped arm stays stopped. A
/// surviving cell is open, so inside the wall ring it is interior and the
/// next step stays on the grid.
fn next_arm_cell(maze: &Maze, arm: Option<Coordinates>, d: Direction) -> (r: Option<Coordinates>)
    requires
        maze.wf(),
        maze.spec_wall_ring(),
        arm matches Some(c) ==> maze.spec_interior(c),
    ensures
        r == spec_arm_next(*maze, arm, d),
        r matches Some(c) ==> maze.spec_interior(c) && !maze.spec_blocked_at(c),
{
    match arm {
        Some(c) => {
            let next = match d {
                Direction::Up => c.up(),
                Direction::Down => c.down(),
                Direction::Left => c.left(),
                Direction::Right => c.right(),
            };
            if !maze.is_blocked(next.x, next.y) {
                proof {
                    maze.lemma_open_is_interior(next);
                }
                Some(next)
            } else {
                None
            }
        }
        None => None,
    }
}

/// Append an arm cell to the blast cells if the arm still burns.
fn push_if_present(cells: &mut VecDeque<Coordinates>, arm: Option<Coordinates>)
    ensures
        final(cells)@ == old(cells)@ + spec_opt_cells(arm),
{
    if let Some(c) = arm {
        cells.push_back(c);
        proof {
            assert(cells@ =~= old(cells)@ + spec_opt_cells(arm));
        }
    } else {
        proof {
            assert(cells@ =~= old(cells)@ + spec_opt_cells(arm));
        }
    }
}

/// A member of the left part is a member of the concatenation.
proof fn lemma_contains_join_left(a: Seq<Coordinates>, b: Seq<Coordinates>, z: Coordinates)
    requires
        a.contains(z),
    ensures
        (a + b).contains(z),
{
    let i = choose|i: int| 0 <= i < a.len() && a[i] == z;
    assert((a + b)[i] == z);
}

/// A member of the right part is a member of the concatenation.
proof fn lemma_contains_join_right(a: Seq<Coordinates>, b: Seq<Coordinates>, z: Coordinates)
    requires
        b.contains(z),
    ensures
        (a + b).contains(z),
{
    let i = choose|i: int| 0 <= i < b.len() && b[i] == z;
    assert((a + b)[a.len() + i] == z);
}

/// A member of a concatenation is a member of one of the two parts.
proof fn lemma_contains_split(a: Seq<Coordinates>, b: Seq<Coordinates>, z: Coordinates)
    requires
        (a + b).contains(z),
    ensures
        a.contains(z) || b.contains(z),
{
    let i = choose|i: int| 0 <= i < (a + b).len() && (a + b)[i] == z;
    if i < a.len() {
        assert(a[i] == z);
    } else {
        assert(b[i - a.len()] == z);
    }
}

/// A member of the cells of an optional arm cell is that very cell.
proof fn lemma_opt_contains(o: Option<Coordinates>, z: Coordinates)
    requires
        spec_opt_cells(o).contains(z),
    ensures
        o == Some(z),
{
    match o {
        Some(c) => {
            let i = choose|i: int|
                0 <= i < spec_opt_cells(o).len() && spec_opt_cells(o)[i] == z;
            assert(spec_opt_cells(o)[0] == c);
        }
        None => {
            assert(spec_opt_cells(o).len() == 0);
        }
    }
}

/// A member of the blast of a bomb at `pos` is the bomb cell itself or a
/// cell one of the eight surviving arm steps produced.
proof fn lemma_blast_member_cases(m: Maze, pos: Coordinates, z: Coordinates)
    requires
        spec_blast_cells(m, pos).contains(z),
    ensures
        z == pos || spec_arm1(m, pos, Direction::Up) == Some(z) || spec_arm1(
            m,
            pos,
            Direction::Down,
        ) == Some(z) || spec_arm1(m, pos, Direction::Left) == Some(z) || spec_arm1(
            m,
            pos,
            Direction::Right,
        ) == Some(z) || spec_arm_next(m, spec_arm1(m, pos, Direction::Up), Direction::Up) == Some(
            z,
        ) || spec_arm_next(m, spec_arm1(m, pos, Direction::Down), Direction::Down) == Some(z)
            || spec_arm_next(m, spec_arm1(m, pos, Direction::Left), Direction::Left) == Some(z)
            || spec_arm_next(m, spec_arm1(m, pos, Direction::Right), Direction::Right) == Some(z),
{
    let u1 = spec_arm1(m, pos, Direction::Up);
    let d1 = spec_arm1(m, pos, Direction::Down);
    let l1 = spec_arm1(m, pos, Direction::Left);
    let r1 = spec_arm1(m, pos, Direction::Right);
    let a1 = spec_opt_cells(u1);
    let a2 = spec_opt_cells(d1);
    let a3 = spec_opt_cells(l1);
    let a4 = spec_opt_cells(r1);
    let a5 = spec_opt_cells(spec_arm_next(m, u1, Direction::Up));
    let a6 = spec_opt_cells(spec_arm_next(m, d1, Direction::Down));
    let a7 = spec_opt_cells(spec_arm_next(m, l1, Direction::Left));
    let a8 = spec_opt_cells(spec_arm_next(m, r1, Direction::Right));
    let s0 = seq![pos];
    assert(spec_blast_cells(m, pos) == s0 + a1 + a2 + a3 + a4 + a5 + a6 + a7 + a8);

    // Peel components off the right end one at a time.
    lemma_contains_split(s0 + a1 + a2 + a3 + a4 + a5 + a6 + a7, a8, z);
    if (s0 + a1 + a2 + a3 + a4 + a5 + a6 + a7).contains(z) {
        lemma_contains_split(s0 + a1 + a2 + a3 + a4 + a5 + a6, a7, z);
        if (s0 + a1 + a2 + a3 + a4 + a5 + a6).contains(z) {
            lemma_contains_split(s0 + a1 + a2 + a3 + a4 + a5, a6, z);
            if (s0 + a1 + a2 + a3 + a4 + a5).contains(z) {
                lemma_contains_split(s0 + a1 + a2 + a3 + a4, a5, z);
                if (s0 + a1 + a2 + a3 + a4).contains(z) {
                    lemma_contains_split(s0 + a1 + a2 + a3, a4, z);
                    if (s0 + a1 + a2 + a3).contains(z) {
                        lemma_contains_split(s0 + a1 + a2, a3, z);
                        if (s0 + a1 + a2).contains(z) {
                            lemma_contains_split(s0 + a1, a2, z);
                            if (s0 + a1).contains(z) {
                                lemma_contains_split(s0, a1, z);
                                if s0.contains(z) {
                                    let i = choose|i: int|
                                        0 <= i < s0.len() && s0[i] == z;
                                    assert(z == pos);
                                } else {
                                    lemma_opt_contains(u1, z);
                                }
                            } else {
                                lemma_opt_contains(d1, z);
                            }
                        } else {
                            lemma_opt_contains(l1, z);
                        }
                    } else {
                        lemma_opt_contains(r1, z);
                    }
                } else {
                    lemma_opt_contains(spec_arm_next(m, u1, Direction::Up), z);
                }
            } else {
                lemma_opt_contains(spec_arm_next(m, d1, Direction::Down), z);
            }
        } else {
            lemma_opt_contains(spec_arm_next(m, l1, Direction::Left), z);
        }
    } else {
        lemma_opt_contains(spec_arm_next(m, r1, Direction::Right), z);
    }
}

/// Every blast cell of a bomb strictly inside the wall ring lies
/// strictly inside the wall ring itself: the bomb cell is interior, and
/// every surviving arm cell is open, which inside a ring means interior.
pub proof fn lemma_blast_cells_interior(m: Maze, pos: Coordinates)
    requires
        m.wf(),
        m.spec_wall_ring(),
        m.spec_interior(pos),
    ensures
        forall|i: int|
            0 <= i < spec_blast_cells(m, pos).len() ==> m.spec_interior(
                #[trigger] spec_blast_cells(m, pos)[i],
            ),
{
    let cells = spec_blast_cells(m, pos);
    assert forall|i: int| 0 <= i < cells.len() implies m.spec_interior(cells[i]) by {
        assert(cells.contains(cells[i]));
        lemma_blast_member_cases(m, pos, cells[i]);
        match spec_arm1(m, pos, Direction::Up) {
            Some(c) => m.lemma_open_is_interior(c),
            None => (),
        }
        match spec_arm1(m, pos, Direction::Down) {
            Some(c) => m.lemma_open_is_interior(c),
            None => (),
        }
        match spec_arm1(m, pos, Direction::Left) {
            Some(c) => m.lemma_open_is_interior(c),
            None => (),
        }
        match spec_arm1(m, pos, Direction::Right) {
            Some(c) => m.lemma_open_is_interior(c),
            None => (),
        }
        if cells[i] != pos && !m.spec_blocked_at(cells[i]) && m.spec_in_bounds(
            cells[i].x as int,
            cells[i].y as int,
        ) {
            m.lemma_open_is_interior(cells[i]);
        }
    };
}

/// Whether `z` is a cell one or two steps from `pos` toward some
/// direction with every cell up to `z` on that arm open: exactly the
/// cells, besides the bomb cell itself, that an explosion at `pos` sets
/// on fire.
pub open spec fn spec_burning_arm_cell(m: Maze, pos: Coordinates, z: Coordinates) -> bool {
    exists|d: Direction|
        #![trigger spec_step(pos, d)]
        (z == spec_step(pos, d) && !m.spec_blocked_at(spec_step(pos, d))) || (z == spec_step(
            spec_step(pos, d),
            d,
        ) && !m.spec_blocked_at(spec_step(pos, d)) && !m.spec_blocked_at(
            spec_step(spec_step(pos, d), d),
        ))
}

/// A cell one or two steps from `pos` toward `d`, with every cell up to
/// it on that arm open, is in the blast of a bomb at `pos`.
proof fn lemma_arm_cell_in_blast(m: Maze, pos: Coordinates, z: Coordinates, d: Direction)
    requires
        m.wf(),
        m.spec_wall_ring(),
        m.spec_interior(pos),
        (z == spec_step(pos, d) && !m.spec_blocked_at(spec_step(pos, d))) || (z == spec_step(
            spec_step(pos, d),
            d,
        ) && !m.spec_blocked_at(spec_step(pos, d)) && !m.spec_blocked_at(
            spec_step(spec_step(pos, d), d),
        )),
    ensures
        spec_blast_cells(m, pos).contains(z),
{
    let u1 = spec_arm1(m, pos, Direction::Up);
    let d1 = spec_arm1(m, pos, Direction::Down);
    let l1 = spec_arm1(m, pos, Direction::Left);
    let r1 = spec_arm1(m, pos, Direction::Right);
    let a1 = spec_opt_cells(u1);
    let a2 = spec_opt_cells(d1);
    let a3 = spec_opt_cells(l1);
    let a4 = spec_opt_cells(r1);
    let a5 = spec_opt_cells(spec_arm_next(m, u1, Direction::Up));
    let a6 = spec_opt_cells(spec_arm_next(m, d1, Direction::Down));
    let a7 = spec_opt_cells(spec_arm_next(m, l1, Direction::Left));
    let a8 = spec_opt_cells(spec_arm_next(m, r1, Direction::Right));
    let s0 = seq![pos];
    let p1 = s0 + a1;
    let p2 = p1 + a2;
    let p3 = p2 + a3;
    let p4 = p3 + a4;
    let p5 = p4 + a5;
    let p6 = p5 + a6;
    let p7 = p6 + a7;
    let p8 = p7 + a8;
    assert(spec_blast_cells(m, pos) == p8);

    // `z` is the sole cell of one of the eight arm components; join it
    // into the concatenation from its component's place.
    if z == spec_step(pos, d) && !m.spec_blocked_at(spec_step(pos, d)) {
        match d {
            Direction::Up => {
                assert(a1[0] == z);
                lemma_contains_join_right(s0, a1, z);
                lemma_contains_join_left(p1, a2, z);
                lemma_contains_join_left(p2, a3, z);
                lemma_contains_join_left(p3, a4, z);
            }
            Direction::Down => {
                assert(a2[0] == z);
                lemma_contains_join_right(p1, a2, z);
                lemma_contains_join_left(p2, a3, z);
                lemma_contains_join_left(p3, a4, z);
            }
            Direction::Left => {
                assert(a3[0] == z);
                lemma_contains_join_right(p2, a3, z);
                lemma_contains_join_left(p3, a4, z);
            }
            Direction::Right => {
                assert(a4[0] == z);
                lemma_contains_join_right(p3, a4, z);
            }
        }
        lemma_contains_join_left(p4, a5, z);
        lemma_contains_join_left(p5, a6, z);
        lemma_contains_join_left(p6, a7, z);
        lemma_contains_join_left(p7, a8, z);
    } else {
        match d {
            Direction::Up => {
                assert(a5[0] == z);
                lemma_contains_join_right(p4, a5, z);
                lemma_contains_join_left(p5, a6, z);
                lemma_contains_join_left(p6, a7, z);
                lemma_contains_join_left(p7, a8, z);
            }
            Direction::Down => {
                assert(a6[0] == z);
                lemma_contains_join_right(p5, a6, z);
                lemma_contains_join_left(p6, a7, z);
                lemma_contains_join_left(p7, a8, z);
            }
            Direction::Left => {
                assert(a7[0] == z);
                lemma_contains_join_right(p6, a7, z);
                lemma_contains_join_left(p7, a8, z);
            }
            Direction::Right => {
                assert(a8[0] == z);
                lemma_contains_join_right(p7, a8, z);
            }
        }
    }
}

/// Full characterization of the blast of a bomb at `pos`: the bomb's own
/// cell always burns and comes first; a cell one or two steps away in a
/// cardinal direction burns exactly when every cell up to it on that arm
/// is open — an arm stops at the first blocked cell, which is never
/// included, nor is any cell beyond it; and no other cell burns.
pub proof fn lemma_blast_cells_characterization(m: Maze, pos: Coordinates, z: Coordinates)
    requires
        m.wf(),
        m.spec_wall_ring(),
        m.spec_interior(pos),
    ensures
        spec_blast_cells(m, pos).len() >= 1,
        spec_blast_cells(m, pos)[0] == pos,
        spec_blast_cells(m, pos).contains(z) <==> (z == pos || spec_burning_arm_cell(m, pos, z)),
{
    let cells = spec_blast_cells(m, pos);
    assert(cells[0] == pos);
    assert(cells.contains(cells[0]));

    if cells.contains(z) {
        lemma_blast_member_cases(m, pos, z);
        // Seed every direction, so the right witness for the arm cell
        // is in sight.
        assert(spec_step(pos, Direction::Up) == spec_step(pos, Direction::Up));
        assert(spec_step(pos, Direction::Down) == spec_step(pos, Direction::Down));
        assert(spec_step(pos, Direction::Left) == spec_step(pos, Direction::Left));
        assert(spec_step(pos, Direction::Right) == spec_step(pos, Direction::Right));
        assert(z == pos || spec_burning_arm_cell(m, pos, z));
    }
    if z == pos {
        assert(cells.contains(z));
    }
    if spec_burning_arm_cell(m, pos, z) {
        let d = choose|d: Direction|
            #![trigger spec_step(pos, d)]
            (z == spec_step(pos, d) && !m.spec_blocked_at(spec_step(pos, d))) || (z == spec_step(
                spec_step(pos, d),
                d,
            ) && !m.spec_blocked_at(spec_step(pos, d)) && !m.spec_blocked_at(
                spec_step(spec_step(pos, d), d),
            ));
        lemma_arm_cell_in_blast(m, pos, z, d);
    }
}

/// Whether `z` lies on the blast arm of a bomb at `pos` toward `d`: one
/// or two cells away from `pos` in that direction. Stated over
/// mathematical coordinates, so cells cut off at the grid edge are
/// covered too.
pub open spec fn spec_on_arm(pos: Coordinates, d: Direction, z: Coordinates) -> bool {
    match d {
        Direction::Up => z.x == pos.x && (z.y + 1 == pos.y || z.y + 2 == pos.y),
        Direction::Down => z.x == pos.x && (z.y == pos.y + 1 || z.y == pos.y + 2),
        Direction::Left => z.y == pos.y && (z.x + 1 == pos.x || z.x + 2 == pos.x),
        Direction::Right => z.y == pos.y && (z.x == pos.x + 1 || z.x == pos.x + 2),
    }
}

/// Blast containment law: a wall directly beside a bomb shuts that whole
/// arm off. With a blocked cell one step toward `d`, the blast holds no
/// cell on the arm toward `d`, neither one step nor two steps away; in
/// particular the blocked cell itself is never on fire.
pub proof fn lemma_blast_containment(m: Maze, pos: Coordinates, d: Direction)
    requires
        m.wf(),
        m.spec_wall_ring(),
        m.spec_interior(pos),
        m.spec_blocked_at(spec_step(pos, d)),
    ensures
        forall|z: Coordinates|
            #[trigger] spec_blast_cells(m, pos).contains(z) ==> !spec_on_arm(pos, d, z),
{
    assert(spec_arm1(m, pos, d) is None);

    // The blocked arm produced nothing; the bomb cell is off the arm;
    // the surviving first steps of the other arms move along a different
    // axis or in the opposite direction; and the surviving second steps
    // start from an open, hence interior, first cell, so none of their
    // coordinates can land on the arm toward `d` either.
    assert forall|z: Coordinates|
        #[trigger] spec_blast_cells(m, pos).contains(z) implies !spec_on_arm(pos, d, z) by {
        lemma_blast_member_cases(m, pos, z);
        match spec_arm1(m, pos, Direction::Up) {
            Some(c) => m.lemma_open_is_interior(c),
            None => (),
        }
        match spec_arm1(m, pos, Direction::Down) {
            Some(c) => m.lemma_open_is_interior(c),
            None => (),
        }
        match spec_arm1(m, pos, Direction::Left) {
            Some(c) => m.lemma_open_is_interior(c),
            None => (),
        }
        match spec_arm1(m, pos, Direction::Right) {
            Some(c) => m.lemma_open_is_interior(c),
            None => (),
        }
    };
}

} // verus!
