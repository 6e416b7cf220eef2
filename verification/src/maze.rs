//! The maze: a fixed-size, row-major grid of tiles. A tile is open, a
//! permanent wall, or a breakable wall; blocked tiles cannot be entered,
//! and a breakable wall can later be turned open by an explosion.

use vstd::prelude::*;
use crate::coordinates::Coordinates;

verus! {

/// One cell of the maze.
#[derive(Clone, Copy, Debug, PartialEq, Eq, Structural)]
pub enum Tile {
    /// The position is not blocked and game elements can go through.
    Empty,

    /// The position is blocked, and stays blocked forever.
    Wall,

    /// The position is blocked, but becomes `Empty` when an explosion
    /// breaks it.
    BreakableWall,
}

/// A `Maze` is a set of tiles which represent the map state.
pub struct Maze {
    /// The state of the different tiles composing the maze, row-major.
    tiles: Vec<Tile>,

    /// The width of the `Maze` in tiles.
    width: usize,

    /// The height of the `Maze` in tiles.
    height: usize,
}

impl Maze {
    /// The width of the maze in tiles.
    pub closed spec fn spec_width(self) -> int {
        self.width as int
    }

    /// The height of the maze in tiles.
    pub closed spec fn spec_height(self) -> int {
        self.height as int
    }

    /// The tiles of the maze, row-major.
    pub closed spec fn spec_tiles(self) -> Seq<Tile> {
        self.tiles@
    }

    /// A well-formed maze has positive dimensions and one tile per cell.
    pub open spec fn wf(self) -> bool {
        &&& 3 <= self.spec_width() <= usize::MAX
        &&& 3 <= self.spec_height() <= usize::MAX
        &&& self.spec_tiles().len() == self.spec_width() * self.spec_height()
        &&& self.spec_tiles().len() <= usize::MAX
    }

    /// The tile at position `x`, `y`.
    pub open spec fn spec_tile_at(self, x: int, y: int) -> Tile {
        self.spec_tiles()[x + self.spec_width() * y]
    }

    /// Whether the position `x`, `y` is inside the grid.
    pub open spec fn spec_in_bounds(self, x: int, y: int) -> bool {
        0 <= x < self.spec_width() && 0 <= y < self.spec_height()
    }

    /// Whether the position `x`, `y` cannot be entered.
    pub open spec fn spec_blocked(self, x: int, y: int) -> bool {
        self.spec_tile_at(x, y) != Tile::Empty
    }

    /// Whether the cell at `c` cannot be entered.
    pub open spec fn spec_blocked_at(self, c: Coordinates) -> bool {
        self.spec_blocked(c.x as int, c.y as int)
    }

    /// Whether the position `x`, `y` lies on the outer border of the grid.
    pub open spec fn spec_on_border(self, x: int, y: int) -> bool {
        x == 0 || y == 0 || x == self.spec_width() - 1 || y == self.spec_height() - 1
    }

    /// Whether the whole outer border is made of permanent walls. The game
    /// keeps every entity strictly inside such a ring, so one-cell moves
    /// never leave the grid.
    pub open spec fn spec_wall_ring(self) -> bool {
        forall|x: int, y: int|
            self.spec_in_bounds(x, y) && self.spec_on_border(x, y)
                ==> #[trigger] self.spec_tile_at(x, y) == Tile::Wall
    }

    /// Whether the cell at `c` lies strictly inside the outer border.
    pub open spec fn spec_interior(self, c: Coordinates) -> bool {
        1 <= c.x < self.spec_width() - 1 && 1 <= c.y < self.spec_height() - 1
    }

    /// Inside a wall ring, a cell that can be entered is never on the
    /// border, so it is strictly interior.
    pub proof fn lemma_open_is_interior(self, c: Coordinates)
        requires
            self.wf(),
            self.spec_wall_ring(),
            self.spec_in_bounds(c.x as int, c.y as int),
            !self.spec_blocked_at(c),
        ensures
            self.spec_interior(c),
    {
        if self.spec_on_border(c.x as int, c.y as int) {
            assert(self.spec_tile_at(c.x as int, c.y as int) == Tile::Wall);
        }
    }

    /// Create a `Maze` from its row-major tiles and its dimensions.
    pub fn new(tiles: Vec<Tile>, width: usize, height: usize) -> (m: Maze)
        requires
            width >= 3,
            height >= 3,
            tiles@.len() == width * height,
        ensures
            m.wf(),
            m.spec_width() == width,
            m.spec_height() == height,
            m.spec_tiles() == tiles@,
    {
        proof {
            assert(tiles.len() <= usize::MAX);
        }
        Maze { tiles, width, height }
    }

    /// Check executably that the maze is well formed.
    pub fn wf_check(&self) -> (b: bool)
        ensures
            b == self.wf(),
    {
        proof {
            assert(self.tiles.len() <= usize::MAX);
            assert(self.spec_tiles().len() == self.tiles.len());
            lemma_grid_product_fits(self.width as int, self.height as int);
        }
        self.width >= 3 && self.height >= 3 && (self.width as u128) * (self.height as u128)
            == (self.tiles.len() as u128)
    }

    /// Check executably whether the cell at `c` lies strictly inside the
    /// outer border.
    pub fn is_interior(&self, c: &Coordinates) -> (b: bool)
        requires
            self.wf(),
        ensures
            b == self.spec_interior(*c),
    {
        1 <= c.x && c.x < self.width - 1 && 1 <= c.y && c.y < self.height - 1
    }

    /// Check executably whether the whole outer border is made of
    /// permanent walls.
    pub fn has_wall_ring(&self) -> (b: bool)
        requires
            self.wf(),
        ensures
            b == self.spec_wall_ring(),
    {
        let mut y: usize = 0;
        while y < self.height
            invariant
                self.wf(),
                0 <= y <= self.spec_height(),
                forall|x2: int, y2: int|
                    #![trigger self.spec_tile_at(x2, y2)]
                    self.spec_in_bounds(x2, y2) && self.spec_on_border(x2, y2) && y2 < y
                        ==> self.spec_tile_at(x2, y2) == Tile::Wall,
            decreases self.spec_height() - y,
        {
            let mut x: usize = 0;
            while x < self.width
                invariant
                    self.wf(),
                    0 <= y < self.spec_height(),
                    0 <= x <= self.spec_width(),
                    forall|x2: int, y2: int|
                        #![trigger self.spec_tile_at(x2, y2)]
                        self.spec_in_bounds(x2, y2) && self.spec_on_border(x2, y2) && y2 < y
                            ==> self.spec_tile_at(x2, y2) == Tile::Wall,
                    forall|x2: int|
                        #![trigger self.spec_tile_at(x2, y as int)]
                        0 <= x2 < x && self.spec_on_border(x2, y as int)
                            ==> self.spec_tile_at(x2, y as int) == Tile::Wall,
                decreases self.spec_width() - x,
            {
                let on_border = x == 0 || y == 0 || x == self.width - 1 || y == self.height - 1;
                if on_border {
                    let t = self.get_tile(x, y);
                    if !matches!(t, Tile::Wall) {
                        return false;
                    }
                }
                x = x + 1;
            }
            y = y + 1;
        }
        true
    }

    /// The width of the maze in tiles.
    pub fn get_width(&self) -> (w: usize)
        ensures
            w == self.spec_width(),
    {
        self.width
    }

    /// The height of the maze in tiles.
    pub fn get_height(&self) -> (h: usize)
        ensures
            h == self.spec_height(),
    {
        self.height
    }

    /// Return the `Tile` at position `x` and `y`.
    fn get_tile(&self, x: usize, y: usize) -> (t: Tile)
        requires
            self.wf(),
            self.spec_in_bounds(x as int, y as int),
        ensures
            t == self.spec_tile_at(x as int, y as int),
    {
        proof {
            self.lemma_tile_index_in_range(x as int, y as int);
        }
        self.tiles[x + self.width * y]
    }

    /// Check if a certain position of the maze is blocked.
    ///
    /// x: The horizontal coordinate in the maze.
    /// y: The vertical coordinate in the maze.
    pub fn is_blocked(&self, x: usize, y: usize) -> (b: bool)
        requires
            self.wf(),
            self.spec_in_bounds(x as int, y as int),
        ensures
            b == self.spec_blocked(x as int, y as int),
    {
        let tile = self.get_tile(x, y);

        match tile {
            Tile::Empty => false,
            Tile::Wall | Tile::BreakableWall => true,
        }
    }

    /// Check if a certain position of the maze is a blocked breakable
    /// `Tile`.
    pub fn is_blocked_breakable(&self, x: usize, y: usize) -> (b: bool)
        requires
            self.wf(),
            self.spec_in_bounds(x as int, y as int),
        ensures
            b == (self.spec_tile_at(x as int, y as int) == Tile::BreakableWall),
    {
        let tile = self.get_tile(x, y);

        match tile {
            Tile::BreakableWall => true,
            Tile::Empty | Tile::Wall => false,
        }
    }

    /// Check if a certain position of the maze is a blocked unbreakable
    /// `Tile`.
    pub fn is_blocked_unbreakable(&self, x: usize, y: usize) -> (b: bool)
        requires
            self.wf(),
            self.spec_in_bounds(x as int, y as int),
        ensures
            b == (self.spec_tile_at(x as int, y as int) == Tile::Wall),
    {
        let tile = self.get_tile(x, y);

        match tile {
            Tile::Wall => true,
            Tile::Empty | Tile::BreakableWall => false,
        }
    }

    /// What breaking the tile at `x`, `y` does to the maze: a breakable
    /// wall there turns open and nothing else changes; any other
    /// position, out-of-bounds ones included, leaves the maze untouched.
    /// Either way the dimensions stay, a wall ring stays a wall ring,
    /// and no open cell becomes blocked.
    pub open spec fn spec_broken(pre: Maze, post: Maze, x: int, y: int) -> bool {
        &&& post.spec_width() == pre.spec_width()
        &&& post.spec_height() == pre.spec_height()
        &&& (pre.spec_in_bounds(x, y) && pre.spec_tile_at(x, y) == Tile::BreakableWall)
            ==> post.spec_tiles() == pre.spec_tiles().update(x + pre.spec_width() * y, Tile::Empty)
        &&& !(pre.spec_in_bounds(x, y) && pre.spec_tile_at(x, y) == Tile::BreakableWall)
            ==> post.spec_tiles() == pre.spec_tiles()
        &&& post.spec_wall_ring() == pre.spec_wall_ring()
        &&& forall|cx: int, cy: int|
            #![trigger post.spec_blocked(cx, cy)]
            pre.spec_in_bounds(cx, cy) && !pre.spec_blocked(cx, cy) ==> !post.spec_blocked(cx, cy)
    }

    /// Turn the tile at position `x`, `y` open if it is a breakable wall.
    /// Any other position, out-of-bounds ones included, is left untouched.
    pub fn break_tile(&mut self, x: usize, y: usize)
        requires
            old(self).wf(),
        ensures
            final(self).wf(),
            Maze::spec_broken(*old(self), *final(self), x as int, y as int),
    {
        if x < self.width && y < self.height {
            proof {
                self.lemma_tile_index_in_range(x as int, y as int);
            }
            let idx: usize = x + self.width * y;
            if matches!(self.tiles[idx], Tile::BreakableWall) {
                self.tiles.set(idx, Tile::Empty);
                proof {
                    lemma_break_keeps_ring(*old(self), *self, x as int, y as int);
                    assert forall|cx: int, cy: int|
                        old(self).spec_in_bounds(cx, cy) && !old(self).spec_blocked(cx, cy)
                            implies !self.spec_blocked(cx, cy) by {
                        lemma_row_major_index(
                            old(self).spec_width(),
                            old(self).spec_height(),
                            cx,
                            cy,
                        );
                    };
                }
            }
        }
    }

    /// A cell strictly inside the row-major grid has its index strictly
    /// inside the tile vector.
    pub proof fn lemma_tile_index_in_range(self, x: int, y: int)
        requires
            self.wf(),
            self.spec_in_bounds(x, y),
        ensures
            0 <= x + self.spec_width() * y < self.spec_tiles().len(),
            x + self.spec_width() * y <= usize::MAX,
    {
        lemma_row_major_index(self.spec_width(), self.spec_height(), x, y);
        assert(self.tiles.len() <= usize::MAX);
        assert(self.spec_tiles().len() == self.tiles.len());
    }
}

impl Maze {
    /// The sum of the two dimensions fits a machine word, because their
    /// product does; it bounds every Manhattan distance inside the grid.
    pub proof fn lemma_dims_fit(self)
        requires
            self.wf(),
        ensures
            self.spec_width() + self.spec_height() <= usize::MAX,
    {
        lemma_sum_le_product(self.spec_width(), self.spec_height());
    }
}

/// The product of two machine-word dimensions fits a double word.
proof fn lemma_grid_product_fits(w: int, h: int) by (nonlinear_arith)
    requires
        0 <= w <= u64::MAX,
        0 <= h <= u64::MAX,
    ensures
        w * h <= u128::MAX,
{
}

/// For dimensions of at least three, the sum is bounded by the product.
proof fn lemma_sum_le_product(w: int, h: int) by (nonlinear_arith)
    requires
        w >= 3,
        h >= 3,
    ensures
        w + h <= w * h,
{
}

/// In a `w` by `h` row-major grid, the flat index of an in-bounds cell is
/// in range.
proof fn lemma_row_major_index(w: int, h: int, x: int, y: int) by (nonlinear_arith)
    requires
        w >= 1,
        h >= 1,
        0 <= x < w,
        0 <= y < h,
    ensures
        0 <= x + w * y < w * h,
{
}

/// Two distinct cells of a row-major grid have distinct flat indices.
proof fn lemma_row_major_injective(w: int, h: int, x1: int, y1: int, x2: int, y2: int) by (nonlinear_arith)
    requires
        w >= 1,
        h >= 1,
        0 <= x1 < w,
        0 <= y1 < h,
        0 <= x2 < w,
        0 <= y2 < h,
        x1 + w * y1 == x2 + w * y2,
    ensures
        x1 == x2 && y1 == y2,
{
}

/// Breaking one breakable tile cannot change whether the border is a ring
/// of permanent walls.
proof fn lemma_break_keeps_ring(before: Maze, after: Maze, x: int, y: int)
    requires
        before.wf(),
        after.wf(),
        after.spec_width() == before.spec_width(),
        after.spec_height() == before.spec_height(),
        before.spec_in_bounds(x, y),
        before.spec_tile_at(x, y) == Tile::BreakableWall,
        after.spec_tiles() == before.spec_tiles().update(
            x + before.spec_width() * y,
            Tile::Empty,
        ),
    ensures
        after.spec_wall_ring() == before.spec_wall_ring(),
{
    let w = before.spec_width();
    let h = before.spec_height();
    lemma_row_major_index(w, h, x, y);
    // Either way round, a ring forces the broken cell off the border: its
    // tile is BreakableWall before and Empty after, never Wall. Off the
    // border, every border tile keeps its value.
    if before.spec_wall_ring() {
        assert(!before.spec_on_border(x, y));
        assert forall|x2: int, y2: int|
            after.spec_in_bounds(x2, y2) && after.spec_on_border(x2, y2)
                implies #[trigger] after.spec_tile_at(x2, y2) == Tile::Wall by {
            lemma_row_major_index(w, h, x2, y2);
            if x2 + w * y2 == x + w * y {
                lemma_row_major_injective(w, h, x, y, x2, y2);
            }
            assert(before.spec_tile_at(x2, y2) == Tile::Wall);
        };
        assert(after.spec_wall_ring());
    }
    if after.spec_wall_ring() {
        assert(after.spec_tile_at(x, y) == Tile::Empty);
        assert(!after.spec_on_border(x, y));
        assert forall|x2: int, y2: int|
            before.spec_in_bounds(x2, y2) && before.spec_on_border(x2, y2)
                implies #[trigger] before.spec_tile_at(x2, y2) == Tile::Wall by {
            lemma_row_major_index(w, h, x2, y2);
            if x2 + w * y2 == x + w * y {
                lemma_row_major_injective(w, h, x, y, x2, y2);
            }
            assert(after.spec_tile_at(x2, y2) == Tile::Wall);
        };
        assert(before.spec_wall_ring());
    }
}

} // verus!
