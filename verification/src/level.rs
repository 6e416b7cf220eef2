//! A level: the maze, the player, the stairs, and the arenas of enemies,
//! bombs and fires. The player and the stairs live exactly as long as the
//! level; enemies, bombs and fires live in id-indexed, tombstonable
//! arenas with first-fit id reuse.
//!
//! What a level initially contains comes from outside as a
//! `LevelContent`; reading and parsing level descriptions is the level
//! loader's concern, not this crate's.

use vstd::prelude::*;
use crate::bomb::Bomb;
use crate::enemy::Enemy;
use crate::fire::Fire;
use crate::maze::Maze;
use crate::player::Player;
use crate::stairs::Stairs;
use crate::time::MAX_EVENT_DELAY_MILLIS;
use crate::utils::{spec_first_fit, InsertAtEmpty};

verus! {

/// What a freshly loaded level contains: the maze and the initial entity
/// set. The level loader produces one per level index.
pub struct LevelContent {
    /// The maze of the level.
    pub maze: Maze,

    /// The player, at its starting position.
    pub player: Player,

    /// The stairs to the next level.
    pub stairs: Stairs,

    /// The initial enemies.
    pub enemies: Vec<Enemy>,

    /// The bombs already placed when the level starts.
    pub bombs: Vec<Bomb>,
}

impl LevelContent {
    /// A well-formed content: the maze is well formed and ringed by
    /// permanent walls, every entity stands strictly inside the ring,
    /// enemies stand on open tiles, and every delay the level can feed
    /// the scheduler stays within the game's delay bound.
    pub open spec fn wf(self) -> bool {
        &&& self.maze.wf()
        &&& self.maze.spec_wall_ring()
        &&& self.maze.spec_interior(self.player.position)
        &&& self.player.bomb_recovery_millis <= MAX_EVENT_DELAY_MILLIS
        &&& self.maze.spec_interior(self.stairs.position)
        &&& forall|i: int|
            0 <= i < self.enemies@.len() ==> self.maze.spec_interior(
                (#[trigger] self.enemies@[i]).position,
            ) && !self.maze.spec_blocked_at(self.enemies@[i].position)
        &&& forall|i: int|
            0 <= i < self.bombs@.len() ==> self.maze.spec_interior(
                (#[trigger] self.bombs@[i]).position,
            )
    }

    /// Check executably that this content is well formed, so that an
    /// unverified caller can test it before building a level on it.
    pub fn valid(&self) -> (b: bool)
        ensures
            b == self.wf(),
    {
        if !(self.maze.wf_check() && self.maze.has_wall_ring()) {
            return false;
        }
        if !(self.maze.is_interior(&self.player.position)
            && self.player.bomb_recovery_millis <= MAX_EVENT_DELAY_MILLIS
            && self.maze.is_interior(&self.stairs.position)) {
            return false;
        }
        let mut k: usize = 0;
        while k < self.enemies.len()
            invariant
                self.maze.wf(),
                0 <= k <= self.enemies@.len(),
                forall|i: int|
                    0 <= i < k ==> self.maze.spec_interior(
                        (#[trigger] self.enemies@[i]).position,
                    ) && !self.maze.spec_blocked_at(self.enemies@[i].position),
            decreases self.enemies@.len() - k,
        {
            let p = self.enemies[k].position;
            if !self.maze.is_interior(&p) {
                return false;
            }
            if self.maze.is_blocked(p.x, p.y) {
                return false;
            }
            k = k + 1;
        }
        let mut k: usize = 0;
        while k < self.bombs.len()
            invariant
                self.maze.wf(),
                0 <= k <= self.bombs@.len(),
                forall|i: int|
                    0 <= i < k ==> self.maze.spec_interior((#[trigger] self.bombs@[i]).position),
            decreases self.bombs@.len() - k,
        {
            if !self.maze.is_interior(&self.bombs[k].position) {
                return false;
            }
            k = k + 1;
        }
        true
    }
}

/// A `Level` stores the maze of a level and the game elements living in
/// it.
pub struct Level {
    /// The sequence number of the current level.
    pub index: usize,

    /// The `Maze` used during this level.
    pub maze: Maze,

    /// The element representing the `Player` during this level.
    pub player: Player,

    /// The arena of enemies during this level.
    pub enemies: Vec<Option<Enemy>>,

    /// The stairs to go to the next level.
    pub stairs: Stairs,

    /// The arena of bombs in the maze.
    pub bombs: Vec<Option<Bomb>>,

    /// The arena of fires in the maze.
    pub fires: Vec<Option<Fire>>,
}

/// Whether `level` holds exactly the entities of `content`, all alive,
/// no fires, and the given sequence number.
pub open spec fn spec_level_from_content(level: Level, content: LevelContent, index: int) -> bool {
    &&& level.index == index
    &&& level.maze == content.maze
    &&& level.player == content.player
    &&& level.stairs == content.stairs
    &&& level.enemies@.len() == content.enemies@.len()
    &&& forall|i: int|
        0 <= i < content.enemies@.len() ==> #[trigger] level.enemies@[i] == Some(
            content.enemies@[i],
        )
    &&& level.bombs@.len() == content.bombs@.len()
    &&& forall|i: int|
        0 <= i < content.bombs@.len() ==> #[trigger] level.bombs@[i] == Some(content.bombs@[i])
    &&& level.fires@ == Seq::<Option<Fire>>::empty()
}

impl Level {
    /// A well-formed level: the maze is well formed and ringed by
    /// permanent walls, every live entity stands strictly inside the
    /// ring, live enemies stand on open tiles, and every delay the level
    /// can feed the scheduler stays within the game's delay bound.
    pub open spec fn wf(self) -> bool {
        &&& self.maze.wf()
        &&& self.maze.spec_wall_ring()
        &&& self.maze.spec_interior(self.player.position)
        &&& self.player.bomb_recovery_millis <= MAX_EVENT_DELAY_MILLIS
        &&& self.maze.spec_interior(self.stairs.position)
        &&& forall|i: int|
            0 <= i < self.enemies@.len() ==> ((#[trigger] self.enemies@[i]) matches Some(e)
                ==> self.maze.spec_interior(e.position) && !self.maze.spec_blocked_at(e.position))
        &&& forall|i: int|
            0 <= i < self.bombs@.len() ==> ((#[trigger] self.bombs@[i]) matches Some(b)
                ==> self.maze.spec_interior(b.position))
        &&& forall|i: int|
            0 <= i < self.fires@.len() ==> ((#[trigger] self.fires@[i]) matches Some(f)
                ==> self.maze.spec_interior(f.position) && f.duration <= MAX_EVENT_DELAY_MILLIS)
    }

    /// Create the first `Level` (sequence number zero) from its content.
    pub fn new(content: LevelContent) -> (level: Level)
        ensures
            spec_level_from_content(level, content, 0),
            content.wf() ==> level.wf(),
    {
        Level::from_content(content, 0)
    }

    /// The `Level` following this one, built from the content the level
    /// loader found for the next sequence number — or nothing, when the
    /// loader found no further level.
    pub fn next(&self, content: Option<LevelContent>) -> (r: Option<Level>)
        requires
            self.index < usize::MAX,
        ensures
            r is Some <==> content is Some,
            content matches Some(c) ==> r matches Some(level) && spec_level_from_content(
                level,
                c,
                self.index + 1,
            ) && (c.wf() ==> level.wf()),
    {
        match content {
            Some(c) => Some(Level::from_content(c, self.index + 1)),
            None => None,
        }
    }

    /// Build a `Level` with the given sequence number from its content:
    /// every entity of the content alive in its arena, and no fire.
    fn from_content(content: LevelContent, index: usize) -> (level: Level)
        ensures
            spec_level_from_content(level, content, index as int),
            content.wf() ==> level.wf(),
    {
        let LevelContent { maze, player, stairs, enemies, bombs } = content;

        let mut enemy_slots: Vec<Option<Enemy>> = Vec::new();
        let mut k: usize = 0;
        while k < enemies.len()
            invariant
                0 <= k <= enemies@.len(),
                enemy_slots@.len() == k,
                forall|i: int| 0 <= i < k ==> #[trigger] enemy_slots@[i] == Some(enemies@[i]),
            decreases enemies@.len() - k,
        {
            enemy_slots.push(Some(enemies[k]));
            k = k + 1;
        }

        let mut bomb_slots: Vec<Option<Bomb>> = Vec::new();
        let mut k: usize = 0;
        while k < bombs.len()
            invariant
                0 <= k <= bombs@.len(),
                bomb_slots@.len() == k,
                forall|i: int| 0 <= i < k ==> #[trigger] bomb_slots@[i] == Some(bombs@[i]),
            decreases bombs@.len() - k,
        {
            bomb_slots.push(Some(bombs[k]));
            k = k + 1;
        }

        let fires: Vec<Option<Fire>> = Vec::new();
        proof {
            assert(fires@ =~= Seq::<Option<Fire>>::empty());
        }

        Level { index, maze, player, enemies: enemy_slots, stairs, bombs: bomb_slots, fires }
    }

    /// Return the sequence number of the current level.
    pub fn get_index(&self) -> (r: usize)
        ensures
            r == self.index,
    {
        self.index
    }

    /// Add a bomb to the level, into the lowest-indexed free arena slot,
    /// and return the bomb id.
    pub fn add_bomb(&mut self, bomb: Bomb) -> (id: usize)
        ensures
            spec_first_fit(old(self).bombs@, final(self).bombs@, bomb, id as int),
            *final(self) == (Level { bombs: final(self).bombs, ..*old(self) }),
    {
        self.bombs.insert_at_empty(bomb)
    }

    /// Add a fire to the level, into the lowest-indexed free arena slot,
    /// and return the fire id.
    pub fn add_fire(&mut self, fire: Fire) -> (id: usize)
        ensures
            spec_first_fit(old(self).fires@, final(self).fires@, fire, id as int),
            *final(self) == (Level { fires: final(self).fires, ..*old(self) }),
    {
        self.fires.insert_at_empty(fire)
    }

    /// Check executably that this level is well formed, so that an
    /// unverified caller can test it before running the game on it.
    pub fn valid(&self) -> (b: bool)
        ensures
            b == self.wf(),
    {
        if !(self.maze.wf_check() && self.maze.has_wall_ring()) {
            return false;
        }
        if !(self.maze.is_interior(&self.player.position)
            && self.player.bomb_recovery_millis <= MAX_EVENT_DELAY_MILLIS
            && self.maze.is_interior(&self.stairs.position)) {
            return false;
        }
        let mut k: usize = 0;
        while k < self.enemies.len()
            invariant
                self.maze.wf(),
                0 <= k <= self.enemies@.len(),
                forall|i: int|
                    0 <= i < k ==> ((#[trigger] self.enemies@[i]) matches Some(e)
                        ==> self.maze.spec_interior(e.position) && !self.maze.spec_blocked_at(
                        e.position,
                    )),
            decreases self.enemies@.len() - k,
        {
            if let Some(e) = &self.enemies[k] {
                let p = e.position;
                if !self.maze.is_interior(&p) {
                    return false;
                }
                if self.maze.is_blocked(p.x, p.y) {
                    return false;
                }
            }
            k = k + 1;
        }
        let mut k: usize = 0;
        while k < self.bombs.len()
            invariant
                self.maze.wf(),
                0 <= k <= self.bombs@.len(),
                forall|i: int|
                    0 <= i < k ==> ((#[trigger] self.bombs@[i]) matches Some(b)
                        ==> self.maze.spec_interior(b.position)),
            decreases self.bombs@.len() - k,
        {
            if let Some(b) = &self.bombs[k] {
                if !self.maze.is_interior(&b.position) {
                    return false;
                }
            }
            k = k + 1;
        }
        let mut k: usize = 0;
        while k < self.fires.len()
            invariant
                self.maze.wf(),
                0 <= k <= self.fires@.len(),
                forall|i: int|
                    0 <= i < k ==> ((#[trigger] self.fires@[i]) matches Some(f)
                        ==> self.maze.spec_interior(f.position) && f.duration
                        <= MAX_EVENT_DELAY_MILLIS),
            decreases self.fires@.len() - k,
        {
            if let Some(f) = &self.fires[k] {
                if !(self.maze.is_interior(&f.position) && f.duration <= MAX_EVENT_DELAY_MILLIS) {
                    return false;
                }
            }
            k = k + 1;
        }
        true
    }
}

} // verus!
