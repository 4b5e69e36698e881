//! Static level geometry: a grid of wall and ground blocks parsed from a
//! row-oriented text grid, plus a shrinking pool of spawn blocks.
//!
//! In the source grid the byte `x` marks a wall block and `s` marks a spawn
//! block (ground for movement purposes); every other byte is plain ground.

use vstd::prelude::*;
use crate::error::{Error, ErrorKind};

verus! {

/// The grid byte that marks a wall block: ASCII `x`.
pub const WALL_BYTE: u8 = 120;

/// The grid byte that marks a spawn block: ASCII `s`.
pub const SPAWN_BYTE: u8 = 115;

/// A block of the level grid, by column and row.
#[derive(PartialEq, Eq, Structural, Hash, Clone, Copy, Debug)]
pub struct Block(pub u8, pub u8);

/// Fixed logical dimensions of a level, in blocks.
#[derive(Clone, Copy)]
struct Dimensions(pub u8, pub u8);

/// What a grid cell holds.
#[derive(PartialEq, Eq, Structural, Clone, Copy, Debug)]
pub enum BlockKind {
    Wall,
    Ground,
}

/// Static level geometry and the pool of spawn blocks still available.
pub struct GameMap {
    dimensions: Dimensions,
    spawns: Vec<Block>,
    available_spawns: Vec<Block>,
    pub block_matrix: Vec<Vec<BlockKind>>,
    block_size: u32,
}

/// Whether the source grid holds the wall byte `x` at column `x`, row `y`.
pub open spec fn grid_wall_at(grid: Seq<Seq<u8>>, x: int, y: int) -> bool {
    0 <= y < grid.len() && 0 <= x < grid[y].len() && grid[y][x] == WALL_BYTE
}

/// Whether the source grid holds the spawn byte `s` at column `x`, row `y`.
pub open spec fn grid_spawn_at(grid: Seq<Seq<u8>>, x: int, y: int) -> bool {
    0 <= y < grid.len() && 0 <= x < grid[y].len() && grid[y][x] == SPAWN_BYTE
}

/// One spawn claim: `post` is `pre` with one occurrence of `b` removed from
/// the available pool, everything else unchanged.
pub open spec fn claimed_spawn(pre: GameMap, post: GameMap, b: Block) -> bool {
    &&& exists|i: int|
        0 <= i < pre.available_view().len() && pre.available_view()[i] == b
            && post.available_view() == pre.available_view().remove(i)
    &&& post.spawns_view() == pre.spawns_view()
    &&& post.matrix_view() == pre.matrix_view()
    &&& post.spec_block_size() == pre.spec_block_size()
}

impl GameMap {
    /// The grid, row by row.
    pub closed spec fn matrix_view(&self) -> Seq<Seq<BlockKind>> {
        self.block_matrix@.map_values(|row: Vec<BlockKind>| row@)
    }

    /// All spawn blocks of the level.
    pub closed spec fn spawns_view(&self) -> Seq<Block> {
        self.spawns@
    }

    /// The spawn blocks not yet claimed.
    pub closed spec fn available_view(&self) -> Seq<Block> {
        self.available_spawns@
    }

    /// The pixel size of one block.
    pub closed spec fn spec_block_size(&self) -> u32 {
        self.block_size
    }

    /// Whether the block at column `x`, row `y` is a wall.
    pub open spec fn wall_at(&self, x: int, y: int) -> bool {
        0 <= y < self.matrix_view().len() && 0 <= x < self.matrix_view()[y].len()
            && self.matrix_view()[y][x] == BlockKind::Wall
    }

    /// GameMap well-formedness: the available pool is a duplicate-free part of
    /// the spawn set.
    pub open spec fn wf(&self) -> bool {
        &&& self.available_view().no_duplicates()
        &&& forall|i: int| 0 <= i < self.available_view().len() ==>
            self.spawns_view().contains(#[trigger] self.available_view()[i])
    }

    /// How a map models its source grid: same shape, walls exactly at the
    /// wall bytes, and the spawn set holding exactly the spawn bytes, each
    /// once.
    pub open spec fn models_grid(&self, grid: Seq<Seq<u8>>) -> bool {
        &&& self.matrix_view().len() == grid.len()
        &&& forall|y: int| 0 <= y < grid.len() ==>
            (#[trigger] self.matrix_view()[y]).len() == grid[y].len()
        &&& forall|x: int, y: int| #[trigger] self.wall_at(x, y) <==> grid_wall_at(grid, x, y)
        &&& forall|b: Block| self.spawns_view().contains(b)
            <==> grid_spawn_at(grid, b.0 as int, b.1 as int)
        &&& self.spawns_view().no_duplicates()
    }

    /// Parse a level from the rows of its source grid. The grid must fit the
    /// block coordinate space of one byte per axis. The whole spawn pool
    /// starts available, and the pixel size of a block comes from the
    /// horizontal resolution over the fixed column count.
    pub fn from_lines(rows: &Vec<Vec<u8>>, resolution: (u32, u32)) -> (r: GameMap)
        requires
            rows@.len() <= 256,
            forall|y: int| 0 <= y < rows@.len() ==> (#[trigger] rows@[y])@.len() <= 256,
        ensures
            r.models_grid(rows.deep_view()),
            r.available_view() == r.spawns_view(),
            r.spec_block_size() == resolution.0 / 16,
            r.wf(),
    {
        let ghost grid: Seq<Seq<u8>> = rows.deep_view();
        let mut spawns: Vec<Block> = Vec::new();
        let mut block_matrix: Vec<Vec<BlockKind>> = Vec::new();
        let mut y: usize = 0;

        proof {
            assert(grid.len() == rows@.len());
            assert(forall|i: int| 0 <= i < grid.len() ==> grid[i] == (#[trigger] rows@[i])@);
        }

        while y < rows.len()
            invariant
                grid == rows.deep_view(),
                grid.len() == rows@.len() <= 256,
                forall|i: int| 0 <= i < grid.len() ==> grid[i] == (#[trigger] rows@[i])@,
                forall|i: int| 0 <= i < grid.len() ==> (#[trigger] grid[i]).len() <= 256,
                y <= rows@.len(),
                block_matrix@.len() == y,
                forall|j: int| 0 <= j < y ==>
                    (#[trigger] block_matrix@[j])@.len() == grid[j].len(),
                forall|j: int, i: int| 0 <= j < y && 0 <= i < grid[j].len() ==>
                    (#[trigger] block_matrix@[j]@[i] == BlockKind::Wall <==> grid[j][i] == WALL_BYTE),
                forall|b: Block| spawns@.contains(b) <==>
                    (b.1 < y && grid_spawn_at(grid, b.0 as int, b.1 as int)),
                spawns@.no_duplicates(),
                forall|k: int| 0 <= k < spawns@.len() ==> (#[trigger] spawns@[k]).1 < y,
            decreases rows@.len() - y,
        {
            let row = &rows[y];
            let mut block_row: Vec<BlockKind> = Vec::new();
            let mut x: usize = 0;

            while x < row.len()
                invariant
                    grid == rows.deep_view(),
                    forall|i: int| 0 <= i < grid.len() ==> grid[i] == (#[trigger] rows@[i])@,
                    y < rows@.len() && rows@.len() <= 256,
                    row == rows@[y as int],
                    row@.len() <= 256,
                    x <= row@.len(),
                    block_row@.len() == x,
                    forall|i: int| 0 <= i < x ==>
                        (#[trigger] block_row@[i] == BlockKind::Wall <==> grid[y as int][i] == WALL_BYTE),
                    forall|b: Block| spawns@.contains(b) <==>
                        ((b.1 < y && grid_spawn_at(grid, b.0 as int, b.1 as int))
                            || (b.1 == y && b.0 < x
                                && grid_spawn_at(grid, b.0 as int, b.1 as int))),
                    spawns@.no_duplicates(),
                    forall|k: int| 0 <= k < spawns@.len() ==>
                        ((#[trigger] spawns@[k]).1 < y || (spawns@[k].1 == y && spawns@[k].0 < x)),
                decreases row@.len() - x,
            {
                let ch = row[x];
                proof {
                    assert(row@[x as int] == grid[y as int][x as int]);
                }
                let ghost pre = spawns@;
                let ghost nb = Block(x as u8, y as u8);
                if ch == WALL_BYTE {
                    block_row.push(BlockKind::Wall);
                } else if ch == SPAWN_BYTE {
                    spawns.push(Block(x as u8, y as u8));
                    block_row.push(BlockKind::Ground);
                } else {
                    block_row.push(BlockKind::Ground);
                }
                proof {
                    assert(nb.0 as int == x as int && nb.1 as int == y as int);
                    if ch == SPAWN_BYTE {
                        assert(spawns@ == pre.push(nb));
                    } else {
                        assert(spawns@ == pre);
                    }
                    assert forall|b: Block| spawns@.contains(b) implies
                        ((b.1 < y && grid_spawn_at(grid, b.0 as int, b.1 as int))
                            || (b.1 == y && b.0 < x + 1
                                && grid_spawn_at(grid, b.0 as int, b.1 as int))) by {
                        let i = choose|i: int| 0 <= i < spawns@.len() && spawns@[i] == b;
                        if i < pre.len() {
                            assert(pre[i] == b);
                            assert(pre.contains(b));
                        } else {
                            assert(b == nb);
                            assert(grid_spawn_at(grid, x as int, y as int));
                        }
                    }
                    assert forall|b: Block|
                        ((b.1 < y && grid_spawn_at(grid, b.0 as int, b.1 as int))
                            || (b.1 == y && b.0 < x + 1
                                && grid_spawn_at(grid, b.0 as int, b.1 as int)))
                        implies spawns@.contains(b) by {
                        if b.1 == y && b.0 as int == x as int {
                            assert(grid[y as int][x as int] == SPAWN_BYTE);
                            assert(b.0 == x as u8 && b.1 == y as u8);
                            assert(b == nb);
                            assert(spawns@[pre.len() as int] == nb);
                        } else {
                            assert(pre.contains(b));
                            let i = choose|i: int| 0 <= i < pre.len() && pre[i] == b;
                            assert(spawns@[i] == b);
                        }
                    }
                    assert(spawns@.no_duplicates()) by {
                        if ch == SPAWN_BYTE {
                            assert(!pre.contains(nb));
                            assert forall|j: int, k: int|
                                0 <= j < spawns@.len() && 0 <= k < spawns@.len() && j != k
                                implies spawns@[j] != spawns@[k] by {
                                if j < pre.len() && k < pre.len() {
                                    assert(spawns@[j] == pre[j] && spawns@[k] == pre[k]);
                                } else if j < pre.len() {
                                    assert(spawns@[k] == nb && spawns@[j] == pre[j]);
                                    assert(pre.contains(pre[j]));
                                } else if k < pre.len() {
                                    assert(spawns@[j] == nb && spawns@[k] == pre[k]);
                                    assert(pre.contains(pre[k]));
                                }
                            }
                        }
                    }
                }
                x += 1;
            }

            proof {
                assert forall|b: Block| spawns@.contains(b) implies
                    (b.1 < y + 1 && grid_spawn_at(grid, b.0 as int, b.1 as int)) by {}
                assert forall|b: Block|
                    b.1 < y + 1 && grid_spawn_at(grid, b.0 as int, b.1 as int) implies
                    spawns@.contains(b) by {
                    if b.1 == y {
                        assert((b.0 as int) < grid[y as int].len());
                    }
                }
            }
            block_matrix.push(block_row);
            y += 1;
        }

        let available_spawns = spawns.clone();
        let dimension = Dimensions(16, 9);
        let block_size = resolution.0 / 16;

        let r = GameMap {
            dimensions: dimension,
            spawns,
            block_matrix,
            available_spawns,
            block_size,
        };
        proof {
            assert forall|x: int, yy: int| #[trigger] r.wall_at(x, yy)
                <==> grid_wall_at(grid, x, yy) by {
                if 0 <= yy < grid.len() && 0 <= x < grid[yy].len() {
                    assert(r.matrix_view()[yy] == block_matrix@[yy]@);
                }
            }
        }
        r
    }

    /// Remove and return a uniformly random block from the available pool;
    /// fails exactly when the pool is empty. The pool shrinks permanently
    /// for the life of the map.
    pub fn get_spawn_block(&mut self) -> (r: Result<Block, Error>)
        requires
            old(self).wf(),
        ensures
            final(self).wf(),
            r is Ok <==> old(self).available_view().len() > 0,
            r matches Ok(b) ==> claimed_spawn(*old(self), *final(self), b)
                && old(self).available_view().contains(b),
            r matches Err(e) ==> *final(self) == *old(self)
                && e.spec_kind() == ErrorKind::NoSpawnAvailable,
    {
        if self.available_spawns.len() == 0 {
            return Err(Error::new(
                ErrorKind::NoSpawnAvailable,
                String::from_str("no more spawns available"),
            ));
        }
        let random_index = random_below(self.available_spawns.len());
        let b = self.available_spawns.remove(random_index);
        proof {
            assert(self.available_view() == old(self).available_view().remove(random_index as int));
            assert(old(self).available_view().remove(random_index as int).no_duplicates()) by {
                lemma_remove_keeps_no_duplicates(old(self).available_view(), random_index as int);
            }
            assert forall|i: int| 0 <= i < self.available_view().len() implies
                self.spawns_view().contains(#[trigger] self.available_view()[i]) by {
                if i < random_index as int {
                    assert(self.available_view()[i] == old(self).available_view()[i]);
                } else {
                    assert(self.available_view()[i] == old(self).available_view()[i + 1]);
                }
            }
        }
        Ok(b)
    }

    /// The pixel size of one block.
    pub fn block_size(&self) -> (r: u32)
        ensures
            r == self.spec_block_size(),
    {
        self.block_size
    }

    /// Whether `block` is a wall of this level.
    pub fn is_wall(&self, block: &Block) -> (r: bool)
        ensures
            r == self.wall_at(block.0 as int, block.1 as int),
    {
        let y = block.1 as usize;
        let x = block.0 as usize;
        if y < self.block_matrix.len() {
            let row = &self.block_matrix[y];
            if x < row.len() {
                matches!(row[x], BlockKind::Wall)
            } else {
                false
            }
        } else {
            false
        }
    }
}

/// Relies on rand::random_range over `0..bound`: a uniformly random index
/// strictly below `bound`, drawn from the thread-local generator.
#[verifier::external_body]
fn random_below(bound: usize) -> (r: usize)
    requires
        bound > 0,
    ensures
        r < bound,
{
    rand::random_range(0..bound)
}

/// Removing an element of a duplicate-free sequence keeps it duplicate-free.
proof fn lemma_remove_keeps_no_duplicates(s: Seq<Block>, i: int)
    requires
        s.no_duplicates(),
        0 <= i < s.len(),
    ensures
        s.remove(i).no_duplicates(),
{
    let t = s.remove(i);
    assert forall|j: int, k: int| 0 <= j < t.len() && 0 <= k < t.len() && j != k implies
        t[j] != t[k] by {
        let j0 = if j < i { j } else { j + 1 };
        let k0 = if k < i { k } else { k + 1 };
        assert(t[j] == s[j0] && t[k] == s[k0]);
    }
}

/// A block is a wall of a map built from a source grid exactly when the
/// grid holds the wall byte at the block's coordinates.
pub proof fn lemma_wall_iff_grid(m: GameMap, grid: Seq<Seq<u8>>, b: Block)
    requires
        m.models_grid(grid),
    ensures
        m.wall_at(b.0 as int, b.1 as int) <==> grid_wall_at(grid, b.0 as int, b.1 as int),
{
}

/// A claimed spawn block is out of the pool: it cannot be returned by a
/// later claim until the pool would be rebuilt.
pub proof fn lemma_spawn_not_repeated(m0: GameMap, m1: GameMap, b: Block)
    requires
        m0.wf(),
        claimed_spawn(m0, m1, b),
    ensures
        !m1.available_view().contains(b),
        m1.wf(),
{
    let i = choose|i: int|
        0 <= i < m0.available_view().len() && m0.available_view()[i] == b
            && m1.available_view() == m0.available_view().remove(i);
    lemma_remove_keeps_no_duplicates(m0.available_view(), i);
    assert forall|j: int| 0 <= j < m1.available_view().len() implies
        m1.available_view()[j] != b by {
        let j0 = if j < i { j } else { j + 1 };
        assert(m1.available_view()[j] == m0.available_view()[j0]);
    }
    if m1.available_view().contains(b) {
        let j = choose|j: int| 0 <= j < m1.available_view().len() && m1.available_view()[j] == b;
    }
    assert forall|j: int| 0 <= j < m1.available_view().len() implies
        m0.spawns_view().contains(#[trigger] m1.available_view()[j]) by {
        let j0 = if j < i { j } else { j + 1 };
        assert(m1.available_view()[j] == m0.available_view()[j0]);
    }
}

/// A spawn claim never puts a block back: one already out of the pool stays
/// out.
pub proof fn lemma_spawn_pool_only_shrinks(m0: GameMap, m1: GameMap, c: Block, b: Block)
    requires
        claimed_spawn(m0, m1, c),
        !m0.available_view().contains(b),
    ensures
        !m1.available_view().contains(b),
{
    let i = choose|i: int|
        0 <= i < m0.available_view().len() && m0.available_view()[i] == c
            && m1.available_view() == m0.available_view().remove(i);
    assert forall|j: int| 0 <= j < m1.available_view().len() implies
        m1.available_view()[j] != b by {
        let j0 = if j < i { j } else { j + 1 };
        assert(m1.available_view()[j] == m0.available_view()[j0]);
        assert(m0.available_view()[j0] != b);
    }
}

} // verus!
