//! The grid model: a finite set of blocks keyed by integer cell coordinates,
//! the single source of truth for what occupies a cell. At most one block
//! ever occupies a given cell; a block's value and position are fixed at
//! creation and only its owner changes (by claiming).

use vstd::prelude::*;
use crate::player::{Player, PlayerBundle, Players};
use crate::player::{BLUE_PLAYER_START_POS_X, PLAYER_START_Y, RED_PLAYER_START_POS_X};
use crate::rng::random_below;

verus! {

/// Widest cell coordinate the grid accepts, so that converting a cell to
/// milli-units stays in fixed-point range.
pub const CELL_LIMIT: i64 = 1_000_000;

/// Most blocks the grid will hold, so that value sums stay in range.
pub const MAX_BLOCKS: usize = 1_000_000_000;

/// One block: its cell, its fixed value, and its current owner. A missing
/// owner means the block is unclaimed.
#[derive(Clone, Copy, Debug, PartialEq, Eq)]
pub struct Block {
    pub x: i64,
    pub y: i64,
    pub value: u8,
    pub owner: Option<Player>,
}

/// The grid of live blocks.
pub struct Blocks {
    blocks: Vec<Block>,
}

/// Is some block of `s` at cell `(x, y)`?
pub open spec fn seq_has(s: Seq<Block>, x: int, y: int) -> bool {
    exists|i: int| #![auto] 0 <= i < s.len() && s[i].x == x && s[i].y == y
}

/// Index of the block of `s` at cell `(x, y)` (unique when cells are
/// pairwise distinct).
pub open spec fn seq_idx(s: Seq<Block>, x: int, y: int) -> int {
    choose|i: int| #![auto] 0 <= i < s.len() && s[i].x == x && s[i].y == y
}

/// No two blocks of `s` share a cell.
pub open spec fn seq_distinct(s: Seq<Block>) -> bool {
    forall|i: int, j: int|
        #![trigger s[i], s[j]]
        0 <= i < j < s.len() ==> !(s[i].x == s[j].x && s[i].y == s[j].y)
}

/// Every block of `s` has a value in 1..=9 and a cell in range.
pub open spec fn seq_blocks_ok(s: Seq<Block>) -> bool {
    forall|i: int| #![trigger s[i]] 0 <= i < s.len() ==> {
        &&& 1 <= s[i].value <= 9
        &&& -CELL_LIMIT <= s[i].x <= CELL_LIMIT
        &&& -CELL_LIMIT <= s[i].y <= CELL_LIMIT
    }
}

/// Grid well-formedness over a block sequence.
pub open spec fn seq_wf(s: Seq<Block>) -> bool {
    &&& seq_distinct(s)
    &&& seq_blocks_ok(s)
    &&& s.len() <= MAX_BLOCKS
}

impl Blocks {
    /// The mathematical model: the sequence of live blocks.
    pub closed spec fn model(self) -> Seq<Block> {
        self.blocks@
    }

    /// Grid invariant: cells pairwise distinct, values and cells in range.
    pub open spec fn wf(self) -> bool {
        seq_wf(self.model())
    }

    /// Does a block occupy cell `(x, y)`?
    pub open spec fn has(self, x: int, y: int) -> bool {
        seq_has(self.model(), x, y)
    }

    /// The value of the block at `(x, y)` (meaningful when `has(x, y)`).
    pub open spec fn val_at(self, x: int, y: int) -> u8 {
        self.model()[seq_idx(self.model(), x, y)].value
    }

    /// The owner of the block at `(x, y)` (meaningful when `has(x, y)`).
    pub open spec fn owner_at(self, x: int, y: int) -> Option<Player> {
        self.model()[seq_idx(self.model(), x, y)].owner
    }

    /// The empty grid.
    pub fn new() -> (g: Blocks)
        ensures
            g.wf(),
            g.model() =~= Seq::<Block>::empty(),
            forall|x: int, y: int| !g.has(x, y),
    {
        Blocks { blocks: Vec::new() }
    }

    /// How many blocks are live.
    pub fn len(&self) -> (n: usize)
        ensures
            n == self.model().len(),
    {
        self.blocks.len()
    }

    /// Index of the block at `(x, y)`, if any.
    fn find(&self, x: i64, y: i64) -> (r: Option<usize>)
        ensures
            match r {
                Some(i) => {
                    &&& i < self.model().len()
                    &&& self.model()[i as int].x == x
                    &&& self.model()[i as int].y == y
                    &&& self.has(x as int, y as int)
                },
                None => !self.has(x as int, y as int),
            },
    {
        let n = self.blocks.len();
        let mut i: usize = 0;
        while i < n
            invariant
                i <= n,
                n == self.model().len(),
                forall|j: int| #![auto] 0 <= j < i ==>
                    !(self.model()[j].x == x && self.model()[j].y == y),
            decreases n - i,
        {
            let b = self.blocks[i];
            if b.x == x && b.y == y {
                return Some(i);
            }
            i = i + 1;
        }
        None
    }

    /// Looks up the block at `(x, y)`: its value and owner, or nothing when
    /// the cell is vacant.
    pub fn get(&self, x: i64, y: i64) -> (r: Option<Block>)
        requires
            self.wf(),
        ensures
            match r {
                Some(b) => {
                    &&& self.has(x as int, y as int)
                    &&& b.x == x && b.y == y
                    &&& b.value == self.val_at(x as int, y as int)
                    &&& b.owner == self.owner_at(x as int, y as int)
                },
                None => !self.has(x as int, y as int),
            },
    {
        match self.find(x, y) {
            Some(i) => {
                let b = self.blocks[i];
                proof {
                    lemma_found_at(self.model(), i as int, x as int, y as int);
                }
                Some(b)
            },
            None => None,
        }
    }

    /// Places a block at its (vacant) cell. Callers only insert at vacant
    /// cells: an occupied cell never receives a second block.
    pub fn insert(&mut self, b: Block)
        requires
            old(self).wf(),
            !old(self).has(b.x as int, b.y as int),
            1 <= b.value <= 9,
            -CELL_LIMIT <= b.x <= CELL_LIMIT,
            -CELL_LIMIT <= b.y <= CELL_LIMIT,
            old(self).model().len() < MAX_BLOCKS,
        ensures
            final(self).model() == old(self).model().push(b),
            final(self).wf(),
            final(self).has(b.x as int, b.y as int),
            final(self).val_at(b.x as int, b.y as int) == b.value,
            final(self).owner_at(b.x as int, b.y as int) == b.owner,
            forall|x: int, y: int| !(x == b.x && y == b.y) ==>
                (final(self).has(x, y) <==> old(self).has(x, y)),
            forall|x: int, y: int| old(self).has(x, y) ==> {
                &&& final(self).val_at(x, y) == old(self).val_at(x, y)
                &&& final(self).owner_at(x, y) == old(self).owner_at(x, y)
            },
    {
        let ghost pre = self.blocks@;
        self.blocks.push(b);
        proof {
            let post = self.blocks@;
            let n = pre.len() as int;
            assert(post[n] == b);
            assert forall|i: int| 0 <= i < n implies post[i] == pre[i] by {}
            assert(seq_wf(post));
            lemma_found_at(post, n, b.x as int, b.y as int);
            assert forall|x: int, y: int| !(x == b.x && y == b.y)
                && seq_has(post, x, y) implies seq_has(pre, x, y) by {
                let i = choose|i: int| #![auto] 0 <= i < post.len()
                    && post[i].x == x && post[i].y == y;
                assert(i != n);
                assert(pre[i].x == x && pre[i].y == y);
            }
            assert forall|x: int, y: int| seq_has(pre, x, y) implies {
                &&& seq_has(post, x, y)
                &&& post[seq_idx(post, x, y)] == pre[seq_idx(pre, x, y)]
            } by {
                let i = seq_idx(pre, x, y);
                assert(0 <= i < n && pre[i].x == x && pre[i].y == y);
                lemma_found_at(pre, i, x, y);
                lemma_found_at(post, i, x, y);
            }
        }
    }

    /// Claims the block at `(x, y)` for team `t`: a total, idempotent
    /// assignment of the owner field, overwriting any prior owner.
    pub fn claim(&mut self, x: i64, y: i64, t: Player)
        requires
            old(self).wf(),
            old(self).has(x as int, y as int),
        ensures
            claim_rel(*old(self), *final(self), x as int, y as int, t),
    {
        let i = match self.find(x, y) {
            Some(i) => i,
            None => {
                proof {
                    assert(false);
                }
                0
            },
        };
        let ghost pre = self.blocks@;
        let mut nb = self.blocks[i];
        nb.owner = Some(t);
        self.blocks[i] = nb;
        proof {
            let post = self.blocks@;
            assert(post == pre.update(i as int, nb));
            assert(seq_distinct(post));
            assert(seq_blocks_ok(post));
            lemma_found_at(pre, i as int, x as int, y as int);
            lemma_found_at(post, i as int, x as int, y as int);
            assert forall|a: int, b: int| seq_has(pre, a, b) implies seq_has(post, a, b) by {
                let j = seq_idx(pre, a, b);
                assert(post[j].x == a && post[j].y == b);
            }
            assert forall|a: int, b: int| seq_has(post, a, b) implies seq_has(pre, a, b) by {
                let j = choose|j: int| #![auto] 0 <= j < post.len()
                    && post[j].x == a && post[j].y == b;
                assert(pre[j].x == a && pre[j].y == b);
            }
            assert forall|a: int, b: int| seq_has(pre, a, b) && !(a == x && b == y) implies {
                &&& post[seq_idx(post, a, b)].owner == pre[seq_idx(pre, a, b)].owner
                &&& post[seq_idx(post, a, b)].value == pre[seq_idx(pre, a, b)].value
            } by {
                let j = seq_idx(pre, a, b);
                lemma_found_at(pre, j, a, b);
                assert(j != i);
                assert(post[j] == pre[j]);
                lemma_found_at(post, j, a, b);
            }
            assert forall|a: int, b: int| seq_has(pre, a, b) implies
                post[seq_idx(post, a, b)].value == pre[seq_idx(pre, a, b)].value by {
                let j = seq_idx(pre, a, b);
                lemma_found_at(pre, j, a, b);
                if j != i {
                    assert(post[j] == pre[j]);
                }
                lemma_found_at(post, j, a, b);
            }
        }
    }

    /// Removes the block at `(x, y)` (the lava's removal path), returning
    /// it, or nothing when the cell is vacant.
    pub fn remove(&mut self, x: i64, y: i64) -> (r: Option<Block>)
        requires
            old(self).wf(),
        ensures
            final(self).wf(),
            match r {
                Some(b) => {
                    &&& old(self).has(x as int, y as int)
                    &&& b.x == x && b.y == y
                    &&& b.value == old(self).val_at(x as int, y as int)
                    &&& b.owner == old(self).owner_at(x as int, y as int)
                    &&& !final(self).has(x as int, y as int)
                    &&& final(self).model().len() == old(self).model().len() - 1
                },
                None => {
                    &&& !old(self).has(x as int, y as int)
                    &&& *final(self) == *old(self)
                },
            },
            forall|a: int, b: int| !(a == x && b == y) ==>
                (final(self).has(a, b) <==> old(self).has(a, b)),
            forall|a: int, b: int| old(self).has(a, b) && !(a == x && b == y) ==> {
                &&& final(self).val_at(a, b) == old(self).val_at(a, b)
                &&& final(self).owner_at(a, b) == old(self).owner_at(a, b)
            },
    {
        match self.find(x, y) {
            Some(i) => {
                let ghost pre = self.blocks@;
                proof {
                    lemma_found_at(pre, i as int, x as int, y as int);
                }
                let b = self.blocks.remove(i);
                proof {
                    let post = self.blocks@;
                    assert(post == pre.remove(i as int));
                    assert forall|j: int| 0 <= j < post.len() implies
                        post[j] == (if j < i { pre[j] } else { pre[j + 1] }) by {}
                    assert(seq_wf(post));
                    assert forall|a: int, c: int| seq_has(post, a, c) implies
                        seq_has(pre, a, c) && !(a == x && c == y) by {
                        let j = choose|j: int| #![auto] 0 <= j < post.len()
                            && post[j].x == a && post[j].y == c;
                        let j0: int = if j < i { j } else { j + 1 };
                        assert(pre[j0].x == a && pre[j0].y == c);
                        assert(j0 != i);
                        lemma_found_at(pre, j0, a, c);
                        assert(!(a == x && c == y));
                    }
                    assert forall|a: int, c: int| seq_has(pre, a, c) && !(a == x && c == y)
                        implies {
                        &&& seq_has(post, a, c)
                        &&& post[seq_idx(post, a, c)] == pre[seq_idx(pre, a, c)]
                    } by {
                        let j = seq_idx(pre, a, c);
                        lemma_found_at(pre, j, a, c);
                        assert(j != i);
                        let j1: int = if j < i { j } else { j - 1 };
                        assert(post[j1] == pre[j]);
                        lemma_found_at(post, j1, a, c);
                    }
                }
                Some(b)
            },
            None => None,
        }
    }
}

/// What claiming cell `(x, y)` for team `t` does to the grid: the same
/// cells stay occupied with the same values, the claimed block's owner
/// becomes `t`, and every other block keeps its owner.
pub open spec fn claim_rel(pre: Blocks, post: Blocks, x: int, y: int, t: Player) -> bool {
    &&& post.wf()
    &&& post.model().len() == pre.model().len()
    &&& forall|a: int, b: int| post.has(a, b) <==> pre.has(a, b)
    &&& forall|a: int, b: int| pre.has(a, b) ==> post.val_at(a, b) == pre.val_at(a, b)
    &&& post.owner_at(x, y) == Some(t)
    &&& forall|a: int, b: int| pre.has(a, b) && !(a == x && b == y) ==>
            post.owner_at(a, b) == pre.owner_at(a, b)
}

/// Is some block of `s` on row `f`?
pub open spec fn seq_has_row(s: Seq<Block>, f: int) -> bool {
    exists|i: int| #![auto] 0 <= i < s.len() && s[i].y == f
}

/// Is every block of `s` on row `f` or below?
pub open spec fn seq_rows_le(s: Seq<Block>, f: int) -> bool {
    forall|i: int| #![trigger s[i]] 0 <= i < s.len() ==> s[i].y <= f
}

/// The sum of the values of all blocks of `s`.
pub open spec fn seq_total(s: Seq<Block>) -> int
    decreases s.len(),
{
    if s.len() == 0 {
        0
    } else {
        seq_total(s.drop_last()) + s.last().value
    }
}

/// A block on row `y` is consumed once its world height (the row itself)
/// lies below the lava height minus the fixed half-unit margin.
pub open spec fn below_lava(y: int, lava_y: int) -> bool {
    y * 1000 < lava_y - 500
}

/// The blocks of `s` that survive pruning at lava height `lava_y`, in order.
pub open spec fn keep(s: Seq<Block>, lava_y: int) -> Seq<Block>
    decreases s.len(),
{
    if s.len() == 0 {
        Seq::empty()
    } else {
        let rest = keep(s.drop_last(), lava_y);
        if below_lava(s.last().y as int, lava_y) {
            rest
        } else {
            rest.push(s.last())
        }
    }
}

/// The total value of the blocks of `s` owned by team `t` that pruning at
/// lava height `lava_y` consumes: the score the prune credits to `t`.
pub open spec fn pruned_gain(s: Seq<Block>, t: Player, lava_y: int) -> int
    decreases s.len(),
{
    if s.len() == 0 {
        0
    } else {
        pruned_gain(s.drop_last(), t, lava_y) + {
            if below_lava(s.last().y as int, lava_y) && s.last().owner == Some(t) {
                s.last().value as int
            } else {
                0
            }
        }
    }
}

impl Blocks {
    /// Is `f` the frontier: the highest row holding any block?
    pub open spec fn is_frontier(self, f: int) -> bool {
        &&& seq_has_row(self.model(), f)
        &&& seq_rows_le(self.model(), f)
    }

    /// The frontier row, or nothing when the grid is empty.
    pub fn frontier(&self) -> (r: Option<i64>)
        ensures
            match r {
                Some(f) => self.is_frontier(f as int),
                None => self.model().len() == 0,
            },
    {
        let n = self.blocks.len();
        if n == 0 {
            return None;
        }
        let mut f = self.blocks[0].y;
        let mut i: usize = 1;
        while i < n
            invariant
                1 <= i <= n,
                n == self.model().len(),
                exists|j: int| #![auto] 0 <= j < i && self.model()[j].y == f,
                forall|j: int| #![trigger self.model()[j]] 0 <= j < i ==> self.model()[j].y <= f,
            decreases n - i,
        {
            let y = self.blocks[i].y;
            if y > f {
                f = y;
            }
            i = i + 1;
        }
        Some(f)
    }

    /// All cells of the frontier row, each exactly once: the candidate
    /// respawn cells, so a uniform pick over the entries is a uniform pick
    /// over the cells.
    #[verifier::rlimit(100)]
    #[verifier::spinoff_prover]
    pub fn top_row(&self, f: i64) -> (v: Vec<(i64, i64)>)
        requires
            self.wf(),
            self.is_frontier(f as int),
        ensures
            v@.len() >= 1,
            forall|k: int| #![auto] 0 <= k < v@.len() ==>
                v@[k].1 == f && self.has(v@[k].0 as int, f as int),
            forall|x: int| self.has(x, f as int) ==>
                exists|k: int| #![auto] 0 <= k < v@.len() && v@[k].0 == x,
            forall|k1: int, k2: int|
                #![trigger v@[k1], v@[k2]]
                0 <= k1 < k2 < v@.len() ==> v@[k1].0 != v@[k2].0,
    {
        let n = self.blocks.len();
        let mut v: Vec<(i64, i64)> = Vec::new();
        let mut i: usize = 0;
        while i < n
            invariant
                i <= n,
                n == self.model().len(),
                self.wf(),
                forall|k: int| #![auto] 0 <= k < v@.len() ==>
                    v@[k].1 == f && seq_has(self.model(), v@[k].0 as int, f as int),
                forall|k: int| #![trigger v@[k]] 0 <= k < v@.len() ==>
                    exists|j: int| #![auto] 0 <= j < i
                        && self.model()[j].x == v@[k].0 && self.model()[j].y == f,
                forall|j: int| #![auto] 0 <= j < i && self.model()[j].y == f ==>
                    exists|k: int| #![auto] 0 <= k < v@.len() && v@[k].0 == self.model()[j].x,
                forall|k1: int, k2: int|
                    #![trigger v@[k1], v@[k2]]
                    0 <= k1 < k2 < v@.len() ==> v@[k1].0 != v@[k2].0,
            decreases n - i,
        {
            let ghost v0 = v@;
            let b = self.blocks[i];
            if b.y == f {
                proof {
                    lemma_found_at(self.model(), i as int, b.x as int, b.y as int);
                    assert forall|k: int| #![auto] 0 <= k < v0.len()
                        implies v0[k].0 != b.x by {
                        let j = choose|j: int| #![auto] 0 <= j < i
                            && self.model()[j].x == v0[k].0 && self.model()[j].y == f;
                        assert(j != i);
                        assert(!(self.model()[j].x == self.model()[i as int].x
                            && self.model()[j].y == self.model()[i as int].y));
                    }
                }
                v.push((b.x, f));
            }
            proof {
                assert forall|j: int| #![auto] 0 <= j < i + 1 && self.model()[j].y == f
                    implies exists|k: int| #![auto] 0 <= k < v@.len()
                        && v@[k].0 == self.model()[j].x by {
                    if j < i {
                        let k = choose|k: int| #![auto] 0 <= k < v0.len()
                            && v0[k].0 == self.model()[j].x;
                        assert(v@[k] == v0[k]);
                    } else {
                        assert(v@[v@.len() - 1].0 == b.x);
                    }
                }
                assert forall|k: int| #![trigger v@[k]] 0 <= k < v@.len()
                    implies exists|j: int| #![auto] 0 <= j < i + 1
                        && self.model()[j].x == v@[k].0 && self.model()[j].y == f by {
                    if k < v0.len() {
                        assert(v@[k] == v0[k]);
                        let j = choose|j: int| #![auto] 0 <= j < i
                            && self.model()[j].x == v0[k].0 && self.model()[j].y == f;
                    } else {
                        assert(v@[k].0 == b.x && self.model()[i as int].x == b.x
                            && self.model()[i as int].y == f);
                    }
                }
            }
            i = i + 1;
        }
        proof {
            assert forall|x: int| self.has(x, f as int) implies
                exists|k: int| #![auto] 0 <= k < v@.len() && v@[k].0 == x by {
                let j2 = seq_idx(self.model(), x, f as int);
                assert(0 <= j2 < self.model().len() && self.model()[j2].x == x
                    && self.model()[j2].y == f);
            }
            let j = choose|j: int| #![auto] 0 <= j < self.model().len()
                && self.model()[j].y == f;
            assert(self.has(self.model()[j].x as int, f as int)) by {
                lemma_found_at(self.model(), j, self.model()[j].x as int, f as int);
            }
        }
        v
    }

    /// The sum of all live block values: an upper bound on what any one
    /// prune can credit.
    pub fn total_value(&self) -> (r: u64)
        requires
            self.wf(),
        ensures
            r == seq_total(self.model()),
    {
        let s = Ghost(self.model());
        let n = self.blocks.len();
        let mut r: u64 = 0;
        let mut i: usize = 0;
        while i < n
            invariant
                i <= n,
                n == s@.len(),
                s@ == self.model(),
                self.wf(),
                r == seq_total(s@.take(i as int)),
                r <= 9 * i,
            decreases n - i,
        {
            proof {
                lemma_seq_total_take(s@, i as int);
            }
            r = r + (self.blocks[i].value as u64);
            i = i + 1;
        }
        proof {
            assert(s@.take(n as int) =~= s@);
        }
        r
    }
}

/// Extending the summed prefix by one block adds that block's value.
pub proof fn lemma_seq_total_take(s: Seq<Block>, i: int)
    requires
        0 <= i < s.len(),
    ensures
        seq_total(s.take(i + 1)) == seq_total(s.take(i)) + s[i].value,
{
    assert(s.take(i + 1).drop_last() =~= s.take(i));
    assert(s.take(i + 1).last() == s[i]);
}

/// Extending the pruned prefix by one block keeps it (when above the lava
/// margin) or adds its value to its owner's gain.
proof fn lemma_prune_take(s: Seq<Block>, i: int, lava_y: int)
    requires
        0 <= i < s.len(),
    ensures
        keep(s.take(i + 1), lava_y) == (if below_lava(s[i].y as int, lava_y) {
            keep(s.take(i), lava_y)
        } else {
            keep(s.take(i), lava_y).push(s[i])
        }),
        forall|t: Player| #![auto] pruned_gain(s.take(i + 1), t, lava_y)
            == pruned_gain(s.take(i), t, lava_y) + {
                if below_lava(s[i].y as int, lava_y) && s[i].owner == Some(t) {
                    s[i].value as int
                } else {
                    0
                }
            },
{
    assert(s.take(i + 1).drop_last() =~= s.take(i));
    assert(s.take(i + 1).last() == s[i]);
}

/// Every survivor of a prune is a block of the input that is not below the
/// lava margin, and every such block survives.
pub proof fn lemma_keep_membership(s: Seq<Block>, lava_y: int)
    ensures
        keep(s, lava_y).len() <= s.len(),
        forall|j: int| #![trigger keep(s, lava_y)[j]] 0 <= j < keep(s, lava_y).len() ==>
            exists|i: int| #![auto] 0 <= i < s.len() && keep(s, lava_y)[j] == s[i]
                && !below_lava(s[i].y as int, lava_y),
        forall|i: int| #![trigger s[i]] 0 <= i < s.len() && !below_lava(s[i].y as int, lava_y) ==>
            exists|j: int| #![auto] 0 <= j < keep(s, lava_y).len() && keep(s, lava_y)[j] == s[i],
    decreases s.len(),
{
    if s.len() > 0 {
        let s0 = s.drop_last();
        lemma_keep_membership(s0, lava_y);
        let k = keep(s, lava_y);
        let k0 = keep(s0, lava_y);
        assert forall|j: int| #![trigger k[j]] 0 <= j < k.len() implies
            exists|i: int| #![auto] 0 <= i < s.len() && k[j] == s[i]
                && !below_lava(s[i].y as int, lava_y) by {
            if j < k0.len() {
                assert(k[j] == k0[j]);
                let i = choose|i: int| #![auto] 0 <= i < s0.len() && k0[j] == s0[i]
                    && !below_lava(s0[i].y as int, lava_y);
                assert(s[i] == s0[i]);
            } else {
                assert(!below_lava(s.last().y as int, lava_y));
                assert(k[j] == s.last());
                assert(s.last() == s[s.len() - 1]);
            }
        }
        assert forall|i: int| #![trigger s[i]] 0 <= i < s.len()
            && !below_lava(s[i].y as int, lava_y) implies
            exists|j: int| #![auto] 0 <= j < k.len() && k[j] == s[i] by {
            if i < s.len() - 1 {
                assert(s0[i] == s[i]);
                let j = choose|j: int| #![auto] 0 <= j < k0.len() && k0[j] == s0[i];
                assert(k[j] == s[i]);
            } else {
                assert(k[k.len() - 1] == s.last());
                assert(s.last() == s[i]);
            }
        }
    }
}

/// Pruning preserves the grid invariant.
pub proof fn lemma_keep_wf(s: Seq<Block>, lava_y: int)
    requires
        seq_wf(s),
    ensures
        seq_wf(keep(s, lava_y)),
    decreases s.len(),
{
    if s.len() > 0 {
        let s0 = s.drop_last();
        assert(seq_wf(s0));
        lemma_keep_wf(s0, lava_y);
        lemma_keep_membership(s0, lava_y);
        let k = keep(s, lava_y);
        let k0 = keep(s0, lava_y);
        if !below_lava(s.last().y as int, lava_y) {
            assert forall|i: int, j: int|
                #![trigger k[i], k[j]]
                0 <= i < j < k.len() implies !(k[i].x == k[j].x && k[i].y == k[j].y) by {
                if j < k0.len() {
                    assert(k[i] == k0[i] && k[j] == k0[j]);
                } else {
                    assert(k[j] == s.last());
                    let i0 = choose|i0: int| #![auto] 0 <= i0 < s0.len() && k0[i] == s0[i0]
                        && !below_lava(s0[i0].y as int, lava_y);
                    assert(s[i0] == s0[i0]);
                    assert(!(s[i0].x == s[s.len() - 1].x && s[i0].y == s[s.len() - 1].y));
                }
            }
            assert forall|i: int| #![trigger k[i]] 0 <= i < k.len() implies {
                &&& 1 <= k[i].value <= 9
                &&& -CELL_LIMIT <= k[i].x <= CELL_LIMIT
                &&& -CELL_LIMIT <= k[i].y <= CELL_LIMIT
            } by {
                if i < k0.len() {
                    let i0 = choose|i0: int| #![auto] 0 <= i0 < s0.len() && k0[i] == s0[i0]
                        && !below_lava(s0[i0].y as int, lava_y);
                    assert(s[i0] == s0[i0]);
                } else {
                    assert(k[i] == s[s.len() - 1]);
                }
            }
        }
    }
}

/// Pointwise reading of a prune: a cell survives exactly when it was
/// occupied and not below the lava margin, and survivors keep their value
/// and owner.
pub proof fn lemma_keep_cells(s: Seq<Block>, lava_y: int)
    requires
        seq_wf(s),
    ensures
        forall|x: int, y: int| seq_has(keep(s, lava_y), x, y) <==>
            (seq_has(s, x, y) && !below_lava(y, lava_y)),
        forall|x: int, y: int| #![auto] seq_has(s, x, y) && !below_lava(y, lava_y) ==>
            keep(s, lava_y)[seq_idx(keep(s, lava_y), x, y)]
                == s[seq_idx(s, x, y)],
{
    let k = keep(s, lava_y);
    lemma_keep_membership(s, lava_y);
    lemma_keep_wf(s, lava_y);
    assert forall|x: int, y: int| seq_has(k, x, y) implies
        (seq_has(s, x, y) && !below_lava(y, lava_y)) by {
        let j = seq_idx(k, x, y);
        assert(0 <= j < k.len() && k[j].x == x && k[j].y == y);
        let i = choose|i: int| #![auto] 0 <= i < s.len() && k[j] == s[i]
            && !below_lava(s[i].y as int, lava_y);
        lemma_found_at(s, i, x, y);
    }
    assert forall|x: int, y: int| seq_has(s, x, y) && !below_lava(y, lava_y) implies
        (seq_has(k, x, y) && k[seq_idx(k, x, y)] == s[seq_idx(s, x, y)]) by {
        let i = seq_idx(s, x, y);
        assert(0 <= i < s.len() && s[i].x == x && s[i].y == y);
        let j = choose|j: int| #![auto] 0 <= j < k.len() && k[j] == s[i];
        lemma_found_at(k, j, x, y);
        lemma_found_at(s, i, x, y);
    }
}

/// The total block value is bounded by nine per block.
pub proof fn lemma_seq_total_le(s: Seq<Block>)
    requires
        seq_blocks_ok(s),
    ensures
        0 <= seq_total(s) <= 9 * s.len(),
    decreases s.len(),
{
    if s.len() > 0 {
        assert(seq_blocks_ok(s.drop_last()));
        lemma_seq_total_le(s.drop_last());
    }
}

/// A prune's gain for any team is bounded by the total block value.
pub proof fn lemma_gain_bounds(s: Seq<Block>, t: Player, lava_y: int)
    ensures
        0 <= pruned_gain(s, t, lava_y) <= seq_total(s),
        0 <= seq_total(s),
    decreases s.len(),
{
    if s.len() > 0 {
        lemma_gain_bounds(s.drop_last(), t, lava_y);
    }
}

/// What one prune at lava height `lava_y` does to the grid and the scores:
/// exactly the blocks below the margin leave (in order), and each team's
/// score grows by exactly the total value of its pruned blocks; nothing
/// else about either player changes.
pub open spec fn prune_rel(
    pre_b: Blocks,
    post_b: Blocks,
    pre_p: Players,
    post_p: Players,
    lava_y: int,
) -> bool {
    &&& post_b.wf()
    &&& post_b.model() == keep(pre_b.model(), lava_y)
    &&& post_p.blue.score == pre_p.blue.score + pruned_gain(pre_b.model(), Player::Blue, lava_y)
    &&& post_p.red.score == pre_p.red.score + pruned_gain(pre_b.model(), Player::Red, lava_y)
    &&& post_p.blue == (PlayerBundle { score: post_p.blue.score, ..pre_p.blue })
    &&& post_p.red == (PlayerBundle { score: post_p.red.score, ..pre_p.red })
}

/// The lava's removal path: every block below the lava height minus the
/// half-unit margin leaves the grid, and its value is credited to its
/// owner's score; unowned blocks are consumed without crediting anyone.
pub fn block_in_lava(blocks: &mut Blocks, players: &mut Players, lava_y: i64)
    requires
        old(blocks).wf(),
        -crate::COORD_LIMIT <= lava_y <= crate::COORD_LIMIT,
        old(players).blue.score + seq_total(old(blocks).model()) <= u32::MAX,
        old(players).red.score + seq_total(old(blocks).model()) <= u32::MAX,
    ensures
        prune_rel(*old(blocks), *final(blocks), *old(players), *final(players), lava_y as int),
        forall|x: int, y: int| final(blocks).has(x, y) <==>
            (old(blocks).has(x, y) && !below_lava(y, lava_y as int)),
        forall|x: int, y: int| #![auto] old(blocks).has(x, y) && !below_lava(y, lava_y as int)
            ==> {
            &&& final(blocks).val_at(x, y) == old(blocks).val_at(x, y)
            &&& final(blocks).owner_at(x, y) == old(blocks).owner_at(x, y)
        },
{
    let ghost s = blocks.model();
    let n = blocks.blocks.len();
    let mut kept: Vec<Block> = Vec::new();
    let mut gain_blue: u64 = 0;
    let mut gain_red: u64 = 0;
    let mut i: usize = 0;
    while i < n
        invariant
            i <= n,
            n == s.len(),
            s == blocks.model(),
            blocks.wf(),
            -crate::COORD_LIMIT <= lava_y <= crate::COORD_LIMIT,
            kept@ == keep(s.take(i as int), lava_y as int),
            gain_blue == pruned_gain(s.take(i as int), Player::Blue, lava_y as int),
            gain_red == pruned_gain(s.take(i as int), Player::Red, lava_y as int),
            gain_blue <= seq_total(s.take(i as int)),
            gain_red <= seq_total(s.take(i as int)),
            seq_total(s.take(i as int)) <= 9 * i,
        decreases n - i,
    {
        proof {
            lemma_prune_take(s, i as int, lava_y as int);
            lemma_seq_total_take(s, i as int);
            lemma_gain_bounds(s.take(i as int + 1), Player::Blue, lava_y as int);
            lemma_gain_bounds(s.take(i as int + 1), Player::Red, lava_y as int);
        }
        let b = blocks.blocks[i];
        if b.y * 1000 < lava_y - 500 {
            match b.owner {
                Some(Player::Blue) => {
                    gain_blue = gain_blue + (b.value as u64);
                },
                Some(Player::Red) => {
                    gain_red = gain_red + (b.value as u64);
                },
                None => {},
            }
        } else {
            kept.push(b);
        }
        i = i + 1;
    }
    proof {
        assert(s.take(n as int) =~= s);
        lemma_keep_wf(s, lava_y as int);
        lemma_keep_cells(s, lava_y as int);
        lemma_gain_bounds(s, Player::Blue, lava_y as int);
        lemma_gain_bounds(s, Player::Red, lava_y as int);
    }
    blocks.blocks = kept;
    players.blue.score = players.blue.score + (gain_blue as u32);
    players.red.score = players.red.score + (gain_red as u32);
}

/// Lanes of the arena: every generated or initial block lies in this band.
pub const LANE_MIN: i64 = -3;

pub const LANE_MAX: i64 = 3;

/// Highest row of the initial band (rows 0 through this are populated).
pub const INIT_TOP_ROW: i64 = 3;

/// The generator runs once the frontier is within this many rows of the
/// lava height.
pub const GENERATION_DISTANCE: i64 = 5;

/// Populates the initial band of rows: each cell of rows 0..=INIT_TOP_ROW
/// in the lane band receives a block with probability 7/10, except the two
/// players' starting cells, which are always populated so that nobody
/// starts over a hole. Values are drawn uniformly from 1..=9; every block
/// starts unowned.
pub fn blocks_init() -> (g: Blocks)
    ensures
        g.wf(),
        forall|x: int, y: int| g.has(x, y) ==>
            LANE_MIN <= x <= LANE_MAX && 0 <= y <= INIT_TOP_ROW,
        forall|x: int, y: int| #![auto] g.has(x, y) ==> g.owner_at(x, y) is None,
        g.has(BLUE_PLAYER_START_POS_X / 1000, PLAYER_START_Y as int),
        g.has(RED_PLAYER_START_POS_X / 1000, PLAYER_START_Y as int),
        g.is_frontier(INIT_TOP_ROW as int),
{
    let mut g = Blocks::new();
    let mut y: i64 = 0;
    while y <= INIT_TOP_ROW
        invariant
            0 <= y <= INIT_TOP_ROW + 1,
            g.wf(),
            g.model().len() <= 7 * y,
            forall|a: int, b: int| g.has(a, b) ==> LANE_MIN <= a <= LANE_MAX && 0 <= b < y,
            forall|a: int, b: int| #![auto] g.has(a, b) ==> g.owner_at(a, b) is None,
            y > PLAYER_START_Y ==> g.has(BLUE_PLAYER_START_POS_X / 1000, PLAYER_START_Y as int),
            y > PLAYER_START_Y ==> g.has(RED_PLAYER_START_POS_X / 1000, PLAYER_START_Y as int),
        decreases INIT_TOP_ROW + 1 - y,
    {
        let mut x: i64 = LANE_MIN;
        while x <= LANE_MAX
            invariant
                0 <= y <= INIT_TOP_ROW,
                LANE_MIN <= x <= LANE_MAX + 1,
                g.wf(),
                g.model().len() <= 7 * y + (x - LANE_MIN),
                forall|a: int, b: int| g.has(a, b) ==>
                    LANE_MIN <= a <= LANE_MAX && (0 <= b < y || (b == y && a < x)),
                forall|a: int, b: int| #![auto] g.has(a, b) ==> g.owner_at(a, b) is None,
                y > PLAYER_START_Y ==>
                    g.has(BLUE_PLAYER_START_POS_X / 1000, PLAYER_START_Y as int),
                y > PLAYER_START_Y ==>
                    g.has(RED_PLAYER_START_POS_X / 1000, PLAYER_START_Y as int),
                y == PLAYER_START_Y && x > BLUE_PLAYER_START_POS_X / 1000 ==>
                    g.has(BLUE_PLAYER_START_POS_X / 1000, PLAYER_START_Y as int),
                y == PLAYER_START_Y && x > RED_PLAYER_START_POS_X / 1000 ==>
                    g.has(RED_PLAYER_START_POS_X / 1000, PLAYER_START_Y as int),
            decreases LANE_MAX + 1 - x,
        {
            let coin = random_below(10) < 7;
            let forced = (x == BLUE_PLAYER_START_POS_X / 1000 && y == PLAYER_START_Y)
                || (x == RED_PLAYER_START_POS_X / 1000 && y == PLAYER_START_Y);
            if coin || forced {
                let value: u8 = 1 + (random_below(9) as u8);
                g.insert(Block { x, y, value, owner: None });
            }
            x = x + 1;
        }
        y = y + 1;
    }
    proof {
        let m = g.model();
        assert(seq_has_row(m, INIT_TOP_ROW as int)) by {
            let i = seq_idx(m, BLUE_PLAYER_START_POS_X as int / 1000, PLAYER_START_Y as int);
        }
        assert forall|i: int| #![trigger m[i]] 0 <= i < m.len() implies
            m[i].y <= INIT_TOP_ROW by {
            lemma_found_at(m, i, m[i].x as int, m[i].y as int);
            assert(g.has(m[i].x as int, m[i].y as int));
        }
    }
    g
}

/// What one generation step at lava height `lava_y` does: an empty grid is
/// untouched; otherwise, writing `f` for the frontier, nothing happens
/// unless the frontier is within GENERATION_DISTANCE rows of the lava
/// height, and then only row `f + 1` gains blocks — unowned, within the
/// lane band — while every existing block (all on rows at or below `f`) is
/// untouched, and the frontier is `f` or `f + 1`.
pub open spec fn generator_rel(pre: Blocks, post: Blocks, lava_y: int) -> bool {
    &&& post.wf()
    &&& post.model().len() <= pre.model().len() + 7
    &&& (pre.model().len() == 0 ==> post == pre)
    &&& forall|f: int| #![auto] pre.is_frontier(f) ==> {
        if (f - GENERATION_DISTANCE) * 1000 < lava_y {
            &&& forall|x: int, y: int| y != f + 1 ==> (post.has(x, y) <==> pre.has(x, y))
            &&& forall|x: int, y: int| #![auto] pre.has(x, y) ==> {
                &&& post.val_at(x, y) == pre.val_at(x, y)
                &&& post.owner_at(x, y) == pre.owner_at(x, y)
            }
            &&& forall|x: int| #![trigger post.has(x, f + 1)]
                post.has(x, f + 1) ==>
                    LANE_MIN <= x <= LANE_MAX && post.owner_at(x, f + 1) is None
            &&& post.is_frontier(f) || post.is_frontier(f + 1)
        } else {
            post == pre
        }
    }
}

/// Extends the grid upward: when the frontier row is within
/// GENERATION_DISTANCE rows of the lava height, one new row is generated
/// just above the frontier, each lane populated with probability 7/10 and
/// a value drawn uniformly from 1..=9. Rows at or below the old frontier
/// are never regenerated; an empty grid generates nothing.
pub fn block_generator(blocks: &mut Blocks, lava_y: i64)
    requires
        old(blocks).wf(),
        -crate::COORD_LIMIT <= lava_y <= crate::COORD_LIMIT,
        forall|f: int| old(blocks).is_frontier(f) ==> f < CELL_LIMIT,
        old(blocks).model().len() + 7 <= MAX_BLOCKS,
    ensures
        generator_rel(*old(blocks), *final(blocks), lava_y as int),
{
    let f = match blocks.frontier() {
        None => {
            return;
        },
        Some(f) => f,
    };
    proof {
        let m = blocks.model();
        let i = choose|i: int| #![auto] 0 <= i < m.len() && m[i].y == f;
        assert(-CELL_LIMIT <= m[i].y <= CELL_LIMIT);
    }
    if (f - GENERATION_DISTANCE) * 1000 >= lava_y {
        return;
    }
    let ghost pre = *blocks;
    proof {
        assert forall|a: int, b: int| b > f implies !pre.has(a, b) by {
            if seq_has(pre.model(), a, b) {
                let i = seq_idx(pre.model(), a, b);
                assert(pre.model()[i].y <= f);
            }
        }
    }
    let mut x: i64 = LANE_MIN;
    while x <= LANE_MAX
        invariant
            LANE_MIN <= x <= LANE_MAX + 1,
            blocks.wf(),
            pre.wf(),
            pre.is_frontier(f as int),
            -CELL_LIMIT <= f < CELL_LIMIT,
            blocks.model().len() <= pre.model().len() + (x - LANE_MIN),
            pre.model().len() + 7 <= MAX_BLOCKS,
            forall|a: int, b: int| b != f + 1 ==> (blocks.has(a, b) <==> pre.has(a, b)),
            forall|a: int, b: int| #![auto] pre.has(a, b) ==> {
                &&& blocks.val_at(a, b) == pre.val_at(a, b)
                &&& blocks.owner_at(a, b) == pre.owner_at(a, b)
            },
            forall|a: int| #![trigger blocks.has(a, f + 1)] blocks.has(a, f + 1) ==>
                LANE_MIN <= a < x && blocks.owner_at(a, f + 1) is None,
        decreases LANE_MAX + 1 - x,
    {
        let coin = random_below(10) < 7;
        if coin {
            let value: u8 = 1 + (random_below(9) as u8);
            blocks.insert(Block { x, y: f + 1, value, owner: None });
        }
        x = x + 1;
    }
    proof {
        let m = blocks.model();
        assert(seq_has_row(m, f as int)) by {
            let i = choose|i: int| #![auto] 0 <= i < pre.model().len()
                && pre.model()[i].y == f;
            let a = pre.model()[i].x;
            lemma_found_at(pre.model(), i, a as int, f as int);
            assert(pre.has(a as int, f as int));
            assert(blocks.has(a as int, f as int));
            let j = seq_idx(m, a as int, f as int);
        }
        assert forall|i: int| #![trigger m[i]] 0 <= i < m.len() implies
            m[i].y <= f + 1 by {
            lemma_found_at(m, i, m[i].x as int, m[i].y as int);
            if m[i].y != f + 1 {
                assert(pre.has(m[i].x as int, m[i].y as int));
                let j = seq_idx(pre.model(), m[i].x as int, m[i].y as int);
            }
        }
        if seq_has_row(m, f as int + 1) {
            assert(blocks.is_frontier(f as int + 1));
        } else {
            assert forall|i: int| #![trigger m[i]] 0 <= i < m.len() implies
                m[i].y <= f by {
                if m[i].y == f + 1 {
                    assert(seq_has_row(m, f as int + 1));
                }
            }
            assert(blocks.is_frontier(f as int));
        }
    }
}

/// With pairwise distinct cells, the block found at index `i` is the block
/// the cell lookup functions speak of.
pub proof fn lemma_found_at(s: Seq<Block>, i: int, x: int, y: int)
    requires
        seq_distinct(s),
        0 <= i < s.len(),
        s[i].x == x,
        s[i].y == y,
    ensures
        seq_has(s, x, y),
        seq_idx(s, x, y) == i,
{
    assert(seq_has(s, x, y));
    let j = seq_idx(s, x, y);
    assert(0 <= j < s.len() && s[j].x == x && s[j].y == y);
    if j != i {
        assert(!(s[i].x == s[j].x && s[i].y == s[j].y));
    }
}

} // verus!
