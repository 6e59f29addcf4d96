//! The library's global laws, each proved from the contracts of the
//! functions it relates: grid cell uniqueness, idempotence and overwriting
//! of claims, exact landing positions, prune scoring of unowned blocks,
//! motion-state exclusivity, and the decision policy's priority order.

use vstd::prelude::*;
use crate::ai::{
    lemma_class_dirs_contains, spec_ai_candidates, spec_best_class, spec_class_dirs,
    spec_neighbor_class, NeighborClass,
};
use crate::block::{below_lava, claim_rel, pruned_gain, Block, Blocks};
use crate::motion::{apply_move_rel, moving_rel, spec_progress, PROGRESS_DONE};
use crate::player::{dir_dx, dir_dy, Direction, Motion, Player, PlayerBundle};

verus! {

/// Grid uniqueness: a well-formed grid never holds two blocks at the same
/// cell — any two distinct live blocks differ in their cell.
pub proof fn lemma_grid_cell_unique(g: Blocks, i: int, j: int)
    requires
        g.wf(),
        0 <= i < g.model().len(),
        0 <= j < g.model().len(),
        i != j,
    ensures
        !(g.model()[i].x == g.model()[j].x && g.model()[i].y == g.model()[j].y),
{
}

/// Claim idempotence: claiming the same cell twice for the same team leaves
/// every observable fact about the grid — occupancy, values, owners —
/// exactly as after the first claim.
pub proof fn lemma_claim_idempotent(g0: Blocks, g1: Blocks, g2: Blocks, x: int, y: int, t: Player)
    requires
        g0.wf(),
        g0.has(x, y),
        claim_rel(g0, g1, x, y, t),
        claim_rel(g1, g2, x, y, t),
    ensures
        forall|a: int, b: int| g2.has(a, b) <==> g1.has(a, b),
        g1.owner_at(x, y) == Some(t),
        g2.owner_at(x, y) == g1.owner_at(x, y),
        forall|a: int, b: int| #![auto] g1.has(a, b) ==> {
            &&& g2.owner_at(a, b) == g1.owner_at(a, b)
            &&& g2.val_at(a, b) == g1.val_at(a, b)
        },
{
}

/// Claim overwriting: a claim by another team unconditionally replaces the
/// owner of the claimed cell, whatever it was before.
pub proof fn lemma_claim_overwrite(
    g0: Blocks,
    g1: Blocks,
    g2: Blocks,
    x: int,
    y: int,
    t1: Player,
    t2: Player,
)
    requires
        g0.wf(),
        g0.has(x, y),
        claim_rel(g0, g1, x, y, t1),
        claim_rel(g1, g2, x, y, t2),
    ensures
        g1.owner_at(x, y) == Some(t1),
        g2.owner_at(x, y) == Some(t2),
{
}

/// Landing determinism: an idle player that accepts direction `d` and whose
/// hop later completes stands exactly one cell along `d` from where it
/// started — no residual sub-unit drift — and is Idle on a block, Falling
/// over a hole.
pub proof fn lemma_landing_determinism(
    p: PlayerBundle,
    q1: PlayerBundle,
    q2: PlayerBundle,
    d: Direction,
    t0: u64,
    t1: u64,
    had_block: bool,
)
    requires
        apply_move_rel(p, q1, d, t0),
        moving_rel(q1, q2, had_block, t1),
        t0 <= t1,
        (t1 - t0) * p.speed >= 1_000_000,
    ensures
        q2.x == p.x + 1000 * dir_dx(d),
        q2.y == p.y + 1000 * dir_dy(d),
        q2.motion == (if had_block {
            Motion::Idle
        } else {
            Motion::Falling
        }),
        q2.score == p.score,
{
    let m = q1.motion->Moving_0;
    assert(spec_progress(m.start_ms, t1, q1.speed) >= PROGRESS_DONE) by {
        vstd::arithmetic::div_mod::lemma_div_is_ordered(
            1_000_000,
            (t1 - t0) * p.speed,
            1000,
        );
    }
}

/// Landing determinism across partial ticks: resolver ticks that run before
/// the hop completes move only the interpolated position, never the hop's
/// endpoints or clock, so however many of them run, the completing tick
/// still lands exactly one cell along the accepted direction.
pub proof fn lemma_landing_after_partial_tick(
    p: PlayerBundle,
    q1: PlayerBundle,
    q2: PlayerBundle,
    q3: PlayerBundle,
    d: Direction,
    t0: u64,
    t_mid: u64,
    t1: u64,
    had_mid: bool,
    had_block: bool,
)
    requires
        apply_move_rel(p, q1, d, t0),
        moving_rel(q1, q2, had_mid, t_mid),
        t0 <= t_mid <= t1,
        (t_mid - t0) * p.speed < 1_000_000,
        moving_rel(q2, q3, had_block, t1),
        (t1 - t0) * p.speed >= 1_000_000,
    ensures
        q3.x == p.x + 1000 * dir_dx(d),
        q3.y == p.y + 1000 * dir_dy(d),
        q3.motion == (if had_block {
            Motion::Idle
        } else {
            Motion::Falling
        }),
{
    let m = q1.motion->Moving_0;
    assert(spec_progress(m.start_ms, t_mid, q1.speed) < PROGRESS_DONE) by {
        vstd::arithmetic::div_mod::lemma_div_is_ordered(
            (t_mid - t0) * p.speed,
            999_999,
            1000,
        );
    }
    assert(q2.motion == q1.motion && q2.speed == q1.speed);
    assert(spec_progress(m.start_ms, t1, q2.speed) >= PROGRESS_DONE) by {
        vstd::arithmetic::div_mod::lemma_div_is_ordered(
            1_000_000,
            (t1 - t0) * p.speed,
            1000,
        );
    }
}

/// Prune scoring of unowned blocks: when no block consumed by the prune is
/// owned by team `t`, the prune credits `t` nothing. In particular an
/// unowned pruned block changes no score.
pub proof fn lemma_unowned_prune_no_score(s: Seq<Block>, t: Player, lava_y: int)
    requires
        forall|i: int| #![trigger s[i]] 0 <= i < s.len()
            && below_lava(s[i].y as int, lava_y) ==> s[i].owner != Some(t),
    ensures
        pruned_gain(s, t, lava_y) == 0,
    decreases s.len(),
{
    if s.len() > 0 {
        lemma_unowned_prune_no_score(s.drop_last(), t, lava_y);
    }
}

/// Prune scoring of a single owned block: when exactly one lava-consumed
/// block is owned by team `t`, the prune credits `t` exactly that block's
/// value — once, and nothing else.
pub proof fn lemma_single_owned_prune_credit(s: Seq<Block>, t: Player, lava_y: int, i: int)
    requires
        0 <= i < s.len(),
        below_lava(s[i].y as int, lava_y),
        s[i].owner == Some(t),
        forall|j: int| #![trigger s[j]] 0 <= j < s.len() && j != i
            && below_lava(s[j].y as int, lava_y) ==> s[j].owner != Some(t),
    ensures
        pruned_gain(s, t, lava_y) == s[i].value,
    decreases s.len(),
{
    if i == s.len() - 1 {
        lemma_unowned_prune_no_score(s.drop_last(), t, lava_y);
    } else {
        lemma_single_owned_prune_credit(s.drop_last(), t, lava_y, i);
    }
}

/// Motion-state exclusivity: a player is always in exactly one of Idle,
/// Moving, Falling and Dying — the states are mutually exclusive and
/// jointly exhaustive by construction.
pub proof fn lemma_motion_exclusive(m: Motion)
    ensures
        1int == (if m is Idle { 1int } else { 0int })
            + (if m is Moving { 1int } else { 0int })
            + (if m is Falling { 1int } else { 0int })
            + (if m is Dying { 1int } else { 0int }),
{
}

/// Every candidate direction of the decision policy has the best class.
pub proof fn lemma_ai_candidates_class(g: Blocks, x: int, y: int, me: Player, k: int)
    requires
        0 <= k < spec_ai_candidates(g, x, y, me).len(),
    ensures
        spec_best_class(g, x, y, me) matches Some(c)
            && spec_neighbor_class(g, x, y, me, spec_ai_candidates(g, x, y, me)[k]) == Some(c),
{
    let best = spec_best_class(g, x, y, me);
    let c = best->Some_0;
    let s = spec_class_dirs(g, x, y, me, c);
    let l1: int = if spec_neighbor_class(g, x, y, me, Direction::Right) == Some(c) {
        1
    } else {
        0
    };
    let l2: int = if spec_neighbor_class(g, x, y, me, Direction::Left) == Some(c) {
        1
    } else {
        0
    };
    let l3: int = if spec_neighbor_class(g, x, y, me, Direction::Up) == Some(c) {
        1
    } else {
        0
    };
    if k < l1 {
        assert(s[k] == Direction::Right);
    } else if k < l1 + l2 {
        assert(s[k] == Direction::Left);
    } else if k < l1 + l2 + l3 {
        assert(s[k] == Direction::Up);
    } else {
        assert(s[k] == Direction::Down);
    }
}

/// Decision-policy priority: when any neighbor block is enemy-owned, every
/// direction the policy can pick is towards an enemy-owned block — never
/// towards an own-owned one while an enemy neighbor exists.
pub proof fn lemma_ai_priority(g: Blocks, x: int, y: int, me: Player, e: Direction, d: Direction)
    requires
        spec_neighbor_class(g, x, y, me, e) == Some(NeighborClass::Enemy),
        spec_ai_candidates(g, x, y, me).contains(d),
    ensures
        spec_neighbor_class(g, x, y, me, d) == Some(NeighborClass::Enemy),
{
    lemma_class_dirs_contains(g, x, y, me, NeighborClass::Enemy, e);
    let k = choose|k: int| 0 <= k < spec_ai_candidates(g, x, y, me).len()
        && spec_ai_candidates(g, x, y, me)[k] == d;
    lemma_ai_candidates_class(g, x, y, me, k);
}

} // verus!
