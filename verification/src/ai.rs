//! The decision policy of the machine-steered player: classify the four
//! orthogonal neighbor cells of the player's logical cell by ownership,
//! then pick uniformly at random within the best non-empty class, in strict
//! priority order enemy-owned, then unowned, then own-owned. Neighbor cells
//! without a block are never candidates: the policy does not step into
//! holes on purpose, and issues no move when no neighbor has a block.

use vstd::prelude::*;
use crate::COORD_LIMIT;
use crate::block::Blocks;
use crate::motion::{apply_move, apply_move_rel};
use crate::player::{
    dir_dx, dir_dy, Direction, Motion, Player, PlayerBundle,
    player_translation_to_position,
};
use crate::rng::random_below;

verus! {

/// How a neighbor block relates to the deciding player.
#[derive(Clone, Copy, Debug, PartialEq, Eq, Structural)]
pub enum NeighborClass {
    Enemy,
    Unowned,
    Own,
}

/// The class of the neighbor cell one step along `d` from `(x, y)`,
/// relative to team `me`; nothing when that cell holds no block.
pub open spec fn spec_neighbor_class(
    g: Blocks,
    x: int,
    y: int,
    me: Player,
    d: Direction,
) -> Option<NeighborClass> {
    let nx = x + dir_dx(d);
    let ny = y + dir_dy(d);
    if g.has(nx, ny) {
        match g.owner_at(nx, ny) {
            Some(o) => if o == me {
                Some(NeighborClass::Own)
            } else {
                Some(NeighborClass::Enemy)
            },
            None => Some(NeighborClass::Unowned),
        }
    } else {
        None
    }
}

/// The neighbor directions of class `c`, in the fixed probe order right,
/// left, up, down.
pub open spec fn spec_class_dirs(
    g: Blocks,
    x: int,
    y: int,
    me: Player,
    c: NeighborClass,
) -> Seq<Direction> {
    (if spec_neighbor_class(g, x, y, me, Direction::Right) == Some(c) {
        seq![Direction::Right]
    } else {
        Seq::empty()
    }) + (if spec_neighbor_class(g, x, y, me, Direction::Left) == Some(c) {
        seq![Direction::Left]
    } else {
        Seq::empty()
    }) + (if spec_neighbor_class(g, x, y, me, Direction::Up) == Some(c) {
        seq![Direction::Up]
    } else {
        Seq::empty()
    }) + (if spec_neighbor_class(g, x, y, me, Direction::Down) == Some(c) {
        seq![Direction::Down]
    } else {
        Seq::empty()
    })
}

/// The best class present among the four neighbors, in priority order
/// enemy over unowned over own; nothing when no neighbor has a block.
pub open spec fn spec_best_class(g: Blocks, x: int, y: int, me: Player)
    -> Option<NeighborClass> {
    if spec_class_dirs(g, x, y, me, NeighborClass::Enemy).len() > 0 {
        Some(NeighborClass::Enemy)
    } else if spec_class_dirs(g, x, y, me, NeighborClass::Unowned).len() > 0 {
        Some(NeighborClass::Unowned)
    } else if spec_class_dirs(g, x, y, me, NeighborClass::Own).len() > 0 {
        Some(NeighborClass::Own)
    } else {
        None
    }
}

/// The candidate directions the policy picks from: the directions of the
/// best class, or none at all.
pub open spec fn spec_ai_candidates(g: Blocks, x: int, y: int, me: Player) -> Seq<Direction> {
    match spec_best_class(g, x, y, me) {
        Some(c) => spec_class_dirs(g, x, y, me, c),
        None => Seq::empty(),
    }
}

/// Exec mirror of `spec_neighbor_class`.
fn neighbor_class(g: &Blocks, x: i64, y: i64, me: Player, d: Direction)
    -> (r: Option<NeighborClass>)
    requires
        g.wf(),
        -COORD_LIMIT + 1000 <= x <= COORD_LIMIT - 1000,
        -COORD_LIMIT + 1000 <= y <= COORD_LIMIT - 1000,
    ensures
        r == spec_neighbor_class(*g, x as int, y as int, me, d),
{
    let (dx, dy): (i64, i64) = match d {
        Direction::Right => (1, 0),
        Direction::Left => (-1, 0),
        Direction::Up => (0, 1),
        Direction::Down => (0, -1),
    };
    match g.get(x + dx, y + dy) {
        Some(b) => match b.owner {
            Some(o) => if o == me {
                Some(NeighborClass::Own)
            } else {
                Some(NeighborClass::Enemy)
            },
            None => Some(NeighborClass::Unowned),
        },
        None => None,
    }
}

/// A direction whose neighbor has class `c` is among that class's
/// directions.
pub proof fn lemma_class_dirs_contains(g: Blocks, x: int, y: int, me: Player, c: NeighborClass, d: Direction)
    requires
        spec_neighbor_class(g, x, y, me, d) == Some(c),
    ensures
        spec_class_dirs(g, x, y, me, c).contains(d),
{
    let s = spec_class_dirs(g, x, y, me, c);
    match d {
        Direction::Right => {
            assert(s[0] == d);
        },
        Direction::Left => {
            let before: int = if spec_neighbor_class(g, x, y, me, Direction::Right) == Some(c) {
                1
            } else {
                0
            };
            assert(s[before] == d);
        },
        Direction::Up => {
            let b1: int = if spec_neighbor_class(g, x, y, me, Direction::Right) == Some(c) {
                1
            } else {
                0
            };
            let b2: int = if spec_neighbor_class(g, x, y, me, Direction::Left) == Some(c) {
                1
            } else {
                0
            };
            assert(s[b1 + b2] == d);
        },
        Direction::Down => {
            let b1: int = if spec_neighbor_class(g, x, y, me, Direction::Right) == Some(c) {
                1
            } else {
                0
            };
            let b2: int = if spec_neighbor_class(g, x, y, me, Direction::Left) == Some(c) {
                1
            } else {
                0
            };
            let b3: int = if spec_neighbor_class(g, x, y, me, Direction::Up) == Some(c) {
                1
            } else {
                0
            };
            assert(s[b1 + b2 + b3] == d);
        },
    }
}

/// A class with no direction among the four neighbors has an empty
/// direction list.
pub proof fn lemma_class_dirs_empty(g: Blocks, x: int, y: int, me: Player, c: NeighborClass)
    requires
        spec_neighbor_class(g, x, y, me, Direction::Right) != Some(c),
        spec_neighbor_class(g, x, y, me, Direction::Left) != Some(c),
        spec_neighbor_class(g, x, y, me, Direction::Up) != Some(c),
        spec_neighbor_class(g, x, y, me, Direction::Down) != Some(c),
    ensures
        spec_class_dirs(g, x, y, me, c).len() == 0,
{
}

/// Selects the machine player's next movement direction: a uniformly
/// random direction among the best-class neighbors, or no move at all when
/// no neighbor cell holds a block.
#[verifier::rlimit(100)]
#[verifier::spinoff_prover]
pub fn get_ai_direction(g: &Blocks, x: i64, y: i64, me: Player) -> (r: Option<Direction>)
    requires
        g.wf(),
        -COORD_LIMIT + 1000 <= x <= COORD_LIMIT - 1000,
        -COORD_LIMIT + 1000 <= y <= COORD_LIMIT - 1000,
    ensures
        r is Some <==> spec_best_class(*g, x as int, y as int, me) is Some,
        match r {
            Some(d) => {
                &&& spec_neighbor_class(*g, x as int, y as int, me, d)
                    == spec_best_class(*g, x as int, y as int, me)
                &&& spec_ai_candidates(*g, x as int, y as int, me).contains(d)
            },
            None => true,
        },
{
    let ghost gi = *g;
    let ghost xi = x as int;
    let ghost yi = y as int;
    let mut enemy: Vec<Direction> = Vec::new();
    let mut unowned: Vec<Direction> = Vec::new();
    let mut own: Vec<Direction> = Vec::new();
    let c_r = neighbor_class(g, x, y, me, Direction::Right);
    match c_r {
        Some(NeighborClass::Enemy) => enemy.push(Direction::Right),
        Some(NeighborClass::Unowned) => unowned.push(Direction::Right),
        Some(NeighborClass::Own) => own.push(Direction::Right),
        None => {},
    }
    let c_l = neighbor_class(g, x, y, me, Direction::Left);
    match c_l {
        Some(NeighborClass::Enemy) => enemy.push(Direction::Left),
        Some(NeighborClass::Unowned) => unowned.push(Direction::Left),
        Some(NeighborClass::Own) => own.push(Direction::Left),
        None => {},
    }
    let c_u = neighbor_class(g, x, y, me, Direction::Up);
    match c_u {
        Some(NeighborClass::Enemy) => enemy.push(Direction::Up),
        Some(NeighborClass::Unowned) => unowned.push(Direction::Up),
        Some(NeighborClass::Own) => own.push(Direction::Up),
        None => {},
    }
    let c_d = neighbor_class(g, x, y, me, Direction::Down);
    match c_d {
        Some(NeighborClass::Enemy) => enemy.push(Direction::Down),
        Some(NeighborClass::Unowned) => unowned.push(Direction::Down),
        Some(NeighborClass::Own) => own.push(Direction::Down),
        None => {},
    }
    proof {
        assert forall|k: int| 0 <= k < enemy@.len() implies
            spec_neighbor_class(gi, xi, yi, me, #[trigger] enemy@[k])
                == Some(NeighborClass::Enemy) by {}
        assert forall|k: int| 0 <= k < unowned@.len() implies
            spec_neighbor_class(gi, xi, yi, me, #[trigger] unowned@[k])
                == Some(NeighborClass::Unowned) by {}
        assert forall|k: int| 0 <= k < own@.len() implies
            spec_neighbor_class(gi, xi, yi, me, #[trigger] own@[k])
                == Some(NeighborClass::Own) by {}
        if enemy@.len() == 0 {
            lemma_class_dirs_empty(gi, xi, yi, me, NeighborClass::Enemy);
        }
        if unowned@.len() == 0 {
            lemma_class_dirs_empty(gi, xi, yi, me, NeighborClass::Unowned);
        }
        if own@.len() == 0 {
            lemma_class_dirs_empty(gi, xi, yi, me, NeighborClass::Own);
        }
    }
    let chosen: &Vec<Direction> = if enemy.len() > 0 {
        &enemy
    } else if unowned.len() > 0 {
        &unowned
    } else {
        &own
    };
    if chosen.len() == 0 {
        proof {
            assert(spec_best_class(gi, xi, yi, me) is None);
        }
        return None;
    }
    let pick = random_below(chosen.len() as u64) as usize;
    let d = chosen[pick];
    proof {
        let best = spec_best_class(gi, xi, yi, me);
        assert(spec_neighbor_class(gi, xi, yi, me, d) == best);
        lemma_class_dirs_contains(gi, xi, yi, me, best->Some_0, d);
    }
    Some(d)
}

/// What one machine decision step does: an idle player begins a hop along
/// some candidate direction of the policy (when any neighbor cell holds a
/// block); otherwise the player is untouched.
pub open spec fn ai_control_rel(
    pre: PlayerBundle,
    post: PlayerBundle,
    blocks: Blocks,
    now_ms: u64,
) -> bool {
    if pre.motion is Idle {
        let cell = pre.spec_cell();
        if spec_best_class(blocks, cell.0, cell.1, pre.player) is Some {
            exists|d: Direction|
                #![auto]
                spec_ai_candidates(blocks, cell.0, cell.1, pre.player).contains(d)
                    && apply_move_rel(pre, post, d, now_ms)
        } else {
            post == pre
        }
    } else {
        post == pre
    }
}

/// One decision tick for the machine-steered player: when idle, derive the
/// logical cell from the continuous position (by the shared rounding
/// rule), ask the policy for a direction, and begin the move; when the
/// policy yields no direction, or the player is not idle, nothing changes.
pub fn ai_control(p: &mut PlayerBundle, blocks: &Blocks, now_ms: u64)
    requires
        old(p).wf(),
        blocks.wf(),
        -COORD_LIMIT + 1000 <= old(p).x <= COORD_LIMIT - 1000,
        -COORD_LIMIT + 1000 <= old(p).y <= COORD_LIMIT - 1000,
    ensures
        final(p).wf(),
        ai_control_rel(*old(p), *final(p), *blocks, now_ms),
{
    let idle = match p.motion {
        Motion::Idle => true,
        _ => false,
    };
    if !idle {
        return;
    }
    let (cx, cy) = player_translation_to_position(p.x, p.y);
    proof {
        crate::numeric::lemma_round_range(p.x as int);
        crate::numeric::lemma_round_range(p.y as int - 500);
    }
    match get_ai_direction(blocks, cx, cy, p.player) {
        Some(d) => {
            apply_move(p, d, now_ms);
        },
        None => {},
    }
}

} // verus!
