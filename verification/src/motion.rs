//! The movement resolver and the elimination/respawn state machine: turning
//! a directional intent into a timed one-cell interpolation, resolving the
//! landing (claim the block, or start falling), integrating falls, entering
//! Dying on lava contact, and respawning onto the top row when the dying
//! timer expires.

use vstd::prelude::*;
use crate::COORD_LIMIT;
use crate::block::{claim_rel, seq_idx, Blocks, CELL_LIMIT};
use crate::numeric::{ease_cubic, lerp_unit, spec_ease_cubic, spec_lerp_unit, spec_round_milli};
use crate::player::{
    dir_dx, dir_dy, spec_team_offset, team_offset, Direction, Motion, Moving, Player,
    PlayerBundle,
};
use crate::player::player_translation_to_position;
use crate::rng::random_below;

verus! {

/// Falling speed: milli-units lost per millisecond (five units per second).
pub const FALL_SPEED: i64 = 5;

/// How long a player stays in Dying before respawning, in milliseconds.
pub const DYING_DURATION_MS: u64 = 2000;

/// Interpolations complete at this progress value (fixed-point one).
pub const PROGRESS_DONE: i64 = 1000;

/// Movement progress at time `now_ms` of a hop started at `start_ms` with
/// the given speed (milli-progress per second).
pub open spec fn spec_progress(start_ms: u64, now_ms: u64, speed: i64) -> int {
    ((now_ms - start_ms) * speed) / 1000
}

/// What accepting direction `d` at time `now_ms` does to an idle player:
/// the position is unchanged and a one-cell hop towards `d` begins.
pub open spec fn apply_move_rel(
    pre: PlayerBundle,
    post: PlayerBundle,
    d: Direction,
    now_ms: u64,
) -> bool {
    &&& post.player == pre.player
    &&& post.speed == pre.speed
    &&& post.score == pre.score
    &&& post.x == pre.x
    &&& post.y == pre.y
    &&& post.motion matches Motion::Moving(m) && {
        &&& m.start_ms == now_ms
        &&& m.source_x == pre.x
        &&& m.source_y == pre.y
        &&& m.target_x == pre.x + 1000 * dir_dx(d)
        &&& m.target_y == pre.y + 1000 * dir_dy(d)
    }
}

/// What one resolver tick at time `now_ms` does to a moving player. While
/// progress is below one, the position follows the cubic-eased
/// interpolation from source to target; at or past one, the position snaps
/// exactly to the target and the player lands: Idle when the target cell
/// held a block (`had_block`), Falling otherwise.
pub open spec fn moving_rel(
    pre: PlayerBundle,
    post: PlayerBundle,
    had_block: bool,
    now_ms: u64,
) -> bool {
    match pre.motion {
        Motion::Moving(m) => {
            let progress = spec_progress(m.start_ms, now_ms, pre.speed);
            &&& post.player == pre.player
            &&& post.speed == pre.speed
            &&& post.score == pre.score
            &&& if progress >= PROGRESS_DONE {
                &&& post.x == m.target_x
                &&& post.y == m.target_y
                &&& post.motion == (if had_block {
                    Motion::Idle
                } else {
                    Motion::Falling
                })
            } else {
                &&& post.x == spec_lerp_unit(
                    m.source_x as int,
                    m.target_x as int,
                    spec_ease_cubic(progress),
                )
                &&& post.y == spec_lerp_unit(
                    m.source_y as int,
                    m.target_y as int,
                    spec_ease_cubic(progress),
                )
                &&& post.motion == pre.motion
            }
        },
        _ => false,
    }
}

/// The grid cell a completed hop lands on: the cell derived from the
/// movement target.
pub open spec fn spec_landing_cell(m: Moving) -> (int, int) {
    (spec_round_milli(m.target_x as int), spec_round_milli(m.target_y as int - 500))
}

/// What one key-control step does: an idle player accepts the intent the
/// pressed keys yield (if any) and begins the hop; any other player, or no
/// intent, leaves the player untouched.
pub open spec fn key_control_rel(
    pre: PlayerBundle,
    post: PlayerBundle,
    right: bool,
    left: bool,
    up: bool,
    down: bool,
    now_ms: u64,
) -> bool {
    match spec_dir_from_keys(right, left, up, down) {
        Some(d) => {
            if pre.motion is Idle {
                apply_move_rel(pre, post, d, now_ms)
            } else {
                post == pre
            }
        },
        None => post == pre,
    }
}

/// What one resolver step does to the player and the grid together: a
/// moving player follows `moving_rel`, and exactly when its hop completes
/// on an occupied cell the grid records the claim; a player in any other
/// state leaves both untouched.
pub open spec fn moving_step_rel(
    pre_p: PlayerBundle,
    post_p: PlayerBundle,
    pre_b: Blocks,
    post_b: Blocks,
    now_ms: u64,
) -> bool {
    match pre_p.motion {
        Motion::Moving(m) => {
            let progress = spec_progress(m.start_ms, now_ms, pre_p.speed);
            let cell = spec_landing_cell(m);
            &&& post_b.wf()
            &&& moving_rel(pre_p, post_p, pre_b.has(cell.0, cell.1), now_ms)
            &&& if progress >= PROGRESS_DONE && pre_b.has(cell.0, cell.1) {
                claim_rel(pre_b, post_b, cell.0, cell.1, pre_p.player)
            } else {
                post_b == pre_b
            }
        },
        _ => post_p == pre_p && post_b == pre_b,
    }
}

/// What one falling step does: a falling player loses exactly the fall
/// speed times the elapsed time; any other player is untouched.
pub open spec fn falling_rel(pre: PlayerBundle, post: PlayerBundle, dt_ms: u32) -> bool {
    if pre.motion is Falling {
        post == (PlayerBundle { y: post.y, ..pre }) && post.y == pre.y - FALL_SPEED * dt_ms
    } else {
        post == pre
    }
}

/// What one elimination check does: a player below the lava height that is
/// not already Dying enters Dying with the current time; everyone else is
/// untouched.
pub open spec fn lava_contact_rel(
    pre: PlayerBundle,
    post: PlayerBundle,
    lava_y: int,
    now_ms: u64,
) -> bool {
    if !(pre.motion is Dying) && pre.y < lava_y {
        post == (PlayerBundle { motion: Motion::Dying { start_ms: now_ms }, ..pre })
    } else {
        post == pre
    }
}

/// What one dying-timer step does: once the timer has run longer than the
/// fixed duration and the grid is non-empty, the player stands idle on some
/// top-row cell at its team offset; otherwise (timer running, or no block
/// anywhere to respawn on) the player is untouched.
pub open spec fn dying_rel(
    pre: PlayerBundle,
    post: PlayerBundle,
    blocks: Blocks,
    now_ms: u64,
) -> bool {
    match pre.motion {
        Motion::Dying { start_ms } => {
            if now_ms - start_ms > DYING_DURATION_MS && blocks.model().len() > 0 {
                &&& post.motion == Motion::Idle
                &&& post.player == pre.player
                &&& post.speed == pre.speed
                &&& post.score == pre.score
                &&& exists|f: int, cx: int|
                    #![auto]
                    blocks.is_frontier(f) && blocks.has(cx, f)
                        && post.x == 1000 * cx + spec_team_offset(pre.player)
                        && post.y == 1000 * f + 500
            } else {
                post == pre
            }
        },
        _ => post == pre,
    }
}

/// Accepts a directional intent for an idle player: records source, target
/// (one cell along the direction) and the start timestamp, and switches
/// the player to Moving.
pub fn apply_move(p: &mut PlayerBundle, direction: Direction, now_ms: u64)
    requires
        old(p).wf(),
        old(p).motion is Idle,
        -COORD_LIMIT + 1000 <= old(p).x <= COORD_LIMIT - 1000,
        -COORD_LIMIT + 1000 <= old(p).y <= COORD_LIMIT - 1000,
    ensures
        final(p).wf(),
        apply_move_rel(*old(p), *final(p), direction, now_ms),
{
    let (dx, dy): (i64, i64) = match direction {
        Direction::Right => (1000, 0),
        Direction::Left => (-1000, 0),
        Direction::Up => (0, 1000),
        Direction::Down => (0, -1000),
    };
    p.motion = Motion::Moving(Moving {
        start_ms: now_ms,
        source_x: p.x,
        source_y: p.y,
        target_x: p.x + dx,
        target_y: p.y + dy,
    });
}

/// The key-to-intent rule shared by both key layouts: right wins over
/// left, left over up, up over down; nothing pressed means no intent.
pub open spec fn spec_dir_from_keys(right: bool, left: bool, up: bool, down: bool)
    -> Option<Direction> {
    if right {
        Some(Direction::Right)
    } else if left {
        Some(Direction::Left)
    } else if up {
        Some(Direction::Up)
    } else if down {
        Some(Direction::Down)
    } else {
        None
    }
}

/// Exec mirror of `spec_dir_from_keys`.
pub fn direction_from_keys(right: bool, left: bool, up: bool, down: bool)
    -> (r: Option<Direction>)
    ensures
        r == spec_dir_from_keys(right, left, up, down),
{
    if right {
        Some(Direction::Right)
    } else if left {
        Some(Direction::Left)
    } else if up {
        Some(Direction::Up)
    } else if down {
        Some(Direction::Down)
    } else {
        None
    }
}

/// Key control for an idle player: the pressed-key state is turned into a
/// directional intent and the move begins. Players in any other motion
/// state ignore keys.
pub fn key_control(
    p: &mut PlayerBundle,
    right: bool,
    left: bool,
    up: bool,
    down: bool,
    now_ms: u64,
)
    requires
        old(p).wf(),
        -COORD_LIMIT + 1000 <= old(p).x <= COORD_LIMIT - 1000,
        -COORD_LIMIT + 1000 <= old(p).y <= COORD_LIMIT - 1000,
    ensures
        final(p).wf(),
        key_control_rel(*old(p), *final(p), right, left, up, down, now_ms),
{
    let idle = match p.motion {
        Motion::Idle => true,
        _ => false,
    };
    if idle {
        match direction_from_keys(right, left, up, down) {
            Some(d) => {
                apply_move(p, d, now_ms);
            },
            None => {},
        }
    }
}

/// One resolver tick for a moving player. Before completion the position
/// follows the eased interpolation; on completion it snaps exactly to the
/// target, and in the same step the landing is resolved: the target cell's
/// block is claimed for the player's team and the player is Idle again, or
/// the player starts Falling when the cell is vacant. Claiming and the
/// state change are atomic: no state in between is observable.
pub fn moving(p: &mut PlayerBundle, blocks: &mut Blocks, now_ms: u64)
    requires
        old(p).wf(),
        old(blocks).wf(),
        old(p).motion matches Motion::Moving(m) && m.start_ms <= now_ms,
    ensures
        final(p).wf(),
        final(blocks).wf(),
        moving_step_rel(*old(p), *final(p), *old(blocks), *final(blocks), now_ms),
        match old(p).motion {
            Motion::Moving(m) => {
                &&& m.source_x - 1000 <= final(p).x <= m.source_x + 1000
                &&& m.source_y - 1000 <= final(p).y <= m.source_y + 1000
            },
            _ => false,
        },
{
    let m = match p.motion {
        Motion::Moving(m) => m,
        _ => {
            proof {
                assert(false);
            }
            Moving { start_ms: 0, source_x: 0, source_y: 0, target_x: 0, target_y: 0 }
        },
    };
    let elapsed: u64 = now_ms - m.start_ms;
    let capped: u64;
    if elapsed >= 1_000_000_000 {
        proof {
            assert(elapsed * p.speed >= elapsed * 1) by (nonlinear_arith)
                requires p.speed >= 1, elapsed >= 0;
            vstd::arithmetic::div_mod::lemma_div_is_ordered(
                elapsed as int,
                (elapsed * p.speed) as int,
                1000,
            );
            assert(elapsed as int / 1000 >= 1000) by {
                vstd::arithmetic::div_mod::lemma_div_is_ordered(
                    1_000_000_000,
                    elapsed as int,
                    1000,
                );
            }
        }
        capped = 1000;
    } else {
        proof {
            assert((elapsed as int) * (p.speed as int) <= 1_000_000_000 * 1_000_000)
                by (nonlinear_arith)
                requires elapsed <= 1_000_000_000, 0 <= p.speed <= 1_000_000;
        }
        let q = (elapsed * (p.speed as u64)) / 1000;
        capped = if q >= 1000 { 1000 } else { q };
    }
    if capped >= 1000 {
        p.x = m.target_x;
        p.y = m.target_y;
        let (cx, cy) = player_translation_to_position(p.x, p.y);
        match blocks.get(cx, cy) {
            Some(_) => {
                blocks.claim(cx, cy, p.player);
                p.motion = Motion::Idle;
            },
            None => {
                p.motion = Motion::Falling;
            },
        }
    } else {
        let s = ease_cubic(capped as i64);
        p.x = lerp_unit(m.source_x, m.target_x, s);
        p.y = lerp_unit(m.source_y, m.target_y, s);
    }
}

/// Falling integration: a falling player loses height at the fixed fall
/// speed; there is no escape from Falling except lava contact.
pub fn falling(p: &mut PlayerBundle, dt_ms: u32)
    requires
        old(p).wf(),
        old(p).motion is Falling ==>
            old(p).y - FALL_SPEED * dt_ms >= -COORD_LIMIT,
    ensures
        final(p).wf(),
        falling_rel(*old(p), *final(p), dt_ms),
{
    match p.motion {
        Motion::Falling => {
            p.y = p.y - FALL_SPEED * (dt_ms as i64);
        },
        _ => {},
    }
}

/// The elimination check: the instant a player's height is below the lava
/// height, it enters Dying (cancelling any other state) with the current
/// time as the timer start; a player already Dying is left alone.
pub fn lava_contact(p: &mut PlayerBundle, lava_y: i64, now_ms: u64)
    requires
        old(p).wf(),
    ensures
        final(p).wf(),
        lava_contact_rel(*old(p), *final(p), lava_y as int, now_ms),
{
    let is_dying = match p.motion {
        Motion::Dying { .. } => true,
        _ => false,
    };
    if !is_dying && p.y < lava_y {
        p.motion = Motion::Dying { start_ms: now_ms };
    }
}

/// Respawn: once the dying timer has run longer than the fixed duration,
/// the player is teleported to a uniformly random cell of the current top
/// row, at its team's lateral offset and half a unit above the row, and is
/// Idle again. When the grid holds no block at all there is no respawn
/// cell: the player stays Dying and the check repeats next tick (the
/// documented fallback for the otherwise unspecified empty-top-row case).
pub fn dying(p: &mut PlayerBundle, blocks: &Blocks, now_ms: u64)
    requires
        old(p).wf(),
        blocks.wf(),
        old(p).motion matches Motion::Dying { start_ms } ==> start_ms <= now_ms,
    ensures
        final(p).wf(),
        dying_rel(*old(p), *final(p), *blocks, now_ms),
{
    let start_ms = match p.motion {
        Motion::Dying { start_ms } => start_ms,
        _ => {
            return;
        },
    };
    if now_ms - start_ms > DYING_DURATION_MS {
        match blocks.frontier() {
            Some(f) => {
                let cells = blocks.top_row(f);
                let pick = random_below(cells.len() as u64) as usize;
                let (cx, cy) = cells[pick];
                proof {
                    assert(blocks.has(cx as int, f as int));
                    let i = seq_idx(blocks.model(), cx as int, f as int);
                    assert(-CELL_LIMIT <= blocks.model()[i].x <= CELL_LIMIT);
                    assert(-CELL_LIMIT <= blocks.model()[i].y <= CELL_LIMIT);
                }
                let off = team_offset(p.player);
                p.x = cx * 1000 + off;
                p.y = cy * 1000 + 500;
                p.motion = Motion::Idle;
            },
            None => {},
        }
    }
}

} // verus!
