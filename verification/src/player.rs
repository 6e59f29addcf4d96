//! Player data: the two fixed teams, the mutually exclusive motion states,
//! and the player bundle that carries position, speed and score. The motion
//! state is a single enum, so a player is in exactly one of Idle, Moving,
//! Falling or Dying by construction.

use vstd::prelude::*;
use crate::{COORD_LIMIT, MILLI};
use crate::numeric::{round_milli, spec_round_milli};

verus! {

/// Team identity; exactly two players exist, one per team.
/// Blue is steered by keys, Red by the local decision policy.
#[derive(Clone, Copy, Debug, PartialEq, Eq, Structural)]
pub enum Player {
    Red,
    Blue,
}

/// A discrete movement intent: one grid cell along an axis.
#[derive(Clone, Copy, Debug, PartialEq, Eq, Structural)]
pub enum Direction {
    Right,
    Left,
    Up,
    Down,
}

/// An in-flight movement: the interpolation endpoints in milli-units and
/// the millisecond timestamp at which the hop started.
#[derive(Clone, Copy, Debug, PartialEq, Eq, Structural)]
pub struct Moving {
    pub start_ms: u64,
    pub source_x: i64,
    pub source_y: i64,
    pub target_x: i64,
    pub target_y: i64,
}

/// The motion state machine: a player is always in exactly one state.
#[derive(Clone, Copy, Debug, PartialEq, Eq, Structural)]
pub enum Motion {
    Idle,
    Moving(Moving),
    Falling,
    Dying { start_ms: u64 },
}

/// One player: team, interpolation speed (milli-progress per second),
/// accumulated score, continuous world position in milli-units, and the
/// current motion state.
#[derive(Clone, Copy, Debug, PartialEq, Eq, Structural)]
pub struct PlayerBundle {
    pub player: Player,
    pub speed: i64,
    pub score: u32,
    pub x: i64,
    pub y: i64,
    pub motion: Motion,
}

/// Both players; created once at startup and never destroyed.
#[derive(Clone, Copy, Debug, PartialEq, Eq, Structural)]
pub struct Players {
    pub blue: PlayerBundle,
    pub red: PlayerBundle,
}

/// Largest interpolation speed, so that progress arithmetic stays in range.
pub const MAX_SPEED: i64 = 1_000_000;

/// Row of the forced starting cells, and the players' starting row.
pub const PLAYER_START_Y: i64 = 3;

pub const BLUE_PLAYER_START_POS_X: i64 = 1000;

pub const BLUE_PLAYER_X_OFFSET: i64 = 200;

pub const RED_PLAYER_START_POS_X: i64 = -1000;

pub const RED_PLAYER_X_OFFSET: i64 = -200;

/// Interpolation speed both players start with: one cell per half second.
pub const PLAYER_SPEED: i64 = 2000;

/// Lateral unit step of a direction, in whole cells.
pub open spec fn dir_dx(d: Direction) -> int {
    match d {
        Direction::Right => 1,
        Direction::Left => -1,
        Direction::Up => 0,
        Direction::Down => 0,
    }
}

/// Vertical unit step of a direction, in whole cells.
pub open spec fn dir_dy(d: Direction) -> int {
    match d {
        Direction::Right => 0,
        Direction::Left => 0,
        Direction::Up => 1,
        Direction::Down => -1,
    }
}

/// The per-team lateral respawn offset, keeping the two players from
/// overlapping on one cell.
pub open spec fn spec_team_offset(t: Player) -> int {
    match t {
        Player::Blue => BLUE_PLAYER_X_OFFSET as int,
        Player::Red => RED_PLAYER_X_OFFSET as int,
    }
}

/// Exec mirror of `spec_team_offset`.
pub fn team_offset(t: Player) -> (r: i64)
    ensures
        r == spec_team_offset(t),
{
    match t {
        Player::Blue => BLUE_PLAYER_X_OFFSET,
        Player::Red => RED_PLAYER_X_OFFSET,
    }
}

impl PlayerBundle {
    /// Well-formedness: speed and coordinates are in fixed-point range, and
    /// an in-flight movement always spans exactly one cell along one axis.
    pub open spec fn wf(self) -> bool {
        &&& 1 <= self.speed <= MAX_SPEED
        &&& -COORD_LIMIT <= self.x <= COORD_LIMIT
        &&& -COORD_LIMIT <= self.y <= COORD_LIMIT
        &&& match self.motion {
            Motion::Moving(m) => {
                &&& -COORD_LIMIT + 1000 <= m.source_x <= COORD_LIMIT - 1000
                &&& -COORD_LIMIT + 1000 <= m.source_y <= COORD_LIMIT - 1000
                &&& (m.target_x == m.source_x + 1000 && m.target_y == m.source_y)
                    || (m.target_x == m.source_x - 1000 && m.target_y == m.source_y)
                    || (m.target_x == m.source_x && m.target_y == m.source_y + 1000)
                    || (m.target_x == m.source_x && m.target_y == m.source_y - 1000)
            },
            _ => true,
        }
    }

    /// The player's logical grid cell, derived from the continuous
    /// position: lateral lane by rounding x, row by rounding y - 0.5.
    pub open spec fn spec_cell(self) -> (int, int) {
        (spec_round_milli(self.x as int), spec_round_milli(self.y as int - 500))
    }
}

impl Players {
    /// Each bundle is well-formed and carries its own team tag.
    pub open spec fn wf(self) -> bool {
        &&& self.blue.wf()
        &&& self.blue.player == Player::Blue
        &&& self.red.wf()
        &&& self.red.player == Player::Red
    }
}

/// The shared cell derivation rule: lane by rounding x, row by rounding
/// y minus half a unit, so that a player standing on a block at row r
/// (world height r + 0.5) is attributed to row r. The movement resolver
/// and the decision policy both go through this function.
pub fn player_translation_to_position(x: i64, y: i64) -> (r: (i64, i64))
    requires
        -COORD_LIMIT <= x <= COORD_LIMIT,
        -COORD_LIMIT <= y <= COORD_LIMIT,
    ensures
        r.0 == spec_round_milli(x as int),
        r.1 == spec_round_milli(y as int - 500),
{
    let cx = round_milli(x);
    let cy = round_milli(y - 500);
    (cx, cy)
}

/// The initial player state of a run: one player per team at its starting
/// lane (with its lateral offset), half a unit above the starting row,
/// idle, with no score.
pub fn players_init() -> (ps: Players)
    ensures
        ps.wf(),
        ps.blue.player == Player::Blue,
        ps.red.player == Player::Red,
        ps.blue.speed == PLAYER_SPEED && ps.red.speed == PLAYER_SPEED,
        ps.blue.score == 0 && ps.red.score == 0,
        ps.blue.motion == Motion::Idle && ps.red.motion == Motion::Idle,
        ps.blue.x == BLUE_PLAYER_START_POS_X + BLUE_PLAYER_X_OFFSET,
        ps.red.x == RED_PLAYER_START_POS_X + RED_PLAYER_X_OFFSET,
        ps.blue.y == PLAYER_START_Y * MILLI + 500,
        ps.red.y == PLAYER_START_Y * MILLI + 500,
        ps.blue.spec_cell() == ((BLUE_PLAYER_START_POS_X / MILLI) as int, PLAYER_START_Y as int),
        ps.red.spec_cell() == ((RED_PLAYER_START_POS_X / MILLI) as int, PLAYER_START_Y as int),
{
    let blue = PlayerBundle {
        player: Player::Blue,
        speed: PLAYER_SPEED,
        score: 0,
        x: BLUE_PLAYER_START_POS_X + BLUE_PLAYER_X_OFFSET,
        y: PLAYER_START_Y * MILLI + 500,
        motion: Motion::Idle,
    };
    let red = PlayerBundle {
        player: Player::Red,
        speed: PLAYER_SPEED,
        score: 0,
        x: RED_PLAYER_START_POS_X + RED_PLAYER_X_OFFSET,
        y: PLAYER_START_Y * MILLI + 500,
        motion: Motion::Idle,
    };
    Players { blue, red }
}

} // verus!
