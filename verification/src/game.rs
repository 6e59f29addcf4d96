//! The game shell and the tick pipeline: the run state machine, the lava
//! driver, and one fixed-order simulation step over the whole world. The
//! per-tick order is: lava advance, pruning, generation, key and machine
//! decisions, movement integration, falling integration, lava-contact
//! check, dying-timer check — so every check of the tick observes the same
//! tick's lava height.

use vstd::prelude::*;
use crate::COORD_LIMIT;
use crate::ai::{ai_control, ai_control_rel};
use crate::block::{
    block_generator, block_in_lava, generator_rel, lemma_keep_membership, lemma_seq_total_le,
    prune_rel, pruned_gain, seq_total, Blocks, CELL_LIMIT, MAX_BLOCKS,
};
use crate::motion::{
    dying, dying_rel, falling, falling_rel, key_control, key_control_rel, lava_contact,
    lava_contact_rel, moving, moving_step_rel,
};
use crate::player::{Motion, Player, PlayerBundle, Players};

verus! {

/// The run state: waiting for a key, running, paused, or over.
#[derive(Clone, Copy, Debug, PartialEq, Eq, Structural, Hash)]
pub enum GameState {
    Start,
    InGame,
    Pause,
    End,
}

/// The rising lava plane: a single monotone height in milli-units.
#[derive(Clone, Copy, Debug, PartialEq, Eq, Structural)]
pub struct Lava {
    pub y: i64,
}

/// While waiting (at startup or paused), any key starts or resumes the run.
pub fn waiting_for_start(state: &mut GameState, any_just_pressed: bool)
    ensures
        *final(state) == (if any_just_pressed {
            GameState::InGame
        } else {
            *old(state)
        }),
{
    if any_just_pressed {
        *state = GameState::InGame;
    }
}

/// The pause key suspends a running game.
pub fn maybe_pause(state: &mut GameState, pause_just_pressed: bool)
    ensures
        *final(state) == (if pause_just_pressed {
            GameState::Pause
        } else {
            *old(state)
        }),
{
    if pause_just_pressed {
        *state = GameState::Pause;
    }
}

/// The lava driver: the boundary plane rises at half a unit per second and
/// never sinks.
pub fn raising_lava(lava: &mut Lava, dt_ms: u32)
    requires
        -COORD_LIMIT <= old(lava).y,
        old(lava).y + dt_ms / 2 <= COORD_LIMIT,
    ensures
        final(lava).y == old(lava).y + dt_ms / 2,
        final(lava).y >= old(lava).y,
{
    lava.y = lava.y + ((dt_ms / 2) as i64);
}

/// The pressed-key state of one tick, read from the input device by the
/// caller: the human player's four direction keys, whether any key was
/// just pressed, and whether the pause key was just pressed.
#[derive(Clone, Copy, Debug, PartialEq, Eq, Structural)]
pub struct Inputs {
    pub right: bool,
    pub left: bool,
    pub up: bool,
    pub down: bool,
    pub any_just_pressed: bool,
    pub pause_just_pressed: bool,
}

/// The whole simulation state: run state, grid, the two players, lava.
pub struct World {
    pub state: GameState,
    pub blocks: Blocks,
    pub players: Players,
    pub lava: Lava,
}

/// Per-tick headroom for one player: its position (and, while moving, the
/// recorded interpolation source) is far from the fixed-point limits, and
/// its running timers started no later than the current time.
pub open spec fn spec_player_room(p: PlayerBundle, now_ms: u64) -> bool {
    &&& -COORD_LIMIT + 100_000 <= p.x <= COORD_LIMIT - 100_000
    &&& -COORD_LIMIT + 100_000 <= p.y <= COORD_LIMIT - 100_000
    &&& match p.motion {
        Motion::Moving(m) => {
            &&& m.start_ms <= now_ms
            &&& -COORD_LIMIT + 100_000 <= m.source_x <= COORD_LIMIT - 100_000
            &&& -COORD_LIMIT + 100_000 <= m.source_y <= COORD_LIMIT - 100_000
        },
        Motion::Dying { start_ms } => start_ms <= now_ms,
        _ => true,
    }
}

impl World {
    /// World invariant: the grid and both players are well-formed.
    pub open spec fn wf(self) -> bool {
        &&& self.blocks.wf()
        &&& self.players.wf()
    }

    /// Headroom for one tick: the machine limits under which the tick's
    /// fixed-point arithmetic cannot overflow. `tick_room` is its runtime
    /// mirror: a caller checks it before every tick.
    pub open spec fn spec_tick_room(self, now_ms: u64, dt_ms: u32) -> bool {
        &&& dt_ms <= 10_000
        &&& -COORD_LIMIT <= self.lava.y
        &&& self.lava.y + dt_ms / 2 <= COORD_LIMIT
        &&& spec_player_room(self.players.blue, now_ms)
        &&& spec_player_room(self.players.red, now_ms)
        &&& self.players.blue.score + seq_total(self.blocks.model()) <= u32::MAX
        &&& self.players.red.score + seq_total(self.blocks.model()) <= u32::MAX
        &&& forall|f: int| self.blocks.is_frontier(f) ==> f < CELL_LIMIT
        &&& self.blocks.model().len() + 7 <= MAX_BLOCKS
    }
}

/// Runtime check of one player's tick headroom.
fn player_room(p: &PlayerBundle, now_ms: u64) -> (r: bool)
    ensures
        r == spec_player_room(*p, now_ms),
{
    if !(-COORD_LIMIT + 100_000 <= p.x && p.x <= COORD_LIMIT - 100_000) {
        return false;
    }
    if !(-COORD_LIMIT + 100_000 <= p.y && p.y <= COORD_LIMIT - 100_000) {
        return false;
    }
    match p.motion {
        Motion::Moving(m) => {
            m.start_ms <= now_ms
                && -COORD_LIMIT + 100_000 <= m.source_x && m.source_x <= COORD_LIMIT - 100_000
                && -COORD_LIMIT + 100_000 <= m.source_y && m.source_y <= COORD_LIMIT - 100_000
        },
        Motion::Dying { start_ms } => start_ms <= now_ms,
        _ => true,
    }
}

impl World {
    /// Runtime mirror of `spec_tick_room`.
    pub fn tick_room(&self, now_ms: u64, dt_ms: u32) -> (r: bool)
        requires
            self.wf(),
        ensures
            r == self.spec_tick_room(now_ms, dt_ms),
    {
        if dt_ms > 10_000 {
            return false;
        }
        if !(-COORD_LIMIT <= self.lava.y && self.lava.y <= COORD_LIMIT - ((dt_ms / 2) as i64)) {
            return false;
        }
        if !player_room(&self.players.blue, now_ms) {
            return false;
        }
        if !player_room(&self.players.red, now_ms) {
            return false;
        }
        let total = self.blocks.total_value();
        proof {
            lemma_seq_total_le(self.blocks.model());
        }
        if !((self.players.blue.score as u64) + total <= (u32::MAX as u64)
            && (self.players.red.score as u64) + total <= (u32::MAX as u64)) {
            return false;
        }
        match self.blocks.frontier() {
            Some(f) => {
                if f >= CELL_LIMIT {
                    proof {
                        assert(self.blocks.is_frontier(f as int));
                    }
                    return false;
                }
                proof {
                    assert forall|f2: int| self.blocks.is_frontier(f2) implies f2 < CELL_LIMIT by {
                        let m = self.blocks.model();
                        let i = choose|i: int| #![auto] 0 <= i < m.len() && m[i].y == f2;
                        assert(m[i].y <= f);
                    }
                }
            },
            None => {},
        }
        if self.blocks.len() > MAX_BLOCKS - 7 {
            return false;
        }
        true
    }
}

/// The intermediate states one running tick passes through, in stage
/// order: the grid after the prune and after the generation, the grid after
/// the first (key-steered) player's landing, the players after the prune's
/// crediting, and each player after its decision, its landing, its fall and
/// its lava check. The final dying stage leads to the tick's end state.
pub struct TickTrace {
    pub blocks_pruned: Blocks,
    pub blocks_grown: Blocks,
    pub blocks_blue_landed: Blocks,
    pub players_pruned: Players,
    pub blue_decided: PlayerBundle,
    pub blue_landed: PlayerBundle,
    pub blue_fallen: PlayerBundle,
    pub blue_checked: PlayerBundle,
    pub red_decided: PlayerBundle,
    pub red_landed: PlayerBundle,
    pub red_fallen: PlayerBundle,
    pub red_checked: PlayerBundle,
}

/// The running tick as the composition of the library's stage relations
/// over the given intermediate states: lava advance, prune, generation, the
/// key decision then the machine decision, the two movement resolutions
/// (the key-steered player's landing first, so the second landing sees its
/// claim), falling, the lava-contact check against this tick's lava height,
/// and the dying timers against the final grid.
pub open spec fn spec_tick_stages(
    pre: World,
    post: World,
    t: TickTrace,
    input: Inputs,
    now_ms: u64,
    dt_ms: u32,
) -> bool {
    let lava_y = pre.lava.y + dt_ms / 2;
    &&& prune_rel(pre.blocks, t.blocks_pruned, pre.players, t.players_pruned, lava_y)
    &&& generator_rel(t.blocks_pruned, t.blocks_grown, lava_y)
    &&& key_control_rel(
        t.players_pruned.blue,
        t.blue_decided,
        input.right,
        input.left,
        input.up,
        input.down,
        now_ms,
    )
    &&& ai_control_rel(t.players_pruned.red, t.red_decided, t.blocks_grown, now_ms)
    &&& moving_step_rel(t.blue_decided, t.blue_landed, t.blocks_grown, t.blocks_blue_landed, now_ms)
    &&& moving_step_rel(t.red_decided, t.red_landed, t.blocks_blue_landed, post.blocks, now_ms)
    &&& falling_rel(t.blue_landed, t.blue_fallen, dt_ms)
    &&& falling_rel(t.red_landed, t.red_fallen, dt_ms)
    &&& lava_contact_rel(t.blue_fallen, t.blue_checked, lava_y, now_ms)
    &&& lava_contact_rel(t.red_fallen, t.red_checked, lava_y, now_ms)
    &&& dying_rel(t.blue_checked, post.players.blue, post.blocks, now_ms)
    &&& dying_rel(t.red_checked, post.players.red, post.blocks, now_ms)
}

/// What one running tick does: the lava rises by exactly half the elapsed
/// milliseconds, the pause key decides the next run state, and grid and
/// players evolve by the fixed stage chain above, through some sequence of
/// intermediate states.
pub open spec fn spec_tick_sim_rel(
    pre: World,
    post: World,
    input: Inputs,
    now_ms: u64,
    dt_ms: u32,
) -> bool {
    &&& post.lava.y == pre.lava.y + dt_ms / 2
    &&& post.state == (if input.pause_just_pressed {
        GameState::Pause
    } else {
        GameState::InGame
    })
    &&& exists|t: TickTrace| #![auto] spec_tick_stages(pre, post, t, input, now_ms, dt_ms)
}

impl World {
    /// A fresh run: the initial block band, both players idle at their
    /// starting cells, the lava at height zero, waiting for a key.
    pub fn init() -> (w: World)
        ensures
            w.wf(),
            w.state == GameState::Start,
            w.lava.y == 0,
            w.blocks.is_frontier(crate::block::INIT_TOP_ROW as int),
            w.blocks.has(
                crate::player::BLUE_PLAYER_START_POS_X / 1000,
                crate::player::PLAYER_START_Y as int,
            ),
            w.blocks.has(
                crate::player::RED_PLAYER_START_POS_X / 1000,
                crate::player::PLAYER_START_Y as int,
            ),
            forall|x: int, y: int| w.blocks.has(x, y) ==>
                crate::block::LANE_MIN <= x <= crate::block::LANE_MAX
                    && 0 <= y <= crate::block::INIT_TOP_ROW,
            forall|x: int, y: int| #![auto] w.blocks.has(x, y) ==>
                w.blocks.owner_at(x, y) is None,
            w.players.blue.motion == Motion::Idle && w.players.red.motion == Motion::Idle,
            w.players.blue.score == 0 && w.players.red.score == 0,
            w.players.blue.x == crate::player::BLUE_PLAYER_START_POS_X
                + crate::player::BLUE_PLAYER_X_OFFSET,
            w.players.red.x == crate::player::RED_PLAYER_START_POS_X
                + crate::player::RED_PLAYER_X_OFFSET,
            w.players.blue.y == crate::player::PLAYER_START_Y * crate::MILLI + 500,
            w.players.red.y == crate::player::PLAYER_START_Y * crate::MILLI + 500,
    {
        let blocks = crate::block::blocks_init();
        let players = crate::player::players_init();
        World { state: GameState::Start, blocks, players, lava: Lava { y: 0 } }
    }

    /// One simulation tick. While waiting or paused, any key (re)starts the
    /// run and nothing else moves; a finished game changes nothing. During
    /// a run the whole step satisfies `spec_tick_sim_rel`: the stages
    /// execute in the fixed order documented above, every later stage reads
    /// this tick's lava height, the world stays well-formed, the lava rises
    /// by exactly half the elapsed time, each player's score grows by
    /// exactly the value of its blocks pruned this tick, and the pause key
    /// takes effect at the end of the tick.
    #[verifier::rlimit(100)]
    #[verifier::spinoff_prover]
    pub fn tick(&mut self, input: Inputs, now_ms: u64, dt_ms: u32)
        requires
            old(self).wf(),
            old(self).spec_tick_room(now_ms, dt_ms),
        ensures
            final(self).wf(),
            match old(self).state {
                GameState::Start | GameState::Pause => {
                    &&& final(self).blocks == old(self).blocks
                    &&& final(self).players == old(self).players
                    &&& final(self).lava == old(self).lava
                    &&& final(self).state == (if input.any_just_pressed {
                        GameState::InGame
                    } else {
                        old(self).state
                    })
                },
                GameState::End => *final(self) == *old(self),
                GameState::InGame => {
                    &&& spec_tick_sim_rel(*old(self), *final(self), input, now_ms, dt_ms)
                    &&& final(self).players.blue.score == old(self).players.blue.score
                        + pruned_gain(
                            old(self).blocks.model(),
                            Player::Blue,
                            old(self).lava.y + dt_ms / 2,
                        )
                    &&& final(self).players.red.score == old(self).players.red.score
                        + pruned_gain(
                            old(self).blocks.model(),
                            Player::Red,
                            old(self).lava.y + dt_ms / 2,
                        )
                },
            },
    {
        match self.state {
            GameState::Start | GameState::Pause => {
                waiting_for_start(&mut self.state, input.any_just_pressed);
                return;
            },
            GameState::End => {
                return;
            },
            GameState::InGame => {},
        }
        // Lava advance: all later stages read this tick's height.
        raising_lava(&mut self.lava, dt_ms);
        let lava_y = self.lava.y;
        // Pruning, then generation (they act on disjoint vertical bands).
        let ghost pre_model = self.blocks.model();
        let f0 = self.blocks.frontier();
        block_in_lava(&mut self.blocks, &mut self.players, lava_y);
        proof {
            lemma_keep_membership(pre_model, lava_y as int);
            assert forall|f2: int| self.blocks.is_frontier(f2) implies f2 < CELL_LIMIT by {
                let m = self.blocks.model();
                let j = choose|j: int| #![auto] 0 <= j < m.len() && m[j].y == f2;
                let i = choose|i: int| #![auto] 0 <= i < pre_model.len() && m[j] == pre_model[i]
                    && !crate::block::below_lava(pre_model[i].y as int, lava_y as int);
                match f0 {
                    Some(fv) => {
                        assert(pre_model[i].y <= fv);
                    },
                    None => {
                        assert(pre_model.len() == 0);
                    },
                }
            }
        }
        let ghost blocks_pruned = self.blocks;
        let ghost players_pruned = self.players;
        block_generator(&mut self.blocks, lava_y);
        let ghost blocks_grown = self.blocks;
        // Input and machine decisions.
        key_control(
            &mut self.players.blue,
            input.right,
            input.left,
            input.up,
            input.down,
            now_ms,
        );
        let ghost blue_decided = self.players.blue;
        ai_control(&mut self.players.red, &self.blocks, now_ms);
        let ghost red_decided = self.players.red;
        // Movement integration and landing resolution.
        let blue_moving = match self.players.blue.motion {
            Motion::Moving(_) => true,
            _ => false,
        };
        if blue_moving {
            moving(&mut self.players.blue, &mut self.blocks, now_ms);
        }
        let ghost blue_landed = self.players.blue;
        let ghost blocks_blue_landed = self.blocks;
        let red_moving = match self.players.red.motion {
            Motion::Moving(_) => true,
            _ => false,
        };
        if red_moving {
            moving(&mut self.players.red, &mut self.blocks, now_ms);
        }
        let ghost red_landed = self.players.red;
        // Falling integration.
        falling(&mut self.players.blue, dt_ms);
        falling(&mut self.players.red, dt_ms);
        let ghost blue_fallen = self.players.blue;
        let ghost red_fallen = self.players.red;
        // Lava contact: observes the same tick's lava height.
        lava_contact(&mut self.players.blue, lava_y, now_ms);
        lava_contact(&mut self.players.red, lava_y, now_ms);
        let ghost blue_checked = self.players.blue;
        let ghost red_checked = self.players.red;
        // Dying timers and respawn.
        dying(&mut self.players.blue, &self.blocks, now_ms);
        dying(&mut self.players.red, &self.blocks, now_ms);
        // The pause key takes effect at the end of the tick.
        maybe_pause(&mut self.state, input.pause_just_pressed);
        proof {
            let t = TickTrace {
                blocks_pruned,
                blocks_grown,
                blocks_blue_landed,
                players_pruned,
                blue_decided,
                blue_landed,
                blue_fallen,
                blue_checked,
                red_decided,
                red_landed,
                red_fallen,
                red_checked,
            };
            assert(spec_tick_stages(*old(self), *self, t, input, now_ms, dt_ms));
        }
    }
}

} // verus!
