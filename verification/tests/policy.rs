// The decision policy's priority order, the key-to-intent rule, the cell
// derivation rule, and the run-state transitions.

use lava_arena::ai::{ai_control, get_ai_direction};
use lava_arena::block::{Block, Blocks};
use lava_arena::game::{maybe_pause, waiting_for_start, GameState};
use lava_arena::motion::direction_from_keys;
use lava_arena::player::{
    player_translation_to_position, Direction, Motion, Player, PlayerBundle,
};

#[test]
fn ai_prefers_enemy_over_own() {
    // Neighbors of (0,0) for Red: an enemy-owned block right, an own-owned
    // block left, holes above and below. The policy must pick Right.
    let mut g = Blocks::new();
    g.insert(Block { x: 0, y: 0, value: 1, owner: Some(Player::Red) });
    g.insert(Block { x: 1, y: 0, value: 1, owner: Some(Player::Blue) });
    g.insert(Block { x: -1, y: 0, value: 1, owner: Some(Player::Red) });
    for _ in 0..20 {
        assert_eq!(get_ai_direction(&g, 0, 0, Player::Red), Some(Direction::Right));
    }
}

#[test]
fn ai_prefers_unowned_over_own() {
    let mut g = Blocks::new();
    g.insert(Block { x: 1, y: 0, value: 1, owner: None });
    g.insert(Block { x: -1, y: 0, value: 1, owner: Some(Player::Red) });
    for _ in 0..20 {
        assert_eq!(get_ai_direction(&g, 0, 0, Player::Red), Some(Direction::Right));
    }
}

#[test]
fn ai_picks_within_best_class_only() {
    // Two enemy-owned neighbors, one unowned: the pick is always one of
    // the two enemy directions.
    let mut g = Blocks::new();
    g.insert(Block { x: 1, y: 0, value: 1, owner: Some(Player::Blue) });
    g.insert(Block { x: 0, y: 1, value: 1, owner: Some(Player::Blue) });
    g.insert(Block { x: -1, y: 0, value: 1, owner: None });
    for _ in 0..20 {
        let d = get_ai_direction(&g, 0, 0, Player::Red).unwrap();
        assert!(d == Direction::Right || d == Direction::Up);
    }
}

#[test]
fn ai_never_steps_into_holes() {
    // No neighbor holds a block: the policy issues no move at all.
    let mut g = Blocks::new();
    g.insert(Block { x: 0, y: 0, value: 1, owner: None });
    g.insert(Block { x: 2, y: 0, value: 1, owner: Some(Player::Blue) });
    assert_eq!(get_ai_direction(&g, 0, 0, Player::Red), None);
}

#[test]
fn ai_control_moves_only_idle_players() {
    let mut g = Blocks::new();
    g.insert(Block { x: 0, y: 0, value: 1, owner: Some(Player::Red) });
    g.insert(Block { x: 1, y: 0, value: 1, owner: Some(Player::Blue) });
    let mut p = PlayerBundle {
        player: Player::Red,
        speed: 2000,
        score: 0,
        x: 0,
        y: 500,
        motion: Motion::Idle,
    };
    ai_control(&mut p, &g, 42);
    match p.motion {
        Motion::Moving(m) => {
            assert_eq!(m.start_ms, 42);
            assert_eq!((m.target_x, m.target_y), (1000, 500));
        },
        _ => panic!("expected Moving"),
    }
    // Not idle: the policy does not touch the player.
    let snapshot = p;
    ai_control(&mut p, &g, 43);
    assert_eq!(p, snapshot);
}

#[test]
fn key_priority_right_left_up_down() {
    assert_eq!(direction_from_keys(true, true, true, true), Some(Direction::Right));
    assert_eq!(direction_from_keys(false, true, true, true), Some(Direction::Left));
    assert_eq!(direction_from_keys(false, false, true, true), Some(Direction::Up));
    assert_eq!(direction_from_keys(false, false, false, true), Some(Direction::Down));
    assert_eq!(direction_from_keys(false, false, false, false), None);
}

#[test]
fn cell_derivation_rounds_like_the_resolver() {
    // Lane by rounding x; row by rounding y - 0.5, halves away from zero.
    assert_eq!(player_translation_to_position(1200, 3500), (1, 3));
    assert_eq!(player_translation_to_position(-1200, 3500), (-1, 3));
    assert_eq!(player_translation_to_position(499, 999), (0, 0));
    assert_eq!(player_translation_to_position(500, 1000), (1, 1));
    assert_eq!(player_translation_to_position(-500, 0), (-1, -1));
    assert_eq!(player_translation_to_position(0, -500), (0, -1));
}

#[test]
fn run_state_transitions() {
    let mut s = GameState::Start;
    waiting_for_start(&mut s, false);
    assert_eq!(s, GameState::Start);
    waiting_for_start(&mut s, true);
    assert_eq!(s, GameState::InGame);
    maybe_pause(&mut s, false);
    assert_eq!(s, GameState::InGame);
    maybe_pause(&mut s, true);
    assert_eq!(s, GameState::Pause);
    waiting_for_start(&mut s, true);
    assert_eq!(s, GameState::InGame);
}
