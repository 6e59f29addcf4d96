// Movement, landing, falling, dying and respawn scenarios, plus whole-tick
// integration through World.

use lava_arena::block::{Block, Blocks};
use lava_arena::game::{GameState, Inputs, Lava, World};
use lava_arena::motion::{apply_move, dying, falling, key_control, lava_contact, moving};
use lava_arena::player::{Direction, Motion, Player, PlayerBundle};

fn idle_player_at(team: Player, x: i64, y: i64) -> PlayerBundle {
    PlayerBundle { player: team, speed: 2000, score: 0, x, y, motion: Motion::Idle }
}

fn column_grid() -> Blocks {
    // Blocks at (0,0)..(0,3), all unowned.
    let mut g = Blocks::new();
    for y in 0..=3 {
        g.insert(Block { x: 0, y, value: 5, owner: None });
    }
    g
}

#[test]
fn scenario_landing_claims_block() {
    // Player idle on (0,0), input Up: after the resolver completes it is
    // idle on (0,1) and owns that block.
    let mut g = column_grid();
    let mut p = idle_player_at(Player::Blue, 0, 500);
    key_control(&mut p, false, false, true, false, 0);
    match p.motion {
        Motion::Moving(m) => {
            assert_eq!((m.source_x, m.source_y), (0, 500));
            assert_eq!((m.target_x, m.target_y), (0, 1500));
            assert_eq!(m.start_ms, 0);
        },
        _ => panic!("expected Moving"),
    }
    // Speed 2000 milli-progress per second: done after 500 ms.
    moving(&mut p, &mut g, 500);
    assert_eq!((p.x, p.y), (0, 1500));
    assert!(matches!(p.motion, Motion::Idle));
    let b = g.get(0, 1).expect("block at (0,1)");
    assert_eq!(b.owner, Some(Player::Blue));
}

#[test]
fn scenario_landing_on_hole_falls() {
    // Same setup without a block at (0,1): the player ends up Falling and
    // then loses height at five units per second.
    let mut g = Blocks::new();
    g.insert(Block { x: 0, y: 0, value: 5, owner: None });
    g.insert(Block { x: 0, y: 2, value: 5, owner: None });
    g.insert(Block { x: 0, y: 3, value: 5, owner: None });
    let mut p = idle_player_at(Player::Blue, 0, 500);
    key_control(&mut p, false, false, true, false, 0);
    moving(&mut p, &mut g, 500);
    assert_eq!((p.x, p.y), (0, 1500));
    assert!(matches!(p.motion, Motion::Falling));
    // No block was claimed.
    assert!(g.get(0, 1).is_none());
    // 100 ms of falling: 0.5 units = 500 milli-units.
    falling(&mut p, 100);
    assert_eq!(p.y, 1000);
    falling(&mut p, 100);
    assert_eq!(p.y, 500);
}

#[test]
fn mid_move_position_follows_cubic_ease() {
    // A quarter of the way through a Right hop from (0,0): progress 500 of
    // 1000 eases to exactly 500, i.e. the exact midpoint; progress 250
    // eases to 62 milli-units.
    let mut g = column_grid();
    g.insert(Block { x: 1, y: 0, value: 3, owner: None });
    let mut p = idle_player_at(Player::Blue, 0, 500);
    apply_move(&mut p, Direction::Right, 0);
    // 125 ms at speed 2000: progress 250, eased 4*0.25^3 = 62 milli.
    moving(&mut p, &mut g, 125);
    assert_eq!((p.x, p.y), (62, 500));
    assert!(matches!(p.motion, Motion::Moving(_)));
    // 250 ms: progress 500, eased exactly half way.
    moving(&mut p, &mut g, 250);
    assert_eq!((p.x, p.y), (500, 500));
    // Completion snaps exactly onto the target cell.
    moving(&mut p, &mut g, 500);
    assert_eq!((p.x, p.y), (1000, 500));
    assert!(matches!(p.motion, Motion::Idle));
    assert_eq!(g.get(1, 0).unwrap().owner, Some(Player::Blue));
}

#[test]
fn landing_determinism_all_directions() {
    // From an idle start, a completed hop lands exactly one cell along the
    // requested direction, with no residual drift, whatever the tick times.
    let cases = [
        (Direction::Right, 1000, 0),
        (Direction::Left, -1000, 0),
        (Direction::Up, 0, 1000),
        (Direction::Down, 0, -1000),
    ];
    for (d, dx, dy) in cases {
        let mut g = Blocks::new();
        for x in -1..=1 {
            for y in -1..=1 {
                g.insert(Block { x, y, value: 1, owner: None });
            }
        }
        let mut p = idle_player_at(Player::Red, 200, 700);
        apply_move(&mut p, d, 7);
        // A few partial ticks, then one far past completion.
        moving(&mut p, &mut g, 100);
        moving(&mut p, &mut g, 300);
        moving(&mut p, &mut g, 5000);
        assert_eq!((p.x, p.y), (200 + dx, 700 + dy));
        assert!(matches!(p.motion, Motion::Idle));
    }
}

#[test]
fn scenario_lava_contact_then_respawn() {
    // Player at height 1.0 under lava at 1.5 dies this tick whatever its
    // prior state; after the two-second timer it stands on the top row.
    for prior in [Motion::Idle, Motion::Falling] {
        let mut g = column_grid();
        let mut p = idle_player_at(Player::Blue, 0, 1000);
        p.motion = prior;
        lava_contact(&mut p, 1500, 10_000);
        match p.motion {
            Motion::Dying { start_ms } => assert_eq!(start_ms, 10_000),
            _ => panic!("expected Dying"),
        }
        // Timer not yet expired: nothing happens.
        dying(&mut p, &g, 12_000);
        assert!(matches!(p.motion, Motion::Dying { .. }));
        // Expired: respawn on the top row (row 3), half a unit above it,
        // at the team's lateral offset.
        dying(&mut p, &g, 12_001);
        assert!(matches!(p.motion, Motion::Idle));
        assert_eq!(p.y, 3500);
        assert_eq!(p.x, 200); // lane 0 plus the blue offset
    }
}

#[test]
fn scenario_empty_grid_respawn_waits() {
    // With no block anywhere there is no respawn cell: the player stays
    // Dying (and respawns as soon as a block exists again).
    let g = Blocks::new();
    let mut p = idle_player_at(Player::Red, 0, 500);
    lava_contact(&mut p, 1000, 0);
    dying(&mut p, &g, 9_000);
    assert!(matches!(p.motion, Motion::Dying { start_ms: 0 }));
    let mut g2 = Blocks::new();
    g2.insert(Block { x: 2, y: 7, value: 4, owner: None });
    dying(&mut p, &g2, 9_000);
    assert!(matches!(p.motion, Motion::Idle));
    assert_eq!((p.x, p.y), (2000 - 200, 7500));
}

#[test]
fn dying_cancels_moving() {
    let mut p = idle_player_at(Player::Blue, 0, 500);
    apply_move(&mut p, Direction::Right, 0);
    assert!(matches!(p.motion, Motion::Moving(_)));
    lava_contact(&mut p, 600, 50);
    assert!(matches!(p.motion, Motion::Dying { start_ms: 50 }));
}

#[test]
fn world_tick_runs_fixed_pipeline() {
    let mut w = World::init();
    assert_eq!(w.state, GameState::Start);
    assert_eq!(w.lava.y, 0);
    let idle = Inputs {
        right: false,
        left: false,
        up: false,
        down: false,
        any_just_pressed: false,
        pause_just_pressed: false,
    };
    // Waiting: nothing moves until a key is pressed.
    assert!(w.tick_room(0, 16));
    w.tick(idle, 0, 16);
    assert_eq!(w.state, GameState::Start);
    let press = Inputs { any_just_pressed: true, ..idle };
    w.tick(press, 0, 16);
    assert_eq!(w.state, GameState::InGame);
    // Run a second of simulation.
    let mut now: u64 = 0;
    for _ in 0..62 {
        now += 16;
        assert!(w.tick_room(now, 16));
        w.tick(idle, now, 16);
        assert_eq!(w.state, GameState::InGame);
        // Exactly one motion state at every tick.
        for p in [&w.players.blue, &w.players.red] {
            let states = [
                matches!(p.motion, Motion::Idle),
                matches!(p.motion, Motion::Moving(_)),
                matches!(p.motion, Motion::Falling),
                matches!(p.motion, Motion::Dying { .. }),
            ];
            assert_eq!(states.iter().filter(|s| **s).count(), 1);
        }
    }
    // The lava rose by exactly half of the elapsed milliseconds.
    assert_eq!(w.lava.y, 62 * 8);
    // Pausing and resuming.
    let pause = Inputs { pause_just_pressed: true, ..idle };
    now += 16;
    assert!(w.tick_room(now, 16));
    w.tick(pause, now, 16);
    assert_eq!(w.state, GameState::Pause);
    let lava_at_pause = w.lava.y;
    w.tick(idle, now, 16);
    assert_eq!(w.state, GameState::Pause);
    assert_eq!(w.lava.y, lava_at_pause);
    w.tick(press, now, 16);
    assert_eq!(w.state, GameState::InGame);
}

#[test]
fn lava_rise_truncates_odd_milliseconds() {
    let mut lava = Lava { y: 0 };
    lava_arena::game::raising_lava(&mut lava, 3);
    assert_eq!(lava.y, 1);
    lava_arena::game::raising_lava(&mut lava, 1000);
    assert_eq!(lava.y, 501);
}
