// Grid model, claiming, pruning/scoring, generation and initial population.

use lava_arena::block::{
    block_generator, block_in_lava, blocks_init, Block, Blocks,
};
use lava_arena::player::{players_init, Motion, Player, Players};

fn fresh_players() -> Players {
    players_init()
}

#[test]
fn grid_get_insert_remove() {
    let mut g = Blocks::new();
    assert_eq!(g.len(), 0);
    assert!(g.get(0, 0).is_none());
    g.insert(Block { x: 0, y: 0, value: 5, owner: None });
    g.insert(Block { x: -3, y: 2, value: 9, owner: Some(Player::Red) });
    assert_eq!(g.len(), 2);
    let b = g.get(0, 0).unwrap();
    assert_eq!((b.x, b.y, b.value, b.owner), (0, 0, 5, None));
    let b2 = g.get(-3, 2).unwrap();
    assert_eq!((b2.value, b2.owner), (9, Some(Player::Red)));
    assert!(g.get(3, 2).is_none());
    let removed = g.remove(-3, 2).unwrap();
    assert_eq!(removed.value, 9);
    assert!(g.get(-3, 2).is_none());
    assert_eq!(g.len(), 1);
    assert!(g.remove(-3, 2).is_none());
}

#[test]
fn claim_is_idempotent_and_overwrites() {
    let mut g = Blocks::new();
    g.insert(Block { x: 1, y: 1, value: 7, owner: None });
    g.insert(Block { x: 2, y: 1, value: 3, owner: None });
    g.claim(1, 1, Player::Blue);
    assert_eq!(g.get(1, 1).unwrap().owner, Some(Player::Blue));
    // Claiming again by the same team changes nothing.
    g.claim(1, 1, Player::Blue);
    assert_eq!(g.get(1, 1).unwrap().owner, Some(Player::Blue));
    assert_eq!(g.get(1, 1).unwrap().value, 7);
    // A different team's claim always overwrites.
    g.claim(1, 1, Player::Red);
    assert_eq!(g.get(1, 1).unwrap().owner, Some(Player::Red));
    // The neighbor block is untouched throughout.
    assert_eq!(g.get(2, 1).unwrap().owner, None);
    assert_eq!(g.len(), 2);
}

#[test]
fn prune_credits_owner_exactly() {
    // Lava at 2.6: a block at row 2 (height 2.0 < 2.1) is pruned, a block
    // at row 3 stays. The owner gains exactly the pruned value; unowned
    // pruned blocks credit nobody.
    let mut g = Blocks::new();
    g.insert(Block { x: 0, y: 2, value: 5, owner: Some(Player::Blue) });
    g.insert(Block { x: 1, y: 2, value: 8, owner: None });
    g.insert(Block { x: 2, y: 2, value: 2, owner: Some(Player::Red) });
    g.insert(Block { x: 0, y: 3, value: 9, owner: Some(Player::Blue) });
    let mut ps = fresh_players();
    block_in_lava(&mut g, &mut ps, 2600);
    assert!(g.get(0, 2).is_none());
    assert!(g.get(1, 2).is_none());
    assert!(g.get(2, 2).is_none());
    assert_eq!(g.get(0, 3).unwrap().value, 9);
    assert_eq!(g.len(), 1);
    assert_eq!(ps.blue.score, 5);
    assert_eq!(ps.red.score, 2);
    // Pruning again at the same height changes nothing.
    block_in_lava(&mut g, &mut ps, 2600);
    assert_eq!(ps.blue.score, 5);
    assert_eq!(ps.red.score, 2);
    assert_eq!(g.len(), 1);
}

#[test]
fn prune_boundary_is_half_unit_below_lava() {
    // A block is removed only once its row is strictly below lava - 0.5.
    let mut g = Blocks::new();
    g.insert(Block { x: 0, y: 2, value: 4, owner: Some(Player::Blue) });
    let mut ps = fresh_players();
    // 2.0 < 2.5 - 0.5 is false: the block survives.
    block_in_lava(&mut g, &mut ps, 2500);
    assert_eq!(g.len(), 1);
    assert_eq!(ps.blue.score, 0);
    // 2.0 < 2.501 - 0.5: now it goes.
    block_in_lava(&mut g, &mut ps, 2501);
    assert_eq!(g.len(), 0);
    assert_eq!(ps.blue.score, 4);
}

#[test]
fn generator_adds_one_row_above_frontier() {
    let mut g = Blocks::new();
    g.insert(Block { x: 0, y: 0, value: 1, owner: Some(Player::Red) });
    // Frontier 0, lava far below the trigger distance: nothing happens.
    block_generator(&mut g, -6000);
    assert_eq!(g.len(), 1);
    for x in -3..=3 {
        assert!(g.get(x, 1).is_none());
    }
    // Lava close enough: lanes -3..=3 of row 1 are filled with probability
    // 7/10, values 1..=9, unowned; rows at or below the frontier are
    // untouched.
    block_generator(&mut g, -4999);
    let existing = g.get(0, 0).unwrap();
    assert_eq!((existing.value, existing.owner), (1, Some(Player::Red)));
    for x in -3..=3 {
        if let Some(b) = g.get(x, 1) {
            assert!((1..=9).contains(&b.value));
            assert_eq!(b.owner, None);
            assert_eq!((b.x, b.y), (x, 1));
        }
        assert!(g.get(x, 2).is_none());
    }
    assert!(g.len() <= 8);
}

#[test]
fn generator_on_empty_grid_does_nothing() {
    let mut g = Blocks::new();
    block_generator(&mut g, 100_000);
    assert_eq!(g.len(), 0);
}

#[test]
fn initial_band_respects_bounds_and_start_cells() {
    for _ in 0..10 {
        let g = blocks_init();
        // The two starting cells are always populated.
        let blue_start = g.get(1, 3).expect("blue start cell");
        let red_start = g.get(-1, 3).expect("red start cell");
        assert_eq!(blue_start.owner, None);
        assert_eq!(red_start.owner, None);
        // Every block lies in the initial band with a value in 1..=9.
        for x in -4..=4 {
            for y in -1..=5 {
                if let Some(b) = g.get(x, y) {
                    assert!((-3..=3).contains(&x) && (0..=3).contains(&y));
                    assert!((1..=9).contains(&b.value));
                    assert_eq!(b.owner, None);
                }
            }
        }
        assert!(g.len() >= 2);
        assert!(g.len() <= 28);
    }
}

#[test]
fn frontier_and_top_row() {
    let mut g = Blocks::new();
    assert!(g.frontier().is_none());
    g.insert(Block { x: 2, y: 1, value: 1, owner: None });
    g.insert(Block { x: -1, y: 4, value: 2, owner: None });
    g.insert(Block { x: 3, y: 4, value: 3, owner: None });
    assert_eq!(g.frontier(), Some(4));
    let mut top = g.top_row(4);
    top.sort();
    assert_eq!(top, vec![(-1, 4), (3, 4)]);
}

#[test]
fn players_start_idle_with_offsets() {
    let ps = players_init();
    assert_eq!(ps.blue.player, Player::Blue);
    assert_eq!(ps.red.player, Player::Red);
    assert_eq!((ps.blue.x, ps.blue.y), (1200, 3500));
    assert_eq!((ps.red.x, ps.red.y), (-1200, 3500));
    assert_eq!(ps.blue.score, 0);
    assert_eq!(ps.red.score, 0);
    assert_eq!(ps.blue.speed, 2000);
    assert!(matches!(ps.blue.motion, Motion::Idle));
    assert!(matches!(ps.red.motion, Motion::Idle));
}
