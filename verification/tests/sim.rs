//! Deterministic single-tick scenarios, driven through `tick_with_draws`
//! so every spawner draw is chosen by the test.
//!
//! Units: positions in sub-pixels (11250 per px), velocities in 1/75 px/s,
//! times in 1/75000 s. The screen is 800x600 px throughout.

use flappy_core::consts::{
    FLOOR_MARGIN, GAP, GAP_PLUS_FLOOR, OBSTACLE_WIDTH, PLAYER_SIZE, SUBPX,
};
use flappy_core::obstacle::Pair;
use flappy_core::world::{GameState, World};

const H70: i64 = 70 * 11250;
const IV: u64 = 112500;

fn fresh() -> World {
    World::new(800, 600, 0, IV)
}

fn px(v: i64) -> i64 {
    v * SUBPX
}

/// A well-formed pair for a 600 px screen: bottom 70 px high.
fn pair_at(x_px: i64) -> Pair {
    Pair {
        x: px(x_px),
        top_h: px(600) - H70 - GAP_PLUS_FLOOR,
        bot_h: H70,
        passed: false,
    }
}

#[test]
fn no_input_fall_ends_in_game_over() {
    let mut w = fresh();
    for _ in 0..75 {
        w.tick_with_draws(H70, IV);
    }
    // Falling from 100 px, the floor-margin rule (y >= 455 px) fires on
    // tick 55: y = 1125000 + 1300 * 55 * 56 sub-pixels; the world then
    // freezes.
    assert_eq!(w.state, GameState::GameOver);
    assert_eq!(w.player.y, 1_125_000 + 1300 * 55 * 56);
    assert_eq!(w.score, 0);
}

#[test]
fn single_jump_gives_one_impulse() {
    let mut w = fresh();
    w.jump_request = true;
    w.tick_with_draws(H70, IV);
    // The impulse overrides gravity: vy = -460 px/s, and the latch clears.
    assert_eq!(w.player.vy, -34_500);
    assert!(w.player.y < px(100));
    assert!(!w.jump_request);
    let y_after_jump = w.player.y;
    w.tick_with_draws(H70, IV);
    // One tick later only gravity acts: vy = -460 + 1300/75 px/s.
    assert_eq!(w.player.vy, -34_500 + 1300);
    assert!(w.player.y < y_after_jump);
    for _ in 0..8 {
        w.tick_with_draws(H70, IV);
    }
    assert_eq!(w.player.vy, -34_500 + 9 * 1300);
}

#[test]
fn first_obstacle_born_at_right_edge() {
    let mut w = fresh();
    // next_spawn_interval = 1.5 s = 112500 units: the pair appears on the
    // 113th tick, at x = 800 px, and only starts moving the tick after.
    // The player hovers at the ceiling so the round stays alive.
    for _ in 0..112 {
        w.jump_request = true;
        w.tick_with_draws(H70, IV);
        assert_eq!(w.pairs.len(), 0);
    }
    w.jump_request = true;
    w.tick_with_draws(H70, IV);
    assert_eq!(w.pairs.len(), 1);
    assert_eq!(w.pairs[0].x, px(800));
    assert_eq!(w.pairs[0].bot_h, H70);
    assert_eq!(w.pairs[0].top_h, px(600) - H70 - GAP_PLUS_FLOOR);
    assert_eq!(w.spawn_timer, 0);
    for k in 1..=10i64 {
        w.jump_request = true;
        w.tick_with_draws(H70, IV);
        assert_eq!(w.pairs[0].x, px(800) - k * px(4));
    }
}

#[test]
fn pair_geometry_fills_the_screen() {
    let mut w = fresh();
    for _ in 0..113 {
        w.jump_request = true;
        w.tick_with_draws(H70, IV);
    }
    assert_eq!(w.pairs.len(), 1);
    let q = w.pairs[0];
    assert_eq!(q.top_h + q.bot_h + GAP + FLOOR_MARGIN, px(600));
}

#[test]
fn successful_pass_scores_once() {
    // The player (x = 100 px) clears a pair once its right edge lies left
    // of 70 px. A pair moved to -10 px (edge 70) does not score; moved to
    // -11 px or beyond it does, exactly once.
    let mut w = fresh();
    w.pairs.push(pair_at(-6));
    w.tick_with_draws(H70, IV);
    // Pair now at -10 px: 70 > 70 is false.
    assert_eq!(w.pairs[0].x, px(-10));
    assert_eq!(w.score, 0);
    assert!(!w.pairs[0].passed);
    w.tick_with_draws(H70, IV);
    // Pair now at -14 px: 70 > 66, the pass latches and scores.
    assert_eq!(w.score, 1);
    assert!(w.pairs[0].passed);
    w.tick_with_draws(H70, IV);
    w.tick_with_draws(H70, IV);
    // Later ticks never re-score the same pair.
    assert_eq!(w.score, 1);
    assert!(w.pairs[0].passed);
}

#[test]
fn pass_boundary_at_minus_eleven_px() {
    let mut w = fresh();
    w.pairs.push(pair_at(-7));
    w.tick_with_draws(H70, IV);
    // Pair at exactly -11 px: right edge 69, and 70 > 69 scores.
    assert_eq!(w.pairs[0].x, px(-11));
    assert_eq!(w.score, 1);
}

#[test]
fn score_is_monotone_within_a_round() {
    let mut w = fresh();
    w.pairs.push(pair_at(-6));
    let mut last = w.score;
    for _ in 0..40 {
        w.tick_with_draws(H70, IV);
        assert!(w.score >= last);
        last = w.score;
    }
}

#[test]
fn collision_ends_the_round_and_freezes_obstacles() {
    let mut w = fresh();
    // A pair right on top of the player: its top member reaches down to
    // 260 px while the player's rectangle spans 75..122.5 px vertically.
    w.pairs.push(pair_at(100));
    w.tick_with_draws(H70, IV);
    assert_eq!(w.state, GameState::GameOver);
    let x_frozen = w.pairs[0].x;
    let y_frozen = w.player.y;
    for _ in 0..10 {
        w.tick_with_draws(H70, IV);
    }
    assert_eq!(w.pairs[0].x, x_frozen);
    assert_eq!(w.player.y, y_frozen);
    assert_eq!(w.state, GameState::GameOver);
}

#[test]
fn game_over_records_new_best() {
    let mut w = fresh();
    w.score = 7;
    w.highscore.best = 3;
    // Collide immediately: entering GameOver must lift best to 7.
    w.pairs.push(pair_at(100));
    w.tick_with_draws(H70, IV);
    assert_eq!(w.state, GameState::GameOver);
    assert_eq!(w.highscore.best, 7);
    assert!(w.highscore.dirty);
}

#[test]
fn game_over_keeps_higher_best() {
    let mut w = fresh();
    w.score = 7;
    w.highscore.best = 10;
    w.pairs.push(pair_at(100));
    w.tick_with_draws(H70, IV);
    assert_eq!(w.state, GameState::GameOver);
    assert_eq!(w.highscore.best, 10);
    assert!(!w.highscore.dirty);
}

#[test]
fn out_of_bounds_is_fatal_without_any_pair() {
    let mut w = fresh();
    w.player.y = px(454);
    w.tick_with_draws(H70, IV);
    assert_eq!(w.state, GameState::Playing);
    let mut w2 = fresh();
    w2.player.y = px(455);
    w2.tick_with_draws(H70, IV);
    assert_eq!(w2.state, GameState::GameOver);
}

#[test]
fn retirement_removes_pairs_past_minus_hundred() {
    let mut w = fresh();
    w.pairs.push(pair_at(-96));
    w.pairs.push(pair_at(400));
    w.tick_with_draws(H70, IV);
    // -96 -> -100 px: still kept (only x < -100 retires).
    assert_eq!(w.pairs.len(), 2);
    assert_eq!(w.pairs[0].x, px(-100));
    w.tick_with_draws(H70, IV);
    // -104 px: gone; order of the survivors is preserved.
    assert_eq!(w.pairs.len(), 1);
    assert_eq!(w.pairs[0].x, px(400) - 2 * px(4));
}

#[test]
fn ceiling_clamp_zeroes_velocity() {
    let mut w = fresh();
    w.player.y = PLAYER_SIZE;
    w.player.vy = -34_500;
    w.tick_with_draws(H70, IV);
    assert_eq!(w.player.y, PLAYER_SIZE);
    assert_eq!(w.player.vy, 0);
}

#[test]
fn background_scrolls_and_wraps() {
    let mut w = fresh();
    w.tick_with_draws(H70, IV);
    assert_eq!(w.bg_scroll, -px(4));
    w.bg_scroll = -px(800) + px(3);
    w.tick_with_draws(H70, IV);
    assert_eq!(w.bg_scroll, 0);
}

#[test]
fn scoring_margin_uses_obstacle_width() {
    // Sanity on the constants the pass rule combines.
    assert_eq!(OBSTACLE_WIDTH, px(80));
    assert_eq!(GAP + FLOOR_MARGIN, GAP_PLUS_FLOOR);
}
