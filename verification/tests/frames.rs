//! Frame-level behaviour: the fixed-timestep accumulator, input latching,
//! restart, and determinism under a seeded generator.

use flappy_core::obstacle::Pair;
use flappy_core::world::{GameState, World};

const IV: u64 = 112500;

fn fresh() -> World {
    World::new(800, 600, 0, IV)
}

fn assert_same_world(a: &World, b: &World) {
    assert_eq!(a.player.y, b.player.y);
    assert_eq!(a.player.vy, b.player.vy);
    assert_eq!(a.score, b.score);
    assert_eq!(a.state, b.state);
    assert_eq!(a.bg_scroll, b.bg_scroll);
    assert_eq!(a.spawn_timer, b.spawn_timer);
    assert_eq!(a.next_spawn_interval, b.next_spawn_interval);
    assert_eq!(a.pairs.len(), b.pairs.len());
    for (p, q) in a.pairs.iter().zip(b.pairs.iter()) {
        assert_eq!(p.x, q.x);
        assert_eq!(p.top_h, q.top_h);
        assert_eq!(p.bot_h, q.bot_h);
        assert_eq!(p.passed, q.passed);
    }
}

#[test]
fn frame_rate_independence_across_cadences() {
    // Three seconds of play, cut into 30 Hz, 75 Hz and 300 Hz frames, with
    // the generator re-seeded identically: bit-identical worlds result.
    // A jump is latched whenever a frame starts on a 0.4 s boundary; those
    // boundaries coincide with tick boundaries in all three cadences, so
    // the input trace is the same tick-for-tick.
    quad_rand::srand(7);
    let mut w30 = fresh();
    for i in 0..90 {
        w30.frame(2500, i % 12 == 0, false);
    }
    quad_rand::srand(7);
    let mut w75 = fresh();
    for i in 0..225 {
        w75.frame(1000, i % 30 == 0, false);
    }
    quad_rand::srand(7);
    let mut w300 = fresh();
    for i in 0..900 {
        w300.frame(250, i % 120 == 0, false);
    }
    assert_eq!(w30.state, GameState::Playing);
    assert!(!w30.pairs.is_empty());
    assert_same_world(&w30, &w75);
    assert_same_world(&w30, &w300);
    assert_eq!(w30.accumulator, w75.accumulator);
    assert_eq!(w30.accumulator, w300.accumulator);
}

#[test]
fn accumulator_stays_below_one_step() {
    let mut w = fresh();
    for dt in [0u64, 1, 999, 1000, 1001, 2500, 7499, 7500, 375000] {
        w.frame(dt, false, false);
        assert!(w.accumulator < 1000);
    }
}

#[test]
fn five_second_stall_runs_at_most_eight_ticks() {
    let mut w = fresh();
    // dt = 5 s = 375000 units; the clamp leaves 0.1 s, which is 7 ticks
    // (within the allowed ceiling of 8). Each tick advances the spawn
    // timer by 1000 units, which counts the ticks for us.
    w.frame(375000, false, false);
    assert_eq!(w.spawn_timer, 7000);
    assert_eq!(w.accumulator, 500);
}

#[test]
fn accumulator_carries_fractions_of_a_tick() {
    let mut w = fresh();
    // Frames of 700 units: ticks fall exactly where whole steps complete.
    w.frame(700, false, false);
    assert_eq!(w.spawn_timer, 0);
    assert_eq!(w.accumulator, 700);
    w.frame(700, false, false);
    assert_eq!(w.spawn_timer, 1000);
    assert_eq!(w.accumulator, 400);
    w.frame(700, false, false);
    assert_eq!(w.spawn_timer, 2000);
    assert_eq!(w.accumulator, 100);
}

#[test]
fn one_latched_jump_fires_once_per_frame() {
    let mut w = fresh();
    // One frame carrying 5 ticks and a single latched jump: the impulse
    // fires on the first tick only, gravity acts on the other four.
    w.frame(5000, true, false);
    assert_eq!(w.spawn_timer, 5000);
    assert_eq!(w.player.vy, -34_500 + 4 * 1300);
    assert!(!w.jump_request);
}

#[test]
fn restart_clears_state() {
    let mut w = fresh();
    w.state = GameState::GameOver;
    w.score = 7;
    w.highscore.best = 10;
    w.bg_scroll = -400 * 11250;
    w.spawn_timer = 9000;
    w.player.y = 400 * 11250;
    w.player.vy = 50_000;
    for i in 0..3i64 {
        w.pairs.push(Pair {
            x: (200 + 100 * i) * 11250,
            top_h: (600 - 70 - 270) * 11250,
            bot_h: 70 * 11250,
            passed: false,
        });
    }
    w.frame(1000, false, true);
    assert_eq!(w.state, GameState::Playing);
    assert_eq!(w.score, 0);
    assert_eq!(w.pairs.len(), 0);
    assert_eq!(w.bg_scroll, 0);
    assert_eq!(w.spawn_timer, 0);
    assert_eq!(w.player.y, 100 * 11250);
    assert_eq!(w.player.vy, 0);
    assert_eq!(w.accumulator, 0);
    assert_eq!(w.next_spawn_interval, IV);
    assert_eq!(w.highscore.best, 10);
    assert!(!w.highscore.dirty);
}

#[test]
fn new_random_draws_interval_in_range() {
    quad_rand::srand(99);
    let w = World::new_random(800, 600, 5);
    assert!(w.next_spawn_interval >= 75000);
    assert!(w.next_spawn_interval <= 150000);
    assert_eq!(w.highscore.best, 5);
    assert_eq!(w.state, GameState::Playing);
}

#[test]
fn spawner_draws_vary() {
    // Three spawns under a fixed seed: every drawn height and interval is
    // in its range, and the draws are not all stuck at the lower bounds
    // (which is what a broken generator hook would produce).
    quad_rand::srand(2024);
    let mut w = fresh();
    let mut heights: Vec<i64> = Vec::new();
    let mut intervals: Vec<u64> = Vec::new();
    let mut seen = 0usize;
    for _ in 0..2000 {
        // Hold the player at the ceiling so the round never ends, and
        // clear each pair once recorded so none ever reaches him.
        w.jump_request = true;
        let before = w.pairs.len();
        w.tick();
        if w.pairs.len() > before {
            let q = w.pairs[w.pairs.len() - 1];
            heights.push(q.bot_h);
            intervals.push(w.next_spawn_interval);
            w.pairs.clear();
            seen += 1;
            if seen == 3 {
                break;
            }
        }
    }
    assert_eq!(w.state, GameState::Playing);
    assert_eq!(seen, 3);
    for &h in &heights {
        assert!(h >= 70 * 11250 && h <= 350 * 11250);
    }
    for &iv in &intervals {
        assert!((75000..=150000).contains(&iv));
    }
    assert!(
        heights.iter().any(|&h| h != 70 * 11250)
            || intervals.iter().any(|&iv| iv != 75000)
    );
}
