//! The world: the player, the live obstacle pairs, the spawner, the
//! background scroll, the score, the two-state round machine, and the
//! fixed-timestep accumulator that drives them.
//!
//! The simulation advances in ticks of exactly 1/75 s. A real frame hands
//! [`World::frame`] its elapsed time and latched inputs; the accumulator
//! converts that into zero or more ticks, clamped so that a stalled frame
//! cannot trigger an unbounded catch-up burst.

use vstd::prelude::*;
use crate::consts::{
    FLOOR_MARGIN, MAX_ACCUMULATOR, MAX_TICKS_PER_FRAME, OBSTACLE_WIDTH, PASS_MARGIN,
    PLAYER_SIZE, PLAYER_START_Y, PLAYER_X, RETIRE_X, SCREEN_MAX, SCREEN_MAX_PX, SCREEN_MIN,
    SCREEN_MIN_PX, SCROLL_PER_TICK, SPAWN_HEIGHT_MAX, SPAWN_HEIGHT_MIN, SPAWN_INTERVAL_MAX,
    SPAWN_INTERVAL_MIN, SUBPX, TIME_STEP,
};
use crate::hiscore::Highscore;
use crate::rng::draw_in_range;
use crate::obstacle::{
    Pair, PairM, newly_passed, pair_after_score, pair_hit, pair_moved, pair_wf, spawn_pair,
};
use crate::player::{Player, PlayerM, player_step, player_wf};

verus! {

/// The round state: the simulation runs while `Playing`; in `GameOver` the
/// world is frozen for display until a restart is requested.
#[derive(Clone, Copy, Debug, PartialEq, Eq, Structural)]
pub enum GameState {
    Playing,
    GameOver,
}

/// Mathematical view of the whole world.
#[verifier::ext_equal]
pub ghost struct WorldM {
    pub screen_w: int,
    pub screen_h: int,
    pub player: PlayerM,
    pub pairs: Seq<PairM>,
    pub spawn_timer: int,
    pub next_spawn_interval: int,
    pub bg_scroll: int,
    pub score: int,
    pub state: GameState,
    pub accumulator: int,
    pub jump_request: bool,
    pub restart_request: bool,
    pub best: int,
    pub dirty: bool,
}

/// The views of a vector of obstacle pairs.
pub open spec fn pairs_view(v: Seq<Pair>) -> Seq<PairM> {
    v.map_values(|q: Pair| q@)
}

/// Well-formedness of a world. Constructors establish it and every tick
/// preserves it.
pub open spec fn world_wf(w: WorldM) -> bool {
    &&& SCREEN_MIN <= w.screen_w <= SCREEN_MAX
    &&& SCREEN_MIN <= w.screen_h <= SCREEN_MAX
    &&& player_wf(w.player, w.screen_h)
    &&& forall|i: int|
        0 <= i < w.pairs.len() ==> pair_wf(#[trigger] w.pairs[i], w.screen_w, w.screen_h)
    &&& 0 <= w.spawn_timer < w.next_spawn_interval
    &&& SPAWN_INTERVAL_MIN <= w.next_spawn_interval <= SPAWN_INTERVAL_MAX
    &&& -w.screen_w < w.bg_scroll <= 0
    &&& 0 <= w.accumulator <= MAX_ACCUMULATOR
    &&& 0 <= w.score <= u32::MAX
    &&& 0 <= w.best <= u32::MAX
}

/// One tick of background scroll: slide left by 4 px and wrap to 0 once a
/// whole screen width has passed.
pub open spec fn bg_step(bg: int, screen_w: int) -> int {
    let b = bg - SCROLL_PER_TICK;
    if b <= -screen_w {
        0
    } else {
        b
    }
}

/// All pairs after one tick of leftward scrolling.
pub open spec fn moved_pairs(qs: Seq<PairM>) -> Seq<PairM> {
    qs.map_values(|q: PairM| pair_moved(q))
}

/// The pairs that survive retirement: those at or right of the retirement
/// line, in their original order.
pub open spec fn retained_pairs(qs: Seq<PairM>) -> Seq<PairM>
    decreases qs.len(),
{
    if qs.len() == 0 {
        Seq::empty()
    } else {
        let rest = retained_pairs(qs.drop_last());
        if qs.last().x >= RETIRE_X {
            rest.push(qs.last())
        } else {
            rest
        }
    }
}

/// All pairs after the scoring pass against player position `p`.
pub open spec fn scored_pairs(p: PlayerM, qs: Seq<PairM>) -> Seq<PairM> {
    qs.map_values(|q: PairM| pair_after_score(p, q))
}

/// How many pairs the player newly clears this tick.
pub open spec fn count_newly(p: PlayerM, qs: Seq<PairM>) -> nat
    decreases qs.len(),
{
    if qs.len() == 0 {
        0
    } else {
        count_newly(p, qs.drop_last()) + if newly_passed(p, qs.last()) {
            1nat
        } else {
            0nat
        }
    }
}

/// The score after crediting `c` cleared pairs, saturating at `u32::MAX`
/// (the score is wrap-free; a session never reaches the cap in practice).
pub open spec fn sat_score(score: int, c: nat) -> int {
    if score + c > u32::MAX {
        u32::MAX as int
    } else {
        score + c
    }
}

/// Does the player collide with any pair?
pub open spec fn any_hit(p: PlayerM, qs: Seq<PairM>, screen_h: int) -> bool {
    exists|i: int| 0 <= i < qs.len() && pair_hit(p, #[trigger] qs[i], screen_h)
}

/// Has the player left the vertical play area: at or below the floor strip,
/// or above the screen.
pub open spec fn out_of_bounds(p: PlayerM, screen_h: int) -> bool {
    p.y + PLAYER_SIZE + FLOOR_MARGIN >= screen_h || p.y < 0
}

/// Does this tick emit a new pair?
pub open spec fn spawns(w: WorldM) -> bool {
    w.spawn_timer + TIME_STEP >= w.next_spawn_interval
}

/// Are `h` (a bottom-obstacle height) and `iv` (a spawn interval) within
/// the ranges the spawner draws from?
pub open spec fn draws_ok(h: int, iv: int) -> bool {
    &&& SPAWN_HEIGHT_MIN <= h <= SPAWN_HEIGHT_MAX
    &&& SPAWN_INTERVAL_MIN <= iv <= SPAWN_INTERVAL_MAX
}

/// One tick of the `Playing` state, with `h` and `iv` the random draws the
/// spawner uses if this tick emits a pair. In order: background scroll,
/// obstacle scrolling, retirement, spawning, player kinematics (consuming
/// the latched jump), the scoring pass, and the collision / bounds check
/// that may end the round and record a new best score.
pub open spec fn tick_playing(w: WorldM, h: int, iv: int) -> WorldM {
    let bg = bg_step(w.bg_scroll, w.screen_w);
    let qs1 = retained_pairs(moved_pairs(w.pairs));
    let qs2 = if spawns(w) {
        qs1.push(spawn_pair(w.screen_w, w.screen_h, h))
    } else {
        qs1
    };
    let timer = if spawns(w) {
        0
    } else {
        w.spawn_timer + TIME_STEP
    };
    let interval = if spawns(w) {
        iv
    } else {
        w.next_spawn_interval
    };
    let p1 = player_step(w.player, w.jump_request, w.screen_h);
    let qs3 = scored_pairs(p1, qs2);
    let score1 = sat_score(w.score, count_newly(p1, qs2));
    let died = any_hit(p1, qs2, w.screen_h) || out_of_bounds(p1, w.screen_h);
    WorldM {
        player: p1,
        pairs: qs3,
        spawn_timer: timer,
        next_spawn_interval: interval,
        bg_scroll: bg,
        score: score1,
        state: if died {
            GameState::GameOver
        } else {
            GameState::Playing
        },
        jump_request: false,
        best: if died && score1 > w.best {
            score1
        } else {
            w.best
        },
        dirty: if died && score1 > w.best {
            true
        } else {
            w.dirty
        },
        ..w
    }
}

/// The player at the start of a round.
pub open spec fn start_player() -> PlayerM {
    PlayerM { x: PLAYER_X as int, y: PLAYER_START_Y as int, vy: 0 }
}

/// One tick of the `GameOver` state: frozen, unless a restart is latched,
/// which rebuilds the round (keeping the screen, the next spawn interval
/// and the best-score record) and drops any unspent accumulator time.
pub open spec fn tick_gameover(w: WorldM) -> WorldM {
    if w.restart_request {
        WorldM {
            player: start_player(),
            pairs: Seq::empty(),
            spawn_timer: 0,
            bg_scroll: 0,
            score: 0,
            state: GameState::Playing,
            accumulator: 0,
            jump_request: false,
            restart_request: false,
            ..w
        }
    } else {
        w
    }
}

/// One simulation tick.
pub open spec fn tick_model(w: WorldM, h: int, iv: int) -> WorldM {
    if w.state == GameState::Playing {
        tick_playing(w, h, iv)
    } else {
        tick_gameover(w)
    }
}

/// A frame's time, added to the accumulator and clamped at 0.1 s.
pub open spec fn clamp_add(w: WorldM, dt: int) -> WorldM {
    WorldM {
        accumulator: if w.accumulator + dt > MAX_ACCUMULATOR {
            MAX_ACCUMULATOR as int
        } else {
            w.accumulator + dt
        },
        ..w
    }
}

/// A frame's inputs, latched once before the tick burst. A press stays
/// latched across tick-less frames until a tick consumes it, so no input
/// is lost at render rates above the simulation rate.
pub open spec fn latch_input(w: WorldM, jump: bool, restart: bool) -> WorldM {
    WorldM {
        jump_request: w.jump_request || jump,
        restart_request: w.restart_request || restart,
        ..w
    }
}

/// One tick's worth of time taken from the accumulator.
pub open spec fn consume_step(w: WorldM) -> WorldM {
    WorldM { accumulator: w.accumulator - TIME_STEP, ..w }
}

/// `b` is the world `a` becomes after running ticks (each with some
/// in-range random draws) until the accumulator falls below one time step;
/// `n` counts those ticks.
pub open spec fn steps_to(a: WorldM, b: WorldM, n: nat) -> bool
    decreases a.accumulator,
{
    if a.accumulator < TIME_STEP {
        b == a && n == 0
    } else {
        &&& n > 0
        &&& exists|h: int, iv: int|
            draws_ok(h, iv) && steps_to(
                tick_model(consume_step(a), h, iv),
                b,
                (n - 1) as nat,
            )
    }
}

/// The world of a fresh process: a new round on the given screen, with the
/// best score as loaded from storage and the first spawn interval `iv`.
pub open spec fn init_world(screen_w: int, screen_h: int, best: int, iv: int) -> WorldM {
    WorldM {
        screen_w: screen_w,
        screen_h: screen_h,
        player: start_player(),
        pairs: Seq::empty(),
        spawn_timer: 0,
        next_spawn_interval: iv,
        bg_scroll: 0,
        score: 0,
        state: GameState::Playing,
        accumulator: 0,
        jump_request: false,
        restart_request: false,
        best: best,
        dirty: false,
    }
}

/// The world. All lengths are sub-pixels and all times are 1/75000 s units;
/// see the crate documentation for the unit system.
pub struct World {
    pub screen_w: i64,
    pub screen_h: i64,
    pub player: Player,
    pub pairs: Vec<Pair>,
    pub spawn_timer: u64,
    pub next_spawn_interval: u64,
    pub bg_scroll: i64,
    pub score: u32,
    pub state: GameState,
    pub accumulator: u64,
    pub jump_request: bool,
    pub restart_request: bool,
    pub highscore: Highscore,
}

impl View for World {
    type V = WorldM;

    open spec fn view(&self) -> WorldM {
        WorldM {
            screen_w: self.screen_w as int,
            screen_h: self.screen_h as int,
            player: self.player@,
            pairs: pairs_view(self.pairs@),
            spawn_timer: self.spawn_timer as int,
            next_spawn_interval: self.next_spawn_interval as int,
            bg_scroll: self.bg_scroll as int,
            score: self.score as int,
            state: self.state,
            accumulator: self.accumulator as int,
            jump_request: self.jump_request,
            restart_request: self.restart_request,
            best: self.highscore.best as int,
            dirty: self.highscore.dirty,
        }
    }
}

impl World {
    /// Shorthand for well-formedness of the world's view.
    pub open spec fn wf(&self) -> bool {
        world_wf(self@)
    }

    /// A fresh world on a `screen_w_px` x `screen_h_px` screen, with the
    /// best score loaded from storage and a first spawn interval `iv`.
    pub fn new(screen_w_px: u32, screen_h_px: u32, best: u32, iv: u64) -> (w: World)
        requires
            SCREEN_MIN_PX <= screen_w_px <= SCREEN_MAX_PX,
            SCREEN_MIN_PX <= screen_h_px <= SCREEN_MAX_PX,
            SPAWN_INTERVAL_MIN <= iv <= SPAWN_INTERVAL_MAX,
        ensures
            w@ == init_world(
                screen_w_px * SUBPX as int,
                screen_h_px * SUBPX as int,
                best as int,
                iv as int,
            ),
            w.wf(),
    {
        let w = World {
            screen_w: (screen_w_px as i64) * SUBPX,
            screen_h: (screen_h_px as i64) * SUBPX,
            player: Player::new(),
            pairs: Vec::new(),
            spawn_timer: 0,
            next_spawn_interval: iv,
            bg_scroll: 0,
            score: 0,
            state: GameState::Playing,
            accumulator: 0,
            jump_request: false,
            restart_request: false,
            highscore: Highscore::new(best),
        };
        proof {
            assert(w@ =~= init_world(
                screen_w_px * SUBPX as int,
                screen_h_px * SUBPX as int,
                best as int,
                iv as int,
            ));
        }
        w
    }

    /// A fresh world as at program start: the first spawn interval is
    /// drawn from the shared generator.
    pub fn new_random(screen_w_px: u32, screen_h_px: u32, best: u32) -> (w: World)
        requires
            SCREEN_MIN_PX <= screen_w_px <= SCREEN_MAX_PX,
            SCREEN_MIN_PX <= screen_h_px <= SCREEN_MAX_PX,
        ensures
            w.wf(),
            exists|iv: int|
                SPAWN_INTERVAL_MIN <= iv <= SPAWN_INTERVAL_MAX && w@ == #[trigger] init_world(
                    screen_w_px * SUBPX as int,
                    screen_h_px * SUBPX as int,
                    best as int,
                    iv,
                ),
    {
        let iv = draw_in_range(SPAWN_INTERVAL_MIN, SPAWN_INTERVAL_MAX + 1);
        let w = World::new(screen_w_px, screen_h_px, best, iv);
        proof {
            assert(SPAWN_INTERVAL_MIN <= iv as int <= SPAWN_INTERVAL_MAX && w@ == init_world(
                screen_w_px * SUBPX as int,
                screen_h_px * SUBPX as int,
                best as int,
                iv as int,
            ));
        }
        w
    }

    /// One simulation tick, with the spawner's random draws supplied by the
    /// caller: `h` the bottom-obstacle height and `iv` the next spawn
    /// interval, both used only on a tick that emits a pair. This is the
    /// deterministic heart of the simulation: the result is a pure function
    /// of the world and the draws.
    pub fn tick_with_draws(&mut self, h: i64, iv: u64)
        requires
            old(self).wf(),
            SPAWN_HEIGHT_MIN <= h <= SPAWN_HEIGHT_MAX,
            SPAWN_INTERVAL_MIN <= iv <= SPAWN_INTERVAL_MAX,
        ensures
            final(self).wf(),
            final(self)@ == tick_model(old(self)@, h as int, iv as int),
    {
        match self.state {
            GameState::GameOver => {
                if self.restart_request {
                    self.player = Player::new();
                    self.pairs = Vec::new();
                    self.spawn_timer = 0;
                    self.bg_scroll = 0;
                    self.score = 0;
                    self.state = GameState::Playing;
                    self.accumulator = 0;
                    self.jump_request = false;
                    self.restart_request = false;
                }
                proof {
                    assert(self@ =~= tick_model(old(self)@, h as int, iv as int));
                }
            },
            GameState::Playing => {
                let screen_w = self.screen_w;
                let screen_h = self.screen_h;
                let ghost w0 = self@;

                // Scroll all pairs left, retiring those past the line.
                let ghost qs0 = pairs_view(self.pairs@);
                let n = self.pairs.len();
                let mut kept: Vec<Pair> = Vec::new();
                let mut i: usize = 0;
                while i < n
                    invariant
                        i <= n,
                        n == self.pairs.len(),
                        pairs_view(self.pairs@) == qs0,
                        SCREEN_MIN <= screen_w <= SCREEN_MAX,
                        SCREEN_MIN <= screen_h <= SCREEN_MAX,
                        self.screen_w == screen_w,
                        self.screen_h == screen_h,
                        self.player@ == w0.player,
                        self.spawn_timer as int == w0.spawn_timer,
                        self.next_spawn_interval as int == w0.next_spawn_interval,
                        self.bg_scroll as int == w0.bg_scroll,
                        self.score as int == w0.score,
                        self.state == w0.state,
                        self.accumulator as int == w0.accumulator,
                        self.jump_request == w0.jump_request,
                        self.restart_request == w0.restart_request,
                        self.highscore.best as int == w0.best,
                        self.highscore.dirty == w0.dirty,
                        forall|j: int|
                            0 <= j < n ==> pair_wf(
                                #[trigger] qs0[j],
                                screen_w as int,
                                screen_h as int,
                            ),
                        pairs_view(kept@) == retained_pairs(
                            moved_pairs(qs0.subrange(0, i as int)),
                        ),
                        forall|j: int|
                            0 <= j < kept@.len() ==> pair_wf(
                                #[trigger] pairs_view(kept@)[j],
                                screen_w as int,
                                screen_h as int,
                            ) && pairs_view(kept@)[j].x >= RETIRE_X,
                    decreases n - i,
                {
                    let mut q = self.pairs[i];
                    proof {
                        assert(q@ == qs0[i as int]);
                        assert(pair_wf(qs0[i as int], screen_w as int, screen_h as int));
                    }
                    let ghost kept_before = pairs_view(kept@);
                    q.x = q.x - SCROLL_PER_TICK;
                    if q.x >= RETIRE_X {
                        kept.push(q);
                        proof {
                            assert(pairs_view(kept@) =~= kept_before.push(q@));
                        }
                    }
                    i = i + 1;
                    proof {
                        let pre = qs0.subrange(0, i - 1);
                        let cur = qs0.subrange(0, i as int);
                        assert(moved_pairs(cur).drop_last() =~= moved_pairs(pre));
                        assert(moved_pairs(cur).last() == pair_moved(qs0[i - 1]));
                        assert(moved_pairs(cur).len() == i);
                        assert(pairs_view(kept@) == retained_pairs(moved_pairs(cur)));
                    }
                }
                proof {
                    assert(qs0.subrange(0, n as int) =~= qs0);
                }
                self.pairs = kept;

                // Background scroll, wrapping after a full screen width.
                let b = self.bg_scroll - SCROLL_PER_TICK;
                self.bg_scroll = if b <= -screen_w {
                    0
                } else {
                    b
                };

                // Spawner: advance the timer; on expiry emit a pair at the
                // right edge and redraw the interval.
                self.spawn_timer = self.spawn_timer + TIME_STEP;
                if self.spawn_timer >= self.next_spawn_interval {
                    let ghost before_spawn = pairs_view(self.pairs@);
                    let fresh = Pair::spawn(screen_w, screen_h, h);
                    self.pairs.push(fresh);
                    self.spawn_timer = 0;
                    self.next_spawn_interval = iv;
                    proof {
                        assert(pairs_view(self.pairs@) =~= before_spawn.push(fresh@));
                    }
                }

                // Player kinematics, consuming the latched jump.
                let jump = self.jump_request;
                self.jump_request = false;
                self.player.step(jump, screen_h);

                // Scoring pass and collision detection.
                let ghost mid = self@;
                let ghost qs2 = pairs_view(self.pairs@);
                let ghost p1 = self.player@;
                let ghost s0 = w0.score;
                let m = self.pairs.len();
                let mut died = false;
                let mut k: usize = 0;
                while k < m
                    invariant
                        k <= m,
                        m == self.pairs.len(),
                        self.player@ == p1,
                        player_wf(p1, screen_h as int),
                        SCREEN_MIN <= screen_w <= SCREEN_MAX,
                        SCREEN_MIN <= screen_h <= SCREEN_MAX,
                        0 <= s0 <= u32::MAX,
                        self.screen_w == screen_w,
                        self.screen_h == screen_h,
                        self.spawn_timer as int == mid.spawn_timer,
                        self.next_spawn_interval as int == mid.next_spawn_interval,
                        self.bg_scroll as int == mid.bg_scroll,
                        self.state == mid.state,
                        self.accumulator as int == mid.accumulator,
                        self.jump_request == mid.jump_request,
                        self.restart_request == mid.restart_request,
                        self.highscore.best as int == mid.best,
                        self.highscore.dirty == mid.dirty,
                        forall|j: int|
                            0 <= j < m ==> pair_wf(
                                #[trigger] qs2[j],
                                screen_w as int,
                                screen_h as int,
                            ),
                        qs2.len() == m,
                        forall|j: int| k <= j < m ==> (#[trigger] self.pairs@[j])@ == qs2[j],
                        forall|j: int|
                            0 <= j < k ==> (#[trigger] self.pairs@[j])@ == pair_after_score(
                                p1,
                                qs2[j],
                            ),
                        self.score as int == sat_score(s0, count_newly(p1, qs2.subrange(0, k as int))),
                        died == exists|j: int|
                            0 <= j < k && pair_hit(p1, #[trigger] qs2[j], screen_h as int),
                    decreases m - k,
                {
                    let ghost died_pre = died;
                    let q = self.pairs[k];
                    proof {
                        assert(q@ == qs2[k as int]);
                    }
                    let hit = q.hits(&self.player, screen_h);
                    if hit {
                        died = true;
                    }
                    let scored = !q.passed && self.player.x - PASS_MARGIN > q.x + OBSTACLE_WIDTH;
                    if scored {
                        if self.score < u32::MAX {
                            self.score = self.score + 1;
                        }
                        let mut q2 = q;
                        q2.passed = true;
                        self.pairs.set(k, q2);
                    }
                    proof {
                        let ki = k as int;
                        // Effect on the pair list: entry ki is scored, the
                        // rest are untouched.
                        assert((self.pairs@[ki])@ == pair_after_score(p1, qs2[ki]));
                        // Score bookkeeping over the processed prefix.
                        let pre = qs2.subrange(0, ki);
                        let cur = qs2.subrange(0, ki + 1);
                        assert(cur.drop_last() =~= pre);
                        assert(cur.last() == qs2[ki]);
                        assert(count_newly(p1, cur) == count_newly(p1, pre) + if newly_passed(
                            p1,
                            qs2[ki],
                        ) {
                            1nat
                        } else {
                            0nat
                        });
                        // Collision bookkeeping.
                        if hit {
                            assert(pair_hit(p1, qs2[ki], screen_h as int));
                        }
                        if died_pre {
                            let j0 = choose|j: int|
                                0 <= j < ki && pair_hit(p1, #[trigger] qs2[j], screen_h as int);
                            assert(pair_hit(p1, qs2[j0], screen_h as int));
                        }
                        if !died {
                            assert forall|j: int| 0 <= j < ki + 1 implies !pair_hit(
                                p1,
                                #[trigger] qs2[j],
                                screen_h as int,
                            ) by {}
                        }
                    }
                    k = k + 1;
                }
                proof {
                    assert(qs2.subrange(0, m as int) =~= qs2);
                }

                // Leaving the vertical play area is fatal; on the tick the
                // round ends, an improved score becomes the new best.
                let oob = self.player.y + PLAYER_SIZE + FLOOR_MARGIN >= screen_h
                    || self.player.y < 0;
                if died || oob {
                    self.state = GameState::GameOver;
                    if self.score > self.highscore.best {
                        self.highscore.best = self.score;
                        self.highscore.dirty = true;
                    }
                }

                proof {
                    assert forall|j: int| 0 <= j < m implies #[trigger] pairs_view(
                        self.pairs@,
                    )[j] == pair_after_score(p1, qs2[j]) by {
                        assert((self.pairs@[j])@ == pair_after_score(p1, qs2[j]));
                    }
                    assert(pairs_view(self.pairs@) =~= scored_pairs(p1, qs2));
                    assert(self@ =~= tick_playing(w0, h as int, iv as int));
                }
            },
        }
    }

    /// One simulation tick. On a tick that emits an obstacle pair, the
    /// height and the next spawn interval are drawn from the shared
    /// generator here, so the result is one of the worlds `tick_model`
    /// allows for some in-range draws; what callers prove must hold for
    /// all of them.
    pub fn tick(&mut self)
        requires
            old(self).wf(),
        ensures
            final(self).wf(),
            exists|h: int, iv: int|
                draws_ok(h, iv) && final(self)@ == tick_model(old(self)@, h, iv),
    {
        let mut h: i64 = SPAWN_HEIGHT_MIN;
        let mut iv: u64 = SPAWN_INTERVAL_MIN;
        if self.state == GameState::Playing && self.spawn_timer + TIME_STEP
            >= self.next_spawn_interval {
            h = draw_in_range(SPAWN_HEIGHT_MIN as u64, (SPAWN_HEIGHT_MAX + 1) as u64) as i64;
            iv = draw_in_range(SPAWN_INTERVAL_MIN, SPAWN_INTERVAL_MAX + 1);
        }
        self.tick_with_draws(h, iv);
        proof {
            assert(draws_ok(h as int, iv as int) && self@ == tick_model(
                old(self)@,
                h as int,
                iv as int,
            ));
        }
    }

    /// One real frame: add the elapsed time `dt` (in 1/75000 s units) to
    /// the accumulator, clamping it at 0.1 s; latch the frame's inputs;
    /// then run ticks until less than one time step of unspent time
    /// remains. However large `dt` is, at most `MAX_TICKS_PER_FRAME` ticks
    /// run, and the leftover accumulator is always below one time step.
    pub fn frame(&mut self, dt: u64, jump: bool, restart: bool)
        requires
            old(self).wf(),
        ensures
            final(self).wf(),
            final(self)@.accumulator < TIME_STEP,
            exists|n: nat|
                n <= MAX_TICKS_PER_FRAME && steps_to(
                    latch_input(clamp_add(old(self)@, dt as int), jump, restart),
                    final(self)@,
                    n,
                ),
    {
        self.jump_request = self.jump_request || jump;
        self.restart_request = self.restart_request || restart;
        self.accumulator = if dt >= MAX_ACCUMULATOR {
            MAX_ACCUMULATOR
        } else if self.accumulator + dt >= MAX_ACCUMULATOR {
            MAX_ACCUMULATOR
        } else {
            self.accumulator + dt
        };
        let ghost start = self@;
        proof {
            assert(start =~= latch_input(clamp_add(old(self)@, dt as int), jump, restart));
        }
        let ghost mut n: nat = 0nat;
        while self.accumulator >= TIME_STEP
            invariant
                self.wf(),
                n * TIME_STEP + self@.accumulator <= start.accumulator,
                start.accumulator <= MAX_ACCUMULATOR,
                forall|e: WorldM, m: nat|
                    #[trigger] steps_to(self@, e, m) ==> steps_to(start, e, (n + m) as nat),
            decreases self.accumulator,
        {
            let ghost a = self@;
            self.accumulator = self.accumulator - TIME_STEP;
            proof {
                assert(self@ =~= consume_step(a));
            }
            self.tick();
            proof {
                let (h, iv) = choose|h: int, iv: int|
                    draws_ok(h, iv) && self@ == tick_model(consume_step(a), h, iv);
                assert(self@.accumulator <= a.accumulator - TIME_STEP);
                n = n + 1;
                assert forall|e: WorldM, m: nat| #[trigger] steps_to(self@, e, m) implies steps_to(
                    start,
                    e,
                    (n + m) as nat,
                ) by {
                    assert(draws_ok(h, iv) && steps_to(
                        tick_model(consume_step(a), h, iv),
                        e,
                        m,
                    ));
                    assert(exists|h2: int, iv2: int|
                        draws_ok(h2, iv2) && steps_to(
                            tick_model(consume_step(a), h2, iv2),
                            e,
                            m,
                        ));
                    assert(steps_to(a, e, (m + 1) as nat));
                }
            }
        }
        proof {
            assert(steps_to(self@, self@, 0nat));
            assert(steps_to(start, self@, n));
            assert(n * TIME_STEP <= start.accumulator);
            assert(n <= MAX_TICKS_PER_FRAME);
        }
    }
}

} // verus!
