//! The global guarantees of the simulation, stated and proved over the
//! mathematical model: frame-rate independence of the clock, the
//! accumulator and catch-up bounds, monotonicity of score and best score,
//! pair geometry, and the edge-triggered jump.

use vstd::prelude::*;
use crate::consts::{
    FLOOR_MARGIN, GAP, LOSSLESS_FRAME_DT, MAX_ACCUMULATOR, MAX_TICKS_PER_FRAME, TIME_STEP,
};
use crate::player::player_step;
use crate::world::{
    GameState, WorldM, consume_step, draws_ok, steps_to, tick_model, world_wf,
};

verus! {

/// The frame-time accumulator after adding a frame's elapsed time: clamped
/// at 0.1 s so a stall cannot trigger an unbounded catch-up burst.
pub open spec fn clamp_acc(x: int) -> int {
    if x > MAX_ACCUMULATOR {
        MAX_ACCUMULATOR as int
    } else {
        x
    }
}

/// How many whole time steps an accumulator value yields.
pub open spec fn drain_ticks(a: int) -> int
    decreases a,
{
    if a < TIME_STEP {
        0
    } else {
        1 + drain_ticks(a - TIME_STEP)
    }
}

/// What remains of an accumulator value after draining its whole steps.
pub open spec fn drain_rem(a: int) -> int
    decreases a,
{
    if a < TIME_STEP {
        a
    } else {
        drain_rem(a - TIME_STEP)
    }
}

/// The total of a sequence of frame times.
pub open spec fn dt_sum(dts: Seq<int>) -> int
    decreases dts.len(),
{
    if dts.len() == 0 {
        0
    } else {
        dts.first() + dt_sum(dts.drop_first())
    }
}

/// Total ticks run by a cadence of real frames `dts`, starting from
/// accumulator `acc`: each frame adds its time, clamps, and drains.
pub open spec fn run_ticks(acc: int, dts: Seq<int>) -> int
    decreases dts.len(),
{
    if dts.len() == 0 {
        0
    } else {
        let a1 = clamp_acc(acc + dts.first());
        drain_ticks(a1) + run_ticks(drain_rem(a1), dts.drop_first())
    }
}

/// The accumulator left after a cadence of real frames `dts`.
pub open spec fn run_rem(acc: int, dts: Seq<int>) -> int
    decreases dts.len(),
{
    if dts.len() == 0 {
        acc
    } else {
        let a1 = clamp_acc(acc + dts.first());
        run_rem(drain_rem(a1), dts.drop_first())
    }
}

/// Draining splits an accumulator exactly into whole steps and a remainder
/// below one step.
pub proof fn lemma_drain(a: int)
    requires
        0 <= a,
    ensures
        0 <= drain_ticks(a),
        0 <= drain_rem(a) < TIME_STEP,
        TIME_STEP * drain_ticks(a) + drain_rem(a) == a,
    decreases a,
{
    if a >= TIME_STEP {
        lemma_drain(a - TIME_STEP);
    }
}

/// As long as every real frame is short enough that the clamp never bites
/// (at most `LOSSLESS_FRAME_DT`), a cadence conserves time exactly: whole
/// steps become ticks and the rest stays in the accumulator.
pub proof fn lemma_run_conserves_time(acc: int, dts: Seq<int>)
    requires
        0 <= acc < TIME_STEP,
        forall|i: int| 0 <= i < dts.len() ==> 0 <= #[trigger] dts[i] <= LOSSLESS_FRAME_DT,
    ensures
        TIME_STEP * run_ticks(acc, dts) + run_rem(acc, dts) == acc + dt_sum(dts),
        0 <= run_rem(acc, dts) < TIME_STEP,
        0 <= run_ticks(acc, dts),
    decreases dts.len(),
{
    if dts.len() > 0 {
        assert(dts[0] == dts.first());
        let a1 = clamp_acc(acc + dts.first());
        assert(acc + dts.first() <= MAX_ACCUMULATOR);
        assert(a1 == acc + dts.first());
        lemma_drain(a1);
        assert(forall|i: int|
            0 <= i < dts.drop_first().len() ==> 0 <= #[trigger] dts.drop_first()[i]
                <= LOSSLESS_FRAME_DT);
        lemma_run_conserves_time(drain_rem(a1), dts.drop_first());
    }
}

/// Frame-rate independence of the clock: two cadences of real frames with
/// the same total elapsed time run the same number of ticks and leave the
/// same accumulator, however differently that time is cut into frames —
/// provided no frame is so long that the catch-up clamp discards time.
/// `lemma_world_frame_rate_independence` lifts this to whole worlds.
pub proof fn lemma_frame_rate_independence(acc: int, dts1: Seq<int>, dts2: Seq<int>)
    requires
        0 <= acc < TIME_STEP,
        forall|i: int| 0 <= i < dts1.len() ==> 0 <= #[trigger] dts1[i] <= LOSSLESS_FRAME_DT,
        forall|i: int| 0 <= i < dts2.len() ==> 0 <= #[trigger] dts2[i] <= LOSSLESS_FRAME_DT,
        dt_sum(dts1) == dt_sum(dts2),
    ensures
        run_ticks(acc, dts1) == run_ticks(acc, dts2),
        run_rem(acc, dts1) == run_rem(acc, dts2),
{
    lemma_run_conserves_time(acc, dts1);
    lemma_run_conserves_time(acc, dts2);
}

/// `w` with its accumulator replaced.
pub open spec fn set_acc(w: WorldM, acc: int) -> WorldM {
    WorldM { accumulator: acc, ..w }
}

/// The world after `n` ticks whose spawner draws are read from the
/// tick-indexed streams `hs` and `ivs`, starting at absolute tick `t0`.
/// This is what a seeded generator amounts to: the draw a tick sees is a
/// function of the tick's index alone.
pub open spec fn run_world(w: WorldM, hs: Seq<int>, ivs: Seq<int>, t0: int, n: nat) -> WorldM
    decreases n,
{
    if n == 0 {
        w
    } else {
        run_world(tick_model(w, hs[t0], ivs[t0]), hs, ivs, t0 + 1, (n - 1) as nat)
    }
}

/// The world after a cadence of input-free real frames `dts`: each frame
/// adds its time, clamps, banks the remainder, and runs its whole steps
/// as ticks, drawing from the same tick-indexed streams. This mirrors
/// `World::frame` with the draws made explicit and nothing pressed (with
/// no restart latched a tick neither reads nor changes the accumulator,
/// so banking the remainder first is the same).
pub open spec fn run_frames(w: WorldM, dts: Seq<int>, hs: Seq<int>, ivs: Seq<int>, t0: int) -> WorldM
    decreases dts.len(),
{
    if dts.len() == 0 {
        w
    } else {
        let a1 = clamp_acc(w.accumulator + dts.first());
        let n = drain_ticks(a1);
        let w1 = run_world(set_acc(w, drain_rem(a1)), hs, ivs, t0, n as nat);
        run_frames(w1, dts.drop_first(), hs, ivs, t0 + n)
    }
}

/// With no restart latched, a tick neither changes the accumulator nor
/// raises a restart.
pub proof fn lemma_tick_keeps_clock(w: WorldM, h: int, iv: int)
    requires
        !w.restart_request,
    ensures
        tick_model(w, h, iv).accumulator == w.accumulator,
        !tick_model(w, h, iv).restart_request,
{
}

/// With no restart latched, a tick commutes with replacing the
/// accumulator: the rest of the world never reads it.
pub proof fn lemma_tick_ignores_acc(w: WorldM, h: int, iv: int, acc: int)
    requires
        !w.restart_request,
    ensures
        tick_model(set_acc(w, acc), h, iv) == set_acc(tick_model(w, h, iv), acc),
{
    assert(tick_model(set_acc(w, acc), h, iv) =~= set_acc(tick_model(w, h, iv), acc));
}

/// `lemma_tick_keeps_clock`, extended over a whole run of ticks.
pub proof fn lemma_run_world_keeps_clock(w: WorldM, hs: Seq<int>, ivs: Seq<int>, t0: int, n: nat)
    requires
        !w.restart_request,
    ensures
        run_world(w, hs, ivs, t0, n).accumulator == w.accumulator,
        !run_world(w, hs, ivs, t0, n).restart_request,
    decreases n,
{
    if n > 0 {
        lemma_tick_keeps_clock(w, hs[t0], ivs[t0]);
        lemma_run_world_keeps_clock(tick_model(w, hs[t0], ivs[t0]), hs, ivs, t0 + 1, (n - 1) as nat);
    }
}

/// `lemma_tick_ignores_acc`, extended over a whole run of ticks.
pub proof fn lemma_run_world_ignores_acc(
    w: WorldM,
    hs: Seq<int>,
    ivs: Seq<int>,
    t0: int,
    n: nat,
    acc: int,
)
    requires
        !w.restart_request,
    ensures
        run_world(set_acc(w, acc), hs, ivs, t0, n) == set_acc(run_world(w, hs, ivs, t0, n), acc),
    decreases n,
{
    if n > 0 {
        lemma_tick_ignores_acc(w, hs[t0], ivs[t0], acc);
        lemma_tick_keeps_clock(w, hs[t0], ivs[t0]);
        lemma_run_world_ignores_acc(
            tick_model(w, hs[t0], ivs[t0]),
            hs,
            ivs,
            t0 + 1,
            (n - 1) as nat,
            acc,
        );
    }
}

/// Two consecutive runs of ticks are one run.
pub proof fn lemma_run_world_append(
    w: WorldM,
    hs: Seq<int>,
    ivs: Seq<int>,
    t0: int,
    n: nat,
    m: nat,
)
    ensures
        run_world(run_world(w, hs, ivs, t0, n), hs, ivs, t0 + n, m) == run_world(
            w,
            hs,
            ivs,
            t0,
            (n + m) as nat,
        ),
    decreases n,
{
    if n > 0 {
        lemma_run_world_append(tick_model(w, hs[t0], ivs[t0]), hs, ivs, t0 + 1, (n - 1) as nat, m);
    }
}

/// A cadence of lossless, input-free frames is nothing but one flat run
/// of ticks — as many as the conserved time holds whole steps — with the
/// remainder banked in the accumulator. In particular each frame runs
/// exactly the whole steps of its clamped accumulator.
pub proof fn lemma_run_frames_flatten(
    w: WorldM,
    dts: Seq<int>,
    hs: Seq<int>,
    ivs: Seq<int>,
    t0: int,
)
    requires
        0 <= w.accumulator < TIME_STEP,
        !w.restart_request,
        forall|i: int| 0 <= i < dts.len() ==> 0 <= #[trigger] dts[i] <= LOSSLESS_FRAME_DT,
    ensures
        run_frames(w, dts, hs, ivs, t0) == set_acc(
            run_world(w, hs, ivs, t0, run_ticks(w.accumulator, dts) as nat),
            run_rem(w.accumulator, dts),
        ),
    decreases dts.len(),
{
    lemma_run_conserves_time(w.accumulator, dts);
    if dts.len() == 0 {
        assert(set_acc(run_world(w, hs, ivs, t0, 0nat), w.accumulator) =~= w);
    } else {
        assert(dts[0] == dts.first());
        let a1 = clamp_acc(w.accumulator + dts.first());
        assert(a1 == w.accumulator + dts.first());
        lemma_drain(a1);
        let n1 = drain_ticks(a1);
        let rem1 = drain_rem(a1);
        let rest = dts.drop_first();
        assert(forall|i: int|
            0 <= i < rest.len() ==> 0 <= #[trigger] rest[i] <= LOSSLESS_FRAME_DT);
        lemma_run_conserves_time(rem1, rest);
        let n2 = run_ticks(rem1, rest);
        let w1 = run_world(set_acc(w, rem1), hs, ivs, t0, n1 as nat);
        lemma_run_world_ignores_acc(w, hs, ivs, t0, n1 as nat, rem1);
        lemma_run_world_keeps_clock(w, hs, ivs, t0, n1 as nat);
        lemma_run_frames_flatten(w1, rest, hs, ivs, t0 + n1);
        // The tail run of w1 is the tail run of the flat world, with the
        // remainder carried outside.
        let flat1 = run_world(w, hs, ivs, t0, n1 as nat);
        assert(w1 == set_acc(flat1, rem1));
        lemma_run_world_ignores_acc(flat1, hs, ivs, t0 + n1, n2 as nat, rem1);
        lemma_run_world_append(w, hs, ivs, t0, n1 as nat, n2 as nat);
        assert(run_world(w1, hs, ivs, t0 + n1, n2 as nat) == set_acc(
            run_world(w, hs, ivs, t0, (n1 + n2) as nat),
            rem1,
        ));
        assert(set_acc(
            set_acc(run_world(w, hs, ivs, t0, (n1 + n2) as nat), rem1),
            run_rem(rem1, rest),
        ) =~= set_acc(run_world(w, hs, ivs, t0, (n1 + n2) as nat), run_rem(rem1, rest)));
        assert(run_ticks(w.accumulator, dts) == n1 + n2);
        assert(run_rem(w.accumulator, dts) == run_rem(rem1, rest));
    }
}

/// Frame-rate independence, end to end: from one world, two cadences of
/// input-free real frames with the same total elapsed time, drawing from
/// the same tick-indexed streams (one seeded generator), produce
/// bit-identical worlds — however differently that time is cut into
/// frames. Each frame must be short enough that the catch-up clamp never
/// discards time, and no restart may be latched: a restart zeroes the
/// accumulator and so re-anchors the clock, and an input pressed mid-tick
/// is latched to a frame boundary, which only coincides across cadences
/// when it falls on a shared tick boundary.
pub proof fn lemma_world_frame_rate_independence(
    w: WorldM,
    dts1: Seq<int>,
    dts2: Seq<int>,
    hs: Seq<int>,
    ivs: Seq<int>,
    t0: int,
)
    requires
        0 <= w.accumulator < TIME_STEP,
        !w.restart_request,
        forall|i: int| 0 <= i < dts1.len() ==> 0 <= #[trigger] dts1[i] <= LOSSLESS_FRAME_DT,
        forall|i: int| 0 <= i < dts2.len() ==> 0 <= #[trigger] dts2[i] <= LOSSLESS_FRAME_DT,
        dt_sum(dts1) == dt_sum(dts2),
    ensures
        run_frames(w, dts1, hs, ivs, t0) == run_frames(w, dts2, hs, ivs, t0),
{
    lemma_frame_rate_independence(w.accumulator, dts1, dts2);
    lemma_run_frames_flatten(w, dts1, hs, ivs, t0);
    lemma_run_frames_flatten(w, dts2, hs, ivs, t0);
}

/// With no restart latched, a burst's length is no accident: it runs
/// exactly the whole time steps its accumulator holds, and banks the
/// rest. Together with `World::frame`'s ensures this pins the tick count
/// of every real frame; the one exception is a latched restart, which
/// ends the burst by zeroing the accumulator.
pub proof fn lemma_exact_tick_count(a: WorldM, b: WorldM, n: nat)
    requires
        steps_to(a, b, n),
        0 <= a.accumulator,
        !a.restart_request,
    ensures
        n == drain_ticks(a.accumulator),
        b.accumulator == drain_rem(a.accumulator),
    decreases n,
{
    if a.accumulator >= TIME_STEP {
        let (h, iv) = choose|h: int, iv: int|
            draws_ok(h, iv) && steps_to(tick_model(consume_step(a), h, iv), b, (n - 1) as nat);
        lemma_tick_keeps_clock(consume_step(a), h, iv);
        lemma_exact_tick_count(tick_model(consume_step(a), h, iv), b, (n - 1) as nat);
    }
}

/// Accumulator bound: after any burst of ticks (and so after any real
/// frame), the accumulator lies in [0, TIME_STEP).
pub proof fn lemma_accumulator_bound(a: WorldM, b: WorldM, n: nat)
    requires
        steps_to(a, b, n),
        0 <= a.accumulator,
    ensures
        0 <= b.accumulator < TIME_STEP,
    decreases n,
{
    if a.accumulator >= TIME_STEP {
        let (h, iv) = choose|h: int, iv: int|
            draws_ok(h, iv) && steps_to(tick_model(consume_step(a), h, iv), b, (n - 1) as nat);
        lemma_accumulator_bound(tick_model(consume_step(a), h, iv), b, (n - 1) as nat);
    }
}

/// Catch-up clamp: a burst never runs more ticks than the accumulator
/// holds whole time steps; with the clamp at 0.1 s that is at most
/// `MAX_TICKS_PER_FRAME` ticks per real frame, however long the frame.
pub proof fn lemma_catch_up_bound(a: WorldM, b: WorldM, n: nat)
    requires
        steps_to(a, b, n),
        0 <= a.accumulator,
    ensures
        n * TIME_STEP <= a.accumulator,
        a.accumulator <= MAX_ACCUMULATOR ==> n <= MAX_TICKS_PER_FRAME,
    decreases n,
{
    if a.accumulator >= TIME_STEP {
        let (h, iv) = choose|h: int, iv: int|
            draws_ok(h, iv) && steps_to(tick_model(consume_step(a), h, iv), b, (n - 1) as nat);
        lemma_catch_up_bound(tick_model(consume_step(a), h, iv), b, (n - 1) as nat);
    }
}

/// Score monotonicity within a round: no tick of the `Playing` state ever
/// lowers the score. (A restart begins a new round and resets it.)
pub proof fn lemma_score_monotone(w: WorldM, h: int, iv: int)
    requires
        w.state == GameState::Playing,
        0 <= w.score <= u32::MAX,
    ensures
        tick_model(w, h, iv).score >= w.score,
{
}

/// The best score never decreases, on any tick of either state.
pub proof fn lemma_best_monotone(w: WorldM, h: int, iv: int)
    ensures
        tick_model(w, h, iv).best >= w.best,
{
}

/// The best score never decreases across a whole burst of ticks.
pub proof fn lemma_best_monotone_run(a: WorldM, b: WorldM, n: nat)
    requires
        steps_to(a, b, n),
    ensures
        b.best >= a.best,
    decreases n,
{
    if a.accumulator >= TIME_STEP {
        let (h, iv) = choose|h: int, iv: int|
            draws_ok(h, iv) && steps_to(tick_model(consume_step(a), h, iv), b, (n - 1) as nat);
        lemma_best_monotone(consume_step(a), h, iv);
        lemma_best_monotone_run(tick_model(consume_step(a), h, iv), b, (n - 1) as nat);
    }
}

/// Pair geometry: in every well-formed world, both members of a pair share
/// one x coordinate, and the two heights together with the gap and the
/// floor strip exhaust the screen height.
pub proof fn lemma_world_pair_geometry(w: WorldM, i: int)
    requires
        world_wf(w),
        0 <= i < w.pairs.len(),
    ensures
        crate::obstacle::top_rect(w.pairs[i]).x == crate::obstacle::bot_rect(
            w.pairs[i],
            w.screen_h,
        ).x,
        w.pairs[i].top_h + w.pairs[i].bot_h + GAP + FLOOR_MARGIN == w.screen_h,
{
}

/// The jump input is edge-triggered: a tick of the `Playing` state applies
/// the latched jump to the player exactly once and clears the latch, so
/// the remaining ticks of the same frame's burst see no jump, however many
/// catch-up ticks the frame runs.
pub proof fn lemma_jump_edge_triggered(w: WorldM, h: int, iv: int)
    requires
        w.state == GameState::Playing,
    ensures
        tick_model(w, h, iv).player == player_step(w.player, w.jump_request, w.screen_h),
        !tick_model(w, h, iv).jump_request,
{
}

} // verus!
