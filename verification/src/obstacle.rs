//! Obstacle pairs: two vertically offset rectangles sharing an x coordinate,
//! scrolling leftward, with a latched `passed` flag used for scoring.

use vstd::prelude::*;
use crate::consts::{
    FLOOR_MARGIN, GAP, GAP_PLUS_FLOOR, OBSTACLE_WIDTH, PASS_MARGIN, PLAYER_SIZE,
    PLAYER_RECT_SIDE, RETIRE_X, SCREEN_MAX, SCREEN_MIN, SCROLL_PER_TICK, SPAWN_HEIGHT_MAX,
    SPAWN_HEIGHT_MIN,
};
use crate::geom::{RectM, rects_overlap};
use crate::player::{Player, PlayerM};

verus! {

/// Mathematical view of an obstacle pair.
#[verifier::ext_equal]
pub ghost struct PairM {
    pub x: int,
    pub top_h: int,
    pub bot_h: int,
    pub passed: bool,
}

/// An obstacle pair. `x` is the shared left edge of both members in
/// sub-pixels; `top_h` is the height of the top member (hanging from the
/// ceiling), `bot_h` the visible height of the bottom member (standing on
/// the floor strip); `passed` latches once the player has cleared the pair.
#[derive(Clone, Copy, Debug)]
pub struct Pair {
    pub x: i64,
    pub top_h: i64,
    pub bot_h: i64,
    pub passed: bool,
}

impl View for Pair {
    type V = PairM;

    open spec fn view(&self) -> PairM {
        PairM {
            x: self.x as int,
            top_h: self.top_h as int,
            bot_h: self.bot_h as int,
            passed: self.passed,
        }
    }
}

/// Well-formedness of a pair on a screen of `screen_w` x `screen_h`
/// sub-pixels: it lies between the spawn edge and one tick left of the
/// retirement line, and the two heights exhaust the screen height minus the
/// gap and the floor strip.
pub open spec fn pair_wf(q: PairM, screen_w: int, screen_h: int) -> bool {
    &&& RETIRE_X - SCROLL_PER_TICK <= q.x <= screen_w
    &&& 0 <= q.bot_h <= SCREEN_MAX
    &&& q.top_h == screen_h - q.bot_h - GAP_PLUS_FLOOR
}

/// The top member's rectangle: hangs from the top of the screen.
pub open spec fn top_rect(q: PairM) -> RectM {
    RectM { x: q.x, y: 0, w: OBSTACLE_WIDTH as int, h: q.top_h }
}

/// The bottom member's rectangle: stands on the floor strip.
pub open spec fn bot_rect(q: PairM, screen_h: int) -> RectM {
    RectM {
        x: q.x,
        y: screen_h - q.bot_h - FLOOR_MARGIN,
        w: OBSTACLE_WIDTH as int,
        h: q.bot_h,
    }
}

/// The player's collision rectangle: a square of side 47.5 px centred on
/// the player's position.
pub open spec fn player_rect(p: PlayerM) -> RectM {
    RectM {
        x: p.x - PLAYER_SIZE,
        y: p.y - PLAYER_SIZE,
        w: PLAYER_RECT_SIDE as int,
        h: PLAYER_RECT_SIDE as int,
    }
}

/// Does the player collide with either member of the pair?
pub open spec fn pair_hit(p: PlayerM, q: PairM, screen_h: int) -> bool {
    ||| rects_overlap(player_rect(p), top_rect(q))
    ||| rects_overlap(player_rect(p), bot_rect(q, screen_h))
}

/// Has the player cleared the pair: its x exceeds the pair's right edge by
/// more than the 30 px pass margin.
pub open spec fn pair_cleared(p: PlayerM, q: PairM) -> bool {
    p.x - PASS_MARGIN > q.x + OBSTACLE_WIDTH
}

/// Is the pair scored by this tick: not yet passed, and now cleared.
pub open spec fn newly_passed(p: PlayerM, q: PairM) -> bool {
    !q.passed && pair_cleared(p, q)
}

/// The pair after the scoring pass of one tick: `passed` latches when the
/// player has cleared it, and nothing else changes.
pub open spec fn pair_after_score(p: PlayerM, q: PairM) -> PairM {
    if newly_passed(p, q) {
        PairM { passed: true, ..q }
    } else {
        q
    }
}

/// The pair after one tick of leftward scrolling.
pub open spec fn pair_moved(q: PairM) -> PairM {
    PairM { x: q.x - SCROLL_PER_TICK, ..q }
}

/// Both members of a pair share one x coordinate at all times (they are
/// projections of the same stored `x`), and the two heights together with
/// the gap and the floor strip exhaust the screen height.
pub proof fn lemma_pair_geometry(q: PairM, screen_w: int, screen_h: int)
    requires
        pair_wf(q, screen_w, screen_h),
    ensures
        top_rect(q).x == bot_rect(q, screen_h).x,
        top_rect(q).h + bot_rect(q, screen_h).h + GAP + FLOOR_MARGIN == screen_h,
{
}

/// The `passed` flag is a latch: the scoring pass never clears it, it
/// rises only on a tick where the player has cleared the pair's right edge
/// by the pass margin, and a pair that has been through the pass can never
/// score again.
pub proof fn lemma_passed_latch(p: PlayerM, q: PairM)
    ensures
        q.passed ==> pair_after_score(p, q).passed,
        pair_after_score(p, q).passed && !q.passed ==> pair_cleared(p, q),
        pair_after_score(p, q).passed == (q.passed || pair_cleared(p, q)),
        !newly_passed(p, pair_after_score(p, q)),
{
}

impl Pair {
    /// A freshly spawned pair at the right edge of the screen, whose bottom
    /// member has visible height `bot_h`.
    pub fn spawn(screen_w: i64, screen_h: i64, bot_h: i64) -> (q: Pair)
        requires
            SCREEN_MIN <= screen_w <= SCREEN_MAX,
            SCREEN_MIN <= screen_h <= SCREEN_MAX,
            SPAWN_HEIGHT_MIN <= bot_h <= SPAWN_HEIGHT_MAX,
        ensures
            q@ == spawn_pair(screen_w as int, screen_h as int, bot_h as int),
            pair_wf(q@, screen_w as int, screen_h as int),
    {
        Pair { x: screen_w, top_h: screen_h - bot_h - GAP_PLUS_FLOOR, bot_h, passed: false }
    }

    /// Does the player collide with either member of this pair?
    pub fn hits(&self, p: &Player, screen_h: i64) -> (b: bool)
        requires
            pair_wf(self@, SCREEN_MAX as int, screen_h as int),
            crate::player::player_wf(p@, screen_h as int),
            SCREEN_MIN <= screen_h <= SCREEN_MAX,
        ensures
            b == pair_hit(p@, self@, screen_h as int),
    {
        let ax: i64 = p.x - PLAYER_SIZE;
        let ay: i64 = p.y - PLAYER_SIZE;
        let top = ax < self.x + OBSTACLE_WIDTH && self.x < ax + PLAYER_RECT_SIDE
            && ay < 0 + self.top_h && 0 < ay + PLAYER_RECT_SIDE;
        let by: i64 = screen_h - self.bot_h - FLOOR_MARGIN;
        let bot = ax < self.x + OBSTACLE_WIDTH && self.x < ax + PLAYER_RECT_SIDE
            && ay < by + self.bot_h && by < ay + PLAYER_RECT_SIDE;
        top || bot
    }
}

/// The pair `Pair::spawn` creates.
pub open spec fn spawn_pair(screen_w: int, screen_h: int, bot_h: int) -> PairM {
    PairM { x: screen_w, top_h: screen_h - bot_h - GAP_PLUS_FLOOR, bot_h: bot_h, passed: false }
}

} // verus!
