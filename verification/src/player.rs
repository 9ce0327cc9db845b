//! The player: a vertical kinematic particle with a jump impulse and
//! floor/ceiling clamping. Horizontal position is fixed.

use vstd::prelude::*;
use crate::consts::{
    GRAVITY_PER_TICK, JUMP_VELOCITY, PLAYER_SIZE, PLAYER_START_Y, PLAYER_X, SCREEN_MAX,
    SCREEN_MIN,
};

verus! {

/// Mathematical view of the player, in sub-pixels and velocity units.
#[verifier::ext_equal]
pub ghost struct PlayerM {
    pub x: int,
    pub y: int,
    pub vy: int,
}

/// The player body. `x`, `y` are the centre of the sprite in sub-pixels;
/// `vy` is the vertical velocity in units of 1/75 px/s, positive downward.
#[derive(Clone, Copy, Debug)]
pub struct Player {
    pub x: i64,
    pub y: i64,
    pub vy: i64,
}

impl View for Player {
    type V = PlayerM;

    open spec fn view(&self) -> PlayerM {
        PlayerM { x: self.x as int, y: self.y as int, vy: self.vy as int }
    }
}

/// Well-formedness of a player on a screen of height `screen_h` sub-pixels:
/// the centre stays a player-half-size away from both screen edges, and one
/// tick's displacement (`2 * vy`) never exceeds a screen height.
pub open spec fn player_wf(p: PlayerM, screen_h: int) -> bool {
    &&& 0 <= p.x <= SCREEN_MAX
    &&& PLAYER_SIZE <= p.y <= screen_h - PLAYER_SIZE
    &&& -screen_h <= 2 * p.vy <= screen_h
}

/// One tick of player kinematics (dt = 1/75 s): gravity, then an optional
/// jump impulse that overrides the velocity, then displacement, then the
/// floor/ceiling clamp (a clamped body also loses its velocity).
pub open spec fn player_step(p: PlayerM, jump: bool, screen_h: int) -> PlayerM {
    let vy1 = if jump { JUMP_VELOCITY as int } else { p.vy + GRAVITY_PER_TICK };
    let y1 = p.y + 2 * vy1;
    if y1 + PLAYER_SIZE >= screen_h {
        PlayerM { y: screen_h - PLAYER_SIZE, vy: 0, ..p }
    } else if y1 - PLAYER_SIZE < 0 {
        PlayerM { y: PLAYER_SIZE as int, vy: 0, ..p }
    } else {
        PlayerM { y: y1, vy: vy1, ..p }
    }
}

impl Player {
    /// The player at the start of a round: at (100 px, 100 px), at rest.
    pub fn new() -> (p: Player)
        ensures
            p@ == (PlayerM { x: PLAYER_X as int, y: PLAYER_START_Y as int, vy: 0 }),
    {
        Player { x: PLAYER_X, y: PLAYER_START_Y, vy: 0 }
    }

    /// Advance the player by one tick. `jump` is the latched jump request.
    pub fn step(&mut self, jump: bool, screen_h: i64)
        requires
            player_wf(old(self)@, screen_h as int),
            SCREEN_MIN <= screen_h <= SCREEN_MAX,
        ensures
            final(self)@ == player_step(old(self)@, jump, screen_h as int),
            player_wf(final(self)@, screen_h as int),
    {
        let vy1: i64 = if jump { JUMP_VELOCITY } else { self.vy + GRAVITY_PER_TICK };
        let y1: i64 = self.y + 2 * vy1;
        if y1 + PLAYER_SIZE >= screen_h {
            self.y = screen_h - PLAYER_SIZE;
            self.vy = 0;
        } else if y1 - PLAYER_SIZE < 0 {
            self.y = PLAYER_SIZE;
            self.vy = 0;
        } else {
            self.y = y1;
            self.vy = vy1;
        }
    }
}

} // verus!
