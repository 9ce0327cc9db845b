//! Core of a side-scrolling obstacle-avoidance arcade game: a fixed-timestep
//! simulation (75 Hz) of a gravity-bound player weaving between scrolling
//! obstacle pairs, with collision detection, scoring, a two-state round
//! machine, and a persistent best score.
//!
//! All quantities are integers. Positions are kept in sub-pixels
//! (11250 sub-pixels per pixel) and vertical velocity in units of 1/75 px/s,
//! so that one simulation tick of 1/75 s moves a body by exactly
//! `2 * velocity` sub-pixels and every rule of the game is exact arithmetic.
//! Time is kept in units of 1/75000 s, so a tick lasts exactly 1000 units.

pub mod consts;
pub mod geom;
pub mod player;
pub mod obstacle;
pub mod hiscore;
pub mod world;
pub mod laws;
mod rng;
