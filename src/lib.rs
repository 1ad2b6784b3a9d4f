//! Scoring engine for a game of ten-pin bowling.
//!
//! Rolls are fed frame by frame; the score can be queried at any time and is
//! reported either as final or as a lower bound that later rolls may raise.
pub mod roll;
pub mod rules;
pub mod game;
pub mod laws;

pub use roll::{parse_draw, Draw, NextAction, Pins};
pub use game::{Frame, Game, RegularFrame, TenthFrame};
