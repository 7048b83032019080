//! A side-scrolling reflex game: a falling player kept airborne by upward
//! impulses, passing through gaps in a stream of obstacles.
//!
//! The physics, collision, obstacle placement and game-mode rules live here
//! with their contracts; drawing, keyboard polling and the timed producer of
//! rolled gaps are driven from outside through plain values.
mod obstacle;
mod player;
mod random;
mod session;

pub use obstacle::{placed, Generator, Obstacle, OBSTACLE_SPACING, SCREEN_HEIGHT, SCREEN_WIDTH};
pub use player::{lemma_blocked_is_final, rows_of, Player, PlayerError};
pub use player::{FLAP_VELOCITY, GRAVITY, MAX_FLAP_VELOCITY, TERMINAL_VELOCITY};
pub use random::{roll_gap, MAX_GAP_SIZE, MAX_GAP_Y, MIN_GAP_SIZE, MIN_GAP_Y};
pub use session::{kept, lemma_feed_continues, lemma_scores_once, opening, ordered, rolls_wf, scored, survives};
pub use session::{GameMode, HighScore, Key, Signal, State};
pub use session::{CULL_MARGIN, FRAME_DURATION, OPENING_OBSTACLES, START_X, START_Y};
