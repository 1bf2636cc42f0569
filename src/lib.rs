//! A falling-block puzzle game engine: piece geometry, board model,
//! move/rotate/lock transitions, text rendering and input decisions.
pub mod board;
pub mod game;
pub mod input;
pub mod piece;
pub mod render;

pub use board::{HEIGHT, WIDTH};
pub use game::{GameState, Outcome};
pub use input::{key_action, plan_frame, FramePlan, Key, KeyAction, FRAME_DELAY_US, UPDATE_DELAY_US};
pub use piece::{Block, Cursor, Direction};
