use vstd::prelude::*;

use crate::piece::Direction;

verus! {

/// Microseconds between two gravity ticks.
pub const UPDATE_DELAY_US: u64 = 1_000_000;

/// Microseconds per rendered frame, thirty frames a second.
pub const FRAME_DELAY_US: u64 = 33_333;

/// A key press as the game sees it.
#[derive(Clone, Copy, Debug, PartialEq, Eq, Structural)]
pub enum Key {
    Up,
    Down,
    Left,
    Right,
    Char(char),
    Other,
}

/// What a key press asks of the game.
#[derive(Clone, Copy, Debug, PartialEq, Eq, Structural)]
pub enum KeyAction {
    /// Apply this input to the active piece (`Up` turns it).
    Move(Direction),
    /// Ctrl-C: stop at once, as on an internal failure.
    Abort,
    /// Nothing to do; keep reading keys.
    Ignore,
    /// An unrecognized key: stop the game.
    Quit,
}

/// The action for `key`; `ctrl` tells whether the Ctrl modifier was held.
pub open spec fn action_of(key: Key, ctrl: bool) -> KeyAction {
    match key {
        Key::Up => KeyAction::Move(Direction::Up),
        Key::Down => KeyAction::Move(Direction::Down),
        Key::Left => KeyAction::Move(Direction::Left),
        Key::Right => KeyAction::Move(Direction::Right),
        Key::Char(c) => if c == 'c' {
            if ctrl {
                KeyAction::Abort
            } else {
                KeyAction::Ignore
            }
        } else {
            KeyAction::Quit
        },
        Key::Other => KeyAction::Quit,
    }
}

/// Maps a key press to what it asks of the game.
pub fn key_action(key: Key, ctrl: bool) -> (r: KeyAction)
    ensures
        r == action_of(key, ctrl),
{
    match key {
        Key::Up => KeyAction::Move(Direction::Up),
        Key::Down => KeyAction::Move(Direction::Down),
        Key::Left => KeyAction::Move(Direction::Left),
        Key::Right => KeyAction::Move(Direction::Right),
        Key::Char(c) => {
            if c == 'c' {
                if ctrl {
                    KeyAction::Abort
                } else {
                    KeyAction::Ignore
                }
            } else {
                KeyAction::Quit
            }
        },
        Key::Other => KeyAction::Quit,
    }
}

/// What one pass of the game loop does after drawing and reading keys.
#[derive(Clone, Copy, Debug, PartialEq, Eq, Structural)]
pub struct FramePlan {
    /// A gravity tick is owed: move the piece down and advance the gravity
    /// clock by `UPDATE_DELAY_US`.
    pub gravity: bool,
    /// Microseconds to sleep to hold the frame rate.
    pub sleep_us: u64,
    /// The frame is late: advance the frame clock by `FRAME_DELAY_US` instead of sleeping.
    pub advance_frame_clock: bool,
}

/// Decides one pass of the loop from the time since the gravity clock and
/// since the frame clock. At most one gravity tick is taken per pass.
pub fn plan_frame(update_elapsed_us: u64, frame_elapsed_us: u64) -> (r: FramePlan)
    ensures
        r.gravity == (update_elapsed_us > UPDATE_DELAY_US),
        frame_elapsed_us < FRAME_DELAY_US ==> r.sleep_us == FRAME_DELAY_US - frame_elapsed_us
            && !r.advance_frame_clock,
        frame_elapsed_us >= FRAME_DELAY_US ==> r.sleep_us == 0 && r.advance_frame_clock,
{
    let gravity = update_elapsed_us > UPDATE_DELAY_US;
    if frame_elapsed_us < FRAME_DELAY_US {
        FramePlan { gravity, sleep_us: FRAME_DELAY_US - frame_elapsed_us, advance_frame_clock: false }
    } else {
        FramePlan { gravity, sleep_us: 0, advance_frame_clock: true }
    }
}

} // verus!
