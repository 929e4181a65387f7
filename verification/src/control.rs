//! What the keys of the window do, and how elapsed time turns into steps of
//! the game: the decisions of the window loop, without the window.

use crate::snake::Dir;
use vstd::prelude::*;

verus! {

/// Period of a step when the window opens, in milliseconds.
pub const STEP_MS_DEFAULT: u64 = 100;

/// Shortest period of a step.
pub const STEP_MS_MIN: u64 = 20;

/// Longest period of a step.
pub const STEP_MS_MAX: u64 = 500;

/// By how much a key changes the period.
pub const STEP_MS_CHANGE: u64 = 10;

/// Nanoseconds in a millisecond.
pub const NANOS_PER_MS: u64 = 1_000_000;

/// A key that the window knows.
#[derive(Clone, Copy, Debug, PartialEq, Eq, Structural)]
pub enum Key {
    Up,
    Down,
    Left,
    Right,
    /// Starts the episode anew.
    Restart,
    /// Pauses and resumes.
    Pause,
    Faster,
    Slower,
    /// Closes the window.
    Quit,
    /// Any other key.
    Other,
}

/// What the window loop has to do after a key.
#[derive(Clone, Copy, Debug, PartialEq, Eq, Structural)]
pub enum KeyAction {
    /// Nothing beyond what the controls took down.
    Carry,
    /// Reset the game and the return of the episode.
    Reset,
    /// The period changed: report it.
    Speed,
    /// Leave the loop.
    Exit,
}

/// The controls of the window.
#[derive(Clone, Copy, Debug, PartialEq, Eq, Structural)]
pub struct Control {
    /// The heading that the arrow keys last asked for.
    pub pending_dir: Dir,
    /// Period of a step in milliseconds.
    pub step_ms: u64,
    pub paused: bool,
}

impl Control {
    /// The period is within its limits.
    pub open spec fn wf(self) -> bool {
        STEP_MS_MIN <= self.step_ms <= STEP_MS_MAX
    }

    /// The controls after a key.
    pub open spec fn after(self, key: Key) -> Control {
        match key {
            Key::Up => Control { pending_dir: Dir::Up, ..self },
            Key::Down => Control { pending_dir: Dir::Down, ..self },
            Key::Left => Control { pending_dir: Dir::Left, ..self },
            Key::Right => Control { pending_dir: Dir::Right, ..self },
            Key::Pause => Control { paused: !self.paused, ..self },
            Key::Faster => Control {
                step_ms: if self.step_ms - STEP_MS_CHANGE < STEP_MS_MIN {
                    STEP_MS_MIN
                } else {
                    (self.step_ms - STEP_MS_CHANGE) as u64
                },
                ..self
            },
            Key::Slower => Control {
                step_ms: if self.step_ms + STEP_MS_CHANGE > STEP_MS_MAX {
                    STEP_MS_MAX
                } else {
                    (self.step_ms + STEP_MS_CHANGE) as u64
                },
                ..self
            },
            Key::Restart | Key::Quit | Key::Other => self,
        }
    }

    /// What the loop has to do after a key.
    pub open spec fn action_of(key: Key) -> KeyAction {
        match key {
            Key::Restart => KeyAction::Reset,
            Key::Faster | Key::Slower => KeyAction::Speed,
            Key::Quit => KeyAction::Exit,
            _ => KeyAction::Carry,
        }
    }

    /// The controls when the window opens.
    pub fn new() -> (c: Self)
        ensures
            c == (Control { pending_dir: Dir::Right, step_ms: STEP_MS_DEFAULT, paused: false }),
            c.wf(),
    {
        Control { pending_dir: Dir::Right, step_ms: STEP_MS_DEFAULT, paused: false }
    }

    /// Takes a pressed key down and says what the loop has to do.
    pub fn on_key(&mut self, key: Key) -> (a: KeyAction)
        requires
            old(self).step_ms + STEP_MS_CHANGE <= u64::MAX,
        ensures
            *final(self) == old(self).after(key),
            a == Self::action_of(key),
            old(self).wf() ==> final(self).wf(),
    {
        match key {
            Key::Up => {
                self.pending_dir = Dir::Up;
                KeyAction::Carry
            },
            Key::Down => {
                self.pending_dir = Dir::Down;
                KeyAction::Carry
            },
            Key::Left => {
                self.pending_dir = Dir::Left;
                KeyAction::Carry
            },
            Key::Right => {
                self.pending_dir = Dir::Right;
                KeyAction::Carry
            },
            Key::Restart => KeyAction::Reset,
            Key::Pause => {
                self.paused = !self.paused;
                KeyAction::Carry
            },
            Key::Faster => {
                let lower: u64 = self.step_ms.saturating_sub(STEP_MS_CHANGE);
                self.step_ms = if lower < STEP_MS_MIN {
                    STEP_MS_MIN
                } else {
                    lower
                };
                KeyAction::Speed
            },
            Key::Slower => {
                let higher: u64 = self.step_ms + STEP_MS_CHANGE;
                self.step_ms = if higher > STEP_MS_MAX {
                    STEP_MS_MAX
                } else {
                    higher
                };
                KeyAction::Speed
            },
            Key::Quit => KeyAction::Exit,
            Key::Other => KeyAction::Carry,
        }
    }

    /// Sets the heading back to the right, as at the start of an episode.
    pub fn rearm(&mut self)
        ensures
            *final(self) == (Control { pending_dir: Dir::Right, ..*old(self) }),
    {
        self.pending_dir = Dir::Right;
    }

    /// How many steps of the game are due after `elapsed` nanoseconds, and
    /// how many nanoseconds are left over for the next time.
    pub fn steps_due(&self, elapsed: u128) -> (r: (u128, u128))
        requires
            self.step_ms > 0,
        ensures
            r.0 == elapsed as int / (self.step_ms * NANOS_PER_MS),
            r.1 == elapsed as int % (self.step_ms * NANOS_PER_MS),
    {
        let period: u128 = (self.step_ms as u128) * (NANOS_PER_MS as u128);
        (elapsed / period, elapsed % period)
    }
}

} // verus!
