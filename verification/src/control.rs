//! What a driver does with the keyboard and the clock.
//!
//! A `Session` is a game together with the interval at which its driver
//! should send ticks. The driver turns what happens outside into an
//! `Event`, hands it to `handle`, and re-arms its timer when told that
//! the interval has changed.

use vstd::prelude::*;
use crate::game::{Direction, Game};
use crate::tetris::Tetris;

verus! {

/// Milliseconds between two ticks in normal play.
pub const NORMAL_INTERVAL: u32 = 500;

/// Milliseconds between two ticks while the piece is dropped softly.
pub const SOFT_DROP_INTERVAL: u32 = 50;

/// A key of the keyboard, as far as the game tells keys apart.
#[derive(Clone, Copy, Debug, PartialEq, Eq, Structural, Hash)]
pub enum Key {
    Left,
    Right,
    Up,
    Down,
    Other,
}

/// Something that happened outside the game.
#[derive(Clone, Copy, Debug, PartialEq, Eq, Structural, Hash)]
pub enum Event {
    /// The timer fired.
    Tick,
    /// A key went down, or repeats while held.
    KeyDown(Key),
    /// A key was released.
    KeyUp(Key),
}

/// The key that a keyboard event's `code` names.
pub open spec fn spec_key_of(code: Seq<char>) -> Key {
    if code == "ArrowLeft"@ {
        Key::Left
    } else if code == "ArrowRight"@ {
        Key::Right
    } else if code == "ArrowUp"@ {
        Key::Up
    } else if code == "ArrowDown"@ {
        Key::Down
    } else {
        Key::Other
    }
}

fn same_text(a: &str, b: &str) -> (same: bool)
    ensures
        same == (a@ == b@),
{
    a.to_owned() == b.to_owned()
}

/// The key that a keyboard event's `code` names: the four arrow keys are
/// told apart, every other code is `Key::Other`.
pub fn key_of(code: &str) -> (key: Key)
    ensures
        key == spec_key_of(code@),
{
    if same_text(code, "ArrowLeft") {
        Key::Left
    } else if same_text(code, "ArrowRight") {
        Key::Right
    } else if same_text(code, "ArrowUp") {
        Key::Up
    } else if same_text(code, "ArrowDown") {
        Key::Down
    } else {
        Key::Other
    }
}

/// A game and the interval at which its driver should send ticks.
#[derive(Debug)]
pub struct Session {
    game: Tetris,
    interval: u32,
}

/// A session over the mathematical game.
pub struct SessionView {
    pub game: Game,
    pub interval: nat,
}

impl SessionView {
    /// The session after an event. A tick is a step of gravity. The left
    /// and right arrows ask for a sideways move, the up arrow for a turn.
    /// The down arrow shortens the interval while it is held and restores
    /// it when released. Nothing else has an effect.
    pub open spec fn handled(self, event: Event) -> SessionView {
        match event {
            Event::Tick => SessionView { game: self.game.ticked(), ..self },
            Event::KeyDown(Key::Left) => SessionView {
                game: self.game.shifted(Direction::Left),
                ..self
            },
            Event::KeyDown(Key::Right) => SessionView {
                game: self.game.shifted(Direction::Right),
                ..self
            },
            Event::KeyDown(Key::Up) => SessionView { game: self.game.rotated(), ..self },
            Event::KeyDown(Key::Down) => SessionView {
                interval: SOFT_DROP_INTERVAL as nat,
                ..self
            },
            Event::KeyUp(Key::Down) => SessionView { interval: NORMAL_INTERVAL as nat, ..self },
            _ => self,
        }
    }
}

impl View for Session {
    type V = SessionView;

    closed spec fn view(&self) -> SessionView {
        SessionView { game: self.game@, interval: self.interval as nat }
    }
}

impl Clone for Session {
    /// A second session in the same state; the two share nothing.
    fn clone(&self) -> (copy: Session)
        ensures
            copy@ == self@,
    {
        Session { game: self.game.clone(), interval: self.interval }
    }
}

impl Session {
    /// The session's invariant: its game is well formed.
    pub closed spec fn wf(&self) -> bool {
        self.game.wf()
    }

    /// A session around `game`, ticking at the normal interval.
    pub fn new(game: Tetris) -> (session: Session)
        requires
            game.wf(),
        ensures
            session.wf(),
            session@ == (SessionView { game: game@, interval: NORMAL_INTERVAL as nat }),
    {
        Session { game, interval: NORMAL_INTERVAL }
    }

    /// The game, to be read.
    pub fn game(&self) -> (game: &Tetris)
        requires
            self.wf(),
        ensures
            game.wf(),
            game@ == self@.game,
    {
        &self.game
    }

    /// Milliseconds that the driver should leave between two ticks.
    pub fn interval(&self) -> (interval: u32)
        ensures
            interval == self@.interval,
    {
        self.interval
    }

    /// Takes an event into account, and says whether the interval has
    /// changed, in which case the driver re-arms its timer.
    pub fn handle(&mut self, event: Event) -> (rearm: bool)
        requires
            old(self).wf(),
        ensures
            final(self).wf(),
            final(self)@ == old(self)@.handled(event),
            rearm == (final(self)@.interval != old(self)@.interval),
    {
        let before = self.interval;
        match event {
            Event::Tick => self.game.tick(),
            Event::KeyDown(Key::Left) => self.game.shift_current_shape(Direction::Left),
            Event::KeyDown(Key::Right) => self.game.shift_current_shape(Direction::Right),
            Event::KeyDown(Key::Up) => self.game.rotate(),
            Event::KeyDown(Key::Down) => {
                self.interval = SOFT_DROP_INTERVAL;
            },
            Event::KeyUp(Key::Down) => {
                self.interval = NORMAL_INTERVAL;
            },
            _ => {},
        }
        self.interval != before
    }
}

} // verus!
