//! Keys, events and the commands that keys stand for.

use crate::process::Sort;
use vstd::prelude::*;

verus! {

/// The period of the ticker, in milliseconds.
pub const TICK_RATE_MS: u64 = 300;

/// A key press as the terminal reports it.
#[derive(Debug, Copy, Clone, PartialEq, Eq, Structural)]
pub enum Key {
    Backspace,
    Left,
    Right,
    Up,
    Down,
    Home,
    End,
    PageUp,
    PageDown,
    BackTab,
    Delete,
    Insert,
    F(u8),
    Char(char),
    Alt(char),
    Ctrl(char),
    Null,
    Esc,
    Other,
}

/// What the event source delivers: a tick of the clock or a key press.
#[derive(Debug, Copy, Clone, PartialEq, Eq, Structural)]
pub enum Event {
    Input(Key),
    Tick,
}

/// How the event source is set up.
#[derive(Debug, Copy, Clone, PartialEq, Eq, Structural)]
pub struct Config {
    pub exit_key: Key,
    pub tick_rate_ms: u64,
}

/// What a key press asks for.
#[derive(Debug, Copy, Clone, PartialEq, Eq, Structural)]
pub enum Command {
    Exit,
    MoveUp,
    MoveDown,
    Confirm,
    SortBy(Sort),
    Ignore,
}

/// `key` ends the program: it is the configured exit key or the interrupt
/// key, Ctrl-C.
pub open spec fn is_exit(key: Key, exit_key: Key) -> bool {
    key == exit_key || key == Key::Ctrl('c')
}

/// The command bound to `key`. An exit key is an exit key whatever else it
/// might be bound to.
pub open spec fn command_of(key: Key, exit_key: Key) -> Command {
    if is_exit(key, exit_key) {
        Command::Exit
    } else if key == Key::Up || key == Key::Char('k') {
        Command::MoveUp
    } else if key == Key::Down || key == Key::Char('j') {
        Command::MoveDown
    } else if key == Key::Char('\n') {
        Command::Confirm
    } else if key == Key::Char('m') {
        Command::SortBy(Sort::Memory)
    } else if key == Key::Char('c') {
        Command::SortBy(Sort::Cpu)
    } else {
        Command::Ignore
    }
}

impl Config {
    /// The standard setup: `q` exits, and the clock ticks every
    /// `TICK_RATE_MS` milliseconds.
    pub fn new() -> (c: Config)
        ensures
            c.exit_key == Key::Char('q'),
            c.tick_rate_ms == TICK_RATE_MS,
    {
        Config { exit_key: Key::Char('q'), tick_rate_ms: TICK_RATE_MS }
    }

    /// Whether `key` ends the program. The input producer stops reading
    /// after it has passed such a key on.
    pub fn is_exit_key(&self, key: Key) -> (b: bool)
        ensures
            b == is_exit(key, self.exit_key),
    {
        key == self.exit_key || key == Key::Ctrl('c')
    }

    /// The command bound to `key`.
    pub fn command_for(&self, key: Key) -> (c: Command)
        ensures
            c == command_of(key, self.exit_key),
    {
        if self.is_exit_key(key) {
            Command::Exit
        } else if key == Key::Up || key == Key::Char('k') {
            Command::MoveUp
        } else if key == Key::Down || key == Key::Char('j') {
            Command::MoveDown
        } else if key == Key::Char('\n') {
            Command::Confirm
        } else if key == Key::Char('m') {
            Command::SortBy(Sort::Memory)
        } else if key == Key::Char('c') {
            Command::SortBy(Sort::Cpu)
        } else {
            Command::Ignore
        }
    }
}

} // verus!
