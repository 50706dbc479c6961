//! Terminal events and the commands they stand for.

use vstd::prelude::*;
use crate::navigation::{effect_of, step, Command, Effect, NavigationState};

verus! {

/// A key, as far as the viewer tells keys apart.
#[derive(Clone, Copy, Debug, PartialEq, Eq, Structural)]
pub enum Key {
    Up,
    Down,
    PageUp,
    PageDown,
    Home,
    End,
    Tab,
    /// A character key.
    Char(char),
    /// Any other key.
    Other,
}

/// An event from the terminal.
#[derive(Clone, Copy, Debug, PartialEq, Eq, Structural)]
pub enum Input {
    Key(Key),
    /// The terminal now has this width and height.
    Resize(u16, u16),
    /// Anything else: mouse, focus, paste.
    Other,
}

/// The command bound to a key, if any. Letters count in either case.
pub open spec fn key_binding(key: Key) -> Option<Command> {
    match key {
        Key::Up => Some(Command::MoveUp),
        Key::Down => Some(Command::MoveDown),
        Key::PageUp => Some(Command::PageUp),
        Key::PageDown => Some(Command::PageDown),
        Key::Home => Some(Command::Home),
        Key::End => Some(Command::End),
        Key::Tab => Some(Command::ToggleMode),
        Key::Char(c) => if c == 'e' || c == 'E' {
            Some(Command::Export)
        } else if c == 'q' || c == 'Q' {
            Some(Command::Quit)
        } else {
            None
        },
        Key::Other => None,
    }
}

/// The command an event stands for, if any.
pub open spec fn binding(input: Input) -> Option<Command> {
    match input {
        Input::Key(key) => key_binding(key),
        Input::Resize(width, height) => Some(Command::Resize(width, height)),
        Input::Other => None,
    }
}

/// The command bound to a key; `None` for a key without a binding.
pub fn command_for_key(key: Key) -> (res: Option<Command>)
    ensures
        res == key_binding(key),
{
    match key {
        Key::Up => Some(Command::MoveUp),
        Key::Down => Some(Command::MoveDown),
        Key::PageUp => Some(Command::PageUp),
        Key::PageDown => Some(Command::PageDown),
        Key::Home => Some(Command::Home),
        Key::End => Some(Command::End),
        Key::Tab => Some(Command::ToggleMode),
        Key::Char(c) => {
            if c == 'e' || c == 'E' {
                Some(Command::Export)
            } else if c == 'q' || c == 'Q' {
                Some(Command::Quit)
            } else {
                None
            }
        },
        Key::Other => None,
    }
}

/// The command an event stands for; `None` for an event to ignore.
pub fn command_for(input: Input) -> (res: Option<Command>)
    ensures
        res == binding(input),
{
    match input {
        Input::Key(key) => command_for_key(key),
        Input::Resize(width, height) => Some(Command::Resize(width, height)),
        Input::Other => None,
    }
}

/// Takes one event: applies the command it stands for and says what the
/// caller has to do next. An event without a binding changes nothing and
/// asks for the next frame.
pub fn handle_input(state: &mut NavigationState, input: Input) -> (effect: Effect)
    requires
        old(state).wf(),
    ensures
        final(state).wf(),
        match binding(input) {
            Some(cmd) => *final(state) == step(*old(state), cmd) && effect == effect_of(cmd),
            None => *final(state) == *old(state) && effect == Effect::Redraw,
        },
{
    match command_for(input) {
        Some(cmd) => state.apply(cmd),
        None => Effect::Redraw,
    }
}

} // verus!
