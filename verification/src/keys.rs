//! Which key gives which command.

use vstd::prelude::*;

verus! {

/// A key press, as far as the player tells keys apart.
#[derive(Clone, Copy, Debug, PartialEq, Eq, Structural)]
pub enum Key {
    Char(char),
    Esc,
    Up,
    Down,
    PageUp,
    PageDown,
    Enter,
    Tab,
    Backspace,
    Left,
    Right,
    Other,
}

/// What the user can ask of the player.
#[derive(Clone, Copy, Debug, PartialEq, Eq, Structural)]
pub enum Action {
    Quit,
    TogglePlay,
    PrevItem,
    NextItem,
    VolumeUp,
    VolumeDown,
    EnterSelected,
    PlayFolder,
    GoUp,
    PrevTrack,
    NextTrack,
}

/// The key bindings. A key that is not bound gives nothing.
pub open spec fn action_of(key: Key) -> Option<Action> {
    match key {
        Key::Char('q') | Key::Esc => Some(Action::Quit),
        Key::Char(' ') => Some(Action::TogglePlay),
        Key::Up | Key::Char('k') => Some(Action::PrevItem),
        Key::Down | Key::Char('j') => Some(Action::NextItem),
        Key::PageUp => Some(Action::VolumeUp),
        Key::PageDown => Some(Action::VolumeDown),
        Key::Enter => Some(Action::EnterSelected),
        Key::Tab => Some(Action::PlayFolder),
        Key::Backspace => Some(Action::GoUp),
        Key::Left => Some(Action::PrevTrack),
        Key::Right => Some(Action::NextTrack),
        _ => None,
    }
}

/// Looks up what a key is bound to.
pub fn action_for(key: Key) -> (action: Option<Action>)
    ensures
        action == action_of(key),
{
    match key {
        Key::Esc => Some(Action::Quit),
        Key::Char(c) => {
            if c == 'q' {
                Some(Action::Quit)
            } else if c == ' ' {
                Some(Action::TogglePlay)
            } else if c == 'k' {
                Some(Action::PrevItem)
            } else if c == 'j' {
                Some(Action::NextItem)
            } else {
                None
            }
        },
        Key::Up => Some(Action::PrevItem),
        Key::Down => Some(Action::NextItem),
        Key::PageUp => Some(Action::VolumeUp),
        Key::PageDown => Some(Action::VolumeDown),
        Key::Enter => Some(Action::EnterSelected),
        Key::Tab => Some(Action::PlayFolder),
        Key::Backspace => Some(Action::GoUp),
        Key::Left => Some(Action::PrevTrack),
        Key::Right => Some(Action::NextTrack),
        Key::Other => None,
    }
}

} // verus!
