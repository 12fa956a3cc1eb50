use vstd::prelude::*;

verus! {

/// A key, without its modifiers.
#[derive(Debug, Clone, Copy, PartialEq, Eq, Structural)]
pub enum KeyCode {
    Up,
    Down,
    Enter,
    Esc,
    Delete,
    Backspace,
    Char(char),
    Other,
}

/// The modifiers held with a key.
#[derive(Debug, Clone, Copy, PartialEq, Eq, Structural)]
pub enum Modifiers {
    /// No modifier held.
    Plain,
    /// Ctrl held, with or without others.
    Ctrl,
    /// Some modifiers, Ctrl not among them.
    Other,
}

/// A key press as the host reports it.
#[derive(Debug, Clone, Copy, PartialEq, Eq, Structural)]
pub struct Key {
    pub code: KeyCode,
    pub modifiers: Modifiers,
}

/// What a key asks for in normal mode.
#[derive(Debug, Clone, Copy, PartialEq, Eq, Structural)]
pub enum Command {
    MoveUp,
    MoveDown,
    ToggleDone,
    ToggleGrab,
    AddItem,
    EditCurrent,
    DeleteCurrent,
    Quit,
    Cancel,
    Close,
    Ignore,
}

/// What the host should do after a key: draw again, and hide the pane.
#[derive(Debug, Clone, Copy, PartialEq, Eq, Structural)]
pub struct KeyOutcome {
    pub render: bool,
    pub hide: bool,
}

/// The normal-mode meaning of `key`; on an empty list only adding and quitting count.
pub open spec fn command_of(key: Key, empty: bool) -> Command {
    if key.modifiers == Modifiers::Plain {
        match key.code {
            KeyCode::Char('a') => Command::AddItem,
            KeyCode::Char('q') => Command::Quit,
            _ => if empty {
                Command::Ignore
            } else {
                match key.code {
                    KeyCode::Up | KeyCode::Char('k') => Command::MoveUp,
                    KeyCode::Down | KeyCode::Char('j') => Command::MoveDown,
                    KeyCode::Char(' ') => Command::ToggleDone,
                    KeyCode::Char('g') => Command::ToggleGrab,
                    KeyCode::Enter => Command::EditCurrent,
                    KeyCode::Delete | KeyCode::Backspace => Command::DeleteCurrent,
                    KeyCode::Esc => Command::Cancel,
                    _ => Command::Ignore,
                }
            },
        }
    } else if key.modifiers == Modifiers::Ctrl && key.code == KeyCode::Char('k') && !empty {
        Command::Close
    } else {
        Command::Ignore
    }
}

/// Decodes a key pressed in normal mode.
pub fn normal_command(key: Key, empty: bool) -> (r: Command)
    ensures
        r == command_of(key, empty),
{
    match key.modifiers {
        Modifiers::Plain => match key.code {
            KeyCode::Char('a') => Command::AddItem,
            KeyCode::Char('q') => Command::Quit,
            _ => if empty {
                Command::Ignore
            } else {
                match key.code {
                    KeyCode::Up | KeyCode::Char('k') => Command::MoveUp,
                    KeyCode::Down | KeyCode::Char('j') => Command::MoveDown,
                    KeyCode::Char(' ') => Command::ToggleDone,
                    KeyCode::Char('g') => Command::ToggleGrab,
                    KeyCode::Enter => Command::EditCurrent,
                    KeyCode::Delete | KeyCode::Backspace => Command::DeleteCurrent,
                    KeyCode::Esc => Command::Cancel,
                    _ => Command::Ignore,
                }
            },
        },
        Modifiers::Ctrl => match key.code {
            KeyCode::Char('k') => if empty {
                Command::Ignore
            } else {
                Command::Close
            },
            _ => Command::Ignore,
        },
        Modifiers::Other => Command::Ignore,
    }
}

} // verus!
