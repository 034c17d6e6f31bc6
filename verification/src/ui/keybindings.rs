//! Keys to actions, vim style.
use vstd::prelude::*;

verus! {

/// What the user asks for.
#[derive(Debug, Clone, Copy, PartialEq, Eq, Structural)]
pub enum Action {
    Down,
    Up,
    PageDown,
    PageUp,
    Top,
    Bottom,
    Select,
    Back,
    NextTab,
    PrevTab,
    PlayPause,
    Next,
    Previous,
    CycleLoop,
    ToggleShuffle,
    VolumeUp,
    VolumeDown,
    SeekForward,
    SeekBackward,
    Refresh,
    DJ,
    /// Star or unstar the selected track.
    ToggleFavorite,
    Quit,
}

/// The keys the client tells apart.
#[derive(Debug, Clone, Copy, PartialEq, Eq, Structural)]
pub enum KeyCode {
    Char(char),
    Esc,
    Enter,
    Down,
    Up,
    PageDown,
    PageUp,
    Home,
    End,
    Tab,
    BackTab,
    Right,
    Left,
    /// Any other key.
    Other,
}

/// A key press: the key and whether Ctrl was held.
#[derive(Debug, Clone, Copy, PartialEq, Eq, Structural)]
pub struct KeyEvent {
    pub code: KeyCode,
    pub ctrl: bool,
}

impl KeyEvent {
    pub fn new(code: KeyCode, ctrl: bool) -> (r: KeyEvent)
        ensures
            r == (KeyEvent { code, ctrl }),
    {
        KeyEvent { code, ctrl }
    }
}

/// The action of a key in the normal view, if any. `Ctrl+d` and `Ctrl+u`
/// page (the page keys too, with Ctrl); a plain `d` toggles the DJ mode and
/// `f` stars or unstars the selected track.
pub open spec fn key_action(key: KeyEvent) -> Option<Action> {
    let ctrl = key.ctrl;
    match key.code {
        KeyCode::Char(c) => if c == 'q' {
            Some(Action::Quit)
        } else if c == 'c' && ctrl {
            Some(Action::Quit)
        } else if c == 'j' {
            Some(Action::Down)
        } else if c == 'k' {
            Some(Action::Up)
        } else if c == 'd' && ctrl {
            Some(Action::PageDown)
        } else if c == 'u' && ctrl {
            Some(Action::PageUp)
        } else if c == 'g' {
            Some(Action::Top)
        } else if c == 'G' {
            Some(Action::Bottom)
        } else if c == ' ' {
            Some(Action::PlayPause)
        } else if c == 'n' {
            Some(Action::Next)
        } else if c == 'p' {
            Some(Action::Previous)
        } else if c == 'l' {
            Some(Action::CycleLoop)
        } else if c == 's' {
            Some(Action::ToggleShuffle)
        } else if c == '+' || c == '=' {
            Some(Action::VolumeUp)
        } else if c == '-' {
            Some(Action::VolumeDown)
        } else if c == ']' {
            Some(Action::SeekForward)
        } else if c == '[' {
            Some(Action::SeekBackward)
        } else if c == 'r' {
            Some(Action::Refresh)
        } else if c == 'd' {
            Some(Action::DJ)
        } else if c == 'f' {
            Some(Action::ToggleFavorite)
        } else {
            None
        },
        KeyCode::Esc => Some(Action::Back),
        KeyCode::Enter => Some(Action::Select),
        KeyCode::Down => Some(Action::Down),
        KeyCode::Up => Some(Action::Up),
        KeyCode::PageDown => if ctrl {
            Some(Action::PageDown)
        } else {
            None
        },
        KeyCode::PageUp => if ctrl {
            Some(Action::PageUp)
        } else {
            None
        },
        KeyCode::Home => Some(Action::Top),
        KeyCode::End => Some(Action::Bottom),
        KeyCode::Tab => Some(Action::NextTab),
        KeyCode::BackTab => Some(Action::PrevTab),
        KeyCode::Right => Some(Action::NextTab),
        KeyCode::Left => Some(Action::PrevTab),
        KeyCode::Other => None,
    }
}

/// The arrow keys move between tabs as Tab and Shift+Tab do, with or
/// without Ctrl: Right to the next tab, Left to the previous one.
pub proof fn lemma_arrows_switch_tabs(ctrl: bool)
    ensures
        key_action(KeyEvent { code: KeyCode::Right, ctrl }) == key_action(
            KeyEvent { code: KeyCode::Tab, ctrl },
        ),
        key_action(KeyEvent { code: KeyCode::Left, ctrl }) == key_action(
            KeyEvent { code: KeyCode::BackTab, ctrl },
        ),
        key_action(KeyEvent { code: KeyCode::Right, ctrl }) == Some(Action::NextTab),
        key_action(KeyEvent { code: KeyCode::Left, ctrl }) == Some(Action::PrevTab),
{
}

impl Action {
    /// The action of a key in the normal view, if any.
    pub fn from_key(key: KeyEvent) -> (r: Option<Action>)
        ensures
            r == key_action(key),
    {
        let ctrl = key.ctrl;
        match key.code {
            KeyCode::Char(c) => {
                if c == 'q' {
                    Some(Action::Quit)
                } else if c == 'c' && ctrl {
                    Some(Action::Quit)
                } else if c == 'j' {
                    Some(Action::Down)
                } else if c == 'k' {
                    Some(Action::Up)
                } else if c == 'd' && ctrl {
                    Some(Action::PageDown)
                } else if c == 'u' && ctrl {
                    Some(Action::PageUp)
                } else if c == 'g' {
                    Some(Action::Top)
                } else if c == 'G' {
                    Some(Action::Bottom)
                } else if c == ' ' {
                    Some(Action::PlayPause)
                } else if c == 'n' {
                    Some(Action::Next)
                } else if c == 'p' {
                    Some(Action::Previous)
                } else if c == 'l' {
                    Some(Action::CycleLoop)
                } else if c == 's' {
                    Some(Action::ToggleShuffle)
                } else if c == '+' || c == '=' {
                    Some(Action::VolumeUp)
                } else if c == '-' {
                    Some(Action::VolumeDown)
                } else if c == ']' {
                    Some(Action::SeekForward)
                } else if c == '[' {
                    Some(Action::SeekBackward)
                } else if c == 'r' {
                    Some(Action::Refresh)
                } else if c == 'd' {
                    Some(Action::DJ)
                } else if c == 'f' {
                    Some(Action::ToggleFavorite)
                } else {
                    None
                }
            },
            KeyCode::Esc => Some(Action::Back),
            KeyCode::Enter => Some(Action::Select),
            KeyCode::Down => Some(Action::Down),
            KeyCode::Up => Some(Action::Up),
            KeyCode::PageDown => if ctrl {
                Some(Action::PageDown)
            } else {
                None
            },
            KeyCode::PageUp => if ctrl {
                Some(Action::PageUp)
            } else {
                None
            },
            KeyCode::Home => Some(Action::Top),
            KeyCode::End => Some(Action::Bottom),
            KeyCode::Tab => Some(Action::NextTab),
            KeyCode::BackTab => Some(Action::PrevTab),
            KeyCode::Right => Some(Action::NextTab),
            KeyCode::Left => Some(Action::PrevTab),
            KeyCode::Other => None,
        }
    }
}

} // verus!
