//! What each key does in the interactive terminal.
use vstd::prelude::*;

use crate::cli::{DisplayMode, Theme, ViewKind};

verus! {

/// A key as the terminal reports it.
#[derive(Clone, Copy, Debug, PartialEq, Eq, Structural)]
pub enum Key {
    Esc,
    Char(char),
    Other,
}

/// What a key asks for.
#[derive(Clone, Copy, Debug, PartialEq, Eq, Structural)]
pub enum KeyAction {
    Quit,
    TogglePause,
    ShowView(ViewKind),
    ToggleMode,
    NextTheme,
    RaiseGain,
    LowerGain,
    ShortenDecay,
    LengthenDecay,
    ToggleHelp,
}

/// The action of a key: escape, `q` and control-C quit; space pauses;
/// `1` and `2` pick the view; `a` switches the mode where ANSI output is
/// allowed; `c` cycles the theme; `+`/`=` and `-` change the gain; `[` and
/// `]` the decay; `h` and `?` toggle help. Other keys do nothing.
pub open spec fn action_of(key: Key, control: bool, ansi_allowed: bool) -> Option<KeyAction> {
    match key {
        Key::Esc => Some(KeyAction::Quit),
        Key::Char(c) => if c == 'q' || (c == 'c' && control) {
            Some(KeyAction::Quit)
        } else if c == ' ' {
            Some(KeyAction::TogglePause)
        } else if c == '1' {
            Some(KeyAction::ShowView(ViewKind::Weather))
        } else if c == '2' {
            Some(KeyAction::ShowView(ViewKind::Waterfall))
        } else if c == 'a' && ansi_allowed {
            Some(KeyAction::ToggleMode)
        } else if c == 'c' {
            Some(KeyAction::NextTheme)
        } else if c == '+' || c == '=' {
            Some(KeyAction::RaiseGain)
        } else if c == '-' {
            Some(KeyAction::LowerGain)
        } else if c == '[' {
            Some(KeyAction::ShortenDecay)
        } else if c == ']' {
            Some(KeyAction::LengthenDecay)
        } else if c == 'h' || c == '?' {
            Some(KeyAction::ToggleHelp)
        } else {
            None
        },
        Key::Other => None,
    }
}

/// The action a key asks for, if any.
pub fn key_action(key: Key, control: bool, ansi_allowed: bool) -> (a: Option<KeyAction>)
    ensures
        a == action_of(key, control, ansi_allowed),
{
    match key {
        Key::Esc => Some(KeyAction::Quit),
        Key::Char(c) => {
            if c == 'q' || (c == 'c' && control) {
                Some(KeyAction::Quit)
            } else if c == ' ' {
                Some(KeyAction::TogglePause)
            } else if c == '1' {
                Some(KeyAction::ShowView(ViewKind::Weather))
            } else if c == '2' {
                Some(KeyAction::ShowView(ViewKind::Waterfall))
            } else if c == 'a' && ansi_allowed {
                Some(KeyAction::ToggleMode)
            } else if c == 'c' {
                Some(KeyAction::NextTheme)
            } else if c == '+' || c == '=' {
                Some(KeyAction::RaiseGain)
            } else if c == '-' {
                Some(KeyAction::LowerGain)
            } else if c == '[' {
                Some(KeyAction::ShortenDecay)
            } else if c == ']' {
                Some(KeyAction::LengthenDecay)
            } else if c == 'h' || c == '?' {
                Some(KeyAction::ToggleHelp)
            } else {
                None
            }
        },
        Key::Other => None,
    }
}

/// The theme after `c`: phosphor, amber, cold, monochrome, and round.
pub open spec fn theme_after(t: Theme) -> Theme {
    match t {
        Theme::Phosphor => Theme::Amber,
        Theme::Amber => Theme::Cold,
        Theme::Cold => Theme::Monochrome,
        Theme::Monochrome => Theme::Phosphor,
    }
}

/// The next theme in the cycle.
pub fn next_theme(t: Theme) -> (n: Theme)
    ensures
        n == theme_after(t),
{
    match t {
        Theme::Phosphor => Theme::Amber,
        Theme::Amber => Theme::Cold,
        Theme::Cold => Theme::Monochrome,
        Theme::Monochrome => Theme::Phosphor,
    }
}

/// The other display mode.
pub fn other_mode(m: DisplayMode) -> (n: DisplayMode)
    ensures
        n != m,
{
    match m {
        DisplayMode::Ansi => DisplayMode::Ascii,
        DisplayMode::Ascii => DisplayMode::Ansi,
    }
}

/// Law: pressing `c` four times brings back the theme one started with,
/// after passing through every other theme.
pub proof fn law_theme_cycle(t: Theme)
    ensures
        theme_after(theme_after(theme_after(theme_after(t)))) == t,
        theme_after(t) != t,
        theme_after(theme_after(t)) != t,
        theme_after(theme_after(theme_after(t))) != t,
{
}

} // verus!
