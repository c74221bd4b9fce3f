//! The main menu: which page each of its rows opens, and what each key asks
//! of its list.
use super::{Key, Mode};
use vstd::prelude::*;

verus! {

/// The rows of the menu.
pub const MENU_ROWS: usize = 3;

/// What a key asks of the menu.
#[derive(Debug, Clone, Copy, PartialEq, Eq, Structural)]
pub enum MenuAction {
    /// Nothing.
    Ignore,
    /// To select the row before the selected one.
    SelectPrevious,
    /// To select the row after the selected one.
    SelectNext,
    /// To select the first row.
    SelectFirst,
    /// To leave the menu for this mode.
    ChangeMode(Mode),
}

impl Mode {
    /// The mode of a row of the menu.
    pub open spec fn of_menuselection(index: usize) -> Mode {
        if index == 0 {
            Mode::Decrypt
        } else if index == 1 {
            Mode::Encrypt
        } else {
            Mode::Quit
        }
    }

    /// The mode that the row `index` of the menu opens.
    pub fn from_menuselection(index: usize) -> (mode: Mode)
        requires
            index < MENU_ROWS,
        ensures
            mode == Mode::of_menuselection(index),
    {
        if index == 0 {
            Mode::Decrypt
        } else if index == 1 {
            Mode::Encrypt
        } else {
            Mode::Quit
        }
    }
}

/// What `key` asks of the menu when the row `selected` is selected.
pub open spec fn menu_action(key: Key, selected: Option<usize>) -> MenuAction {
    match key {
        Key::Up => MenuAction::SelectPrevious,
        Key::Down => MenuAction::SelectNext,
        Key::Enter => match selected {
            None => MenuAction::SelectFirst,
            Some(index) => MenuAction::ChangeMode(Mode::of_menuselection(index)),
        },
        Key::Esc => MenuAction::ChangeMode(Mode::Quit),
        _ => MenuAction::Ignore,
    }
}

/// Decides what a key does in the menu.
pub fn handle_events(key: Key, selected: Option<usize>) -> (action: MenuAction)
    requires
        key == Key::Enter ==> (selected matches Some(index) ==> index < MENU_ROWS),
    ensures
        action == menu_action(key, selected),
{
    match key {
        Key::Up => MenuAction::SelectPrevious,
        Key::Down => MenuAction::SelectNext,
        Key::Enter => match selected {
            None => MenuAction::SelectFirst,
            Some(index) => MenuAction::ChangeMode(Mode::from_menuselection(index)),
        },
        Key::Esc => MenuAction::ChangeMode(Mode::Quit),
        _ => MenuAction::Ignore,
    }
}

} // verus!
