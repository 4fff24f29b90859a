//! The sidebar menu and the keys the application handles before its panels.

use vstd::prelude::*;

use crate::tui::key::Key;

verus! {

/// The number of menu entries.
pub const MENU_LEN: usize = 5;

/// The menu entry at position `i`.
pub open spec fn menu_entry(i: int) -> &'static str {
    if i == 0 {
        "TCP benchmark"
    } else if i == 1 {
        "UDP benchmark"
    } else if i == 2 {
        "qualify"
    } else if i == 3 {
        "server"
    } else {
        "about"
    }
}

/// The label of menu entry `i`.
pub fn menu_item(i: usize) -> (r: &'static str)
    requires
        i < MENU_LEN,
    ensures
        r == menu_entry(i as int),
{
    if i == 0 {
        "TCP benchmark"
    } else if i == 1 {
        "UDP benchmark"
    } else if i == 2 {
        "qualify"
    } else if i == 3 {
        "server"
    } else {
        "about"
    }
}

/// What the application does with a key.
#[derive(Debug, Clone, Copy, PartialEq, Eq, Structural)]
pub enum AppAction {
    /// Quit the application.
    Quit,
    /// Select this menu entry (the current one when the active panel is busy).
    Select(usize),
    /// Hand the key to the active panel.
    Panel(Key),
}

/// The action for a key: `q` quits, Down and Up move through the menu (wrapping around) unless
/// the active panel is busy, any other key goes to the active panel.
pub open spec fn app_action(selected: usize, busy: bool, key: Key) -> AppAction {
    match key {
        Key::Char('q') => AppAction::Quit,
        Key::Down => AppAction::Select(if busy { selected } else { ((selected + 1) % MENU_LEN as int) as usize }),
        Key::Up => AppAction::Select(if busy {
            selected
        } else if selected == 0 {
            (MENU_LEN - 1) as usize
        } else {
            (selected - 1) as usize
        }),
        _ => AppAction::Panel(key),
    }
}

/// Decides what the application does with a key, given the selected menu entry and whether the
/// active panel is busy.
pub fn app_on_key(selected: usize, busy: bool, key: Key) -> (r: AppAction)
    requires
        selected < MENU_LEN,
    ensures
        r == app_action(selected, busy, key),
{
    match key {
        Key::Char('q') => AppAction::Quit,
        Key::Down => {
            if busy {
                AppAction::Select(selected)
            } else {
                AppAction::Select((selected + 1) % MENU_LEN)
            }
        },
        Key::Up => {
            if busy {
                AppAction::Select(selected)
            } else if selected == 0 {
                AppAction::Select(MENU_LEN - 1)
            } else {
                AppAction::Select(selected - 1)
            }
        },
        _ => AppAction::Panel(key),
    }
}

/// Menu navigation stays on the menu, and Up undoes Down (and Down undoes Up) while the active
/// panel is not busy.
pub proof fn lemma_menu_navigation(selected: usize)
    requires
        selected < MENU_LEN,
    ensures
        app_action(selected, false, Key::Down) matches AppAction::Select(n) && n < MENU_LEN
            && app_action(n, false, Key::Up) == AppAction::Select(selected),
        app_action(selected, false, Key::Up) matches AppAction::Select(n) && n < MENU_LEN
            && app_action(n, false, Key::Down) == AppAction::Select(selected),
{
}

} // verus!
