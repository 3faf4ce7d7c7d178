//! Decisions of the window shell: what a tray menu entry does.
use vstd::prelude::*;
use crate::text::{chars_of, same_chars};

verus! {

/// The width, in physical pixels, of the window's compact size.
pub const MINI_WIDTH: u32 = 593;

/// The height, in physical pixels, of the window's compact size.
pub const MINI_HEIGHT: u32 = 370;

/// What a tray menu entry asks of the main window.
#[derive(Clone, Copy, Debug, PartialEq, Eq)]
pub enum TrayAction {
    /// Show the window and focus it.
    Open,
    Minimize,
    Maximize,
    /// Remove the tray icon and leave the application.
    Quit,
}

/// The action of the tray menu entry with identifier `id`; none for an
/// unknown identifier.
pub fn tray_menu_action(id: &str) -> (r: Option<TrayAction>)
    ensures
        r == (if id@ == "open"@ {
            Some(TrayAction::Open)
        } else if id@ == "minimize"@ {
            Some(TrayAction::Minimize)
        } else if id@ == "maximize"@ {
            Some(TrayAction::Maximize)
        } else if id@ == "quit"@ {
            Some(TrayAction::Quit)
        } else {
            None
        }),
{
    let name = chars_of(id);
    if same_chars(&name, &chars_of("open")) {
        Some(TrayAction::Open)
    } else if same_chars(&name, &chars_of("minimize")) {
        Some(TrayAction::Minimize)
    } else if same_chars(&name, &chars_of("maximize")) {
        Some(TrayAction::Maximize)
    } else if same_chars(&name, &chars_of("quit")) {
        Some(TrayAction::Quit)
    } else {
        None
    }
}

} // verus!
