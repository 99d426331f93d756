//! The rest of what the program decides: administrator rights, updates and the tray menu.

use vstd::prelude::*;

use crate::config::AppConfig;
use crate::error::HelperError;
use crate::text::text_eq;

verus! {

/// Whether the program runs as administrator, from the system's answer.
pub fn is_admin(answer: i32) -> (r: bool)
    ensures
        r == (answer != 0),
{
    answer != 0
}

/// What the system's answer to the request to start the program again as administrator means:
/// answers up to 32 are failures.
pub fn spawn_elevated(answer: isize) -> (r: Result<(), HelperError>)
    ensures
        r == (if answer <= 32 {
            Err(HelperError::ElevationRefused)
        } else {
            Ok(())
        }),
{
    if answer <= 32 {
        return Err(HelperError::ElevationRefused);
    }
    Ok(())
}

/// Whether the program has to start itself again as administrator.
pub fn needs_elevation(cfg: &AppConfig, admin: bool) -> (r: bool)
    ensures
        r == (cfg.always_admin && !admin),
{
    cfg.always_admin && !admin
}

/// The update to install, where one was found.
pub fn install_update<T>(found: Option<T>) -> (r: Result<T, HelperError>)
    ensures
        r == (match found {
            Some(update) => Ok::<T, HelperError>(update),
            None => Err::<T, HelperError>(HelperError::NoUpdate),
        }),
{
    match found {
        Some(update) => Ok(update),
        None => Err(HelperError::NoUpdate),
    }
}

/// What an entry of the tray menu does.
#[derive(Clone, Copy, PartialEq, Eq, Structural, Debug)]
pub enum MenuAction {
    /// Shows the window.
    Show,
    /// Turns the filter keys on or off.
    Toggle,
    /// Ends the program.
    Quit,
    /// Nothing.
    Nothing,
}

/// What the entry of the tray menu with an id does.
pub fn menu_action(id: &str) -> (r: MenuAction)
    ensures
        r == (if id@ == "show"@ {
            MenuAction::Show
        } else if id@ == "toggle"@ {
            MenuAction::Toggle
        } else if id@ == "quit"@ {
            MenuAction::Quit
        } else {
            MenuAction::Nothing
        }),
{
    if text_eq(id, "show") {
        MenuAction::Show
    } else if text_eq(id, "toggle") {
        MenuAction::Toggle
    } else if text_eq(id, "quit") {
        MenuAction::Quit
    } else {
        MenuAction::Nothing
    }
}

} // verus!
