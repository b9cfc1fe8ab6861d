//! The tray menu.

use vstd::prelude::*;
use crate::transcript::str_eq;

verus! {

/// What a tray menu item does.
#[derive(Clone, Copy, Debug, PartialEq, Eq)]
pub enum TrayCommand {
    /// Show and focus the main window.
    ShowWindow,
    /// Quit the application.
    Quit,
    /// Nothing.
    Ignore,
}

/// The command of the tray menu item with the identifier `id`: `show`
/// shows the window, `quit` quits, anything else is ignored.
pub fn tray_command(id: &str) -> (r: TrayCommand)
    ensures
        id@ == "show"@ ==> r == TrayCommand::ShowWindow,
        id@ == "quit"@ ==> r == TrayCommand::Quit,
        id@ != "show"@ && id@ != "quit"@ ==> r == TrayCommand::Ignore,
{
    proof {
        reveal_strlit("show");
        reveal_strlit("quit");
        assert("show"@[0] != "quit"@[0]);
    }
    if str_eq(id, "show") {
        TrayCommand::ShowWindow
    } else if str_eq(id, "quit") {
        TrayCommand::Quit
    } else {
        TrayCommand::Ignore
    }
}

} // verus!
