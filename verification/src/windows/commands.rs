//! How the Run Action starts a command line.

use vstd::prelude::*;

verus! {

/// Give the process a console window of its own.
pub const CREATE_NEW_CONSOLE: u32 = 0x0000_0010;

/// Start the process without giving it a console window of its own.
pub const CREATE_NO_WINDOW: u32 = 0x0800_0000;

/// The process creation flags for a command shown or hidden.
///
/// A visible command must get a console of its own: left to itself a child
/// console process inherits its parent's, so a command bound with
/// `show_window = true` would print into whatever terminal Footman happened to
/// be started from.
pub fn creation_flags(show_window: bool) -> (flags: u32)
    ensures
        flags == (if show_window {
            CREATE_NEW_CONSOLE
        } else {
            CREATE_NO_WINDOW
        }),
{
    if show_window {
        CREATE_NEW_CONSOLE
    } else {
        CREATE_NO_WINDOW
    }
}

} // verus!
