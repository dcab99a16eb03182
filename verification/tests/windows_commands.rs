//! How the Run Action starts a command line.

use footman::windows::{creation_flags, CREATE_NEW_CONSOLE, CREATE_NO_WINDOW};

#[test]
fn a_visible_command_is_given_a_console_of_its_own() {
    assert_eq!(creation_flags(true), CREATE_NEW_CONSOLE);
}

#[test]
fn a_hidden_command_is_given_no_console_at_all() {
    assert_eq!(creation_flags(false), CREATE_NO_WINDOW);
}

#[test]
fn the_flags_are_windows_own() {
    assert_eq!(CREATE_NEW_CONSOLE, 0x0000_0010);
    assert_eq!(CREATE_NO_WINDOW, 0x0800_0000);
}
