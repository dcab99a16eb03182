//! Where Footman lives, and how it leaves.

use footman::windows::install;

fn local() -> String {
    r"C:\Users\ada\AppData\Local".to_string()
}

#[test]
fn footman_lives_in_a_folder_of_its_own() {
    assert_eq!(
        install::home_in(&local()),
        r"C:\Users\ada\AppData\Local\Footman"
    );
}

#[test]
fn the_installed_copy_keeps_the_name_it_shipped_with() {
    assert_eq!(
        install::copy_in(&install::home_in(&local())),
        r"C:\Users\ada\AppData\Local\Footman\footman.exe"
    );
}

#[test]
fn the_copy_in_that_folder_is_the_installed_one() {
    let home = install::home_in(&local());

    assert!(install::is_installed(&install::copy_in(&home), &home));
}

#[test]
fn the_same_path_spelled_differently_is_the_same_path() {
    let home = install::home_in(&local());
    let shouted = r"C:\USERS\ADA\APPDATA\LOCAL\FOOTMAN\FOOTMAN.EXE";

    assert!(install::is_installed(shouted, &home));
}

#[test]
fn a_copy_running_from_anywhere_else_is_not_the_installed_one() {
    let home = install::home_in(&local());

    assert!(!install::is_installed(r"D:\Downloads\footman.exe", &home));
    assert!(
        !install::is_installed(
            r"C:\Users\ada\AppData\Local\Footman\old\footman.exe",
            &home
        ),
        "a copy below the folder is not the copy in it"
    );
}

#[test]
fn the_copy_being_replaced_is_moved_aside_not_written_over() {
    let home = install::home_in(&local());

    assert_ne!(install::displaced_in(&home), install::copy_in(&home));
}

#[test]
fn the_copy_moved_aside_stays_inside_the_home() {
    let home = install::home_in(&local());

    assert!(install::displaced_in(&home).starts_with(&format!(r"{home}\")));
}

#[test]
fn the_copy_moved_aside_is_not_the_installed_one() {
    let home = install::home_in(&local());

    assert!(!install::is_installed(&install::displaced_in(&home), &home));
}

#[test]
fn leaving_waits_before_it_deletes() {
    let farewell = install::farewell(&install::home_in(&local()));

    let waited = farewell.find("ping").expect("something has to wait");
    let deleted = farewell.find("rmdir").expect("and then delete");
    assert!(waited < deleted, "in that order: {farewell}");
}

#[test]
fn the_folder_being_removed_is_quoted() {
    let home = install::home_in(&local());

    assert!(install::farewell(&home).contains(&format!("\"{home}\"")));
}

/// Joined as Windows joins paths: no second separator after one already
/// there, and none after a bare drive.
#[test]
fn paths_are_joined_as_windows_joins_them() {
    assert_eq!(install::home_in(r"C:\Local\"), r"C:\Local\Footman");
    assert_eq!(install::home_in("C:/Local/"), "C:/Local/Footman");
    assert_eq!(install::home_in("C:"), "C:Footman");
    assert_eq!(install::home_in(""), "Footman");
}

/// Case is ignored beyond ASCII too, as `to_lowercase` ignores it.
#[test]
fn case_is_ignored_beyond_ascii() {
    let home = r"C:\Users\Ödön\AppData\Local\Footman";

    assert!(install::is_installed(
        r"C:\USERS\ÖDÖN\APPDATA\LOCAL\FOOTMAN\FOOTMAN.EXE",
        home
    ));
}
