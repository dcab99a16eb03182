//! Reading and comparing App Identities.

use footman::windows::{entry_of, identity_of, launch_of, Entry, Launch};

#[test]
fn an_aumid_identity_launches_through_the_apps_folder() {
    assert_eq!(
        launch_of("aumid:Chrome"),
        Some(Launch::AppsFolder("Chrome".to_string()))
    );
}

#[test]
fn a_path_identity_launches_the_executable() {
    assert_eq!(
        launch_of(r"path:C:\Program Files\Unity Hub\Unity Hub.exe"),
        Some(Launch::Executable(
            r"C:\Program Files\Unity Hub\Unity Hub.exe".to_string()
        ))
    );
}

#[test]
fn an_unknown_scheme_is_not_guessed_at() {
    assert_eq!(launch_of("bundle:com.apple.Safari"), None);
    assert_eq!(launch_of(r"C:\chrome.exe"), None);
    assert_eq!(launch_of(""), None);
}

/// A scheme with nothing after it names nothing.
#[test]
fn a_scheme_with_nothing_after_it_is_not_launched() {
    assert_eq!(launch_of("aumid:"), None);
    assert_eq!(launch_of("path:"), None);
}

#[test]
fn a_window_matches_on_any_step_of_its_cascade() {
    let cascade = [
        "aumid:Chrome".to_string(),
        r"path:C:\chrome.exe".to_string(),
    ];

    assert!(footman::windows::identity::matches("aumid:Chrome", &cascade));
    assert!(footman::windows::identity::matches(r"path:C:\chrome.exe", &cascade));
    assert!(!footman::windows::identity::matches("aumid:Firefox", &cascade));
}

#[test]
fn identities_compare_case_insensitively() {
    let cascade = [r"path:C:\Program Files\Chrome.exe".to_string()];

    assert!(footman::windows::identity::matches(r"path:c:\program files\chrome.exe", &cascade));
}

#[test]
fn a_window_with_no_identity_at_all_matches_nothing() {
    assert!(!footman::windows::identity::matches("aumid:Chrome", &[]));
}

#[test]
fn a_packaged_application_is_already_an_aumid() {
    assert_eq!(
        entry_of("Microsoft.WindowsNotepad_8wekyb3d8bbwe!App"),
        Entry::Aumid("Microsoft.WindowsNotepad_8wekyb3d8bbwe!App".to_string())
    );
    assert_eq!(entry_of("Chrome"), Entry::Aumid("Chrome".to_string()));
}

#[test]
fn a_classic_application_is_a_path_under_a_known_folder() {
    assert_eq!(
        entry_of(r"{6D809377-6AF0-444B-8957-A3773F02200E}\7-Zip\7zFM.exe"),
        Entry::UnderFolder {
            folder: "{6D809377-6AF0-444B-8957-A3773F02200E}".to_string(),
            relative: r"7-Zip\7zFM.exe".to_string(),
        }
    );
}

#[test]
fn a_name_that_is_not_shaped_like_one_is_left_alone() {
    assert_eq!(
        entry_of("{not-a-folder"),
        Entry::Aumid("{not-a-folder".to_string())
    );
    assert_eq!(
        entry_of(r"{6D809377-6AF0-444B-8957-A3773F02200E}"),
        Entry::Aumid(r"{6D809377-6AF0-444B-8957-A3773F02200E}".to_string())
    );
    assert_eq!(
        entry_of(r"{6D809377-6AF0-444B-8957-A3773F02200E}\"),
        Entry::Aumid(r"{6D809377-6AF0-444B-8957-A3773F02200E}\".to_string())
    );
}

/// A classic application is written as the path a window of it answers to;
/// when its folder cannot be found, the shell's own spelling is kept.
#[test]
fn a_classic_application_is_bound_by_its_path() {
    let name = r"{6D809377-6AF0-444B-8957-A3773F02200E}\7-Zip\7zFM.exe";

    assert_eq!(
        identity_of(name, Some(r"C:\Program Files")),
        r"path:C:\Program Files\7-Zip\7zFM.exe"
    );
    assert_eq!(identity_of(name, None), format!("aumid:{name}"));
    assert_eq!(identity_of("Chrome", Some(r"C:\Ignored")), "aumid:Chrome");
}
