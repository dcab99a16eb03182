//! Which threads Footman attaches its input queue to when raising a window,
//! and what it hands the shell to start an application.

use footman::windows::{cascade_of, launch_target, worth_attaching};

const OURS: u32 = 100;

#[test]
fn another_processs_thread_is_worth_attaching_to() {
    assert!(worth_attaching(200, OURS, false));
}

#[test]
fn our_own_thread_is_not() {
    assert!(!worth_attaching(OURS, OURS, false));
}

#[test]
fn no_thread_of_ours_is_worth_attaching_to() {
    assert!(!worth_attaching(200, OURS, true));
}

#[test]
fn a_thread_that_is_not_there_is_not() {
    assert!(!worth_attaching(0, OURS, false));
}

#[test]
fn an_aumid_is_started_through_the_apps_folder() {
    assert_eq!(
        launch_target("aumid:Chrome"),
        Ok(r"shell:AppsFolder\Chrome".to_string())
    );
    assert_eq!(
        launch_target(r"path:C:\chrome.exe"),
        Ok(r"C:\chrome.exe".to_string())
    );
}

#[test]
fn an_unknown_scheme_cannot_be_started() {
    assert_eq!(
        launch_target("bundle:com.apple.Safari"),
        Err("unknown App Identity scheme: bundle:com.apple.Safari".to_string())
    );
}

/// All three steps of the cascade are kept, in order, each with its scheme.
#[test]
fn the_cascade_keeps_every_step_in_order() {
    assert_eq!(
        cascade_of(
            Some("Chrome".to_string()),
            Some("Chrome.Package!App".to_string()),
            Some(r"C:\chrome.exe".to_string()),
        ),
        vec![
            "aumid:Chrome".to_string(),
            "aumid:Chrome.Package!App".to_string(),
            r"path:C:\chrome.exe".to_string(),
        ]
    );
    assert_eq!(
        cascade_of(None, None, Some(r"C:\notepad.exe".to_string())),
        vec![r"path:C:\notepad.exe".to_string()]
    );
    assert!(cascade_of(None, None, None).is_empty());
}
