//! The list of installed applications the settings window offers.

use footman::windows::{catalogue, listed, matching, Installed};

fn app(name: &str, identity: &str) -> Installed {
    Installed {
        name: name.to_string(),
        identity: identity.to_string(),
    }
}

fn names(list: &[Installed]) -> Vec<&str> {
    list.iter().map(|app| app.name.as_str()).collect()
}

/// Sorted by name, ignoring case.
#[test]
fn applications_are_listed_by_name_whatever_their_case() {
    let list = catalogue(vec![
        app("notepad", "aumid:Notepad"),
        app("Chrome", "aumid:Chrome"),
        app("Blender", "path:C:\\blender.exe"),
    ]);

    assert_eq!(names(&list), vec!["Blender", "Chrome", "notepad"]);
}

/// Two entries for the same application, side by side, are offered once; the
/// first of them is kept.
#[test]
fn an_application_listed_twice_is_offered_once() {
    let list = catalogue(vec![
        app("Chrome", "aumid:Chrome"),
        app("Blender", "path:C:\\blender.exe"),
        app("chrome", "aumid:Chrome"),
    ]);

    assert_eq!(names(&list), vec!["Blender", "Chrome"]);
}

/// Names that differ only in case keep the order the shell gave them.
#[test]
fn equal_names_keep_the_shells_order() {
    let list = catalogue(vec![
        app("Paint", "aumid:Paint.B"),
        app("paint", "aumid:Paint.A"),
    ]);

    assert_eq!(names(&list), vec!["Paint", "paint"]);
}

/// Only repeats that end up side by side are dropped.
#[test]
fn identities_far_apart_are_both_kept() {
    let list = listed(vec![
        ("a".to_string(), app("A", "aumid:Same")),
        ("b".to_string(), app("B", "aumid:Other")),
        ("c".to_string(), app("C", "aumid:Same")),
    ]);

    assert_eq!(names(&list), vec!["A", "B", "C"]);
}

#[test]
fn nothing_listed_is_nothing_offered() {
    assert!(catalogue(vec![]).is_empty());
}

/// The picker shows the applications whose name holds the filter, case
/// ignored, in the order they are listed.
#[test]
fn the_picker_shows_names_holding_the_filter() {
    let apps = vec![
        app("Google Chrome", "aumid:Chrome"),
        app("Blender", "path:C:\\blender.exe"),
        app("chromium", "aumid:Chromium"),
    ];

    assert_eq!(matching(&apps, "CHROM"), vec![0, 2]);
    assert_eq!(matching(&apps, ""), vec![0, 1, 2]);
    assert_eq!(matching(&apps, "zzz"), Vec::<usize>::new());
}
