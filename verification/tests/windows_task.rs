//! The per-user Scheduled Task that starts Footman at logon.

use footman::windows::task;

fn definition() -> String {
    task::definition(
        r"C:\Users\ada\AppData\Local\Footman\footman.exe",
        "LAPTOP\\ada",
    )
}

#[test]
fn the_task_runs_the_executable_it_was_given() {
    assert!(definition().contains(r"C:\Users\ada\AppData\Local\Footman\footman.exe"));
}

#[test]
fn a_path_that_is_not_xml_safe_is_escaped() {
    let xml = task::definition(r"C:\Users\a&b\footman.exe", "LAPTOP\\a&b");

    assert!(xml.contains("a&amp;b"), "the ampersand must be escaped");
    assert!(!xml.contains(r"a&b"), "and not left raw anywhere");
}

#[test]
fn it_starts_at_logon() {
    assert!(definition().contains("<LogonTrigger>"));
}

#[test]
fn it_is_restarted_if_it_fails() {
    let xml = definition();
    assert!(xml.contains("<RestartOnFailure>"));
    assert!(xml.contains("<Count>"));
}

#[test]
fn it_is_not_given_a_time_limit() {
    assert!(definition().contains("<ExecutionTimeLimit>PT0S</ExecutionTimeLimit>"));
}

#[test]
fn a_machine_on_battery_is_not_a_reason_to_stay_shut() {
    let xml = definition();
    assert!(xml.contains("<DisallowStartIfOnBatteries>false</DisallowStartIfOnBatteries>"));
    assert!(xml.contains("<StopIfGoingOnBatteries>false</StopIfGoingOnBatteries>"));
}

#[test]
fn a_second_copy_is_not_started_over_the_first() {
    assert!(definition().contains("<MultipleInstancesPolicy>IgnoreNew</MultipleInstancesPolicy>"));
}

#[test]
fn it_runs_with_no_more_privilege_than_the_user_has() {
    assert!(definition().contains("<RunLevel>LeastPrivilege</RunLevel>"));
}

#[test]
fn it_waits_a_little_after_logon() {
    assert!(definition().contains("<Delay>PT15S</Delay>"));
}

#[test]
fn the_task_is_registered_by_name_and_definition() {
    let arguments = task::create(r"C:\Temp\footman.xml");

    assert_eq!(
        arguments,
        vec![
            "/Create",
            "/TN",
            "Footman",
            "/XML",
            r"C:\Temp\footman.xml",
            "/F"
        ],
        "/F so that registering twice replaces rather than fails"
    );
}

#[test]
fn the_task_is_removed_by_name() {
    assert_eq!(task::delete(), vec!["/Delete", "/TN", "Footman", "/F"]);
}

#[test]
fn the_task_is_asked_after_by_name() {
    assert_eq!(task::query(), vec!["/Query", "/TN", "Footman"]);
}

/// The definition names the task and the user it belongs to, in both places
/// the scheduler looks.
#[test]
fn the_definition_names_the_task_and_its_user_twice() {
    let xml = definition();
    assert!(xml.starts_with("<?xml version=\"1.0\" encoding=\"UTF-16\"?>\n"));
    assert!(xml.contains(r"<URI>\Footman</URI>"));
    assert_eq!(xml.matches(r"<UserId>LAPTOP\ada</UserId>").count(), 2);
    assert!(xml.ends_with("</Task>\n"));
}

#[test]
fn every_character_xml_reserves_is_escaped() {
    assert_eq!(task::escape(r#"<a & "b">"#), "&lt;a &amp; &quot;b&quot;&gt;");
    assert_eq!(task::escape("plain"), "plain");
}

/// The file is UTF-16, little-endian, behind a byte order mark, and
/// characters beyond the basic plane take two code units.
#[test]
fn the_definition_is_written_as_utf16() {
    assert_eq!(task::definition_bytes("A"), vec![0xFF, 0xFE, 0x41, 0x00]);
    assert_eq!(task::definition_bytes("é"), vec![0xFF, 0xFE, 0xE9, 0x00]);
    assert_eq!(
        task::definition_bytes("😀"),
        vec![0xFF, 0xFE, 0x3D, 0xD8, 0x00, 0xDE]
    );
    let text = definition();
    let expected: Vec<u8> = [0xFF, 0xFE]
        .into_iter()
        .chain(text.encode_utf16().flat_map(|unit| unit.to_le_bytes()))
        .collect();
    assert_eq!(task::definition_bytes(&text), expected);
}

#[test]
fn the_account_carries_its_domain_when_windows_names_one() {
    assert_eq!(task::account(Some("LAPTOP"), "ada"), r"LAPTOP\ada");
    assert_eq!(task::account(Some(""), "ada"), "ada");
    assert_eq!(task::account(None, "ada"), "ada");
}

/// `schtasks` explains itself on standard error; when it does not, its exit
/// status is all there is to say.
#[test]
fn a_refusal_is_explained_by_schtasks_itself() {
    assert_eq!(
        task::refusal("  ERROR: The system cannot find the file specified.\r\n", "exit code: 1"),
        "ERROR: The system cannot find the file specified."
    );
    assert_eq!(
        task::refusal(" \n", "exit code: 1"),
        "schtasks refused: exit code: 1"
    );
}
