//! The Shell's decisions between pieces of its own work: installing, turning
//! autostart on and off, removing the task, carrying out Effects, saving the
//! settings form.

use footman::windows::install::{autostart_step, install_next, Autostart, InstallStep};
use footman::windows::task::unregistering;
use footman::windows::{job_of, save_step, saved_notice, tap_strokes, Job, SaveStep};
use footman::{Action, Chord, Config, Effect, Key, Settings, TapAction};

const HOME: &str = r"C:\Users\ada\AppData\Local\Footman";
const COPY: &str = r"C:\Users\ada\AppData\Local\Footman\footman.exe";

/// Walks an install through, every step going as `outcomes` says.
fn walk(installed: bool, copy_exists: bool, outcomes: &[Result<(), &str>]) -> Vec<InstallStep> {
    let mut seen = Vec::new();
    let mut step = InstallStep::Begin;
    let mut outcome: Result<(), String> = Ok(());
    let mut next_outcome = outcomes.iter();
    loop {
        step = install_next(step, outcome, installed, copy_exists, HOME, COPY);
        let done = matches!(step, InstallStep::Done(_));
        seen.push(copy_of(&step));
        if done {
            return seen;
        }
        outcome = next_outcome
            .next()
            .map(|o| o.map_err(str::to_string))
            .unwrap_or(Ok(()));
    }
}

fn copy_of(step: &InstallStep) -> InstallStep {
    match step {
        InstallStep::Begin => InstallStep::Begin,
        InstallStep::MakeHome => InstallStep::MakeHome,
        InstallStep::ClearOld => InstallStep::ClearOld,
        InstallStep::MoveAside => InstallStep::MoveAside,
        InstallStep::CopySelf => InstallStep::CopySelf,
        InstallStep::PutBack(m) => InstallStep::PutBack(m.clone()),
        InstallStep::Tidy => InstallStep::Tidy,
        InstallStep::Done(r) => InstallStep::Done(r.clone()),
    }
}

#[test]
fn installing_the_installed_copy_touches_nothing() {
    assert_eq!(walk(true, true, &[]), vec![InstallStep::Done(Ok(()))]);
}

#[test]
fn a_first_install_makes_the_home_and_copies() {
    assert_eq!(
        walk(false, false, &[Ok(()), Ok(())]),
        vec![
            InstallStep::MakeHome,
            InstallStep::CopySelf,
            InstallStep::Tidy,
            InstallStep::Done(Ok(())),
        ]
    );
}

/// An older copy is moved aside, not written over, and cleared afterwards.
#[test]
fn an_older_copy_is_moved_aside() {
    assert_eq!(
        walk(false, true, &[Ok(()), Ok(()), Ok(()), Ok(())]),
        vec![
            InstallStep::MakeHome,
            InstallStep::ClearOld,
            InstallStep::MoveAside,
            InstallStep::CopySelf,
            InstallStep::Tidy,
            InstallStep::Done(Ok(())),
        ]
    );
}

/// A failed copy puts the older one back before it reports: the logon task
/// names that path and nothing else.
#[test]
fn a_failed_copy_puts_the_older_one_back() {
    let message = format!("could not copy myself to {COPY}: denied");
    assert_eq!(
        walk(false, true, &[Ok(()), Ok(()), Ok(()), Err("denied")]),
        vec![
            InstallStep::MakeHome,
            InstallStep::ClearOld,
            InstallStep::MoveAside,
            InstallStep::CopySelf,
            InstallStep::PutBack(message.clone()),
            InstallStep::Done(Err(message)),
        ]
    );
}

#[test]
fn a_home_that_cannot_be_made_is_reported() {
    assert_eq!(
        walk(false, false, &[Err("no space")]),
        vec![
            InstallStep::MakeHome,
            InstallStep::Done(Err(format!("could not make {HOME}: no space"))),
        ]
    );
    assert_eq!(
        walk(false, true, &[Ok(()), Ok(()), Err("in use")]).last(),
        Some(&InstallStep::Done(Err(format!(
            "could not move {COPY} aside to make room: in use"
        ))))
    );
}

#[test]
fn turning_autostart_on_installs_and_off_unregisters() {
    assert_eq!(autostart_step(true), Autostart::InstallThenRegister);
    assert_eq!(autostart_step(false), Autostart::Unregister);
}

/// Removing a task that is not there already succeeds.
#[test]
fn only_a_registered_task_is_deleted() {
    assert_eq!(
        unregistering(true),
        Some(vec![
            "/Delete".to_string(),
            "/TN".to_string(),
            "Footman".to_string(),
            "/F".to_string()
        ])
    );
    assert_eq!(unregistering(false), None);
}

#[test]
fn every_effect_is_one_job() {
    assert_eq!(
        job_of(Effect::Run(Action::App {
            id: "aumid:Chrome".to_string()
        })),
        Job::Focus("aumid:Chrome".to_string())
    );
    assert_eq!(
        job_of(Effect::Run(Action::Open {
            target: "https://github.com".to_string()
        })),
        Job::Open("https://github.com".to_string())
    );
    assert_eq!(
        job_of(Effect::Run(Action::Run {
            command: "pnpm dev".to_string(),
            show_window: true
        })),
        Job::Run {
            command: "pnpm dev".to_string(),
            show_window: true
        }
    );
    assert_eq!(
        job_of(Effect::Run(Action::Desktop { index: 2 })),
        Job::Desktop(2)
    );
    assert_eq!(
        job_of(Effect::Tap(TapAction::Escape)),
        Job::Send(tap_strokes(TapAction::Escape))
    );
    assert_eq!(job_of(Effect::Tap(TapAction::Nothing)), Job::Send(vec![]));
}

fn form() -> Settings {
    Settings::from_config(Config::default())
}

/// A form with problems is not written; the user is told how many there are.
#[test]
fn a_form_with_problems_is_not_written() {
    let mut settings = form();
    settings.add(Chord::key(Key::C), Action::Desktop { index: 0 });
    settings.add(Chord::key(Key::J), Action::App { id: String::new() });

    match save_step(&settings) {
        SaveStep::FixFirst(message) => assert_eq!(message, "2 thing(s) to fix first"),
        SaveStep::Write(_) => panic!("a form with problems must not be written"),
    }
}

#[test]
fn a_form_without_problems_is_written_and_goes_live() {
    let mut settings = form();
    settings.add(
        Chord::key(Key::C),
        Action::App {
            id: "aumid:Chrome".to_string(),
        },
    );

    let SaveStep::Write(config) = save_step(&settings) else {
        panic!("a form without problems is written");
    };
    assert_eq!(config.bindings.sorted().len(), 1);
    assert_eq!(
        saved_notice(&config, Ok(())),
        "Saved — CapsLock + 1 binding(s) live now"
    );
    assert_eq!(
        saved_notice(&config, Err("could not write it".to_string())),
        "could not write it"
    );
}
