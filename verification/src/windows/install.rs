//! Where Footman installs itself, and how it leaves.
//!
//! Footman ships as one portable executable and installs itself, so it has to
//! know two things it cannot ask anyone: where its copy belongs, and whether
//! it is already that copy. Both are decisions about paths, taken here on the
//! paths' text; touching the disk is the Shell's.

use vstd::prelude::*;

use crate::text::{chars_of, concat, has_prefix, lowercased, same_text, to_lowercase};

verus! {

/// Whether `c` separates the components of a Windows path.
pub open spec fn separator(c: char) -> bool {
    c == '\\' || c == '/'
}

/// Whether `base` is a bare drive, such as `C:`, onto which a name is joined
/// without a separator.
pub open spec fn bare_drive(base: Seq<char>) -> bool {
    base.len() == 2 && base[1] == ':' && (('a' <= base[0] && base[0] <= 'z') || ('A' <= base[0]
        && base[0] <= 'Z'))
}

/// `base` with the relative component `name` joined on, as Windows joins
/// paths: a separator goes between them unless `base` is empty, already ends
/// in one, or is a bare drive.
pub open spec fn joined(base: Seq<char>, name: Seq<char>) -> Seq<char> {
    if base.len() > 0 && !separator(base.last()) && !bare_drive(base) {
        base + seq!['\\'] + name
    } else {
        base + name
    }
}

/// Joins the relative component `name`, which holds no separator and no
/// drive, onto `base`.
fn join(base: &str, name: &str) -> (path: String)
    ensures
        path@ == joined(base@, name@),
{
    let b = chars_of(base);
    let n = b.len();
    let bare = n == 2 && b[1] == ':' && (('a' <= b[0] && b[0] <= 'z') || ('A' <= b[0] && b[0]
        <= 'Z'));
    if n > 0 && b[n - 1] != '\\' && b[n - 1] != '/' && !bare {
        let mut path = concat(base, "\\");
        path.append(name);
        proof {
            reveal_strlit("\\");
        }
        path
    } else {
        concat(base, name)
    }
}

/// The home a user's local data directory holds.
pub open spec fn home_path(local_app_data: Seq<char>) -> Seq<char> {
    joined(local_app_data, "Footman"@)
}

/// The installed copy inside a home.
pub open spec fn copy_path(home: Seq<char>) -> Seq<char> {
    joined(home, "footman.exe"@)
}

/// Where the copy being replaced is moved to, inside a home.
pub open spec fn displaced_path(home: Seq<char>) -> Seq<char> {
    joined(home, "footman.exe.old"@)
}

/// The folder Footman installs itself into, under `%LOCALAPPDATA%`.
///
/// A folder of its own rather than a loose executable: Uninstall removes the
/// folder, and what it removes must never be able to contain anything else.
pub fn home_in(local_app_data: &str) -> (home: String)
    ensures
        home@ == home_path(local_app_data@),
{
    join(local_app_data, "Footman")
}

/// The installed copy inside a home.
pub fn copy_in(home: &str) -> (copy: String)
    ensures
        copy@ == copy_path(home@),
{
    join(home, "footman.exe")
}

/// Where the copy being replaced is moved to.
///
/// Windows will not let a running executable be written over, but it will let
/// one be renamed. So installing over a Footman that is running moves the old
/// copy aside and writes the new one into the name the Task points at. The
/// displaced copy cannot be deleted while its process lives, so it stays until
/// the next install clears it; it sits inside the home so that Uninstall,
/// which takes the home whole, takes it too.
pub fn displaced_in(home: &str) -> (displaced: String)
    ensures
        displaced@ == displaced_path(home@),
{
    join(home, "footman.exe.old")
}

/// Whether the executable at `executable` is the copy installed in `home`,
/// the two compared without case.
pub open spec fn installed_at(executable: Seq<char>, home: Seq<char>) -> bool {
    lowercased(executable) == lowercased(copy_path(home))
}

/// Whether this executable is the installed copy.
///
/// Compared without case, because Windows does not distinguish paths by it
/// and the scheduler, the shell and the user all spell them differently.
/// Reading one file as two would have Footman install itself over itself for
/// ever.
pub fn is_installed(executable: &str, home: &str) -> (installed: bool)
    ensures
        installed == installed_at(executable@, home@),
{
    let copy = copy_in(home);
    let a = to_lowercase(executable);
    let b = to_lowercase(copy.as_str());
    same_text(&chars_of(a.as_str()), &chars_of(b.as_str()))
}

/// The copy in a home is the installed one.
pub proof fn lemma_the_copy_is_installed(home: Seq<char>)
    ensures
        installed_at(copy_path(home), home),
{
}

/// The copy moved aside lies inside the home, under a name of its own that is
/// not the installed copy's.
pub proof fn lemma_displaced_stays_home(home: Seq<char>)
    ensures
        has_prefix(displaced_path(home), home),
        displaced_path(home) != copy_path(home),
{
    reveal_strlit("footman.exe");
    reveal_strlit("footman.exe.old");
    let d = displaced_path(home);
    assert(d.subrange(0, home.len() as int) =~= home);
    assert(d.len() == copy_path(home).len() + 4);
}

/// The command that removes a home once Footman is no longer in it.
pub open spec fn farewell_command(home: Seq<char>) -> Seq<char> {
    "ping -n 4 127.0.0.1 > nul & rmdir /s /q \""@ + home + "\""@
}

/// The command that removes the home once Footman is no longer in it.
///
/// A running executable cannot delete itself, so the deletion is handed to a
/// `cmd` that waits first. `ping` is the wait: `timeout` needs a console to
/// count in, and this one has none. Quoted, because the path runs through
/// `AppData\Local` and a user's name may contain a space: unquoted, `cmd`
/// would take the first word and delete whatever that named.
pub fn farewell(home: &str) -> (command: String)
    ensures
        command@ == farewell_command(home@),
{
    let mut command = concat("ping -n 4 127.0.0.1 > nul & rmdir /s /q \"", home);
    command.append("\"");
    command
}

/// Where an install stands: the step to take next, or that it is over.
///
/// Installing over an older copy moves that copy aside rather than writing
/// over it, because a running executable cannot be written over but can be
/// renamed; a copy that fails puts the older one back, because the logon task
/// names the copy's path and nothing else.
#[derive(Debug, PartialEq, Eq)]
pub enum InstallStep {
    /// Nothing done yet.
    Begin,
    /// Make the home folder.
    MakeHome,
    /// Remove the copy the last install moved aside; failure does not matter.
    ClearOld,
    /// Move the installed copy aside to make room.
    MoveAside,
    /// Copy this executable into the home.
    CopySelf,
    /// Move the displaced copy back, then report this failure.
    PutBack(String),
    /// Remove the displaced copy, which fails while it is still running and
    /// then waits for the next install.
    Tidy,
    /// The install is over, with this result.
    Done(Result<(), String>),
}

/// An install step as values.
pub enum InstallStepView {
    Begin,
    MakeHome,
    ClearOld,
    MoveAside,
    CopySelf,
    PutBack(Seq<char>),
    Tidy,
    Done(Result<(), Seq<char>>),
}

impl View for InstallStep {
    type V = InstallStepView;

    open spec fn view(&self) -> InstallStepView {
        match self {
            InstallStep::Begin => InstallStepView::Begin,
            InstallStep::MakeHome => InstallStepView::MakeHome,
            InstallStep::ClearOld => InstallStepView::ClearOld,
            InstallStep::MoveAside => InstallStepView::MoveAside,
            InstallStep::CopySelf => InstallStepView::CopySelf,
            InstallStep::PutBack(m) => InstallStepView::PutBack(m@),
            InstallStep::Tidy => InstallStepView::Tidy,
            InstallStep::Done(Ok(())) => InstallStepView::Done(Ok(())),
            InstallStep::Done(Err(m)) => InstallStepView::Done(Err(m@)),
        }
    }
}

/// A result as values.
pub open spec fn outcome_view(outcome: Result<(), String>) -> Result<(), Seq<char>> {
    match outcome {
        Ok(()) => Ok(()),
        Err(e) => Err(e@),
    }
}

/// The step after `last`, given how `last` went (ignored where failure does
/// not matter), whether this executable is already the installed copy,
/// whether an installed copy exists, and the paths of the home and the copy as
/// they are shown to the user.
pub open spec fn install_after(
    last: InstallStepView,
    outcome: Result<(), Seq<char>>,
    installed: bool,
    copy_exists: bool,
    home: Seq<char>,
    copy: Seq<char>,
) -> InstallStepView {
    match last {
        InstallStepView::Begin => if installed {
            InstallStepView::Done(Ok(()))
        } else {
            InstallStepView::MakeHome
        },
        InstallStepView::MakeHome => match outcome {
            Err(e) => InstallStepView::Done(Err("could not make "@ + home + ": "@ + e)),
            Ok(()) => if copy_exists {
                InstallStepView::ClearOld
            } else {
                InstallStepView::CopySelf
            },
        },
        InstallStepView::ClearOld => InstallStepView::MoveAside,
        InstallStepView::MoveAside => match outcome {
            Err(e) => InstallStepView::Done(
                Err("could not move "@ + copy + " aside to make room: "@ + e),
            ),
            Ok(()) => InstallStepView::CopySelf,
        },
        InstallStepView::CopySelf => match outcome {
            Err(e) => InstallStepView::PutBack("could not copy myself to "@ + copy + ": "@ + e),
            Ok(()) => InstallStepView::Tidy,
        },
        InstallStepView::PutBack(message) => InstallStepView::Done(Err(message)),
        InstallStepView::Tidy => InstallStepView::Done(Ok(())),
        InstallStepView::Done(r) => InstallStepView::Done(r),
    }
}

/// Three texts one after the other.
fn joined3(a: &str, b: &str, c: &str) -> (s: String)
    ensures
        s@ == a@ + b@ + c@,
{
    let mut s = concat(a, b);
    s.append(c);
    s
}

/// The step an install takes after `last`.
pub fn install_next(
    last: InstallStep,
    outcome: Result<(), String>,
    installed: bool,
    copy_exists: bool,
    home: &str,
    copy: &str,
) -> (next: InstallStep)
    ensures
        next@ == install_after(last@, outcome_view(outcome), installed, copy_exists, home@, copy@),
{
    match last {
        InstallStep::Begin => if installed {
            InstallStep::Done(Ok(()))
        } else {
            InstallStep::MakeHome
        },
        InstallStep::MakeHome => match outcome {
            Err(e) => {
                let mut m = joined3("could not make ", home, ": ");
                m.append(e.as_str());
                InstallStep::Done(Err(m))
            },
            Ok(()) => if copy_exists {
                InstallStep::ClearOld
            } else {
                InstallStep::CopySelf
            },
        },
        InstallStep::ClearOld => InstallStep::MoveAside,
        InstallStep::MoveAside => match outcome {
            Err(e) => {
                let mut m = joined3("could not move ", copy, " aside to make room: ");
                m.append(e.as_str());
                InstallStep::Done(Err(m))
            },
            Ok(()) => InstallStep::CopySelf,
        },
        InstallStep::CopySelf => match outcome {
            Err(e) => {
                let mut m = joined3("could not copy myself to ", copy, ": ");
                m.append(e.as_str());
                InstallStep::PutBack(m)
            },
            Ok(()) => InstallStep::Tidy,
        },
        InstallStep::PutBack(message) => InstallStep::Done(Err(message)),
        InstallStep::Tidy => InstallStep::Done(Ok(())),
        InstallStep::Done(r) => InstallStep::Done(r),
    }
}

/// How far an install step is from the end.
pub open spec fn steps_left(step: InstallStepView) -> nat {
    match step {
        InstallStepView::Begin => 6,
        InstallStepView::MakeHome => 5,
        InstallStepView::ClearOld => 4,
        InstallStepView::MoveAside => 3,
        InstallStepView::CopySelf => 2,
        InstallStepView::PutBack(_) => 1,
        InstallStepView::Tidy => 1,
        InstallStepView::Done(_) => 0,
    }
}

/// Every install ends: each step brings it nearer the end until it is over.
/// A copy that is already installed ends at once, touching nothing; a failed
/// copy always puts the displaced copy back before it reports.
pub proof fn lemma_install_ends(
    last: InstallStepView,
    outcome: Result<(), Seq<char>>,
    installed: bool,
    copy_exists: bool,
    home: Seq<char>,
    copy: Seq<char>,
)
    ensures
        !(last is Done) ==> steps_left(install_after(last, outcome, installed, copy_exists, home, copy))
            < steps_left(last),
        installed ==> install_after(
            InstallStepView::Begin,
            outcome,
            installed,
            copy_exists,
            home,
            copy,
        ) == InstallStepView::Done(Ok(())),
        outcome is Err ==> install_after(
            InstallStepView::CopySelf,
            outcome,
            installed,
            copy_exists,
            home,
            copy,
        ) is PutBack,
{
}

/// What turning autostart on or off does.
#[derive(Debug, Clone, Copy, PartialEq, Eq, Structural)]
pub enum Autostart {
    /// Remove the logon task.
    Unregister,
    /// Install first, then register the logon task for the installed copy.
    /// Turning autostart on is what installs Footman: nothing copies itself
    /// anywhere behind the user's back.
    InstallThenRegister,
}

/// What turning autostart on or off does.
pub fn autostart_step(on: bool) -> (step: Autostart)
    ensures
        step == (if on {
            Autostart::InstallThenRegister
        } else {
            Autostart::Unregister
        }),
{
    if on {
        Autostart::InstallThenRegister
    } else {
        Autostart::Unregister
    }
}

} // verus!
