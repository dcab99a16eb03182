//! Finding, raising and launching applications: the decisions of the App
//! Action that are the Shell's rather than the Core's.

use vstd::prelude::*;

use super::identity::{launch_of, launched, Launch, LaunchView};
use crate::text::concat;

verus! {

/// The DWM cloaking bit set when the application cloaked the window itself.
pub const CLOAKED_BY_APPLICATION: u32 = 1;

/// Whether DWM cloaking means this window is not really there.
///
/// Cloaking alone does not say. Every window on another virtual desktop is
/// cloaked, and those are real windows the App Action must find. What
/// separates a ghost from a window merely elsewhere is being cloaked and on
/// the desktop the user is looking at, a state no genuinely open window was
/// measured in; or being cloaked by the application itself, a suspended UWP,
/// wherever it claims to be.
pub fn hidden_by_cloaking(cloaked: u32, on_current_desktop: bool) -> (hidden: bool)
    ensures
        hidden == (cloaked % 2 == 1 || (cloaked != 0 && on_current_desktop)),
{
    assert((cloaked & 1u32 != 0) == (cloaked % 2 == 1)) by (bit_vector);
    cloaked & CLOAKED_BY_APPLICATION != 0 || (cloaked != 0 && on_current_desktop)
}

/// Whether to attach this thread's input queue to `theirs`, the thread of the
/// foreground window, before raising a window.
///
/// Attaching is how Footman crosses the foreground lock. It is also a way to
/// hand this thread over to another one: attached queues process input
/// together. A thread that is not there (`0`), this thread itself, or any
/// thread while a window of this process already holds the foreground (which
/// Windows grants the foreground to unconditionally) is not worth it.
pub fn worth_attaching(theirs: u32, ours: u32, ours_in_front: bool) -> (worth: bool)
    ensures
        worth == (theirs != 0 && theirs != ours && !ours_in_front),
{
    theirs != 0 && theirs != ours && !ours_in_front
}

/// What the shell is asked to open for an identity, or why it cannot be.
pub open spec fn launch_target_of(identity: Seq<char>) -> Result<Seq<char>, Seq<char>> {
    match launched(identity) {
        Some(LaunchView::AppsFolder(aumid)) => Ok("shell:AppsFolder\\"@ + aumid),
        Some(LaunchView::Executable(path)) => Ok(path),
        None => Err("unknown App Identity scheme: "@ + identity),
    }
}

/// What to hand `ShellExecute` to start the application an identity names.
pub fn launch_target(identity: &str) -> (target: Result<String, String>)
    ensures
        match (target, launch_target_of(identity@)) {
            (Ok(t), Ok(want)) => t@ == want,
            (Err(e), Err(want)) => e@ == want,
            _ => false,
        },
{
    match launch_of(identity) {
        Some(Launch::AppsFolder(aumid)) => Ok(concat("shell:AppsFolder\\", aumid.as_str())),
        Some(Launch::Executable(path)) => Ok(path),
        None => Err(concat("unknown App Identity scheme: ", identity)),
    }
}

/// One step of the cascade, labelled with its scheme, if it produced anything.
pub open spec fn labelled(scheme: Seq<char>, found: Option<String>) -> Seq<Seq<char>> {
    match found {
        Some(text) => seq![scheme + text@],
        None => Seq::empty(),
    }
}

/// Every identity a window answers to, in cascade order: the AUMID the window
/// advertises, then the AUMID of its process's package, then its executable
/// path.
///
/// All three are kept rather than stopping at the first, because the order
/// decides which identity is stored while any of them may be the one a
/// Binding was written with.
pub fn cascade_of(
    window_aumid: Option<String>,
    process_aumid: Option<String>,
    executable: Option<String>,
) -> (found: Vec<String>)
    ensures
        found@.map_values(|s: String| s@) == labelled("aumid:"@, window_aumid) + labelled(
            "aumid:"@,
            process_aumid,
        ) + labelled("path:"@, executable),
{
    let ghost (w, p, e) = (window_aumid, process_aumid, executable);
    let mut found: Vec<String> = Vec::new();
    if let Some(aumid) = window_aumid {
        found.push(concat("aumid:", aumid.as_str()));
    }
    assert(found@.map_values(|s: String| s@) =~= labelled("aumid:"@, w));
    if let Some(aumid) = process_aumid {
        found.push(concat("aumid:", aumid.as_str()));
    }
    assert(found@.map_values(|s: String| s@) =~= labelled("aumid:"@, w) + labelled("aumid:"@, p));
    if let Some(path) = executable {
        found.push(concat("path:", path.as_str()));
    }
    assert(found@.map_values(|s: String| s@) =~= labelled("aumid:"@, w) + labelled("aumid:"@, p)
        + labelled("path:"@, e));
    found
}

} // verus!
