//! Reading and comparing App Identities.
//!
//! An App Identity is an opaque, scheme-prefixed string. The Core stores and
//! compares it without understanding it; this module is the only place that
//! knows `aumid:` from `path:`.

use vstd::prelude::*;

use crate::text::{after_prefix, chars_of, eq_ignore_case, same_ignoring_case, string_from, strip_prefix};

verus! {

/// How to start an application, once its identity has been read.
#[derive(Debug, Clone, PartialEq, Eq)]
pub enum Launch {
    /// Through `shell:AppsFolder`, the shell's virtual folder of every
    /// installed application. It starts packaged and classic applications
    /// alike, and is the only documented way to start one by AUMID.
    AppsFolder(String),
    /// A plain executable path.
    Executable(String),
}

/// A Launch as values.
pub enum LaunchView {
    AppsFolder(Seq<char>),
    Executable(Seq<char>),
}

impl View for Launch {
    type V = LaunchView;

    open spec fn view(&self) -> LaunchView {
        match self {
            Launch::AppsFolder(aumid) => LaunchView::AppsFolder(aumid@),
            Launch::Executable(path) => LaunchView::Executable(path@),
        }
    }
}

/// How an identity starts, if its scheme is one this build knows and it names
/// something.
pub open spec fn launched(identity: Seq<char>) -> Option<LaunchView> {
    match after_prefix(identity, "aumid:"@) {
        Some(aumid) => if aumid.len() > 0 {
            Some(LaunchView::AppsFolder(aumid))
        } else {
            None
        },
        None => match after_prefix(identity, "path:"@) {
            Some(path) => if path.len() > 0 {
                Some(LaunchView::Executable(path))
            } else {
                None
            },
            None => None,
        },
    }
}

/// Reads an identity as something startable, or `None` if this build does not
/// know the scheme (a hand-edited config, or one written by a later version).
/// Guessing would launch the wrong thing.
pub fn launch_of(identity: &str) -> (l: Option<Launch>)
    ensures
        match l {
            Some(launch) => launched(identity@) == Some(launch@),
            None => launched(identity@) is None,
        },
{
    let text = chars_of(identity);
    if let Some(aumid) = strip_prefix(&text, "aumid:") {
        if aumid.len() == 0 {
            return None;
        }
        return Some(Launch::AppsFolder(string_from(&aumid)));
    }
    if let Some(path) = strip_prefix(&text, "path:") {
        if path.len() == 0 {
            return None;
        }
        return Some(Launch::Executable(string_from(&path)));
    }
    None
}

/// Whether some identity in `cascade` is `identity`, ignoring ASCII case.
pub open spec fn answers_to(identity: Seq<char>, cascade: Seq<String>) -> bool {
    exists|i: int| 0 <= i < cascade.len() && same_ignoring_case(#[trigger] cascade[i]@, identity)
}

/// Whether a window whose cascade produced `cascade` is the application named
/// by `identity`.
///
/// A window matches on any step of its cascade rather than only the first:
/// the order decides which identity gets stored, but a window whose window
/// AUMID differs may still be the same application by its process AUMID or
/// its executable path. Comparison ignores case: Windows paths do, and so do
/// AUMIDs.
pub fn matches(identity: &str, cascade: &[String]) -> (r: bool)
    ensures
        r == answers_to(identity@, cascade@),
{
    let wanted = chars_of(identity);
    let mut i: usize = 0;
    while i < cascade.len()
        invariant
            i <= cascade@.len(),
            wanted@ == identity@,
            forall|j: int| 0 <= j < i ==> !same_ignoring_case(#[trigger] cascade@[j]@, identity@),
        decreases cascade.len() - i,
    {
        let candidate = chars_of(cascade[i].as_str());
        if eq_ignore_case(&candidate, &wanted) {
            return true;
        }
        i = i + 1;
    }
    false
}

} // verus!
