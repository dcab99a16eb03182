//! What pressing Save in the settings window comes to.
//!
//! A form with problems is not written: the problems are shown instead. A form
//! without them is written as the Config it describes, and the Bindings go
//! live at once, without the hook being dropped; writing the file and handing
//! the hook its new Core are the Shell's.

use vstd::prelude::*;

use crate::config::Config;
use crate::keys::key_name;
use crate::settings::{first_wins, problems_upto, Settings};
use crate::text::{decimal, push_decimal};

verus! {

/// What Save does with the form.
#[derive(Debug)]
pub enum SaveStep {
    /// Show the problems and say this: nothing is written.
    FixFirst(String),
    /// Write this Config.
    Write(Config),
}

/// What the user is told when the form has `count` problems to fix.
pub open spec fn fix_first_message(count: nat) -> Seq<char> {
    decimal(count) + " thing(s) to fix first"@
}

/// What Save does with the form: say how many problems there are, if there
/// are any, or else write the Config the form describes, in which of two rows
/// on one Chord the first wins.
pub fn save_step(settings: &Settings) -> (step: SaveStep)
    ensures
        ({
            let problems = problems_upto(settings.bindings@, settings.bindings@.len() as int);
            match step {
                SaveStep::FixFirst(message) => problems.len() > 0 && message@ == fix_first_message(
                    problems.len(),
                ),
                SaveStep::Write(config) => problems.len() == 0 && config.hyper == settings.hyper
                    && config.tap == settings.tap && config.autostart == settings.autostart
                    && config.bindings@ == first_wins(settings.bindings@),
            }
        }),
{
    let problems = settings.problems();
    if problems.len() > 0 {
        let mut message = String::new();
        push_decimal(&mut message, problems.len());
        message.append(" thing(s) to fix first");
        return SaveStep::FixFirst(message);
    }
    SaveStep::Write(settings.clone().into_config())
}

/// What the user is told once the file has been written: the Hyper Key and
/// how many Bindings are live now.
pub open spec fn saved_message(hyper_name: Seq<char>, live: nat) -> Seq<char> {
    "Saved — "@ + hyper_name + " + "@ + decimal(live) + " binding(s) live now"@
}

/// What the user is told after Save wrote `config`, or failed to with this
/// message. The Bindings are live from the next keystroke, and the message
/// says so: a user who has to close a window to find out has been told
/// nothing.
pub fn saved_notice(config: &Config, written: Result<(), String>) -> (notice: String)
    ensures
        match written {
            Ok(()) => notice@ == saved_message(key_name(config.hyper), config.bindings@.dom().len()),
            Err(message) => notice == message,
        },
{
    match written {
        Ok(()) => {
            let live = config.bindings.sorted().len();
            let mut notice = String::from_str("Saved — ");
            notice.append(config.hyper.name());
            notice.append(" + ");
            push_decimal(&mut notice, live);
            notice.append(" binding(s) live now");
            notice
        },
        Err(message) => message,
    }
}

} // verus!
