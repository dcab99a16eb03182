//! The Windows Shell's decisions: everything it works out before, between and
//! after its calls into the operating system.

pub mod apps;
pub mod commands;
pub mod desktops;
pub mod dispatch;
pub mod hook;
pub mod identity;
pub mod install;
pub mod installed;
pub mod keys;
pub mod synthetic;
pub mod task;
pub mod ui;
pub mod watch;

pub use apps::{cascade_of, hidden_by_cloaking, launch_target, worth_attaching};
pub use commands::{creation_flags, CREATE_NEW_CONSOLE, CREATE_NO_WINDOW};
pub use desktops::{desktops_from, journey, position_from, steps_to, walk, Desktops, Move};
pub use dispatch::{job_of, Job};
pub use hook::{chore, key_event_of, Chore, HookError, FOOTMAN_SIGNATURE};
pub use identity::{launch_of, Launch};
pub use installed::{catalogue, entry_of, identity_of, listed, matching, Entry, Installed};
pub use keys::{key_to_vk, vk_to_key};
pub use synthetic::{press, release, tap, tap_strokes, Stroke};
pub use ui::form::{save_step, saved_notice, SaveStep};
pub use ui::keys::{capture, key_named, kind_of, Capture};
pub use watch::{same_clock, Health, HookWatch};
