//! Footman, a hyper-key launcher: the Core, platform-free, and the decisions
//! of its Windows shell.

pub mod keys;
pub mod text;

pub use keys::Key;
pub mod chord;
pub use chord::{Chord, Modifiers};
pub mod action;
pub use action::{Action, Effect, KeyEvent, Outcome, TapAction, Verdict};
pub mod table;
pub use table::BindingTable;
pub mod machine;
pub use machine::Core;
pub mod config;
pub use config::{Config, ConfigError, Document, Loaded, RawBinding, Spanned, Warning};
pub mod settings;
pub use settings::{Problem, Settings};
pub mod tray;
pub use tray::{Click, Duty, TrayEffect};
pub mod app;
pub use app::{choose_window, AppTarget, Window};
pub mod windows;
