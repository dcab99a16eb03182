//! What the settings window has to work out about what the user did in it.

pub mod keys;
pub mod form;
