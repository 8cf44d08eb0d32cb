//! The logic of a terminal emulator with a session daemon and plugins.

pub mod bytes;
pub mod daemon;
pub mod keyed;
pub mod plugin;
pub mod text;
pub mod ui;
