//! What the desktop front end decides: actions, panes, tabs, keys and dialogs.

pub mod action;
pub mod pane;
pub mod tree;
pub mod viewport;
pub mod window;
pub mod ci;
pub mod keys;
pub mod keyboard;
pub mod mouse;
pub mod spawn;
pub mod stream;
pub mod render;
pub mod options;
pub mod tabs;
pub mod close;
pub mod frame;
pub mod upgrade;
pub mod notification;
pub mod quick_open;
pub mod update;
