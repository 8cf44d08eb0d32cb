//! The headless daemon: its sessions and the rules by which it serves them.

pub mod consent;
pub mod manager;
pub mod relaunch;
pub mod screen;
pub mod server;
pub mod service;
pub mod session;
pub mod transfer;
pub mod writer;
