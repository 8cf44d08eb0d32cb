//! Contracts shared by the terminal, command plugins, and the isolated runner.

pub mod codec;
pub mod digest;
pub mod error;
pub mod field;
pub mod grants;
pub mod ident;
pub mod manifest;
pub mod package;
pub mod proto;
pub mod scopes;
pub mod wire;
