//! Why a plugin package is refused.

use vstd::prelude::*;

use crate::plugin::ident::{ActionScope, CommandId};

verus! {

#[derive(Debug, PartialEq, Eq)]
#[allow(inconsistent_fields)]
pub enum PluginPackageError {
    /// The package root is not a directory.
    NotDirectory(String),
    /// A package file lies outside the package root.
    PathEscapesBundle(String),
    /// A package path is not a regular file.
    NotRegularFile(String),
    FileTooLarge { kind: &'static str, limit: usize },
    /// The file changed length while it was being read.
    FileChangedDuringRead(String),
    /// The manifest is not UTF-8.
    ManifestEncoding,
    UnsupportedManifestVersion { found: u32, supported: u32 },
    UnsupportedAbi { found: String, supported: String },
    InvalidPluginId(String),
    InvalidPluginVersion { version: String, source: String },
    InvalidCommandId(String),
    DuplicateCommand(CommandId),
    InvalidActionScope(String),
    DuplicateActionScope(ActionScope),
    /// The invoke-actions capability allows no action.
    EmptyActionCapability,
    /// The manifest declares no command.
    NoCommands,
    InvalidLabel { kind: &'static str, limit: usize },
    /// The module does not start with the WebAssembly header.
    InvalidWasmModule,
    InvalidDigest(String),
}

} // verus!
