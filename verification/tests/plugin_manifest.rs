use cterm::plugin::error::PluginPackageError;
use cterm::plugin::ident::{ActionScope, CommandId, PluginId};
use cterm::plugin::manifest::{
    manifest_text, PluginManifest, RawCapabilities, RawCommand, RawInvokeActions, RawManifest,
};
use cterm::plugin::package::{checked_file, is_inside, BundleLimits, LimitedRead, PluginBundle};
use cterm::plugin::digest::BundleDigest;

const VALID_MANIFEST: &str = r#"
manifest_version = 1
id = "org.example.search"
name = "Search"
version = "1.2.3"
abi = "1.0"

[[commands]]
id = "open"
title = "Open Search"

[capabilities.invoke-actions]
allow = ["cterm:find-text", "cterm:new-tab"]
"#;

const WASM_HEADER: &[u8] = b"\0asm\x01\0\0\0";

fn only(table: &toml::Table, known: &[&str]) -> Option<()> {
    table.keys().all(|key| known.contains(&key.as_str())).then_some(())
}

fn string(table: &toml::Table, key: &str) -> Option<String> {
    Some(table.get(key)?.as_str()?.to_string())
}

/// Reads a manifest file; unknown and missing fields are refused.
fn raw_manifest(text: &str) -> Option<RawManifest> {
    let table = text.parse::<toml::Table>().ok()?;
    only(
        &table,
        &["manifest_version", "id", "name", "version", "abi", "commands", "capabilities"],
    )?;
    let mut commands = Vec::new();
    if let Some(list) = table.get("commands") {
        for command in list.as_array()? {
            let command = command.as_table()?;
            only(command, &["id", "title"])?;
            commands.push(RawCommand {
                id: string(command, "id")?,
                title: string(command, "title")?,
            });
        }
    }
    let mut invoke_actions = None;
    if let Some(capabilities) = table.get("capabilities") {
        let capabilities = capabilities.as_table()?;
        only(capabilities, &["invoke-actions"])?;
        if let Some(capability) = capabilities.get("invoke-actions") {
            let capability = capability.as_table()?;
            only(capability, &["allow"])?;
            let mut allow = Vec::new();
            for scope in capability.get("allow")?.as_array()? {
                allow.push(scope.as_str()?.to_string());
            }
            invoke_actions = Some(RawInvokeActions { allow });
        }
    }
    Some(RawManifest {
        manifest_version: u32::try_from(table.get("manifest_version")?.as_integer()?).ok()?,
        id: string(&table, "id")?,
        name: string(&table, "name")?,
        version: string(&table, "version")?,
        abi: string(&table, "abi")?,
        capabilities: RawCapabilities { invoke_actions },
        commands,
    })
}

/// What reading the two files of a package comes to.
fn load_with_limits(
    manifest: &[u8],
    module: &[u8],
    limits: BundleLimits,
) -> Option<Result<PluginBundle, PluginPackageError>> {
    let manifest_read = LimitedRead { kind: "manifest", limit: limits.manifest_bytes };
    if let Err(error) = manifest_read.before_open(manifest.len() as u64) {
        return Some(Err(error));
    }
    let module_read = LimitedRead { kind: "WebAssembly module", limit: limits.module_bytes };
    if let Err(error) = module_read.before_open(module.len() as u64) {
        return Some(Err(error));
    }
    let text = match manifest_text(manifest) {
        Ok(text) => text,
        Err(error) => return Some(Err(error)),
    };
    let raw = raw_manifest(text)?;
    Some(PluginManifest::from_raw(&raw).and_then(|admitted| {
        PluginBundle::seal("/plugins/search".to_string(), admitted, manifest, module.to_vec())
    }))
}

fn load(manifest: &str, module: &[u8]) -> Option<Result<PluginBundle, PluginPackageError>> {
    load_with_limits(manifest.as_bytes(), module, BundleLimits::default())
}

fn loaded(manifest: &str, module: &[u8]) -> PluginBundle {
    load(manifest, module).unwrap().unwrap()
}

fn is_refused(manifest: &str) -> bool {
    !matches!(load(manifest, WASM_HEADER), Some(Ok(_)))
}

fn refusal(manifest: &str) -> PluginPackageError {
    load(manifest, WASM_HEADER).unwrap().unwrap_err()
}

#[test]
fn valid_bundle_has_stable_namespaces_scopes_and_digest() {
    let first = loaded(VALID_MANIFEST, WASM_HEADER);
    let second = loaded(VALID_MANIFEST, WASM_HEADER);

    assert_eq!(first.digest(), second.digest());
    assert_eq!(first.module(), WASM_HEADER);
    assert_eq!(
        first.manifest().commands()[0].action_id(first.manifest().id()),
        "plugin:org.example.search/open"
    );
    assert_eq!(
        first.manifest().invoke_actions().items(),
        &vec![
            ActionScope::parse("cterm:find-text").unwrap(),
            ActionScope::parse("cterm:new-tab").unwrap(),
        ]
    );
    assert_eq!(
        BundleDigest::from_text(&first.digest().to_string()).unwrap(),
        first.digest()
    );
    assert_eq!(
        first.digest().to_string(),
        "sha256:9cce2ae0529d4ad79d565b1b5ba1c90bcd5972c611c61c1cd6fa349f906fc873"
    );
}

#[test]
fn any_manifest_or_module_change_invalidates_the_digest() {
    let initial = loaded(VALID_MANIFEST, WASM_HEADER).digest();

    let changed_manifest = VALID_MANIFEST.replace("Search\"", "Search Tools\"");
    let manifest_changed = loaded(&changed_manifest, WASM_HEADER).digest();
    assert_ne!(manifest_changed, initial);

    let changed_module = [WASM_HEADER, b"custom"].concat();
    let module_changed = loaded(&changed_manifest, &changed_module).digest();
    assert_ne!(module_changed, manifest_changed);
}

#[test]
fn unknown_fields_scopes_and_versions_fail_closed() {
    for manifest in [
        VALID_MANIFEST.replace("manifest_version = 1", "manifest_version = 2"),
        VALID_MANIFEST.replace("abi = \"1.0\"", "abi = \"2.0\""),
        VALID_MANIFEST.replace("cterm:new-tab", "network:*"),
        format!("{VALID_MANIFEST}\nunknown = true\n"),
    ] {
        assert!(is_refused(&manifest));
    }
}

#[test]
fn duplicate_commands_and_scopes_are_rejected() {
    let duplicate_command =
        format!("{VALID_MANIFEST}\n[[commands]]\nid = \"open\"\ntitle = \"Again\"\n");
    let duplicate_scope = VALID_MANIFEST.replace("\"cterm:new-tab\"]", "\"cterm:find-text\"]");

    for manifest in [duplicate_command, duplicate_scope] {
        assert!(is_refused(&manifest));
    }
}

#[test]
fn identifiers_are_strictly_portable() {
    for manifest in [
        VALID_MANIFEST.replace("org.example.search", "Org.Example"),
        VALID_MANIFEST.replace("org.example.search", "example"),
        VALID_MANIFEST.replace("id = \"open\"", "id = \"../open\""),
    ] {
        assert!(is_refused(&manifest));
    }
}

#[test]
fn package_files_cannot_be_symlinks_outside_the_root() {
    assert!(matches!(
        checked_file(
            "/plugins/search/plugin.wasm",
            "/outside/plugin.wasm",
            &parts("/plugins/search"),
            &parts("/outside/plugin.wasm"),
            true
        ),
        Err(PluginPackageError::PathEscapesBundle(_))
    ));
}

fn parts(path: &str) -> Vec<Vec<u8>> {
    std::path::Path::new(path)
        .components()
        .map(|part| part.as_os_str().as_encoded_bytes().to_vec())
        .collect()
}

#[test]
fn paths_lie_inside_a_directory_by_whole_components() {
    for (root, path) in [
        ("/plugins/a", "/plugins/a/plugin.toml"),
        ("/plugins/a", "/plugins/a"),
        ("/plugins/a", "/plugins/ab/plugin.toml"),
        ("/plugins/a", "/plugins"),
        ("/plugins/a", "/plugins/b/a"),
        ("/", "/plugins"),
    ] {
        assert_eq!(
            is_inside(&parts(root), &parts(path)),
            std::path::Path::new(path).starts_with(root),
            "{root} {path}"
        );
    }
    assert!(!is_inside(&parts("/plugins/a"), &parts("/plugins/ab/plugin.toml")));
}

#[test]
fn size_limits_and_wasm_header_are_enforced() {
    assert!(matches!(
        load_with_limits(
            VALID_MANIFEST.as_bytes(),
            WASM_HEADER,
            BundleLimits {
                manifest_bytes: 4,
                module_bytes: 32,
            }
        ),
        Some(Err(PluginPackageError::FileTooLarge {
            kind: "manifest",
            ..
        }))
    ));

    assert!(matches!(
        load(VALID_MANIFEST, b"not wasm"),
        Some(Err(PluginPackageError::InvalidWasmModule))
    ));
}

#[test]
fn oversized_sparse_module_is_rejected_before_allocation() {
    let advertised_size = u64::try_from(BundleLimits::default().module_bytes).unwrap() + 1;
    let read = LimitedRead {
        kind: "WebAssembly module",
        limit: BundleLimits::default().module_bytes,
    };
    assert!(matches!(
        read.before_open(advertised_size),
        Err(PluginPackageError::FileTooLarge {
            kind: "WebAssembly module",
            ..
        })
    ));
}

#[test]
fn a_file_that_changes_while_it_is_read_is_refused() {
    let read = LimitedRead { kind: "manifest", limit: 10 };
    let path = "/plugins/a/cterm-plugin.toml";
    assert_eq!(read.before_open(10), Ok(()));
    assert_eq!(read.read_budget(), 11);
    assert_eq!(read.after_open(path, 10, true, 10), Ok(10));
    assert_eq!(
        read.after_open(path, 10, false, 10),
        Err(PluginPackageError::NotRegularFile(path.to_string()))
    );
    assert_eq!(
        read.after_open(path, 10, true, 9),
        Err(PluginPackageError::FileChangedDuringRead(path.to_string()))
    );
    assert_eq!(
        read.after_open(path, 9, true, 11),
        Err(PluginPackageError::FileTooLarge { kind: "manifest", limit: 10 })
    );
    assert_eq!(read.after_read(path, 10, 10, 10), Ok(()));
    assert_eq!(
        read.after_read(path, 10, 11, 11),
        Err(PluginPackageError::FileTooLarge { kind: "manifest", limit: 10 })
    );
    assert_eq!(
        read.after_read(path, 10, 9, 10),
        Err(PluginPackageError::FileChangedDuringRead(path.to_string()))
    );
    assert_eq!(
        read.after_read(path, 10, 10, 9),
        Err(PluginPackageError::FileChangedDuringRead(path.to_string()))
    );
    assert_eq!(
        checked_file(path, "/plugins/a/dir", &parts("/plugins/a"), &parts("/plugins/a/dir"), false),
        Err(PluginPackageError::NotRegularFile("/plugins/a/dir".to_string()))
    );
    assert_eq!(checked_file(path, path, &parts("/"), &parts(path), true), Ok(()));
}

#[test]
fn each_refusal_names_its_reason() {
    assert_eq!(
        refusal(&VALID_MANIFEST.replace("manifest_version = 1", "manifest_version = 2")),
        PluginPackageError::UnsupportedManifestVersion { found: 2, supported: 1 }
    );
    assert_eq!(
        refusal(&VALID_MANIFEST.replace("abi = \"1.0\"", "abi = \"2.0\"")),
        PluginPackageError::UnsupportedAbi {
            found: "2.0".to_string(),
            supported: "1.0".to_string(),
        }
    );
    assert_eq!(
        refusal(&VALID_MANIFEST.replace("org.example.search", "example")),
        PluginPackageError::InvalidPluginId("example".to_string())
    );
    assert_eq!(
        refusal(&VALID_MANIFEST.replace("id = \"open\"", "id = \"../open\"")),
        PluginPackageError::InvalidCommandId("../open".to_string())
    );
    assert_eq!(
        refusal(&VALID_MANIFEST.replace("\"Search\"", "\"\"")),
        PluginPackageError::InvalidLabel { kind: "plugin name", limit: 128 }
    );
    assert_eq!(
        refusal(&VALID_MANIFEST.replace("Open Search", &"x".repeat(129))),
        PluginPackageError::InvalidLabel { kind: "command title", limit: 128 }
    );
    assert_eq!(
        refusal(&VALID_MANIFEST.replace("cterm:new-tab", "network:*")),
        PluginPackageError::InvalidActionScope("network:*".to_string())
    );
    assert_eq!(
        refusal(&VALID_MANIFEST.replace("\"cterm:new-tab\"]", "\"cterm:find-text\"]")),
        PluginPackageError::DuplicateActionScope(ActionScope::parse("cterm:find-text").unwrap())
    );
    assert_eq!(
        refusal(&VALID_MANIFEST.replace("[\"cterm:find-text\", \"cterm:new-tab\"]", "[]")),
        PluginPackageError::EmptyActionCapability
    );
    assert_eq!(
        refusal(&format!(
            "{VALID_MANIFEST}\n[[commands]]\nid = \"open\"\ntitle = \"Again\"\n"
        )),
        PluginPackageError::DuplicateCommand(CommandId::parse("open").unwrap())
    );
    assert_eq!(
        refusal(&VALID_MANIFEST.replace(
            "[[commands]]\nid = \"open\"\ntitle = \"Open Search\"\n",
            ""
        )),
        PluginPackageError::NoCommands
    );
    assert_eq!(manifest_text(b"\xff"), Err(PluginPackageError::ManifestEncoding));
    assert_eq!(manifest_text("h\u{e9}".as_bytes()), Ok("h\u{e9}"));
}

#[test]
fn versions_are_read_by_their_parts() {
    let manifest = VALID_MANIFEST.replace("1.2.3", "1.2.3-rc.1+build.7");
    let bundle = loaded(&manifest, WASM_HEADER);
    let version = bundle.manifest().version();
    assert_eq!((version.major, version.minor, version.patch), (1, 2, 3));
    assert_eq!(version.pre, "rc.1");
    assert_eq!(version.build, "build.7");
    assert!(matches!(
        refusal(&VALID_MANIFEST.replace("1.2.3", "1.2")),
        PluginPackageError::InvalidPluginVersion { version, source }
            if version == "1.2" && source == semver::Version::parse("1.2").unwrap_err().to_string()
    ));
}

#[test]
fn a_manifest_without_capabilities_requests_nothing() {
    let manifest = VALID_MANIFEST.replace(
        "[capabilities.invoke-actions]\nallow = [\"cterm:find-text\", \"cterm:new-tab\"]\n",
        "",
    );
    let bundle = loaded(&manifest, WASM_HEADER);
    assert!(bundle.manifest().invoke_actions().is_empty());
    assert_eq!(bundle.root(), "/plugins/search");
    assert_eq!(bundle.manifest().id(), &PluginId::parse("org.example.search").unwrap());
    assert_eq!(bundle.manifest().name(), "Search");
    let open = CommandId::parse("open").unwrap();
    assert_eq!(bundle.manifest().command(&open).unwrap().title(), "Open Search");
    assert!(bundle.manifest().command(&CommandId::parse("close").unwrap()).is_none());
}

#[test]
fn identifiers_end_at_their_limits() {
    assert!(CommandId::parse(&"a".repeat(64)).is_ok() != CommandId::parse(&"a".repeat(65)).is_ok());
    assert!(PluginId::parse(&format!("a.{}", "b".repeat(63))).is_ok());
    assert!(PluginId::parse(&format!("a.{}", "b".repeat(64))).is_err());
    assert!(PluginId::parse("a..b").is_err());
    assert!(PluginId::parse("a.-b").is_err());
    assert!(PluginId::parse("a.b-").is_err());
    assert!(ActionScope::parse("cterm:").is_err());
    assert!(ActionScope::parse("cterm:x").is_ok());
}

#[test]
fn plugin_identifiers_are_parsed_from_text() {
    let id = "org.example.search".parse::<PluginId>().unwrap();
    assert_eq!(id, PluginId::parse("org.example.search").unwrap());
    assert_eq!(id.as_str(), "org.example.search");
    for text in ["", "search", "org..search", "Org.example", "org.example-"] {
        assert!(text.parse::<PluginId>().is_err(), "{text}");
    }
}
