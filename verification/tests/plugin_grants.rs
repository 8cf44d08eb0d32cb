use cterm::plugin::grants::{
    GrantDecision, GrantError, GrantStore, RawGrantRecord, RawGrantStore,
};
use cterm::plugin::ident::{ActionScope, PluginId};
use cterm::plugin::manifest::{
    PluginManifest, RawCapabilities, RawCommand, RawInvokeActions, RawManifest,
};
use cterm::plugin::package::PluginBundle;
use cterm::plugin::scopes::ScopeSet;

const MANIFEST: &str = r#"
manifest_version = 1
id = "org.example.tools"
name = "Tools"
version = "1.0.0"
abi = "1.0"

[[commands]]
id = "run"
title = "Run Tool"

[capabilities.invoke-actions]
allow = ["cterm:new-tab", "cterm:split-pane"]
"#;

/// The package of `MANIFEST` with this module.
fn package(id: &str, module: &[u8]) -> PluginBundle {
    let raw = RawManifest {
        manifest_version: 1,
        id: id.to_string(),
        name: "Tools".to_string(),
        version: "1.0.0".to_string(),
        abi: "1.0".to_string(),
        capabilities: RawCapabilities {
            invoke_actions: Some(RawInvokeActions {
                allow: vec!["cterm:new-tab".to_string(), "cterm:split-pane".to_string()],
            }),
        },
        commands: vec![RawCommand { id: "run".to_string(), title: "Run Tool".to_string() }],
    };
    let manifest = PluginManifest::from_raw(&raw).unwrap();
    PluginBundle::seal("/plugins/tools".to_string(), manifest, MANIFEST.as_bytes(), module.to_vec())
        .unwrap()
}

fn bundle() -> PluginBundle {
    package("org.example.tools", b"\0asm\x01\0\0\0")
}

fn scope(value: &str) -> ActionScope {
    ActionScope::parse(value).unwrap()
}

fn scopes(values: &[&str]) -> ScopeSet {
    let mut set = ScopeSet::new();
    for value in values {
        set.insert(scope(value));
    }
    set
}

fn requested(bundle: &PluginBundle) -> ScopeSet {
    let mut set = ScopeSet::new();
    for item in bundle.manifest().invoke_actions().items() {
        set.insert(item.clone());
    }
    set
}

fn only(table: &toml::Table, known: &[&str]) -> Option<()> {
    table.keys().all(|key| known.contains(&key.as_str())).then_some(())
}

/// Reads a grant file; unknown and missing fields are refused.
fn raw_store(text: &str) -> Option<RawGrantStore> {
    let table = text.parse::<toml::Table>().ok()?;
    only(&table, &["version", "grants"])?;
    let mut grants = Vec::new();
    if let Some(list) = table.get("grants") {
        for record in list.as_array()? {
            let record = record.as_table()?;
            only(record, &["plugin", "digest", "invoke-actions"])?;
            let mut invoke_actions = Vec::new();
            if let Some(actions) = record.get("invoke-actions") {
                for action in actions.as_array()? {
                    invoke_actions.push(ActionScope::parse(action.as_str()?).ok()?);
                }
            }
            grants.push(RawGrantRecord {
                plugin: PluginId::parse(record.get("plugin")?.as_str()?).ok()?,
                digest: record.get("digest")?.as_str()?.to_string(),
                invoke_actions,
            });
        }
    }
    Some(RawGrantStore {
        version: u32::try_from(table.get("version")?.as_integer()?).ok()?,
        grants,
    })
}

fn to_toml(store: &GrantStore) -> String {
    let raw = store.to_raw();
    let mut grants = Vec::new();
    for record in &raw.grants {
        let mut table = toml::Table::new();
        table.insert("plugin".to_string(), record.plugin.as_str().to_string().into());
        table.insert("digest".to_string(), record.digest.clone().into());
        let actions: Vec<String> =
            record.invoke_actions.iter().map(|action| action.as_str().to_string()).collect();
        table.insert("invoke-actions".to_string(), actions.into());
        grants.push(toml::Value::Table(table));
    }
    let mut table = toml::Table::new();
    table.insert("version".to_string(), i64::from(raw.version).into());
    table.insert("grants".to_string(), toml::Value::Array(grants));
    table.to_string()
}

fn from_toml(text: &str) -> Option<Result<GrantStore, GrantError>> {
    Some(GrantStore::from_raw(&raw_store(text)?))
}

#[test]
fn approval_is_exact_digest_and_least_privilege() {
    let bundle = bundle();
    let mut grants = GrantStore::default();
    assert_eq!(
        grants.decision(&bundle),
        GrantDecision::ApprovalRequired {
            missing: requested(&bundle),
            content_changed: false,
        }
    );

    grants.approve(&bundle, scopes(&["cterm:new-tab"])).unwrap();
    assert_eq!(
        grants.decision(&bundle),
        GrantDecision::ApprovalRequired {
            missing: scopes(&["cterm:split-pane"]),
            content_changed: false,
        }
    );

    grants.approve(&bundle, requested(&bundle)).unwrap();
    assert_eq!(grants.decision(&bundle), GrantDecision::Granted);
}

#[test]
fn changed_code_never_inherits_old_grants() {
    let initial = bundle();
    let mut grants = GrantStore::default();
    grants.approve(&initial, requested(&initial)).unwrap();

    let changed = package("org.example.tools", b"\0asm\x01\0\0\0changed");
    assert_eq!(
        grants.decision(&changed),
        GrantDecision::ApprovalRequired {
            missing: requested(&changed),
            content_changed: true,
        }
    );
}

#[test]
fn grant_store_round_trips_deterministically() {
    let bundle = bundle();
    let mut grants = GrantStore::default();
    grants.approve(&bundle, requested(&bundle)).unwrap();

    let encoded = to_toml(&grants);
    let decoded = from_toml(&encoded).unwrap().unwrap();
    assert_eq!(decoded.decision(&bundle), GrantDecision::Granted);
    assert_eq!(to_toml(&decoded), encoded);
}

#[test]
fn malformed_ambiguous_or_unknown_grants_fail_closed() {
    let bundle = bundle();
    let digest = bundle.digest().to_string();
    let cases = [
        "version = 2\n".to_string(),
        "version = 1\nunknown = true\n".to_string(),
        format!(
            "version = 1\n[[grants]]\nplugin = \"org.example.tools\"\ndigest = \"{digest}\"\ninvoke-actions = [\"cterm:new-tab\", \"cterm:new-tab\"]\n"
        ),
        format!(
            "version = 1\n[[grants]]\nplugin = \"org.example.tools\"\ndigest = \"{digest}\"\n[[grants]]\nplugin = \"org.example.tools\"\ndigest = \"{digest}\"\n"
        ),
        format!(
            "version = 1\n[[grants]]\nplugin = \"org.example.tools\"\ndigest = \"{digest}\"\ninvoke-actions = [\"*\"]\n"
        ),
    ];

    for text in cases {
        assert!(!matches!(from_toml(&text), Some(Ok(_))), "accepted {text}");
    }
}

#[test]
fn host_cannot_grant_an_undeclared_action() {
    let bundle = bundle();
    let mut grants = GrantStore::default();
    assert!(matches!(
        grants.approve(&bundle, scopes(&["cterm:close-window"])),
        Err(GrantError::ActionNotRequested(action))
            if action == scope("cterm:close-window")
    ));
    assert!(grants.to_raw().grants.is_empty());
}

#[test]
fn each_grant_error_names_its_cause() {
    let bundle = bundle();
    let digest = bundle.digest().to_string();
    assert!(matches!(
        from_toml("version = 2\n"),
        Some(Err(GrantError::UnsupportedVersion(2)))
    ));
    assert!(matches!(
        from_toml("version = 1\n[[grants]]\nplugin = \"a.b\"\ndigest = \"sha256:00\"\n"),
        Some(Err(GrantError::InvalidDigest(_)))
    ));
    let record = format!("[[grants]]\nplugin = \"org.example.tools\"\ndigest = \"{digest}\"\n");
    assert!(matches!(
        from_toml(&format!("version = 1\n{record}{record}")),
        Some(Err(GrantError::DuplicateRecord { plugin, digest }))
            if plugin.as_str() == "org.example.tools" && digest == bundle.digest()
    ));
    assert!(matches!(
        from_toml(&format!(
            "version = 1\n{record}invoke-actions = [\"cterm:new-tab\", \"cterm:new-tab\"]\n"
        )),
        Some(Err(GrantError::DuplicateActionScope(action))) if action == scope("cterm:new-tab")
    ));
}

#[test]
fn revoking_one_plugin_forgets_it_and_leaves_the_others() {
    let tools = bundle();
    let other = package("org.example.other", b"\0asm\x01\0\0\0");
    let mut grants = GrantStore::default();
    grants.approve(&tools, requested(&tools)).unwrap();
    grants.approve(&other, requested(&other)).unwrap();
    assert_eq!(grants.to_raw().grants.len(), 2);

    grants.revoke(tools.manifest().id());
    assert_eq!(
        grants.decision(&tools),
        GrantDecision::ApprovalRequired {
            missing: requested(&tools),
            content_changed: false,
        }
    );
    assert_eq!(grants.decision(&other), GrantDecision::Granted);
}

#[test]
fn decisions_do_not_depend_on_the_order_of_the_records() {
    let tools = bundle();
    let other = package("org.example.other", b"\0asm\x01\0\0\0");
    let mut forward = GrantStore::default();
    forward.approve(&tools, requested(&tools)).unwrap();
    forward.approve(&other, scopes(&["cterm:new-tab"])).unwrap();
    let mut raw = forward.to_raw();
    raw.grants.reverse();
    let backward = GrantStore::from_raw(&raw).unwrap();
    assert_eq!(backward.decision(&tools), forward.decision(&tools));
    assert_eq!(backward.decision(&other), forward.decision(&other));
    assert_eq!(to_toml(&backward), to_toml(&forward));
}

#[test]
fn the_same_approvals_are_saved_alike() {
    let tools = bundle();
    let other = package("org.example.other", b"\0asm\x01\0\0\0");
    let mut first = GrantStore::default();
    first.approve(&tools, requested(&tools)).unwrap();
    first.approve(&other, scopes(&["cterm:new-tab"])).unwrap();
    let mut second = GrantStore::default();
    second.approve(&other, scopes(&["cterm:new-tab"])).unwrap();
    second.approve(&tools, requested(&tools)).unwrap();
    assert_eq!(to_toml(&first), to_toml(&second));
    let raw = first.to_raw();
    assert!(raw.grants[0].plugin.as_str() < raw.grants[1].plugin.as_str());
    let loaded = from_toml(&to_toml(&first)).unwrap().unwrap();
    assert_eq!(to_toml(&loaded), to_toml(&first));
    assert_eq!(loaded.decision(&tools), GrantDecision::Granted);
}

#[test]
fn a_new_approval_replaces_the_old_one() {
    let bundle = bundle();
    let mut grants = GrantStore::default();
    grants.approve(&bundle, requested(&bundle)).unwrap();
    grants.approve(&bundle, scopes(&["cterm:split-pane"])).unwrap();
    assert_eq!(
        grants.decision(&bundle),
        GrantDecision::ApprovalRequired {
            missing: scopes(&["cterm:new-tab"]),
            content_changed: false,
        }
    );
}

#[test]
fn scopes_are_listed_in_order_without_repetition() {
    let mut set = scopes(&["cterm:b", "cterm:a", "cterm:c"]);
    assert!(!set.insert(scope("cterm:b")));
    assert_eq!(set.len(), 3);
    assert_eq!(
        set.items(),
        &vec![scope("cterm:a"), scope("cterm:b"), scope("cterm:c")]
    );
    assert_eq!(set.difference(&scopes(&["cterm:a", "cterm:x"])), scopes(&["cterm:b", "cterm:c"]));
}
