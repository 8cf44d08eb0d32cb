//! Plugin manifests: what a package declares, and which declarations are
//! admitted.

use vstd::prelude::*;
use vstd::utf8::*;

use crate::plugin::error::PluginPackageError;
use crate::plugin::ident::{
    is_action_scope, is_command_id, is_plugin_id, ActionScope, CommandId, PluginId,
};
use crate::plugin::scopes::{lemma_push_to_set, ScopeSet};
use crate::text::{chars_of, is_control, is_control_char, is_white_space, is_white_space_char, same_text};

verus! {

pub const MANIFEST_VERSION: u32 = 1;

pub const ABI_MAJOR: u32 = 1;

pub const ABI_MINOR: u32 = 0;

pub const MANIFEST_FILE: &'static str = "cterm-plugin.toml";

pub const MODULE_FILE: &'static str = "plugin.wasm";

/// The spelling of the supported ABI, `ABI_MAJOR.ABI_MINOR`.
pub const ABI_TEXT: &'static str = "1.0";

/// Longest plugin name and longest command title, in characters.
pub const LABEL_LIMIT: usize = 128;

/// A manifest as it is written in its file.
#[derive(Debug, PartialEq, Eq)]
pub struct RawManifest {
    pub manifest_version: u32,
    pub id: String,
    pub name: String,
    pub version: String,
    pub abi: String,
    pub capabilities: RawCapabilities,
    pub commands: Vec<RawCommand>,
}

#[derive(Debug, PartialEq, Eq)]
pub struct RawCapabilities {
    pub invoke_actions: Option<RawInvokeActions>,
}

#[derive(Debug, PartialEq, Eq)]
pub struct RawInvokeActions {
    pub allow: Vec<String>,
}

#[derive(Debug, PartialEq, Eq)]
pub struct RawCommand {
    pub id: String,
    pub title: String,
}

/// The version of a plugin.
#[derive(Debug, PartialEq, Eq)]
pub struct Version {
    pub major: u64,
    pub minor: u64,
    pub patch: u64,
    /// The pre-release part, empty for a release.
    pub pre: String,
    /// The build metadata, empty if there is none.
    pub build: String,
}

impl View for Version {
    type V = (u64, u64, u64, Seq<char>, Seq<char>);

    open spec fn view(&self) -> Self::V {
        (self.major, self.minor, self.patch, self.pre@, self.build@)
    }
}

/// What `semver::Version::parse` makes of a text: the parts of the version, or
/// the words in which it is refused.
pub uninterp spec fn semver_parse(text: Seq<char>) -> Result<
    (u64, u64, u64, Seq<char>, Seq<char>),
    Seq<char>,
>;

/// `semver::Version::parse` reads a version according to the grammar of semantic
/// versioning. The contract names its result as a function of the text alone; the
/// grammar is left unsaid.
#[verifier::external_body]
fn parse_version(text: &str) -> (result: Result<Version, String>)
    ensures
        match result {
            Ok(version) => semver_parse(text@) == Ok::<_, Seq<char>>(version@),
            Err(reason) => semver_parse(text@)
                == Err::<(u64, u64, u64, Seq<char>, Seq<char>), _>(reason@),
        },
{
    match semver::Version::parse(text) {
        Ok(version) => Ok(
            Version {
                major: version.major,
                minor: version.minor,
                patch: version.patch,
                pre: version.pre.as_str().to_owned(),
                build: version.build.as_str().to_owned(),
            },
        ),
        Err(error) => Err(error.to_string()),
    }
}

/// A label shown to the user: it holds something other than white space, no
/// control character, and at most `limit` characters.
pub open spec fn is_label(text: Seq<char>, limit: nat) -> bool {
    &&& exists|i: int| 0 <= i < text.len() && !is_white_space(#[trigger] text[i])
    &&& text.len() <= limit
    &&& forall|i: int| 0 <= i < text.len() ==> !is_control(#[trigger] text[i])
}

/// Accepts a label, or refuses it under the given name.
pub fn validate_label(kind: &'static str, value: &str, limit: usize) -> (result: Result<
    (),
    PluginPackageError,
>)
    ensures
        match result {
            Ok(()) => is_label(value@, limit as nat),
            Err(error) => !is_label(value@, limit as nat)
                && (error matches PluginPackageError::InvalidLabel { kind: k, limit: l } && k
                == kind && l == limit),
        },
{
    let chars = chars_of(value);
    let mut index: usize = 0;
    let mut visible: bool = false;
    let mut printable: bool = true;
    while index < chars.len()
        invariant
            index <= chars@.len(),
            visible == exists|i: int| 0 <= i < index && !is_white_space(#[trigger] chars@[i]),
            printable == forall|i: int| 0 <= i < index ==> !is_control(#[trigger] chars@[i]),
        decreases chars@.len() - index,
    {
        if !is_white_space_char(chars[index]) {
            visible = true;
        }
        if is_control_char(chars[index]) {
            printable = false;
        }
        index += 1;
    }
    if !visible || chars.len() > limit || !printable {
        return Err(PluginPackageError::InvalidLabel { kind, limit });
    }
    Ok(())
}

/// A command that a plugin offers.
#[derive(Debug, PartialEq, Eq)]
pub struct PluginCommand {
    id: CommandId,
    title: String,
}

/// The model of a command.
pub ghost struct CommandView {
    pub id: Seq<char>,
    pub title: Seq<char>,
}

impl View for PluginCommand {
    type V = CommandView;

    closed spec fn view(&self) -> CommandView {
        CommandView { id: self.id@, title: self.title@ }
    }
}

impl PluginCommand {
    pub fn id(&self) -> (id: &CommandId)
        ensures
            id@ == self@.id,
    {
        &self.id
    }

    pub fn title(&self) -> (title: &str)
        ensures
            title@ == self@.title,
    {
        self.title.as_str()
    }

    /// The name under which the command is invoked: `plugin:<plugin>/<command>`.
    pub fn action_id(&self, plugin_id: &PluginId) -> (action: String)
        ensures
            action@ == command_name(plugin_id@, self@.id),
    {
        "plugin:".to_owned().concat(plugin_id.as_str()).concat("/").concat(self.id.as_str())
    }
}

/// The name under which a command is invoked.
pub open spec fn command_name(plugin: Seq<char>, command: Seq<char>) -> Seq<char> {
    "plugin:"@ + plugin + "/"@ + command
}

/// A command is invoked by its plugin and its own identifier with a slash between them;
/// no two commands share a name, for no identifier of a plugin holds a slash.
pub proof fn law_commands_are_told_apart(
    plugin: Seq<char>,
    command: Seq<char>,
    other_plugin: Seq<char>,
    other_command: Seq<char>,
)
    ensures
        command_name(plugin, command).subrange(7, 7 + plugin.len() as int) == plugin,
        command_name(plugin, command)[7 + plugin.len() as int] == '/',
        command_name(plugin, command).skip(8 + plugin.len() as int) == command,
        !plugin.contains('/') && !other_plugin.contains('/') && command_name(plugin, command)
            == command_name(other_plugin, other_command) ==> plugin == other_plugin && command
            == other_command,
{
    reveal_strlit("plugin:");
    reveal_strlit("/");
    let name = command_name(plugin, command);
    let other = command_name(other_plugin, other_command);
    assert(name.subrange(7, 7 + plugin.len() as int) =~= plugin);
    assert(name.skip(8 + plugin.len() as int) =~= command);
    assert(other.subrange(7, 7 + other_plugin.len() as int) =~= other_plugin);
    assert(other.skip(8 + other_plugin.len() as int) =~= other_command);
    assert(name[7 + plugin.len() as int] == '/');
    assert(other[7 + other_plugin.len() as int] == '/');
    if !plugin.contains('/') && !other_plugin.contains('/') && name == other {
        if plugin.len() < other_plugin.len() {
            assert(other_plugin[plugin.len() as int] == other[7 + plugin.len() as int]);
        }
        if other_plugin.len() < plugin.len() {
            assert(plugin[other_plugin.len() as int] == name[7 + other_plugin.len() as int]);
        }
    }
}

/// A manifest that was admitted.
#[derive(Debug, PartialEq, Eq)]
pub struct PluginManifest {
    id: PluginId,
    name: String,
    version: Version,
    invoke_actions: ScopeSet,
    commands: Vec<PluginCommand>,
}

/// The model of an admitted manifest.
pub ghost struct ManifestView {
    pub id: Seq<char>,
    pub name: Seq<char>,
    pub version: (u64, u64, u64, Seq<char>, Seq<char>),
    pub invoke_actions: Set<Seq<char>>,
    pub commands: Seq<CommandView>,
}

impl View for PluginManifest {
    type V = ManifestView;

    closed spec fn view(&self) -> ManifestView {
        ManifestView {
            id: self.id@,
            name: self.name@,
            version: self.version@,
            invoke_actions: self.invoke_actions@,
            commands: command_views(self.commands@),
        }
    }
}

pub open spec fn command_views(commands: Seq<PluginCommand>) -> Seq<CommandView> {
    commands.map_values(|command: PluginCommand| command@)
}

pub open spec fn texts(strings: Seq<String>) -> Seq<Seq<char>> {
    strings.map_values(|string: String| string@)
}

/// The scopes that the manifest asks for, as written.
pub open spec fn requested_scopes(raw: RawManifest) -> Seq<Seq<char>> {
    match raw.capabilities.invoke_actions {
        Some(capability) => texts(capability.allow@),
        None => Seq::empty(),
    }
}

/// A scope is accepted if it is one and was not listed before.
pub open spec fn scope_accepted(scopes: Seq<Seq<char>>, index: int) -> bool {
    &&& is_action_scope(scopes[index])
    &&& forall|i: int| 0 <= i < index ==> #[trigger] scopes[i] != scopes[index]
}

pub open spec fn scopes_accepted(scopes: Seq<Seq<char>>, count: int) -> bool {
    forall|i: int| 0 <= i < count ==> #[trigger] scope_accepted(scopes, i)
}

/// A command is accepted if its identifier is one and new, and its title is a
/// label.
pub open spec fn command_accepted(commands: Seq<RawCommand>, index: int) -> bool {
    &&& is_command_id(commands[index].id@)
    &&& command_is_new(commands, index)
    &&& is_label(commands[index].title@, LABEL_LIMIT as nat)
}

pub open spec fn command_is_new(commands: Seq<RawCommand>, index: int) -> bool {
    forall|i: int| 0 <= i < index ==> #[trigger] commands[i].id@ != commands[index].id@
}

pub open spec fn commands_accepted(commands: Seq<RawCommand>, count: int) -> bool {
    forall|i: int| 0 <= i < count ==> #[trigger] command_accepted(commands, i)
}

pub open spec fn versions_supported(raw: RawManifest) -> bool {
    raw.manifest_version == MANIFEST_VERSION && raw.abi@ == ABI_TEXT@
}

pub open spec fn identity_accepted(raw: RawManifest) -> bool {
    &&& versions_supported(raw)
    &&& is_plugin_id(raw.id@)
    &&& is_label(raw.name@, LABEL_LIMIT as nat)
    &&& semver_parse(raw.version@) is Ok
}

pub open spec fn capability_accepted(raw: RawManifest) -> bool {
    let scopes = requested_scopes(raw);
    &&& identity_accepted(raw)
    &&& scopes_accepted(scopes, scopes.len() as int)
    &&& raw.capabilities.invoke_actions is Some ==> scopes.len() > 0
}

/// The manifest is admitted.
pub open spec fn manifest_accepted(raw: RawManifest) -> bool {
    &&& capability_accepted(raw)
    &&& commands_accepted(raw.commands@, raw.commands@.len() as int)
    &&& raw.commands@.len() > 0
}

/// The manifest is refused for this reason: everything that is checked earlier is
/// in order, and the reason itself holds.
pub open spec fn manifest_refused(raw: RawManifest, error: PluginPackageError) -> bool {
    let scopes = requested_scopes(raw);
    let commands = raw.commands@;
    match error {
        PluginPackageError::UnsupportedManifestVersion { found, supported } => {
            &&& raw.manifest_version != MANIFEST_VERSION
            &&& found == raw.manifest_version
            &&& supported == MANIFEST_VERSION
        },
        PluginPackageError::UnsupportedAbi { found, supported } => {
            &&& raw.manifest_version == MANIFEST_VERSION
            &&& raw.abi@ != ABI_TEXT@
            &&& found@ == raw.abi@
            &&& supported@ == ABI_TEXT@
        },
        PluginPackageError::InvalidPluginId(id) => {
            &&& versions_supported(raw)
            &&& !is_plugin_id(raw.id@)
            &&& id@ == raw.id@
        },
        PluginPackageError::InvalidPluginVersion { version, source } => {
            &&& versions_supported(raw)
            &&& is_plugin_id(raw.id@)
            &&& is_label(raw.name@, LABEL_LIMIT as nat)
            &&& semver_parse(raw.version@) == Err::<
                (u64, u64, u64, Seq<char>, Seq<char>),
                Seq<char>,
            >(source@)
            &&& version@ == raw.version@
        },
        PluginPackageError::InvalidActionScope(scope) => {
            &&& identity_accepted(raw)
            &&& exists|i: int|
                0 <= i < scopes.len() && scopes_accepted(scopes, i) && !is_action_scope(
                    #[trigger] scopes[i],
                ) && scope@ == scopes[i]
        },
        PluginPackageError::DuplicateActionScope(scope) => {
            &&& identity_accepted(raw)
            &&& exists|i: int|
                0 <= i < scopes.len() && scopes_accepted(scopes, i) && is_action_scope(
                    #[trigger] scopes[i],
                ) && !scope_accepted(scopes, i) && scope@ == scopes[i]
        },
        PluginPackageError::EmptyActionCapability => {
            &&& identity_accepted(raw)
            &&& raw.capabilities.invoke_actions is Some
            &&& scopes.len() == 0
        },
        PluginPackageError::InvalidCommandId(id) => {
            &&& capability_accepted(raw)
            &&& exists|i: int|
                0 <= i < commands.len() && commands_accepted(commands, i) && !is_command_id(
                    #[trigger] commands[i].id@,
                ) && id@ == commands[i].id@
        },
        PluginPackageError::DuplicateCommand(id) => {
            &&& capability_accepted(raw)
            &&& exists|i: int|
                0 <= i < commands.len() && commands_accepted(commands, i) && is_command_id(
                    #[trigger] commands[i].id@,
                ) && !command_is_new(commands, i) && id@ == commands[i].id@
        },
        PluginPackageError::InvalidLabel { kind, limit } => {
            &&& limit == LABEL_LIMIT
            &&& {
                ||| {
                    &&& versions_supported(raw)
                    &&& is_plugin_id(raw.id@)
                    &&& !is_label(raw.name@, LABEL_LIMIT as nat)
                    &&& kind@ == "plugin name"@
                }
                ||| {
                    &&& capability_accepted(raw)
                    &&& kind@ == "command title"@
                    &&& exists|i: int|
                        0 <= i < commands.len() && commands_accepted(commands, i) && is_command_id(
                            #[trigger] commands[i].id@,
                        ) && command_is_new(commands, i) && !is_label(
                            commands[i].title@,
                            LABEL_LIMIT as nat,
                        )
                }
            }
        },
        PluginPackageError::NoCommands => {
            &&& capability_accepted(raw)
            &&& commands.len() == 0
        },
        _ => false,
    }
}

/// No manifest that is refused for some reason is admitted.
pub proof fn law_refused_is_not_accepted(raw: RawManifest, error: PluginPackageError)
    requires
        manifest_refused(raw, error),
    ensures
        !manifest_accepted(raw),
{
    let scopes = requested_scopes(raw);
    let commands = raw.commands@;
    match error {
        PluginPackageError::InvalidActionScope(_)
        | PluginPackageError::DuplicateActionScope(_) => {
            let i = choose|i: int|
                0 <= i < scopes.len() && scopes_accepted(scopes, i) && !scope_accepted(scopes, i);
            assert(!scope_accepted(scopes, i));
        },
        PluginPackageError::InvalidCommandId(_) | PluginPackageError::DuplicateCommand(_) => {
            let i = choose|i: int|
                0 <= i < commands.len() && commands_accepted(commands, i) && !command_accepted(
                    commands,
                    i,
                );
            assert(!command_accepted(commands, i));
        },
        PluginPackageError::InvalidLabel { .. } => {
            if capability_accepted(raw) {
                let i = choose|i: int|
                    0 <= i < commands.len() && commands_accepted(commands, i) && !command_accepted(
                        commands,
                        i,
                    );
                assert(!command_accepted(commands, i));
            }
        },
        _ => {},
    }
}

/// What an admitted manifest says.
pub open spec fn manifest_meaning(raw: RawManifest) -> ManifestView {
    ManifestView {
        id: raw.id@,
        name: raw.name@,
        version: semver_parse(raw.version@)->Ok_0,
        invoke_actions: requested_scopes(raw).to_set(),
        commands: raw.commands@.map_values(
            |command: RawCommand| CommandView { id: command.id@, title: command.title@ },
        ),
    }
}

/// `core::str::from_utf8` accepts exactly the well-formed UTF-8 byte strings, and
/// gives the text that they encode.
#[verifier::external_body]
pub(crate) fn utf8_text(bytes: &[u8]) -> (text: Option<&str>)
    ensures
        match text {
            Some(text) => valid_utf8(bytes@) && encode_utf8(text@) == bytes@,
            None => !valid_utf8(bytes@),
        },
{
    core::str::from_utf8(bytes).ok()
}

/// The text of a manifest file.
pub fn manifest_text(bytes: &[u8]) -> (result: Result<&str, PluginPackageError>)
    ensures
        match result {
            Ok(text) => valid_utf8(bytes@) && encode_utf8(text@) == bytes@,
            Err(error) => !valid_utf8(bytes@) && error
                == PluginPackageError::ManifestEncoding,
        },
{
    match utf8_text(bytes) {
        Some(text) => Ok(text),
        None => Err(PluginPackageError::ManifestEncoding),
    }
}

/// The scopes of a capability, or the first one that is refused.
fn parse_scopes(allow: &Vec<String>) -> (result: Result<ScopeSet, PluginPackageError>)
    ensures
        match result {
            Ok(scopes) => {
                &&& scopes.wf()
                &&& scopes_accepted(texts(allow@), allow@.len() as int)
                &&& scopes@ == texts(allow@).to_set()
            },
            Err(PluginPackageError::InvalidActionScope(scope)) => exists|i: int|
                0 <= i < allow@.len() && scopes_accepted(texts(allow@), i) && !is_action_scope(
                    #[trigger] texts(allow@)[i],
                ) && scope@ == texts(allow@)[i],
            Err(PluginPackageError::DuplicateActionScope(scope)) => exists|i: int|
                0 <= i < allow@.len() && scopes_accepted(texts(allow@), i) && is_action_scope(
                    #[trigger] texts(allow@)[i],
                ) && !scope_accepted(texts(allow@), i) && scope@ == texts(allow@)[i],
            Err(_) => false,
        },
{
    let ghost scopes = texts(allow@);
    let mut set = ScopeSet::new();
    let mut index: usize = 0;
    proof {
        assert(scopes.take(0).to_set() =~= Set::<Seq<char>>::empty());
    }
    while index < allow.len()
        invariant
            index <= allow@.len(),
            scopes == texts(allow@),
            set.wf(),
            set@ == scopes.take(index as int).to_set(),
            scopes_accepted(scopes, index as int),
        decreases allow@.len() - index,
    {
        let ghost seen = scopes.take(index as int);
        let ghost current = scopes[index as int];
        let scope = match ActionScope::parse(allow[index].as_str()) {
            Ok(scope) => scope,
            Err(error) => {
                proof {
                    assert(!is_action_scope(scopes[index as int]));
                }
                return Err(error);
            },
        };
        proof {
            assert(scopes.take(index + 1) =~= seen.push(current));
            lemma_push_to_set(seen, current);
            assert(seen.to_set().contains(current) <==> exists|i: int|
                0 <= i < index && #[trigger] scopes[i] == current) by {
                if seen.to_set().contains(current) {
                    let i = choose|i: int| 0 <= i < seen.len() && seen[i] == current;
                    assert(scopes[i] == current);
                }
                if exists|i: int| 0 <= i < index && #[trigger] scopes[i] == current {
                    let i = choose|i: int| 0 <= i < index && #[trigger] scopes[i] == current;
                    assert(seen[i] == current);
                }
            }
        }
        if !set.insert(scope.clone()) {
            proof {
                assert(is_action_scope(scopes[index as int]));
            }
            return Err(PluginPackageError::DuplicateActionScope(scope));
        }
        index += 1;
    }
    proof {
        assert(scopes.take(scopes.len() as int) =~= scopes);
    }
    Ok(set)
}

/// The commands of a manifest, or the reason that the first one is refused for.
fn parse_commands(raw: &Vec<RawCommand>) -> (result: Result<
    Vec<PluginCommand>,
    PluginPackageError,
>)
    ensures
        match result {
            Ok(commands) => {
                &&& commands_accepted(raw@, raw@.len() as int)
                &&& command_views(commands@) == raw@.map_values(
                    |command: RawCommand| CommandView { id: command.id@, title: command.title@ },
                )
            },
            Err(PluginPackageError::InvalidCommandId(id)) => exists|i: int|
                0 <= i < raw@.len() && commands_accepted(raw@, i) && !is_command_id(
                    #[trigger] raw@[i].id@,
                ) && id@ == raw@[i].id@,
            Err(PluginPackageError::DuplicateCommand(id)) => exists|i: int|
                0 <= i < raw@.len() && commands_accepted(raw@, i) && is_command_id(
                    #[trigger] raw@[i].id@,
                ) && !command_is_new(raw@, i) && id@ == raw@[i].id@,
            Err(PluginPackageError::InvalidLabel { kind, limit }) => {
                &&& limit == LABEL_LIMIT
                &&& kind@ == "command title"@
                &&& exists|i: int|
                    0 <= i < raw@.len() && commands_accepted(raw@, i) && is_command_id(
                        #[trigger] raw@[i].id@,
                    ) && command_is_new(raw@, i) && !is_label(raw@[i].title@, LABEL_LIMIT as nat)
            },
            Err(_) => false,
        },
{
    let mut commands: Vec<PluginCommand> = Vec::new();
    let mut index: usize = 0;
    while index < raw.len()
        invariant
            index <= raw@.len(),
            commands@.len() == index,
            commands_accepted(raw@, index as int),
            forall|i: int|
                0 <= i < index ==> (#[trigger] commands@[i])@.id == raw@[i].id@
                    && commands@[i]@.title == raw@[i].title@,
        decreases raw@.len() - index,
    {
        let id = match CommandId::parse(raw[index].id.as_str()) {
            Ok(id) => id,
            Err(error) => {
                proof {
                    assert(!is_command_id(raw@[index as int].id@));
                }
                return Err(error);
            },
        };
        let mut earlier: usize = 0;
        while earlier < commands.len()
            invariant
                index < raw@.len(),
                earlier <= commands@.len(),
                commands@.len() == index,
                commands_accepted(raw@, index as int),
                id@ == raw@[index as int].id@,
                is_command_id(raw@[index as int].id@),
                forall|i: int|
                    0 <= i < index ==> (#[trigger] commands@[i])@.id == raw@[i].id@
                        && commands@[i]@.title == raw@[i].title@,
                forall|i: int| 0 <= i < earlier ==> #[trigger] raw@[i].id@ != id@,
            decreases commands@.len() - earlier,
        {
            if commands[earlier].id.same(&id) {
                proof {
                    assert(commands@[earlier as int]@.id == raw@[earlier as int].id@);
                    assert(!command_is_new(raw@, index as int));
                    assert(is_command_id(raw@[index as int].id@));
                }
                return Err(PluginPackageError::DuplicateCommand(id));
            }
            proof {
                assert(commands@[earlier as int]@.id == raw@[earlier as int].id@);
            }
            earlier += 1;
        }
        match validate_label("command title", raw[index].title.as_str(), LABEL_LIMIT) {
            Ok(()) => {},
            Err(error) => {
                proof {
                    assert(command_is_new(raw@, index as int));
                    assert(is_command_id(raw@[index as int].id@));
                }
                return Err(error);
            },
        }
        commands.push(PluginCommand { id, title: raw[index].title.clone() });
        index += 1;
    }
    proof {
        assert(command_views(commands@) =~= raw@.map_values(
            |command: RawCommand| CommandView { id: command.id@, title: command.title@ },
        ));
    }
    Ok(commands)
}

impl PluginManifest {
    /// The scopes are listed in order.
    pub closed spec fn wf(&self) -> bool {
        self.invoke_actions.wf()
    }

    /// Admits a manifest, or gives the first reason to refuse it.
    pub fn from_raw(raw: &RawManifest) -> (result: Result<PluginManifest, PluginPackageError>)
        ensures
            match result {
                Ok(manifest) => {
                    &&& manifest.wf()
                    &&& manifest_accepted(*raw)
                    &&& manifest@ == manifest_meaning(*raw)
                },
                Err(error) => !manifest_accepted(*raw) && manifest_refused(*raw, error),
            },
    {
        if raw.manifest_version != MANIFEST_VERSION {
            return Err(
                PluginPackageError::UnsupportedManifestVersion {
                    found: raw.manifest_version,
                    supported: MANIFEST_VERSION,
                },
            );
        }
        if !same_text(raw.abi.as_str(), ABI_TEXT) {
            return Err(
                PluginPackageError::UnsupportedAbi {
                    found: raw.abi.clone(),
                    supported: ABI_TEXT.to_owned(),
                },
            );
        }
        let id = match PluginId::parse(raw.id.as_str()) {
            Ok(id) => id,
            Err(error) => return Err(error),
        };
        match validate_label("plugin name", raw.name.as_str(), LABEL_LIMIT) {
            Ok(()) => {},
            Err(error) => return Err(error),
        }
        let version = match parse_version(raw.version.as_str()) {
            Ok(version) => version,
            Err(source) => return Err(
                PluginPackageError::InvalidPluginVersion { version: raw.version.clone(), source },
            ),
        };
        let invoke_actions = match &raw.capabilities.invoke_actions {
            None => {
                let empty = ScopeSet::new();
                proof {
                    assert(requested_scopes(*raw).to_set() =~= empty@);
                }
                empty
            },
            Some(capability) => {
                let scopes = match parse_scopes(&capability.allow) {
                    Ok(scopes) => scopes,
                    Err(error) => {
                        proof {
                            law_refused_is_not_accepted(*raw, error);
                        }
                        return Err(error);
                    },
                };
                if scopes.is_empty() {
                    proof {
                        if requested_scopes(*raw).len() > 0 {
                            assert(scopes@.contains(requested_scopes(*raw)[0]));
                        }
                    }
                    return Err(PluginPackageError::EmptyActionCapability);
                }
                proof {
                    if requested_scopes(*raw).len() == 0 {
                        assert(scopes@ =~= Set::<Seq<char>>::empty());
                    }
                }
                scopes
            },
        };
        let commands = match parse_commands(&raw.commands) {
            Ok(commands) => commands,
            Err(error) => {
                proof {
                    law_refused_is_not_accepted(*raw, error);
                }
                return Err(error);
            },
        };
        if commands.len() == 0 {
            proof {
                assert(command_views(commands@).len() == raw.commands@.len());
            }
            return Err(PluginPackageError::NoCommands);
        }
        proof {
            assert(command_views(commands@).len() == raw.commands@.len());
        }
        Ok(PluginManifest { id, name: raw.name.clone(), version, invoke_actions, commands })
    }

    pub fn id(&self) -> (id: &PluginId)
        ensures
            id@ == self@.id,
    {
        &self.id
    }

    pub fn name(&self) -> (name: &str)
        ensures
            name@ == self@.name,
    {
        self.name.as_str()
    }

    pub fn version(&self) -> (version: &Version)
        ensures
            version@ == self@.version,
    {
        &self.version
    }

    pub fn invoke_actions(&self) -> (scopes: &ScopeSet)
        ensures
            scopes@ == self@.invoke_actions,
            self.wf() ==> scopes.wf(),
    {
        &self.invoke_actions
    }

    pub fn commands(&self) -> (commands: &[PluginCommand])
        ensures
            command_views(commands@) == self@.commands,
    {
        self.commands.as_slice()
    }

    /// The first command with this identifier.
    pub fn command(&self, id: &CommandId) -> (found: Option<&PluginCommand>)
        ensures
            match found {
                Some(command) => exists|i: int|
                    0 <= i < self@.commands.len() && #[trigger] self@.commands[i] == command@
                        && command@.id == id@ && forall|j: int|
                        0 <= j < i ==> (#[trigger] self@.commands[j]).id != id@,
                None => forall|i: int|
                    0 <= i < self@.commands.len() ==> (#[trigger] self@.commands[i]).id != id@,
            },
    {
        let mut index: usize = 0;
        while index < self.commands.len()
            invariant
                index <= self.commands@.len(),
                forall|i: int| 0 <= i < index ==> (#[trigger] self@.commands[i]).id != id@,
            decreases self.commands@.len() - index,
        {
            proof {
                assert(self@.commands[index as int] == self.commands@[index as int]@);
            }
            if self.commands[index].id.same(id) {
                return Some(&self.commands[index]);
            }
            index += 1;
        }
        None
    }
}

/// An admitted manifest says what was written: its identifier, its name, and its commands
/// in order, each with its own title; and the scopes that it asks for are those that it
/// lists.
pub proof fn law_manifests_say_what_was_written(raw: RawManifest, index: int, scope: Seq<char>)
    ensures
        ({
            let meaning = manifest_meaning(raw);
            &&& meaning.id == raw.id@
            &&& meaning.name == raw.name@
            &&& meaning.commands.len() == raw.commands@.len()
            &&& 0 <= index < raw.commands@.len() ==> meaning.commands[index].id
                == raw.commands@[index].id@ && meaning.commands[index].title
                == raw.commands@[index].title@
            &&& raw.capabilities.invoke_actions is None ==> !meaning.invoke_actions.contains(scope)
            &&& meaning.invoke_actions.contains(scope) <==> requested_scopes(raw).contains(scope)
        }),
        raw.capabilities.invoke_actions matches Some(asked) ==> requested_scopes(raw).len()
            == asked.allow@.len(),
        raw.capabilities.invoke_actions matches Some(asked) ==> 0 <= index < asked.allow@.len()
            ==> requested_scopes(raw)[index] == asked.allow@[index]@,
{
}

/// An admitted manifest is of the first version and for the first interface, names its
/// plugin, has commands whose identifiers differ, and asks for no scope twice; each of
/// its labels shows something within 128 characters.
pub proof fn law_admitted_manifests_are_in_order(raw: RawManifest, i: int, j: int)
    requires
        manifest_accepted(raw),
    ensures
        raw.manifest_version == 1,
        raw.abi@ == "1.0"@,
        is_plugin_id(raw.id@),
        is_label(raw.name@, 128),
        raw.name@.len() <= 128,
        raw.commands@.len() > 0,
        0 <= i < raw.commands@.len() ==> is_command_id(raw.commands@[i].id@) && is_label(
            raw.commands@[i].title@,
            128,
        ),
        0 <= i < j < raw.commands@.len() ==> raw.commands@[i].id@ != raw.commands@[j].id@,
        0 <= i < requested_scopes(raw).len() ==> is_action_scope(requested_scopes(raw)[i]),
        0 <= i < j < requested_scopes(raw).len() ==> requested_scopes(raw)[i] != requested_scopes(
            raw,
        )[j],
        raw.capabilities.invoke_actions is Some ==> requested_scopes(raw).len() > 0,
{
    if 0 <= i < raw.commands@.len() {
        assert(command_accepted(raw.commands@, i));
    }
    if 0 <= i < j < raw.commands@.len() {
        assert(command_accepted(raw.commands@, j));
        assert(raw.commands@[i].id@ != raw.commands@[j].id@);
    }
    let scopes = requested_scopes(raw);
    if 0 <= i < scopes.len() {
        assert(scope_accepted(scopes, i));
    }
    if 0 <= i < j < scopes.len() {
        assert(scope_accepted(scopes, j));
        assert(scopes[i] != scopes[j]);
    }
}

/// A label shows something: white space alone is none, a control character spoils it
/// wherever it stands, and one character too many does too.
pub proof fn law_labels_show_something(
    front: Seq<char>,
    character: char,
    back: Seq<char>,
    limit: nat,
)
    ensures
        ({
            let text = front + seq![character] + back;
            &&& is_control(character) ==> !is_label(text, limit)
            &&& text.len() > limit ==> !is_label(text, limit)
            &&& is_label(text, limit) ==> is_label(text, (limit + 1) as nat)
        }),
        limit >= 1 ==> (is_label(seq![character], limit) <==> !is_white_space(character)
            && !is_control(character)),
        !is_label(Seq::empty(), limit),
{
    let text = front + seq![character] + back;
    assert(text[front.len() as int] == character);
    let single = seq![character];
    assert(single[0] == character);
}

/// A package keeps its manifest and its module under fixed names.
pub proof fn law_packages_have_two_fixed_names()
    ensures
        MANIFEST_FILE@ == "cterm-plugin.toml"@,
        MODULE_FILE@ == "plugin.wasm"@,
{
}

} // verus!
