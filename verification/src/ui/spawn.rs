//! Starting a session for a new pane or tab, and what the pane or tab is once the
//! daemon has answered.

use crate::text::{copy_optional, optional_text, same_text, texts};
use crate::ui::options::{
    inherited_pane_session_options, initial_title, launch_part, launched_with, local_options,
    optional_launch, remote_options, same_launch, same_way, session_shell, shell_name,
    split_backend, CreateSessionOpts, LaunchContext, ShellConfig, SplitBackend,
};
use crate::ui::tabs::{PaneEntry, TabEntry, TabList};
use vstd::prelude::*;

verus! {

/// A session that is to be started beside a pane.
#[derive(Debug)]
pub struct SplitPlan<S> {
    pub tab_id: u64,
    /// The pane that is split.
    pub target: u64,
    /// The first title of the new pane.
    pub title: String,
    pub options: CreateSessionOpts<S>,
    /// The socket of the daemon that the session is started on; none for the local
    /// one.
    pub daemon_socket: Option<String>,
    pub remote_name: Option<String>,
    pub template_name: Option<String>,
}

/// A pane on a remote whose daemon cannot be reached any more.
pub open spec fn stranded<S>(pane: PaneEntry<S>) -> bool {
    pane.remote_name is Some && pane.daemon_socket is None
}

/// A pane whose session runs on another daemon than the local one.
pub open spec fn runs_remotely<S>(pane: PaneEntry<S>, local_socket: Seq<char>) -> bool {
    ||| pane.remote_name is Some
    ||| pane.daemon_socket matches Some(socket) && socket@ != local_socket
}

/// The shell of a new session: the configured one, then the user's, then the
/// system's.
pub open spec fn chosen_shell(configured: Option<Seq<char>>, user: Option<Seq<char>>) -> Seq<char> {
    match (configured, user) {
        (Some(shell), _) => shell,
        (None, Some(shell)) => shell,
        (None, None) => "/bin/sh"@,
    }
}

/// A plan is to split the active pane of a tab, on the daemon, the remote and the template
/// of that pane.
pub open spec fn planned_beside<S>(plan: SplitPlan<S>, tab: TabEntry<S>) -> bool {
    &&& plan.tab_id == tab.id
    &&& plan.target == tab.panes.active_pane()
    &&& optional_text(plan.daemon_socket) == optional_text(tab.active_entry().daemon_socket)
    &&& optional_text(plan.remote_name) == optional_text(tab.active_entry().remote_name)
    &&& optional_text(plan.template_name) == optional_text(tab.active_entry().template_name)
}

/// A pane that is split from another runs where that one runs: on the same remote, at the
/// same socket unless its session says otherwise, and from the same template.
pub proof fn law_split_panes_run_beside_their_origin<S>(
    plan: SplitPlan<S>,
    tab: TabEntry<S>,
    terminal: u64,
    session_id: String,
    launch_context: Option<LaunchContext<S>>,
)
    requires
        planned_beside(plan, tab),
    ensures
        ({
            let entry = planned_entry(plan, terminal, session_id, None, launch_context);
            let origin = tab.active_entry();
            &&& optional_text(entry.remote_name) == optional_text(origin.remote_name)
            &&& optional_text(entry.daemon_socket) == optional_text(origin.daemon_socket)
            &&& optional_text(entry.template_name) == optional_text(origin.template_name)
            &&& plan.tab_id == tab.id
            &&& plan.target == tab.panes.active_pane()
        }),
{
}

/// A pane on a remote is stranded without the socket of its daemon, and no other pane is;
/// a pane runs remotely on a remote or at a socket that is not the local one.
pub proof fn law_remote_panes_need_their_socket<S>(
    pane: PaneEntry<S>,
    local: Seq<char>,
    socket: String,
)
    ensures
        stranded(pane) <==> pane.remote_name is Some && pane.daemon_socket is None,
        stranded(pane) ==> runs_remotely(pane, local),
        pane.remote_name is Some ==> runs_remotely(pane, local),
        pane.remote_name is None && pane.daemon_socket is None ==> !runs_remotely(pane, local),
        pane.remote_name is None && pane.daemon_socket == Some(socket) ==> (runs_remotely(
            pane,
            local,
        ) <==> socket@ != local),
{
}

/// The configured shell counts before the user's, and that before the system's.
pub proof fn law_configured_shell_counts_first(shell: Seq<char>, user: Option<Seq<char>>)
    ensures
        chosen_shell(Some(shell), user) == shell,
        chosen_shell(None, Some(shell)) == shell,
        chosen_shell(None, None) == "/bin/sh"@,
{
}

/// What splitting the active pane of the tab that is shown starts: a session on the
/// same daemon. A managed window splits nothing, and neither can a pane be split
/// whose remote daemon is gone. The session is started as that of the pane was, where
/// that is known; where it is not, a local one is started as configured and reaches the
/// same host. `cwd` is where the pane's process is.
pub fn plan_split<S: Clone>(
    tabs: &TabList<S>,
    page: Option<u32>,
    managed: bool,
    config: &ShellConfig,
    user_shell: &Option<String>,
    local_socket: &str,
    cwd: Option<String>,
) -> (plan: Option<SplitPlan<S>>)
    requires
        tabs.valid(),
    ensures
        match plan {
            None => managed || page is None || page->0 >= tabs.tabs().len() || stranded(
                tabs.tabs()[page->0 as int].active_entry(),
            ),
            Some(plan) => {
                let tab = tabs.tabs()[page->0 as int];
                let pane = tab.active_entry();
                let remote = runs_remotely(pane, local_socket@);
                let configured = optional_text(config.default_shell);
                &&& !managed
                &&& page is Some
                &&& page->0 < tabs.tabs().len()
                &&& !stranded(pane)
                &&& planned_beside(plan, tab)
                &&& plan.title@ == (if remote {
                    "Terminal"@
                } else {
                    shell_name(chosen_shell(configured, optional_text(*user_shell)))
                })
                &&& launched_with(
                    if remote {
                        remote_options(optional_text(cwd))
                    } else {
                        local_options(
                            configured,
                            texts(config.shell_args@),
                            optional_text(cwd),
                            plan.options.ssh,
                        )
                    },
                    optional_launch(pane.launch_context),
                    plan.options@,
                )
                &&& !remote && pane.launch_context is None ==> same_way(
                    pane.native_ssh,
                    plan.options.ssh,
                )
            },
        },
{
    if managed {
        return None;
    }
    let page: u32 = match page {
        Some(page) => page,
        None => return None,
    };
    let tab = match tabs.get(page as usize) {
        Some(tab) => tab,
        None => return None,
    };
    proof {
        tabs.law_tabs_are_told_apart();
        assert(tabs.tabs()[page as int].valid());
    }
    let pane = tab.panes.active();
    let local = match &pane.daemon_socket {
        Some(socket) => same_text(socket.as_str(), local_socket),
        None => false,
    };
    let backend = split_backend(
        pane.remote_name.is_some(),
        pane.daemon_socket.is_some(),
        local,
    );
    let remote = match backend {
        SplitBackend::Refused => return None,
        SplitBackend::Local => false,
        SplitBackend::Remote => true,
    };
    let shell = session_shell(&config.default_shell, user_shell);
    let title = initial_title(shell.as_str(), remote);
    let options = inherited_pane_session_options(
        config,
        remote,
        cwd,
        pane.native_ssh.clone(),
        pane.launch_context.as_ref(),
    );
    Some(
        SplitPlan {
            tab_id: tab.id,
            target: tab.panes.active_id(),
            title,
            options,
            daemon_socket: copy_optional(&pane.daemon_socket),
            remote_name: copy_optional(&pane.remote_name),
            template_name: copy_optional(&pane.template_name),
        },
    )
}

/// The pane of a session that was started beside another one.
pub open spec fn planned_entry<S>(
    plan: SplitPlan<S>,
    terminal: u64,
    session_id: String,
    session_socket: Option<String>,
    launch_context: Option<LaunchContext<S>>,
) -> PaneEntry<S> {
    PaneEntry {
        terminal,
        title: plan.title,
        title_locked: false,
        template_name: plan.template_name,
        keep_open: false,
        session_id: Some(session_id),
        daemon_socket: if session_socket is Some {
            session_socket
        } else {
            plan.daemon_socket
        },
        remote_name: plan.remote_name,
        launch_context,
        native_ssh: plan.options.ssh,
    }
}

/// The new pane shows its own terminal and session, under the planned title, template and
/// remote. It is reached where its session says, or else where it was planned; its title
/// follows the session, and it goes away with it.
pub proof fn law_new_panes_are_as_planned<S>(
    plan: SplitPlan<S>,
    terminal: u64,
    session_id: String,
    socket: String,
    launch_context: Option<LaunchContext<S>>,
)
    ensures
        ({
            let given = planned_entry(plan, terminal, session_id, Some(socket), launch_context);
            let other = planned_entry(plan, terminal, session_id, None, launch_context);
            &&& given.daemon_socket == Some(socket)
            &&& other.daemon_socket == plan.daemon_socket
            &&& given.terminal == terminal
            &&& given.session_id == Some(session_id)
            &&& given.title == plan.title
            &&& given.template_name == plan.template_name
            &&& given.remote_name == plan.remote_name
            &&& given.native_ssh == plan.options.ssh
            &&& given.launch_context == launch_context
            &&& !given.title_locked
            &&& !given.keep_open
        }),
{
}

/// The pane of a session that was started beside another one. It is reached through
/// the socket that the session came with, or else the one that it was started on.
pub fn split_entry<S: Clone>(
    plan: SplitPlan<S>,
    terminal: u64,
    session_id: String,
    session_socket: Option<String>,
) -> (entry: PaneEntry<S>)
    ensures
        same_launch(Some(launch_part(plan.options@)), optional_launch(entry.launch_context)),
        entry == planned_entry(plan, terminal, session_id, session_socket, entry.launch_context),
{
    let launch_context = Some(LaunchContext::capture(&plan.options));
    let daemon_socket = match session_socket {
        Some(socket) => Some(socket),
        None => plan.daemon_socket,
    };
    PaneEntry {
        terminal,
        title: plan.title,
        title_locked: false,
        template_name: plan.template_name,
        keep_open: false,
        session_id: Some(session_id),
        daemon_socket,
        remote_name: plan.remote_name,
        launch_context,
        native_ssh: plan.options.ssh,
    }
}

/// What a new tab asks for beside its session.
#[derive(Debug)]
pub struct TabRequest {
    pub title: String,
    /// The title is not to follow the session's.
    pub title_locked: bool,
    pub template_name: Option<String>,
    pub keep_open: bool,
    /// The configured remote that the session runs on.
    pub remote_name: Option<String>,
}

/// The pane of a session that was started for a new tab.
pub open spec fn requested_entry<S>(
    request: TabRequest,
    native_ssh: Option<S>,
    terminal: u64,
    session_id: String,
    session_socket: Option<String>,
    launch_context: Option<LaunchContext<S>>,
) -> PaneEntry<S> {
    PaneEntry {
        terminal,
        title: request.title,
        title_locked: request.title_locked,
        template_name: request.template_name,
        keep_open: request.keep_open,
        session_id: Some(session_id),
        daemon_socket: session_socket,
        remote_name: request.remote_name,
        launch_context,
        native_ssh,
    }
}

/// A new tab's pane is what was asked for: its title and whether that is locked, its
/// template, whether it stays open and its remote, with the session and the socket that
/// the daemon gave.
pub proof fn law_new_tabs_are_as_requested<S>(
    request: TabRequest,
    native_ssh: Option<S>,
    terminal: u64,
    session_id: String,
    session_socket: Option<String>,
    launch_context: Option<LaunchContext<S>>,
)
    ensures
        ({
            let entry = requested_entry(
                request,
                native_ssh,
                terminal,
                session_id,
                session_socket,
                launch_context,
            );
            &&& entry.terminal == terminal
            &&& entry.title == request.title
            &&& entry.title_locked == request.title_locked
            &&& entry.template_name == request.template_name
            &&& entry.keep_open == request.keep_open
            &&& entry.remote_name == request.remote_name
            &&& entry.session_id == Some(session_id)
            &&& entry.daemon_socket == session_socket
            &&& entry.native_ssh == native_ssh
            &&& entry.launch_context == launch_context
        }),
{
}

/// The pane of a session that was started for a new tab.
pub fn started_entry<S: Clone>(
    request: TabRequest,
    options: CreateSessionOpts<S>,
    terminal: u64,
    session_id: String,
    session_socket: Option<String>,
) -> (entry: PaneEntry<S>)
    ensures
        same_launch(Some(launch_part(options@)), optional_launch(entry.launch_context)),
        entry == requested_entry(
            request,
            options.ssh,
            terminal,
            session_id,
            session_socket,
            entry.launch_context,
        ),
{
    PaneEntry {
        terminal,
        title: request.title,
        title_locked: request.title_locked,
        template_name: request.template_name,
        keep_open: request.keep_open,
        session_id: Some(session_id),
        daemon_socket: session_socket,
        remote_name: request.remote_name,
        launch_context: Some(LaunchContext::capture(&options)),
        native_ssh: options.ssh,
    }
}

/// A pane shows a session that was there before it, and knows nothing else of it.
pub open spec fn is_attached<S>(entry: PaneEntry<S>, terminal: u64, session_id: String) -> bool {
    &&& entry.terminal == terminal
    &&& entry.title@ == "Terminal"@
    &&& !entry.title_locked
    &&& entry.template_name is None
    &&& !entry.keep_open
    &&& entry.session_id == Some(session_id)
    &&& entry.daemon_socket is None
    &&& entry.remote_name is None
    &&& entry.launch_context is None
    &&& entry.native_ssh is None
}

/// An attached pane shows just the session that it is attached to, on this machine, under
/// a title that the session may change.
pub proof fn law_attached_panes_show_their_session<S>(
    entry: PaneEntry<S>,
    terminal: u64,
    session_id: String,
)
    requires
        is_attached(entry, terminal, session_id),
    ensures
        entry.terminal == terminal,
        entry.session_id matches Some(id) && id@ == session_id@,
        entry.title@ == "Terminal"@,
        !entry.title_locked && !entry.keep_open,
        entry.template_name is None && entry.daemon_socket is None,
        entry.remote_name is None && entry.native_ssh is None,
{
}

/// The pane of a session of the local daemon that was running already.
pub fn attached_entry<S>(terminal: u64, session_id: String) -> (entry: PaneEntry<S>)
    ensures
        is_attached(entry, terminal, session_id),
{
    PaneEntry {
        terminal,
        title: "Terminal".to_owned(),
        title_locked: false,
        template_name: None,
        keep_open: false,
        session_id: Some(session_id),
        daemon_socket: None,
        remote_name: None,
        launch_context: None,
        native_ssh: None,
    }
}

/// The name that the daemon keeps of a tab's template.
pub open spec fn kept_name(title: Seq<char>) -> Option<Seq<char>> {
    if title.len() > 0 {
        Some(title)
    } else {
        None
    }
}

/// The daemon keeps a title as it is, and nothing for an empty one.
pub proof fn law_titles_are_kept_by_the_daemon(title: Seq<char>)
    ensures
        title.len() > 0 ==> kept_name(title) == Some(title),
        kept_name(Seq::empty()) is None,
{
}

/// What the daemon keeps of a new tab, for when it is restored: its colour where it
/// has one, and its title, where it is not empty, as the template's name.
pub fn kept_by_daemon(title: &str, color: &Option<String>) -> (kept: (
    Option<String>,
    Option<String>,
))
    ensures
        optional_text(kept.0) == optional_text(*color),
        optional_text(kept.1) == kept_name(title@),
{
    let name = if title.is_empty() {
        None
    } else {
        Some(title.to_owned())
    };
    (copy_optional(color), name)
}

} // verus!
