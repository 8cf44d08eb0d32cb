use cterm::ui::action::{Action, PaneDirection, SplitDirection};
use cterm::ui::ci::{
    activation_error, contains_text, failure_line, start_decision, CiCommand, CiFailure, CiMarker,
    Completion, PaneCiDriver, PaneCiStep, PaneSnapshot, StartDecision, StartFacts,
    TemplateSnapshot, COMPLETION_WAIT, REUSE_WAIT, RUN_LIMIT,
};
use cterm::ui::keys::{KEY_DOWN, KEY_ESCAPE, KEY_RETURN, KEY_UP};
use cterm::ui::notification::{
    chooser_folder, chosen_save_path, handle, DesktopNotification, DesktopNotificationAction, NotificationPriority,
    NotificationStep, NotificationUrgency,
};
use cterm::ui::options::{
    docker_tab_options, docker_target_text, docker_title, inherited_pane_session_options,
    initial_title, named_template, new_tab_options, non_empty, path_file_name, restored_color,
    resolve_template_theme, restored_pane_title, restored_tab_title, restored_title,
    reusable_template_location, session_shell, setting_or, split_backend, tab_route, template_launch,
    template_remote_details, template_theme_request, theme_name_matches, tool_directory,
    CreateSessionOpts, DaemonRoute, DockerSelection, LaunchContext, LaunchFacts, LaunchStep,
    RemoteConfig, ShellConfig, SplitBackend, TemplateCandidate, TemplateDaemonTarget,
    TemplateInstancePolicy, TemplateTheme, ThemeRequest,
};
use cterm::ui::pane::PaneTree;
use cterm::ui::quick_open::{overlay_key, OverlayKey, QuickOpenOverlay};
use cterm::ui::update::{
    button_clicked, check_finished, download_finished, manual_update_message, ButtonStep,
    CheckResult, UpdateState,
};
use cterm::ui::viewport::{copied_html, find, viewport_move, ViewportMove};
use cterm::ui::window::{
    link_menu_target, pane_step, respond, respond_to_shared, tool_failure_text,
    upgrade_failure_text, window_action, Command, PaneStep, TabFacts, TerminalRequest,
    WindowAction, WindowFacts,
};

#[test]
fn manual_update_message_never_promises_automatic_installation() {
    let known = manual_update_message(Some("1.2.3"));
    assert!(known.contains("Version 1.2.3 is available"));
    assert!(known.contains("Automatic installation is not available"));

    let unknown = manual_update_message(None);
    assert!(unknown.contains("A newer version is available"));
    assert!(unknown.contains("package manager"));
}

#[test]
fn an_update_is_downloaded_before_it_is_installed() {
    let available = CheckResult::Available {
        version: "2.0".to_string(),
        release_notes: "notes".to_string(),
    };
    let view = check_finished(&available, true, "1.0");
    assert_eq!(view.status, "Version 2.0 is available (current: 1.0)");
    assert!(view.offers_download);
    assert_eq!(view.release_notes.as_deref(), Some("notes"));
    assert!(matches!(button_clicked(&view.state), ButtonStep::Download));

    let view = check_finished(&available, false, "1.0");
    assert!(matches!(view.state, UpdateState::ManualOnly));
    assert!(!view.offers_download);
    assert!(matches!(button_clicked(&view.state), ButtonStep::Nothing));

    let view = check_finished(&CheckResult::UpToDate, true, "1.0");
    assert_eq!(view.status, "You're running the latest version (1.0)");
    assert!(matches!(view.state, UpdateState::NoUpdate));
    let view = check_finished(&CheckResult::UnsupportedPlatform, true, "1.0");
    assert_eq!(view.status, manual_update_message(None));
    let view = check_finished(&CheckResult::Failed("down".to_string()), true, "1.0");
    assert_eq!(view.status, "Error checking for updates: down");
    assert!(matches!(view.state, UpdateState::Error(error) if error == "down"));

    let view = download_finished(Ok("/tmp/new".to_string()));
    assert_eq!(view.button, Some("Install and Restart"));
    assert!(matches!(button_clicked(&view.state), ButtonStep::Upgrade(path) if path == "/tmp/new"));
    let view = download_finished(Err("full".to_string()));
    assert_eq!(view.status, "Download failed: full");
    assert_eq!(view.button, None);
}

fn shell_config(shell: &str, argument: &str) -> ShellConfig {
    ShellConfig {
        default_shell: Some(shell.to_string()),
        shell_args: vec![argument.to_string()],
    }
}

#[test]
fn local_split_inherits_shell_arguments_and_cwd() {
    let config = shell_config("/bin/fish", "--login");
    let options: CreateSessionOpts<String> =
        inherited_pane_session_options(&config, false, Some("/work/tree".into()), None, None);
    assert_eq!(options.shell.as_deref(), Some("/bin/fish"));
    assert_eq!(options.args, ["--login"]);
    assert_eq!(options.cwd.as_deref(), Some("/work/tree"));
}

#[test]
fn remote_split_inherits_cwd_without_injecting_a_local_shell() {
    let config = shell_config("/bin/local-only", "--must-not-cross-ssh");
    let options: CreateSessionOpts<String> =
        inherited_pane_session_options(&config, true, Some("/srv/remote".into()), None, None);
    assert!(options.shell.is_none());
    assert!(options.args.is_empty());
    assert_eq!(options.cwd.as_deref(), Some("/srv/remote"));
}

#[test]
fn daemon_side_ssh_split_keeps_its_native_ssh_target() {
    let config = ShellConfig { default_shell: None, shell_args: vec![] };
    let options = inherited_pane_session_options(
        &config,
        false,
        Some("/srv/project".into()),
        Some("shell.example".to_string()),
        None,
    );
    assert_eq!(options.ssh.as_deref(), Some("shell.example"));
    assert_eq!(options.cwd.as_deref(), Some("/srv/project"));
}

#[test]
fn restored_launch_context_overrides_changed_local_defaults() {
    let config = shell_config("/bin/new-default", "--new-default");
    let original: CreateSessionOpts<String> = CreateSessionOpts {
        cols: 0,
        rows: 0,
        shell: Some("/bin/fish".into()),
        args: vec!["--login".into()],
        cwd: None,
        env: vec![("PANE_TEST".into(), "preserved".into())],
        term: Some("xterm-256color".into()),
        ssh: None,
    };
    let launch_context = LaunchContext::capture(&original);

    let options: CreateSessionOpts<String> = inherited_pane_session_options(
        &config,
        false,
        Some("/work/current".into()),
        None,
        Some(&launch_context),
    );

    assert_eq!(options.shell.as_deref(), Some("/bin/fish"));
    assert_eq!(options.args, ["--login"]);
    assert_eq!(options.env, [("PANE_TEST".into(), "preserved".into())]);
    assert_eq!(options.term.as_deref(), Some("xterm-256color"));
    assert_eq!(options.cwd.as_deref(), Some("/work/current"));
}

#[test]
fn a_launch_context_reaches_its_own_host_and_leaves_the_size_alone() {
    let config = shell_config("/bin/fish", "--login");
    let over_ssh = LaunchContext {
        shell: None,
        args: vec![],
        env: vec![],
        term: None,
        ssh: Some("shell.example".to_string()),
    };
    for fallback in [None, Some("old.example".to_string())] {
        let options =
            inherited_pane_session_options(&config, false, None, fallback, Some(&over_ssh));
        assert!(options.shell.is_none() && options.args.is_empty() && options.term.is_none());
        assert_eq!((options.cols, options.rows), (80, 24));
        assert_eq!(options.ssh.as_deref(), Some("shell.example"));
        let next = LaunchContext::capture(&options);
        assert_eq!(next.ssh.as_deref(), Some("shell.example"));
    }
    let remote: CreateSessionOpts<String> = inherited_pane_session_options(
        &config,
        true,
        Some("/srv".to_string()),
        None,
        Some(&LaunchContext::capture(&new_tab_options::<String>(&config, false, None))),
    );
    assert_eq!(remote.shell.as_deref(), Some("/bin/fish"));
    assert_eq!(remote.cwd.as_deref(), Some("/srv"));
}

#[test]
fn new_tabs_run_the_configured_shell_on_the_local_daemon_only() {
    let config = shell_config("/bin/fish", "--login");
    let local: CreateSessionOpts<()> = new_tab_options(&config, false, Some("/w".to_string()));
    assert_eq!(local.shell.as_deref(), Some("/bin/fish"));
    assert_eq!((local.cols, local.rows), (80, 24));
    let given: CreateSessionOpts<()> = new_tab_options(&config, true, None);
    assert!(given.shell.is_none() && given.args.is_empty());
    let docker: CreateSessionOpts<()> =
        docker_tab_options("docker", &vec!["run".to_string(), "-it".to_string()]);
    assert_eq!(docker.shell.as_deref(), Some("docker"));
    assert_eq!(docker.args, ["run", "-it"]);
}

#[test]
fn titles_come_from_the_shell_or_the_container() {
    assert_eq!(path_file_name("/bin/fish").as_deref(), Some("fish"));
    assert_eq!(path_file_name("/bin/fish/").as_deref(), Some("fish"));
    assert_eq!(path_file_name("fish/.").as_deref(), Some("fish"));
    assert_eq!(path_file_name("/bin/..").as_deref(), None);
    assert_eq!(path_file_name("/").as_deref(), None);
    assert_eq!(path_file_name("").as_deref(), None);
    for path in ["/bin/fish", "a", "a//b", "./a", "../a", ".", "..", "a/./", "//", "a/b/../"] {
        assert_eq!(
            path_file_name(path).as_deref(),
            std::path::Path::new(path).file_name().and_then(|name| name.to_str()),
            "{path}"
        );
    }
    assert_eq!(initial_title("/bin/fish", false), "fish");
    assert_eq!(initial_title("/bin/fish", true), "Terminal");
    assert_eq!(initial_title("/", false), "Terminal");
    let image = DockerSelection::RunImage("alpine".to_string(), "latest".to_string());
    assert_eq!(docker_target_text(&image), "alpine:latest");
    assert_eq!(docker_title(&image), "Docker: alpine:latest");
    let container = DockerSelection::ExecContainer("web".to_string());
    assert_eq!(docker_title(&container), "Docker: web");
}

#[test]
fn restored_titles_and_colors_prefer_what_was_handed_over() {
    assert_eq!(restored_title("custom", "title", "x"), ("custom".to_string(), true));
    assert_eq!(restored_title("", "title", "x"), ("title".to_string(), false));
    assert_eq!(restored_title("", "", "x"), ("x".to_string(), false));
    assert_eq!(restored_pane_title("h", "c", "t"), "h");
    assert_eq!(restored_pane_title("", "c", "t"), "c");
    assert_eq!(restored_pane_title("", "", ""), "Terminal");
    assert_eq!(restored_tab_title("tab", true, "active"), "tab");
    assert_eq!(restored_tab_title("tab", false, "active"), "active");
    assert_eq!(restored_tab_title("tab", false, ""), "tab");
    assert_eq!(non_empty(""), None);
    assert_eq!(restored_color(Some("#1".to_string()), "#2").as_deref(), Some("#1"));
    assert_eq!(restored_color(None, "#2").as_deref(), Some("#2"));
    assert_eq!(restored_color(None, ""), None);
}

#[test]
fn sessions_are_started_where_they_belong() {
    assert_eq!(split_backend(true, false, false), SplitBackend::Refused);
    assert_eq!(split_backend(true, true, true), SplitBackend::Remote);
    assert_eq!(split_backend(false, true, false), SplitBackend::Remote);
    assert_eq!(split_backend(false, true, true), SplitBackend::Local);
    assert_eq!(split_backend(false, false, false), SplitBackend::Local);
    assert_eq!(tab_route(true, true), DaemonRoute::Socket);
    assert_eq!(tab_route(false, true), DaemonRoute::Remote);
    assert_eq!(tab_route(false, false), DaemonRoute::Local);
    let some = |text: &str| Some(text.to_string());
    assert_eq!(setting_or(&some("a"), &some("b"), "c"), "a");
    assert_eq!(setting_or(&None, &some("b"), "c"), "b");
    assert_eq!(setting_or(&None, &None, "c"), "c");
    assert_eq!(session_shell(&None, &some("/bin/zsh")), "/bin/zsh");
    assert_eq!(tool_directory(&some("/w"), &some("/home/me")), "/w");
    assert_eq!(tool_directory(&None, &some("/home/me")), "/home/me");
}

#[test]
fn template_adapter_preserves_local_ssh_and_named_daemon_intent() {
    assert!(template_remote_details(&TemplateDaemonTarget::Local).is_none());
    let target = TemplateDaemonTarget::Named(RemoteConfig {
        name: "build".into(),
        host: "dev@build.example".into(),
        ssh_compression: false,
    });
    assert_eq!(
        template_remote_details(&target),
        Some(("build", "dev@build.example", false))
    );
}

#[test]
fn unique_template_policy_reuses_only_matching_template_identity() {
    let candidate = |tab_index, pane_id, name: Option<&str>| TemplateCandidate {
        tab_index,
        pane_id,
        template_name: name.map(|name| name.to_string()),
    };
    let candidates = vec![
        candidate(0, 11, Some("Editor")),
        candidate(1, 22, Some("Logs")),
        candidate(2, 33, None),
    ];
    assert_eq!(
        reusable_template_location(TemplateInstancePolicy::ReuseExisting, "Logs", &candidates),
        Some((1, 22))
    );
    assert_eq!(
        reusable_template_location(TemplateInstancePolicy::AlwaysCreate, "Logs", &candidates),
        None
    );
    assert_eq!(
        reusable_template_location(TemplateInstancePolicy::ReuseExisting, "Shell", &candidates),
        None
    );
}

#[test]
fn template_theme_override_is_scoped_and_unknown_names_fall_back() {
    let custom = Some("Default Light");
    let window_theme = "Tokyo Night";
    let name = |theme: TemplateTheme, resolved: &'static str| match theme {
        TemplateTheme::Window => window_theme,
        TemplateTheme::Custom => "Default Light",
        TemplateTheme::Resolved => resolved,
    };
    let nord = resolve_template_theme(Some("nord"), custom, "Nord");
    assert_eq!(name(nord, "Nord"), "Nord");
    let light = resolve_template_theme(Some("custom"), custom, "Default Dark");
    assert_eq!(name(light, "Default Dark"), "Default Light");
    let unknown = resolve_template_theme(Some("does-not-exist"), custom, "Default Dark");
    assert_eq!(name(unknown, "Default Dark"), "Tokyo Night");
    assert_eq!(window_theme, "Tokyo Night");
    assert_eq!(resolve_template_theme(None, custom, "Default Dark"), TemplateTheme::Window);
    assert_eq!(
        resolve_template_theme(Some("custom"), None, "Default Dark"),
        TemplateTheme::Window
    );
    assert!(matches!(
        template_theme_request(Some("nord"), custom),
        ThemeRequest::Named(name) if name == "nord"
    ));
    assert!(theme_name_matches("nord", "Nord"));
    assert!(matches!(template_theme_request(Some("custom"), custom), ThemeRequest::Custom));
    assert!(matches!(
        template_theme_request(Some(" default light "), custom),
        ThemeRequest::Custom
    ));
    assert!(matches!(
        template_theme_request(Some("does-not-exist"), custom),
        ThemeRequest::Named(name) if name == "does-not-exist"
    ));
    assert!(!theme_name_matches("does-not-exist", "Default Dark"));
    assert!(matches!(template_theme_request(None, custom), ThemeRequest::Window));
    assert!(matches!(template_theme_request(Some("  "), custom), ThemeRequest::Window));
    assert!(matches!(template_theme_request(Some("custom"), None), ThemeRequest::Named(_)));
    assert!(theme_name_matches("TOKYO-night", "Tokyo Night"));
    assert!(theme_name_matches("tokyo night", "Tokyo Night"));
    assert!(theme_name_matches("Light", "Default Light"));
    assert!(!theme_name_matches("light", "Nord"));
}

#[test]
fn templates_launch_only_when_everything_is_ready() {
    let ready = LaunchFacts { managed: false, plan_valid: true, reused: false, workspace_ready: true };
    assert_eq!(template_launch(&ready), LaunchStep::Spawn);
    assert_eq!(template_launch(&LaunchFacts { managed: true, ..ready }), LaunchStep::Rejected);
    assert_eq!(
        template_launch(&LaunchFacts { plan_valid: false, ..ready }),
        LaunchStep::InvalidPlan
    );
    assert_eq!(template_launch(&LaunchFacts { reused: true, ..ready }), LaunchStep::Reused);
    assert_eq!(
        template_launch(&LaunchFacts { workspace_ready: false, ..ready }),
        LaunchStep::WorkspaceFailed
    );
}

fn window(bells: &[bool], current: Option<u32>) -> WindowFacts {
    let mut tabs = Vec::new();
    for (index, bell) in bells.iter().enumerate() {
        tabs.push(TabFacts { id: 100 + index as u64, has_bell: *bell });
    }
    let pages = bells.len() as u32;
    WindowFacts { tabs, pages, current, fullscreen: false, managed: false, updater_enabled: true }
}

#[test]
fn window_actions_are_found_by_name() {
    assert_eq!(window_action("new-tab", true), Some(WindowAction::Shared(Action::NewTab)));
    assert_eq!(
        window_action("split-pane-vertical", true),
        Some(WindowAction::Shared(Action::SplitPane(SplitDirection::Vertical)))
    );
    assert_eq!(window_action("select-tab-index", true), Some(WindowAction::SelectTabIndex));
    assert_eq!(window_action("no-such-action", true), None);
    assert_eq!(window_action("check-updates", true), Some(WindowAction::CheckUpdates));
}

#[test]
fn tabs_are_stepped_through_in_a_circle() {
    let facts = window(&[false, false, false], Some(2));
    assert_eq!(
        respond_to_shared(Action::NextTab, &facts),
        Command::SelectTab { tab: 0, focus: true }
    );
    assert_eq!(
        respond_to_shared(Action::PrevTab, &facts),
        Command::SelectTab { tab: 1, focus: true }
    );
    let empty = window(&[], None);
    assert_eq!(respond_to_shared(Action::NextTab, &empty), Command::Ignore);
    assert_eq!(respond_to_shared(Action::PrevTab, &empty), Command::Ignore);
    let alerted = window(&[true, false, true, false], Some(2));
    assert_eq!(
        respond_to_shared(Action::NextAlertedTab, &alerted),
        Command::SelectTab { tab: 0, focus: true }
    );
    assert_eq!(respond_to_shared(Action::NextAlertedTab, &facts), Command::Ignore);
}

#[test]
fn a_page_without_a_tab_is_left_alone() {
    let mut facts = window(&[true], Some(1));
    facts.pages = 2;
    for action in [
        Action::CloseTab,
        Action::Copy,
        Action::ZoomIn,
        Action::ClosePane,
        Action::SplitPane(SplitDirection::Vertical),
    ] {
        assert_eq!(respond_to_shared(action, &facts), Command::Ignore);
    }
    assert_eq!(respond(WindowAction::SetTitle, None, &facts), Command::Ignore);
    assert_eq!(respond(WindowAction::CloseOtherTabs, None, &facts), Command::Ignore);
    assert_eq!(respond(WindowAction::SendSignal, Some("9"), &facts), Command::Ignore);
    assert_eq!(respond_to_shared(Action::NewTab, &facts), Command::NewTab { like: None });
    assert_eq!(
        respond(WindowAction::RunToolShortcut, Some("2"), &facts),
        Command::RunTool { index: 2, like: None }
    );
    assert_eq!(
        respond_to_shared(Action::PrevTab, &facts),
        Command::SelectTab { tab: 0, focus: true }
    );
    assert_eq!(
        respond(WindowAction::SelectTabIndex, Some("2"), &facts),
        Command::SelectTab { tab: 1, focus: true }
    );
}

#[test]
fn parameters_choose_what_is_meant() {
    let facts = window(&[false, false, false], Some(0));
    let select = |parameter| respond(WindowAction::SelectTabIndex, parameter, &facts);
    assert_eq!(select(Some("3")), Command::SelectTab { tab: 2, focus: true });
    assert_eq!(select(Some("0")), Command::SelectTab { tab: 0, focus: true });
    assert_eq!(select(Some("4")), Command::Ignore);
    assert_eq!(select(Some("x")), Command::Ignore);
    assert_eq!(select(None), Command::Ignore);
    assert_eq!(
        respond(WindowAction::SwitchTab, Some("101"), &facts),
        Command::SelectTab { tab: 1, focus: false }
    );
    assert_eq!(respond(WindowAction::SwitchTab, Some("7"), &facts), Command::Ignore);
    assert_eq!(
        respond(WindowAction::SendSignal, Some("-9"), &facts),
        Command::Terminal { tab: 0, request: TerminalRequest::SendSignal(-9) }
    );
    assert_eq!(
        respond(WindowAction::RunToolShortcut, Some("2"), &facts),
        Command::RunTool { index: 2, like: Some(0) }
    );
    assert_eq!(
        respond(WindowAction::SetEncoding, Some("utf8"), &facts),
        Command::EncodingKept
    );
    assert_eq!(
        respond(WindowAction::SetEncoding, Some("latin1"), &facts),
        Command::EncodingUnsupported
    );
    assert_eq!(respond(WindowAction::CloseOtherTabs, None, &facts), Command::CloseOtherTabs(100));
}

#[test]
fn managed_windows_stay_single_and_updates_need_the_updater() {
    let mut facts = window(&[false], Some(0));
    assert_eq!(respond(WindowAction::SshConnect, None, &facts), Command::ConnectSsh);
    assert_eq!(respond(WindowAction::CheckUpdates, None, &facts), Command::CheckForUpdates);
    facts.managed = true;
    facts.updater_enabled = false;
    assert_eq!(respond(WindowAction::SshConnect, None, &facts), Command::Ignore);
    assert_eq!(respond(WindowAction::CheckUpdates, None, &facts), Command::Ignore);
    assert_eq!(respond_to_shared(Action::NewTab, &facts), Command::Ignore);
    assert_eq!(
        respond_to_shared(Action::Copy, &facts),
        Command::Terminal { tab: 0, request: TerminalRequest::CopySelection }
    );
    assert_eq!(respond_to_shared(Action::ToggleFullscreen, &facts), Command::EnterFullscreen);
    facts.fullscreen = true;
    assert_eq!(respond_to_shared(Action::ToggleFullscreen, &facts), Command::LeaveFullscreen);
}

#[test]
fn closing_the_only_pane_means_the_tab() {
    assert_eq!(pane_step(Action::ClosePane, 1), PaneStep::CloseTab);
    assert_eq!(pane_step(Action::ClosePane, 2), PaneStep::ClosePane);
    assert_eq!(
        pane_step(Action::ResizePane(PaneDirection::Up), 2),
        PaneStep::Resize { direction: PaneDirection::Up, amount: 400 }
    );
    assert_eq!(pane_step(Action::Copy, 2), PaneStep::Nothing);
    assert_eq!(link_menu_target("http://x", true), "win.copy-url::http://x");
    assert_eq!(link_menu_target("http://x", false), "win.open-url::http://x");
    assert_eq!(
        tool_failure_text("Tool", "run", "no"),
        "Failed to launch \"Tool\"\n\nCommand 'run' failed: no"
    );
    assert_eq!(upgrade_failure_text("no"), "Upgrade failed: no");
}

fn leaf(id: u64) -> Box<PaneTree> {
    Box::new(PaneTree::Pane(id))
}

fn two_panes(ratio: u16) -> PaneTree {
    PaneTree::Split {
        direction: SplitDirection::Horizontal,
        first_ratio: ratio,
        first: leaf(1),
        second: leaf(2),
    }
}

fn three_panes(ratio: u16) -> PaneTree {
    PaneTree::Split {
        direction: SplitDirection::Horizontal,
        first_ratio: ratio,
        first: leaf(1),
        second: Box::new(PaneTree::Split {
            direction: SplitDirection::Vertical,
            first_ratio: 5_000,
            first: leaf(2),
            second: leaf(3),
        }),
    }
}

fn panes(tree: PaneTree, pane_count: usize, active: u64, zoomed: Option<u64>) -> PaneSnapshot {
    PaneSnapshot { pane_count, active, zoomed, tree }
}

fn template(tab_count: usize) -> TemplateSnapshot {
    TemplateSnapshot {
        tab_count,
        tab_id: 7,
        session_id: Some("s".to_string()),
        template_name: Some("Editor".to_string()),
        keep_open: true,
        color: Some("#2a7fff".to_string()),
        screen_text: "$ MARK 1\n".to_string(),
    }
}

fn activate(marker: Option<CiMarker>, action: Action) -> CiCommand {
    CiCommand::Activate { marker, action }
}

#[test]
fn the_scripted_run_goes_through_every_step() {
    let mut driver = PaneCiDriver::new("Editor".to_string(), "MARK".to_string());
    let one = panes(PaneTree::Pane(1), 1, 1, None);
    assert_eq!(driver.tick(0, false, Some(&one)), CiCommand::Wait);
    assert_eq!(driver.tick(0, true, None), CiCommand::Wait);
    let split = Action::SplitPane(SplitDirection::Horizontal);
    assert_eq!(driver.tick(0, true, Some(&one)), activate(Some(CiMarker::Ready), split));
    assert_eq!(driver.activated(split, &one, Some(&one), None), CiCommand::Wait);
    assert_eq!(driver.step(), PaneCiStep::WaitHorizontalSplit);
    assert_eq!(driver.tick(1, true, Some(&one)), CiCommand::Wait);
    let two = panes(two_panes(5_000), 2, 2, None);
    let split = Action::SplitPane(SplitDirection::Vertical);
    assert_eq!(driver.tick(2, true, Some(&two)), activate(Some(CiMarker::SplitHorizontal), split));
    driver.activated(split, &two, Some(&two), None);
    let three = panes(three_panes(5_000), 3, 3, None);
    assert_eq!(driver.tick(3, true, Some(&three)), CiCommand::Report(CiMarker::SplitVertical));
    let focus = Action::FocusPane(PaneDirection::Up);
    assert_eq!(driver.tick(4, true, Some(&three)), activate(None, focus));
    let moved = panes(three_panes(5_000), 3, 2, None);
    assert_eq!(
        driver.activated(focus, &three, Some(&moved), None),
        CiCommand::Report(CiMarker::Focus)
    );
    let resize = Action::ResizePane(PaneDirection::Left);
    assert_eq!(driver.tick(5, true, Some(&moved)), activate(None, resize));
    let resized = panes(three_panes(4_600), 3, 2, None);
    assert_eq!(
        driver.activated(resize, &moved, Some(&resized), None),
        CiCommand::Report(CiMarker::Resize)
    );
    assert_eq!(driver.tick(6, true, Some(&resized)), activate(None, Action::TogglePaneZoom));
    let zoomed = panes(three_panes(4_600), 3, 2, Some(2));
    assert_eq!(
        driver.activated(Action::TogglePaneZoom, &resized, Some(&zoomed), None),
        CiCommand::Report(CiMarker::Zoom)
    );
    assert_eq!(driver.tick(7, true, Some(&zoomed)), activate(None, Action::TogglePaneZoom));
    assert_eq!(
        driver.activated(Action::TogglePaneZoom, &zoomed, Some(&resized), None),
        activate(Some(CiMarker::Unzoom), Action::ClosePane)
    );
    assert_eq!(
        driver.activated(Action::ClosePane, &resized, Some(&resized), None),
        CiCommand::Wait
    );
    assert_eq!(driver.tick(8, true, Some(&three)), CiCommand::Wait);
    assert_eq!(
        driver.tick(9, true, Some(&two)),
        activate(Some(CiMarker::Close), Action::QuickOpenTemplate)
    );
    assert_eq!(
        driver.activated(Action::QuickOpenTemplate, &two, Some(&two), None),
        CiCommand::ConfirmSelection
    );
    assert_eq!(driver.selection_confirmed(true, true, 9), CiCommand::Report(CiMarker::Ingress));
    assert_eq!(driver.tick(10, true, Some(&one)), CiCommand::InspectTemplate);
    assert_eq!(driver.template_seen(Some(&template(1))), CiCommand::Wait);
    assert_eq!(driver.template_seen(Some(&template(2))), CiCommand::SignalAttached);
    assert_eq!(driver.template_attached(&template(2)), CiCommand::SignalVisible);
    assert_eq!(
        driver.template_completed(&template(2), Completion::Missing, 10),
        CiCommand::Wait
    );
    assert_eq!(
        driver.template_completed(&template(2), Completion::Prepared, 10),
        CiCommand::Wait
    );
    assert_eq!(
        driver.template_completed(&template(2), Completion::Prepared, 10 + COMPLETION_WAIT),
        activate(Some(CiMarker::Launch), Action::PrevTab)
    );
    assert_eq!(
        driver.activated(Action::PrevTab, &two, Some(&two), Some(6)),
        activate(None, Action::QuickOpenTemplate)
    );
    assert_eq!(
        driver.activated(Action::QuickOpenTemplate, &two, Some(&two), None),
        CiCommand::ConfirmSelection
    );
    let now = 11 + COMPLETION_WAIT;
    assert_eq!(driver.selection_confirmed(true, true, now), CiCommand::Wait);
    assert_eq!(driver.tick(now + REUSE_WAIT - 1, true, Some(&two)), CiCommand::Wait);
    assert_eq!(driver.tick(now + REUSE_WAIT, true, Some(&two)), CiCommand::InspectReuse);
    assert_eq!(
        driver.reuse_seen(Some(&template(3))),
        CiCommand::Fail(CiFailure::Duplicate(3))
    );
    let mut other = template(2);
    other.session_id = Some("t".to_string());
    assert_eq!(driver.reuse_seen(Some(&other)), CiCommand::Fail(CiFailure::NotReused));
    assert_eq!(driver.reuse_seen(Some(&template(2))), CiCommand::Finish);
}

#[test]
fn a_failed_run_says_why() {
    let mut driver = PaneCiDriver::new("Editor".to_string(), "MARK".to_string());
    let one = panes(PaneTree::Pane(1), 1, 1, None);
    assert_eq!(
        driver.tick(RUN_LIMIT + 1, true, Some(&one)),
        CiCommand::Fail(CiFailure::TimedOut)
    );
    assert_eq!(CiFailure::TimedOut.reason().as_deref(), Some("timed out after 40 seconds"));
    assert_eq!(
        CiFailure::TabCount(3).reason().as_deref(),
        Some("template launch produced 3 tabs instead of 2")
    );
    assert_eq!(
        CiFailure::Duplicate(12).reason().as_deref(),
        Some("unique template created a duplicate; tab count is 12")
    );
    assert_eq!(CiFailure::WrongDirectory.reason(), None);
    assert_eq!(CiMarker::Ready.text(), "CTERM_PANE_CI READY panes=1");
    assert_eq!(
        failure_line(PaneCiStep::WaitClose, "x"),
        "CTERM_PANE_CI FAIL step=WaitClose reason=x"
    );
    assert_eq!(activation_error("find", true, true), None);
    assert_eq!(
        activation_error("find", true, false).as_deref(),
        Some("window action 'find' is disabled")
    );
    assert_eq!(
        activation_error("find", false, false).as_deref(),
        Some("window action 'find' is not registered")
    );
    assert!(contains_text("abcd", "bc"));
    assert!(contains_text("abcd", ""));
    assert!(!contains_text("abcd", "bd"));
    assert!(!contains_text("", "a"));
}

#[test]
fn the_scripted_run_starts_only_where_it_was_prepared() {
    let facts = StartFacts {
        requested: true,
        has_display: true,
        on_wayland: true,
        x11_display_set: false,
        has_application: true,
        name_set: true,
        marker_set: true,
        ready_set: true,
        visible_set: true,
        done_set: true,
        workspace_set: true,
    };
    assert_eq!(start_decision(&facts), StartDecision::Start);
    assert_eq!(
        start_decision(&StartFacts { requested: false, has_display: false, ..facts }),
        StartDecision::Off
    );
    assert_eq!(
        start_decision(&StartFacts { x11_display_set: true, ..facts }),
        StartDecision::Fail(PaneCiStep::WaitInitial, CiFailure::DisplaySet)
    );
    assert_eq!(
        start_decision(&StartFacts { workspace_set: false, ..facts }),
        StartDecision::Fail(PaneCiStep::WaitTemplate, CiFailure::WorkspaceUnset)
    );
}

#[test]
fn the_overlay_selects_in_a_circle() {
    let mut overlay = QuickOpenOverlay::new();
    assert!(!overlay.is_visible());
    overlay.show((0..10).collect());
    assert!(overlay.is_visible());
    assert_eq!(overlay.matched(7), Some(&7));
    assert_eq!(overlay.matched(8), None);
    overlay.select_previous();
    assert_eq!(overlay.selected_index(), 7);
    overlay.select_next();
    assert_eq!(overlay.selected_index(), 0);
    overlay.select(3);
    overlay.select(20);
    assert_eq!(overlay.confirm_selection_for_ci(false), None);
    assert!(overlay.is_visible());
    assert_eq!(overlay.confirm_selection(), Some(3));
    assert!(!overlay.is_visible());
    overlay.show(vec![]);
    overlay.select_next();
    assert_eq!(overlay.confirm_selection(), None);
    assert!(overlay.is_visible());
    overlay.conceal();
    assert!(!overlay.is_visible());
    assert_eq!(overlay_key(KEY_DOWN), OverlayKey::Next);
    assert_eq!(overlay_key(KEY_UP), OverlayKey::Previous);
    assert_eq!(overlay_key(KEY_RETURN), OverlayKey::Confirm);
    assert_eq!(overlay_key(KEY_ESCAPE), OverlayKey::Conceal);
    assert_eq!(overlay_key('a' as u32), OverlayKey::Other);
}

fn notification(body: &str, focus: bool) -> DesktopNotificationAction {
    DesktopNotificationAction::Show(DesktopNotification {
        id: Some("n".to_string()),
        title: "t".to_string(),
        body: body.to_string(),
        urgency: NotificationUrgency::Critical,
        focus,
    })
}

#[test]
fn notifications_reach_the_desktop() {
    match handle(&notification("", true), true) {
        NotificationStep::Send(native) => {
            assert_eq!(native.id.as_deref(), Some("n"));
            assert_eq!(native.title, "t");
            assert_eq!(native.body, None);
            assert_eq!(native.priority, NotificationPriority::Urgent);
            assert_eq!(native.default_action, Some("app.focus-terminal"));
        }
        step => panic!("unexpected {step:?}"),
    }
    match handle(&notification("b", false), true) {
        NotificationStep::Send(native) => {
            assert_eq!(native.body.as_deref(), Some("b"));
            assert_eq!(native.default_action, None);
        }
        step => panic!("unexpected {step:?}"),
    }
    assert!(matches!(handle(&notification("b", false), false), NotificationStep::Drop));
    assert!(matches!(
        handle(&DesktopNotificationAction::Close("n".to_string()), true),
        NotificationStep::Withdraw(id) if id == "n"
    ));
}

#[test]
fn requests_move_the_view() {
    let page = TerminalRequest::ScrollPage { up: true };
    assert_eq!(viewport_move(page, 24), Some(ViewportMove::Up(24)));
    assert_eq!(viewport_move(page, 0), Some(ViewportMove::Up(1)));
    let line = TerminalRequest::ScrollLines { lines: 1, up: false };
    assert_eq!(viewport_move(line, 24), Some(ViewportMove::Down(1)));
    let top = TerminalRequest::ScrollToEdge { top: true };
    assert_eq!(viewport_move(top, 24), Some(ViewportMove::Up(usize::MAX)));
    let bottom = TerminalRequest::ScrollToEdge { top: false };
    assert_eq!(viewport_move(bottom, 24), Some(ViewportMove::Bottom));
    let prompt = TerminalRequest::ScrollToPrompt { previous: false };
    assert_eq!(viewport_move(prompt, 24), Some(ViewportMove::NextPrompt));
    assert_eq!(viewport_move(TerminalRequest::ZoomIn, 24), None);
}

#[test]
fn a_search_shows_its_first_match() {
    assert_eq!(find(&vec![7, 9, 9]), (3, Some(7)));
    assert_eq!(find(&vec![]), (0, None));
    let html = Some("<b>x</b>".to_string());
    assert_eq!(copied_html(html.clone(), Some("x".to_string())), html);
    assert_eq!(copied_html(html, None), None);
    assert_eq!(copied_html(None, Some("x".to_string())), None);
}

#[test]
fn received_files_are_saved_where_the_user_says() {
    let last = Some("/last".to_string());
    let downloads = Some("/downloads".to_string());
    assert_eq!(chooser_folder(last.clone(), downloads.clone()), last);
    assert_eq!(chooser_folder(None, downloads.clone()), downloads);
    assert_eq!(chooser_folder(None, None), None);
    assert_eq!(chosen_save_path(true, last.clone()), last);
    assert_eq!(chosen_save_path(true, None), None);
    assert_eq!(chosen_save_path(false, last), None);
}

#[test]
fn a_restored_session_finds_its_template() {
    let names = vec!["a".to_string(), "b".to_string(), "b".to_string()];
    assert_eq!(named_template(&names, Some("b")), Some(1));
    assert_eq!(named_template(&names, Some("c")), None);
    assert_eq!(named_template(&names, None), None);
}
