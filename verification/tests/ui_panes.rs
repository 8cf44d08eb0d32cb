use cterm::ui::action::SplitDirection;
use cterm::ui::close::{
    continue_close, front_changed, running_sessions, start_close, unanswered, AnswerState,
    CloseStep, FrontChange, QueryFailure, SessionStatus, QUERY_LIMIT,
};
use cterm::ui::options::{docker_tab_options, LaunchContext, ShellConfig};
use cterm::ui::pane::{
    divider_position_at, divider_ratio_at, LayoutSummary, PaneBranch, PaneLayoutError, PaneSet,
    PaneTree,
};
use cterm::ui::spawn::{
    attached_entry, kept_by_daemon, plan_split, split_entry, started_entry, TabRequest,
};
use cterm::ui::tabs::{
    BellMarks, CloseOutcome, PaneEntry, SessionQuery, TabEntry, TabList, TitleUpdate,
};
use cterm::ui::tree::{build_tree, commit_ratios, same_tree, tab_widgets, PaneWidget};
use cterm::ui::upgrade::{
    collect_tab, pane_restore_state, reconnected_session, restore_route, restore_tab,
    restored_active_tab, restored_pane, window_restore, PaneRestore,
    PaneUpgradeState, ReconnectedSession, RestoreRoute, TabUpgradeState, WindowGeometry,
    WindowRestore,
};

fn layout(ids: &[u64], active: u64, zoomed: Option<u64>) -> LayoutSummary {
    LayoutSummary { ids: ids.to_vec(), active, zoomed }
}

#[test]
fn split_focus_resize_zoom_and_close_preserve_resources() {
    let mut panes = PaneSet::new(1, "first");
    let first = panes.active_id();
    let right = panes.split(Ok((2, layout(&[1, 2], 2, None))), "right").unwrap();
    let bottom_right = panes.split(Ok((3, layout(&[1, 2, 3], 3, None))), "bottom-right").unwrap();

    assert_eq!(panes.len(), 3);
    assert_eq!(panes.active(), &"bottom-right");
    panes.rearrange(layout(&[1, 2, 3], right, None));
    assert_eq!(panes.active_id(), right);
    assert_eq!(panes.active(), &"right");
    panes.rearrange(layout(&[1, 2, 3], right, Some(right)));
    assert!(panes.is_zoomed());
    panes.rearrange(layout(&[1, 2, 3], right, None));
    assert!(!panes.is_zoomed());

    assert_eq!(panes.close(right, Ok(layout(&[1, 3], 3, None))).unwrap(), "right");
    assert_eq!(panes.len(), 2);
    assert!(panes.get(right).is_none());
    assert!(panes.get(first).is_some());
    assert!(panes.get(bottom_right).is_some());
}

#[test]
fn final_resource_cannot_be_closed() {
    let mut panes = PaneSet::new(1, 7_u8);
    assert_eq!(
        panes.close(panes.active_id(), Err(PaneLayoutError::LastPane)),
        Err(PaneLayoutError::LastPane)
    );
    assert_eq!(panes.len(), 1);
    assert_eq!(panes.active(), &7);
}

#[test]
fn restored_layout_requires_exactly_one_resource_per_leaf() {
    let panes =
        PaneSet::from_layout(layout(&[1, 2], 2, None), vec![(1, "a"), (2, "b")]).ok().unwrap();
    assert_eq!(panes.pane_ids(), &vec![1, 2]);
    assert_eq!(panes.active(), &"b");
    assert_eq!(
        PaneSet::from_layout(layout(&[1, 2], 2, None), vec![(1, "a")]).err(),
        Some(PaneLayoutError::UnknownPane(2))
    );
}

#[test]
fn queued_divider_ratio_is_committed_before_the_next_model_action() {
    let mut panes = PaneSet::new(1, "first");
    panes.split(Ok((2, layout(&[1, 2], 2, None))), "second").unwrap();
    let mut tree = PaneTree::Split {
        direction: SplitDirection::Horizontal,
        first_ratio: 5_000,
        first: Box::new(PaneTree::Pane(1)),
        second: Box::new(PaneTree::Pane(2)),
    };
    panes.divider_moved(Vec::new(), 700, 1000);
    assert!(!panes.is_settled());
    for zoomed in [Some(2), None] {
        tree = commit_ratios(tree, &panes.flush_divider_ratios());
        assert!(panes.is_settled());
        panes.rearrange(layout(&[1, 2], 2, zoomed));
    }
    let PaneTree::Split { first_ratio, .. } = tree else {
        panic!("split layout expected");
    };
    assert_eq!(first_ratio, 7_000);
}

#[test]
fn dividers_are_noted_in_the_order_in_which_they_first_moved() {
    let mut panes = PaneSet::new(1, "first");
    panes.divider_moved(Vec::new(), 700, 1000);
    assert_eq!(panes.pending_ratios(), &vec![(Vec::new(), 7_000)]);
    assert_eq!(panes.divider_position(&Vec::new(), 5_000, 200), 140);
    panes.divider_moved(vec![PaneBranch::Second], 1, 1000);
    panes.divider_moved(Vec::new(), 250, 1000);
    panes.divider_moved(Vec::new(), 250, 0);
    assert_eq!(
        panes.pending_ratios(),
        &vec![(Vec::new(), 2_500), (vec![PaneBranch::Second], 500)]
    );
    assert_eq!(&panes.flush_divider_ratios(), panes.pending_ratios());
    panes.divider_moved(vec![PaneBranch::Second], 400, 0);
    assert!(panes.is_settled());
    panes.laid_out();
    assert!(panes.pending_ratios().is_empty());
    assert_eq!(panes.divider_position(&Vec::new(), 5_000, 200), 100);
}

#[test]
fn ratios_are_taken_over_where_their_split_still_is() {
    let tree = split(
        SplitDirection::Horizontal,
        PaneTree::Pane(1),
        split(SplitDirection::Vertical, PaneTree::Pane(2), PaneTree::Pane(3)),
    );
    let ratios = vec![
        (vec![PaneBranch::Second], 6_000),
        (vec![PaneBranch::First], 1_000),
        (vec![PaneBranch::Second, PaneBranch::First], 2_000),
    ];
    match commit_ratios(tree, &ratios) {
        PaneTree::Split { first_ratio, first, second, .. } => {
            assert_eq!(first_ratio, 4_000);
            assert!(same_tree(&first, &PaneTree::Pane(1)));
            match *second {
                PaneTree::Split { first_ratio, .. } => assert_eq!(first_ratio, 6_000),
                PaneTree::Pane(_) => panic!("a split was expected"),
            }
        }
        PaneTree::Pane(_) => panic!("a split was expected"),
    }
}

#[test]
fn a_tab_hands_its_ratios_out_before_its_layout_changes() {
    let mut list = TabList::new();
    let tab = open(&mut list, pane(10, "a", None, None));
    assert!(list.divider_moved(tab, Vec::new(), 300, 1000));
    assert!(!list.divider_moved(99, Vec::new(), 300, 1000));
    assert!(!list.get(0).unwrap().panes.is_settled());
    assert_eq!(list.flush_divider_ratios(tab), Some(vec![(Vec::new(), 3_000)]));
    assert_eq!(list.flush_divider_ratios(99), None);
    assert!(list.get(0).unwrap().panes.is_settled());
    let split = list.split_pane(
        tab,
        1,
        Ok((2, layout(&[1, 2], 2, None))),
        pane(11, "b", None, None),
    );
    assert_eq!(split, Some(2));
    assert!(list.laid_out(tab));
    assert!(!list.laid_out(99));
    assert_eq!(list.flush_divider_ratios(tab), Some(vec![]));
}

#[test]
fn refused_changes_leave_the_panes_alone() {
    let mut panes = PaneSet::new(1, "only");
    assert_eq!(
        panes.split(Err(PaneLayoutError::Refused), "lost"),
        Err(PaneLayoutError::Refused)
    );
    assert_eq!(panes.entry_at(0), &(1, "only"));
    *panes.get_mut(1).unwrap() = "changed";
    assert!(panes.get_mut(2).is_none());
    assert_eq!(panes.get(1), Some(&"changed"));
    assert_eq!(panes.get(2), None);
}

#[test]
fn dividers_keep_off_both_edges() {
    assert_eq!(divider_ratio_at(-5, 100), 500);
    assert_eq!(divider_ratio_at(0, 100), 500);
    assert_eq!(divider_ratio_at(100, 100), 9_500);
    assert_eq!(divider_ratio_at(1, 3), 3_333);
    assert_eq!(divider_ratio_at(2, 3), 6_667);
    assert_eq!(divider_position_at(3_333, 300), 99);
    assert_eq!(divider_position_at(10_000, i32::MAX), i32::MAX / 10_000);
}

fn split(direction: SplitDirection, first: PaneTree, second: PaneTree) -> PaneTree {
    PaneTree::Split {
        direction,
        first_ratio: 4_000,
        first: Box::new(first),
        second: Box::new(second),
    }
}

#[test]
fn every_split_gets_a_divider_at_its_path() {
    let tree = split(
        SplitDirection::Horizontal,
        PaneTree::Pane(1),
        split(SplitDirection::Vertical, PaneTree::Pane(2), PaneTree::Pane(3)),
    );
    assert!(same_tree(&tree, &tree));
    assert!(!same_tree(&tree, &PaneTree::Pane(1)));
    match build_tree(&tree, &Vec::new()) {
        PaneWidget::Divider { direction, path, ratio, first, second } => {
            assert_eq!(direction, SplitDirection::Horizontal);
            assert!(path.is_empty());
            assert_eq!(ratio, 4_000);
            assert!(matches!(*first, PaneWidget::Terminal(1)));
            match *second {
                PaneWidget::Divider { direction, path, first, second, .. } => {
                    assert_eq!(direction, SplitDirection::Vertical);
                    assert_eq!(path, vec![PaneBranch::Second]);
                    assert!(matches!(*first, PaneWidget::Terminal(2)));
                    assert!(matches!(*second, PaneWidget::Terminal(3)));
                }
                PaneWidget::Terminal(_) => panic!("a divider was expected"),
            }
        }
        PaneWidget::Terminal(_) => panic!("a divider was expected"),
    }
    assert!(matches!(tab_widgets(&tree, Some(3)), PaneWidget::Terminal(3)));
    assert!(matches!(tab_widgets(&tree, None), PaneWidget::Divider { .. }));
}

fn pane(terminal: u64, title: &str, session: Option<&str>, remote: Option<&str>) -> PaneEntry<u8> {
    PaneEntry {
        terminal,
        title: title.to_string(),
        title_locked: false,
        template_name: None,
        keep_open: false,
        session_id: session.map(|id| id.to_string()),
        daemon_socket: None,
        remote_name: remote.map(|name| name.to_string()),
        launch_context: None,
        native_ssh: None,
    }
}

fn zsh() -> LaunchContext<u8> {
    LaunchContext {
        shell: Some("/bin/zsh".to_string()),
        args: vec!["-i".to_string()],
        env: vec![("LANG".to_string(), "C".to_string())],
        term: Some("xterm".to_string()),
        ssh: Some(9),
    }
}

fn open(list: &mut TabList<u8>, entry: PaneEntry<u8>) -> u64 {
    let title = entry.title.clone();
    list.open_tab(title, false, None, PaneSet::new(1, entry))
}

fn ids(list: &TabList<u8>) -> Vec<u64> {
    (0..list.len()).map(|index| list.get(index).unwrap().id).collect()
}

#[test]
fn tabs_keep_their_order_and_are_numbered_once() {
    let mut list = TabList::new();
    let first = open(&mut list, pane(10, "a", Some("s1"), None));
    let second = open(&mut list, pane(11, "b", Some("s2"), None));
    assert_ne!(first, second);
    assert_eq!(list.position(second), Some(1));
    assert_eq!(list.other_tabs(first), vec![second]);
    let (removed, last) = list.remove_tab(first).unwrap();
    assert_eq!(removed.title, "a");
    assert!(!last);
    assert!(list.remove_tab(first).is_none());
    let third = open(&mut list, pane(12, "c", None, None));
    assert!(third != first && third != second);
    assert_eq!(ids(&list), vec![second, third]);
    assert_eq!(list.remove_tabs(&vec![third, first]).len(), 1);
    assert!(matches!(list.remove_tab(second), Some((_, true))));
    assert!(list.get(0).is_none());
}

#[test]
fn closing_the_only_pane_closes_its_tab() {
    let mut list = TabList::new();
    let tab = open(&mut list, pane(10, "a", Some("s1"), None));
    let pane_id = list
        .split_pane(tab, 1, Ok((2, layout(&[1, 2], 2, None))), pane(11, "b", Some("s2"), None))
        .unwrap();
    assert_eq!(pane_id, 2);
    assert_eq!(list.get(0).unwrap().title, "b");
    assert!(matches!(
        list.close_pane(tab, 2, Ok(layout(&[1], 1, None))),
        CloseOutcome::Pane(entry) if entry.terminal == 11
    ));
    assert_eq!(list.get(0).unwrap().title, "a");
    assert!(matches!(
        list.close_pane(tab, 1, Err(PaneLayoutError::LastPane)),
        CloseOutcome::Tab { last: true, .. }
    ));
    assert!(matches!(
        list.close_pane(tab, 1, Err(PaneLayoutError::LastPane)),
        CloseOutcome::Nothing
    ));
}

#[test]
fn leaving_a_remote_takes_its_tabs_along() {
    let mut list = TabList::new();
    let local = open(&mut list, pane(10, "a", Some("s1"), None));
    let remote = open(&mut list, pane(11, "b", Some("s2"), Some("build")));
    let mixed = open(&mut list, pane(12, "c", Some("s3"), None));
    list.split_pane(mixed, 1, Ok((2, layout(&[1, 2], 2, None))), pane(13, "d", None, Some("build")))
        .unwrap();
    assert_eq!(list.remote_of_tab(local), None);
    assert_eq!(list.remote_of_tab(mixed), Some(("build".to_string(), 2)));
    let (terminals, removed) = list.disconnect_remote("build");
    assert_eq!(terminals, vec![11, 13]);
    assert_eq!(removed.iter().map(|tab| tab.id).collect::<Vec<u64>>(), vec![remote, mixed]);
    assert_eq!(ids(&list), vec![local]);
}

fn query_ids(queries: Vec<SessionQuery>) -> Vec<String> {
    queries.into_iter().map(|query| query.session_id).collect()
}

#[test]
fn sessions_are_asked_about_once_each() {
    let mut list = TabList::new();
    let first = open(&mut list, pane(10, "a", Some("s1"), None));
    let second = open(&mut list, pane(11, "b", Some("s2"), None));
    open(&mut list, pane(12, "c", None, None));
    assert_eq!(query_ids(list.queries_of_tab(first).unwrap()), vec!["s1"]);
    assert!(list.queries_of_tab(99).is_none());
    assert_eq!(query_ids(list.queries_of_pane(second, 1).unwrap()), vec!["s2"]);
    assert!(list.queries_of_pane(second, 2).is_none());
    assert!(list.queries_of_pane(99, 1).is_none());
    assert_eq!(query_ids(list.queries(true, None)), vec!["s1", "s2"]);
    assert_eq!(query_ids(list.queries(true, Some(second))), vec!["s1"]);
}

#[test]
fn bells_mark_what_is_not_looked_at() {
    let mut list = TabList::new();
    let tab = open(&mut list, pane(10, "a", None, None));
    assert_eq!(list.bell(tab, 1, Some(0), true), BellMarks { tab: false, window: false });
    assert_eq!(list.bell(tab, 1, Some(0), false), BellMarks { tab: true, window: true });
    assert_eq!(list.bell(tab, 2, Some(0), true), BellMarks { tab: true, window: false });
    assert_eq!(list.bell(tab, 1, None, true), BellMarks { tab: true, window: false });
    assert_eq!(front_changed(true, true), FrontChange { clear_bell: true, has_bell: false });
    assert_eq!(front_changed(false, true), FrontChange { clear_bell: false, has_bell: true });
}

#[test]
fn titles_follow_the_active_pane_until_they_are_locked() {
    let mut list = TabList::new();
    let tab = open(&mut list, pane(10, "a", None, None));
    list.split_pane(tab, 1, Ok((2, layout(&[1, 2], 2, None))), pane(11, "b", None, None)).unwrap();
    assert_eq!(
        list.title_changed(tab, 2, "vim", Some(0)),
        TitleUpdate::Tab { window: true }
    );
    assert_eq!(list.get(0).unwrap().title, "vim");
    assert_eq!(list.title_changed(tab, 1, "top", Some(0)), TitleUpdate::Pane);
    assert_eq!(list.get(0).unwrap().title, "vim");
    assert_eq!(list.activate_pane(0, Ok(layout(&[1, 2], 1, None))), Some(false));
    assert_eq!(list.get(0).unwrap().title, "top");
    assert_eq!(list.activate_pane(0, Err(PaneLayoutError::UnknownPane(9))), None);
    assert!(list.rename(tab, "mine"));
    assert_eq!(list.title_changed(tab, 1, "less", Some(0)), TitleUpdate::Ignored);
    assert_eq!(list.get(0).unwrap().title, "mine");
    assert!(list.set_color(tab, Some("#fff".to_string())));
    assert_eq!(list.get(0).unwrap().color.as_deref(), Some("#fff"));
    assert!(!list.rename(99, "x"));
    assert!(!list.set_color(99, None));
}

#[test]
fn templates_are_looked_for_pane_by_pane() {
    let mut list = TabList::new();
    let mut entry = pane(10, "a", None, None);
    entry.template_name = Some("Editor".to_string());
    open(&mut list, entry);
    let candidates = list.template_candidates();
    assert_eq!(candidates.len(), 1);
    assert_eq!(candidates[0].tab_index, 0);
    assert_eq!(candidates[0].pane_id, 1);
    assert_eq!(candidates[0].template_name.as_deref(), Some("Editor"));
}

fn query(title: &str) -> SessionQuery {
    SessionQuery { session_id: "s".to_string(), daemon_socket: None, title: title.to_string() }
}

#[test]
fn running_processes_are_named_before_closing() {
    let queries = vec![query("a"), query("b"), query("c"), query("d")];
    let statuses = vec![
        SessionStatus::Running("vim".to_string()),
        SessionStatus::Idle,
        SessionStatus::Unknown,
        SessionStatus::Running(String::new()),
    ];
    let text = |title: &str, what: &str| (title.to_string(), what.to_string());
    assert_eq!(
        running_sessions(&queries, &statuses),
        vec![
            text("a", "vim"),
            text("c", "process status could not be checked"),
            text("d", "a process"),
        ]
    );
    assert_eq!(
        unanswered(QueryFailure::TimedOut),
        vec![text("Terminal", "process status check timed out")]
    );
    assert_eq!(
        unanswered(QueryFailure::NotAsked),
        vec![text("Terminal", "process status could not be checked")]
    );
}

#[test]
fn closing_waits_for_the_answers() {
    assert_eq!(start_close(true, 2), CloseStep::Query);
    assert_eq!(start_close(false, 2), CloseStep::Close);
    assert_eq!(start_close(true, 0), CloseStep::Close);
    assert_eq!(continue_close(AnswerState::Received(0), 0), CloseStep::Close);
    assert_eq!(continue_close(AnswerState::Received(1), 0), CloseStep::Ask);
    assert_eq!(continue_close(AnswerState::Pending, QUERY_LIMIT - 1), CloseStep::Wait);
    assert_eq!(continue_close(AnswerState::Pending, QUERY_LIMIT), CloseStep::AskUnanswered);
    assert_eq!(continue_close(AnswerState::Gone, 0), CloseStep::AskUnanswered);
}

#[test]
fn pane_restore_prefers_complete_v5_topology() {
    let mut tab: TabUpgradeState<u8> = TabUpgradeState::new(1);
    tab.session_id = Some("legacy".into());
    tab.pane_layout = Some(layout(&[1, 2], 2, None));
    tab.panes = vec![
        PaneUpgradeState::new(Some("left".into())),
        PaneUpgradeState::new(Some("right".into())),
    ];

    match pane_restore_state(&tab) {
        PaneRestore::Complete(restored_layout, panes) => {
            assert_eq!(restored_layout.ids, vec![1, 2]);
            assert_eq!((restored_layout.active, restored_layout.zoomed), (2, None));
            assert_eq!(panes.len(), 2);
            assert_eq!(panes[0].session_id.as_deref(), Some("left"));
            assert_eq!(panes[1].session_id.as_deref(), Some("right"));
        }
        other => panic!("unexpected {other:?}"),
    }
}

#[test]
fn incomplete_v5_data_falls_back_to_legacy_summary() {
    let mut tab: TabUpgradeState<u8> = TabUpgradeState::new(1);
    tab.title = "shell".into();
    tab.session_id = Some("legacy".into());
    tab.pane_layout = Some(layout(&[1], 1, None));

    match pane_restore_state(&tab) {
        PaneRestore::Summary(pane) => {
            assert_eq!(pane.session_id.as_deref(), Some("legacy"));
            assert_eq!(pane.title, "shell");
        }
        other => panic!("unexpected {other:?}"),
    }
    tab.session_id = None;
    assert!(matches!(pane_restore_state(&tab), PaneRestore::Nothing));
}

#[test]
fn what_is_handed_over_is_restored() {
    let mut list = TabList::new();
    let mut entry = pane(10, "a", Some("s1"), None);
    entry.launch_context = Some(zsh());
    let tab = open(&mut list, entry);
    list.split_pane(
        tab,
        1,
        Ok((2, layout(&[1, 2], 2, None))),
        pane(11, "b", Some("s2"), Some("build")),
    )
    .unwrap();
    list.rename(tab, "mine");
    let cwds = vec![Some("/a".to_string()), None];
    let state = collect_tab(list.get(0).unwrap(), None, layout(&[1, 2], 2, None), cwds);
    assert_eq!(state.custom_title.as_deref(), Some("mine"));
    assert_eq!(state.session_id.as_deref(), Some("s2"));
    assert!(matches!(pane_restore_state(&state), PaneRestore::Complete(..)));
    assert_eq!(state.panes[0].cwd.as_deref(), Some("/a"));
    let handed = state.panes[0].launch_context.as_ref().unwrap();
    assert_eq!(handed.shell.as_deref(), Some("/bin/zsh"));
    assert_eq!(handed.env, vec![("LANG".to_string(), "C".to_string())]);
    assert!(state.panes[1].launch_context.is_none());
    assert_eq!(state.panes[1].remote_name.as_deref(), Some("build"));

    let TabUpgradeState { panes, title, custom_title, color, .. } = state;
    let mut entries = Vec::new();
    for (index, handed) in panes.into_iter().enumerate() {
        let session = reconnected_session(&handed, format!("s{}", index + 1), None);
        entries.push((index as u64 + 1, restored_pane(handed, session, 20, None)));
    }
    let mut summary: TabUpgradeState<u8> = TabUpgradeState::new(7);
    summary.title = title;
    summary.custom_title = custom_title;
    summary.color = color;
    let mut successor = TabList::new();
    let restored =
        restore_tab(&mut successor, summary, layout(&[1, 2], 2, None), entries).unwrap();
    let tab: &TabEntry<u8> = successor.get(0).unwrap();
    assert_eq!(tab.id, restored);
    assert_eq!(tab.title, "mine");
    assert!(tab.title_locked);
    assert_eq!(tab.panes.get(1).unwrap().session_id.as_deref(), Some("s1"));
    let restored = tab.panes.get(1).unwrap().launch_context.as_ref().unwrap();
    assert_eq!(restored.term.as_deref(), Some("xterm"));
    assert_eq!(tab.panes.active().remote_name.as_deref(), Some("build"));

    let incomplete: TabUpgradeState<u8> = TabUpgradeState::new(8);
    let entries = vec![(1, pane(1, "x", None, None))];
    assert!(restore_tab(&mut successor, incomplete, layout(&[1, 2], 2, None), entries).is_none());
    assert_eq!(successor.len(), 1);
}

#[test]
fn restored_panes_take_the_best_title_and_socket() {
    let mut handed: PaneUpgradeState<u8> = PaneUpgradeState::new(Some("s".to_string()));
    handed.daemon_socket = Some("/old".to_string());
    let session = ReconnectedSession {
        session_id: "s".to_string(),
        socket_path: Some("/new".to_string()),
        title: "shell".to_string(),
        custom_title: String::new(),
    };
    let entry = restored_pane(handed, session, 5, Some(3));
    assert_eq!(entry.native_ssh, Some(3));
    assert_eq!(entry.title, "shell");
    assert_eq!(entry.daemon_socket.as_deref(), Some("/new"));
    assert_eq!(entry.session_id.as_deref(), Some("s"));
}

#[test]
fn restoring_windows_skips_what_is_gone() {
    assert_eq!(restore_route(true, false, true), RestoreRoute::Fail);
    assert_eq!(restore_route(true, true, true), RestoreRoute::Remote);
    assert_eq!(restore_route(false, false, true), RestoreRoute::Socket);
    assert_eq!(restore_route(false, false, false), RestoreRoute::Local);
    assert_eq!(restored_active_tab(&vec![0, 2, 3], 2), 1);
    assert_eq!(restored_active_tab(&vec![0, 2, 3], 1), 0);
    let geometry = WindowGeometry { width: 800, height: 0, maximized: true, fullscreen: false };
    assert_eq!(window_restore(&geometry, 0), WindowRestore::Skip);
    assert_eq!(
        window_restore(&geometry, 1),
        WindowRestore::Present { size: None, maximized: true, fullscreen: false }
    );
    let geometry = WindowGeometry { height: 600, ..geometry };
    assert_eq!(
        window_restore(&geometry, 1),
        WindowRestore::Present { size: Some((800, 600)), maximized: true, fullscreen: false }
    );
}

#[test]
fn a_switched_page_names_the_window() {
    let mut list = TabList::new();
    open(&mut list, pane(10, "a", None, None));
    let second = open(&mut list, pane(11, "b", None, None));
    assert_eq!(list.page_switched(1), Some(("b".to_string(), second)));
    assert_eq!(list.page_switched(2), None);
}

fn shell_config() -> ShellConfig {
    ShellConfig { default_shell: Some("/usr/bin/fish".to_string()), shell_args: vec!["-l".to_string()] }
}

#[test]
fn a_split_runs_where_its_pane_does() {
    let mut list = TabList::new();
    let mut entry = pane(10, "a", Some("s1"), None);
    entry.native_ssh = Some(7);
    let local = open(&mut list, entry);
    let mut entry = pane(11, "b", Some("s2"), Some("box"));
    entry.native_ssh = Some(8);
    entry.daemon_socket = Some("/tmp/box.sock".to_string());
    let remote = open(&mut list, entry);
    open(&mut list, pane(12, "c", Some("s3"), Some("lost")));
    let config = shell_config();
    let plan = |page: Option<u32>, managed: bool| {
        plan_split(
            &list,
            page,
            managed,
            &config,
            &None,
            "/run/ctermd.sock",
            Some("/src".to_string()),
        )
    };

    let here = plan(Some(0), false).unwrap();
    assert_eq!((here.tab_id, here.target), (local, 1));
    assert_eq!(here.title, "fish");
    assert_eq!(here.options.shell.as_deref(), Some("/usr/bin/fish"));
    assert_eq!(here.options.args, vec!["-l".to_string()]);
    assert_eq!(here.options.cwd.as_deref(), Some("/src"));
    assert_eq!(here.options.ssh, Some(7));
    assert_eq!(here.daemon_socket, None);

    let there = plan(Some(1), false).unwrap();
    assert_eq!(there.tab_id, remote);
    assert_eq!(there.title, "Terminal");
    assert_eq!(there.options.shell, None);
    assert_eq!(there.options.ssh, None);
    assert_eq!(there.daemon_socket.as_deref(), Some("/tmp/box.sock"));
    assert_eq!(there.remote_name.as_deref(), Some("box"));

    assert!(plan(Some(2), false).is_none());
    assert!(plan(Some(3), false).is_none());
    assert!(plan(None, false).is_none());
    assert!(plan(Some(0), true).is_none());

    assert_eq!(split_entry(here, 40, "s9".to_string(), None).native_ssh, Some(7));
    let entry = split_entry(there, 40, "s9".to_string(), None);
    assert_eq!(entry.daemon_socket.as_deref(), Some("/tmp/box.sock"));
    assert_eq!(entry.session_id.as_deref(), Some("s9"));
    assert!(!entry.title_locked && !entry.keep_open);
    let moved = Some("/tmp/new.sock".to_string());
    let entry = split_entry(plan(Some(1), false).unwrap(), 40, "s9".to_string(), moved);
    assert_eq!(entry.daemon_socket.as_deref(), Some("/tmp/new.sock"));
}

#[test]
fn a_split_starts_as_its_pane_did() {
    let mut list = TabList::new();
    let mut entry = pane(10, "a", Some("s1"), None);
    entry.launch_context = Some(zsh());
    open(&mut list, entry);
    let config = shell_config();
    let plan = |list: &TabList<u8>, page: u32| {
        plan_split(
            list,
            Some(page),
            false,
            &config,
            &None,
            "/run/ctermd.sock",
            Some("/src".to_string()),
        )
        .unwrap()
    };
    let first = plan(&list, 0);
    assert_eq!(first.title, "fish");
    assert_eq!(first.options.shell.as_deref(), Some("/bin/zsh"));
    assert_eq!(first.options.args, ["-i"]);
    assert_eq!(first.options.ssh, Some(9));
    assert_eq!(first.options.env, vec![("LANG".to_string(), "C".to_string())]);
    assert_eq!(first.options.term.as_deref(), Some("xterm"));
    assert_eq!(first.options.cwd.as_deref(), Some("/src"));

    let beside = split_entry(first, 40, "s2".to_string(), None);
    open(&mut list, beside);
    let second = plan(&list, 1);
    assert_eq!(second.options.shell.as_deref(), Some("/bin/zsh"));
    assert_eq!(second.options.ssh, Some(9));
    assert_eq!(second.options.env, vec![("LANG".to_string(), "C".to_string())]);
}

#[test]
fn a_new_tab_records_how_it_was_started() {
    let options = docker_tab_options::<u8>("docker", &vec!["exec".to_string()]);
    let request = TabRequest {
        title: "Docker: box".to_string(),
        title_locked: true,
        template_name: None,
        keep_open: true,
        remote_name: Some("far".to_string()),
    };
    let socket = Some("/tmp/far.sock".to_string());
    let entry = started_entry(request, options, 41, "s3".to_string(), socket);
    let context = entry.launch_context.as_ref().unwrap();
    assert_eq!(context.shell.as_deref(), Some("docker"));
    assert_eq!(context.args, ["exec"]);
    assert_eq!(entry.title, "Docker: box");
    assert!(entry.title_locked && entry.keep_open);
    assert_eq!(entry.daemon_socket.as_deref(), Some("/tmp/far.sock"));
    assert_eq!(entry.remote_name.as_deref(), Some("far"));
    assert!(attached_entry::<u8>(5, "s1".to_string()).launch_context.is_none());
}

#[test]
fn new_tabs_are_kept_by_their_daemon() {
    let entry: PaneEntry<u8> = attached_entry(5, "s1".to_string());
    assert_eq!(entry.title, "Terminal");
    assert_eq!(entry.session_id.as_deref(), Some("s1"));
    let blue = Some("#00f".to_string());
    assert_eq!(kept_by_daemon("work", &blue), (blue.clone(), Some("work".to_string())));
    assert_eq!(kept_by_daemon("", &None), (None, None));
}
