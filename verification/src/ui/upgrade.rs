//! Handing the windows of a running program over to its successor, which finds
//! the sessions again.

use crate::text::{copy_optional, optional_text};
use crate::ui::options::{
    copy_launch, found_tab_title, optional_launch, restored_pane_title, restored_tab_title, same_launch,
    LaunchContext, LaunchView,
};
use crate::ui::pane::{collected, LayoutSummary, PaneSet};
use crate::ui::tabs::{PaneEntry, TabEntry, TabList};
use vstd::prelude::*;

verus! {

/// What is handed over of a pane.
#[derive(Debug)]
pub struct PaneUpgradeState<S> {
    pub session_id: Option<String>,
    pub title: String,
    pub title_locked: bool,
    pub template_name: Option<String>,
    pub cwd: Option<String>,
    pub keep_open: bool,
    pub daemon_socket: Option<String>,
    pub remote_name: Option<String>,
    pub launch_context: Option<LaunchContext<S>>,
}

/// The same as a value.
pub ghost struct PaneUpgradeView<S> {
    pub session_id: Option<Seq<char>>,
    pub title: Seq<char>,
    pub title_locked: bool,
    pub template_name: Option<Seq<char>>,
    pub cwd: Option<Seq<char>>,
    pub keep_open: bool,
    pub daemon_socket: Option<Seq<char>>,
    pub remote_name: Option<Seq<char>>,
    pub launch_context: Option<LaunchView<S>>,
}

impl<S> View for PaneUpgradeState<S> {
    type V = PaneUpgradeView<S>;

    open spec fn view(&self) -> PaneUpgradeView<S> {
        PaneUpgradeView {
            session_id: optional_text(self.session_id),
            title: self.title@,
            title_locked: self.title_locked,
            template_name: optional_text(self.template_name),
            cwd: optional_text(self.cwd),
            keep_open: self.keep_open,
            daemon_socket: optional_text(self.daemon_socket),
            remote_name: optional_text(self.remote_name),
            launch_context: optional_launch(self.launch_context),
        }
    }
}

impl<S> PaneUpgradeState<S> {
    /// A pane of which only the session is known.
    pub fn new(session_id: Option<String>) -> (state: Self)
        ensures
            state@ == bare_pane::<S>(optional_text(session_id)),
    {
        PaneUpgradeState {
            session_id,
            title: String::new(),
            title_locked: false,
            template_name: None,
            cwd: None,
            keep_open: false,
            daemon_socket: None,
            remote_name: None,
            launch_context: None,
        }
    }
}

/// A pane of which only the session is known.
pub open spec fn bare_pane<S>(session_id: Option<Seq<char>>) -> PaneUpgradeView<S> {
    PaneUpgradeView {
        session_id,
        title: Seq::empty(),
        title_locked: false,
        template_name: None,
        cwd: None,
        keep_open: false,
        daemon_socket: None,
        remote_name: None,
        launch_context: None,
    }
}

/// What is handed over of a tab. An older program hands over no layout and no
/// panes, but a summary of the only one.
#[derive(Debug)]
pub struct TabUpgradeState<S> {
    pub id: u64,
    pub title: String,
    pub custom_title: Option<String>,
    pub color: Option<String>,
    pub session_id: Option<String>,
    pub template_name: Option<String>,
    pub keep_open: bool,
    pub cwd: Option<String>,
    pub pane_layout: Option<LayoutSummary>,
    pub panes: Vec<PaneUpgradeState<S>>,
}

impl<S> TabUpgradeState<S> {
    /// A tab of which only the identity is known.
    pub fn new(id: u64) -> (state: Self)
        ensures
            state.id == id,
            state.title@ == Seq::<char>::empty(),
            state.custom_title is None,
            state.color is None,
            state.session_id is None,
            state.template_name is None,
            !state.keep_open,
            state.cwd is None,
            state.pane_layout is None,
            state.panes@ == Seq::<PaneUpgradeState<S>>::empty(),
    {
        TabUpgradeState {
            id,
            title: String::new(),
            custom_title: None,
            color: None,
            session_id: None,
            template_name: None,
            keep_open: false,
            cwd: None,
            pane_layout: None,
            panes: Vec::new(),
        }
    }
}

/// The layout and the panes are there and fit each other, and every pane has a
/// session.
pub open spec fn is_complete<S>(tab: TabUpgradeState<S>) -> bool {
    match tab.pane_layout {
        Some(layout) => {
            &&& tab.panes@.len() > 0
            &&& layout.ids@.len() == tab.panes@.len()
            &&& forall|i: int| 0 <= i < tab.panes@.len() ==> (#[trigger] tab.panes@[i]).session_id
                is Some
        },
        None => false,
    }
}

/// The only pane of a tab, by its summary.
pub open spec fn summary_pane<S>(tab: TabUpgradeState<S>) -> PaneUpgradeView<S> {
    PaneUpgradeView {
        session_id: optional_text(tab.session_id),
        title: tab.title@,
        title_locked: tab.custom_title is Some,
        template_name: optional_text(tab.template_name),
        cwd: optional_text(tab.cwd),
        keep_open: tab.keep_open,
        daemon_socket: None,
        remote_name: None,
        launch_context: None,
    }
}

/// What a tab is restored from.
#[derive(Debug)]
pub enum PaneRestore<S> {
    /// Its layout and its panes, as they were handed over.
    Complete(LayoutSummary, Vec<PaneUpgradeState<S>>),
    /// A single pane.
    Summary(PaneUpgradeState<S>),
    /// It has no session.
    Nothing,
}

/// Whether what is known of a pane is a copy of something else.
pub open spec fn same_pane<S: Clone>(pane: PaneUpgradeView<S>, copy: PaneUpgradeView<S>) -> bool {
    &&& copy == (PaneUpgradeView { launch_context: copy.launch_context, ..pane })
    &&& same_launch(pane.launch_context, copy.launch_context)
}

/// A copy of what is known of a pane.
fn copy_pane<S: Clone>(pane: &PaneUpgradeState<S>) -> (copy: PaneUpgradeState<S>)
    ensures
        same_pane(pane@, copy@),
{
    PaneUpgradeState {
        session_id: copy_optional(&pane.session_id),
        title: pane.title.as_str().to_owned(),
        title_locked: pane.title_locked,
        template_name: copy_optional(&pane.template_name),
        cwd: copy_optional(&pane.cwd),
        keep_open: pane.keep_open,
        daemon_socket: copy_optional(&pane.daemon_socket),
        remote_name: copy_optional(&pane.remote_name),
        launch_context: copy_launch(&pane.launch_context),
    }
}

/// What a tab is restored from: its layout and panes where they are complete,
/// and otherwise the summary.
pub fn pane_restore_state<S: Clone>(tab: &TabUpgradeState<S>) -> (restore: PaneRestore<S>)
    ensures
        match restore {
            PaneRestore::Complete(layout, panes) => {
                &&& is_complete(*tab)
                &&& layout.ids@ == tab.pane_layout->0.ids@
                &&& layout.active == tab.pane_layout->0.active
                &&& layout.zoomed == tab.pane_layout->0.zoomed
                &&& panes@.len() == tab.panes@.len()
                &&& forall|i: int|
                    0 <= i < panes@.len() ==> same_pane(tab.panes@[i]@, (#[trigger] panes@[i])@)
            },
            PaneRestore::Summary(pane) => !is_complete(*tab) && tab.session_id is Some && pane@
                == summary_pane(*tab),
            PaneRestore::Nothing => !is_complete(*tab) && tab.session_id is None,
        },
{
    if let Some(layout) = &tab.pane_layout {
        if tab.panes.len() > 0 && layout.ids.len() == tab.panes.len() {
            let mut index: usize = 0;
            let mut every = true;
            let mut panes: Vec<PaneUpgradeState<S>> = Vec::new();
            while index < tab.panes.len()
                invariant
                    index <= tab.panes@.len(),
                    every == (forall|i: int|
                        0 <= i < index ==> (#[trigger] tab.panes@[i]).session_id is Some),
                    panes@.len() == index,
                    forall|i: int|
                        0 <= i < index ==> same_pane(tab.panes@[i]@, (#[trigger] panes@[i])@),
                decreases tab.panes@.len() - index,
            {
                if tab.panes[index].session_id.is_none() {
                    every = false;
                }
                panes.push(copy_pane(&tab.panes[index]));
                index += 1;
            }
            if every {
                return PaneRestore::Complete(layout.copy(), panes);
            }
        }
    }
    if tab.session_id.is_none() {
        return PaneRestore::Nothing;
    }
    PaneRestore::Summary(
        PaneUpgradeState {
            session_id: copy_optional(&tab.session_id),
            title: tab.title.as_str().to_owned(),
            title_locked: tab.custom_title.is_some(),
            template_name: copy_optional(&tab.template_name),
            cwd: copy_optional(&tab.cwd),
            keep_open: tab.keep_open,
            daemon_socket: None,
            remote_name: None,
            launch_context: None,
        },
    )
}

/// What is handed over of a pane. Where its process is, only its terminal knows.
pub open spec fn handed_over<S>(pane: PaneEntry<S>, cwd: Option<String>) -> PaneUpgradeView<S> {
    PaneUpgradeView {
        session_id: optional_text(pane.session_id),
        title: pane.title@,
        title_locked: pane.title_locked,
        template_name: optional_text(pane.template_name),
        cwd: optional_text(cwd),
        keep_open: pane.keep_open,
        daemon_socket: optional_text(pane.daemon_socket),
        remote_name: optional_text(pane.remote_name),
        launch_context: optional_launch(pane.launch_context),
    }
}

/// Collect what is handed over of a tab. Its panes come in the order of the
/// layout, and so do the directories of their processes. The layout took over the
/// noted ratios before.
pub fn collect_tab<S: Clone>(
    tab: &TabEntry<S>,
    cwd: Option<String>,
    layout: LayoutSummary,
    cwds: Vec<Option<String>>,
) -> (state: TabUpgradeState<S>)
    requires
        tab.valid(),
        tab.panes.settled(),
        layout.ids@ == tab.panes.order(),
        cwds@.len() == tab.panes.order().len(),
    ensures
        state.id == tab.id,
        state.title@ == tab.title@,
        optional_text(state.custom_title) == (if tab.title_locked {
            Some(tab.title@)
        } else {
            None
        }),
        optional_text(state.color) == optional_text(tab.color),
        optional_text(state.session_id) == optional_text(tab.active_entry().session_id),
        optional_text(state.cwd) == optional_text(cwd),
        state.template_name is None,
        !state.keep_open,
        state.pane_layout == Some(layout),
        state.panes@.len() == tab.panes.order().len(),
        forall|i: int|
            0 <= i < state.panes@.len() ==> same_pane(
                handed_over(tab.panes@[tab.panes.order()[i]], cwds@[i]),
                (#[trigger] state.panes@[i])@,
            ),
{
    let ghost given = cwds@;
    let mut cwds = cwds;
    let mut panes: Vec<PaneUpgradeState<S>> = Vec::new();
    proof {
        tab.panes.lemma_mirrors();
        assert(given.skip(0) =~= given);
    }
    while cwds.len() > 0
        invariant
            tab.valid(),
            layout.ids@ == tab.panes.order(),
            given.len() == tab.panes.order().len(),
            panes@.len() + cwds@.len() == given.len(),
            cwds@ == given.skip(panes@.len() as int),
            forall|id: u64| #[trigger]
                tab.panes@.dom().contains(id) <==> tab.panes.order().contains(id),
            forall|i: int|
                0 <= i < panes@.len() ==> same_pane(
                    handed_over(tab.panes@[tab.panes.order()[i]], given[i]),
                    (#[trigger] panes@[i])@,
                ),
        decreases cwds@.len(),
    {
        let index: usize = panes.len();
        let id: u64 = layout.ids[index];
        proof {
            assert(tab.panes.order()[index as int] == id);
            assert(tab.panes.order().contains(id));
        }
        let pane_cwd = cwds.remove(0);
        proof {
            assert(pane_cwd == given[index as int]);
            assert(cwds@ =~= given.skip(index + 1));
        }
        if let Some(pane) = tab.panes.get(id) {
            panes.push(
                PaneUpgradeState {
                    session_id: copy_optional(&pane.session_id),
                    title: pane.title.as_str().to_owned(),
                    title_locked: pane.title_locked,
                    template_name: copy_optional(&pane.template_name),
                    cwd: pane_cwd,
                    keep_open: pane.keep_open,
                    daemon_socket: copy_optional(&pane.daemon_socket),
                    remote_name: copy_optional(&pane.remote_name),
                    launch_context: copy_launch(&pane.launch_context),
                },
            );
        }
    }
    let custom_title = if tab.title_locked {
        Some(tab.title.as_str().to_owned())
    } else {
        None
    };
    TabUpgradeState {
        id: tab.id,
        title: tab.title.as_str().to_owned(),
        custom_title,
        color: copy_optional(&tab.color),
        session_id: copy_optional(&tab.panes.active().session_id),
        template_name: None,
        keep_open: false,
        cwd,
        pane_layout: Some(layout),
        panes,
    }
}

/// What is handed over of a tab is complete wherever each of its panes has a
/// session, so its successor restores it pane by pane.
pub proof fn law_collected_tabs_are_complete<S: Clone>(
    tab: TabEntry<S>,
    state: TabUpgradeState<S>,
    layout: LayoutSummary,
    cwds: Seq<Option<String>>,
)
    requires
        tab.valid(),
        layout.ids@ == tab.panes.order(),
        state.pane_layout == Some(layout),
        state.panes@.len() == tab.panes.order().len(),
        cwds.len() == state.panes@.len(),
        forall|i: int|
            0 <= i < state.panes@.len() ==> same_pane(
                handed_over(tab.panes@[tab.panes.order()[i]], cwds[i]),
                (#[trigger] state.panes@[i])@,
            ),
        forall|i: int|
            0 <= i < tab.panes.order().len() ==> tab.panes@[#[trigger] tab.panes.order()[i]].session_id
                is Some,
    ensures
        is_complete(state),
{
    tab.panes.lemma_mirrors();
    assert(tab.panes.order().len() > 0);
    assert forall|i: int| 0 <= i < state.panes@.len() implies (#[trigger] state.panes@[i]).session_id
        is Some by {
        let pane = tab.panes@[tab.panes.order()[i]];
        assert(same_pane(handed_over(pane, cwds[i]), state.panes@[i]@));
        assert(optional_text(state.panes@[i].session_id) == optional_text(pane.session_id));
    }
}

/// How a pane's session is found again.
#[derive(Clone, Copy, Debug, PartialEq, Eq, Structural)]
pub enum RestoreRoute {
    /// Its remote is no longer configured.
    Fail,
    Remote,
    Socket,
    Local,
}

/// How a pane's session is found again.
pub open spec fn way_back(has_remote_name: bool, remote_configured: bool, has_socket: bool) -> RestoreRoute {
    if has_remote_name {
        if remote_configured {
            RestoreRoute::Remote
        } else {
            RestoreRoute::Fail
        }
    } else if has_socket {
        RestoreRoute::Socket
    } else {
        RestoreRoute::Local
    }
}

/// A session on a remote is found through that remote or not at all; any other at its
/// socket, and one without a socket at the local daemon.
pub proof fn law_sessions_are_found_where_they_run(
    has_remote_name: bool,
    remote_configured: bool,
    has_socket: bool,
)
    ensures
        way_back(has_remote_name, remote_configured, has_socket) == RestoreRoute::Remote
            <==> has_remote_name && remote_configured,
        way_back(has_remote_name, remote_configured, has_socket) == RestoreRoute::Fail
            <==> has_remote_name && !remote_configured,
        way_back(has_remote_name, remote_configured, has_socket) == RestoreRoute::Socket
            <==> !has_remote_name && has_socket,
        way_back(has_remote_name, remote_configured, has_socket) == RestoreRoute::Local
            <==> !has_remote_name && !has_socket,
{
}

/// How a pane's session is found again: through its remote, then at its socket,
/// then at the local daemon.
pub fn restore_route(has_remote_name: bool, remote_configured: bool, has_socket: bool) -> (route:
    RestoreRoute)
    ensures
        route == way_back(has_remote_name, remote_configured, has_socket),
{
    if has_remote_name {
        if remote_configured {
            RestoreRoute::Remote
        } else {
            RestoreRoute::Fail
        }
    } else if has_socket {
        RestoreRoute::Socket
    } else {
        RestoreRoute::Local
    }
}

/// A session that was found again.
#[derive(Debug)]
pub struct ReconnectedSession {
    pub session_id: String,
    pub socket_path: Option<String>,
    pub title: String,
    pub custom_title: String,
}

/// A session that was found again is called what its pane is called.
pub open spec fn titled_by<S>(session: ReconnectedSession, pane: PaneUpgradeView<S>) -> bool {
    &&& session.title@ == pane.title
    &&& session.custom_title@ == (if pane.title_locked {
        pane.title
    } else {
        Seq::<char>::empty()
    })
}

/// What is known of a session that was found again for a pane: the pane's
/// title, which is the user's where the pane says so.
pub fn reconnected_session<S>(
    pane: &PaneUpgradeState<S>,
    session_id: String,
    socket_path: Option<String>,
) -> (session: ReconnectedSession)
    ensures
        session.session_id@ == session_id@,
        session.socket_path == socket_path,
        titled_by(session, pane@),
{
    let custom_title = if pane.title_locked {
        pane.title.as_str().to_owned()
    } else {
        String::new()
    };
    ReconnectedSession {
        session_id,
        socket_path,
        title: pane.title.as_str().to_owned(),
        custom_title,
    }
}

/// The title that a restored pane gets.
pub open spec fn pane_title(handed: Seq<char>, custom: Seq<char>, title: Seq<char>) -> Seq<char> {
    if handed.len() > 0 {
        handed
    } else if custom.len() > 0 {
        custom
    } else if title.len() > 0 {
        title
    } else {
        "Terminal"@
    }
}

/// A pane is the one that was handed over, with the session that was found again for it.
pub open spec fn is_restored<S>(
    entry: PaneEntry<S>,
    pane: PaneUpgradeState<S>,
    session: ReconnectedSession,
) -> bool {
    &&& entry.title@ == pane_title(pane.title@, session.custom_title@, session.title@)
    &&& entry.title_locked == pane.title_locked
    &&& entry.template_name == pane.template_name
    &&& entry.keep_open == pane.keep_open
    &&& entry.session_id == Some(session.session_id)
    &&& entry.daemon_socket == (if session.socket_path is Some {
        session.socket_path
    } else {
        pane.daemon_socket
    })
    &&& entry.remote_name == pane.remote_name
    &&& entry.launch_context == pane.launch_context
}

/// A pane that is handed over and restored with its own session is the same as before:
/// title and whether the user set it, template, remote, socket, whether it stays open and
/// how it was started.
pub proof fn law_panes_come_back_as_they_were<S: Clone>(
    before: PaneEntry<S>,
    cwd: Option<String>,
    handed: PaneUpgradeState<S>,
    session: ReconnectedSession,
    after: PaneEntry<S>,
)
    requires
        same_pane(handed_over(before, cwd), handed@),
        titled_by(session, handed@),
        session.socket_path is None,
        optional_text(before.session_id) == Some(session.session_id@),
        is_restored(after, handed, session),
        before.title@.len() > 0,
    ensures
        after.title@ == before.title@,
        after.title_locked == before.title_locked,
        after.keep_open == before.keep_open,
        optional_text(after.session_id) == optional_text(before.session_id),
        optional_text(after.template_name) == optional_text(before.template_name),
        optional_text(after.remote_name) == optional_text(before.remote_name),
        optional_text(after.daemon_socket) == optional_text(before.daemon_socket),
        same_launch(optional_launch(before.launch_context), optional_launch(after.launch_context)),
        optional_text(handed.cwd) == optional_text(cwd),
{
}

/// The title that was handed over counts first, then the user's, then the session's; a
/// socket that the session came with counts before the one that was handed over.
pub proof fn law_handed_over_titles_count_first<S>(
    handed: Seq<char>,
    custom: Seq<char>,
    title: Seq<char>,
    entry: PaneEntry<S>,
    pane: PaneUpgradeState<S>,
    session: ReconnectedSession,
)
    ensures
        handed.len() > 0 ==> pane_title(handed, custom, title) == handed,
        custom.len() > 0 ==> pane_title(Seq::empty(), custom, title) == custom,
        title.len() > 0 ==> pane_title(Seq::empty(), Seq::empty(), title) == title,
        pane_title(Seq::empty(), Seq::empty(), Seq::empty()) == "Terminal"@,
        is_restored(entry, pane, session) && session.socket_path is Some ==> entry.daemon_socket
            == session.socket_path,
        is_restored(entry, pane, session) ==> entry.session_id == Some(session.session_id),
{
}

/// A pane that was handed over, with the session that was found again for it. How its
/// host is reached, its template says.
pub fn restored_pane<S>(
    pane: PaneUpgradeState<S>,
    session: ReconnectedSession,
    terminal: u64,
    native_ssh: Option<S>,
) -> (entry: PaneEntry<S>)
    ensures
        entry.terminal == terminal,
        is_restored(entry, pane, session),
        entry.native_ssh == native_ssh,
{
    let title = restored_pane_title(
        pane.title.as_str(),
        session.custom_title.as_str(),
        session.title.as_str(),
    );
    let daemon_socket = match session.socket_path {
        Some(path) => Some(path),
        None => pane.daemon_socket,
    };
    PaneEntry {
        terminal,
        title,
        title_locked: pane.title_locked,
        template_name: pane.template_name,
        keep_open: pane.keep_open,
        session_id: Some(session.session_id),
        daemon_socket,
        remote_name: pane.remote_name,
        launch_context: pane.launch_context,
        native_ssh,
    }
}

/// Restore a tab with its panes behind the others. That takes exactly one
/// session for each pane of the layout; otherwise nothing is restored.
pub fn restore_tab<S>(
    list: &mut TabList<S>,
    tab: TabUpgradeState<S>,
    layout: LayoutSummary,
    entries: Vec<(u64, PaneEntry<S>)>,
) -> (id: Option<u64>)
    requires
        old(list).valid(),
        old(list).next() < u64::MAX,
        layout.valid(),
    ensures
        final(list).valid(),
        id is Some <==> (forall|pane: u64| #[trigger]
            collected(entries@).dom().contains(pane) <==> layout.ids@.contains(pane)),
        match id {
            Some(id) => {
                let restored = final(list).tabs().last();
                &&& id == old(list).next()
                &&& final(list).next() == old(list).next() + 1
                &&& final(list).tabs() == old(list).tabs().push(restored)
                &&& restored.id == id
                &&& restored.title_locked == (tab.custom_title is Some)
                &&& restored.color == tab.color
                &&& restored.panes@ == collected(entries@)
                &&& restored.panes.order() == layout.ids@
                &&& restored.panes.active_pane() == layout.active
                &&& restored.panes.zoomed_pane() == layout.zoomed
                &&& restored.title@ == found_tab_title(
                    tab.title@,
                    tab.custom_title is Some,
                    collected(entries@)[layout.active].title@,
                )
            },
            None => *final(list) == *old(list),
        },
{
    match PaneSet::from_layout(layout, entries) {
        Ok(panes) => {
            let title = restored_tab_title(
                tab.title.as_str(),
                tab.custom_title.is_some(),
                panes.active().title.as_str(),
            );
            let id = list.open_tab(title, tab.custom_title.is_some(), tab.color, panes);
            Some(id)
        },
        Err(_) => None,
    }
}

/// The place of the tab that was shown, among those that were restored: the
/// places that the restored tabs had before are given in their order.
pub open spec fn restored_place(original: Seq<usize>, shown: usize, count: int) -> int
    decreases count,
{
    if count <= 0 {
        0
    } else if original[count - 1] == shown {
        count - 1
    } else {
        restored_place(original, shown, count - 1)
    }
}

/// The place of the tab to show: that of the one that was shown, or the first
/// where that one was not restored.
pub fn restored_active_tab(original: &Vec<usize>, shown: usize) -> (place: usize)
    ensures
        place == restored_place(original@, shown, original@.len() as int),
{
    let mut index: usize = original.len();
    while index > 0
        invariant
            index <= original@.len(),
            restored_place(original@, shown, original@.len() as int) == restored_place(
                original@,
                shown,
                index as int,
            ),
        decreases index,
    {
        if original[index - 1] == shown {
            return index - 1;
        }
        index -= 1;
    }
    0
}

/// A window that was handed over.
#[derive(Clone, Copy, Debug, PartialEq, Eq, Structural)]
pub struct WindowGeometry {
    pub width: i32,
    pub height: i32,
    pub maximized: bool,
    pub fullscreen: bool,
}

/// What is done about a window that was handed over.
#[derive(Clone, Copy, Debug, PartialEq, Eq)]
pub enum WindowRestore {
    /// None of its sessions was found again.
    Skip,
    /// Show it, with its size where that is known.
    Present { size: Option<(i32, i32)>, maximized: bool, fullscreen: bool },
}

/// What is done about a window that was handed over.
pub open spec fn presented(geometry: WindowGeometry, restored_tabs: usize) -> WindowRestore {
    if restored_tabs == 0 {
        WindowRestore::Skip
    } else {
        WindowRestore::Present {
            size: if geometry.width > 0 && geometry.height > 0 {
                Some((geometry.width, geometry.height))
            } else {
                None
            },
            maximized: geometry.maximized,
            fullscreen: geometry.fullscreen,
        }
    }
}

/// A window comes back with its width and height, maximized or filling the screen as it
/// was, exactly if one of its tabs came back; a size that is not one is left to the
/// desktop.
pub proof fn law_windows_come_back_as_they_were(geometry: WindowGeometry, restored_tabs: usize)
    ensures
        presented(geometry, restored_tabs) == WindowRestore::Skip <==> restored_tabs == 0,
        presented(geometry, restored_tabs) matches WindowRestore::Present {
            size,
            maximized,
            fullscreen,
        } ==> {
            &&& maximized == geometry.maximized
            &&& fullscreen == geometry.fullscreen
            &&& size is Some <==> geometry.width > 0 && geometry.height > 0
            &&& size matches Some((width, height)) ==> width == geometry.width && height
                == geometry.height
        },
{
}

pub fn window_restore(geometry: &WindowGeometry, restored_tabs: usize) -> (restore: WindowRestore)
    ensures
        restore == presented(*geometry, restored_tabs),
{
    if restored_tabs == 0 {
        return WindowRestore::Skip;
    }
    let size = if geometry.width > 0 && geometry.height > 0 {
        Some((geometry.width, geometry.height))
    } else {
        None
    };
    WindowRestore::Present {
        size,
        maximized: geometry.maximized,
        fullscreen: geometry.fullscreen,
    }
}

/// The tab that was shown is shown again: the last restored one that stood in its place,
/// and the first tab where it was not restored.
pub proof fn law_shown_tab_is_shown_again(original: Seq<usize>, shown: usize, count: int)
    requires
        0 <= count <= original.len(),
    ensures
        ({
            let place = restored_place(original, shown, count);
            &&& count > 0 ==> 0 <= place < count
            &&& (exists|i: int| 0 <= i < count && original[i] == shown) ==> original[place] == shown
                && forall|i: int| place < i < count ==> original[i] != shown
            &&& (forall|i: int| 0 <= i < count ==> original[i] != shown) ==> place == 0
        }),
    decreases count,
{
    if count > 0 && original[count - 1] != shown {
        law_shown_tab_is_shown_again(original, shown, count - 1);
    }
}

/// A tab is restored pane by pane exactly if its layout and its panes fit each other and
/// each pane has a session.
pub proof fn law_tabs_are_restored_whole_or_not<S>(tab: TabUpgradeState<S>, pane: int)
    ensures
        is_complete(tab) ==> tab.pane_layout is Some && tab.panes@.len() > 0
            && tab.pane_layout->0.ids@.len() == tab.panes@.len(),
        is_complete(tab) && 0 <= pane < tab.panes@.len() ==> tab.panes@[pane].session_id is Some,
        0 <= pane < tab.panes@.len() && tab.panes@[pane].session_id is None ==> !is_complete(tab),
        tab.pane_layout is None ==> !is_complete(tab),
        tab.panes@.len() == 0 ==> !is_complete(tab),
{
}

/// The summary of a tab is its only pane: its session, title, template and directory; the
/// title is locked where the user set one.
pub proof fn law_summaries_are_the_only_pane<S>(tab: TabUpgradeState<S>, session: Option<Seq<char>>)
    ensures
        ({
            let pane = summary_pane(tab);
            &&& pane.session_id == optional_text(tab.session_id)
            &&& pane.title == tab.title@
            &&& pane.title_locked <==> tab.custom_title is Some
            &&& pane.template_name == optional_text(tab.template_name)
            &&& pane.cwd == optional_text(tab.cwd)
            &&& pane.keep_open == tab.keep_open
            &&& pane.daemon_socket is None
            &&& pane.remote_name is None
            &&& pane.launch_context is None
        }),
        ({
            let bare = bare_pane::<S>(session);
            &&& bare.session_id == session
            &&& bare.title.len() == 0
            &&& !bare.title_locked
            &&& !bare.keep_open
            &&& bare.template_name is None
            &&& bare.cwd is None
            &&& bare.daemon_socket is None
            &&& bare.remote_name is None
            &&& bare.launch_context is None
        }),
{
}

} // verus!
