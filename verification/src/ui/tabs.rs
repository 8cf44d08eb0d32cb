//! The tabs of a window: which sessions they hold, what they are called, and
//! what is left when some of them close.

use crate::text::{copy_optional, is_optional_text, optional_text};
use crate::ui::options::{LaunchContext, TemplateCandidate};
use crate::ui::pane::{
    moved_ratios, noted, ratio_at, LayoutSummary, PaneBranch, PaneLayoutError, PaneSet,
};
use vstd::prelude::*;

verus! {

/// What a pane shows. `S` is how the host of a remote shell is reached.
pub struct PaneEntry<S> {
    /// The terminal, by a number that its window gave it.
    pub terminal: u64,
    pub title: String,
    /// The user set the title.
    pub title_locked: bool,
    pub template_name: Option<String>,
    /// The pane stays when its process exits.
    pub keep_open: bool,
    pub session_id: Option<String>,
    /// The socket of the session's daemon; none for the local daemon.
    pub daemon_socket: Option<String>,
    /// The configured remote that the session runs on.
    pub remote_name: Option<String>,
    /// How its session was started, where that is known; a pane that is split from
    /// this one is started alike.
    pub launch_context: Option<LaunchContext<S>>,
    /// How the host of its session is reached, where the daemon itself reaches one. It
    /// counts only where it is not known how the session was started.
    pub native_ssh: Option<S>,
}

/// A tab.
pub struct TabEntry<S> {
    pub id: u64,
    pub title: String,
    /// The user set the title.
    pub title_locked: bool,
    pub color: Option<String>,
    pub panes: PaneSet<PaneEntry<S>>,
}

/// A layout of the same panes, which took over the noted ratios before.
pub open spec fn keeps_panes<S>(layout: LayoutSummary, tab: TabEntry<S>) -> bool {
    &&& tab.panes.settled()
    &&& layout.valid()
    &&& forall|id: u64| #[trigger]
        layout.ids@.contains(id) <==> tab.panes.order().contains(id)
}

/// The title of a tab whose active pane changed: that of the pane, unless the
/// user set either.
pub open spec fn synced_title<S>(title: Seq<char>, locked: bool, pane: PaneEntry<S>) -> Seq<char> {
    if !locked && !pane.title_locked {
        pane.title@
    } else {
        title
    }
}

impl<S> TabEntry<S> {
    pub open spec fn valid(&self) -> bool {
        self.panes.mirrors_layout()
    }

    /// The pane that has the input.
    pub open spec fn active_entry(&self) -> PaneEntry<S> {
        self.panes@[self.panes.active_pane()]
    }

    /// Take over what the active pane is called.
    fn sync_active_pane(&mut self)
        requires
            old(self).valid(),
        ensures
            final(self).panes == old(self).panes,
            final(self).id == old(self).id,
            final(self).color == old(self).color,
            final(self).title_locked == old(self).title_locked,
            final(self).title@ == synced_title(
                old(self).title@,
                old(self).title_locked,
                old(self).active_entry(),
            ),
    {
        let pane = self.panes.active();
        if !self.title_locked && !pane.title_locked {
            let title = pane.title.as_str().to_owned();
            self.title = title;
        }
    }

    /// Take over that the layout made a pane the active one. Tells whether the
    /// panes have to be laid out anew, which they have where one was zoomed.
    /// Where the layout refused, nothing changes.
    pub fn activate_pane(&mut self, outcome: Result<LayoutSummary, PaneLayoutError>) -> (rebuild:
        Option<bool>)
        requires
            old(self).valid(),
            outcome matches Ok(layout) ==> keeps_panes(layout, *old(self)),
        ensures
            final(self).valid(),
            match outcome {
                Ok(layout) => {
                    &&& rebuild == Some(old(self).panes.zoomed_pane() is Some)
                    &&& final(self).id == old(self).id
                    &&& final(self).color == old(self).color
                    &&& final(self).title_locked == old(self).title_locked
                    &&& final(self).panes@ == old(self).panes@
                    &&& final(self).panes.same_notes(&old(self).panes)
                    &&& final(self).panes.order() == layout.ids@
                    &&& final(self).panes.active_pane() == layout.active
                    &&& final(self).panes.zoomed_pane() == layout.zoomed
                    &&& final(self).title@ == synced_title(
                        old(self).title@,
                        old(self).title_locked,
                        old(self).panes@[layout.active],
                    )
                },
                Err(_) => rebuild is None && *final(self) == *old(self),
            },
    {
        match outcome {
            Ok(layout) => {
                let rebuild = self.panes.is_zoomed();
                self.panes.rearrange(layout);
                self.sync_active_pane();
                Some(rebuild)
            },
            Err(_) => None,
        }
    }
}

/// What is asked of a session's daemon before the session is closed.
#[derive(Debug)]
pub struct SessionQuery {
    pub session_id: String,
    pub daemon_socket: Option<String>,
    pub title: String,
}

/// The same as a value.
pub ghost struct QueryView {
    pub session_id: Seq<char>,
    pub daemon_socket: Option<Seq<char>>,
    pub title: Seq<char>,
}

impl View for SessionQuery {
    type V = QueryView;

    open spec fn view(&self) -> QueryView {
        QueryView {
            session_id: self.session_id@,
            daemon_socket: optional_text(self.daemon_socket),
            title: self.title@,
        }
    }
}

/// The queries as values.
pub open spec fn query_views(queries: Seq<SessionQuery>) -> Seq<QueryView> {
    queries.map_values(|query: SessionQuery| query@)
}

/// What is asked about a pane: nothing where it has no session, nor, where
/// `named` is set, where the session has no name.
pub open spec fn pane_query<S>(pane: PaneEntry<S>, named: bool) -> Option<QueryView> {
    match pane.session_id {
        Some(session_id) => if named && session_id@.len() == 0 {
            None
        } else {
            Some(
                QueryView {
                    session_id: session_id@,
                    daemon_socket: optional_text(pane.daemon_socket),
                    title: pane.title@,
                },
            )
        },
        None => None,
    }
}

/// What is asked about the first panes of a tab.
pub open spec fn panes_queries<S>(
    panes: Seq<(u64, PaneEntry<S>)>,
    count: int,
    named: bool,
) -> Seq<QueryView>
    decreases count,
{
    if count <= 0 {
        Seq::empty()
    } else {
        match pane_query(panes[count - 1].1, named) {
            Some(query) => panes_queries(panes, count - 1, named).push(query),
            None => panes_queries(panes, count - 1, named),
        }
    }
}

/// What is asked about a tab.
pub open spec fn tab_queries<S>(tab: TabEntry<S>, named: bool) -> Seq<QueryView> {
    panes_queries(tab.panes.listing(), tab.panes.listing().len() as int, named)
}

/// What is asked about the first tabs, except one.
pub open spec fn tabs_queries<S>(
    tabs: Seq<TabEntry<S>>,
    count: int,
    named: bool,
    except: Option<u64>,
) -> Seq<QueryView>
    decreases count,
{
    if count <= 0 {
        Seq::empty()
    } else if Some(tabs[count - 1].id) == except {
        tabs_queries(tabs, count - 1, named, except)
    } else {
        tabs_queries(tabs, count - 1, named, except) + tab_queries(tabs[count - 1], named)
    }
}

fn push_tab_queries<S>(queries: &mut Vec<SessionQuery>, tab: &TabEntry<S>, named: bool)
    ensures
        query_views(final(queries)@) == query_views(old(queries)@) + tab_queries(*tab, named),
{
    let ghost before = query_views(queries@);
    let ghost listing = tab.panes.listing();
    let mut index: usize = 0;
    proof {
        assert(before + Seq::<QueryView>::empty() =~= before);
    }
    while index < tab.panes.len()
        invariant
            listing == tab.panes.listing(),
            index <= listing.len(),
            query_views(queries@) == before + panes_queries(listing, index as int, named),
        decreases listing.len() - index,
    {
        let pane = &tab.panes.entry_at(index).1;
        if let Some(session_id) = &pane.session_id {
            if !(named && session_id.as_str().is_empty()) {
                let query = SessionQuery {
                    session_id: session_id.as_str().to_owned(),
                    daemon_socket: copy_optional(&pane.daemon_socket),
                    title: pane.title.as_str().to_owned(),
                };
                let ghost held = queries@;
                queries.push(query);
                proof {
                    assert(query_views(queries@) =~= query_views(held).push(query@));
                    assert(before + panes_queries(listing, index as int, named).push(query@)
                        =~= (before + panes_queries(listing, index as int, named)).push(query@));
                }
            }
        }
        index += 1;
    }
}

/// Whether a pane's session runs on a remote.
pub open spec fn on_remote<S>(pane: PaneEntry<S>, remote: Seq<char>) -> bool {
    optional_text(pane.remote_name) == Some(remote)
}

/// Whether a tab has a pane on a remote.
pub open spec fn uses_remote<S>(tab: TabEntry<S>, remote: Seq<char>) -> bool {
    exists|i: int|
        0 <= i < tab.panes.listing().len() && on_remote(
            (#[trigger] tab.panes.listing()[i]).1,
            remote,
        )
}

/// The terminals of the first panes that run on a remote.
pub open spec fn remote_terminals<S>(
    panes: Seq<(u64, PaneEntry<S>)>,
    count: int,
    remote: Seq<char>,
) -> Seq<u64>
    decreases count,
{
    if count <= 0 {
        Seq::empty()
    } else if on_remote(panes[count - 1].1, remote) {
        remote_terminals(panes, count - 1, remote).push(panes[count - 1].1.terminal)
    } else {
        remote_terminals(panes, count - 1, remote)
    }
}

/// The terminals of the first tabs that run on a remote.
pub open spec fn detached_terminals<S>(tabs: Seq<TabEntry<S>>, count: int, remote: Seq<char>) -> Seq<
    u64,
>
    decreases count,
{
    if count <= 0 {
        Seq::empty()
    } else {
        detached_terminals(tabs, count - 1, remote) + remote_terminals(
            tabs[count - 1].panes.listing(),
            tabs[count - 1].panes.listing().len() as int,
            remote,
        )
    }
}

/// The terminals of a tab that run on a remote, and whether there are any.
fn push_remote_terminals<S>(terminals: &mut Vec<u64>, tab: &TabEntry<S>, remote: &str) -> (used:
    bool)
    ensures
        used == uses_remote(*tab, remote@),
        final(terminals)@ == old(terminals)@ + remote_terminals(
            tab.panes.listing(),
            tab.panes.listing().len() as int,
            remote@,
        ),
{
    let ghost before = terminals@;
    let ghost listing = tab.panes.listing();
    let mut used = false;
    let mut index: usize = 0;
    proof {
        assert(before + Seq::<u64>::empty() =~= before);
    }
    while index < tab.panes.len()
        invariant
            listing == tab.panes.listing(),
            index <= listing.len(),
            used == (exists|i: int|
                0 <= i < index && on_remote((#[trigger] listing[i]).1, remote@)),
            terminals@ == before + remote_terminals(listing, index as int, remote@),
        decreases listing.len() - index,
    {
        let pane = &tab.panes.entry_at(index).1;
        if is_optional_text(&pane.remote_name, remote) {
            proof {
                assert(before + remote_terminals(listing, index as int, remote@).push(
                    pane.terminal,
                ) =~= (before + remote_terminals(listing, index as int, remote@)).push(
                    pane.terminal,
                ));
                assert(on_remote(listing[index as int].1, remote@));
            }
            terminals.push(pane.terminal);
            used = true;
        }
        index += 1;
    }
    used
}

/// What became of a pane that was to be closed.
pub enum CloseOutcome<S> {
    /// Nothing was closed.
    Nothing,
    /// Its tab was closed with it. `last` says that no tab is left, and the
    /// window closes.
    Tab { tab: TabEntry<S>, last: bool },
    /// The pane was closed, and others of its tab are left.
    Pane(PaneEntry<S>),
}

/// What a bell is shown on.
#[derive(Clone, Copy, Debug, PartialEq, Eq, Structural)]
pub struct BellMarks {
    pub tab: bool,
    pub window: bool,
}

/// What a changed title is shown on.
#[derive(Clone, Copy, Debug, PartialEq, Eq, Structural)]
pub enum TitleUpdate {
    /// Nothing changed.
    Ignored,
    /// The pane is not the active one of its tab.
    Pane,
    /// The tab took it over. `window` says that the tab is shown.
    Tab { window: bool },
}

/// The tabs of a window, in the order of the tab bar.
pub struct TabList<S> {
    tabs: Vec<TabEntry<S>>,
    next_id: u64,
}

/// What the bell of a pane is shown on.
pub open spec fn bell_marks<S>(
    tabs: Seq<TabEntry<S>>,
    tab_id: u64,
    pane_id: u64,
    current: Option<usize>,
    window_active: bool,
) -> BellMarks {
    BellMarks {
        tab: !window_active || !(current is Some && current->0 < tabs.len()
            && tabs[current->0 as int].id == tab_id
            && tabs[current->0 as int].panes.active_pane() == pane_id),
        window: !window_active,
    }
}

/// A bell is shown nowhere exactly if it comes from the pane that has the input, in the
/// tab that is shown by the window in front. A window that is not in front shows it on
/// its title too, and one in front only on the tab.
pub proof fn law_bells_are_shown_where_nobody_looks<S>(
    tabs: Seq<TabEntry<S>>,
    tab_id: u64,
    pane_id: u64,
    current: usize,
)
    requires
        current < tabs.len(),
    ensures
        bell_marks(tabs, tab_id, pane_id, Some(current), false) == (BellMarks {
            tab: true,
            window: true,
        }),
        tabs[current as int].id == tab_id && tabs[current as int].panes.active_pane() == pane_id
            ==> bell_marks(tabs, tab_id, pane_id, Some(current), true) == (BellMarks {
            tab: false,
            window: false,
        }),
        tabs[current as int].id != tab_id || tabs[current as int].panes.active_pane() != pane_id
            ==> bell_marks(tabs, tab_id, pane_id, Some(current), true) == (BellMarks {
            tab: true,
            window: false,
        }),
        bell_marks(tabs, tab_id, pane_id, None, true) == (BellMarks { tab: true, window: false }),
{
}

/// No two tabs have the same identity.
pub open spec fn distinct_tabs<S>(tabs: Seq<TabEntry<S>>) -> bool {
    forall|i: int, j: int|
        0 <= i < j < tabs.len() ==> (#[trigger] tabs[i]).id != (#[trigger] tabs[j]).id
}

/// The place of the tab with an identity, from `from` on.
pub open spec fn tab_place<S>(tabs: Seq<TabEntry<S>>, id: u64, from: int) -> Option<int>
    decreases tabs.len() - from,
{
    if from < 0 || from >= tabs.len() {
        None
    } else if tabs[from].id == id {
        Some(from)
    } else {
        tab_place(tabs, id, from + 1)
    }
}

proof fn lemma_tab_place<S>(tabs: Seq<TabEntry<S>>, id: u64, from: int)
    requires
        0 <= from <= tabs.len(),
    ensures
        match tab_place(tabs, id, from) {
            Some(place) => from <= place < tabs.len() && tabs[place].id == id && forall|i: int|
                from <= i < place ==> (#[trigger] tabs[i]).id != id,
            None => forall|i: int| from <= i < tabs.len() ==> (#[trigger] tabs[i]).id != id,
        },
    decreases tabs.len() - from,
{
    if from < tabs.len() && tabs[from].id != id {
        lemma_tab_place(tabs, id, from + 1);
    }
}

/// A layout without one of the panes of a tab, which took over the noted ratios before.
pub open spec fn drops_pane<S>(layout: LayoutSummary, tab: TabEntry<S>, pane: u64) -> bool {
    &&& tab.panes.settled()
    &&& layout.valid()
    &&& tab.panes.order().contains(pane)
    &&& forall|other: u64| #[trigger]
        layout.ids@.contains(other) <==> other != pane && tab.panes.order().contains(other)
}

/// A layout with one more pane than a tab has, which took over the noted ratios before.
pub open spec fn adds_pane<S>(layout: LayoutSummary, tab: TabEntry<S>, pane: u64) -> bool {
    &&& tab.panes.settled()
    &&& layout.valid()
    &&& !tab.panes.order().contains(pane)
    &&& forall|other: u64| #[trigger]
        layout.ids@.contains(other) <==> other == pane || tab.panes.order().contains(other)
}

/// One pane got another title, which the user may have set; nothing else
/// changed.
pub open spec fn retitled<S>(
    before: Map<u64, PaneEntry<S>>,
    after: Map<u64, PaneEntry<S>>,
    pane: u64,
    title: Seq<char>,
    by_user: bool,
) -> bool {
    &&& after == before.insert(pane, after[pane])
    &&& after[pane].title@ == title
    &&& after[pane].title_locked == (before[pane].title_locked || by_user)
    &&& after[pane] == (PaneEntry {
        title: after[pane].title,
        title_locked: after[pane].title_locked,
        ..before[pane]
    })
}

impl<S> TabList<S> {
    /// The tabs in their order.
    pub closed spec fn tabs(&self) -> Seq<TabEntry<S>> {
        self.tabs@
    }

    /// The identity that the next tab gets.
    pub closed spec fn next(&self) -> u64 {
        self.next_id
    }

    /// No two tabs have the same identity, a later tab has a higher one, and the
    /// panes of each have one resource each.
    pub closed spec fn valid(&self) -> bool {
        &&& distinct_tabs(self.tabs@)
        &&& forall|i: int|
            0 <= i < self.tabs@.len() ==> (#[trigger] self.tabs@[i]).valid() && self.tabs@[i].id
                < self.next_id
    }

    /// No two tabs of a window have the same identity, the next tab gets one that
    /// none has, and the panes of each tab have one resource each.
    pub proof fn law_tabs_are_told_apart(&self)
        requires
            self.valid(),
        ensures
            distinct_tabs(self.tabs()),
            forall|i: int|
                0 <= i < self.tabs().len() ==> (#[trigger] self.tabs()[i]).valid()
                    && self.tabs()[i].id < self.next(),
    {
    }

    /// A window without tabs.
    pub fn new() -> (list: Self)
        ensures
            list.valid(),
            list.tabs() == Seq::<TabEntry<S>>::empty(),
            list.next() == 0,
    {
        TabList { tabs: Vec::new(), next_id: 0 }
    }

    pub fn len(&self) -> (count: usize)
        ensures
            count == self.tabs().len(),
    {
        self.tabs.len()
    }

    /// The tab at a place.
    pub fn get(&self, index: usize) -> (tab: Option<&TabEntry<S>>)
        ensures
            tab == (if index < self.tabs().len() {
                Some(&self.tabs()[index as int])
            } else {
                None
            }),
    {
        if index < self.tabs.len() {
            Some(&self.tabs[index])
        } else {
            None
        }
    }

    /// The notebook shows another page: what the window is called then, and which
    /// tab the tab bar highlights and takes the bell from.
    pub fn page_switched(&self, page: u32) -> (shown: Option<(String, u64)>)
        ensures
            match shown {
                Some((title, id)) => {
                    &&& page < self.tabs().len()
                    &&& title@ == self.tabs()[page as int].title@
                    &&& id == self.tabs()[page as int].id
                },
                None => page >= self.tabs().len(),
            },
    {
        match self.get(page as usize) {
            Some(tab) => Some((tab.title.as_str().to_owned(), tab.id)),
            None => None,
        }
    }

    /// The place of the tab with an identity.
    pub fn position(&self, id: u64) -> (place: Option<usize>)
        ensures
            match tab_place(self.tabs(), id, 0) {
                Some(index) => place matches Some(found) && found == index && 0 <= index
                    < self.tabs().len() && self.tabs()[index].id == id,
                None => place is None && forall|i: int|
                    0 <= i < self.tabs().len() ==> (#[trigger] self.tabs()[i]).id != id,
            },
    {
        proof {
            lemma_tab_place(self.tabs@, id, 0);
        }
        let mut index: usize = 0;
        while index < self.tabs.len()
            invariant
                index <= self.tabs@.len(),
                tab_place(self.tabs@, id, 0) == tab_place(self.tabs@, id, index as int),
            decreases self.tabs@.len() - index,
        {
            if self.tabs[index].id == id {
                return Some(index);
            }
            index += 1;
        }
        None
    }

    /// Open a tab behind the others, and give it an identity of its own.
    pub fn open_tab(
        &mut self,
        title: String,
        title_locked: bool,
        color: Option<String>,
        panes: PaneSet<PaneEntry<S>>,
    ) -> (id: u64)
        requires
            old(self).valid(),
            old(self).next() < u64::MAX,
            panes.mirrors_layout(),
        ensures
            final(self).valid(),
            id == old(self).next(),
            final(self).next() == old(self).next() + 1,
            final(self).tabs() == old(self).tabs().push(
                (TabEntry { id, title, title_locked, color, panes }),
            ),
    {
        let id: u64 = self.next_id;
        self.next_id = id + 1;
        self.tabs.push(TabEntry { id, title, title_locked, color, panes });
        proof {
            let before = old(self).tabs@;
            assert forall|i: int| 0 <= i < self.tabs@.len() implies (#[trigger]
            self.tabs@[i]).valid() && self.tabs@[i].id < self.next_id by {
                if i < before.len() {
                    assert(self.tabs@[i] == before[i]);
                }
            }
            assert forall|i: int, j: int| 0 <= i < j < self.tabs@.len() implies (#[trigger]
            self.tabs@[i]).id != (#[trigger] self.tabs@[j]).id by {
                assert(self.tabs@[i] == before[i]);
                if j < before.len() {
                    assert(self.tabs@[j] == before[j]);
                }
            }
        }
        id
    }

    /// Take a tab out, with the resources of all its panes. `last` says that no
    /// tab is left, and the window closes.
    pub fn remove_tab(&mut self, id: u64) -> (removed: Option<(TabEntry<S>, bool)>)
        requires
            old(self).valid(),
        ensures
            final(self).valid(),
            final(self).next() == old(self).next(),
            match tab_place(old(self).tabs(), id, 0) {
                Some(place) => {
                    &&& final(self).tabs() == old(self).tabs().remove(place)
                    &&& removed == Some((old(self).tabs()[place], old(self).tabs().len() == 1))
                },
                None => removed is None && *final(self) == *old(self),
            },
    {
        match self.position(id) {
            Some(index) => {
                let ghost before = self.tabs@;
                let tab = self.tabs.remove(index);
                proof {
                    lemma_removed_tabs(before, index as int);
                }
                let last = self.tabs.len() == 0;
                Some((tab, last))
            },
            None => None,
        }
    }

    /// Close a pane, or its tab where it is the only one. What the layout said
    /// about closing the pane counts only where others are left.
    pub fn close_pane(
        &mut self,
        tab_id: u64,
        pane_id: u64,
        outcome: Result<LayoutSummary, PaneLayoutError>,
    ) -> (closed: CloseOutcome<S>)
        requires
            old(self).valid(),
            outcome matches Ok(layout) ==> forall|i: int|
                0 <= i < old(self).tabs().len() && (#[trigger] old(self).tabs()[i]).id == tab_id
                    ==> drops_pane(layout, old(self).tabs()[i], pane_id),
        ensures
            final(self).valid(),
            final(self).next() == old(self).next(),
            match tab_place(old(self).tabs(), tab_id, 0) {
                None => closed is Nothing && *final(self) == *old(self),
                Some(place) => {
                    let tab = old(self).tabs()[place];
                    if closes_tab(tab.panes.listing().len(), tab.panes.active_pane(), pane_id) {
                        &&& final(self).tabs() == old(self).tabs().remove(place)
                        &&& closed == (CloseOutcome::Tab {
                            tab,
                            last: old(self).tabs().len() == 1,
                        })
                    } else {
                        match outcome {
                            Err(_) => closed is Nothing && final(self).tabs() == old(self).tabs(),
                            Ok(layout) => {
                                let left = final(self).tabs()[place];
                                &&& closed == CloseOutcome::Pane(tab.panes@[pane_id])
                                &&& final(self).tabs() == old(self).tabs().update(place, left)
                                &&& left.id == tab.id
                                &&& left.color == tab.color
                                &&& left.title_locked == tab.title_locked
                                &&& left.panes@ == tab.panes@.remove(pane_id)
                                &&& left.panes.same_notes(&tab.panes)
                                &&& left.panes.order() == layout.ids@
                                &&& left.panes.active_pane() == layout.active
                                &&& left.panes.zoomed_pane() == layout.zoomed
                                &&& left.title@ == synced_title(
                                    tab.title@,
                                    tab.title_locked,
                                    tab.panes@[layout.active],
                                )
                            },
                        }
                    }
                },
            },
    {
        let index: usize = match self.position(tab_id) {
            Some(index) => index,
            None => {
                return CloseOutcome::Nothing;
            },
        };
        let ghost before = self.tabs@;
        let ghost tab = before[index as int];
        if self.tabs[index].panes.len() == 1 && self.tabs[index].panes.active_id() == pane_id {
            let tab = self.tabs.remove(index);
            proof {
                lemma_removed_tabs(before, index as int);
            }
            let last = self.tabs.len() == 0;
            return CloseOutcome::Tab { tab, last };
        }
        proof {
            assert(tab.valid());
            assert(outcome matches Ok(layout) ==> drops_pane(layout, tab, pane_id));
        }
        match self.tabs[index].panes.close(pane_id, outcome) {
            Ok(entry) => {
                self.tabs[index].sync_active_pane();
                proof {
                    lemma_changed_tab(before, self.tabs@, index as int, self.next_id);
                    let panes = self.tabs@[index as int].panes;
                    panes.lemma_mirrors();
                }
                CloseOutcome::Pane(entry)
            },
            Err(_) => {
                proof {
                    assert(self.tabs@ =~= before);
                }
                CloseOutcome::Nothing
            },
        }
    }

    /// Take out the tabs with the given identities, with the resources of all
    /// their panes, in the order of the tab bar.
    pub fn remove_tabs(&mut self, ids: &Vec<u64>) -> (removed: Vec<TabEntry<S>>)
        requires
            old(self).valid(),
        ensures
            final(self).valid(),
            final(self).next() == old(self).next(),
            final(self).tabs() == old(self).tabs().filter(
                |tab: TabEntry<S>| !ids@.contains(tab.id),
            ),
            removed@ == old(self).tabs().filter(|tab: TabEntry<S>| ids@.contains(tab.id)),
    {
        let ghost all = self.tabs@;
        let ghost stays = |tab: TabEntry<S>| !ids@.contains(tab.id);
        let ghost goes = |tab: TabEntry<S>| ids@.contains(tab.id);
        let ghost mut seen: int = 0;
        let mut removed: Vec<TabEntry<S>> = Vec::new();
        let mut index: usize = 0;
        proof {
            reveal(Seq::filter);
            assert(all.take(0) =~= Seq::<TabEntry<S>>::empty());
            assert(all.skip(0) =~= all);
            assert(self.tabs@ =~= all.take(0).filter(stays) + all.skip(0));
        }
        while index < self.tabs.len()
            invariant
                self.next_id == old(self).next_id,
                all == old(self).tabs@,
                old(self).valid(),
                stays == (|tab: TabEntry<S>| !ids@.contains(tab.id)),
                goes == (|tab: TabEntry<S>| ids@.contains(tab.id)),
                0 <= seen <= all.len(),
                index == all.take(seen).filter(stays).len(),
                self.tabs@ == all.take(seen).filter(stays) + all.skip(seen),
                removed@ == all.take(seen).filter(goes),
            decreases all.len() - seen,
        {
            proof {
                assert(self.tabs@[index as int] == all[seen]);
                lemma_filter_step(all, seen, stays);
                lemma_filter_step(all, seen, goes);
            }
            if holds(ids, self.tabs[index].id) {
                let tab = self.tabs.remove(index);
                removed.push(tab);
                proof {
                    assert(self.tabs@ =~= all.take(seen + 1).filter(stays) + all.skip(seen + 1));
                }
            } else {
                index += 1;
                proof {
                    assert(self.tabs@ =~= all.take(seen + 1).filter(stays) + all.skip(seen + 1));
                }
            }
            proof {
                seen = seen + 1;
            }
        }
        proof {
            assert(seen == all.len());
            assert(all.take(seen) =~= all);
            assert(self.tabs@ =~= all.filter(stays));
            lemma_filtered_tabs(all, stays, self.next_id);
        }
        removed
    }

    /// Leave a remote: tell which terminals have to be detached from it, and
    /// take out every tab that has one of them. The sessions go on.
    pub fn disconnect_remote(&mut self, remote: &str) -> (disconnected: (
        Vec<u64>,
        Vec<TabEntry<S>>,
    ))
        requires
            old(self).valid(),
        ensures
            final(self).valid(),
            final(self).next() == old(self).next(),
            disconnected.0@ == detached_terminals(
                old(self).tabs(),
                old(self).tabs().len() as int,
                remote@,
            ),
            final(self).tabs() == old(self).tabs().filter(
                |tab: TabEntry<S>| !uses_remote(tab, remote@),
            ),
            disconnected.1@ == old(self).tabs().filter(
                |tab: TabEntry<S>| uses_remote(tab, remote@),
            ),
    {
        let ghost all = self.tabs@;
        let mut terminals: Vec<u64> = Vec::new();
        let mut ids: Vec<u64> = Vec::new();
        let mut index: usize = 0;
        while index < self.tabs.len()
            invariant
                *self == *old(self),
                all == self.tabs@,
                index <= all.len(),
                terminals@ == detached_terminals(all, index as int, remote@),
                forall|id: u64| #[trigger]
                    ids@.contains(id) ==> exists|i: int|
                        0 <= i < index && (#[trigger] all[i]).id == id && uses_remote(
                            all[i],
                            remote@,
                        ),
                forall|i: int|
                    0 <= i < index && uses_remote(#[trigger] all[i], remote@) ==> ids@.contains(
                        all[i].id,
                    ),
            decreases all.len() - index,
        {
            let ghost held = ids@;
            if push_remote_terminals(&mut terminals, &self.tabs[index], remote) {
                ids.push(self.tabs[index].id);
                proof {
                    assert(ids@[held.len() as int] == all[index as int].id);
                    assert forall|id: u64| #[trigger] ids@.contains(id) implies exists|i: int|
                        0 <= i < index + 1 && (#[trigger] all[i]).id == id && uses_remote(
                            all[i],
                            remote@,
                        ) by {
                        if held.contains(id) {
                            let i = choose|i: int|
                                0 <= i < index && (#[trigger] all[i]).id == id && uses_remote(
                                    all[i],
                                    remote@,
                                );
                            assert(all[i].id == id);
                        } else {
                            let at = choose|at: int| 0 <= at < ids@.len() && ids@[at] == id;
                            if at < held.len() {
                                assert(held[at] == id);
                            }
                            assert(all[index as int].id == id);
                        }
                    }
                    assert forall|i: int| 0 <= i < index + 1 && uses_remote(
                        #[trigger] all[i],
                        remote@,
                    ) implies ids@.contains(all[i].id) by {
                        if i < index {
                            let at = choose|at: int| 0 <= at < held.len() && held[at] == all[i].id;
                            assert(ids@[at] == all[i].id);
                        }
                    }
                }
            }
            index += 1;
        }
        let removed = self.remove_tabs(&ids);
        proof {
            let by_id = |tab: TabEntry<S>| ids@.contains(tab.id);
            let not_by_id = |tab: TabEntry<S>| !ids@.contains(tab.id);
            let by_remote = |tab: TabEntry<S>| uses_remote(tab, remote@);
            let not_by_remote = |tab: TabEntry<S>| !uses_remote(tab, remote@);
            assert forall|i: int| 0 <= i < all.len() implies by_id(#[trigger] all[i]) == by_remote(
                all[i],
            ) by {
                if ids@.contains(all[i].id) {
                    let j = choose|j: int|
                        0 <= j < all.len() && (#[trigger] all[j]).id == all[i].id && uses_remote(
                            all[j],
                            remote@,
                        );
                    if i < j {
                        assert(all[i].id != all[j].id);
                    } else if j < i {
                        assert(all[j].id != all[i].id);
                    }
                }
            }
            lemma_same_filter(all, by_id, by_remote);
            lemma_same_filter(all, not_by_id, not_by_remote);
        }
        (terminals, removed)
    }

    /// The remote that a tab belongs to, which is that of its first pane on one,
    /// and how many tabs have a pane on it.
    pub fn remote_of_tab(&self, id: u64) -> (remote: Option<(String, usize)>)
        ensures
            match tab_place(self.tabs(), id, 0) {
                None => remote is None,
                Some(place) => match first_remote(self.tabs()[place].panes.listing(), 0) {
                    None => remote is None,
                    Some(name) => remote matches Some(found) && found.0@ == name && found.1
                        == self.tabs().filter(
                        |tab: TabEntry<S>| uses_remote(tab, name),
                    ).len(),
                },
            },
    {
        let index: usize = match self.position(id) {
            Some(index) => index,
            None => {
                return None;
            },
        };
        let name = match first_remote_of(&self.tabs[index]) {
            Some(name) => name,
            None => {
                return None;
            },
        };
        let ghost all = self.tabs@;
        let ghost uses = |tab: TabEntry<S>| uses_remote(tab, name@);
        let mut count: usize = 0;
        let mut at: usize = 0;
        proof {
            reveal(Seq::filter);
            assert(all.take(0) =~= Seq::<TabEntry<S>>::empty());
        }
        while at < self.tabs.len()
            invariant
                all == self.tabs@,
                uses == (|tab: TabEntry<S>| uses_remote(tab, name@)),
                at <= all.len(),
                count == all.take(at as int).filter(uses).len(),
                count <= at,
            decreases all.len() - at,
        {
            proof {
                lemma_filter_step(all, at as int, uses);
            }
            let mut ignored: Vec<u64> = Vec::new();
            if push_remote_terminals(&mut ignored, &self.tabs[at], name.as_str()) {
                count += 1;
            }
            at += 1;
        }
        proof {
            assert(all.take(all.len() as int) =~= all);
        }
        Some((name, count))
    }

    /// What is asked about the sessions of a tab before it is closed.
    pub fn queries_of_tab(&self, id: u64) -> (queries: Option<Vec<SessionQuery>>)
        ensures
            match tab_place(self.tabs(), id, 0) {
                Some(place) => queries matches Some(asked) && query_views(asked@) == tab_queries(
                    self.tabs()[place],
                    false,
                ),
                None => queries is None,
            },
    {
        match self.position(id) {
            Some(index) => {
                let mut queries: Vec<SessionQuery> = Vec::new();
                push_tab_queries(&mut queries, &self.tabs[index], false);
                proof {
                    assert(query_views(queries@) =~= tab_queries(self.tabs@[index as int], false));
                }
                Some(queries)
            },
            None => None,
        }
    }

    /// What is asked about the session of a pane before the pane is closed. There is
    /// nothing to ask, nor to close, where the tab or the pane is gone.
    pub fn queries_of_pane(&self, tab_id: u64, pane_id: u64) -> (queries: Option<
        Vec<SessionQuery>,
    >)
        requires
            self.valid(),
        ensures
            match tab_place(self.tabs(), tab_id, 0) {
                Some(place) => if self.tabs()[place].panes@.dom().contains(pane_id) {
                    queries matches Some(asked) && query_views(asked@) == (match pane_query(
                        self.tabs()[place].panes@[pane_id],
                        false,
                    ) {
                        Some(query) => seq![query],
                        None => Seq::<QueryView>::empty(),
                    })
                } else {
                    queries is None
                },
                None => queries is None,
            },
    {
        let index: usize = match self.position(tab_id) {
            Some(index) => index,
            None => {
                return None;
            },
        };
        proof {
            assert(self.tabs@[index as int].valid());
        }
        let pane = match self.tabs[index].panes.get(pane_id) {
            Some(pane) => pane,
            None => {
                return None;
            },
        };
        let mut queries: Vec<SessionQuery> = Vec::new();
        if let Some(session_id) = &pane.session_id {
            queries.push(
                SessionQuery {
                    session_id: session_id.as_str().to_owned(),
                    daemon_socket: copy_optional(&pane.daemon_socket),
                    title: pane.title.as_str().to_owned(),
                },
            );
            proof {
                assert(query_views(queries@) =~= seq![queries@[0]@]);
            }
        } else {
            proof {
                assert(query_views(queries@) =~= Seq::<QueryView>::empty());
            }
        }
        Some(queries)
    }

    /// What is asked about all sessions, except those of one tab. Sessions
    /// without a name are left out where `named` is set.
    pub fn queries(&self, named: bool, except: Option<u64>) -> (queries: Vec<SessionQuery>)
        ensures
            query_views(queries@) == tabs_queries(
                self.tabs(),
                self.tabs().len() as int,
                named,
                except,
            ),
    {
        let mut queries: Vec<SessionQuery> = Vec::new();
        let mut index: usize = 0;
        proof {
            assert(query_views(queries@) =~= Seq::<QueryView>::empty());
        }
        while index < self.tabs.len()
            invariant
                index <= self.tabs@.len(),
                query_views(queries@) == tabs_queries(self.tabs@, index as int, named, except),
            decreases self.tabs@.len() - index,
        {
            if Some(self.tabs[index].id) != except {
                push_tab_queries(&mut queries, &self.tabs[index], named);
            }
            index += 1;
        }
        queries
    }

    /// The identities of all tabs but one.
    pub fn other_tabs(&self, keep: u64) -> (ids: Vec<u64>)
        ensures
            ids@ == self.tabs().filter(|tab: TabEntry<S>| tab.id != keep).map_values(
                |tab: TabEntry<S>| tab.id,
            ),
    {
        let ghost all = self.tabs@;
        let ghost other = |tab: TabEntry<S>| tab.id != keep;
        let mut ids: Vec<u64> = Vec::new();
        let mut index: usize = 0;
        proof {
            reveal(Seq::filter);
            assert(all.take(0) =~= Seq::<TabEntry<S>>::empty());
            assert(ids@ =~= all.take(0).filter(other).map_values(|tab: TabEntry<S>| tab.id));
        }
        while index < self.tabs.len()
            invariant
                all == self.tabs@,
                other == (|tab: TabEntry<S>| tab.id != keep),
                index <= all.len(),
                ids@ == all.take(index as int).filter(other).map_values(|tab: TabEntry<S>| tab.id),
            decreases all.len() - index,
        {
            proof {
                lemma_filter_step(all, index as int, other);
            }
            if self.tabs[index].id != keep {
                ids.push(self.tabs[index].id);
            }
            index += 1;
            proof {
                assert(ids@ =~= all.take(index as int).filter(other).map_values(
                    |tab: TabEntry<S>| tab.id,
                ));
            }
        }
        proof {
            assert(all.take(all.len() as int) =~= all);
        }
        ids
    }

    /// A terminal rang its bell. The tab bar shows it unless the pane has the
    /// input in the window that is in front; the window's title shows it where
    /// the window is not in front.
    pub fn bell(
        &self,
        tab_id: u64,
        pane_id: u64,
        current: Option<usize>,
        window_active: bool,
    ) -> (marks: BellMarks)
        ensures
            marks == bell_marks(self.tabs(), tab_id, pane_id, current, window_active),
    {
        let is_current = match current {
            Some(index) => if index < self.tabs.len() {
                self.tabs[index].id == tab_id && self.tabs[index].panes.active_id() == pane_id
            } else {
                false
            },
            None => false,
        };
        BellMarks { tab: !is_current || !window_active, window: !window_active }
    }

    /// Take over that the layout made a pane of a tab the active one. Tells
    /// whether the tab's panes have to be laid out anew.
    pub fn activate_pane(
        &mut self,
        index: usize,
        outcome: Result<LayoutSummary, PaneLayoutError>,
    ) -> (rebuild: Option<bool>)
        requires
            old(self).valid(),
            index < old(self).tabs().len(),
            outcome matches Ok(layout) ==> keeps_panes(layout, old(self).tabs()[index as int]),
        ensures
            final(self).valid(),
            final(self).next() == old(self).next(),
            final(self).tabs() == old(self).tabs().update(
                index as int,
                final(self).tabs()[index as int],
            ),
            ({
                let before = old(self).tabs()[index as int];
                let after = final(self).tabs()[index as int];
                match outcome {
                    Ok(layout) => {
                        &&& rebuild == Some(before.panes.zoomed_pane() is Some)
                        &&& after.id == before.id
                        &&& after.color == before.color
                        &&& after.title_locked == before.title_locked
                        &&& after.panes@ == before.panes@
                        &&& after.panes.same_notes(&before.panes)
                        &&& after.panes.order() == layout.ids@
                        &&& after.panes.active_pane() == layout.active
                        &&& after.panes.zoomed_pane() == layout.zoomed
                        &&& after.title@ == synced_title(
                            before.title@,
                            before.title_locked,
                            before.panes@[layout.active],
                        )
                    },
                    Err(_) => rebuild is None && after == before,
                }
            }),
    {
        let ghost before = self.tabs@;
        let rebuild = self.tabs[index].activate_pane(outcome);
        proof {
            lemma_changed_tab(before, self.tabs@, index as int, self.next_id);
        }
        rebuild
    }

    /// A divider of a tab was dragged: the ratio of its split is noted. Tells whether
    /// there is such a tab.
    pub fn divider_moved(
        &mut self,
        tab_id: u64,
        path: Vec<PaneBranch>,
        position: i32,
        maximum: i32,
    ) -> (known: bool)
        requires
            old(self).valid(),
        ensures
            final(self).valid(),
            final(self).next() == old(self).next(),
            match tab_place(old(self).tabs(), tab_id, 0) {
                None => !known && final(self).tabs() == old(self).tabs(),
                Some(place) => {
                    let tab = old(self).tabs()[place];
                    let changed = final(self).tabs()[place];
                    &&& known
                    &&& final(self).tabs() == old(self).tabs().update(place, changed)
                    &&& changed == (TabEntry { panes: changed.panes, ..tab })
                    &&& changed.panes.same_panes(&tab.panes)
                    &&& if maximum <= 0 {
                        changed.panes.same_notes(&tab.panes)
                    } else {
                        &&& !changed.panes.settled()
                        &&& changed.panes.moves() == noted(
                            tab.panes.moves(),
                            path@,
                            ratio_at(position as int, maximum as int) as u16,
                        )
                    }
                },
            },
    {
        let index: usize = match self.position(tab_id) {
            Some(index) => index,
            None => {
                return false;
            },
        };
        let ghost before = self.tabs@;
        proof {
            assert(before[index as int].valid());
        }
        self.tabs[index].panes.divider_moved(path, position, maximum);
        proof {
            lemma_changed_tab(before, self.tabs@, index as int, self.next_id);
        }
        true
    }

    /// Hand out the noted divider ratios of a tab, for its layout to take over before
    /// its next change.
    pub fn flush_divider_ratios(&mut self, tab_id: u64) -> (ratios: Option<
        Vec<(Vec<PaneBranch>, u16)>,
    >)
        requires
            old(self).valid(),
        ensures
            final(self).valid(),
            final(self).next() == old(self).next(),
            match tab_place(old(self).tabs(), tab_id, 0) {
                None => ratios is None && final(self).tabs() == old(self).tabs(),
                Some(place) => {
                    let tab = old(self).tabs()[place];
                    let changed = final(self).tabs()[place];
                    &&& ratios matches Some(handed) && moved_ratios(handed@) == tab.panes.moves()
                    &&& final(self).tabs() == old(self).tabs().update(place, changed)
                    &&& changed == (TabEntry { panes: changed.panes, ..tab })
                    &&& changed.panes.same_panes(&tab.panes)
                    &&& changed.panes.moves() == tab.panes.moves()
                    &&& changed.panes.settled()
                },
            },
    {
        let index: usize = match self.position(tab_id) {
            Some(index) => index,
            None => {
                return None;
            },
        };
        let ghost before = self.tabs@;
        proof {
            assert(before[index as int].valid());
        }
        let ratios = self.tabs[index].panes.flush_divider_ratios();
        proof {
            lemma_changed_tab(before, self.tabs@, index as int, self.next_id);
        }
        Some(ratios)
    }

    /// The panes of a tab were laid out anew, with the ratios that its layout now
    /// holds. Tells whether there is such a tab.
    pub fn laid_out(&mut self, tab_id: u64) -> (known: bool)
        requires
            old(self).valid(),
        ensures
            final(self).valid(),
            final(self).next() == old(self).next(),
            match tab_place(old(self).tabs(), tab_id, 0) {
                None => !known && final(self).tabs() == old(self).tabs(),
                Some(place) => {
                    let tab = old(self).tabs()[place];
                    let changed = final(self).tabs()[place];
                    &&& known
                    &&& final(self).tabs() == old(self).tabs().update(place, changed)
                    &&& changed == (TabEntry { panes: changed.panes, ..tab })
                    &&& changed.panes.same_panes(&tab.panes)
                    &&& changed.panes.moves() == Seq::<(Seq<PaneBranch>, u16)>::empty()
                    &&& changed.panes.settled()
                },
            },
    {
        let index: usize = match self.position(tab_id) {
            Some(index) => index,
            None => {
                return false;
            },
        };
        let ghost before = self.tabs@;
        proof {
            assert(before[index as int].valid());
        }
        self.tabs[index].panes.laid_out();
        proof {
            lemma_changed_tab(before, self.tabs@, index as int, self.next_id);
        }
        true
    }

    /// Take over a split that the layout made beside a pane: the new pane gets
    /// `entry`. Where the tab or that pane is gone, or the layout refused, the
    /// new session is not needed and nothing changes.
    pub fn split_pane(
        &mut self,
        tab_id: u64,
        target: u64,
        outcome: Result<(u64, LayoutSummary), PaneLayoutError>,
        entry: PaneEntry<S>,
    ) -> (pane: Option<u64>)
        requires
            old(self).valid(),
            outcome matches Ok((id, layout)) ==> forall|i: int|
                0 <= i < old(self).tabs().len() && (#[trigger] old(self).tabs()[i]).id == tab_id
                    ==> adds_pane(layout, old(self).tabs()[i], id),
        ensures
            final(self).valid(),
            final(self).next() == old(self).next(),
            match tab_place(old(self).tabs(), tab_id, 0) {
                None => pane is None && final(self).tabs() == old(self).tabs(),
                Some(place) => {
                    let tab = old(self).tabs()[place];
                    match outcome {
                        Ok((id, layout)) if tab.panes@.dom().contains(target) => {
                            let grown = final(self).tabs()[place];
                            &&& pane == Some(id)
                            &&& final(self).tabs() == old(self).tabs().update(place, grown)
                            &&& grown.id == tab.id
                            &&& grown.color == tab.color
                            &&& grown.title_locked == tab.title_locked
                            &&& grown.panes@ == tab.panes@.insert(id, entry)
                            &&& grown.panes.same_notes(&tab.panes)
                            &&& grown.panes.order() == layout.ids@
                            &&& grown.panes.active_pane() == layout.active
                            &&& grown.panes.zoomed_pane() == layout.zoomed
                            &&& grown.title@ == synced_title(
                                tab.title@,
                                tab.title_locked,
                                grown.panes@[layout.active],
                            )
                        },
                        _ => pane is None && final(self).tabs() == old(self).tabs(),
                    }
                },
            },
    {
        let index: usize = match self.position(tab_id) {
            Some(index) => index,
            None => {
                return None;
            },
        };
        let ghost before = self.tabs@;
        proof {
            assert(before[index as int].valid());
            assert(outcome matches Ok((id, layout)) ==> adds_pane(layout, before[index as int], id));
        }
        if self.tabs[index].panes.get(target).is_none() {
            return None;
        }
        match self.tabs[index].panes.split(outcome, entry) {
            Ok(id) => {
                self.tabs[index].sync_active_pane();
                proof {
                    lemma_changed_tab(before, self.tabs@, index as int, self.next_id);
                }
                Some(id)
            },
            Err(_) => {
                proof {
                    assert(self.tabs@ =~= before);
                }
                None
            },
        }
    }

    /// A session changed its title. A title that the user set stays; otherwise
    /// the pane takes the new one over, and with the active pane its tab does.
    pub fn title_changed(
        &mut self,
        tab_id: u64,
        pane_id: u64,
        title: &str,
        current: Option<usize>,
    ) -> (update: TitleUpdate)
        requires
            old(self).valid(),
        ensures
            final(self).valid(),
            final(self).next() == old(self).next(),
            match tab_place(old(self).tabs(), tab_id, 0) {
                None => update is Ignored && final(self).tabs() == old(self).tabs(),
                Some(place) => {
                    let tab = old(self).tabs()[place];
                    let changed = final(self).tabs()[place];
                    if !tab.panes@.dom().contains(pane_id) || tab.title_locked
                        || tab.panes@[pane_id].title_locked {
                        update is Ignored && final(self).tabs() == old(self).tabs()
                    } else {
                        &&& final(self).tabs() == old(self).tabs().update(place, changed)
                        &&& changed.id == tab.id
                        &&& changed.color == tab.color
                        &&& changed.title_locked == tab.title_locked
                        &&& changed.panes.same_notes(&tab.panes)
                        &&& changed.panes.order() == tab.panes.order()
                        &&& changed.panes.active_pane() == tab.panes.active_pane()
                        &&& changed.panes.zoomed_pane() == tab.panes.zoomed_pane()
                        &&& retitled(tab.panes@, changed.panes@, pane_id, title@, false)
                        &&& if tab.panes.active_pane() == pane_id {
                            &&& changed.title@ == title@
                            &&& update == (TitleUpdate::Tab {
                                window: current is Some && current->0 == place,
                            })
                        } else {
                            changed.title@ == tab.title@ && update is Pane
                        }
                    }
                },
            },
    {
        let index: usize = match self.position(tab_id) {
            Some(index) => index,
            None => {
                return TitleUpdate::Ignored;
            },
        };
        let ghost before = self.tabs@;
        proof {
            assert(before[index as int].valid());
        }
        let locked = match self.tabs[index].panes.get(pane_id) {
            Some(pane) => pane.title_locked,
            None => true,
        };
        if locked || self.tabs[index].title_locked {
            return TitleUpdate::Ignored;
        }
        if let Some(pane) = self.tabs[index].panes.get_mut(pane_id) {
            pane.title = title.to_owned();
        }
        let active = self.tabs[index].panes.active_id() == pane_id;
        if active {
            self.tabs[index].title = title.to_owned();
        }
        proof {
            lemma_changed_tab(before, self.tabs@, index as int, self.next_id);
        }
        if active {
            TitleUpdate::Tab {
                window: match current {
                    Some(shown) => shown == index,
                    None => false,
                },
            }
        } else {
            TitleUpdate::Pane
        }
    }

    /// The user set the title of a tab: the tab and its active pane keep it.
    /// Tells whether there is such a tab.
    pub fn rename(&mut self, tab_id: u64, title: &str) -> (renamed: bool)
        requires
            old(self).valid(),
        ensures
            final(self).valid(),
            final(self).next() == old(self).next(),
            match tab_place(old(self).tabs(), tab_id, 0) {
                None => !renamed && final(self).tabs() == old(self).tabs(),
                Some(place) => {
                    let tab = old(self).tabs()[place];
                    let changed = final(self).tabs()[place];
                    &&& renamed
                    &&& final(self).tabs() == old(self).tabs().update(place, changed)
                    &&& changed.id == tab.id
                    &&& changed.color == tab.color
                    &&& changed.title_locked
                    &&& changed.title@ == title@
                    &&& changed.panes.same_notes(&tab.panes)
                    &&& changed.panes.order() == tab.panes.order()
                    &&& changed.panes.active_pane() == tab.panes.active_pane()
                    &&& changed.panes.zoomed_pane() == tab.panes.zoomed_pane()
                    &&& retitled(
                        tab.panes@,
                        changed.panes@,
                        tab.panes.active_pane(),
                        title@,
                        true,
                    )
                },
            },
    {
        let index: usize = match self.position(tab_id) {
            Some(index) => index,
            None => {
                return false;
            },
        };
        let ghost before = self.tabs@;
        proof {
            assert(before[index as int].valid());
            let panes = before[index as int].panes;
            panes.lemma_mirrors();
        }
        let active: u64 = self.tabs[index].panes.active_id();
        if let Some(pane) = self.tabs[index].panes.get_mut(active) {
            pane.title = title.to_owned();
            pane.title_locked = true;
        }
        self.tabs[index].title = title.to_owned();
        self.tabs[index].title_locked = true;
        proof {
            lemma_changed_tab(before, self.tabs@, index as int, self.next_id);
        }
        true
    }

    /// The user set or took away the colour of a tab. Tells whether there is
    /// such a tab.
    pub fn set_color(&mut self, tab_id: u64, color: Option<String>) -> (colored: bool)
        requires
            old(self).valid(),
        ensures
            final(self).valid(),
            final(self).next() == old(self).next(),
            match tab_place(old(self).tabs(), tab_id, 0) {
                None => !colored && final(self).tabs() == old(self).tabs(),
                Some(place) => {
                    &&& colored
                    &&& final(self).tabs() == old(self).tabs().update(
                        place,
                        (TabEntry { color, ..old(self).tabs()[place] }),
                    )
                },
            },
    {
        let index: usize = match self.position(tab_id) {
            Some(index) => index,
            None => {
                return false;
            },
        };
        let ghost before = self.tabs@;
        proof {
            assert(before[index as int].valid());
        }
        self.tabs[index].color = color;
        proof {
            lemma_changed_tab(before, self.tabs@, index as int, self.next_id);
        }
        true
    }

    /// The panes of all tabs, as a template looks for its own.
    pub fn template_candidates(&self) -> (candidates: Vec<TemplateCandidate>)
        ensures
            candidate_views(candidates@) == all_candidates(
                self.tabs(),
                self.tabs().len() as int,
            ),
    {
        let mut candidates: Vec<TemplateCandidate> = Vec::new();
        let mut index: usize = 0;
        proof {
            assert(candidate_views(candidates@) =~= Seq::<CandidateView>::empty());
        }
        while index < self.tabs.len()
            invariant
                index <= self.tabs@.len(),
                candidate_views(candidates@) == all_candidates(self.tabs@, index as int),
            decreases self.tabs@.len() - index,
        {
            let tab = &self.tabs[index];
            let ghost before = candidate_views(candidates@);
            let ghost listing = tab.panes.listing();
            let mut at: usize = 0;
            proof {
                assert(before + Seq::<CandidateView>::empty() =~= before);
            }
            while at < tab.panes.len()
                invariant
                    listing == tab.panes.listing(),
                    at <= listing.len(),
                    candidate_views(candidates@) == before + pane_candidates(
                        listing,
                        index as int,
                        at as int,
                    ),
                decreases listing.len() - at,
            {
                let entry = tab.panes.entry_at(at);
                let ghost held = candidates@;
                let candidate = TemplateCandidate {
                    tab_index: index,
                    pane_id: entry.0,
                    template_name: copy_optional(&entry.1.template_name),
                };
                candidates.push(candidate);
                at += 1;
                proof {
                    let view = candidate_view(candidate);
                    assert(candidate_views(candidates@) =~= candidate_views(held).push(view));
                    assert(before + pane_candidates(listing, index as int, at - 1).push(view)
                        =~= (before + pane_candidates(listing, index as int, at - 1)).push(view));
                }
            }
            index += 1;
        }
        candidates
    }
}

/// A candidate as a value: its tab, its pane, and its template.
pub type CandidateView = (int, u64, Option<Seq<char>>);

pub open spec fn candidate_view(candidate: TemplateCandidate) -> CandidateView {
    (candidate.tab_index as int, candidate.pane_id, optional_text(candidate.template_name))
}

pub open spec fn candidate_views(candidates: Seq<TemplateCandidate>) -> Seq<CandidateView> {
    candidates.map_values(|candidate: TemplateCandidate| candidate_view(candidate))
}

/// The candidates of the first panes of a tab.
pub open spec fn pane_candidates<S>(
    panes: Seq<(u64, PaneEntry<S>)>,
    tab: int,
    count: int,
) -> Seq<CandidateView>
    decreases count,
{
    if count <= 0 {
        Seq::empty()
    } else {
        pane_candidates(panes, tab, count - 1).push(
            (tab, panes[count - 1].0, optional_text(panes[count - 1].1.template_name)),
        )
    }
}

/// The candidates of the first tabs.
pub open spec fn all_candidates<S>(tabs: Seq<TabEntry<S>>, count: int) -> Seq<CandidateView>
    decreases count,
{
    if count <= 0 {
        Seq::empty()
    } else {
        all_candidates(tabs, count - 1) + pane_candidates(
            tabs[count - 1].panes.listing(),
            count - 1,
            tabs[count - 1].panes.listing().len() as int,
        )
    }
}

/// The remote of the first pane from `from` on that is on one.
pub open spec fn first_remote<S>(panes: Seq<(u64, PaneEntry<S>)>, from: int) -> Option<Seq<char>>
    decreases panes.len() - from,
{
    if from < 0 || from >= panes.len() {
        None
    } else if panes[from].1.remote_name is Some {
        optional_text(panes[from].1.remote_name)
    } else {
        first_remote(panes, from + 1)
    }
}

fn first_remote_of<S>(tab: &TabEntry<S>) -> (name: Option<String>)
    ensures
        optional_text(name) == first_remote(tab.panes.listing(), 0),
{
    let ghost listing = tab.panes.listing();
    let mut index: usize = 0;
    while index < tab.panes.len()
        invariant
            listing == tab.panes.listing(),
            index <= listing.len(),
            first_remote(listing, 0) == first_remote(listing, index as int),
        decreases listing.len() - index,
    {
        let pane = &tab.panes.entry_at(index).1;
        if pane.remote_name.is_some() {
            return copy_optional(&pane.remote_name);
        }
        index += 1;
    }
    None
}

/// Whether a list holds an identity.
fn holds(ids: &Vec<u64>, id: u64) -> (held: bool)
    ensures
        held == ids@.contains(id),
{
    let mut index: usize = 0;
    while index < ids.len()
        invariant
            index <= ids@.len(),
            forall|i: int| 0 <= i < index ==> ids@[i] != id,
        decreases ids@.len() - index,
    {
        if ids[index] == id {
            return true;
        }
        index += 1;
    }
    false
}

/// After a remote is left, no tab has a pane on it, and every other tab is
/// still there.
pub proof fn law_disconnecting_leaves_no_pane_behind<S>(
    tabs: Seq<TabEntry<S>>,
    remote: Seq<char>,
    tab: TabEntry<S>,
)
    ensures
        tabs.filter(|tab: TabEntry<S>| !uses_remote(tab, remote)).contains(tab) <==> tabs.contains(
            tab,
        ) && !uses_remote(tab, remote),
    decreases tabs.len(),
{
    reveal(Seq::filter);
    let stays = |tab: TabEntry<S>| !uses_remote(tab, remote);
    if tabs.len() > 0 {
        let front = tabs.drop_last();
        law_disconnecting_leaves_no_pane_behind(front, remote, tab);
        assert(tabs =~= front.push(tabs.last()));
        let kept = front.filter(stays);
        if front.contains(tab) {
            let i = choose|i: int| 0 <= i < front.len() && front[i] == tab;
            assert(tabs[i] == tab);
        }
        if tabs.contains(tab) && tab != tabs.last() {
            let i = choose|i: int| 0 <= i < tabs.len() && tabs[i] == tab;
            assert(front[i] == tab);
        }
        if stays(tabs.last()) {
            let whole = kept.push(tabs.last());
            if kept.contains(tab) {
                let i = choose|i: int| 0 <= i < kept.len() && kept[i] == tab;
                assert(whole[i] == tab);
            }
            assert(whole[kept.len() as int] == tabs.last());
            if whole.contains(tab) && tab != tabs.last() {
                let i = choose|i: int| 0 <= i < whole.len() && whole[i] == tab;
                assert(kept[i] == tab);
            }
        }
    }
}

/// Filtering one more element adds it or leaves it out.
proof fn lemma_filter_step<T>(all: Seq<T>, count: int, keep: spec_fn(T) -> bool)
    requires
        0 <= count < all.len(),
    ensures
        all.take(count + 1).filter(keep) == (if keep(all[count]) {
            all.take(count).filter(keep).push(all[count])
        } else {
            all.take(count).filter(keep)
        }),
{
    reveal(Seq::filter);
    assert(all.take(count + 1).drop_last() =~= all.take(count));
    assert(all.take(count + 1).last() == all[count]);
}

/// Two conditions that agree on every element filter alike.
proof fn lemma_same_filter<T>(all: Seq<T>, left: spec_fn(T) -> bool, right: spec_fn(T) -> bool)
    requires
        forall|i: int| 0 <= i < all.len() ==> left(#[trigger] all[i]) == right(all[i]),
    ensures
        all.filter(left) == all.filter(right),
    decreases all.len(),
{
    reveal(Seq::filter);
    if all.len() > 0 {
        assert forall|i: int| 0 <= i < all.drop_last().len() implies left(
            #[trigger] all.drop_last()[i],
        ) == right(all.drop_last()[i]) by {
            assert(all.drop_last()[i] == all[i]);
        }
        lemma_same_filter(all.drop_last(), left, right);
        assert(left(all[all.len() - 1]) == right(all[all.len() - 1]));
    }
}

/// Tabs stay valid and distinct when some are left out.
proof fn lemma_filtered_tabs<S>(
    all: Seq<TabEntry<S>>,
    keep: spec_fn(TabEntry<S>) -> bool,
    next_id: u64,
)
    requires
        distinct_tabs(all),
        forall|i: int| 0 <= i < all.len() ==> (#[trigger] all[i]).valid() && all[i].id < next_id,
    ensures
        distinct_tabs(all.filter(keep)),
        forall|i: int|
            0 <= i < all.filter(keep).len() ==> (#[trigger] all.filter(keep)[i]).valid()
                && all.filter(keep)[i].id < next_id && exists|j: int|
                0 <= j < all.len() && #[trigger] all[j] == all.filter(keep)[i],
    decreases all.len(),
{
    reveal(Seq::filter);
    if all.len() > 0 {
        let front = all.drop_last();
        assert forall|i: int| 0 <= i < front.len() implies (#[trigger] front[i]).valid()
            && front[i].id < next_id by {
            assert(front[i] == all[i]);
        }
        assert(distinct_tabs(front)) by {
            assert forall|i: int, j: int| 0 <= i < j < front.len() implies (#[trigger]
            front[i]).id != (#[trigger] front[j]).id by {
                assert(all[i].id != all[j].id);
            }
        }
        lemma_filtered_tabs(front, keep, next_id);
        let kept = front.filter(keep);
        let whole = all.filter(keep);
        let last = all[all.len() - 1];
        assert forall|i: int| 0 <= i < whole.len() implies (#[trigger] whole[i]).valid()
            && whole[i].id < next_id && exists|j: int|
            0 <= j < all.len() && #[trigger] all[j] == whole[i] by {
            if i < kept.len() {
                assert(whole[i] == kept[i]);
                let j = choose|j: int| 0 <= j < front.len() && #[trigger] front[j] == kept[i];
                assert(all[j] == whole[i]);
            } else {
                assert(whole[i] == last);
                assert(all[all.len() - 1] == whole[i]);
            }
        }
        assert forall|i: int, j: int| 0 <= i < j < whole.len() implies (#[trigger] whole[i]).id != (
        #[trigger] whole[j]).id by {
            assert(whole[i] == kept[i]);
            if j < kept.len() {
                assert(whole[j] == kept[j]);
            } else {
                assert(whole[j] == last);
                let at = choose|at: int| 0 <= at < front.len() && #[trigger] front[at] == kept[i];
                assert(all[at].id != all[all.len() - 1].id);
            }
        }
    }
}

/// Tabs stay valid and distinct when one changes but keeps its identity.
proof fn lemma_changed_tab<S>(
    before: Seq<TabEntry<S>>,
    after: Seq<TabEntry<S>>,
    index: int,
    next_id: u64,
)
    requires
        distinct_tabs(before),
        forall|i: int|
            0 <= i < before.len() ==> (#[trigger] before[i]).valid() && before[i].id < next_id,
        0 <= index < before.len(),
        after.len() == before.len(),
        forall|i: int| 0 <= i < before.len() && i != index ==> #[trigger] after[i] == before[i],
        after[index].valid(),
        after[index].id == before[index].id,
    ensures
        after == before.update(index, after[index]),
        distinct_tabs(after),
        forall|i: int|
            0 <= i < after.len() ==> (#[trigger] after[i]).valid() && after[i].id < next_id,
{
    assert(after =~= before.update(index, after[index]));
    assert forall|i: int| 0 <= i < after.len() implies (#[trigger] after[i]).valid() && after[i].id
        < next_id by {
        assert(before[i].valid() && before[i].id < next_id);
    }
    assert forall|i: int, j: int| 0 <= i < j < after.len() implies (#[trigger] after[i]).id != (
    #[trigger] after[j]).id by {
        assert(before[i].id != before[j].id);
    }
}

/// Tabs stay distinct when one is taken out.
proof fn lemma_removed_tabs<S>(all: Seq<TabEntry<S>>, index: int)
    requires
        distinct_tabs(all),
        0 <= index < all.len(),
    ensures
        distinct_tabs(all.remove(index)),
        forall|i: int|
            0 <= i < all.remove(index).len() ==> #[trigger] all.remove(index)[i] == all[if i
                < index {
                i
            } else {
                i + 1
            }],
{
    let left = all.remove(index);
    assert forall|i: int, j: int| 0 <= i < j < left.len() implies (#[trigger] left[i]).id != (
    #[trigger] left[j]).id by {
        let from = if i < index {
            i
        } else {
            i + 1
        };
        let to = if j < index {
            j
        } else {
            j + 1
        };
        assert(all[from].id != all[to].id);
    }
}

/// A tab is called what its active pane is called, until the user names either; then it
/// keeps its own title.
pub proof fn law_titles_of_users_stay<S>(title: Seq<char>, locked: bool, pane: PaneEntry<S>)
    ensures
        !locked && !pane.title_locked ==> synced_title(title, locked, pane) == pane.title@,
        locked ==> synced_title(title, locked, pane) == title,
        pane.title_locked ==> synced_title(title, locked, pane) == title,
{
}

/// A tab is found by its identity at its own place, and what is not there is not found.
pub proof fn law_tabs_are_found_by_identity<S>(tabs: Seq<TabEntry<S>>, id: u64, from: int)
    requires
        0 <= from,
    ensures
        match tab_place(tabs, id, from) {
            Some(place) => from <= place < tabs.len() && tabs[place].id == id && forall|i: int|
                from <= i < place ==> (#[trigger] tabs[i]).id != id,
            None => forall|i: int| from <= i < tabs.len() ==> (#[trigger] tabs[i]).id != id,
        },
    decreases tabs.len() - from,
{
    if from < tabs.len() && tabs[from].id != id {
        law_tabs_are_found_by_identity(tabs, id, from + 1);
    }
}

/// A pane with a session is asked about under the session's own name, at its own daemon
/// and under the pane's title; one without is not asked about, and a nameless session
/// only where names do not matter.
pub proof fn law_sessions_are_asked_about_by_name<S>(
    pane: PaneEntry<S>,
    named: bool,
    session: String,
)
    ensures
        pane.session_id is None ==> pane_query(pane, named) is None,
        pane.session_id == Some(session) ==> (pane_query(pane, named) is None <==> named
            && session@.len() == 0),
        pane.session_id == Some(session) ==> (pane_query(pane, named) matches Some(query) ==> {
            &&& query.session_id == session@
            &&& query.title == pane.title@
            &&& query.daemon_socket is Some <==> pane.daemon_socket is Some
            &&& pane.daemon_socket matches Some(socket) ==> query.daemon_socket == Some(socket@)
        }),
{
}

proof fn lemma_pane_is_asked<S>(
    panes: Seq<(u64, PaneEntry<S>)>,
    count: int,
    named: bool,
    pane: int,
)
    requires
        0 <= pane < count <= panes.len(),
        pane_query(panes[pane].1, named) is Some,
    ensures
        panes_queries(panes, count, named).contains(pane_query(panes[pane].1, named)->0),
    decreases count,
{
    let query = pane_query(panes[pane].1, named)->0;
    let all = panes_queries(panes, count, named);
    let before = panes_queries(panes, count - 1, named);
    if pane < count - 1 {
        lemma_pane_is_asked(panes, count - 1, named, pane);
        let i = choose|i: int| 0 <= i < before.len() && before[i] == query;
        assert(all[i] == query);
    } else {
        assert(all[before.len() as int] == query);
    }
}

/// Every session of every tab is asked about, except those of the tab that was left out.
pub proof fn law_every_session_is_asked_about<S>(
    tabs: Seq<TabEntry<S>>,
    count: int,
    named: bool,
    except: Option<u64>,
    tab: int,
    pane: int,
)
    requires
        0 <= tab < count <= tabs.len(),
        0 <= pane < tabs[tab].panes.listing().len(),
        except != Some(tabs[tab].id),
        pane_query(tabs[tab].panes.listing()[pane].1, named) is Some,
    ensures
        tabs_queries(tabs, count, named, except).contains(
            pane_query(tabs[tab].panes.listing()[pane].1, named)->0,
        ),
    decreases count,
{
    let query = pane_query(tabs[tab].panes.listing()[pane].1, named)->0;
    let all = tabs_queries(tabs, count, named, except);
    let before = tabs_queries(tabs, count - 1, named, except);
    if tab < count - 1 {
        law_every_session_is_asked_about(tabs, count - 1, named, except, tab, pane);
        let i = choose|i: int| 0 <= i < before.len() && before[i] == query;
        assert(all[i] == query);
    } else {
        let listing = tabs[tab].panes.listing();
        lemma_pane_is_asked(listing, listing.len() as int, named, pane);
        let own = tab_queries(tabs[tab], named);
        let i = choose|i: int| 0 <= i < own.len() && own[i] == query;
        assert(all[before.len() + i] == query);
    }
}

/// A tab that is left out is as good as not there: with it or without it the same is
/// asked.
pub proof fn law_excepted_tab_is_not_asked_about<S>(
    tabs: Seq<TabEntry<S>>,
    named: bool,
    tab: TabEntry<S>,
    except: Option<u64>,
)
    ensures
        tabs_queries(tabs.push(tab), tabs.len() + 1int, named, Some(tab.id)) == tabs_queries(
            tabs,
            tabs.len() as int,
            named,
            Some(tab.id),
        ),
        except != Some(tab.id) ==> tabs_queries(tabs.push(tab), tabs.len() + 1int, named, except)
            == tabs_queries(tabs, tabs.len() as int, named, except) + tab_queries(tab, named),
{
    lemma_queries_of_first(tabs, tab, tabs.len() as int, named, Some(tab.id));
    lemma_queries_of_first(tabs, tab, tabs.len() as int, named, except);
}

proof fn lemma_queries_of_first<S>(
    tabs: Seq<TabEntry<S>>,
    tab: TabEntry<S>,
    count: int,
    named: bool,
    except: Option<u64>,
)
    requires
        count <= tabs.len(),
    ensures
        tabs_queries(tabs.push(tab), count, named, except) == tabs_queries(
            tabs,
            count,
            named,
            except,
        ),
    decreases count,
{
    if count > 0 {
        lemma_queries_of_first(tabs, tab, count - 1, named, except);
    }
}

/// A pane is on the remote that it names, and on no other.
pub proof fn law_panes_are_on_the_remote_they_name<S>(
    pane: PaneEntry<S>,
    remote: Seq<char>,
    name: String,
)
    ensures
        pane.remote_name is None ==> !on_remote(pane, remote),
        pane.remote_name == Some(name) ==> (on_remote(pane, remote) <==> name@ == remote),
{
}

/// Leaving a remote detaches exactly the terminals of the panes that are on it, of every
/// tab.
pub proof fn law_terminals_of_a_remote_are_detached<S>(
    tabs: Seq<TabEntry<S>>,
    count: int,
    remote: Seq<char>,
    terminal: u64,
)
    requires
        0 <= count <= tabs.len(),
    ensures
        detached_terminals(tabs, count, remote).contains(terminal) <==> exists|tab: int, pane: int|
            0 <= tab < count && 0 <= pane < tabs[tab].panes.listing().len() && on_remote(
                (#[trigger] tabs[tab].panes.listing()[pane]).1,
                remote,
            ) && tabs[tab].panes.listing()[pane].1.terminal == terminal,
    decreases count,
{
    if count > 0 {
        law_terminals_of_a_remote_are_detached(tabs, count - 1, remote, terminal);
        let listing = tabs[count - 1].panes.listing();
        let own = remote_terminals(listing, listing.len() as int, remote);
        let before = detached_terminals(tabs, count - 1, remote);
        let all = detached_terminals(tabs, count, remote);
        lemma_remote_terminals(listing, listing.len() as int, remote, terminal);
        if all.contains(terminal) {
            let i = choose|i: int| 0 <= i < all.len() && all[i] == terminal;
            if i < before.len() {
                assert(before[i] == terminal);
                assert(before.contains(terminal));
                let (tab, pane) = choose|tab: int, pane: int|
                    0 <= tab < count - 1 && 0 <= pane < tabs[tab].panes.listing().len() && on_remote(
                        (#[trigger] tabs[tab].panes.listing()[pane]).1,
                        remote,
                    ) && tabs[tab].panes.listing()[pane].1.terminal == terminal;
                assert(on_remote(tabs[tab].panes.listing()[pane].1, remote));
            } else {
                assert(own[i - before.len()] == terminal);
                assert(own.contains(terminal));
                let pane = choose|pane: int|
                    0 <= pane < listing.len() && on_remote((#[trigger] listing[pane]).1, remote)
                        && listing[pane].1.terminal == terminal;
                assert(on_remote(tabs[count - 1].panes.listing()[pane].1, remote));
            }
        }
        if exists|tab: int, pane: int|
            0 <= tab < count && 0 <= pane < tabs[tab].panes.listing().len() && on_remote(
                (#[trigger] tabs[tab].panes.listing()[pane]).1,
                remote,
            ) && tabs[tab].panes.listing()[pane].1.terminal == terminal {
            let (tab, pane) = choose|tab: int, pane: int|
                0 <= tab < count && 0 <= pane < tabs[tab].panes.listing().len() && on_remote(
                    (#[trigger] tabs[tab].panes.listing()[pane]).1,
                    remote,
                ) && tabs[tab].panes.listing()[pane].1.terminal == terminal;
            if tab < count - 1 {
                assert(on_remote(tabs[tab].panes.listing()[pane].1, remote));
                assert(before.contains(terminal));
                let i = choose|i: int| 0 <= i < before.len() && before[i] == terminal;
                assert(all[i] == terminal);
            } else {
                assert(on_remote(listing[pane].1, remote));
                assert(own.contains(terminal));
                let i = choose|i: int| 0 <= i < own.len() && own[i] == terminal;
                assert(all[before.len() + i] == terminal);
            }
        }
    }
}

proof fn lemma_remote_terminals<S>(
    panes: Seq<(u64, PaneEntry<S>)>,
    count: int,
    remote: Seq<char>,
    terminal: u64,
)
    requires
        0 <= count <= panes.len(),
    ensures
        remote_terminals(panes, count, remote).contains(terminal) <==> exists|pane: int|
            0 <= pane < count && on_remote((#[trigger] panes[pane]).1, remote)
                && panes[pane].1.terminal == terminal,
    decreases count,
{
    if count > 0 {
        lemma_remote_terminals(panes, count - 1, remote, terminal);
        let all = remote_terminals(panes, count, remote);
        let before = remote_terminals(panes, count - 1, remote);
        if all.contains(terminal) {
            let i = choose|i: int| 0 <= i < all.len() && all[i] == terminal;
            if i < before.len() {
                assert(before[i] == terminal);
                assert(before.contains(terminal));
            } else {
                assert(on_remote(panes[count - 1].1, remote));
            }
        }
        if exists|pane: int|
            0 <= pane < count && on_remote((#[trigger] panes[pane]).1, remote)
                && panes[pane].1.terminal == terminal {
            let pane = choose|pane: int|
                0 <= pane < count && on_remote((#[trigger] panes[pane]).1, remote)
                    && panes[pane].1.terminal == terminal;
            if pane < count - 1 {
                assert(on_remote(panes[pane].1, remote));
                assert(before.contains(terminal));
                let i = choose|i: int| 0 <= i < before.len() && before[i] == terminal;
                assert(all[i] == terminal);
            } else {
                assert(all[before.len() as int] == terminal);
            }
        }
    }
}

/// A new title is that of one pane: it is locked where the user set it or had set one
/// before, everything else about the pane stays, and so do all other panes.
pub proof fn law_new_title_is_that_of_one_pane<S>(
    before: Map<u64, PaneEntry<S>>,
    after: Map<u64, PaneEntry<S>>,
    pane: u64,
    title: Seq<char>,
    by_user: bool,
    other: u64,
)
    requires
        retitled(before, after, pane, title, by_user),
    ensures
        after.dom().contains(pane),
        after[pane].title@ == title,
        by_user ==> after[pane].title_locked,
        before[pane].title_locked ==> after[pane].title_locked,
        !by_user && !before[pane].title_locked ==> !after[pane].title_locked,
        after[pane].terminal == before[pane].terminal,
        after[pane].session_id == before[pane].session_id,
        after[pane].template_name == before[pane].template_name,
        other != pane ==> (after.dom().contains(other) <==> before.dom().contains(other)),
        other != pane && before.dom().contains(other) ==> after[other] == before[other],
{
}

proof fn lemma_pane_candidates<S>(panes: Seq<(u64, PaneEntry<S>)>, tab: int, count: int)
    requires
        0 <= count <= panes.len(),
    ensures
        pane_candidates(panes, tab, count).len() == count,
        forall|i: int|
            0 <= i < count ==> #[trigger] pane_candidates(panes, tab, count)[i] == (
                tab,
                panes[i].0,
                optional_text(panes[i].1.template_name),
            ),
    decreases count,
{
    if count > 0 {
        lemma_pane_candidates(panes, tab, count - 1);
    }
}

/// Every pane of every tab is looked at for a template: with the place of its tab, its own
/// identity and its own template.
pub proof fn law_every_pane_is_a_candidate<S>(
    tabs: Seq<TabEntry<S>>,
    count: int,
    tab: int,
    pane: int,
)
    requires
        0 <= tab < count <= tabs.len(),
        0 <= pane < tabs[tab].panes.listing().len(),
    ensures
        all_candidates(tabs, count).contains(
            (
                tab,
                tabs[tab].panes.listing()[pane].0,
                optional_text(tabs[tab].panes.listing()[pane].1.template_name),
            ),
        ),
    decreases count,
{
    let candidate = (
        tab,
        tabs[tab].panes.listing()[pane].0,
        optional_text(tabs[tab].panes.listing()[pane].1.template_name),
    );
    let all = all_candidates(tabs, count);
    let before = all_candidates(tabs, count - 1);
    if tab < count - 1 {
        law_every_pane_is_a_candidate(tabs, count - 1, tab, pane);
        let i = choose|i: int| 0 <= i < before.len() && before[i] == candidate;
        assert(all[i] == candidate);
    } else {
        let listing = tabs[tab].panes.listing();
        lemma_pane_candidates(listing, tab, listing.len() as int);
        let own = pane_candidates(listing, tab, listing.len() as int);
        assert(own[pane] == candidate);
        assert(all[before.len() + pane] == candidate);
    }
}

/// A tab belongs to the remote of its first pane that is on one; where no pane is on any,
/// it belongs to none.
pub proof fn law_first_remote_pane_decides<S>(panes: Seq<(u64, PaneEntry<S>)>, from: int)
    requires
        0 <= from,
    ensures
        match first_remote(panes, from) {
            Some(name) => exists|i: int|
                from <= i < panes.len() && on_remote((#[trigger] panes[i]).1, name) && forall|
                    j: int,
                |
                    from <= j < i ==> (#[trigger] panes[j]).1.remote_name is None,
            None => forall|i: int|
                from <= i < panes.len() ==> (#[trigger] panes[i]).1.remote_name is None,
        },
    decreases panes.len() - from,
{
    if from < panes.len() {
        if panes[from].1.remote_name is Some {
            assert(on_remote(panes[from].1, first_remote(panes, from)->0));
        } else {
            law_first_remote_pane_decides(panes, from + 1);
            if first_remote(panes, from + 1) is Some {
                let name = first_remote(panes, from)->0;
                let i = choose|i: int|
                    from + 1 <= i < panes.len() && on_remote((#[trigger] panes[i]).1, name)
                        && forall|j: int|
                        from + 1 <= j < i ==> (#[trigger] panes[j]).1.remote_name is None;
                assert(on_remote(panes[i].1, name));
            }
        }
    }
}

/// Closing a pane closes its tab.
pub open spec fn closes_tab(panes: nat, active: u64, pane: u64) -> bool {
    panes == 1 && active == pane
}

/// A tab goes with its only pane, stays while another is left, and stays where the pane
/// that is to be closed is not its own.
pub proof fn law_tabs_go_with_their_only_pane(panes: nat, active: u64, pane: u64)
    ensures
        closes_tab(1, pane, pane),
        panes > 1 ==> !closes_tab(panes, active, pane),
        active != pane ==> !closes_tab(1, active, pane),
{
}

} // verus!
