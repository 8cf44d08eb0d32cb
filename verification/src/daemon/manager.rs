//! The sessions of a daemon.

use vstd::prelude::*;

use crate::daemon::relaunch::{LiveSession, RelaunchSessionState};
use crate::daemon::session::{
    fresh_session, session_running, SessionState, SessionView,
};
use crate::keyed::{
    distinct_keys, has_key, keyed, lemma_keyed_empty, lemma_keyed_entry, lemma_keyed_index,
    lemma_keyed_pushed, lemma_keyed_removed,
};
use crate::text::same_text;

verus! {

/// Scrollback lines of a session where nothing else is configured.
pub const DEFAULT_SCROLLBACK_LINES: usize = 10000;

/// The signal that tells a process that its terminal is gone.
pub const SIGHUP: i32 = 1;

/// The signal that asks a process to end.
pub const SIGTERM: i32 = 15;

/// What the daemon runs on, as far as its sessions depend on it.
#[derive(Clone, Copy, Debug, PartialEq, Eq, Structural)]
pub enum Platform {
    Unix,
    Other,
}

impl Platform {
    /// The signal that ends a session where the client names none.
    pub open spec fn spec_default_signal(self) -> i32 {
        match self {
            Platform::Unix => SIGHUP,
            Platform::Other => SIGTERM,
        }
    }

    /// The signal that ends a session where the client names none.
    pub fn default_signal(self) -> (signal: i32)
        ensures
            signal == self.spec_default_signal(),
    {
        match self {
            Platform::Unix => SIGHUP,
            Platform::Other => SIGTERM,
        }
    }
}

/// The signal that ends a session: the one that the client names, if it names one.
pub open spec fn ending_signal(platform: Platform, named: Option<i32>) -> i32 {
    match named {
        Some(signal) => signal,
        None => platform.spec_default_signal(),
    }
}

/// A session ends with the signal that the client names. Where it names none, it is
/// told on Unix that its terminal is gone, and elsewhere to end.
pub proof fn law_client_chooses_the_signal(platform: Platform, named: i32)
    ensures
        ending_signal(platform, Some(named)) == named,
        ending_signal(Platform::Unix, None) == 1,
        ending_signal(Platform::Other, None) == 15,
        Platform::Unix.spec_default_signal() == 1,
        Platform::Other.spec_default_signal() == 15,
{
}

#[derive(Debug, PartialEq, Eq)]
pub enum HeadlessError {
    SessionNotFound(String),
    SessionAlreadyExists(String),
}

#[derive(Debug)]
struct NamedSession {
    name: String,
    id: String,
}

/// The sessions of a daemon, and the names under which some can be found.
#[derive(Debug)]
pub struct SessionManager {
    sessions: Vec<SessionState>,
    named: Vec<NamedSession>,
    scrollback_lines: usize,
    platform: Platform,
    had_sessions: bool,
}

pub open spec fn session_entries(sessions: Seq<SessionState>) -> Seq<(Seq<char>, SessionView)> {
    sessions.map_values(|session: SessionState| (session@.id, session@))
}

spec fn name_entries(named: Seq<NamedSession>) -> Seq<(Seq<char>, Seq<char>)> {
    named.map_values(|entry: NamedSession| (entry.name@, entry.id@))
}

/// A dimension within what a terminal can have.
pub open spec fn clamp_dimension(cells: usize) -> usize {
    if cells < 1 {
        1
    } else if cells > 65535 {
        65535
    } else {
        cells
    }
}

fn clamped(cells: usize) -> (dimension: usize)
    ensures
        dimension == clamp_dimension(cells),
{
    if cells < 1 {
        1
    } else if cells > 65535 {
        65535
    } else {
        cells
    }
}

/// `uuid::Uuid::new_v4` makes a random identifier, given here in its hyphenated
/// form. Nothing is said of which: two calls may differ, and need not.
#[verifier::external_body]
pub(crate) fn fresh_id() -> (id: String)
{
    uuid::Uuid::new_v4().to_string()
}

/// The names without those of one session.
pub open spec fn names_without(names: Map<Seq<char>, Seq<char>>, id: Seq<char>) -> Map<
    Seq<char>,
    Seq<char>,
> {
    names.restrict(Set::new(|name: Seq<char>| names.dom().contains(name) && names[name] != id))
}

/// The names without those of some sessions.
pub open spec fn names_without_all(
    names: Map<Seq<char>, Seq<char>>,
    ids: Set<Seq<char>>,
) -> Map<Seq<char>, Seq<char>> {
    names.restrict(
        Set::new(|name: Seq<char>| names.dom().contains(name) && !ids.contains(names[name])),
    )
}

/// The sessions that run.
pub open spec fn running_sessions(sessions: Map<Seq<char>, SessionView>) -> Map<
    Seq<char>,
    SessionView,
> {
    sessions.restrict(
        Set::new(
            |id: Seq<char>| sessions.dom().contains(id) && session_running(sessions[id]),
        ),
    )
}

/// The names without those of sessions that no longer run. A name whose session is
/// not there at all is left alone.
pub open spec fn names_of_living(
    names: Map<Seq<char>, Seq<char>>,
    sessions: Map<Seq<char>, SessionView>,
) -> Map<Seq<char>, Seq<char>> {
    names.restrict(
        Set::new(
            |name: Seq<char>|
                names.dom().contains(name) && !(sessions.dom().contains(names[name])
                    && !session_running(sessions[names[name]])),
        ),
    )
}

/// A session of a size was created under an identifier that was free before, or
/// nothing changed for the identifier was taken.
pub open spec fn created(
    before: &SessionManager,
    after: &SessionManager,
    cols: usize,
    rows: usize,
    connecting: bool,
    child_pid: Option<i32>,
    result: Result<String, HeadlessError>,
) -> bool {
    &&& after.names() == before.names()
    &&& after.same_settings(before)
    &&& match result {
        Ok(id) => {
            &&& !before.sessions().dom().contains(id@)
            &&& after.sessions() == before.sessions().insert(
                id@,
                fresh_session(id@, cols, rows, connecting, child_pid),
            )
            &&& after.count() == before.count() + 1
            &&& after.spec_had_sessions()
        },
        Err(error) => {
            &&& error matches HeadlessError::SessionAlreadyExists(id)
                && before.sessions().dom().contains(id@)
            &&& *after == *before
        },
    }
}

impl SessionManager {
    pub closed spec fn wf(&self) -> bool {
        &&& distinct_keys(session_entries(self.sessions@))
        &&& distinct_keys(name_entries(self.named@))
        &&& forall|i: int| 0 <= i < self.sessions@.len() ==> (#[trigger] self.sessions@[i]).wf()
    }

    /// The sessions by identifier.
    pub closed spec fn sessions(&self) -> Map<Seq<char>, SessionView> {
        keyed(session_entries(self.sessions@))
    }

    /// The identifiers of the named sessions, by name.
    pub closed spec fn names(&self) -> Map<Seq<char>, Seq<char>> {
        keyed(name_entries(self.named@))
    }

    pub closed spec fn count(&self) -> nat {
        self.sessions@.len()
    }

    /// The sessions in the order in which they are listed.
    pub closed spec fn listing(&self) -> Seq<SessionView> {
        self.sessions@.map_values(|session: SessionState| session@)
    }

    /// Listing the sessions shows each of them exactly once.
    pub proof fn law_listing_shows_each_session_once(&self, id: Seq<char>)
        requires
            self.wf(),
        ensures
            self.listing().len() == self.count(),
            self.sessions().dom().contains(id) <==> exists|i: int|
                0 <= i < self.listing().len() && (#[trigger] self.listing()[i]).id == id,
            forall|i: int, j: int|
                0 <= i < j < self.listing().len() ==> (#[trigger] self.listing()[i]).id != (
                #[trigger] self.listing()[j]).id,
            forall|i: int|
                0 <= i < self.listing().len() && (#[trigger] self.listing()[i]).id == id
                    ==> self.sessions()[id] == self.listing()[i],
    {
        let entries = session_entries(self.sessions@);
        assert(entries.len() == self.listing().len());
        assert forall|i: int| 0 <= i < self.listing().len() implies entries[i] == (
            (#[trigger] self.listing()[i]).id,
            self.listing()[i],
        ) by {}
        if self.sessions().dom().contains(id) {
            let i = lemma_keyed_index(entries, id);
            assert(self.listing()[i].id == id);
        }
        assert forall|i: int|
            0 <= i < self.listing().len() && (#[trigger] self.listing()[i]).id
                == id implies self.sessions().dom().contains(id) && self.sessions()[id]
            == self.listing()[i] by {
            assert(entries[i].0 == id);
            lemma_keyed_entry(entries, i);
        }
        assert forall|i: int, j: int| 0 <= i < j < self.listing().len() implies (
        #[trigger] self.listing()[i]).id != (#[trigger] self.listing()[j]).id by {
            assert(entries[i].0 != entries[j].0);
        }
    }

    pub closed spec fn spec_scrollback_lines(&self) -> usize {
        self.scrollback_lines
    }

    pub closed spec fn spec_platform(&self) -> Platform {
        self.platform
    }

    /// What sessions are started and ended with is as before.
    pub open spec fn same_settings(&self, other: &SessionManager) -> bool {
        &&& self.spec_scrollback_lines() == other.spec_scrollback_lines()
        &&& self.spec_platform() == other.spec_platform()
    }

    pub closed spec fn spec_had_sessions(&self) -> bool {
        self.had_sessions
    }

    /// Each session is found under its own identifier.
    pub proof fn law_sessions_are_found_by_id(&self, id: Seq<char>)
        requires
            self.wf(),
            self.sessions().dom().contains(id),
        ensures
            self.sessions()[id].id == id,
    {
        let i = lemma_keyed_index(session_entries(self.sessions@), id);
    }

    /// Create a new session manager with default scrollback (10000 lines)
    pub fn new() -> (manager: SessionManager)
        ensures
            manager.wf(),
            manager.sessions() == Map::<Seq<char>, SessionView>::empty(),
            manager.names() == Map::<Seq<char>, Seq<char>>::empty(),
            manager.count() == 0,
            manager.spec_scrollback_lines() == DEFAULT_SCROLLBACK_LINES,
            manager.spec_platform() == Platform::Unix,
            !manager.spec_had_sessions(),
    {
        SessionManager::with_scrollback(DEFAULT_SCROLLBACK_LINES)
    }

    /// Create a new session manager with custom scrollback. It takes itself to be on
    /// Unix until it is told otherwise.
    pub fn with_scrollback(scrollback_lines: usize) -> (manager: SessionManager)
        ensures
            manager.wf(),
            manager.sessions() == Map::<Seq<char>, SessionView>::empty(),
            manager.names() == Map::<Seq<char>, Seq<char>>::empty(),
            manager.count() == 0,
            manager.spec_scrollback_lines() == scrollback_lines,
            manager.spec_platform() == Platform::Unix,
            !manager.spec_had_sessions(),
    {
        let manager = SessionManager {
            sessions: Vec::new(),
            named: Vec::new(),
            scrollback_lines,
            platform: Platform::Unix,
            had_sessions: false,
        };
        proof {
            lemma_keyed_empty::<Seq<char>, SessionView>();
            lemma_keyed_empty::<Seq<char>, Seq<char>>();
            assert(session_entries(manager.sessions@) =~= Seq::empty());
            assert(name_entries(manager.named@) =~= Seq::empty());
        }
        manager
    }

    /// Tells the manager what it runs on.
    pub fn set_platform(&mut self, platform: Platform)
        requires
            old(self).wf(),
        ensures
            final(self).wf(),
            final(self).spec_platform() == platform,
            final(self).spec_scrollback_lines() == old(self).spec_scrollback_lines(),
            final(self).sessions() == old(self).sessions(),
            final(self).listing() == old(self).listing(),
            final(self).names() == old(self).names(),
            final(self).count() == old(self).count(),
            final(self).spec_had_sessions() == old(self).spec_had_sessions(),
    {
        self.platform = platform;
    }

    fn find(&self, id: &str) -> (found: Option<usize>)
        requires
            self.wf(),
        ensures
            match found {
                Some(index) => {
                    &&& index < self.sessions@.len()
                    &&& self.sessions@[index as int]@.id == id@
                    &&& self.sessions().dom().contains(id@)
                    &&& self.sessions()[id@] == self.sessions@[index as int]@
                },
                None => !self.sessions().dom().contains(id@) && !has_key(
                    session_entries(self.sessions@),
                    id@,
                ),
            },
    {
        let mut index: usize = 0;
        while index < self.sessions.len()
            invariant
                self.wf(),
                index <= self.sessions@.len(),
                forall|i: int|
                    0 <= i < index ==> (#[trigger] session_entries(self.sessions@)[i]).0 != id@,
            decreases self.sessions@.len() - index,
        {
            if same_text(self.sessions[index].id(), id) {
                proof {
                    lemma_keyed_entry(session_entries(self.sessions@), index as int);
                }
                return Some(index);
            }
            index += 1;
        }
        None
    }

    fn find_name(&self, name: &str) -> (found: Option<usize>)
        requires
            self.wf(),
        ensures
            match found {
                Some(index) => {
                    &&& index < self.named@.len()
                    &&& self.named@[index as int].name@ == name@
                    &&& self.names().dom().contains(name@)
                    &&& self.names()[name@] == self.named@[index as int].id@
                },
                None => !self.names().dom().contains(name@) && !has_key(
                    name_entries(self.named@),
                    name@,
                ),
            },
    {
        let mut index: usize = 0;
        while index < self.named.len()
            invariant
                self.wf(),
                index <= self.named@.len(),
                forall|i: int|
                    0 <= i < index ==> (#[trigger] name_entries(self.named@)[i]).0 != name@,
            decreases self.named@.len() - index,
        {
            if same_text(self.named[index].name.as_str(), name) {
                proof {
                    lemma_keyed_entry(name_entries(self.named@), index as int);
                }
                return Some(index);
            }
            index += 1;
        }
        None
    }

    /// Get a session by ID
    pub fn get_session(&self, id: &str) -> (result: Result<&SessionState, HeadlessError>)
        requires
            self.wf(),
        ensures
            match result {
                Ok(session) => self.sessions().dom().contains(id@) && session@
                    == self.sessions()[id@],
                Err(error) => !self.sessions().dom().contains(id@)
                    && (error matches HeadlessError::SessionNotFound(missing) && missing@ == id@),
            },
    {
        match self.find(id) {
            Some(index) => Ok(&self.sessions[index]),
            None => Err(HeadlessError::SessionNotFound(id.to_owned())),
        }
    }

    /// Takes a session out, to change it and put it back with [`Self::put_back`].
    pub(crate) fn take(&mut self, id: &str) -> (result: Option<SessionState>)
        requires
            old(self).wf(),
        ensures
            final(self).wf(),
            final(self).names() == old(self).names(),
            final(self).same_settings(old(self)),
            final(self).spec_had_sessions() == old(self).spec_had_sessions(),
            match result {
                Some(session) => {
                    &&& session.wf()
                    &&& session@.id == id@
                    &&& old(self).sessions().dom().contains(id@)
                    &&& session@ == old(self).sessions()[id@]
                    &&& final(self).sessions() == old(self).sessions().remove(id@)
                    &&& final(self).count() + 1 == old(self).count()
                },
                None => !old(self).sessions().dom().contains(id@) && *final(self) == *old(self),
            },
    {
        match self.find(id) {
            Some(index) => {
                let ghost before = self.sessions@;
                let session = self.sessions.remove(index);
                proof {
                    lemma_keyed_removed(session_entries(before), index as int);
                    assert(session_entries(self.sessions@) =~= session_entries(before).remove(
                        index as int,
                    ));
                    assert forall|i: int| 0 <= i < self.sessions@.len() implies (
                    #[trigger] self.sessions@[i]).wf() by {
                        let k = if i < index { i } else { i + 1 };
                        assert(self.sessions@[i] == before[k]);
                    }
                }
                Some(session)
            },
            None => None,
        }
    }

    pub(crate) fn put_back(&mut self, session: SessionState)
        requires
            old(self).wf(),
            session.wf(),
            !old(self).sessions().dom().contains(session@.id),
        ensures
            final(self).wf(),
            final(self).names() == old(self).names(),
            final(self).same_settings(old(self)),
            final(self).spec_had_sessions() == old(self).spec_had_sessions(),
            final(self).sessions() == old(self).sessions().insert(session@.id, session@),
            final(self).count() == old(self).count() + 1,
    {
        let ghost before = self.sessions@;
        proof {
            lemma_keyed_pushed(session_entries(before), (session@.id, session@));
        }
        self.sessions.push(session);
        proof {
            assert(session_entries(self.sessions@) =~= session_entries(before).push(
                (session@.id, session@),
            ));
        }
    }

    /// Stores a session. An identifier that is taken is refused.
    pub fn insert_session(&mut self, session: SessionState) -> (result: Result<(), HeadlessError>)
        requires
            old(self).wf(),
            session.wf(),
        ensures
            final(self).wf(),
            final(self).names() == old(self).names(),
            final(self).same_settings(old(self)),
            match result {
                Ok(()) => {
                    &&& !old(self).sessions().dom().contains(session@.id)
                    &&& final(self).sessions() == old(self).sessions().insert(
                        session@.id,
                        session@,
                    )
                    &&& final(self).count() == old(self).count() + 1
                    &&& final(self).spec_had_sessions()
                },
                Err(error) => {
                    &&& old(self).sessions().dom().contains(session@.id)
                    &&& error matches HeadlessError::SessionAlreadyExists(id) && id@ == session@.id
                    &&& *final(self) == *old(self)
                },
            },
    {
        match self.find(session.id()) {
            Some(_) => {
                let id = session.id().to_owned();
                return Err(HeadlessError::SessionAlreadyExists(id));
            },
            None => {},
        }
        self.put_back(session);
        self.had_sessions = true;
        Ok(())
    }

    /// Create a new terminal session under a fresh identifier, and give the
    /// identifier.
    pub fn create_session(&mut self, cols: usize, rows: usize, child_pid: Option<i32>) -> (result:
        Result<String, HeadlessError>)
        requires
            old(self).wf(),
        ensures
            final(self).wf(),
            created(
                old(self),
                final(self),
                clamp_dimension(cols),
                clamp_dimension(rows),
                false,
                child_pid,
                result,
            ),
    {
        self.create_session_with_size(clamped(cols), clamped(rows), child_pid)
    }

    /// Create a terminal session of a size that is known to fit.
    pub fn create_session_with_size(
        &mut self,
        cols: usize,
        rows: usize,
        child_pid: Option<i32>,
    ) -> (result: Result<String, HeadlessError>)
        requires
            old(self).wf(),
        ensures
            final(self).wf(),
            created(old(self), final(self), cols, rows, false, child_pid, result),
    {
        let id = fresh_id();
        let session = SessionState::new(id.clone(), cols, rows, child_pid);
        match self.insert_session(session) {
            Ok(()) => Ok(id),
            Err(error) => Err(error),
        }
    }

    /// Create a session whose connection is still being established, and give its
    /// identifier.
    pub fn create_ssh_session(&mut self, cols: usize, rows: usize) -> (result: Result<
        String,
        HeadlessError,
    >)
        requires
            old(self).wf(),
        ensures
            final(self).wf(),
            created(
                old(self),
                final(self),
                clamp_dimension(cols),
                clamp_dimension(rows),
                true,
                None,
                result,
            ),
    {
        self.create_ssh_session_with_size(clamped(cols), clamped(rows))
    }

    /// Create such a session of a size that is known to fit.
    pub fn create_ssh_session_with_size(&mut self, cols: usize, rows: usize) -> (result: Result<
        String,
        HeadlessError,
    >)
        requires
            old(self).wf(),
        ensures
            final(self).wf(),
            created(old(self), final(self), cols, rows, true, None, result),
    {
        let id = fresh_id();
        let session = SessionState::new_ssh_connecting(id.clone(), cols, rows);
        match self.insert_session(session) {
            Ok(()) => Ok(id),
            Err(error) => Err(error),
        }
    }

    /// List all sessions
    pub fn list_sessions(&self) -> (sessions: &Vec<SessionState>)
        requires
            self.wf(),
        ensures
            sessions@.len() == self.count(),
            distinct_keys(session_entries(sessions@)),
            keyed(session_entries(sessions@)) == self.sessions(),
            sessions@.map_values(|session: SessionState| session@) == self.listing(),
    {
        &self.sessions
    }

    /// Removes every name of a session.
    fn forget_names(&mut self, id: &str)
        requires
            old(self).wf(),
        ensures
            final(self).wf(),
            final(self).sessions() == old(self).sessions(),
            final(self).count() == old(self).count(),
            final(self).same_settings(old(self)),
            final(self).spec_had_sessions() == old(self).spec_had_sessions(),
            final(self).names() == names_without(old(self).names(), id@),
            final(self).sessions@ == old(self).sessions@,
    {
        let ghost before = self.names();
        let mut index: usize = 0;
        while index < self.named.len()
            invariant
                self.wf(),
                index <= self.named@.len(),
                before == old(self).names(),
                self.sessions@ == old(self).sessions@,
                self.sessions() == old(self).sessions(),
                self.count() == old(self).count(),
                self.same_settings(old(self)),
                self.spec_had_sessions() == old(self).spec_had_sessions(),
                forall|i: int| 0 <= i < index ==> (#[trigger] self.named@[i]).id@ != id@,
                forall|name: Seq<char>| #[trigger]
                    self.names().dom().contains(name) ==> before.dom().contains(name)
                        && before[name] == self.names()[name],
                forall|name: Seq<char>| #[trigger]
                    before.dom().contains(name) && before[name] != id@
                        ==> self.names().dom().contains(name),
            decreases self.named@.len() - index,
        {
            if same_text(self.named[index].id.as_str(), id) {
                let ghost old_named = self.named@;
                let ghost old_names = self.names();
                proof {
                    lemma_keyed_entry(name_entries(old_named), index as int);
                    lemma_keyed_removed(name_entries(old_named), index as int);
                    assert(name_entries(old_named.remove(index as int)) =~= name_entries(
                        old_named,
                    ).remove(index as int));
                }
                self.named.remove(index);
                proof {
                    assert(self.names() == old_names.remove(old_named[index as int].name@));
                    assert forall|i: int| 0 <= i < index implies (#[trigger] self.named@[i]).id@
                        != id@ by {
                        assert(self.named@[i] == old_named[i]);
                    }
                }
            } else {
                index += 1;
            }
        }
        proof {
            assert forall|name: Seq<char>| #[trigger] self.names().dom().contains(
                name,
            ) implies before[name] != id@ by {
                let i = lemma_keyed_index(name_entries(self.named@), name);
                assert(self.named@[i].id@ != id@);
            }
            assert(self.names() =~= names_without(before, id@));
        }
    }

    /// Destroy a session: the session, and the signal that must be sent to its child.
    pub fn destroy_session(&mut self, id: &str, signal: Option<i32>) -> (result: Result<
        (SessionState, i32),
        HeadlessError,
    >)
        requires
            old(self).wf(),
        ensures
            final(self).wf(),
            final(self).same_settings(old(self)),
            final(self).spec_had_sessions() == old(self).spec_had_sessions(),
            match result {
                Ok((session, sent)) => {
                    &&& old(self).sessions().dom().contains(id@)
                    &&& session@ == old(self).sessions()[id@]
                    &&& sent == ending_signal(old(self).spec_platform(), signal)
                    &&& final(self).sessions() == old(self).sessions().remove(id@)
                    &&& final(self).names() == names_without(old(self).names(), id@)
                    &&& final(self).count() + 1 == old(self).count()
                },
                Err(error) => {
                    &&& !old(self).sessions().dom().contains(id@)
                    &&& error matches HeadlessError::SessionNotFound(missing) && missing@ == id@
                    &&& *final(self) == *old(self)
                },
            },
    {
        let session = match self.take(id) {
            Some(session) => session,
            None => return Err(HeadlessError::SessionNotFound(id.to_owned())),
        };
        self.forget_names(id);
        let sent: i32 = match signal {
            Some(signal) => signal,
            None => self.platform.default_signal(),
        };
        Ok((session, sent))
    }

    /// Restore a session that was preserved across a relaunch. It replaces a session
    /// with the same identifier.
    pub fn restore_session(&mut self, state: &RelaunchSessionState)
        requires
            old(self).wf(),
        ensures
            final(self).wf(),
            final(self).names() == old(self).names(),
            final(self).same_settings(old(self)),
            final(self).spec_had_sessions(),
            final(self).sessions() == old(self).sessions().insert(
                state.session_id@,
                restored_view(*state),
            ),
            final(self).count() == old(self).count() + (if old(self).sessions().dom().contains(
                state.session_id@,
            ) {
                0int
            } else {
                1
            }),
    {
        let ghost before = self.sessions();
        let replaced = self.take(state.session_id.as_str());
        let session = SessionState::restored(
            state.session_id.clone(),
            state.child_pid,
            state.cols,
            state.rows,
            state.custom_title.clone(),
            state.tab_color.clone(),
            state.template_name.clone(),
        );
        self.put_back(session);
        self.had_sessions = true;
        proof {
            assert(before.remove(state.session_id@).insert(
                state.session_id@,
                restored_view(*state),
            ) =~= before.insert(state.session_id@, restored_view(*state)));
        }
    }

    /// The running session with a name, if there is one.
    pub fn find_running_by_name(&self, name: &str) -> (session: Option<&SessionState>)
        requires
            self.wf(),
        ensures
            match session {
                Some(session) => reusable_session(self, name@) == Some(session@),
                None => reusable_session(self, name@) is None,
            },
    {
        match self.get_session_by_name(name) {
            Some(session) => if session.is_running() {
                Some(session)
            } else {
                None
            },
            None => None,
        }
    }

    /// Look up a session by human-readable name.
    pub fn get_session_by_name(&self, name: &str) -> (session: Option<&SessionState>)
        requires
            self.wf(),
        ensures
            match session {
                Some(session) => named_session(self, name@) == Some(session@),
                None => named_session(self, name@) is None,
            },
    {
        match self.find_name(name) {
            Some(entry) => match self.find(self.named[entry].id.as_str()) {
                Some(index) => Some(&self.sessions[index]),
                None => None,
            },
            None => None,
        }
    }

    /// Gives a session a name; an earlier session of that name loses it.
    fn register_name(&mut self, name: &str, id: &str)
        requires
            old(self).wf(),
        ensures
            final(self).wf(),
            final(self).sessions() == old(self).sessions(),
            final(self).count() == old(self).count(),
            final(self).same_settings(old(self)),
            final(self).spec_had_sessions() == old(self).spec_had_sessions(),
            final(self).names() == old(self).names().insert(name@, id@),
    {
        let ghost before = self.named@;
        match self.find_name(name) {
            Some(index) => {
                proof {
                    lemma_keyed_removed(name_entries(before), index as int);
                    assert(name_entries(before.remove(index as int)) =~= name_entries(
                        before,
                    ).remove(index as int));
                }
                self.named.remove(index);
            },
            None => {
                proof {
                    assert(self.names().remove(name@) =~= self.names());
                }
            },
        }
        let ghost middle = self.named@;
        proof {
            assert(keyed(name_entries(middle)) == old(self).names().remove(name@));
            assert(!has_key(name_entries(middle), name@)) by {
                if has_key(name_entries(middle), name@) {
                    assert(keyed(name_entries(middle)).dom().contains(name@));
                }
            }
            lemma_keyed_pushed(name_entries(middle), (name@, id@));
        }
        self.named.push(NamedSession { name: name.to_owned(), id: id.to_owned() });
        proof {
            assert(name_entries(self.named@) =~= name_entries(middle).push((name@, id@)));
            assert(old(self).names().remove(name@).insert(name@, id@) =~= old(self).names().insert(
                name@,
                id@,
            ));
        }
    }

    /// Stores a session under a name: the session carries the name, and the name
    /// leads to it.
    pub fn insert_named_session(&mut self, name: &str, session: SessionState) -> (result: Result<
        (),
        HeadlessError,
    >)
        requires
            old(self).wf(),
            session.wf(),
        ensures
            final(self).wf(),
            final(self).same_settings(old(self)),
            match result {
                Ok(()) => {
                    &&& !old(self).sessions().dom().contains(session@.id)
                    &&& final(self).sessions() == old(self).sessions().insert(
                        session@.id,
                        (SessionView { session_name: Some(name@), ..session@ }),
                    )
                    &&& final(self).names() == old(self).names().insert(name@, session@.id)
                    &&& final(self).count() == old(self).count() + 1
                    &&& final(self).spec_had_sessions()
                },
                Err(error) => {
                    &&& old(self).sessions().dom().contains(session@.id)
                    &&& error matches HeadlessError::SessionAlreadyExists(id) && id@ == session@.id
                    &&& *final(self) == *old(self)
                },
            },
    {
        let mut named = session;
        let id = named.id().to_owned();
        named.set_session_name(Some(name.to_owned()));
        match self.insert_session(named) {
            Ok(()) => {},
            Err(error) => return Err(error),
        }
        self.register_name(name, id.as_str());
        Ok(())
    }

    /// Get or create a session by human-readable name: its identifier, and whether
    /// it was created. A running session of that name is reused.
    pub fn get_or_create_named_session(
        &mut self,
        name: &str,
        cols: usize,
        rows: usize,
        child_pid: Option<i32>,
    ) -> (result: Result<(String, bool), HeadlessError>)
        requires
            old(self).wf(),
        ensures
            final(self).wf(),
            final(self).same_settings(old(self)),
            reusable_session(old(self), name@) matches Some(found) ==> {
                &&& result matches Ok((id, created))
                &&& !created
                &&& id@ == found.id
                &&& *final(self) == *old(self)
            },
            reusable_session(old(self), name@) is None ==> (
            match result {
                Ok((id, created)) => {
                    &&& created
                    &&& !old(self).sessions().dom().contains(id@)
                    &&& final(self).sessions() == old(self).sessions().insert(
                        id@,
                        (SessionView {
                            session_name: Some(name@),
                            ..fresh_session(
                                id@,
                                clamp_dimension(cols),
                                clamp_dimension(rows),
                                false,
                                child_pid,
                            )
                        }),
                    )
                    &&& final(self).names() == old(self).names().insert(name@, id@)
                    &&& final(self).count() == old(self).count() + 1
                    &&& final(self).spec_had_sessions()
                },
                Err(error) => {
                    &&& error matches HeadlessError::SessionAlreadyExists(id) && old(
                        self,
                    ).sessions().dom().contains(id@)
                    &&& *final(self) == *old(self)
                },
            }),
    {
        match self.find_running_by_name(name) {
            Some(session) => {
                return Ok((session.id().to_owned(), false));
            },
            None => {},
        }
        let id = fresh_id();
        let session = SessionState::new(id.clone(), clamped(cols), clamped(rows), child_pid);
        match self.insert_named_session(name, session) {
            Ok(()) => Ok((id, true)),
            Err(error) => Err(error),
        }
    }

    /// Get the number of active sessions
    pub fn session_count(&self) -> (count: usize)
        ensures
            count == self.count(),
    {
        self.sessions.len()
    }

    /// Whether at least one session has ever been created
    pub fn had_sessions(&self) -> (had: bool)
        ensures
            had == self.spec_had_sessions(),
    {
        self.had_sessions
    }

    /// Scrollback lines of new sessions
    pub fn scrollback_lines(&self) -> (lines: usize)
        ensures
            lines == self.spec_scrollback_lines(),
    {
        self.scrollback_lines
    }

    /// Clean up dead sessions, returns the number of sessions removed
    pub fn cleanup_dead_sessions(&mut self) -> (removed: usize)
        requires
            old(self).wf(),
        ensures
            final(self).wf(),
            final(self).same_settings(old(self)),
            final(self).spec_had_sessions() == old(self).spec_had_sessions(),
            final(self).sessions() == running_sessions(old(self).sessions()),
            final(self).names() == names_of_living(old(self).names(), old(self).sessions()),
            final(self).count() + removed == old(self).count(),
    {
        let ghost before = self.sessions();
        let ghost names = self.names();
        let total: usize = self.sessions.len();
        let mut removed: usize = 0;
        let mut index: usize = 0;
        while index < self.sessions.len()
            invariant
                self.wf(),
                index <= self.sessions@.len(),
                before == old(self).sessions(),
                names == old(self).names(),
                self.same_settings(old(self)),
                self.spec_had_sessions() == old(self).spec_had_sessions(),
                self.count() + removed == old(self).count(),
                total == old(self).count(),
                forall|i: int|
                    0 <= i < index ==> session_running((#[trigger] self.sessions@[i])@),
                forall|id: Seq<char>| #[trigger]
                    self.sessions().dom().contains(id) ==> before.dom().contains(id)
                        && before[id] == self.sessions()[id],
                forall|id: Seq<char>| #[trigger]
                    before.dom().contains(id) && session_running(before[id])
                        ==> self.sessions().dom().contains(id),
                forall|name: Seq<char>| #[trigger]
                    self.names().dom().contains(name) ==> names.dom().contains(name)
                        && names[name] == self.names()[name] && (before.dom().contains(names[name])
                        ==> self.sessions().dom().contains(names[name])),
                forall|name: Seq<char>| #[trigger]
                    names.dom().contains(name) && !(before.dom().contains(names[name])
                        && !session_running(before[names[name]])) ==> self.names().dom().contains(
                        name,
                    ),
            decreases self.sessions@.len() - index,
        {
            if self.sessions[index].is_running() {
                index += 1;
            } else {
                let ghost old_sessions = self.sessions@;
                let ghost old_map = self.sessions();
                let ghost old_names = self.names();
                proof {
                    lemma_keyed_entry(session_entries(old_sessions), index as int);
                    lemma_keyed_removed(session_entries(old_sessions), index as int);
                    assert(session_entries(old_sessions.remove(index as int)) =~= session_entries(
                        old_sessions,
                    ).remove(index as int));
                }
                let dead = self.sessions.remove(index);
                proof {
                    assert forall|i: int| 0 <= i < self.sessions@.len() implies (
                    #[trigger] self.sessions@[i]).wf() by {
                        let k = if i < index { i } else { i + 1 };
                        assert(self.sessions@[i] == old_sessions[k]);
                    }
                    assert(self.sessions() == old_map.remove(dead@.id));
                    assert forall|i: int| 0 <= i < index implies session_running(
                        (#[trigger] self.sessions@[i])@,
                    ) by {
                        assert(self.sessions@[i] == old_sessions[i]);
                    }
                }
                self.forget_names(dead.id());
                removed += 1;
                proof {
                    assert(before.dom().contains(dead@.id) && !session_running(before[dead@.id]));
                }
            }
        }
        proof {
            assert forall|id: Seq<char>| #[trigger] self.sessions().dom().contains(
                id,
            ) implies session_running(before[id]) by {
                let i = lemma_keyed_index(session_entries(self.sessions@), id);
                assert(session_running(self.sessions@[i]@));
            }
            assert(self.sessions() =~= running_sessions(before));
            assert(self.names() =~= names_of_living(names, before));
        }
        removed
    }
}

impl Default for SessionManager {
    fn default() -> (manager: Self)
        ensures
            manager.wf(),
            manager.sessions() == Map::<Seq<char>, SessionView>::empty(),
            manager.names() == Map::<Seq<char>, Seq<char>>::empty(),
            manager.count() == 0,
            manager.spec_scrollback_lines() == DEFAULT_SCROLLBACK_LINES,
            manager.spec_platform() == Platform::Unix,
            !manager.spec_had_sessions(),
    {
        SessionManager::new()
    }
}

/// The session that a name leads to, if it is still there.
pub open spec fn named_session(manager: &SessionManager, name: Seq<char>) -> Option<SessionView> {
    if manager.names().dom().contains(name) && manager.sessions().dom().contains(
        manager.names()[name],
    ) {
        Some(manager.sessions()[manager.names()[name]])
    } else {
        None
    }
}

/// The session that a name leads to, if it still runs.
pub open spec fn reusable_session(manager: &SessionManager, name: Seq<char>) -> Option<
    SessionView,
> {
    match named_session(manager, name) {
        Some(session) => if session_running(session) {
            Some(session)
        } else {
            None
        },
        None => None,
    }
}

/// A session as it comes out of a relaunch.
pub open spec fn restored_view(state: RelaunchSessionState) -> SessionView {
    SessionView {
        custom_title: state.custom_title@,
        tab_color: state.tab_color@,
        template_name: state.template_name@,
        ..fresh_session(
            state.session_id@,
            state.cols,
            state.rows,
            false,
            Some(state.child_pid),
        )
    }
}

/// A session that is saved for a relaunch and restored from what was saved is the same
/// as before: identifier, columns, rows, title, color, template and process. It runs,
/// and nobody is attached to it yet.
pub proof fn law_relaunch_gives_sessions_back(
    live: LiveSession,
    scrollback_lines: usize,
    state: RelaunchSessionState,
)
    requires
        live.saved_as(scrollback_lines, state),
    ensures
        ({
            let session = restored_view(state);
            &&& session.id == live.session_id@
            &&& session.cols == live.cols
            &&& session.rows == live.rows
            &&& session.custom_title == live.custom_title@
            &&& session.tab_color == live.tab_color@
            &&& session.template_name == live.template_name@
            &&& session.child_pid == live.child_pid
            &&& session_running(session)
            &&& !session.connecting
            &&& session.attached_clients == 0
            &&& session.session_name is None
            &&& !session.alerted
            &&& session.accepting_transfers
            &&& session.prompts == Set::<Seq<char>>::empty()
        }),
{
}

/// A terminal has at least one cell each way and at most what it can count; a size
/// within that is kept, and a larger request never gives a smaller terminal.
pub proof fn law_dimensions_are_kept_within_bounds(cells: usize, more: usize)
    ensures
        1 <= clamp_dimension(cells) <= 65535,
        1 <= cells <= 65535 ==> clamp_dimension(cells) == cells,
        cells <= more ==> clamp_dimension(cells) <= clamp_dimension(more),
        clamp_dimension(0) == 1,
        cells >= 65535 ==> clamp_dimension(cells) == 65535,
{
}

/// When sessions go, exactly the names that lead to them go with them; every other
/// name leads where it led.
pub proof fn law_names_go_with_their_sessions(
    names: Map<Seq<char>, Seq<char>>,
    name: Seq<char>,
    id: Seq<char>,
    ids: Set<Seq<char>>,
)
    ensures
        names_without(names, id).dom().contains(name) <==> names.dom().contains(name) && names[name]
            != id,
        names_without(names, id).dom().contains(name) ==> names_without(names, id)[name]
            == names[name],
        names_without_all(names, ids).dom().contains(name) <==> names.dom().contains(name)
            && !ids.contains(names[name]),
        names_without_all(names, ids).dom().contains(name) ==> names_without_all(names, ids)[name]
            == names[name],
        names_without_all(names, Set::empty()) == names,
        names_without_all(names, Set::empty().insert(id)) == names_without(names, id),
{
    assert(names_without_all(names, Set::empty()) =~= names);
    assert(names_without_all(names, Set::empty().insert(id)) =~= names_without(names, id));
}

/// Cleaning up removes exactly the sessions that neither run nor connect, with their
/// names, and leaves the others as they are. Cleaning up again removes nothing.
pub proof fn law_only_the_dead_are_removed(
    sessions: Map<Seq<char>, SessionView>,
    names: Map<Seq<char>, Seq<char>>,
    id: Seq<char>,
    name: Seq<char>,
)
    ensures
        ({
            let left = running_sessions(sessions);
            &&& left.dom().contains(id) <==> sessions.dom().contains(id) && (sessions[id].connecting
                || sessions[id].child_running)
            &&& left.dom().contains(id) ==> left[id] == sessions[id]
            &&& running_sessions(left) == left
        }),
        names_of_living(names, sessions).dom().contains(name) ==> names.dom().contains(name)
            && names_of_living(names, sessions)[name] == names[name],
        names.dom().contains(name) && sessions.dom().contains(names[name]) ==> (names_of_living(
            names,
            sessions,
        ).dom().contains(name) <==> running_sessions(sessions).dom().contains(names[name])),
        names.dom().contains(name) && !sessions.dom().contains(names[name]) ==> names_of_living(
            names,
            sessions,
        ).dom().contains(name),
{
    let left = running_sessions(sessions);
    assert(running_sessions(left) =~= left);
}

/// A name leads to the session that it was given to; it can be reused while that
/// session runs, and not after.
pub proof fn law_names_lead_to_their_sessions(manager: &SessionManager, name: Seq<char>, id: Seq<char>)
    ensures
        manager.names().dom().contains(name) && manager.names()[name] == id
            && manager.sessions().dom().contains(id) ==> named_session(manager, name) == Some(
            manager.sessions()[id],
        ),
        !manager.names().dom().contains(name) ==> named_session(manager, name) is None,
        manager.names().dom().contains(name) && manager.names()[name] == id
            && !manager.sessions().dom().contains(id) ==> named_session(manager, name) is None,
        reusable_session(manager, name) matches Some(session) ==> named_session(manager, name)
            == Some(session) && (session.connecting || session.child_running),
        named_session(manager, name) matches Some(session) ==> session.connecting
            || session.child_running ==> reusable_session(manager, name) == Some(session),
{
}

/// A session that was created is found under the identifier that was given out, runs,
/// and has the size that was asked for; all other sessions are as before. Where none
/// was created, nothing changed.
pub proof fn law_created_sessions_are_there(
    before: &SessionManager,
    after: &SessionManager,
    cols: usize,
    rows: usize,
    connecting: bool,
    child_pid: Option<i32>,
    result: Result<String, HeadlessError>,
    other: Seq<char>,
)
    requires
        created(before, after, cols, rows, connecting, child_pid, result),
    ensures
        result matches Ok(id) ==> {
            let session = after.sessions()[id@];
            &&& after.sessions().dom().contains(id@)
            &&& !before.sessions().dom().contains(id@)
            &&& session.id == id@
            &&& session.cols == cols
            &&& session.rows == rows
            &&& session.connecting == connecting
            &&& session.child_pid == child_pid
            &&& session_running(session)
            &&& session.attached_clients == 0
            &&& other != id@ ==> (after.sessions().dom().contains(other)
                <==> before.sessions().dom().contains(other))
            &&& other != id@ && before.sessions().dom().contains(other) ==> after.sessions()[other]
                == before.sessions()[other]
        },
        result is Err ==> *after == *before,
        after.names() == before.names(),
        after.spec_platform() == before.spec_platform(),
        after.spec_scrollback_lines() == before.spec_scrollback_lines(),
{
}

} // verus!
