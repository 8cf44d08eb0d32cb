//! Relaunching the daemon in place: which sessions survive, and how the new
//! process is started.

use vstd::prelude::*;

use crate::text::{chars_of, decimal, decimal_text, digits_value, law_decimal_is_read_back};

verus! {

/// Saved state of a single session; screen data is kept separately.
#[derive(Debug, PartialEq, Eq)]
pub struct RelaunchSessionState {
    pub session_id: String,
    /// Raw PTY master file descriptor number (preserved across exec)
    pub master_fd: i32,
    /// Child process PID
    pub child_pid: i32,
    /// Terminal dimensions
    pub cols: usize,
    pub rows: usize,
    /// User-set custom title
    pub custom_title: String,
    /// Tab color override
    pub tab_color: String,
    /// Template name
    pub template_name: String,
    /// Scrollback lines setting
    pub scrollback_lines: usize,
}

/// Everything that the new process needs to take the sessions over.
#[derive(Debug, PartialEq, Eq)]
pub struct RelaunchState {
    pub sessions: Vec<RelaunchSessionState>,
    pub socket_path: String,
    pub scrollback_lines: usize,
}

/// A session as it is found when a relaunch is requested.
#[derive(Debug, PartialEq, Eq)]
pub struct LiveSession {
    pub session_id: String,
    /// The PTY master; remote sessions have none.
    pub master_fd: Option<i32>,
    pub child_pid: Option<i32>,
    pub cols: usize,
    pub rows: usize,
    pub custom_title: String,
    pub tab_color: String,
    pub template_name: String,
}

/// Why a relaunch cannot take place.
#[derive(Debug, Clone, Copy, PartialEq, Eq, Structural)]
pub enum RelaunchError {
    /// There are no sessions to preserve.
    NoSessions,
    /// The path of the binary holds a zero character.
    InvalidBinaryPath,
    /// The daemon's identity holds a zero character.
    InvalidIdentity,
}

impl LiveSession {
    /// A session can be preserved if it has a file descriptor and a process.
    pub open spec fn preservable(&self) -> bool {
        &&& self.master_fd matches Some(fd) && fd >= 0
        &&& self.child_pid matches Some(pid) && pid >= 0
    }

    /// What is saved of a session.
    pub open spec fn saved_as(&self, scrollback_lines: usize, state: RelaunchSessionState) -> bool {
        &&& state.session_id@ == self.session_id@
        &&& Some(state.master_fd) == self.master_fd
        &&& Some(state.child_pid) == self.child_pid
        &&& state.cols == self.cols
        &&& state.rows == self.rows
        &&& state.custom_title@ == self.custom_title@
        &&& state.tab_color@ == self.tab_color@
        &&& state.template_name@ == self.template_name@
        &&& state.scrollback_lines == scrollback_lines
    }

    fn save(&self, scrollback_lines: usize) -> (state: Option<RelaunchSessionState>)
        ensures
            match state {
                Some(state) => self.preservable() && self.saved_as(scrollback_lines, state),
                None => !self.preservable(),
            },
    {
        let master_fd: i32 = match self.master_fd {
            Some(fd) => fd,
            None => return None,
        };
        let child_pid: i32 = match self.child_pid {
            Some(pid) => pid,
            None => return None,
        };
        if master_fd < 0 || child_pid < 0 {
            return None;
        }
        Some(
            RelaunchSessionState {
                session_id: self.session_id.clone(),
                master_fd,
                child_pid,
                cols: self.cols,
                rows: self.rows,
                custom_title: self.custom_title.clone(),
                tab_color: self.tab_color.clone(),
                template_name: self.template_name.clone(),
                scrollback_lines,
            },
        )
    }
}

/// The sessions that can be preserved, in order.
pub open spec fn preserved(sessions: Seq<LiveSession>) -> Seq<LiveSession> {
    sessions.filter(|session: LiveSession| session.preservable())
}

/// The state holds exactly the sessions that can be preserved, in order.
pub open spec fn state_of(
    sessions: Seq<LiveSession>,
    scrollback_lines: usize,
    states: Seq<RelaunchSessionState>,
) -> bool {
    &&& states.len() == preserved(sessions).len()
    &&& forall|i: int|
        0 <= i < states.len() ==> (#[trigger] preserved(sessions)[i]).saved_as(
            scrollback_lines,
            states[i],
        )
}

/// Collects what the new process needs. Sessions without a file descriptor or a
/// process are left out.
pub fn collect_relaunch_state(
    sessions: &Vec<LiveSession>,
    socket_path: &str,
    scrollback_lines: usize,
) -> (state: RelaunchState)
    ensures
        state_of(sessions@, scrollback_lines, state.sessions@),
        state.socket_path@ == socket_path@,
        state.scrollback_lines == scrollback_lines,
{
    let mut states: Vec<RelaunchSessionState> = Vec::new();
    let mut index: usize = 0;
    proof {
        reveal(Seq::filter);
        assert(preserved(sessions@.take(0)) =~= Seq::<LiveSession>::empty());
    }
    while index < sessions.len()
        invariant
            index <= sessions@.len(),
            state_of(sessions@.take(index as int), scrollback_lines, states@),
        decreases sessions@.len() - index,
    {
        let ghost before = preserved(sessions@.take(index as int));
        let ghost old_states = states@;
        proof {
            reveal(Seq::filter);
            assert(sessions@.take(index + 1).drop_last() =~= sessions@.take(index as int));
            assert(sessions@.take(index + 1).last() == sessions@[index as int]);
        }
        match sessions[index].save(scrollback_lines) {
            Some(state) => {
                states.push(state);
                proof {
                    let after = preserved(sessions@.take(index + 1));
                    assert(after =~= before.push(sessions@[index as int]));
                    assert forall|i: int| 0 <= i < states@.len() implies (
                    #[trigger] after[i]).saved_as(scrollback_lines, states@[i]) by {
                        if i < before.len() {
                            assert(after[i] == before[i] && states@[i] == old_states[i]);
                        }
                    }
                }
            },
            None => {
                proof {
                    assert(preserved(sessions@.take(index + 1)) =~= before);
                }
            },
        }
        index += 1;
    }
    proof {
        assert(sessions@.take(sessions@.len() as int) =~= sessions@);
    }
    RelaunchState { sessions: states, socket_path: socket_path.to_owned(), scrollback_lines }
}

/// The directory in which a user's daemon leaves its state.
pub open spec fn relaunch_dir_text(uid: nat) -> Seq<char> {
    "/tmp/ctermd_relaunch_"@ + decimal(uid)
}

/// No two users share a directory, so that no daemon takes over another user's state.
pub proof fn law_users_have_directories_of_their_own(left: nat, right: nat)
    ensures
        relaunch_dir_text(left) == relaunch_dir_text(right) <==> left == right,
{
    law_decimal_is_read_back(left);
    law_decimal_is_read_back(right);
    let stem = "/tmp/ctermd_relaunch_"@;
    assert(relaunch_dir_text(left).skip(stem.len() as int) =~= decimal(left));
    assert(relaunch_dir_text(right).skip(stem.len() as int) =~= decimal(right));
}

/// The directory in which a user's daemon leaves its state.
pub fn relaunch_dir(uid: u32) -> (dir: String)
    ensures
        dir@ == relaunch_dir_text(uid as nat),
{
    let user = decimal_text(uid as u64);
    "/tmp/ctermd_relaunch_".to_owned().concat(user.as_str())
}

/// The file that holds a session's screen.
pub open spec fn screen_file_text(session_id: Seq<char>) -> Seq<char> {
    session_id + ".screen"@
}

/// No two sessions share a file.
pub proof fn law_sessions_have_files_of_their_own(left: Seq<char>, right: Seq<char>)
    ensures
        screen_file_text(left) == screen_file_text(right) <==> left == right,
        screen_file_text(left).take(left.len() as int) == left,
        screen_file_text(left).skip(left.len() as int) == ".screen"@,
{
    assert(screen_file_text(left).take(left.len() as int) =~= left);
    assert(screen_file_text(left).skip(left.len() as int) =~= ".screen"@);
    if screen_file_text(left) == screen_file_text(right) {
        assert(screen_file_text(right).take(right.len() as int) =~= right);
        assert(left.len() == right.len());
    }
}

/// The file that holds a session's screen.
pub fn screen_file_name(session_id: &str) -> (name: String)
    ensures
        name@ == screen_file_text(session_id@),
{
    session_id.to_owned().concat(".screen")
}

/// The file descriptors that must survive the relaunch.
pub fn preserved_descriptors(state: &RelaunchState) -> (result: Result<Vec<i32>, RelaunchError>)
    ensures
        match result {
            Ok(descriptors) => {
                &&& state.sessions@.len() > 0
                &&& descriptors@ == state.sessions@.map_values(
                    |session: RelaunchSessionState| session.master_fd,
                )
            },
            Err(error) => state.sessions@.len() == 0 && error == RelaunchError::NoSessions,
        },
{
    if state.sessions.len() == 0 {
        return Err(RelaunchError::NoSessions);
    }
    let mut descriptors: Vec<i32> = Vec::new();
    let mut index: usize = 0;
    while index < state.sessions.len()
        invariant
            index <= state.sessions@.len(),
            descriptors@.len() == index,
            forall|i: int|
                0 <= i < index ==> #[trigger] descriptors@[i] == state.sessions@[i].master_fd,
        decreases state.sessions@.len() - index,
    {
        descriptors.push(state.sessions[index].master_fd);
        index += 1;
    }
    proof {
        assert(descriptors@ =~= state.sessions@.map_values(
            |session: RelaunchSessionState| session.master_fd,
        ));
    }
    Ok(descriptors)
}

/// The text holds no zero character, and can be passed to another process.
pub open spec fn is_argument(text: Seq<char>) -> bool {
    !text.contains('\0')
}

fn is_argument_text(text: &str) -> (argument: bool)
    ensures
        argument == is_argument(text@),
{
    let chars = chars_of(text);
    let mut index: usize = 0;
    while index < chars.len()
        invariant
            chars@ == text@,
            index <= chars@.len(),
            forall|i: int| 0 <= i < index ==> chars@[i] != '\0',
        decreases chars@.len() - index,
    {
        if chars[index] == '\0' {
            proof {
                assert(text@[index as int] == '\0');
            }
            return false;
        }
        index += 1;
    }
    true
}

/// The arguments of the new process.
pub open spec fn relaunch_argument_texts(
    binary: Seq<char>,
    state_dir: Seq<char>,
    socket_path: Seq<char>,
    identity: Seq<char>,
    scrollback_lines: nat,
) -> Seq<Seq<char>> {
    seq![
        binary,
        "--foreground"@,
        "--relaunch-state"@,
        state_dir,
        "--listen"@,
        socket_path,
        "--identity"@,
        identity,
        "--scrollback"@,
        decimal(scrollback_lines),
    ]
}

/// Builds the arguments of the new process, which preserve the exact endpoint
/// identity.
pub fn relaunch_arguments(
    binary: &str,
    state_dir: &str,
    socket_path: &str,
    identity: &str,
    scrollback_lines: usize,
) -> (result: Result<Vec<String>, RelaunchError>)
    requires
        is_argument(state_dir@),
        is_argument(socket_path@),
    ensures
        match result {
            Ok(arguments) => {
                &&& is_argument(binary@)
                &&& is_argument(identity@)
                &&& arguments@.map_values(|argument: String| argument@) == relaunch_argument_texts(
                    binary@,
                    state_dir@,
                    socket_path@,
                    identity@,
                    scrollback_lines as nat,
                )
            },
            Err(RelaunchError::InvalidBinaryPath) => !is_argument(binary@),
            Err(RelaunchError::InvalidIdentity) => is_argument(binary@) && !is_argument(identity@),
            Err(_) => false,
        },
{
    if !is_argument_text(binary) {
        return Err(RelaunchError::InvalidBinaryPath);
    }
    if !is_argument_text(identity) {
        return Err(RelaunchError::InvalidIdentity);
    }
    let mut arguments: Vec<String> = Vec::new();
    arguments.push(binary.to_owned());
    arguments.push("--foreground".to_owned());
    arguments.push("--relaunch-state".to_owned());
    arguments.push(state_dir.to_owned());
    arguments.push("--listen".to_owned());
    arguments.push(socket_path.to_owned());
    arguments.push("--identity".to_owned());
    arguments.push(identity.to_owned());
    arguments.push("--scrollback".to_owned());
    arguments.push(decimal_text(scrollback_lines as u64));
    proof {
        assert(arguments@.map_values(|argument: String| argument@) =~= relaunch_argument_texts(
            binary@,
            state_dir@,
            socket_path@,
            identity@,
            scrollback_lines as nat,
        ));
    }
    Ok(arguments)
}

/// Exactly the sessions with a descriptor and a process are preserved, whole: what is
/// saved of one tells its identifier, descriptor, process, columns, rows, title, color
/// and template apart, and two sessions that are saved alike are alike.
pub proof fn law_sessions_are_saved_whole(
    left: LiveSession,
    right: LiveSession,
    scrollback_lines: usize,
    state: RelaunchSessionState,
)
    requires
        left.saved_as(scrollback_lines, state),
        right.saved_as(scrollback_lines, state),
    ensures
        left.session_id@ == state.session_id@,
        right.session_id@ == state.session_id@,
        left.cols == right.cols == state.cols,
        left.rows == right.rows == state.rows,
        left.custom_title@ == state.custom_title@,
        right.custom_title@ == state.custom_title@,
        left.tab_color@ == state.tab_color@,
        right.tab_color@ == state.tab_color@,
        left.template_name@ == state.template_name@,
        right.template_name@ == state.template_name@,
        left.master_fd == right.master_fd,
        left.child_pid == right.child_pid,
        left.master_fd == Some(state.master_fd),
        left.child_pid == Some(state.child_pid),
        state.scrollback_lines == scrollback_lines,
{
}

/// A remote session, which has no descriptor, is not preserved, nor is one without a
/// process or with a number that means none; every other session is.
pub proof fn law_local_sessions_are_preserved(session: LiveSession, fd: i32, pid: i32)
    ensures
        session.master_fd is None ==> !session.preservable(),
        session.child_pid is None ==> !session.preservable(),
        session.master_fd == Some(fd) && session.child_pid == Some(pid) ==> (session.preservable()
            <==> fd >= 0 && pid >= 0),
{
}

/// The sessions of a state are those that can be preserved, each of them and no other,
/// with their order kept.
pub proof fn law_state_holds_the_preservable_sessions(
    sessions: Seq<LiveSession>,
    scrollback_lines: usize,
    states: Seq<RelaunchSessionState>,
    session: LiveSession,
)
    requires
        state_of(sessions, scrollback_lines, states),
    ensures
        sessions.contains(session) && session.preservable() <==> preserved(sessions).contains(
            session,
        ),
        sessions.contains(session) && session.preservable() ==> exists|i: int|
            0 <= i < states.len() && #[trigger] states[i].session_id@ == session.session_id@
                && states[i].cols == session.cols && states[i].rows == session.rows
                && states[i].custom_title@ == session.custom_title@ && states[i].tab_color@
                == session.tab_color@,
        states.len() <= sessions.len(),
        preserved(sessions + seq![session]) == preserved(sessions) + (if session.preservable() {
            seq![session]
        } else {
            Seq::empty()
        }),
{
    lemma_filter_keeps(sessions, session);
    if sessions.contains(session) && session.preservable() {
        let i = choose|i: int|
            0 <= i < preserved(sessions).len() && preserved(sessions)[i] == session;
        assert(preserved(sessions)[i].saved_as(scrollback_lines, states[i]));
        assert(states[i].session_id@ == session.session_id@);
    }
    reveal(Seq::filter);
    assert((sessions + seq![session]).drop_last() =~= sessions);
    assert((sessions + seq![session]).last() == session);
    assert(preserved(sessions + seq![session]) =~= preserved(sessions) + (if session.preservable() {
        seq![session]
    } else {
        Seq::empty()
    }));
}

proof fn lemma_filter_keeps(sessions: Seq<LiveSession>, session: LiveSession)
    ensures
        sessions.contains(session) && session.preservable() <==> preserved(sessions).contains(
            session,
        ),
        preserved(sessions).len() <= sessions.len(),
    decreases sessions.len(),
{
    reveal(Seq::filter);
    if sessions.len() > 0 {
        let front = sessions.drop_last();
        lemma_filter_keeps(front, session);
        assert(sessions =~= front.push(sessions.last()));
        let kept = preserved(front);
        if sessions.last().preservable() {
            assert(preserved(sessions) =~= kept.push(sessions.last()));
            if preserved(sessions).contains(session) {
                let i = choose|i: int|
                    0 <= i < preserved(sessions).len() && preserved(sessions)[i] == session;
                if i < kept.len() {
                    assert(kept[i] == session);
                }
            }
            if kept.contains(session) {
                let i = choose|i: int| 0 <= i < kept.len() && kept[i] == session;
                assert(preserved(sessions)[i] == session);
            }
            if sessions.last() == session {
                assert(preserved(sessions)[kept.len() as int] == session);
            }
        } else {
            assert(preserved(sessions) =~= kept);
        }
        if sessions.contains(session) {
            let i = choose|i: int| 0 <= i < sessions.len() && sessions[i] == session;
            if i < front.len() {
                assert(front[i] == session);
            }
        }
        if front.contains(session) {
            let i = choose|i: int| 0 <= i < front.len() && front[i] == session;
            assert(sessions[i] == session);
        }
    }
}

/// The new process is told each thing behind the flag for it, and stays in the
/// foreground: where the state lies, where to listen, who it is and how much to keep.
pub proof fn law_flags_come_with_their_values(
    binary: Seq<char>,
    state_dir: Seq<char>,
    socket_path: Seq<char>,
    identity: Seq<char>,
    scrollback_lines: nat,
)
    ensures
        ({
            let arguments = relaunch_argument_texts(
                binary,
                state_dir,
                socket_path,
                identity,
                scrollback_lines,
            );
            &&& arguments[0] == binary
            &&& arguments.contains("--foreground"@)
            &&& exists|i: int|
                0 < i < arguments.len() - 1 && #[trigger] arguments[i] == "--relaunch-state"@
                    && arguments[i + 1] == state_dir
            &&& exists|i: int|
                0 < i < arguments.len() - 1 && #[trigger] arguments[i] == "--listen"@ && arguments[i
                    + 1] == socket_path
            &&& exists|i: int|
                0 < i < arguments.len() - 1 && #[trigger] arguments[i] == "--identity"@
                    && arguments[i + 1] == identity
            &&& exists|i: int|
                0 < i < arguments.len() - 1 && #[trigger] arguments[i] == "--scrollback"@
                    && digits_value(arguments[i + 1]) == scrollback_lines
        }),
{
    let arguments = relaunch_argument_texts(
        binary,
        state_dir,
        socket_path,
        identity,
        scrollback_lines,
    );
    law_decimal_is_read_back(scrollback_lines);
    assert(arguments[1] == "--foreground"@);
    assert(arguments[2] == "--relaunch-state"@ && arguments[2int + 1] == state_dir);
    assert(arguments[4] == "--listen"@ && arguments[4int + 1] == socket_path);
    assert(arguments[6] == "--identity"@ && arguments[6int + 1] == identity);
    assert(arguments[8] == "--scrollback"@ && arguments[8int + 1] == decimal(scrollback_lines));
}

/// A zero character anywhere keeps a text from being passed on, and nothing else does.
pub proof fn law_arguments_hold_no_zero(before: Seq<char>, after: Seq<char>)
    ensures
        !is_argument(before + seq!['\0'] + after),
        is_argument(before + after) <==> is_argument(before) && is_argument(after),
        is_argument(Seq::empty()),
{
    let whole = before + seq!['\0'] + after;
    assert(whole[before.len() as int] == '\0');
    let both = before + after;
    if !is_argument(before) {
        let i = choose|i: int| 0 <= i < before.len() && before[i] == '\0';
        assert(both[i] == '\0');
    }
    if !is_argument(after) {
        let i = choose|i: int| 0 <= i < after.len() && after[i] == '\0';
        assert(both[before.len() + i] == '\0');
    }
    if !is_argument(both) {
        let i = choose|i: int| 0 <= i < both.len() && both[i] == '\0';
        if i < before.len() {
            assert(before[i] == '\0');
        } else {
            assert(after[i - before.len()] == '\0');
        }
    }
}

} // verus!
