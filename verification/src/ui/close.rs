//! Closing tabs and windows while processes run in them, and what a window
//! shows about bells.

use crate::ui::tabs::SessionQuery;
use vstd::prelude::*;

verus! {

/// How long the answers about running processes are awaited, in nanoseconds.
pub const QUERY_LIMIT: u64 = 2_000_000_000;

/// The title of a window that shows no tab's.
pub const WINDOW_TITLE: &'static str = "cterm";

/// The title of a window in the background in which a bell rang.
pub const BELL_TITLE: &'static str = "\u{1f514} cterm";

/// What a session's daemon says about its processes.
#[derive(Debug)]
pub enum SessionStatus {
    /// The daemon could not be asked.
    Unknown,
    /// The shell waits for input.
    Idle,
    /// A process runs in the foreground. Its name may be empty.
    Running(String),
}

/// What the user is told about a session, where its processes stand in the way.
pub open spec fn obstacle(status: SessionStatus) -> Option<Seq<char>> {
    match status {
        SessionStatus::Unknown => Some("process status could not be checked"@),
        SessionStatus::Idle => None,
        SessionStatus::Running(name) => Some(
            if name@.len() == 0 {
                "a process"@
            } else {
                name@
            },
        ),
    }
}

/// What the user is told about the first sessions: the title of each, and what
/// stands in the way.
pub open spec fn obstacles(
    queries: Seq<SessionQuery>,
    statuses: Seq<SessionStatus>,
    count: int,
) -> Seq<(Seq<char>, Seq<char>)>
    decreases count,
{
    if count <= 0 {
        Seq::empty()
    } else {
        match obstacle(statuses[count - 1]) {
            Some(text) => obstacles(queries, statuses, count - 1).push(
                (queries[count - 1].title@, text),
            ),
            None => obstacles(queries, statuses, count - 1),
        }
    }
}

/// What the user is told, as values.
pub open spec fn told(running: Seq<(String, String)>) -> Seq<(Seq<char>, Seq<char>)> {
    running.map_values(|entry: (String, String)| (entry.0@, entry.1@))
}

/// What the user is told about the sessions that are to be closed, in their
/// order.
pub fn running_sessions(queries: &Vec<SessionQuery>, statuses: &Vec<SessionStatus>) -> (running: Vec<
    (String, String),
>)
    requires
        queries@.len() == statuses@.len(),
    ensures
        told(running@) == obstacles(queries@, statuses@, queries@.len() as int),
{
    let mut running: Vec<(String, String)> = Vec::new();
    let mut index: usize = 0;
    proof {
        assert(told(running@) =~= Seq::<(Seq<char>, Seq<char>)>::empty());
    }
    while index < queries.len()
        invariant
            queries@.len() == statuses@.len(),
            index <= queries@.len(),
            told(running@) == obstacles(queries@, statuses@, index as int),
        decreases queries@.len() - index,
    {
        let text = match &statuses[index] {
            SessionStatus::Unknown => Some("process status could not be checked".to_owned()),
            SessionStatus::Idle => None,
            SessionStatus::Running(name) => if name.as_str().is_empty() {
                Some("a process".to_owned())
            } else {
                Some(name.as_str().to_owned())
            },
        };
        if let Some(text) = text {
            let ghost held = running@;
            let entry = (queries[index].title.as_str().to_owned(), text);
            running.push(entry);
            proof {
                assert(told(running@) =~= told(held).push((entry.0@, entry.1@)));
            }
        }
        index += 1;
    }
    running
}

/// Why no answers came.
#[derive(Clone, Copy, Debug, PartialEq, Eq, Structural)]
pub enum QueryFailure {
    /// The question could not be asked.
    NotAsked,
    /// The answers took too long, or whoever was to give them is gone.
    TimedOut,
}

/// What is said about sessions that nothing is known of.
pub open spec fn failure_text(failure: QueryFailure) -> Seq<char> {
    match failure {
        QueryFailure::NotAsked => "process status could not be checked"@,
        QueryFailure::TimedOut => "process status check timed out"@,
    }
}

/// What is said when answers took too long ends in that, and what is said when the
/// question could not be asked is what is said of a daemon that could not be asked.
pub proof fn law_missing_answers_are_explained()
    ensures
        Some(failure_text(QueryFailure::NotAsked)) == obstacle(SessionStatus::Unknown),
        failure_text(QueryFailure::TimedOut).skip(21) == "timed out"@,
        failure_text(QueryFailure::TimedOut) != failure_text(QueryFailure::NotAsked),
{
    reveal_strlit("process status could not be checked");
    reveal_strlit("process status check timed out");
    reveal_strlit("timed out");
    assert(failure_text(QueryFailure::TimedOut).skip(21) =~= "timed out"@);
    assert(failure_text(QueryFailure::TimedOut).len() != failure_text(QueryFailure::NotAsked).len());
}

/// What the user is told when no answers came.
pub fn unanswered(failure: QueryFailure) -> (running: Vec<(String, String)>)
    ensures
        told(running@) == seq![
            (
                "Terminal"@,
                failure_text(failure),
            ),
        ],
{
    let reason = match failure {
        QueryFailure::NotAsked => "process status could not be checked".to_owned(),
        QueryFailure::TimedOut => "process status check timed out".to_owned(),
    };
    let mut running: Vec<(String, String)> = Vec::new();
    let entry = ("Terminal".to_owned(), reason);
    running.push(entry);
    proof {
        assert(told(running@) =~= seq![(entry.0@, entry.1@)]);
    }
    running
}

/// What a look for the answers finds.
#[derive(Clone, Copy, Debug, PartialEq, Eq, Structural)]
pub enum AnswerState {
    /// They are there, and say for how many sessions something stands in the
    /// way.
    Received(usize),
    Pending,
    /// They will not come any more.
    Gone,
}

/// What is done about closing.
#[derive(Clone, Copy, Debug, PartialEq, Eq, Structural)]
pub enum CloseStep {
    /// Close at once.
    Close,
    /// Ask the daemons about the sessions.
    Query,
    /// Look for the answers again later.
    Wait,
    /// Ask the user, with what the answers said.
    Ask,
    /// Ask the user, for no answers came.
    AskUnanswered,
}

/// How closing starts.
pub open spec fn first_close_step(confirm: bool, sessions: usize) -> CloseStep {
    if confirm && sessions > 0 {
        CloseStep::Query
    } else {
        CloseStep::Close
    }
}

/// How closing goes on after a look for the answers.
pub open spec fn next_close_step(answers: AnswerState, elapsed: u64) -> CloseStep {
    match answers {
        AnswerState::Received(running) => if running == 0 {
            CloseStep::Close
        } else {
            CloseStep::Ask
        },
        AnswerState::Pending => if elapsed < QUERY_LIMIT {
            CloseStep::Wait
        } else {
            CloseStep::AskUnanswered
        },
        AnswerState::Gone => CloseStep::AskUnanswered,
    }
}

/// Closing goes ahead unasked only where the user does not want to be asked, where there
/// are no sessions, or where the answers say that nothing runs. Answers are awaited for
/// two seconds at most, and without them the user is asked.
pub proof fn law_nothing_is_closed_unasked(
    confirm: bool,
    sessions: usize,
    answers: AnswerState,
    elapsed: u64,
)
    ensures
        first_close_step(confirm, sessions) == CloseStep::Close <==> !confirm || sessions == 0,
        first_close_step(confirm, sessions) == CloseStep::Query <==> confirm && sessions > 0,
        next_close_step(answers, elapsed) == CloseStep::Close <==> answers
            == AnswerState::Received(0),
        next_close_step(answers, elapsed) == CloseStep::Ask <==> answers is Received && answers
            != AnswerState::Received(0),
        next_close_step(answers, elapsed) == CloseStep::Wait <==> answers == AnswerState::Pending
            && elapsed < 2_000_000_000,
        next_close_step(answers, elapsed) == CloseStep::AskUnanswered <==> answers
            == AnswerState::Gone || answers == AnswerState::Pending && elapsed >= 2_000_000_000,
{
}

/// How closing starts: the daemons are asked only where the user wants that, and
/// where there are sessions.
pub fn start_close(confirm: bool, sessions: usize) -> (step: CloseStep)
    ensures
        step == first_close_step(confirm, sessions),
{
    if confirm && sessions > 0 {
        CloseStep::Query
    } else {
        CloseStep::Close
    }
}

/// How closing goes on after a look for the answers.
pub fn continue_close(answers: AnswerState, elapsed: u64) -> (step: CloseStep)
    ensures
        step == next_close_step(answers, elapsed),
{
    match answers {
        AnswerState::Received(running) => if running == 0 {
            CloseStep::Close
        } else {
            CloseStep::Ask
        },
        AnswerState::Pending => if elapsed < QUERY_LIMIT {
            CloseStep::Wait
        } else {
            CloseStep::AskUnanswered
        },
        AnswerState::Gone => CloseStep::AskUnanswered,
    }
}

/// Where the user wants to be asked, nothing is closed unasked over a session
/// whose process may still run.
pub proof fn law_running_processes_are_asked_about(
    queries: Seq<SessionQuery>,
    statuses: Seq<SessionStatus>,
    session: int,
    count: int,
)
    requires
        0 <= session < count <= statuses.len(),
        !(statuses[session] is Idle),
    ensures
        obstacles(queries, statuses, count).len() > 0,
    decreases count,
{
    if session < count - 1 {
        law_running_processes_are_asked_about(queries, statuses, session, count - 1);
    }
}

/// What a window does when it comes to the front or leaves it.
#[derive(Clone, Copy, Debug, PartialEq, Eq, Structural)]
pub struct FrontChange {
    /// A bell was noted: the title no longer shows it, nor does the tab that is
    /// shown.
    pub clear_bell: bool,
    /// Whether a bell stays noted.
    pub has_bell: bool,
}

/// What a window does when it comes to the front or leaves it.
pub open spec fn front_change(active: bool, has_bell: bool) -> FrontChange {
    FrontChange { clear_bell: active && has_bell, has_bell: has_bell && !active }
}

/// A bell is cleared when its window comes to the front, and stays noted until then;
/// where there is none, none is cleared or noted.
pub proof fn law_bells_last_until_the_window_is_in_front(has_bell: bool)
    ensures
        front_change(true, has_bell).clear_bell == has_bell,
        !front_change(true, has_bell).has_bell,
        !front_change(false, has_bell).clear_bell,
        front_change(false, has_bell).has_bell == has_bell,
{
}

/// A window came to the front or left it: coming to the front clears its bell.
pub fn front_changed(active: bool, has_bell: bool) -> (change: FrontChange)
    ensures
        change == front_change(active, has_bell),
{
    FrontChange { clear_bell: active && has_bell, has_bell: has_bell && !active }
}

/// An idle session does not stand in the way. One with a process does, under the name of
/// the process where it has one, and so does one that could not be asked.
pub proof fn law_only_idle_sessions_are_out_of_the_way(status: SessionStatus, name: String)
    ensures
        obstacle(status) is None <==> status is Idle,
        name@.len() > 0 ==> obstacle(SessionStatus::Running(name)) == Some(name@),
        name@.len() == 0 ==> obstacle(SessionStatus::Running(name)) == Some("a process"@),
        obstacle(SessionStatus::Unknown) == Some("process status could not be checked"@),
{
}

/// The user is told the title of each session that stands in the way together with its
/// own obstacle.
pub proof fn law_obstacles_stand_with_their_titles(
    queries: Seq<SessionQuery>,
    statuses: Seq<SessionStatus>,
    session: int,
    count: int,
)
    requires
        0 <= session < count <= statuses.len(),
        obstacle(statuses[session]) is Some,
    ensures
        obstacles(queries, statuses, count).contains(
            (queries[session].title@, obstacle(statuses[session])->0),
        ),
        obstacles(queries, statuses, count).len() <= count,
    decreases count,
{
    let entry = (queries[session].title@, obstacle(statuses[session])->0);
    let all = obstacles(queries, statuses, count);
    let before = obstacles(queries, statuses, count - 1);
    lemma_obstacles_count(queries, statuses, count);
    if session < count - 1 {
        law_obstacles_stand_with_their_titles(queries, statuses, session, count - 1);
        let i = choose|i: int| 0 <= i < before.len() && before[i] == entry;
        assert(all[i] == entry);
    } else {
        assert(all[before.len() as int] == entry);
    }
}

proof fn lemma_obstacles_count(
    queries: Seq<SessionQuery>,
    statuses: Seq<SessionStatus>,
    count: int,
)
    requires
        0 <= count,
    ensures
        obstacles(queries, statuses, count).len() <= count,
    decreases count,
{
    if count > 0 {
        lemma_obstacles_count(queries, statuses, count - 1);
    }
}

} // verus!
