//! The state of one session.

use vstd::prelude::*;

use crate::bytes::append_bytes;
use crate::text::{
    decimal, decimal_text, law_decimal_is_read_back, optional_text, same_text, texts,
};

verus! {

/// Output chunk with timestamp
#[derive(Debug, PartialEq, Eq)]
pub struct OutputData {
    pub data: Vec<u8>,
    pub timestamp_ms: u64,
}

/// Reply to an interactive SSH prompt (host key / password / passphrase).
#[derive(Debug, PartialEq, Eq)]
pub struct PromptReply {
    /// For host-key prompts: whether the key was accepted.
    pub accept: bool,
    /// For password/passphrase prompts: the entered secret (None = cancelled).
    pub secret: Option<String>,
}

impl Default for PromptReply {
    fn default() -> (reply: Self)
        ensures
            !reply.accept,
            reply.secret is None,
    {
        PromptReply { accept: false, secret: None }
    }
}

#[derive(Debug, Clone, Copy, PartialEq, Eq, Structural)]
pub enum PromptKind {
    HostkeyUnknown,
    HostkeyChanged,
    Password,
    Passphrase,
}

/// An interactive prompt raised while a connection is being established.
#[derive(Debug, PartialEq, Eq)]
pub struct SessionPromptEvent {
    pub prompt_id: String,
    pub kind: PromptKind,
    pub host: String,
    pub port: u32,
    pub key_type: String,
    pub fingerprint: String,
    pub text: String,
}

/// Session state beside the terminal itself.
#[derive(Debug)]
pub struct SessionState {
    id: String,
    cols: usize,
    rows: usize,
    attached_clients: u32,
    custom_title: String,
    tab_color: String,
    template_name: String,
    session_name: Option<String>,
    alerted: bool,
    connecting: bool,
    child_running: bool,
    child_pid: Option<i32>,
    prompt_counter: u64,
    prompts: Vec<String>,
    accepting_transfers: bool,
    sync_update_active: bool,
}

/// The model of a session.
pub ghost struct SessionView {
    pub id: Seq<char>,
    pub cols: usize,
    pub rows: usize,
    pub attached_clients: u32,
    pub custom_title: Seq<char>,
    pub tab_color: Seq<char>,
    pub template_name: Seq<char>,
    pub session_name: Option<Seq<char>>,
    pub alerted: bool,
    /// The connection is still being established.
    pub connecting: bool,
    /// The child process runs.
    pub child_running: bool,
    pub child_pid: Option<i32>,
    pub prompt_counter: u64,
    /// The prompts that wait for a reply.
    pub prompts: Set<Seq<char>>,
    pub accepting_transfers: bool,
    pub sync_update_active: bool,
}

impl View for SessionState {
    type V = SessionView;

    closed spec fn view(&self) -> SessionView {
        SessionView {
            id: self.id@,
            cols: self.cols,
            rows: self.rows,
            attached_clients: self.attached_clients,
            custom_title: self.custom_title@,
            tab_color: self.tab_color@,
            template_name: self.template_name@,
            session_name: optional_text(self.session_name),
            alerted: self.alerted,
            connecting: self.connecting,
            child_running: self.child_running,
            child_pid: self.child_pid,
            prompt_counter: self.prompt_counter,
            prompts: texts(self.prompts@).to_set(),
            accepting_transfers: self.accepting_transfers,
            sync_update_active: self.sync_update_active,
        }
    }
}

/// The connection attempt of a session is over.
pub open spec fn connection_over(
    session: SessionView,
    connected: bool,
    child_pid: Option<i32>,
) -> SessionView {
    SessionView {
        connecting: false,
        child_running: connected,
        child_pid: if connected {
            child_pid
        } else {
            session.child_pid
        },
        ..session
    }
}

/// The child of a session was found to run or to have exited.
pub open spec fn child_found(session: SessionView, running: bool) -> SessionView {
    SessionView { child_running: running, ..session }
}

/// One more client looks at a session.
pub open spec fn attached(session: SessionView) -> SessionView {
    SessionView { attached_clients: session.attached_clients.wrapping_add(1), ..session }
}

/// One client fewer looks at a session.
pub open spec fn detached(session: SessionView) -> SessionView {
    SessionView {
        attached_clients: if session.attached_clients == 0 {
            0
        } else {
            (session.attached_clients - 1) as u32
        },
        ..session
    }
}

/// A session of another size.
pub open spec fn resized(session: SessionView, cols: usize, rows: usize) -> SessionView {
    SessionView { cols, rows, ..session }
}

/// A session with a title of its own.
pub open spec fn titled(session: SessionView, title: Seq<char>) -> SessionView {
    SessionView { custom_title: title, ..session }
}

/// A session with a tab of a color.
pub open spec fn colored(session: SessionView, color: Seq<char>) -> SessionView {
    SessionView { tab_color: color, ..session }
}

/// A session made from a template.
pub open spec fn templated(session: SessionView, name: Seq<char>) -> SessionView {
    SessionView { template_name: name, ..session }
}

/// A session whose bell is noted or was acknowledged.
pub open spec fn alerted_session(session: SessionView, alerted: bool) -> SessionView {
    SessionView { alerted, ..session }
}

/// A bell event goes out.
pub open spec fn rings(session: SessionView, alerted: bool) -> bool {
    alerted && !session.alerted
}

/// A session one of whose prompts is over.
pub open spec fn answered(session: SessionView, id: Seq<char>) -> SessionView {
    SessionView { prompts: session.prompts.remove(id), ..session }
}

/// The secret that a reply holds.
pub open spec fn secret_of(reply: Option<PromptReply>) -> Option<String> {
    match reply {
        Some(reply) => reply.secret,
        None => None,
    }
}

/// A bell rings once: while it is noted it rings no more, and once it was acknowledged it
/// rings again.
pub proof fn law_bells_ring_once(session: SessionView)
    ensures
        rings(alerted_session(session, false), true),
        !rings(alerted_session(session, true), true),
        !rings(session, false),
        alerted_session(session, true).alerted,
        !alerted_session(session, false).alerted,
        alerted_session(alerted_session(session, true), session.alerted) == session,
{
}

/// A reply ends exactly the prompt that it answers, and raising it again undoes that.
pub proof fn law_replies_end_their_prompt(session: SessionView, id: Seq<char>, other: Seq<char>)
    ensures
        !answered(session, id).prompts.contains(id),
        other != id ==> (answered(session, id).prompts.contains(other)
            <==> session.prompts.contains(other)),
        answered(session, id).custom_title == session.custom_title,
        answered(session, id).cols == session.cols,
        answered(session, id).prompt_counter == session.prompt_counter,
        !session.prompts.contains(prompt_id(session)) ==> answered(
            prompted(session),
            prompt_id(session),
        ).prompts == session.prompts,
{
    if !session.prompts.contains(prompt_id(session)) {
        assert(answered(prompted(session), prompt_id(session)).prompts =~= session.prompts);
    }
}

/// A secret is what the user entered, and none where they did not reply or cancelled.
pub proof fn law_secrets_are_what_was_entered(reply: PromptReply, secret: String)
    ensures
        secret_of(None) is None,
        reply.secret is None ==> secret_of(Some(reply)) is None,
        reply.secret == Some(secret) ==> secret_of(Some(reply)) == Some(secret),
{
}

/// What a prompt about a host key is about.
pub open spec fn host_key_kind(changed: bool) -> PromptKind {
    if changed {
        PromptKind::HostkeyChanged
    } else {
        PromptKind::HostkeyUnknown
    }
}

/// A prompt asks for a secret, and shows nothing but a text.
pub open spec fn asks_secret(
    event: SessionPromptEvent,
    session: SessionView,
    kind: PromptKind,
    text: Seq<char>,
) -> bool {
    &&& event.prompt_id@ == prompt_id(session)
    &&& event.kind == kind
    &&& event.host@ == Seq::<char>::empty()
    &&& event.port == 0
    &&& event.key_type@ == Seq::<char>::empty()
    &&& event.fingerprint@ == Seq::<char>::empty()
    &&& event.text@ == text
}

/// What a prompt for the passphrase of a key file says.
pub open spec fn passphrase_text(path: Seq<char>) -> Seq<char> {
    "Enter passphrase for "@ + path
}

/// A prompt asks whether to trust the key of a host.
pub open spec fn asks_trust(
    event: SessionPromptEvent,
    session: SessionView,
    host: String,
    port: u16,
    key_type: String,
    fingerprint: String,
    changed: bool,
) -> bool {
    &&& event.prompt_id@ == prompt_id(session)
    &&& event.kind == host_key_kind(changed)
    &&& event.host == host
    &&& event.port == port
    &&& event.key_type == key_type
    &&& event.fingerprint == fingerprint
    &&& event.text@ == Seq::<char>::empty()
}

/// A prompt that asks for trust shows the host and the port, the kind of the key and its
/// fingerprint, each as what it is; one that asks for a secret shows only its text. The
/// reply to either goes to the prompt that was raised.
pub proof fn law_prompts_show_what_they_ask(
    event: SessionPromptEvent,
    session: SessionView,
    host: String,
    port: u16,
    key_type: String,
    fingerprint: String,
    changed: bool,
    text: Seq<char>,
)
    ensures
        asks_trust(event, session, host, port, key_type, fingerprint, changed) ==> {
            &&& event.host@ == host@
            &&& event.port == port
            &&& event.key_type@ == key_type@
            &&& event.fingerprint@ == fingerprint@
            &&& event.kind == PromptKind::HostkeyChanged <==> changed
            &&& event.kind == PromptKind::HostkeyUnknown <==> !changed
            &&& event.text@.len() == 0
            &&& prompted(session).prompts.contains(event.prompt_id@)
        },
        asks_secret(event, session, PromptKind::Password, text) ==> {
            &&& event.kind == PromptKind::Password
            &&& event.text@ == text
            &&& event.host@.len() == 0
            &&& event.fingerprint@.len() == 0
            &&& prompted(session).prompts.contains(event.prompt_id@)
        },
        passphrase_text(text).skip(21) == text,
{
    reveal_strlit("Enter passphrase for ");
    assert(passphrase_text(text).skip(21) =~= text);
}

/// The user trusts a host key.
pub open spec fn trusts(reply: Option<PromptReply>) -> bool {
    reply matches Some(reply) && reply.accept
}

/// A session runs while its connection is being established or its child runs.
pub open spec fn session_running(session: SessionView) -> bool {
    session.connecting || session.child_running
}

/// A session that nobody has named, attached to or changed.
pub open spec fn fresh_session(
    id: Seq<char>,
    cols: usize,
    rows: usize,
    connecting: bool,
    child_pid: Option<i32>,
) -> SessionView {
    SessionView {
        id,
        cols,
        rows,
        attached_clients: 0,
        custom_title: Seq::empty(),
        tab_color: Seq::empty(),
        template_name: Seq::empty(),
        session_name: None,
        alerted: false,
        connecting,
        child_running: !connecting,
        child_pid,
        prompt_counter: 0,
        prompts: Set::empty(),
        accepting_transfers: true,
        sync_update_active: false,
    }
}

impl SessionState {
    /// No prompt waits twice.
    pub closed spec fn wf(&self) -> bool {
        texts(self.prompts@).no_duplicates()
    }

    fn fresh(id: String, cols: usize, rows: usize, connecting: bool, child_pid: Option<i32>) -> (session:
        SessionState)
        ensures
            session.wf(),
            session@ == fresh_session(id@, cols, rows, connecting, child_pid),
    {
        let session = SessionState {
            id,
            cols,
            rows,
            attached_clients: 0,
            custom_title: String::new(),
            tab_color: String::new(),
            template_name: String::new(),
            session_name: None,
            alerted: false,
            connecting,
            child_running: !connecting,
            child_pid,
            prompt_counter: 0,
            prompts: Vec::new(),
            accepting_transfers: true,
            sync_update_active: false,
        };
        proof {
            assert(session@.prompts =~= Set::empty());
        }
        session
    }

    /// A session with a running child.
    pub fn new(id: String, cols: usize, rows: usize, child_pid: Option<i32>) -> (session:
        SessionState)
        ensures
            session.wf(),
            session@ == fresh_session(id@, cols, rows, false, child_pid),
    {
        SessionState::fresh(id, cols, rows, false, child_pid)
    }

    /// A placeholder session for a connection that is still being established. It
    /// counts as running, so that it is not reaped meanwhile.
    pub fn new_ssh_connecting(id: String, cols: usize, rows: usize) -> (session: SessionState)
        ensures
            session.wf(),
            session@ == fresh_session(id@, cols, rows, true, None),
    {
        SessionState::fresh(id, cols, rows, true, None)
    }

    /// A session that was preserved across a relaunch.
    pub fn restored(
        id: String,
        child_pid: i32,
        cols: usize,
        rows: usize,
        custom_title: String,
        tab_color: String,
        template_name: String,
    ) -> (session: SessionState)
        ensures
            session.wf(),
            session@ == (SessionView {
                custom_title: custom_title@,
                tab_color: tab_color@,
                template_name: template_name@,
                ..fresh_session(id@, cols, rows, false, Some(child_pid))
            }),
    {
        let mut session = SessionState::fresh(id, cols, rows, false, Some(child_pid));
        session.custom_title = custom_title;
        session.tab_color = tab_color;
        session.template_name = template_name;
        session
    }

    pub fn id(&self) -> (id: &str)
        ensures
            id@ == self@.id,
    {
        self.id.as_str()
    }

    /// The connection attempt is over: whether a child runs now.
    pub fn connection_finished(&mut self, connected: bool, child_pid: Option<i32>)
        requires
            old(self).wf(),
        ensures
            final(self).wf(),
            final(self)@ == connection_over(old(self)@, connected, child_pid),
    {
        self.connecting = false;
        self.child_running = connected;
        if connected {
            self.child_pid = child_pid;
        }
    }

    /// The child was found to run or to have exited.
    pub fn set_child_running(&mut self, running: bool)
        requires
            old(self).wf(),
        ensures
            final(self).wf(),
            final(self)@ == child_found(old(self)@, running),
    {
        self.child_running = running;
    }

    /// Whether this session is still establishing its connection.
    pub fn is_connecting(&self) -> (connecting: bool)
        ensures
            connecting == self@.connecting,
    {
        self.connecting
    }

    pub fn is_running(&self) -> (running: bool)
        ensures
            running == session_running(self@),
    {
        self.connecting || self.child_running
    }

    pub fn child_pid(&self) -> (pid: Option<i32>)
        ensures
            pid == self@.child_pid,
    {
        self.child_pid
    }

    /// Increment the attached client count
    pub fn attach(&mut self)
        requires
            old(self).wf(),
        ensures
            final(self).wf(),
            final(self)@ == attached(old(self)@),
    {
        self.attached_clients = self.attached_clients.wrapping_add(1);
    }

    /// Decrement the attached client count. Stale cleanup can come after a failed
    /// reconnect, so the count stays at zero.
    pub fn detach(&mut self)
        requires
            old(self).wf(),
        ensures
            final(self).wf(),
            final(self)@ == detached(old(self)@),
    {
        self.attached_clients = self.attached_clients.saturating_sub(1);
    }

    pub fn attached_clients(&self) -> (count: u32)
        ensures
            count == self@.attached_clients,
    {
        self.attached_clients
    }

    /// Get the terminal dimensions
    pub fn dimensions(&self) -> (dimensions: (usize, usize))
        ensures
            dimensions == (self@.cols, self@.rows),
    {
        (self.cols, self.rows)
    }

    /// Resize the terminal
    pub fn resize(&mut self, cols: usize, rows: usize)
        requires
            old(self).wf(),
        ensures
            final(self).wf(),
            final(self)@ == resized(old(self)@, cols, rows),
    {
        self.cols = cols;
        self.rows = rows;
    }

    pub fn custom_title(&self) -> (title: &str)
        ensures
            title@ == self@.custom_title,
    {
        self.custom_title.as_str()
    }

    /// Set a custom title (empty string to clear)
    pub fn set_custom_title(&mut self, title: String)
        requires
            old(self).wf(),
        ensures
            final(self).wf(),
            final(self)@ == titled(old(self)@, title@),
    {
        self.custom_title = title;
    }

    pub fn tab_color(&self) -> (color: &str)
        ensures
            color@ == self@.tab_color,
    {
        self.tab_color.as_str()
    }

    /// Set the tab color override (empty string to clear)
    pub fn set_tab_color(&mut self, color: String)
        requires
            old(self).wf(),
        ensures
            final(self).wf(),
            final(self)@ == colored(old(self)@, color@),
    {
        self.tab_color = color;
    }

    pub fn template_name(&self) -> (name: &str)
        ensures
            name@ == self@.template_name,
    {
        self.template_name.as_str()
    }

    /// Set the template name
    pub fn set_template_name(&mut self, name: String)
        requires
            old(self).wf(),
        ensures
            final(self).wf(),
            final(self)@ == templated(old(self)@, name@),
    {
        self.template_name = name;
    }

    /// Get the human-readable session name
    pub fn session_name(&self) -> (name: Option<&str>)
        ensures
            match name {
                Some(name) => self@.session_name == Some(name@),
                None => self@.session_name is None,
            },
    {
        match &self.session_name {
            Some(name) => Some(name.as_str()),
            None => None,
        }
    }

    /// Set the human-readable session name
    pub fn set_session_name(&mut self, name: Option<String>)
        requires
            old(self).wf(),
        ensures
            final(self).wf(),
            final(self)@ == (SessionView { session_name: optional_text(name), ..old(self)@ }),
    {
        self.session_name = name;
    }

    /// Whether this session has an unacknowledged bell alert.
    pub fn is_alerted(&self) -> (alerted: bool)
        ensures
            alerted == self@.alerted,
    {
        self.alerted
    }

    /// Set the alerted state; whether a bell event must be broadcast, which is so
    /// when the session is newly alerted.
    pub fn set_alerted(&mut self, alerted: bool) -> (bell: bool)
        requires
            old(self).wf(),
        ensures
            final(self).wf(),
            final(self)@ == alerted_session(old(self)@, alerted),
            bell == rings(old(self)@, alerted),
    {
        let was_alerted = self.alerted;
        self.alerted = alerted;
        alerted && !was_alerted
    }

    /// The identifier of the next prompt: `<session>-<number>`.
    fn next_prompt_id(&mut self) -> (id: String)
        requires
            old(self).wf(),
        ensures
            final(self).wf(),
            final(self)@ == (SessionView {
                prompt_counter: old(self)@.prompt_counter.wrapping_add(1),
                ..old(self)@
            }),
            id@ == prompt_id(old(self)@),
    {
        let number = decimal_text(self.prompt_counter);
        let id = self.id.clone().concat("-").concat(number.as_str());
        self.prompt_counter = self.prompt_counter.wrapping_add(1);
        id
    }

    fn find_prompt(&self, id: &str) -> (found: Option<usize>)
        ensures
            match found {
                Some(index) => index < self.prompts@.len() && self.prompts@[index as int]@ == id@,
                None => !self@.prompts.contains(id@),
            },
    {
        let mut index: usize = 0;
        while index < self.prompts.len()
            invariant
                index <= self.prompts@.len(),
                forall|i: int| 0 <= i < index ==> texts(self.prompts@)[i] != id@,
            decreases self.prompts@.len() - index,
        {
            if same_text(self.prompts[index].as_str(), id) {
                return Some(index);
            }
            index += 1;
        }
        None
    }

    /// A prompt waits for a reply from now on.
    fn emit_prompt(&mut self, id: &str)
        requires
            old(self).wf(),
        ensures
            final(self).wf(),
            final(self)@ == (SessionView { prompts: old(self)@.prompts.insert(id@), ..old(self)@ }),
    {
        match self.find_prompt(id) {
            Some(index) => {
                proof {
                    assert(texts(self.prompts@)[index as int] == id@);
                    assert(self@.prompts.insert(id@) =~= self@.prompts);
                }
            },
            None => {
                let ghost before = texts(self.prompts@);
                self.prompts.push(id.to_owned());
                proof {
                    let after = texts(self.prompts@);
                    assert(after =~= before.push(id@));
                    crate::plugin::scopes::lemma_push_to_set(before, id@);
                    assert forall|i: int, j: int|
                        0 <= i < after.len() && 0 <= j < after.len() && i != j implies after[i]
                        != after[j] by {
                        if i == before.len() {
                            assert(before.to_set().contains(before[j]));
                        }
                        if j == before.len() {
                            assert(before.to_set().contains(before[i]));
                        }
                    }
                }
            },
        }
    }

    /// Deliver a reply to a waiting prompt; false if it is unknown or was answered, or
    /// if the side that asked is gone and did not receive the reply. The prompt no
    /// longer waits either way.
    pub fn respond_prompt(&mut self, id: &str, received: bool) -> (delivered: bool)
        requires
            old(self).wf(),
        ensures
            final(self).wf(),
            delivered == (old(self)@.prompts.contains(id@) && received),
            final(self)@ == answered(old(self)@, id@),
    {
        match self.find_prompt(id) {
            Some(index) => {
                let ghost before = texts(self.prompts@);
                self.prompts.remove(index);
                proof {
                    assert(before[index as int] == id@);
                    assert(before.to_set().contains(id@));
                    let after = texts(self.prompts@);
                    assert(after =~= before.remove(index as int));
                    assert forall|i: int, j: int|
                        0 <= i < after.len() && 0 <= j < after.len() && i != j implies after[i]
                        != after[j] by {
                        let k = if i < index { i } else { i + 1 };
                        let l = if j < index { j } else { j + 1 };
                        assert(after[i] == before[k] && after[j] == before[l]);
                    }
                    assert forall|text: Seq<char>| after.to_set().contains(
                        text,
                    ) implies before.to_set().remove(id@).contains(text) by {
                        let i = choose|i: int| 0 <= i < after.len() && after[i] == text;
                        let k = if i < index { i } else { i + 1 };
                        assert(before[k] == text);
                        assert(before[k] != before[index as int]);
                    }
                    assert forall|text: Seq<char>| before.to_set().remove(id@).contains(
                        text,
                    ) implies after.to_set().contains(text) by {
                        let k = choose|k: int| 0 <= k < before.len() && before[k] == text;
                        let i = if k < index { k } else { k - 1 };
                        assert(after[i] == text);
                    }
                    assert(after.to_set() =~= before.to_set().remove(id@));
                }
                received
            },
            None => {
                proof {
                    assert(self@.prompts.remove(id@) =~= self@.prompts);
                }
                false
            },
        }
    }

    /// Asks whether to trust a host key.
    pub fn host_key_prompt(
        &mut self,
        host: String,
        port: u16,
        key_type: String,
        fingerprint: String,
        changed: bool,
    ) -> (event: SessionPromptEvent)
        requires
            old(self).wf(),
        ensures
            final(self).wf(),
            final(self)@ == prompted(old(self)@),
            asks_trust(event, old(self)@, host, port, key_type, fingerprint, changed),
    {
        let prompt_id = self.next_prompt_id();
        self.emit_prompt(prompt_id.as_str());
        let kind = if changed {
            PromptKind::HostkeyChanged
        } else {
            PromptKind::HostkeyUnknown
        };
        SessionPromptEvent {
            prompt_id,
            kind,
            host,
            port: port as u32,
            key_type,
            fingerprint,
            text: String::new(),
        }
    }

    fn secret_prompt(&mut self, kind: PromptKind, text: String) -> (event: SessionPromptEvent)
        requires
            old(self).wf(),
        ensures
            final(self).wf(),
            final(self)@ == prompted(old(self)@),
            asks_secret(event, old(self)@, kind, text@),
            event.text == text,
    {
        let prompt_id = self.next_prompt_id();
        self.emit_prompt(prompt_id.as_str());
        SessionPromptEvent {
            prompt_id,
            kind,
            host: String::new(),
            port: 0,
            key_type: String::new(),
            fingerprint: String::new(),
            text,
        }
    }

    /// Asks for a password.
    pub fn password_prompt(&mut self, text: &str) -> (event: SessionPromptEvent)
        requires
            old(self).wf(),
        ensures
            final(self).wf(),
            final(self)@ == prompted(old(self)@),
            asks_secret(event, old(self)@, PromptKind::Password, text@),
    {
        self.secret_prompt(PromptKind::Password, text.to_owned())
    }

    /// Asks for the passphrase of a key file.
    pub fn passphrase_prompt(&mut self, path: &str) -> (event: SessionPromptEvent)
        requires
            old(self).wf(),
        ensures
            final(self).wf(),
            final(self)@ == prompted(old(self)@),
            asks_secret(event, old(self)@, PromptKind::Passphrase, passphrase_text(path@)),
    {
        let text = "Enter passphrase for ".to_owned().concat(path);
        self.secret_prompt(PromptKind::Passphrase, text)
    }

    /// Takes no more transfer commands.
    pub fn quiesce_tty_transfers(&mut self)
        requires
            old(self).wf(),
        ensures
            final(self).wf(),
            final(self)@ == (SessionView { accepting_transfers: false, ..old(self)@ }),
    {
        self.accepting_transfers = false;
    }

    /// Takes transfer commands again.
    pub fn resume_tty_transfers(&mut self)
        requires
            old(self).wf(),
        ensures
            final(self).wf(),
            final(self)@ == (SessionView { accepting_transfers: true, ..old(self)@ }),
    {
        self.accepting_transfers = true;
    }

    /// Where a transfer command goes.
    pub fn route_transfer(&self, controller_available: bool) -> (route: TransferRoute)
        ensures
            route == transfer_route(self@.accepting_transfers, controller_available),
    {
        if !self.accepting_transfers {
            TransferRoute::Refuse(TransferRefusal::RelaunchInProgress)
        } else if !controller_available {
            TransferRoute::Refuse(TransferRefusal::ExecutorUnavailable)
        } else {
            TransferRoute::Submit
        }
    }

    /// Output was parsed: whether a synchronized update is under way.
    pub fn output_processed(&mut self, synchronized: bool)
        requires
            old(self).wf(),
        ensures
            final(self).wf(),
            final(self)@ == (SessionView { sync_update_active: synchronized, ..old(self)@ }),
    {
        self.sync_update_active = synchronized;
    }

    /// Whether the watchdog of synchronized updates must look at the terminal.
    pub fn watches_synchronized_update(&self) -> (watches: bool)
        ensures
            watches == self@.sync_update_active,
    {
        self.sync_update_active
    }
}

/// Where transfer commands go: nowhere during a relaunch, or without a worker.
pub open spec fn transfer_route(accepting: bool, controller_available: bool) -> TransferRoute {
    if !accepting {
        TransferRoute::Refuse(TransferRefusal::RelaunchInProgress)
    } else if !controller_available {
        TransferRoute::Refuse(TransferRefusal::ExecutorUnavailable)
    } else {
        TransferRoute::Submit
    }
}

/// The identifier of a session's next prompt.
pub open spec fn prompt_id(session: SessionView) -> Seq<char> {
    session.id + "-"@ + decimal(session.prompt_counter as nat)
}

/// A session after its next prompt was raised.
pub open spec fn prompted(session: SessionView) -> SessionView {
    SessionView {
        prompt_counter: session.prompt_counter.wrapping_add(1),
        prompts: session.prompts.insert(prompt_id(session)),
        ..session
    }
}

/// Whether a host key is trusted: only if the user replied and accepted it.
pub fn host_key_accepted(reply: Option<PromptReply>) -> (accepted: bool)
    ensures
        accepted == trusts(reply),
{
    match reply {
        Some(reply) => reply.accept,
        None => false,
    }
}

/// The secret that the user entered, if they replied with one.
pub fn entered_secret(reply: Option<PromptReply>) -> (secret: Option<String>)
    ensures
        secret == secret_of(reply),
{
    match reply {
        Some(reply) => reply.secret,
        None => None,
    }
}

/// Why a transfer command is refused.
#[derive(Debug, Clone, Copy, PartialEq, Eq, Structural)]
pub enum TransferRefusal {
    RelaunchInProgress,
    ExecutorUnavailable,
    ExecutorStopped,
}

#[derive(Debug, Clone, Copy, PartialEq, Eq, Structural)]
pub enum TransferRoute {
    Submit,
    Refuse(TransferRefusal),
}

impl TransferRefusal {
    pub open spec fn spec_status(self) -> Seq<char> {
        match self {
            TransferRefusal::RelaunchInProgress => "EBUSY:Daemon relaunch in progress"@,
            TransferRefusal::ExecutorUnavailable => "ENOTSUP:Local transfer executor is unavailable"@,
            TransferRefusal::ExecutorStopped => "EIO:Local transfer executor stopped"@,
        }
    }

    /// The status that the child is told.
    pub fn status(self) -> (status: &'static str)
        ensures
            status@ == self.spec_status(),
    {
        match self {
            TransferRefusal::RelaunchInProgress => "EBUSY:Daemon relaunch in progress",
            TransferRefusal::ExecutorUnavailable => "ENOTSUP:Local transfer executor is unavailable",
            TransferRefusal::ExecutorStopped => "EIO:Local transfer executor stopped",
        }
    }
}

/// A status message about a transfer.
#[derive(Debug, PartialEq, Eq)]
pub struct TransferStatus {
    pub id: String,
    pub file_id: Option<String>,
    pub status: String,
}

/// The answer to a refused command. A command that wants no errors gets none.
pub fn transfer_error(id: &str, file_id: &Option<String>, quiet: u32, refusal: TransferRefusal) -> (answer:
    Option<TransferStatus>)
    ensures
        match answer {
            Some(answer) => {
                &&& quiet < 2
                &&& answer.id@ == id@
                &&& optional_text(answer.file_id) == optional_text(*file_id)
                &&& answer.status@ == refusal.spec_status()
            },
            None => quiet >= 2,
        },
{
    if quiet >= 2 {
        return None;
    }
    let file = match file_id {
        Some(file) => Some(file.clone()),
        None => None,
    };
    Some(TransferStatus { id: id.to_owned(), file_id: file, status: refusal.status().to_owned() })
}

/// All responses in order, as one byte string.
pub open spec fn joined(responses: Seq<Vec<u8>>) -> Seq<u8>
    decreases responses.len(),
{
    if responses.len() == 0 {
        Seq::empty()
    } else {
        joined(responses.drop_last()) + responses.last()@
    }
}

/// The responses of the parser as one write, if there are any.
pub fn join_responses(responses: &Vec<Vec<u8>>) -> (response: Option<Vec<u8>>)
    ensures
        match response {
            Some(response) => responses@.len() > 0 && response@ == joined(responses@),
            None => responses@.len() == 0,
        },
{
    if responses.len() == 0 {
        return None;
    }
    let mut response: Vec<u8> = Vec::new();
    let mut index: usize = 0;
    while index < responses.len()
        invariant
            index <= responses@.len(),
            response@ == joined(responses@.take(index as int)),
        decreases responses@.len() - index,
    {
        append_bytes(&mut response, responses[index].as_slice());
        proof {
            assert(responses@.take(index + 1).drop_last() =~= responses@.take(index as int));
        }
        index += 1;
    }
    proof {
        assert(responses@.take(responses@.len() as int) =~= responses@);
    }
    Some(response)
}

/// A transfer command that the parser found in a child's output.
#[derive(Debug, PartialEq, Eq)]
pub struct TransferCommand {
    pub id: String,
    pub file_id: Option<String>,
    pub quiet: u32,
}

/// What becomes of a transfer command.
#[derive(Debug, PartialEq, Eq)]
pub enum CommandStep {
    Submit,
    /// Tell the child why it is refused.
    Answer(TransferStatus),
    /// It is refused, and wants no errors.
    Drop,
}

/// What is done with a chunk of a child's output, after it was parsed.
#[derive(Debug, PartialEq, Eq)]
pub struct OutputPlan {
    /// What the parser answers, in one write.
    pub response: Option<Vec<u8>>,
    /// What becomes of each transfer command, in their order.
    pub commands: Vec<CommandStep>,
}

/// What becomes of a transfer command on a route.
pub open spec fn follows(step: CommandStep, route: TransferRoute, command: TransferCommand) -> bool {
    match route {
        TransferRoute::Submit => step is Submit,
        TransferRoute::Refuse(refusal) => if command.quiet >= 2 {
            step is Drop
        } else {
            &&& step matches CommandStep::Answer(answer)
            &&& answer.id@ == command.id@
            &&& optional_text(answer.file_id) == optional_text(command.file_id)
            &&& answer.status@ == refusal.spec_status()
        },
    }
}

impl SessionState {
    /// A chunk of output was parsed. The parser's answers go out first, then each
    /// transfer command goes its way.
    pub fn process_output(
        &mut self,
        synchronized: bool,
        responses: &Vec<Vec<u8>>,
        commands: &Vec<TransferCommand>,
        controller_available: bool,
    ) -> (plan: OutputPlan)
        requires
            old(self).wf(),
        ensures
            final(self).wf(),
            final(self)@ == (SessionView { sync_update_active: synchronized, ..old(self)@ }),
            match plan.response {
                Some(response) => responses@.len() > 0 && response@ == joined(responses@),
                None => responses@.len() == 0,
            },
            plan.commands@.len() == commands@.len(),
            forall|i: int|
                0 <= i < commands@.len() ==> follows(
                    #[trigger] plan.commands@[i],
                    transfer_route(old(self)@.accepting_transfers, controller_available),
                    commands@[i],
                ),
    {
        self.output_processed(synchronized);
        let response = join_responses(responses);
        let route = self.route_transfer(controller_available);
        let mut steps: Vec<CommandStep> = Vec::new();
        let mut index: usize = 0;
        while index < commands.len()
            invariant
                index <= commands@.len(),
                steps@.len() == index,
                forall|i: int|
                    0 <= i < steps@.len() ==> follows(#[trigger] steps@[i], route, commands@[i]),
            decreases commands@.len() - index,
        {
            let command = &commands[index];
            let step = match route {
                TransferRoute::Submit => CommandStep::Submit,
                TransferRoute::Refuse(refusal) => match transfer_error(
                    command.id.as_str(),
                    &command.file_id,
                    command.quiet,
                    refusal,
                ) {
                    Some(answer) => CommandStep::Answer(answer),
                    None => CommandStep::Drop,
                },
            };
            steps.push(step);
            index += 1;
        }
        OutputPlan { response, commands: steps }
    }
}

/// A prompt is answered at most once: what was answered no longer waits.
pub proof fn law_prompt_answered_once(session: SessionView, id: Seq<char>)
    ensures
        !session.prompts.remove(id).contains(id),
        prompted(session).prompts.contains(prompt_id(session)),
{
}

/// Prompts of a session with different numbers have different identifiers, so that
/// a reply reaches the prompt that it is meant for.
pub proof fn law_prompts_are_told_apart(left: SessionView, right: SessionView)
    requires
        left.id == right.id,
        left.prompt_counter != right.prompt_counter,
    ensures
        prompt_id(left) != prompt_id(right),
{
    let head = left.id + "-"@;
    let one = decimal(left.prompt_counter as nat);
    let other = decimal(right.prompt_counter as nat);
    law_decimal_is_read_back(left.prompt_counter as nat);
    law_decimal_is_read_back(right.prompt_counter as nat);
    if prompt_id(left) == prompt_id(right) {
        assert((head + one).skip(head.len() as int) =~= one);
        assert((head + other).skip(head.len() as int) =~= other);
    }
}

/// A new session is known by its identifier and has the size that it was made with;
/// nobody looks at it, and nothing about it was set. It runs from the start: its child
/// does, or its connection is being established.
pub proof fn law_new_sessions_are_blank(
    id: Seq<char>,
    cols: usize,
    rows: usize,
    connecting: bool,
    child_pid: Option<i32>,
)
    ensures
        ({
            let session = fresh_session(id, cols, rows, connecting, child_pid);
            &&& session.id == id
            &&& session.cols == cols
            &&& session.rows == rows
            &&& session.child_pid == child_pid
            &&& session.connecting == connecting
            &&& session.child_running == !connecting
            &&& session_running(session)
            &&& session.attached_clients == 0
            &&& session.custom_title.len() == 0
            &&& session.tab_color.len() == 0
            &&& session.template_name.len() == 0
            &&& session.session_name is None
            &&& !session.alerted
            &&& session.prompt_counter == 0
            &&& session.prompts == Set::<Seq<char>>::empty()
            &&& session.accepting_transfers
            &&& !session.sync_update_active
        }),
{
}

/// A session runs until its connection attempt fails or its child exits, and not
/// after. A connection that is up has the process that it came with; one that failed
/// leaves the process as it was.
pub proof fn law_sessions_run_until_their_child_exits(session: SessionView, child_pid: Option<i32>)
    ensures
        session_running(connection_over(session, true, child_pid)),
        !session_running(connection_over(session, false, child_pid)),
        connection_over(session, true, child_pid).child_pid == child_pid,
        connection_over(session, false, child_pid).child_pid == session.child_pid,
        !connection_over(session, true, child_pid).connecting,
        !connection_over(session, false, child_pid).connecting,
        session_running(child_found(session, true)),
        session_running(child_found(session, false)) <==> session.connecting,
        child_found(child_found(session, false), true) == child_found(session, true),
        session.connecting ==> session_running(session),
        session.child_running ==> session_running(session),
        !session.connecting && !session.child_running ==> !session_running(session),
{
}

/// A client that comes and goes leaves a session as it was. Going without having come
/// changes nothing.
pub proof fn law_detaching_undoes_attaching(session: SessionView)
    ensures
        session.attached_clients < u32::MAX ==> detached(attached(session)) == session,
        session.attached_clients < u32::MAX ==> attached(session).attached_clients
            == session.attached_clients + 1,
        session.attached_clients > 0 ==> attached(detached(session)) == session,
        session.attached_clients == 0 ==> detached(session) == session,
{
}

/// A session has the size that it was last given, in columns and rows, and resizing
/// changes nothing else about it.
pub proof fn law_last_size_counts(
    session: SessionView,
    cols: usize,
    rows: usize,
    other_cols: usize,
    other_rows: usize,
)
    ensures
        resized(session, cols, rows).cols == cols,
        resized(session, cols, rows).rows == rows,
        resized(resized(session, other_cols, other_rows), cols, rows) == resized(
            session,
            cols,
            rows,
        ),
        resized(resized(session, cols, rows), session.cols, session.rows) == session,
{
}

/// Title, color and template are set one by one: each stays what it was set to when
/// the others are set, and nothing else about the session changes.
pub proof fn law_metadata_is_set_one_by_one(
    session: SessionView,
    title: Seq<char>,
    color: Seq<char>,
    name: Seq<char>,
)
    ensures
        ({
            let after = templated(colored(titled(session, title), color), name);
            &&& after.custom_title == title
            &&& after.tab_color == color
            &&& after.template_name == name
            &&& after == titled(colored(templated(session, name), color), title)
            &&& titled(colored(templated(after, session.template_name), session.tab_color), session.custom_title)
                == session
        }),
        titled(session, title).custom_title == title,
        colored(session, color).tab_color == color,
        templated(session, name).template_name == name,
{
}

/// A transfer command is submitted only to a worker that is there, and while no
/// relaunch is under way; a refusal says which of the two was the reason, the relaunch
/// first.
pub proof fn law_transfers_wait_for_no_relaunch(accepting: bool, available: bool)
    ensures
        transfer_route(accepting, available) == TransferRoute::Submit <==> accepting && available,
        transfer_route(accepting, available) == TransferRoute::Refuse(
            TransferRefusal::RelaunchInProgress,
        ) <==> !accepting,
        transfer_route(accepting, available) == TransferRoute::Refuse(
            TransferRefusal::ExecutorUnavailable,
        ) <==> accepting && !available,
{
}

/// Each refusal of a transfer has a status of its own, which begins with the name of
/// the system error that it amounts to.
pub proof fn law_refusals_are_told_apart(left: TransferRefusal, right: TransferRefusal)
    ensures
        left.spec_status() == right.spec_status() ==> left == right,
        TransferRefusal::RelaunchInProgress.spec_status()
            == "EBUSY:Daemon relaunch in progress"@,
        TransferRefusal::ExecutorUnavailable.spec_status()
            == "ENOTSUP:Local transfer executor is unavailable"@,
        TransferRefusal::ExecutorStopped.spec_status() == "EIO:Local transfer executor stopped"@,
{
    reveal_strlit("EBUSY:Daemon relaunch in progress");
    reveal_strlit("ENOTSUP:Local transfer executor is unavailable");
    reveal_strlit("EIO:Local transfer executor stopped");
    assert("EBUSY:Daemon relaunch in progress"@[1] == 'B');
    assert("ENOTSUP:Local transfer executor is unavailable"@[1] == 'N');
    assert("EIO:Local transfer executor stopped"@[1] == 'I');
}

/// A command that is refused is answered under its own identifiers, unless it wants no
/// errors; one that is submitted is neither answered nor dropped.
pub proof fn law_refused_commands_are_answered(
    step: CommandStep,
    accepting: bool,
    available: bool,
    command: TransferCommand,
)
    requires
        follows(step, transfer_route(accepting, available), command),
    ensures
        step is Submit <==> accepting && available,
        step is Drop <==> command.quiet >= 2 && !(accepting && available),
        step is Answer <==> command.quiet < 2 && !(accepting && available),
        step matches CommandStep::Answer(answer) ==> answer.id@ == command.id@ && optional_text(
            answer.file_id,
        ) == optional_text(command.file_id) && answer.status@ == (if accepting {
            "ENOTSUP:Local transfer executor is unavailable"@
        } else {
            "EBUSY:Daemon relaunch in progress"@
        }),
{
}

/// Responses are joined in their order, each whole: joining two batches is joining
/// them one after the other, and a single response is joined as it is.
pub proof fn law_responses_are_joined_in_order(
    first: Seq<Vec<u8>>,
    second: Seq<Vec<u8>>,
    response: Vec<u8>,
)
    ensures
        joined(first + second) == joined(first) + joined(second),
        joined(seq![response]) == response@,
    decreases second.len(),
{
    reveal_with_fuel(joined, 2);
    assert(seq![response].drop_last() =~= Seq::<Vec<u8>>::empty());
    assert(joined(seq![response]) =~= response@);
    if second.len() == 0 {
        assert(first + second =~= first);
        assert(joined(first) + joined(second) =~= joined(first));
    } else {
        law_responses_are_joined_in_order(first, second.drop_last(), response);
        assert((first + second).drop_last() =~= first + second.drop_last());
        assert((first + second).last() == second.last());
        assert(joined(first) + joined(second) =~= joined(first) + joined(second.drop_last())
            + second.last()@);
    }
}

/// Raising a prompt keeps those that wait already, and the next prompt has another
/// identifier. Every identifier begins with that of the session, and a hyphen.
pub proof fn law_prompts_follow_each_other(session: SessionView, id: Seq<char>)
    ensures
        session.prompts.contains(id) ==> prompted(session).prompts.contains(id),
        prompted(session).prompts.contains(id) ==> session.prompts.contains(id) || id == prompt_id(
            session,
        ),
        prompted(session).id == session.id,
        session.prompt_counter < u64::MAX ==> prompted(session).prompt_counter
            == session.prompt_counter + 1,
        prompt_id(prompted(session)) != prompt_id(session),
        prompt_id(session).len() > session.id.len() + 1,
        prompt_id(session).take(session.id.len() as int) == session.id,
        prompt_id(session)[session.id.len() as int] == '-',
        session.prompt_counter == 0 ==> prompt_id(session) == session.id + seq!['-', '0'],
{
    law_prompts_are_told_apart(prompted(session), session);
    reveal_strlit("-");
    law_decimal_is_read_back(session.prompt_counter as nat);
    assert(prompt_id(session).take(session.id.len() as int) =~= session.id);
    if session.prompt_counter == 0 {
        assert(decimal(0) =~= seq!['0']) by {
            reveal_with_fuel(decimal, 2);
        }
        assert(prompt_id(session) =~= session.id + seq!['-', '0']);
    }
}

/// The user is asked about an unknown or a changed host key as what it is, and trusts
/// it only by accepting it.
pub proof fn law_host_keys_are_trusted_by_choice(changed: bool, reply: PromptReply)
    ensures
        host_key_kind(changed) == PromptKind::HostkeyChanged <==> changed,
        host_key_kind(changed) == PromptKind::HostkeyUnknown <==> !changed,
        trusts(Some(reply)) <==> reply.accept,
        !trusts(None),
{
}

} // verus!
