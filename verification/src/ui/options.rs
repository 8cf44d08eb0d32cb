//! What a new session is started with, what its tab is called, and what a tab
//! template asks for.

use crate::text::{
    ascii_lower_text, chars_of, copy_optional, copy_texts, is_optional_text, optional_text,
    same_ignoring_case, same_text, text_of, texts, trim_text, trimmed,
};
use vstd::prelude::*;

verus! {

/// The columns and rows of a session before its widget has a size.
pub const INITIAL_COLS: u32 = 80;

pub const INITIAL_ROWS: u32 = 24;

/// The colour of a container's tab.
pub const DOCKER_COLOR: &'static str = "#0db7ed";

/// What a shell is started with, by the configuration.
#[derive(Debug)]
pub struct ShellConfig {
    pub default_shell: Option<String>,
    pub shell_args: Vec<String>,
}

/// What a session is started with. `S` is how a remote shell is reached.
#[derive(Debug)]
pub struct CreateSessionOpts<S> {
    pub cols: u32,
    pub rows: u32,
    pub shell: Option<String>,
    pub args: Vec<String>,
    pub cwd: Option<String>,
    /// What is added to the environment of its process, each by name and value.
    pub env: Vec<(String, String)>,
    /// The kind of terminal that its process is told.
    pub term: Option<String>,
    pub ssh: Option<S>,
}

/// What a session is started with, as a value.
pub ghost struct OptionsView<S> {
    pub cols: u32,
    pub rows: u32,
    pub shell: Option<Seq<char>>,
    pub args: Seq<Seq<char>>,
    pub cwd: Option<Seq<char>>,
    pub env: Seq<(Seq<char>, Seq<char>)>,
    pub term: Option<Seq<char>>,
    pub ssh: Option<S>,
}

impl<S> View for CreateSessionOpts<S> {
    type V = OptionsView<S>;

    open spec fn view(&self) -> OptionsView<S> {
        OptionsView {
            cols: self.cols,
            rows: self.rows,
            shell: optional_text(self.shell),
            args: texts(self.args@),
            cwd: optional_text(self.cwd),
            env: variables(self.env@),
            term: optional_text(self.term),
            ssh: self.ssh,
        }
    }
}

/// Environment variables as names and values.
pub open spec fn variables(env: Seq<(String, String)>) -> Seq<(Seq<char>, Seq<char>)> {
    env.map_values(|variable: (String, String)| (variable.0@, variable.1@))
}

/// A copy of a list of environment variables.
fn copy_variables(env: &Vec<(String, String)>) -> (copy: Vec<(String, String)>)
    ensures
        variables(copy@) == variables(env@),
{
    let mut copy: Vec<(String, String)> = Vec::new();
    let mut index: usize = 0;
    while index < env.len()
        invariant
            index <= env@.len(),
            copy@.len() == index,
            forall|i: int|
                0 <= i < index ==> (#[trigger] copy@[i]).0@ == env@[i].0@ && copy@[i].1@
                    == env@[i].1@,
        decreases env@.len() - index,
    {
        copy.push((env[index].0.as_str().to_owned(), env[index].1.as_str().to_owned()));
        index += 1;
    }
    proof {
        assert(variables(copy@) =~= variables(env@));
    }
    copy
}

/// The way to a host, copied for another session.
pub open spec fn same_way<S: Clone>(way: Option<S>, copy: Option<S>) -> bool {
    match (way, copy) {
        (Some(way), Some(copy)) => cloned(way, copy),
        (None, None) => true,
        _ => false,
    }
}

/// The part of a session's start that stays the same for the panes that are split
/// from it, whatever becomes of the configuration.
#[derive(Debug)]
pub struct LaunchContext<S> {
    pub shell: Option<String>,
    pub args: Vec<String>,
    pub env: Vec<(String, String)>,
    pub term: Option<String>,
    pub ssh: Option<S>,
}

/// The same as a value.
pub ghost struct LaunchView<S> {
    pub shell: Option<Seq<char>>,
    pub args: Seq<Seq<char>>,
    pub env: Seq<(Seq<char>, Seq<char>)>,
    pub term: Option<Seq<char>>,
    pub ssh: Option<S>,
}

impl<S> View for LaunchContext<S> {
    type V = LaunchView<S>;

    open spec fn view(&self) -> LaunchView<S> {
        LaunchView {
            shell: optional_text(self.shell),
            args: texts(self.args@),
            env: variables(self.env@),
            term: optional_text(self.term),
            ssh: self.ssh,
        }
    }
}

/// A launch context that may be missing, as a value.
pub open spec fn optional_launch<S>(context: Option<LaunchContext<S>>) -> Option<LaunchView<S>> {
    match context {
        Some(context) => Some(context@),
        None => None,
    }
}

/// The part of a session's start that others inherit.
pub open spec fn launch_part<S>(options: OptionsView<S>) -> LaunchView<S> {
    LaunchView {
        shell: options.shell,
        args: options.args,
        env: options.env,
        term: options.term,
        ssh: options.ssh,
    }
}

/// The same shell with its arguments, environment, kind of terminal and way to the host.
pub open spec fn launched_alike<S: Clone>(first: LaunchView<S>, second: LaunchView<S>) -> bool {
    &&& second.shell == first.shell
    &&& second.args == first.args
    &&& second.env == first.env
    &&& second.term == first.term
    &&& same_way(first.ssh, second.ssh)
}

/// Whether a session's start is a given one, but for what it inherits by a context. The
/// directory and the size stay its own.
pub open spec fn launched_with<S: Clone>(
    base: OptionsView<S>,
    context: Option<LaunchView<S>>,
    options: OptionsView<S>,
) -> bool {
    match context {
        Some(context) => {
            &&& launched_alike(context, launch_part(options))
            &&& options.cols == base.cols
            &&& options.rows == base.rows
            &&& options.cwd == base.cwd
        },
        None => options == base,
    }
}

/// Whether one launch context, which may be missing, is a copy of another.
pub open spec fn same_launch<S: Clone>(
    first: Option<LaunchView<S>>,
    second: Option<LaunchView<S>>,
) -> bool {
    match (first, second) {
        (Some(first), Some(second)) => launched_alike(first, second),
        (None, None) => true,
        _ => false,
    }
}

impl<S: Clone> LaunchContext<S> {
    /// What the panes that are split from a session inherit of its start.
    pub fn capture(options: &CreateSessionOpts<S>) -> (context: Self)
        ensures
            launched_alike(launch_part(options@), context@),
    {
        LaunchContext {
            shell: copy_optional(&options.shell),
            args: copy_texts(&options.args),
            env: copy_variables(&options.env),
            term: copy_optional(&options.term),
            ssh: options.ssh.clone(),
        }
    }

    /// Start a session the way that was captured.
    pub fn apply_to(&self, options: &mut CreateSessionOpts<S>)
        ensures
            launched_with(old(options)@, Some(self@), final(options)@),
    {
        options.shell = copy_optional(&self.shell);
        options.args = copy_texts(&self.args);
        options.env = copy_variables(&self.env);
        options.term = copy_optional(&self.term);
        options.ssh = self.ssh.clone();
    }

    /// A copy of the context.
    pub fn copy(&self) -> (copy: Self)
        ensures
            launched_alike(self@, copy@),
    {
        LaunchContext {
            shell: copy_optional(&self.shell),
            args: copy_texts(&self.args),
            env: copy_variables(&self.env),
            term: copy_optional(&self.term),
            ssh: self.ssh.clone(),
        }
    }
}

/// A copy of a launch context that may be missing.
pub fn copy_launch<S: Clone>(context: &Option<LaunchContext<S>>) -> (copy: Option<LaunchContext<S>>)
    ensures
        same_launch(optional_launch(*context), optional_launch(copy)),
{
    match context {
        Some(context) => Some(context.copy()),
        None => None,
    }
}

/// A session that was started by a context hands on the same context, so splits of
/// splits all start alike. Where a way to a host cannot be told from its copy, the two
/// contexts are equal.
pub proof fn law_context_is_handed_on<S: Clone>(
    base: OptionsView<S>,
    context: LaunchView<S>,
    options: OptionsView<S>,
    next: LaunchView<S>,
)
    requires
        launched_with(base, Some(context), options),
        launched_alike(launch_part(options), next),
    ensures
        next.shell == context.shell,
        next.args == context.args,
        next.env == context.env,
        next.term == context.term,
        next.ssh is Some <==> context.ssh is Some,
        (forall|way: S, copy: S| #[trigger] cloned(way, copy) ==> way == copy) ==> next == context,
{
}

/// What a session on a remote daemon is started with: a directory at most, for a
/// local shell means nothing there.
pub open spec fn remote_options<S>(cwd: Option<Seq<char>>) -> OptionsView<S> {
    OptionsView {
        cols: INITIAL_COLS,
        rows: INITIAL_ROWS,
        shell: None,
        args: Seq::empty(),
        cwd,
        env: Seq::empty(),
        term: None,
        ssh: None,
    }
}

/// What a session on the local daemon is started with.
pub open spec fn local_options<S>(
    shell: Option<Seq<char>>,
    args: Seq<Seq<char>>,
    cwd: Option<Seq<char>>,
    ssh: Option<S>,
) -> OptionsView<S> {
    OptionsView {
        cols: INITIAL_COLS,
        rows: INITIAL_ROWS,
        shell,
        args,
        cwd,
        env: Seq::empty(),
        term: None,
        ssh,
    }
}

/// What a new pane's session is started with. A local one gets the configured
/// shell and the way to its host; one on a remote daemon gets neither, for a
/// local shell means nothing there. Both start in the given directory. Where it is
/// known how the session beside it was started, that counts: neither the configuration
/// nor `native_ssh`, which stands in for a way to the host that is not known.
pub fn inherited_pane_session_options<S: Clone>(
    config: &ShellConfig,
    remote_backend: bool,
    cwd: Option<String>,
    native_ssh: Option<S>,
    launch_context: Option<&LaunchContext<S>>,
) -> (options: CreateSessionOpts<S>)
    ensures
        launched_with(
            if remote_backend {
                remote_options(optional_text(cwd))
            } else {
                local_options(
                    optional_text(config.default_shell),
                    texts(config.shell_args@),
                    optional_text(cwd),
                    native_ssh,
                )
            },
            match launch_context {
                Some(context) => Some(context@),
                None => None,
            },
            options@,
        ),
{
    let mut options = if remote_backend {
        CreateSessionOpts {
            cols: INITIAL_COLS,
            rows: INITIAL_ROWS,
            shell: None,
            args: Vec::new(),
            cwd,
            env: Vec::new(),
            term: None,
            ssh: None,
        }
    } else {
        CreateSessionOpts {
            cols: INITIAL_COLS,
            rows: INITIAL_ROWS,
            shell: copy_optional(&config.default_shell),
            args: copy_texts(&config.shell_args),
            cwd,
            env: Vec::new(),
            term: None,
            ssh: native_ssh,
        }
    };
    proof {
        assert(variables(options.env@) =~= Seq::<(Seq<char>, Seq<char>)>::empty());
        if remote_backend {
            assert(texts(options.args@) =~= Seq::<Seq<char>>::empty());
        }
    }
    if let Some(context) = launch_context {
        context.apply_to(&mut options);
    }
    options
}

/// What a new tab's session is started with.
pub open spec fn tab_options<S>(
    given_daemon: bool,
    shell: Option<Seq<char>>,
    args: Seq<Seq<char>>,
    cwd: Option<Seq<char>>,
) -> OptionsView<S> {
    if given_daemon {
        remote_options::<S>(None)
    } else {
        local_options::<S>(shell, args, cwd, None)
    }
}

/// A session starts with eighty columns and twenty-four rows and adds nothing to its
/// environment. A local one gets its shell, its arguments, its directory and its way to
/// a host, each as what it is; a remote one gets a directory at most, and one on a given
/// daemon not even that.
pub proof fn law_sessions_start_with_what_is_theirs<S>(
    shell: Option<Seq<char>>,
    args: Seq<Seq<char>>,
    cwd: Option<Seq<char>>,
    ssh: Option<S>,
)
    ensures
        ({
            let local = local_options(shell, args, cwd, ssh);
            let remote = remote_options::<S>(cwd);
            &&& local.cols == 80
            &&& local.rows == 24
            &&& remote.cols == 80
            &&& remote.rows == 24
            &&& local.shell == shell
            &&& local.args == args
            &&& local.cwd == cwd
            &&& local.ssh == ssh
            &&& local.env.len() == 0
            &&& local.term is None
            &&& remote.shell is None
            &&& remote.args.len() == 0
            &&& remote.cwd == cwd
            &&& remote.env.len() == 0
            &&& remote.term is None
            &&& remote.ssh is None
            &&& tab_options::<S>(true, shell, args, cwd) == remote_options::<S>(None)
            &&& tab_options::<S>(false, shell, args, cwd).shell == shell
            &&& tab_options::<S>(false, shell, args, cwd).args == args
            &&& tab_options::<S>(false, shell, args, cwd).cwd == cwd
            &&& tab_options::<S>(false, shell, args, cwd).ssh is None
        }),
{
}

/// A session that is started by a context has the shell, the arguments, the environment,
/// the kind of terminal and the way to the host of the context, and the size and the
/// directory that it has without one.
pub proof fn law_sessions_start_by_their_context<S: Clone>(
    base: OptionsView<S>,
    context: LaunchView<S>,
    options: OptionsView<S>,
)
    requires
        launched_with(base, Some(context), options),
    ensures
        options.shell == context.shell,
        options.args == context.args,
        options.env == context.env,
        options.term == context.term,
        options.ssh is Some <==> context.ssh is Some,
        options.cols == base.cols,
        options.rows == base.rows,
        options.cwd == base.cwd,
        launch_part(options).shell == options.shell,
        launch_part(options).args == options.args,
        launch_part(options).env == options.env,
        launch_part(options).term == options.term,
        launch_part(options).ssh == options.ssh,
        launched_with(base, None, base),
{
}

/// What a new tab's session is started with. One on a given daemon is left to
/// that daemon's defaults.
pub fn new_tab_options<S: Clone>(config: &ShellConfig, given_daemon: bool, cwd: Option<String>) -> (options:
    CreateSessionOpts<S>)
    ensures
        options@ == tab_options::<S>(
            given_daemon,
            optional_text(config.default_shell),
            texts(config.shell_args@),
            optional_text(cwd),
        ),
{
    if given_daemon {
        inherited_pane_session_options(config, true, None, None, None)
    } else {
        inherited_pane_session_options(config, false, cwd, None, None)
    }
}

/// What a container's session is started with: the container tool itself.
pub fn docker_tab_options<S>(command: &str, args: &Vec<String>) -> (options: CreateSessionOpts<S>)
    ensures
        options@ == local_options::<S>(Some(command@), texts(args@), None, None),
{
    let options = CreateSessionOpts {
        cols: INITIAL_COLS,
        rows: INITIAL_ROWS,
        shell: Some(command.to_owned()),
        args: copy_texts(args),
        cwd: None,
        env: Vec::new(),
        term: None,
        ssh: None,
    };
    proof {
        assert(variables(options.env@) =~= Seq::<(Seq<char>, Seq<char>)>::empty());
    }
    options
}

/// Where the last piece of a path starts.
pub open spec fn piece_start(path: Seq<char>) -> int
    decreases path.len(),
{
    if path.len() == 0 || path.last() == '/' {
        path.len() as int
    } else {
        piece_start(path.drop_last())
    }
}

/// The name of the file that a path leads to: its last piece, where empty pieces
/// and single dots do not count. A path that ends in the parent directory, or
/// has no piece at all, has none.
pub open spec fn file_name(path: Seq<char>) -> Option<Seq<char>>
    decreases path.len(),
{
    let start = piece_start(path);
    let piece = path.skip(start);
    if 0 <= start <= path.len() && (piece.len() == 0 || piece == seq!['.']) {
        if start == 0 {
            None
        } else {
            file_name(path.take(start - 1))
        }
    } else if piece == seq!['.', '.'] {
        None
    } else {
        Some(piece)
    }
}

/// The name of the file that a path leads to.
pub fn path_file_name(path: &str) -> (name: Option<String>)
    ensures
        optional_text(name) == file_name(path@),
{
    let chars = chars_of(path);
    let mut end: usize = chars.len();
    proof {
        assert(chars@.take(end as int) =~= chars@);
    }
    loop
        invariant
            chars@ == path@,
            end <= chars@.len(),
            file_name(chars@) == file_name(chars@.take(end as int)),
        decreases end,
    {
        let ghost rest = chars@.take(end as int);
        let mut start: usize = end;
        proof {
            assert(rest.take(end as int) =~= rest);
        }
        while start > 0 && chars[start - 1] != '/'
            invariant
                start <= end <= chars@.len(),
                rest == chars@.take(end as int),
                piece_start(rest) == piece_start(rest.take(start as int)),
            decreases start,
        {
            proof {
                assert(rest.take(start as int).drop_last() =~= rest.take(start - 1));
                assert(rest.take(start as int).last() == chars@[start - 1]);
            }
            start -= 1;
        }
        proof {
            if start > 0 {
                assert(rest.take(start as int).last() == chars@[start - 1]);
            }
            assert(piece_start(rest) == start);
            assert(rest.skip(start as int) =~= chars@.subrange(start as int, end as int));
        }
        let length: usize = end - start;
        if length == 0 || (length == 1 && chars[start] == '.') {
            proof {
                if length == 1 {
                    assert(rest.skip(start as int) =~= seq!['.']);
                }
            }
            if start == 0 {
                return None;
            }
            end = start - 1;
            proof {
                assert(rest.take(start - 1) =~= chars@.take(end as int));
            }
        } else if length == 2 && chars[start] == '.' && chars[start + 1] == '.' {
            proof {
                assert(rest.skip(start as int) =~= seq!['.', '.']);
            }
            return None;
        } else {
            proof {
                let piece = rest.skip(start as int);
                if piece == seq!['.'] {
                    assert(piece[0] == '.');
                }
                if piece == seq!['.', '.'] {
                    assert(piece[0] == '.' && piece[1] == '.');
                }
            }
            return Some(text_of(&chars, start, end));
        }
    }
}

/// What a tab is called by its shell: the name of the shell's file.
pub open spec fn shell_name(shell: Seq<char>) -> Seq<char> {
    match file_name(shell) {
        Some(name) => name,
        None => "Terminal"@,
    }
}

/// The first title of a session.
pub open spec fn first_title(shell: Seq<char>, remote_backend: bool) -> Seq<char> {
    if remote_backend {
        "Terminal"@
    } else {
        shell_name(shell)
    }
}

/// A file is called by what stands behind the last slash of its path; slashes at the end
/// and single dots do not count.
pub proof fn law_files_are_called_by_their_last_piece(dir: Seq<char>, name: Seq<char>)
    requires
        name.len() > 0,
        !name.contains('/'),
        name != seq!['.'],
        name != seq!['.', '.'],
    ensures
        file_name(name) == Some(name),
        file_name(dir + seq!['/'] + name) == Some(name),
        file_name(dir + seq!['/']) == file_name(dir),
        file_name(dir + seq!['/', '.']) == file_name(dir),
        file_name(dir + seq!['/', '.', '.']) is None,
        file_name(Seq::empty()) is None,
        shell_name(dir + seq!['/'] + name) == name,
        first_title(dir + seq!['/'] + name, false) == name,
        first_title(dir, true) == "Terminal"@,
{
    lemma_piece_behind(dir + seq!['/'], name);
    lemma_piece_behind(Seq::empty(), name);
    assert(Seq::<char>::empty() + name =~= name);
    assert(name.skip(0) =~= name);
    let path = dir + seq!['/'] + name;
    assert(path.skip(dir.len() + 1int) =~= name);
    let slashed = dir + seq!['/'];
    assert(slashed.skip(slashed.len() as int) =~= Seq::<char>::empty());
    assert(slashed.take(slashed.len() - 1) =~= dir);
    assert(piece_start(slashed) == slashed.len());
    assert(file_name(slashed) == file_name(dir));
    let dotted = dir + seq!['/', '.'];
    lemma_piece_behind(slashed, seq!['.']);
    assert(slashed + seq!['.'] =~= dotted);
    assert(dotted.skip(dir.len() + 1int) =~= seq!['.']);
    assert(dotted.take(dir.len() as int) =~= dir);
    let parent = dir + seq!['/', '.', '.'];
    lemma_piece_behind(slashed, seq!['.', '.']);
    assert(slashed + seq!['.', '.'] =~= parent);
    assert(parent.skip(dir.len() + 1int) =~= seq!['.', '.']);
    assert(seq!['.', '.'] != seq!['.']) by {
        assert(seq!['.', '.'].len() != seq!['.'].len());
    }
}

proof fn lemma_piece_behind(front: Seq<char>, piece: Seq<char>)
    requires
        front.len() == 0 || front.last() == '/',
        !piece.contains('/'),
    ensures
        piece_start(front + piece) == front.len(),
    decreases piece.len(),
{
    let path = front + piece;
    if piece.len() == 0 {
        assert(path =~= front);
    } else {
        let shorter = piece.drop_last();
        assert(path.drop_last() =~= front + shorter);
        assert(path.last() == piece.last());
        assert(piece.last() != '/') by {
            assert(piece.contains(piece.last()));
        }
        assert forall|i: int| 0 <= i < shorter.len() implies shorter[i] != '/' by {
            assert(piece[i] != '/');
        }
        lemma_piece_behind(front, shorter);
    }
}

/// The first title of a session: that of its shell, unless it runs on a remote
/// daemon, whose shell is not known here.
pub fn initial_title(shell: &str, remote_backend: bool) -> (title: String)
    ensures
        title@ == first_title(shell@, remote_backend),
{
    if remote_backend {
        return "Terminal".to_owned();
    }
    match path_file_name(shell) {
        Some(name) => name,
        None => "Terminal".to_owned(),
    }
}

/// Whether a pane can be split, and whether the new pane's session runs on a
/// remote daemon.
#[derive(Clone, Copy, Debug, PartialEq, Eq, Structural)]
pub enum SplitBackend {
    /// A remote pane without the socket of its daemon cannot be split.
    Refused,
    Local,
    Remote,
}

/// Where the session of a new pane runs.
pub open spec fn backend_of(has_remote_name: bool, has_socket: bool, local_socket: bool) -> SplitBackend {
    if has_remote_name && !has_socket {
        SplitBackend::Refused
    } else if has_remote_name || (has_socket && !local_socket) {
        SplitBackend::Remote
    } else {
        SplitBackend::Local
    }
}

/// A pane is split where it runs: a remote one needs the socket of its daemon, one at the
/// local socket or at none is local, and only a remote pane without a socket is refused.
pub proof fn law_panes_are_split_where_they_run(
    has_remote_name: bool,
    has_socket: bool,
    local_socket: bool,
)
    ensures
        backend_of(has_remote_name, has_socket, local_socket) == SplitBackend::Refused
            <==> has_remote_name && !has_socket,
        backend_of(has_remote_name, has_socket, local_socket) == SplitBackend::Remote
            <==> has_socket && (has_remote_name || !local_socket),
        backend_of(has_remote_name, has_socket, local_socket) == SplitBackend::Local
            <==> !has_remote_name && (!has_socket || local_socket),
{
}

/// Where the session of a new pane runs: where that of the split pane does. A
/// daemon at another socket than the local one's is a remote one.
pub fn split_backend(has_remote_name: bool, has_socket: bool, local_socket: bool) -> (backend:
    SplitBackend)
    ensures
        backend == backend_of(has_remote_name, has_socket, local_socket),
{
    if has_remote_name && !has_socket {
        SplitBackend::Refused
    } else if has_remote_name || (has_socket && !local_socket) {
        SplitBackend::Remote
    } else {
        SplitBackend::Local
    }
}

/// How a daemon is reached.
#[derive(Clone, Copy, Debug, PartialEq, Eq, Structural)]
pub enum DaemonRoute {
    /// At a given socket.
    Socket,
    /// Through a configured remote.
    Remote,
    /// The local daemon.
    Local,
}

/// How the daemon of a new tab is reached.
pub open spec fn route_of(has_socket: bool, has_remote: bool) -> DaemonRoute {
    if has_socket {
        DaemonRoute::Socket
    } else if has_remote {
        DaemonRoute::Remote
    } else {
        DaemonRoute::Local
    }
}

/// A given socket counts before a remote, and the local daemon is reached only where
/// neither is given.
pub proof fn law_given_sockets_count_first(has_socket: bool, has_remote: bool)
    ensures
        route_of(has_socket, has_remote) == DaemonRoute::Socket <==> has_socket,
        route_of(has_socket, has_remote) == DaemonRoute::Remote <==> has_remote && !has_socket,
        route_of(has_socket, has_remote) == DaemonRoute::Local <==> !has_remote && !has_socket,
{
}

/// How the daemon of a new tab is reached: a given socket first, then a remote.
pub fn tab_route(has_socket: bool, has_remote: bool) -> (route: DaemonRoute)
    ensures
        route == route_of(has_socket, has_remote),
{
    if has_socket {
        DaemonRoute::Socket
    } else if has_remote {
        DaemonRoute::Remote
    } else {
        DaemonRoute::Local
    }
}

/// What a container is selected by.
#[derive(Debug)]
pub enum DockerSelection {
    /// A running container, by its name.
    ExecContainer(String),
    /// An image, by its repository and its tag.
    RunImage(String, String),
}

/// The image's name for the container tool.
pub open spec fn image_name(repository: Seq<char>, tag: Seq<char>) -> Seq<char> {
    repository + ":"@ + tag
}

/// What is run, or in what: the image, or the container.
pub open spec fn docker_target(selection: DockerSelection) -> Seq<char> {
    match selection {
        DockerSelection::ExecContainer(name) => name@,
        DockerSelection::RunImage(repository, tag) => image_name(repository@, tag@),
    }
}

/// The container or the image, as the container tool and the tab name it.
pub fn docker_target_text(selection: &DockerSelection) -> (target: String)
    ensures
        target@ == docker_target(*selection),
{
    match selection {
        DockerSelection::ExecContainer(name) => name.as_str().to_owned(),
        DockerSelection::RunImage(repository, tag) => {
            let mut target = repository.as_str().to_owned();
            target.append(":");
            target.append(tag.as_str());
            target
        },
    }
}

/// The title of a container's tab.
pub open spec fn docker_title_text(selection: DockerSelection) -> Seq<char> {
    "Docker: "@ + docker_target(selection)
}

/// A container is named by its name and an image by its repository and its tag, with a
/// colon between them; the tab is called after it.
pub proof fn law_containers_are_called_by_their_names(name: String, repository: String, tag: String)
    ensures
        docker_target(DockerSelection::ExecContainer(name)) == name@,
        docker_target(DockerSelection::RunImage(repository, tag)) == repository@ + seq![':'] + tag@,
        docker_title_text(DockerSelection::ExecContainer(name)).skip(8) == name@,
        docker_title_text(DockerSelection::RunImage(repository, tag)).skip(8) == repository@ + seq![
            ':',
        ] + tag@,
{
    reveal_strlit(":");
    reveal_strlit("Docker: ");
    assert(":"@ =~= seq![':']);
    assert(docker_title_text(DockerSelection::ExecContainer(name)).skip(8) =~= name@);
    assert(docker_title_text(DockerSelection::RunImage(repository, tag)).skip(8) =~= repository@
        + seq![':'] + tag@);
}

/// The title of a container's tab.
pub fn docker_title(selection: &DockerSelection) -> (title: String)
    ensures
        title@ == docker_title_text(*selection),
{
    let mut title = "Docker: ".to_owned();
    let target = docker_target_text(selection);
    title.append(target.as_str());
    title
}

/// The title of a session that was found again.
pub open spec fn found_title(custom: Seq<char>, title: Seq<char>, fallback: Seq<char>) -> Seq<char> {
    if custom.len() > 0 {
        custom
    } else if title.len() > 0 {
        title
    } else {
        fallback
    }
}

/// The title of a tab that was handed over.
pub open spec fn found_tab_title(tab_title: Seq<char>, custom: bool, active_title: Seq<char>) -> Seq<
    char,
> {
    if custom || active_title.len() == 0 {
        tab_title
    } else {
        active_title
    }
}

/// The colour of a tab that was found again.
pub open spec fn found_color(handed_over: Option<Seq<char>>, from_daemon: Seq<char>) -> Option<
    Seq<char>,
> {
    if handed_over is Some {
        handed_over
    } else if from_daemon.len() == 0 {
        None
    } else {
        Some(from_daemon)
    }
}

/// What the user set counts before what a session set, and that before a fallback; a tab
/// that the user named keeps its name, and any other is called after its active pane
/// where that has a title. A colour that was handed over counts before the daemon's.
pub proof fn law_what_the_user_set_counts_first(
    custom: Seq<char>,
    title: Seq<char>,
    fallback: Seq<char>,
    color: Seq<char>,
)
    ensures
        custom.len() > 0 ==> found_title(custom, title, fallback) == custom,
        title.len() > 0 ==> found_title(Seq::empty(), title, fallback) == title,
        found_title(Seq::empty(), Seq::empty(), fallback) == fallback,
        found_tab_title(custom, true, title) == custom,
        title.len() > 0 ==> found_tab_title(custom, false, title) == title,
        found_tab_title(custom, false, Seq::empty()) == custom,
        found_color(Some(color), title) == Some(color),
        color.len() > 0 ==> found_color(None, color) == Some(color),
        found_color(None, Seq::empty()) is None,
{
}

/// The title of a session that was found again, and whether the user set it:
/// what the user set, then what the session set, then a fallback.
pub fn restored_title(custom_title: &str, title: &str, fallback: &str) -> (restored: (String, bool))
    ensures
        restored.0@ == found_title(custom_title@, title@, fallback@),
        restored.1 == (custom_title@.len() > 0),
{
    if !custom_title.is_empty() {
        (custom_title.to_owned(), true)
    } else if !title.is_empty() {
        (title.to_owned(), false)
    } else {
        (fallback.to_owned(), false)
    }
}

/// The title of a pane that was handed over: what was handed over, then as for
/// any session that was found again.
pub fn restored_pane_title(handed_over: &str, custom_title: &str, title: &str) -> (restored: String)
    ensures
        restored@ == (if handed_over@.len() > 0 {
            handed_over@
        } else {
            found_title(custom_title@, title@, "Terminal"@)
        }),
{
    if !handed_over.is_empty() {
        handed_over.to_owned()
    } else {
        restored_title(custom_title, title, "Terminal").0
    }
}

/// The title of a tab that was handed over: that of its active pane, unless the
/// user set one for the tab or the pane has none.
pub fn restored_tab_title(tab_title: &str, custom: bool, active_title: &str) -> (restored: String)
    ensures
        restored@ == found_tab_title(tab_title@, custom, active_title@),
{
    if custom || active_title.is_empty() {
        tab_title.to_owned()
    } else {
        active_title.to_owned()
    }
}

/// A text that stands for nothing when it is empty.
pub fn non_empty(text: &str) -> (result: Option<String>)
    ensures
        optional_text(result) == (if text@.len() == 0 {
            None
        } else {
            Some(text@)
        }),
{
    if text.is_empty() {
        None
    } else {
        Some(text.to_owned())
    }
}

/// The colour of a tab that was found again: the one that was handed over, then
/// the daemon's.
pub fn restored_color(handed_over: Option<String>, from_daemon: &str) -> (color: Option<String>)
    ensures
        optional_text(color) == found_color(optional_text(handed_over), from_daemon@),
{
    match handed_over {
        Some(color) => Some(color),
        None => non_empty(from_daemon),
    }
}

/// A configured remote.
#[derive(Debug)]
pub struct RemoteConfig {
    pub name: String,
    pub host: String,
    pub ssh_compression: bool,
}

/// The daemon that a template's session runs on.
#[derive(Debug)]
pub enum TemplateDaemonTarget {
    Local,
    Named(RemoteConfig),
}

/// The remote that a template asks for.
pub open spec fn details_of(target: TemplateDaemonTarget) -> Option<(Seq<char>, Seq<char>, bool)> {
    match target {
        TemplateDaemonTarget::Local => None,
        TemplateDaemonTarget::Named(remote) => Some(
            (remote.name@, remote.host@, remote.ssh_compression),
        ),
    }
}

/// A template on this machine asks for no remote; one on a remote asks for it under its
/// own name and host, in that order, and compressed as the remote is.
pub proof fn law_templates_ask_for_their_remote(
    target: TemplateDaemonTarget,
    name: Seq<char>,
    host: Seq<char>,
    compression: bool,
)
    ensures
        details_of(target) is None <==> target is Local,
        details_of(target) == Some((name, host, compression)) <==> (
        target matches TemplateDaemonTarget::Named(remote) && remote.name@ == name && remote.host@
            == host && remote.ssh_compression == compression),
        DOCKER_COLOR@ == "#0db7ed"@,
{
}

/// The remote that a template asks for: its name, its host, and whether the
/// connection is compressed.
pub fn template_remote_details(target: &TemplateDaemonTarget) -> (details: Option<
    (&str, &str, bool),
>)
    ensures
        match details {
            None => details_of(*target) is None,
            Some((name, host, compression)) => details_of(*target) == Some(
                (name@, host@, compression),
            ),
        },
{
    match target {
        TemplateDaemonTarget::Local => None,
        TemplateDaemonTarget::Named(remote) => Some(
            (remote.name.as_str(), remote.host.as_str(), remote.ssh_compression),
        ),
    }
}

/// The first of the configured templates that has a name.
pub open spec fn template_place(names: Seq<String>, name: Seq<char>, from: int) -> Option<int>
    decreases names.len() - from,
{
    if from < 0 || from >= names.len() {
        None
    } else if names[from]@ == name {
        Some(from)
    } else {
        template_place(names, name, from + 1)
    }
}

/// The template that a restored session came from: how the session is reached is
/// taken from it. None where the session has no template, or its template is gone.
pub fn named_template(names: &Vec<String>, name: Option<&str>) -> (place: Option<usize>)
    ensures
        match name {
            Some(name) => match template_place(names@, name@, 0) {
                Some(found) => place matches Some(index) && index == found && index < names@.len()
                    && names@[found]@ == name@,
                None => place is None && forall|i: int|
                    0 <= i < names@.len() ==> (#[trigger] names@[i])@ != name@,
            },
            None => place is None,
        },
{
    let wanted = match name {
        Some(wanted) => wanted,
        None => return None,
    };
    let mut index: usize = 0;
    while index < names.len()
        invariant
            name == Some(wanted),
            index <= names@.len(),
            template_place(names@, wanted@, 0) == template_place(names@, wanted@, index as int),
            forall|i: int| 0 <= i < index ==> (#[trigger] names@[i])@ != wanted@,
        decreases names@.len() - index,
    {
        if same_text(names[index].as_str(), wanted) {
            return Some(index);
        }
        index += 1;
    }
    None
}

/// Whether a template may be open more than once.
#[derive(Clone, Copy, Debug, PartialEq, Eq, Structural)]
pub enum TemplateInstancePolicy {
    AlwaysCreate,
    ReuseExisting,
}

/// A pane that may belong to a template.
#[derive(Debug)]
pub struct TemplateCandidate {
    pub tab_index: usize,
    pub pane_id: u64,
    pub template_name: Option<String>,
}

/// The first candidate from `from` on that belongs to a template.
pub open spec fn template_pane(
    candidates: Seq<TemplateCandidate>,
    template_name: Seq<char>,
    from: int,
) -> Option<(usize, u64)>
    decreases candidates.len() - from,
{
    if from < 0 || from >= candidates.len() {
        None
    } else if optional_text(candidates[from].template_name) == Some(template_name) {
        Some((candidates[from].tab_index, candidates[from].pane_id))
    } else {
        template_pane(candidates, template_name, from + 1)
    }
}

/// Where a template that may be open only once is open already.
pub fn reusable_template_location(
    policy: TemplateInstancePolicy,
    template_name: &str,
    candidates: &Vec<TemplateCandidate>,
) -> (location: Option<(usize, u64)>)
    ensures
        location == (if policy == TemplateInstancePolicy::ReuseExisting {
            template_pane(candidates@, template_name@, 0)
        } else {
            None
        }),
{
    if policy != TemplateInstancePolicy::ReuseExisting {
        return None;
    }
    let mut index: usize = 0;
    while index < candidates.len()
        invariant
            index <= candidates@.len(),
            policy == TemplateInstancePolicy::ReuseExisting,
            template_pane(candidates@, template_name@, 0) == template_pane(
                candidates@,
                template_name@,
                index as int,
            ),
        decreases candidates@.len() - index,
    {
        if is_optional_text(&candidates[index].template_name, template_name) {
            return Some((candidates[index].tab_index, candidates[index].pane_id));
        }
        index += 1;
    }
    None
}

/// The short names of the built-in themes.
pub open spec fn short_theme_name(lower: Seq<char>, resolved: Seq<char>) -> bool {
    ||| lower == "dark"@ && resolved == "Default Dark"@
    ||| lower == "light"@ && resolved == "Default Light"@
    ||| lower == "tokyo_night"@ && resolved == "Tokyo Night"@
    ||| lower == "tokyo-night"@ && resolved == "Tokyo Night"@
    ||| lower == "dracula"@ && resolved == "Dracula"@
    ||| lower == "nord"@ && resolved == "Nord"@
}

/// Whether a theme is the one that was asked for: by its name in any case, or by
/// its short name.
pub open spec fn names_theme(requested: Seq<char>, resolved: Seq<char>) -> bool {
    ||| ascii_lower_text(requested) == ascii_lower_text(resolved)
    ||| short_theme_name(ascii_lower_text(requested), resolved)
}

/// Whether a short name, in any case, stands for a theme.
fn is_short_name(requested: &str, short: &str, resolved: &str, name: &str) -> (is: bool)
    requires
        ascii_lower_text(short@) == short@,
    ensures
        is == (ascii_lower_text(requested@) == short@ && resolved@ == name@),
{
    same_ignoring_case(requested, short) && same_text(resolved, name)
}

pub fn theme_name_matches(requested: &str, resolved: &str) -> (matched: bool)
    ensures
        matched == names_theme(requested@, resolved@),
{
    proof {
        reveal_strlit("dark");
        reveal_strlit("light");
        reveal_strlit("tokyo_night");
        reveal_strlit("tokyo-night");
        reveal_strlit("dracula");
        reveal_strlit("nord");
        assert(ascii_lower_text("dark"@) =~= "dark"@);
        assert(ascii_lower_text("light"@) =~= "light"@);
        assert(ascii_lower_text("tokyo_night"@) =~= "tokyo_night"@);
        assert(ascii_lower_text("tokyo-night"@) =~= "tokyo-night"@);
        assert(ascii_lower_text("dracula"@) =~= "dracula"@);
        assert(ascii_lower_text("nord"@) =~= "nord"@);
    }
    same_ignoring_case(requested, resolved) || is_short_name(
        requested,
        "dark",
        resolved,
        "Default Dark",
    ) || is_short_name(requested, "light", resolved, "Default Light") || is_short_name(
        requested,
        "tokyo_night",
        resolved,
        "Tokyo Night",
    ) || is_short_name(requested, "tokyo-night", resolved, "Tokyo Night") || is_short_name(
        requested,
        "dracula",
        resolved,
        "Dracula",
    ) || is_short_name(requested, "nord", resolved, "Nord")
}

/// The theme that a template gets.
#[derive(Debug)]
pub enum ThemeRequest {
    /// That of the window.
    Window,
    /// The configured theme.
    Custom,
    /// The theme with this name, where there is one.
    Named(String),
}

/// The theme that a template asks for. The configured theme answers to its own
/// name and to `custom`; an empty name asks for nothing.
pub fn template_theme_request(requested: Option<&str>, custom: Option<&str>) -> (request:
    ThemeRequest)
    ensures
        match requested {
            None => request is Window,
            Some(requested) => {
                let name = trimmed(requested@);
                if name.len() == 0 {
                    request is Window
                } else if custom is Some && (ascii_lower_text(name) == ascii_lower_text("custom"@)
                    || ascii_lower_text(name) == ascii_lower_text(custom->0@)) {
                    request is Custom
                } else {
                    request matches ThemeRequest::Named(own) && own@ == name
                }
            },
        },
{
    let name = match requested {
        None => {
            return ThemeRequest::Window;
        },
        Some(requested) => trim_text(requested),
    };
    if name.as_str().is_empty() {
        return ThemeRequest::Window;
    }
    if let Some(custom) = custom {
        if same_ignoring_case(name.as_str(), "custom") || same_ignoring_case(
            name.as_str(),
            custom,
        ) {
            return ThemeRequest::Custom;
        }
    }
    ThemeRequest::Named(name)
}

/// The theme that a template ends up with.
#[derive(Clone, Copy, Debug, PartialEq, Eq, Structural)]
pub enum TemplateTheme {
    /// That of the window.
    Window,
    /// The configured theme.
    Custom,
    /// The theme that was found for the template's name.
    Resolved,
}

/// The theme that a template asks for, where `resolved` is the name of the theme that
/// was found for its name without the configured theme. A name that is not that
/// theme's is unknown, and stays on the theme of the window.
pub open spec fn template_theme(
    requested: Option<Seq<char>>,
    custom: Option<Seq<char>>,
    resolved: Seq<char>,
) -> TemplateTheme {
    match requested {
        None => TemplateTheme::Window,
        Some(requested) => {
            let name = trimmed(requested);
            if name.len() == 0 {
                TemplateTheme::Window
            } else if custom is Some && (ascii_lower_text(name) == ascii_lower_text("custom"@)
                || ascii_lower_text(name) == ascii_lower_text(custom->0)) {
                TemplateTheme::Custom
            } else if names_theme(name, resolved) {
                TemplateTheme::Resolved
            } else {
                TemplateTheme::Window
            }
        },
    }
}

/// The theme that a template gets, which changes nothing for the window.
pub fn resolve_template_theme(requested: Option<&str>, custom: Option<&str>, resolved: &str) -> (theme:
    TemplateTheme)
    ensures
        theme == template_theme(
            match requested {
                Some(requested) => Some(requested@),
                None => None,
            },
            match custom {
                Some(custom) => Some(custom@),
                None => None,
            },
            resolved@,
        ),
{
    match template_theme_request(requested, custom) {
        ThemeRequest::Window => TemplateTheme::Window,
        ThemeRequest::Custom => TemplateTheme::Custom,
        ThemeRequest::Named(name) => if theme_name_matches(name.as_str(), resolved) {
            TemplateTheme::Resolved
        } else {
            TemplateTheme::Window
        },
    }
}

/// How far the launch of a template got.
#[derive(Clone, Copy, Debug, PartialEq, Eq, Structural)]
pub struct LaunchFacts {
    /// An outside product manages the window.
    pub managed: bool,
    /// The template makes sense with the configuration.
    pub plan_valid: bool,
    /// A tab that is open already was shown instead.
    pub reused: bool,
    /// The directory on this machine that the template asks for could be
    /// prepared, where it asks for one.
    pub workspace_ready: bool,
}

/// What becomes of the launch of a template.
#[derive(Clone, Copy, Debug, PartialEq, Eq, Structural)]
pub enum LaunchStep {
    /// A managed window opens no templates.
    Rejected,
    InvalidPlan,
    Reused,
    WorkspaceFailed,
    Spawn,
}

/// What becomes of the launch of a template.
pub open spec fn launch_step(facts: LaunchFacts) -> LaunchStep {
    if facts.managed {
        LaunchStep::Rejected
    } else if !facts.plan_valid {
        LaunchStep::InvalidPlan
    } else if facts.reused {
        LaunchStep::Reused
    } else if !facts.workspace_ready {
        LaunchStep::WorkspaceFailed
    } else {
        LaunchStep::Spawn
    }
}

/// A template is started exactly if the window may open it, it makes sense, it is not open
/// already and its directory is ready; otherwise the first of these that fails is told.
pub proof fn law_templates_start_when_nothing_stands_in_the_way(facts: LaunchFacts)
    ensures
        launch_step(facts) == LaunchStep::Spawn <==> !facts.managed && facts.plan_valid
            && !facts.reused && facts.workspace_ready,
        launch_step(facts) == LaunchStep::Rejected <==> facts.managed,
        launch_step(facts) == LaunchStep::InvalidPlan <==> !facts.managed && !facts.plan_valid,
        launch_step(facts) == LaunchStep::Reused <==> !facts.managed && facts.plan_valid
            && facts.reused,
        launch_step(facts) == LaunchStep::WorkspaceFailed <==> !facts.managed && facts.plan_valid
            && !facts.reused && !facts.workspace_ready,
{
}

/// What becomes of the launch of a template, wherever it was asked for.
pub fn template_launch(facts: &LaunchFacts) -> (step: LaunchStep)
    ensures
        step == launch_step(*facts),
{
    if facts.managed {
        LaunchStep::Rejected
    } else if !facts.plan_valid {
        LaunchStep::InvalidPlan
    } else if facts.reused {
        LaunchStep::Reused
    } else if !facts.workspace_ready {
        LaunchStep::WorkspaceFailed
    } else {
        LaunchStep::Spawn
    }
}

/// The first of two settings that is there, or a fallback.
pub open spec fn first_of(
    configured: Option<Seq<char>>,
    environment: Option<Seq<char>>,
    fallback: Seq<char>,
) -> Seq<char> {
    match (configured, environment) {
        (Some(text), _) => text,
        (None, Some(text)) => text,
        (None, None) => fallback,
    }
}

/// A configured setting counts before the environment, and that before the fallback.
pub proof fn law_configured_settings_count_first(
    text: Seq<char>,
    environment: Option<Seq<char>>,
    fallback: Seq<char>,
)
    ensures
        first_of(Some(text), environment, fallback) == text,
        first_of(None, Some(text), fallback) == text,
        first_of(None, None, fallback) == fallback,
{
}

/// A setting: the configured one, then the one of the environment, then a
/// fallback.
pub fn setting_or(configured: &Option<String>, environment: &Option<String>, fallback: &str) -> (chosen:
    String)
    ensures
        chosen@ == first_of(optional_text(*configured), optional_text(*environment), fallback@),
{
    match configured {
        Some(text) => text.as_str().to_owned(),
        None => match environment {
            Some(text) => text.as_str().to_owned(),
            None => fallback.to_owned(),
        },
    }
}

/// The shell of a new session: the configured one, then the user's, then the
/// system's.
pub fn session_shell(configured: &Option<String>, environment: &Option<String>) -> (shell: String)
    ensures
        shell@ == first_of(optional_text(*configured), optional_text(*environment), "/bin/sh"@),
{
    setting_or(configured, environment, "/bin/sh")
}

/// The directory that a tool runs in: that of the terminal, then the user's own,
/// then the root.
pub fn tool_directory(terminal: &Option<String>, home: &Option<String>) -> (directory: String)
    ensures
        directory@ == first_of(optional_text(*terminal), optional_text(*home), "/"@),
{
    setting_or(terminal, home, "/")
}

/// A template is found by its name, the first one where several have it.
pub proof fn law_templates_are_found_by_name(names: Seq<String>, name: Seq<char>, from: int)
    requires
        0 <= from,
    ensures
        match template_place(names, name, from) {
            Some(place) => from <= place < names.len() && names[place]@ == name && forall|i: int|
                from <= i < place ==> (#[trigger] names[i])@ != name,
            None => forall|i: int| from <= i < names.len() ==> (#[trigger] names[i])@ != name,
        },
    decreases names.len() - from,
{
    if from < names.len() && names[from]@ != name {
        law_templates_are_found_by_name(names, name, from + 1);
    }
}

/// A template that is open is found at the first pane that belongs to it, by the tab and
/// the pane; a template that no pane belongs to is not open.
pub proof fn law_open_templates_are_found(
    candidates: Seq<TemplateCandidate>,
    name: Seq<char>,
    from: int,
)
    requires
        0 <= from,
    ensures
        match template_pane(candidates, name, from) {
            Some((tab, pane)) => exists|i: int|
                from <= i < candidates.len() && (#[trigger] candidates[i]).tab_index == tab
                    && candidates[i].pane_id == pane && optional_text(candidates[i].template_name)
                    == Some(name) && forall|j: int|
                    from <= j < i ==> optional_text((#[trigger] candidates[j]).template_name)
                        != Some(name),
            None => forall|i: int|
                from <= i < candidates.len() ==> optional_text(
                    (#[trigger] candidates[i]).template_name,
                ) != Some(name),
        },
    decreases candidates.len() - from,
{
    if from < candidates.len() {
        if optional_text(candidates[from].template_name) == Some(name) {
            let (tab, pane) = template_pane(candidates, name, from)->0;
            assert(candidates[from].tab_index == tab);
        } else {
            law_open_templates_are_found(candidates, name, from + 1);
            if let Some((tab, pane)) = template_pane(candidates, name, from + 1) {
                let i = choose|i: int|
                    from + 1 <= i < candidates.len() && (#[trigger] candidates[i]).tab_index == tab
                        && candidates[i].pane_id == pane && optional_text(
                        candidates[i].template_name,
                    ) == Some(name) && forall|j: int|
                        from + 1 <= j < i ==> optional_text(
                            (#[trigger] candidates[j]).template_name,
                        ) != Some(name);
                assert(candidates[i].tab_index == tab);
            }
        }
    }
}

/// A theme answers to its own name in any case, and the built-in ones to their short names
/// too, each to its own.
pub proof fn law_themes_answer_to_their_names(requested: Seq<char>, resolved: Seq<char>)
    ensures
        names_theme(resolved, resolved),
        ascii_lower_text(requested) == ascii_lower_text(resolved) ==> names_theme(
            requested,
            resolved,
        ),
        ascii_lower_text(requested) == "dark"@ ==> names_theme(requested, "Default Dark"@),
        ascii_lower_text(requested) == "light"@ ==> names_theme(requested, "Default Light"@),
        ascii_lower_text(requested) == "tokyo_night"@ ==> names_theme(requested, "Tokyo Night"@),
        ascii_lower_text(requested) == "tokyo-night"@ ==> names_theme(requested, "Tokyo Night"@),
        names_theme(requested, resolved) && ascii_lower_text(requested) != ascii_lower_text(
            resolved,
        ) ==> (ascii_lower_text(requested) == "dark"@ || ascii_lower_text(requested) == "light"@
            || ascii_lower_text(requested) == "tokyo_night"@ || ascii_lower_text(requested)
            == "tokyo-night"@ || ascii_lower_text(requested) == "dracula"@ || ascii_lower_text(
            requested,
        ) == "nord"@),
{
}

/// A template that asks for no theme, or for one that is not known, stays on that of the
/// window; the configured theme counts before any other of its name, and a known theme is
/// the one that was asked for.
pub proof fn law_templates_get_the_theme_they_ask_for(
    requested: Seq<char>,
    custom: Seq<char>,
    other: Option<Seq<char>>,
    resolved: Seq<char>,
)
    ensures
        template_theme(None, other, resolved) == TemplateTheme::Window,
        trimmed(requested).len() == 0 ==> template_theme(Some(requested), other, resolved)
            == TemplateTheme::Window,
        trimmed(requested).len() > 0 && ascii_lower_text(trimmed(requested)) == ascii_lower_text(
            custom,
        ) ==> template_theme(Some(requested), Some(custom), resolved) == TemplateTheme::Custom,
        trimmed(requested).len() > 0 && ascii_lower_text(trimmed(requested)) == ascii_lower_text(
            "custom"@,
        ) ==> template_theme(Some(requested), Some(custom), resolved) == TemplateTheme::Custom,
        template_theme(Some(requested), None, resolved) == TemplateTheme::Resolved <==> trimmed(
            requested,
        ).len() > 0 && names_theme(trimmed(requested), resolved),
        template_theme(Some(requested), other, resolved) == TemplateTheme::Resolved ==> names_theme(
            trimmed(requested),
            resolved,
        ),
        template_theme(Some(requested), None, resolved) != TemplateTheme::Custom,
{
}

} // verus!
