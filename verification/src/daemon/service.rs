//! The terminal service: what each request does to the daemon's sessions.

use vstd::prelude::*;

use crate::daemon::manager::{
    created, ending_signal, fresh_id, law_relaunch_gives_sessions_back, names_of_living, names_without,
    names_without_all, restored_view, running_sessions, HeadlessError, SessionManager,
};
use crate::daemon::relaunch::{preserved, state_of, LiveSession, RelaunchState};
use crate::daemon::server::stops_after_cleanup;
use crate::daemon::session::{
    attached, colored, detached, resized, session_running, templated, titled, SessionState,
    SessionView,
};
use crate::text::{optional_text, same_text};

verus! {

/// The length of the challenge in a managed handshake.
pub const AUTH_CHALLENGE_BYTES: usize = 32;

/// The terminal type of remote sessions where the client names none.
pub const DEFAULT_TERM: &'static str = "xterm-256color";

/// Why a request is refused.
#[derive(Debug, PartialEq, Eq)]
pub enum ServiceError {
    Session(HeadlessError),
    /// "invalid frontend palette"
    InvalidPalette,
    /// "invalid frontend state"
    InvalidFrontendState,
    /// "invalid cursor style"
    InvalidCursorStyle,
    /// "frontend state update is empty"
    EmptyFrontendState,
    /// "Invalid key"
    InvalidKey,
    /// "Cell position out of range"
    CellOutOfRange,
    /// "session_id mismatch within stream"
    StreamSessionMismatch,
    /// "managed daemon handshake requires a fresh 32-byte challenge"
    InvalidChallenge,
    /// "daemon relaunch is disabled in managed mode"
    RelaunchDisabled,
}

/// The size of a session in cells and pixels.
#[derive(Debug, Clone, Copy, PartialEq, Eq, Structural)]
pub struct PtySize {
    pub cols: u16,
    pub rows: u16,
    pub pixel_width: u16,
    pub pixel_height: u16,
}

/// A requested number of cells, at least one and at most what fits.
pub open spec fn cells_within(requested: u32) -> u16 {
    if requested < 1 {
        1
    } else if requested > 65535 {
        65535
    } else {
        requested as u16
    }
}

/// A requested number of pixels, at most what fits.
pub open spec fn pixels_within(requested: u32) -> u16 {
    if requested > 65535 {
        65535
    } else {
        requested as u16
    }
}

/// The size that a client asks for, brought within bounds.
pub open spec fn size_within(cols: u32, rows: u32, pixel_width: u32, pixel_height: u32) -> PtySize {
    PtySize {
        cols: cells_within(cols),
        rows: cells_within(rows),
        pixel_width: pixels_within(pixel_width),
        pixel_height: pixels_within(pixel_height),
    }
}

/// A size that can be had is the size that was asked for, columns for columns and rows
/// for rows. There is always a cell, and nothing grows beyond what can be told.
pub proof fn law_sizes_are_kept_within_bounds(
    cols: u32,
    rows: u32,
    pixel_width: u32,
    pixel_height: u32,
)
    ensures
        ({
            let size = size_within(cols, rows, pixel_width, pixel_height);
            &&& 1 <= cols <= 65535 ==> size.cols == cols
            &&& 1 <= rows <= 65535 ==> size.rows == rows
            &&& pixel_width <= 65535 ==> size.pixel_width == pixel_width
            &&& pixel_height <= 65535 ==> size.pixel_height == pixel_height
            &&& cols == 0 ==> size.cols == 1
            &&& rows == 0 ==> size.rows == 1
            &&& cols > 65535 ==> size.cols == 65535
            &&& rows > 65535 ==> size.rows == 65535
            &&& pixel_width > 65535 ==> size.pixel_width == 65535
            &&& pixel_height > 65535 ==> size.pixel_height == 65535
        }),
{
}

/// The size that a client asks for, brought within bounds.
pub fn requested_size(cols: u32, rows: u32, pixel_width: u32, pixel_height: u32) -> (size: PtySize)
    ensures
        size == size_within(cols, rows, pixel_width, pixel_height),
{
    let cells_wide: u32 = if cols < 1 {
        1
    } else {
        cols
    };
    let cells_high: u32 = if rows < 1 {
        1
    } else {
        rows
    };
    PtySize {
        cols: if cells_wide > 65535 {
            65535
        } else {
            cells_wide as u16
        },
        rows: if cells_high > 65535 {
            65535
        } else {
            cells_high as u16
        },
        pixel_width: if pixel_width > 65535 {
            65535
        } else {
            pixel_width as u16
        },
        pixel_height: if pixel_height > 65535 {
            65535
        } else {
            pixel_height as u16
        },
    }
}

/// An optional part of a request, once it was decoded.
#[derive(Debug, Clone, Copy, PartialEq, Eq, Structural)]
pub enum Decoded {
    Absent,
    Valid,
    Invalid,
}

/// A request for a session, once its parts were decoded.
#[derive(Debug, Clone, Copy, PartialEq, Eq)]
pub struct CreateSessionRequest {
    /// The colours of the front end.
    pub palette: Decoded,
    pub frontend_state_valid: bool,
    pub cursor_style: Decoded,
    /// Columns and rows.
    pub cells: (u32, u32),
    /// Width and height in pixels.
    pub pixels: (u32, u32),
    /// The session is remote: its connection is still to be established.
    pub ssh: bool,
    /// The process that was started for a local session.
    pub child_pid: Option<i32>,
}

#[derive(Debug, PartialEq, Eq)]
pub struct CreateSessionResponse {
    pub session_id: String,
    pub cols: u32,
    pub rows: u32,
}

/// Why a request for a session is refused before anything is started: the colours
/// are looked at first, then the state of the front end, then the cursor.
pub open spec fn create_refusal(request: CreateSessionRequest) -> Option<ServiceError> {
    if request.palette == Decoded::Invalid {
        Some(ServiceError::InvalidPalette)
    } else if !request.frontend_state_valid {
        Some(ServiceError::InvalidFrontendState)
    } else if request.cursor_style == Decoded::Invalid {
        Some(ServiceError::InvalidCursorStyle)
    } else {
        None
    }
}

/// A request is refused exactly if a part of it does not decode, and the refusal names
/// the first such part: the colours, the state of the front end, the cursor.
pub proof fn law_refusal_names_the_first_fault(request: CreateSessionRequest)
    ensures
        create_refusal(request) is None <==> request.palette != Decoded::Invalid
            && request.frontend_state_valid && request.cursor_style != Decoded::Invalid,
        create_refusal(request) == Some(ServiceError::InvalidPalette) <==> request.palette
            == Decoded::Invalid,
        create_refusal(request) == Some(ServiceError::InvalidFrontendState) <==> request.palette
            != Decoded::Invalid && !request.frontend_state_valid,
        create_refusal(request) == Some(ServiceError::InvalidCursorStyle) <==> request.palette
            != Decoded::Invalid && request.frontend_state_valid && request.cursor_style
            == Decoded::Invalid,
{
}

/// Checks a request for a session before anything is started. Gives the size of the
/// session.
pub fn checked_create_request(request: &CreateSessionRequest) -> (result: Result<
    PtySize,
    ServiceError,
>)
    ensures
        match result {
            Ok(size) => {
                &&& create_refusal(*request) is None
                &&& size == size_within(
                    request.cells.0,
                    request.cells.1,
                    request.pixels.0,
                    request.pixels.1,
                )
            },
            Err(error) => create_refusal(*request) == Some(error),
        },
{
    if request.palette == Decoded::Invalid {
        return Err(ServiceError::InvalidPalette);
    }
    if !request.frontend_state_valid {
        return Err(ServiceError::InvalidFrontendState);
    }
    if request.cursor_style == Decoded::Invalid {
        return Err(ServiceError::InvalidCursorStyle);
    }
    Ok(requested_size(request.cells.0, request.cells.1, request.pixels.0, request.pixels.1))
}

/// The terminal type of a remote session.
pub open spec fn term_of(term: Option<Seq<char>>) -> Seq<char> {
    match term {
        Some(term) => term,
        None => DEFAULT_TERM@,
    }
}

/// A remote session has the terminal type that the client names, or that of most
/// terminals.
pub proof fn law_client_names_the_terminal(term: Seq<char>)
    ensures
        term_of(Some(term)) == term,
        term_of(None) == "xterm-256color"@,
{
}

/// The terminal type of a remote session.
pub fn remote_term(term: Option<String>) -> (term_name: String)
    ensures
        term_name@ == term_of(optional_text(term)),
{
    match term {
        Some(term) => term,
        None => DEFAULT_TERM.to_owned(),
    }
}

/// The shape of a cursor.
#[derive(Debug, Clone, Copy, PartialEq, Eq, Structural)]
pub enum CursorStyle {
    Block,
    Underline,
    Bar,
}

/// The cursor that a session starts with.
pub open spec fn starting_cursor(style: Option<CursorStyle>, blink: Option<bool>) -> (
    CursorStyle,
    bool,
) {
    (
        match style {
            Some(style) => style,
            None => CursorStyle::Block,
        },
        match blink {
            Some(blink) => blink,
            None => true,
        },
    )
}

/// The client chooses the shape of the cursor and whether it blinks, each for itself;
/// what it does not choose is a block, and blinks.
pub proof fn law_client_chooses_the_cursor(
    style: CursorStyle,
    blink: bool,
    other_style: Option<CursorStyle>,
    other_blink: Option<bool>,
)
    ensures
        starting_cursor(Some(style), other_blink).0 == style,
        starting_cursor(other_style, Some(blink)).1 == blink,
        starting_cursor(None, other_blink).0 == CursorStyle::Block,
        starting_cursor(other_style, None).1,
{
}

/// The cursor that a session starts with: a blinking block unless the client says
/// otherwise.
pub fn initial_cursor(style: Option<CursorStyle>, blink: Option<bool>) -> (cursor: (CursorStyle, bool))
    ensures
        cursor == starting_cursor(style, blink),
{
    let shape = match style {
        Some(style) => style,
        None => CursorStyle::Block,
    };
    let blinks = match blink {
        Some(blink) => blink,
        None => true,
    };
    (shape, blinks)
}

/// What the terminal itself knows of a session.
#[derive(Debug, PartialEq, Eq)]
pub struct TerminalFacts {
    pub title: String,
    pub has_foreground_process: bool,
    pub foreground_process_name: Option<String>,
}

/// What a client is told of a session.
#[derive(Debug, PartialEq, Eq)]
pub struct SessionInfo {
    pub session_id: String,
    pub cols: usize,
    pub rows: usize,
    pub title: String,
    pub running: bool,
    pub child_pid: i32,
    pub attached_clients: u32,
    pub custom_title: String,
    pub tab_color: String,
    pub template_name: String,
    pub has_foreground_process: bool,
    pub foreground_process_name: String,
    pub alerted: bool,
}

/// The information describes the session.
pub open spec fn describes(info: SessionInfo, session: SessionView, facts: TerminalFacts) -> bool {
    &&& info.session_id@ == session.id
    &&& info.cols == session.cols
    &&& info.rows == session.rows
    &&& info.title@ == facts.title@
    &&& info.running == session_running(session)
    &&& info.child_pid == (match session.child_pid {
        Some(pid) => pid,
        None => 0,
    })
    &&& info.attached_clients == session.attached_clients
    &&& info.custom_title@ == session.custom_title
    &&& info.tab_color@ == session.tab_color
    &&& info.template_name@ == session.template_name
    &&& info.has_foreground_process == facts.has_foreground_process
    &&& info.foreground_process_name@ == (match facts.foreground_process_name {
        Some(name) => name@,
        None => Seq::empty(),
    })
    &&& info.alerted == session.alerted
}

/// What a client is told of a session.
pub fn session_info(session: &SessionState, facts: &TerminalFacts) -> (info: SessionInfo)
    ensures
        describes(info, session@, *facts),
{
    let (cols, rows) = session.dimensions();
    let child_pid: i32 = match session.child_pid() {
        Some(pid) => pid,
        None => 0,
    };
    let foreground_process_name = match &facts.foreground_process_name {
        Some(name) => name.clone(),
        None => String::new(),
    };
    SessionInfo {
        session_id: session.id().to_owned(),
        cols,
        rows,
        title: facts.title.clone(),
        running: session.is_running(),
        child_pid,
        attached_clients: session.attached_clients(),
        custom_title: session.custom_title().to_owned(),
        tab_color: session.tab_color().to_owned(),
        template_name: session.template_name().to_owned(),
        has_foreground_process: facts.has_foreground_process,
        foreground_process_name,
        alerted: session.is_alerted(),
    }
}

/// Which fields of a session's metadata a request sets: the title for bit 0, the
/// color for bit 1, the template for bit 2.
pub open spec fn mask_sets(mask: u32, bit: u32) -> bool {
    mask & bit != 0
}

/// A session after its metadata was set.
pub open spec fn with_metadata(
    session: SessionView,
    mask: u32,
    custom_title: Seq<char>,
    tab_color: Seq<char>,
    template_name: Seq<char>,
) -> SessionView {
    SessionView {
        custom_title: if mask_sets(mask, 1) {
            custom_title
        } else {
            session.custom_title
        },
        tab_color: if mask_sets(mask, 2) {
            tab_color
        } else {
            session.tab_color
        },
        template_name: if mask_sets(mask, 4) {
            template_name
        } else {
            session.template_name
        },
        ..session
    }
}

/// An appearance and a visibility after an update.
pub open spec fn merged_state(
    current: (i32, i32),
    appearance: Option<i32>,
    visibility: Option<i32>,
) -> (i32, i32) {
    (
        match appearance {
            Some(appearance) => appearance,
            None => current.0,
        },
        match visibility {
            Some(visibility) => visibility,
            None => current.1,
        },
    )
}

/// Appearance and visibility are updated each for itself: one that is given replaces
/// the earlier one, one that is not stays. Two updates are the later over the earlier.
pub proof fn law_updates_merge_part_by_part(
    current: (i32, i32),
    appearance: i32,
    visibility: i32,
    other: Option<i32>,
)
    ensures
        merged_state(current, Some(appearance), other).0 == appearance,
        merged_state(current, other, Some(visibility)).1 == visibility,
        merged_state(current, None, other).0 == current.0,
        merged_state(current, other, None).1 == current.1,
        merged_state(
            merged_state(current, Some(appearance), None),
            None,
            Some(visibility),
        ) == (appearance, visibility),
{
}

/// The state that a frontend reports: an appearance and a visibility, each by
/// number. What is left out of an update stays; an update that says nothing is
/// refused.
pub fn merged_frontend_state(
    current: (i32, i32),
    appearance: Option<i32>,
    visibility: Option<i32>,
) -> (result: Result<(i32, i32), ServiceError>)
    ensures
        match result {
            Ok(state) => {
                &&& appearance is Some || visibility is Some
                &&& state == merged_state(current, appearance, visibility)
            },
            Err(error) => appearance is None && visibility is None && error
                == ServiceError::EmptyFrontendState,
        },
{
    if appearance.is_none() && visibility.is_none() {
        return Err(ServiceError::EmptyFrontendState);
    }
    let shown: i32 = match appearance {
        Some(appearance) => appearance,
        None => current.0,
    };
    let seen: i32 = match visibility {
        Some(visibility) => visibility,
        None => current.1,
    };
    Ok((shown, seen))
}

/// The bytes of the host name in a buffer that a zero byte ends, or that it fills.
pub fn host_name_bytes(buffer: &Vec<u8>) -> (name: Vec<u8>)
    ensures
        name@.len() <= buffer@.len(),
        name@ == buffer@.take(name@.len() as int),
        !name@.contains(0u8),
        name@.len() < buffer@.len() ==> buffer@[name@.len() as int] == 0,
{
    let mut name: Vec<u8> = Vec::new();
    let mut index: usize = 0;
    while index < buffer.len() && buffer[index] != 0
        invariant
            index <= buffer@.len(),
            name@ == buffer@.take(index as int),
            forall|i: int| 0 <= i < index ==> buffer@[i] != 0,
        decreases buffer@.len() - index,
    {
        name.push(buffer[index]);
        proof {
            assert(buffer@.take(index + 1) =~= buffer@.take(index as int).push(
                buffer@[index as int],
            ));
        }
        index += 1;
    }
    name
}

/// Input that a client streams into one session.
#[derive(Debug)]
pub struct InputStream {
    session_id: Option<String>,
    total_bytes: u64,
}

impl InputStream {
    /// The session of the stream, once the first message has named it.
    pub closed spec fn spec_session_id(&self) -> Option<Seq<char>> {
        match self.session_id {
            Some(id) => Some(id@),
            None => None,
        }
    }

    pub closed spec fn spec_total_bytes(&self) -> u64 {
        self.total_bytes
    }

    pub fn new() -> (stream: InputStream)
        ensures
            stream.spec_session_id() is None,
            stream.spec_total_bytes() == 0,
    {
        InputStream { session_id: None, total_bytes: 0 }
    }

    /// A message arrives. The first names the session, which must exist; all later
    /// ones must name the same.
    pub fn accept(&mut self, manager: &SessionManager, session_id: &str) -> (result: Result<
        (),
        ServiceError,
    >)
        requires
            manager.wf(),
        ensures
            final(self).spec_total_bytes() == old(self).spec_total_bytes(),
            match old(self).spec_session_id() {
                None => match result {
                    Ok(()) => {
                        &&& manager.sessions().dom().contains(session_id@)
                        &&& final(self).spec_session_id() == Some(session_id@)
                    },
                    Err(error) => {
                        &&& !manager.sessions().dom().contains(session_id@)
                        &&& error matches ServiceError::Session(HeadlessError::SessionNotFound(id))
                            && id@ == session_id@
                        &&& final(self).spec_session_id() is None
                    },
                },
                Some(first) => {
                    &&& final(self).spec_session_id() == Some(first)
                    &&& match result {
                        Ok(()) => first == session_id@,
                        Err(error) => first != session_id@ && error
                            == ServiceError::StreamSessionMismatch,
                    }
                },
            },
    {
        match &self.session_id {
            Some(first) => {
                if same_text(first.as_str(), session_id) {
                    return Ok(());
                }
                return Err(ServiceError::StreamSessionMismatch);
            },
            None => {},
        }
        match manager.get_session(session_id) {
            Ok(_) => {
                self.session_id = Some(session_id.to_owned());
                Ok(())
            },
            Err(error) => Err(ServiceError::Session(error)),
        }
    }

    /// Bytes were written.
    pub fn written(&mut self, count: usize)
        requires
            old(self).spec_total_bytes() + count <= u64::MAX,
        ensures
            final(self).spec_session_id() == old(self).spec_session_id(),
            final(self).spec_total_bytes() == old(self).spec_total_bytes() + count,
    {
        self.total_bytes = self.total_bytes + count as u64;
    }

    pub fn total_bytes_written(&self) -> (total: u64)
        ensures
            total == self.spec_total_bytes(),
    {
        self.total_bytes
    }
}

/// The program that runs: its version, and that of the protocol that it speaks.
#[derive(Debug, PartialEq, Eq)]
pub struct BuildInfo {
    pub version: String,
    pub protocol_version: u32,
}

/// What a client is told of the daemon when they shake hands.
#[derive(Debug, PartialEq, Eq)]
pub struct HandshakeResponse {
    pub daemon_id: String,
    pub daemon_version: String,
    pub protocol_version: u32,
    pub daemon_identity: String,
    pub is_local: bool,
    pub hostname: String,
    /// A proof over the client's challenge must be added.
    pub proves: bool,
}

/// What a client is told of the daemon.
#[derive(Debug, PartialEq, Eq)]
pub struct DaemonInfo {
    pub daemon_id: String,
    pub version: String,
    pub hostname: String,
    pub session_count: usize,
    pub client_count: u32,
    pub uptime_secs: u64,
}

/// What a key typed, and whether it is written to the session.
#[derive(Debug, PartialEq, Eq)]
pub struct SendKeyResponse {
    pub sequence: Vec<u8>,
    pub writes: bool,
}

/// The answer to a request to shut down.
#[derive(Debug, PartialEq, Eq)]
pub struct ShutdownResponse {
    pub success: bool,
    pub reason: String,
}

/// A session that was destroyed, and the signal that must be sent to its child.
#[derive(Debug)]
pub struct Destroyed {
    pub session: SessionState,
    pub signal: i32,
}

/// A session that a client resized: it keeps at least one cell each way.
pub open spec fn client_resized(session: SessionView, cells: (u32, u32)) -> SessionView {
    resized(
        session,
        if cells.0 < 1 {
            1
        } else {
            cells.0 as usize
        },
        if cells.1 < 1 {
            1
        } else {
            cells.1 as usize
        },
    )
}

/// A session that a client attached to, with its size where it gives one.
pub open spec fn client_attached(session: SessionView, cols: u32, rows: u32) -> SessionView {
    let attached = attached(session);
    if cols > 0 && rows > 0 {
        resized(attached, cols as usize, rows as usize)
    } else {
        attached
    }
}

/// A session takes the size of the client that resizes it or attaches to it, columns
/// for columns and rows for rows, and one cell where the client asks for none. A client
/// that gives no full size leaves the size as it is.
pub proof fn law_sessions_take_the_size_of_their_client(session: SessionView, cols: u32, rows: u32)
    ensures
        cols > 0 ==> client_resized(session, (cols, rows)).cols == cols,
        rows > 0 ==> client_resized(session, (cols, rows)).rows == rows,
        client_resized(session, (0, rows)).cols == 1,
        client_resized(session, (cols, 0)).rows == 1,
        client_resized(session, (cols, rows)).attached_clients == session.attached_clients,
        client_resized(session, (cols, rows)).custom_title == session.custom_title,
        cols > 0 && rows > 0 ==> client_attached(session, cols, rows).cols == cols,
        cols > 0 && rows > 0 ==> client_attached(session, cols, rows).rows == rows,
        cols == 0 || rows == 0 ==> client_attached(session, cols, rows).cols == session.cols,
        cols == 0 || rows == 0 ==> client_attached(session, cols, rows).rows == session.rows,
        session.attached_clients < u32::MAX ==> client_attached(
            session,
            cols,
            rows,
        ).attached_clients == session.attached_clients + 1,
        session.attached_clients < u32::MAX ==> detached(client_attached(session, cols, 0))
            == session,
{
}

/// The daemon stops when a stream ends: it was the last, and no session is left of some.
pub open spec fn ends_with_stream(streams: u32, sessions: nat, had_sessions: bool) -> bool {
    streams == 1 && sessions == 0 && had_sessions
}

/// The daemon stops after a cleanup: it removed all sessions that were left.
pub open spec fn ends_with_cleanup(before: nat, after: nat, had_sessions: bool) -> bool {
    after == 0 && before > 0 && had_sessions
}

/// A request to shut down succeeds.
pub open spec fn shuts_down(force: bool, sessions: nat) -> bool {
    force || sessions == 0
}

/// The bytes that a key types.
pub open spec fn typed_bytes(sequence: Option<Vec<u8>>) -> Seq<u8> {
    match sequence {
        Some(sequence) => sequence@,
        None => Seq::<u8>::empty(),
    }
}

/// A daemon never stops by itself over a session that is left, nor before it had one; and
/// while another stream goes on, the end of one does not stop it. It shuts down over
/// sessions only by force.
pub proof fn law_daemons_stay_for_their_sessions(
    streams: u32,
    before: nat,
    sessions: nat,
    had: bool,
    force: bool,
)
    ensures
        sessions > 0 ==> !ends_with_stream(streams, sessions, had) && !ends_with_cleanup(
            before,
            sessions,
            had,
        ),
        !ends_with_stream(streams, sessions, false),
        !ends_with_cleanup(before, sessions, false),
        streams != 1 ==> !ends_with_stream(streams, sessions, had),
        ends_with_stream(1, 0, true),
        before > 0 ==> ends_with_cleanup(before, 0, true),
        !ends_with_cleanup(0, 0, had),
        shuts_down(true, sessions),
        shuts_down(force, 0),
        sessions > 0 && !force ==> !shuts_down(force, sessions),
{
}

/// A key types its own bytes, and one that types nothing none.
pub proof fn law_keys_type_their_bytes(sequence: Vec<u8>)
    ensures
        typed_bytes(Some(sequence)) == sequence@,
        typed_bytes(None).len() == 0,
{
}

/// The state of the service.
#[derive(Debug)]
pub struct TerminalServiceImpl {
    manager: SessionManager,
    daemon_id: String,
    daemon_identity: String,
    /// Clients must prove themselves, and relaunching is disabled.
    managed: bool,
    client_count: u32,
    active_streams: u32,
    socket_path: String,
    scrollback_lines: usize,
}

impl TerminalServiceImpl {
    pub closed spec fn wf(&self) -> bool {
        self.manager.wf()
    }

    pub closed spec fn spec_manager(&self) -> SessionManager {
        self.manager
    }

    pub closed spec fn is_managed(&self) -> bool {
        self.managed
    }

    pub closed spec fn spec_client_count(&self) -> u32 {
        self.client_count
    }

    pub closed spec fn spec_active_streams(&self) -> u32 {
        self.active_streams
    }

    pub closed spec fn spec_socket_path(&self) -> Seq<char> {
        self.socket_path@
    }

    pub closed spec fn spec_identity(&self) -> Seq<char> {
        self.daemon_identity@
    }

    pub closed spec fn spec_daemon_id(&self) -> Seq<char> {
        self.daemon_id@
    }

    pub closed spec fn spec_scrollback_lines(&self) -> usize {
        self.scrollback_lines
    }

    /// Everything but the sessions and the counts is as before.
    pub open spec fn same_endpoint(&self, other: &TerminalServiceImpl) -> bool {
        &&& self.spec_manager().same_settings(&other.spec_manager())
        &&& self.is_managed() == other.is_managed()
        &&& self.spec_socket_path() == other.spec_socket_path()
        &&& self.spec_identity() == other.spec_identity()
        &&& self.spec_daemon_id() == other.spec_daemon_id()
        &&& self.spec_scrollback_lines() == other.spec_scrollback_lines()
    }

    /// Everything but the sessions is as before.
    pub open spec fn same_counts(&self, other: &TerminalServiceImpl) -> bool {
        &&& self.same_endpoint(other)
        &&& self.spec_client_count() == other.spec_client_count()
        &&& self.spec_active_streams() == other.spec_active_streams()
    }

    /// A client that shakes hands is told who the daemon is.
    pub open spec fn introduces(
        &self,
        response: HandshakeResponse,
        build: BuildInfo,
        hostname: String,
    ) -> bool {
        &&& response.daemon_id@ == self.spec_daemon_id()
        &&& response.daemon_version@ == build.version@
        &&& response.protocol_version == build.protocol_version
        &&& response.daemon_identity@ == self.spec_identity()
        &&& response.is_local
        &&& response.hostname == hostname
        &&& response.proves == self.is_managed()
    }

    /// The information describes the daemon.
    pub open spec fn is_described_by(
        &self,
        info: DaemonInfo,
        build: BuildInfo,
        hostname: String,
        uptime_secs: u64,
    ) -> bool {
        &&& info.daemon_id@ == self.spec_daemon_id()
        &&& info.version@ == build.version@
        &&& info.hostname == hostname
        &&& info.session_count == self.spec_manager().count()
        &&& info.client_count == self.spec_client_count()
        &&& info.uptime_secs == uptime_secs
    }

    /// One session was replaced, and nothing else about the sessions changed.
    pub open spec fn session_became(
        &self,
        other: &TerminalServiceImpl,
        id: Seq<char>,
        session: SessionView,
    ) -> bool {
        &&& self.spec_manager().sessions() == other.spec_manager().sessions().insert(id, session)
        &&& self.spec_manager().names() == other.spec_manager().names()
        &&& self.spec_manager().count() == other.spec_manager().count()
        &&& self.spec_manager().spec_had_sessions() == other.spec_manager().spec_had_sessions()
    }

    /// One session was removed with its names, and nothing else about the sessions
    /// changed.
    pub open spec fn session_gone(&self, other: &TerminalServiceImpl, id: Seq<char>) -> bool {
        &&& self.spec_manager().sessions() == other.spec_manager().sessions().remove(id)
        &&& self.spec_manager().names() == names_without(other.spec_manager().names(), id)
        &&& self.spec_manager().count() + 1 == other.spec_manager().count()
        &&& self.spec_manager().spec_had_sessions() == other.spec_manager().spec_had_sessions()
    }

    /// The session of a request, or the error that names it.
    pub open spec fn session_missing(&self, id: Seq<char>, error: ServiceError) -> bool {
        &&& !self.spec_manager().sessions().dom().contains(id)
        &&& error matches ServiceError::Session(HeadlessError::SessionNotFound(missing)) && missing@
            == id
    }

    /// A service with a fresh identifier of its own.
    pub fn new(manager: SessionManager) -> (service: TerminalServiceImpl)
        requires
            manager.wf(),
        ensures
            service.wf(),
            service.spec_manager() == manager,
            !service.is_managed(),
            service.spec_client_count() == 0,
            service.spec_active_streams() == 0,
            service.spec_identity() == "cterm"@,
            service.spec_socket_path() == Seq::<char>::empty(),
            service.spec_scrollback_lines() == 10000,
    {
        TerminalServiceImpl {
            manager,
            daemon_id: fresh_id(),
            daemon_identity: "cterm".to_owned(),
            managed: false,
            client_count: 0,
            active_streams: 0,
            socket_path: String::new(),
            scrollback_lines: 10000,
        }
    }

    /// Set daemon endpoint details needed for handshakes and relaunch.
    pub fn set_server_config(
        &mut self,
        socket_path: String,
        daemon_identity: String,
        managed: bool,
        scrollback_lines: usize,
    )
        requires
            old(self).wf(),
        ensures
            final(self).wf(),
            final(self).spec_manager() == old(self).spec_manager(),
            final(self).spec_daemon_id() == old(self).spec_daemon_id(),
            final(self).spec_client_count() == old(self).spec_client_count(),
            final(self).spec_active_streams() == old(self).spec_active_streams(),
            final(self).spec_socket_path() == socket_path@,
            final(self).spec_identity() == daemon_identity@,
            final(self).is_managed() == managed,
            final(self).spec_scrollback_lines() == scrollback_lines,
    {
        self.socket_path = socket_path;
        self.daemon_identity = daemon_identity;
        self.managed = managed;
        self.scrollback_lines = scrollback_lines;
    }

    pub fn manager(&self) -> (manager: &SessionManager)
        requires
            self.wf(),
        ensures
            *manager == self.spec_manager(),
            manager.wf(),
    {
        &self.manager
    }

    pub fn daemon_id(&self) -> (id: &str)
        ensures
            id@ == self.spec_daemon_id(),
    {
        self.daemon_id.as_str()
    }

    fn take_session(&mut self, id: &str) -> (result: Result<SessionState, ServiceError>)
        requires
            old(self).wf(),
        ensures
            final(self).wf(),
            final(self).same_counts(old(self)),
            final(self).spec_manager().names() == old(self).spec_manager().names(),
            final(self).spec_manager().spec_had_sessions() == old(
                self).spec_manager().spec_had_sessions(),
            match result {
                Ok(session) => {
                    &&& session.wf()
                    &&& session@.id == id@
                    &&& old(self).spec_manager().sessions().dom().contains(id@)
                    &&& session@ == old(self).spec_manager().sessions()[id@]
                    &&& final(self).spec_manager().sessions() == old(
                        self).spec_manager().sessions().remove(id@)
                    &&& final(self).spec_manager().count() + 1 == old(self).spec_manager().count()
                },
                Err(error) => {
                    &&& old(self).session_missing(id@, error)
                    &&& final(self).spec_manager() == old(self).spec_manager()
                },
            },
    {
        match self.manager.take(id) {
            Some(session) => Ok(session),
            None => Err(
                ServiceError::Session(HeadlessError::SessionNotFound(id.to_owned())),
            ),
        }
    }

    fn return_session(&mut self, session: SessionState, Ghost(before): Ghost<TerminalServiceImpl>)
        requires
            old(self).wf(),
            session.wf(),
            old(self).same_counts(&before),
            old(self).spec_manager().sessions() == before.spec_manager().sessions().remove(
                session@.id,
            ),
            old(self).spec_manager().names() == before.spec_manager().names(),
            old(self).spec_manager().count() + 1 == before.spec_manager().count(),
            old(self).spec_manager().spec_had_sessions()
                == before.spec_manager().spec_had_sessions(),
        ensures
            final(self).wf(),
            final(self).same_counts(&before),
            final(self).session_became(&before, session@.id, session@),
    {
        self.manager.put_back(session);
        proof {
            assert(before.spec_manager().sessions().remove(session@.id).insert(
                session@.id,
                session@,
            ) =~= before.spec_manager().sessions().insert(session@.id, session@));
        }
    }

    /// Sets the fields of a session's metadata that the mask names.
    pub fn set_session_metadata(
        &mut self,
        id: &str,
        mask: u32,
        custom_title: String,
        tab_color: String,
        template_name: String,
    ) -> (result: Result<(), ServiceError>)
        requires
            old(self).wf(),
        ensures
            final(self).wf(),
            final(self).same_counts(old(self)),
            match result {
                Ok(()) => {
                    &&& old(self).spec_manager().sessions().dom().contains(id@)
                    &&& final(self).session_became(
                        old(self),
                        id@,
                        with_metadata(
                            old(self).spec_manager().sessions()[id@],
                            mask,
                            custom_title@,
                            tab_color@,
                            template_name@,
                        ),
                    )
                },
                Err(error) => {
                    &&& old(self).session_missing(id@, error)
                    &&& final(self).spec_manager() == old(self).spec_manager()
                },
            },
    {
        let ghost before = *self;
        let mut session = match self.take_session(id) {
            Ok(session) => session,
            Err(error) => return Err(error),
        };
        if mask & 1 != 0 {
            session.set_custom_title(custom_title);
        }
        if mask & 2 != 0 {
            session.set_tab_color(tab_color);
        }
        if mask & 4 != 0 {
            session.set_template_name(template_name);
        }
        self.return_session(session, Ghost(before));
        Ok(())
    }

    /// Sets the title that the user gave a session.
    pub fn set_session_title(&mut self, id: &str, custom_title: String) -> (result: Result<
        (),
        ServiceError,
    >)
        requires
            old(self).wf(),
        ensures
            final(self).wf(),
            final(self).same_counts(old(self)),
            match result {
                Ok(()) => {
                    &&& old(self).spec_manager().sessions().dom().contains(id@)
                    &&& final(self).session_became(
                        old(self),
                        id@,
                        titled(old(self).spec_manager().sessions()[id@], custom_title@),
                    )
                },
                Err(error) => {
                    &&& old(self).session_missing(id@, error)
                    &&& final(self).spec_manager() == old(self).spec_manager()
                },
            },
    {
        let ghost before = *self;
        let mut session = match self.take_session(id) {
            Ok(session) => session,
            Err(error) => return Err(error),
        };
        session.set_custom_title(custom_title);
        self.return_session(session, Ghost(before));
        Ok(())
    }

    /// Resizes a session, which keeps at least one cell. Gives the pixels that its
    /// terminal is told.
    pub fn resize(&mut self, id: &str, cells: (u32, u32), pixels: (u32, u32)) -> (result: Result<
        (u16, u16),
        ServiceError,
    >)
        requires
            old(self).wf(),
        ensures
            final(self).wf(),
            final(self).same_counts(old(self)),
            match result {
                Ok(told) => {
                    &&& told == (pixels_within(pixels.0), pixels_within(pixels.1))
                    &&& old(self).spec_manager().sessions().dom().contains(id@)
                    &&& final(self).session_became(
                        old(self),
                        id@,
                        client_resized(old(self).spec_manager().sessions()[id@], cells),
                    )
                },
                Err(error) => {
                    &&& old(self).session_missing(id@, error)
                    &&& final(self).spec_manager() == old(self).spec_manager()
                },
            },
    {
        let ghost before = *self;
        let mut session = match self.take_session(id) {
            Ok(session) => session,
            Err(error) => return Err(error),
        };
        let cells_wide: usize = if cells.0 < 1 {
            1
        } else {
            cells.0 as usize
        };
        let cells_high: usize = if cells.1 < 1 {
            1
        } else {
            cells.1 as usize
        };
        session.resize(cells_wide, cells_high);
        self.return_session(session, Ghost(before));
        let size = requested_size(cells.0, cells.1, pixels.0, pixels.1);
        Ok((size.pixel_width, size.pixel_height))
    }

    /// The bell of a session was acknowledged.
    pub fn clear_alert(&mut self, id: &str) -> (result: Result<(), ServiceError>)
        requires
            old(self).wf(),
        ensures
            final(self).wf(),
            final(self).same_counts(old(self)),
            match result {
                Ok(()) => {
                    &&& old(self).spec_manager().sessions().dom().contains(id@)
                    &&& final(self).session_became(
                        old(self),
                        id@,
                        (SessionView {
                            alerted: false,
                            ..old(self).spec_manager().sessions()[id@]
                        }),
                    )
                },
                Err(error) => {
                    &&& old(self).session_missing(id@, error)
                    &&& final(self).spec_manager() == old(self).spec_manager()
                },
            },
    {
        let ghost before = *self;
        let mut session = match self.take_session(id) {
            Ok(session) => session,
            Err(error) => return Err(error),
        };
        session.set_alerted(false);
        self.return_session(session, Ghost(before));
        Ok(())
    }

    /// A client replies to a prompt. `received` says whether the side that asked was
    /// still there to take the reply; the answer is whether the reply arrived. The
    /// prompt is over either way.
    pub fn respond_prompt(&mut self, id: &str, prompt: &str, received: bool) -> (result: Result<
        bool,
        ServiceError,
    >)
        requires
            old(self).wf(),
        ensures
            final(self).wf(),
            final(self).same_counts(old(self)),
            match result {
                Ok(success) => {
                    let session = old(self).spec_manager().sessions()[id@];
                    &&& old(self).spec_manager().sessions().dom().contains(id@)
                    &&& success == (session.prompts.contains(prompt@) && received)
                    &&& final(self).session_became(
                        old(self),
                        id@,
                        (SessionView { prompts: session.prompts.remove(prompt@), ..session }),
                    )
                },
                Err(error) => {
                    &&& old(self).session_missing(id@, error)
                    &&& final(self).spec_manager() == old(self).spec_manager()
                },
            },
    {
        let ghost before = *self;
        let mut session = match self.take_session(id) {
            Ok(session) => session,
            Err(error) => return Err(error),
        };
        let success = session.respond_prompt(prompt, received);
        self.return_session(session, Ghost(before));
        Ok(success)
    }

    /// A client shakes hands. A managed daemon insists on a challenge of the right
    /// length, over which a proof must be given.
    pub fn handshake(&mut self, build: &BuildInfo, hostname: String, challenge: &Vec<u8>) -> (result:
        Result<HandshakeResponse, ServiceError>)
        requires
            old(self).wf(),
        ensures
            final(self).wf(),
            final(self).same_endpoint(old(self)),
            final(self).spec_manager() == old(self).spec_manager(),
            final(self).spec_active_streams() == old(self).spec_active_streams(),
            final(self).spec_client_count() == old(self).spec_client_count().wrapping_add(1),
            match result {
                Ok(response) => {
                    &&& old(self).introduces(response, *build, hostname)
                    &&& response.proves ==> challenge@.len() == AUTH_CHALLENGE_BYTES
                },
                Err(error) => {
                    &&& old(self).is_managed()
                    &&& challenge@.len() != AUTH_CHALLENGE_BYTES
                    &&& error == ServiceError::InvalidChallenge
                },
            },
    {
        self.client_count = self.client_count.wrapping_add(1);
        if self.managed && challenge.len() != AUTH_CHALLENGE_BYTES {
            return Err(ServiceError::InvalidChallenge);
        }
        Ok(
            HandshakeResponse {
                daemon_id: self.daemon_id.clone(),
                daemon_version: build.version.clone(),
                protocol_version: build.protocol_version,
                daemon_identity: self.daemon_identity.clone(),
                is_local: true,
                hostname,
                proves: self.managed,
            },
        )
    }

    /// What a client is told of the daemon.
    pub fn get_daemon_info(&self, build: &BuildInfo, hostname: String, uptime_secs: u64) -> (info:
        DaemonInfo)
        requires
            self.wf(),
        ensures
            self.is_described_by(info, *build, hostname, uptime_secs),
    {
        DaemonInfo {
            daemon_id: self.daemon_id.clone(),
            version: build.version.clone(),
            hostname,
            session_count: self.manager.session_count(),
            client_count: self.client_count,
            uptime_secs,
        }
    }

    /// The session that a request names.
    pub fn require_session(&self, id: &str) -> (result: Result<&SessionState, ServiceError>)
        requires
            self.wf(),
        ensures
            match result {
                Ok(session) => {
                    &&& self.spec_manager().sessions().dom().contains(id@)
                    &&& session@ == self.spec_manager().sessions()[id@]
                },
                Err(error) => self.session_missing(id@, error),
            },
    {
        match self.manager.get_session(id) {
            Ok(session) => Ok(session),
            Err(error) => Err(ServiceError::Session(error)),
        }
    }

    /// Creates a session once the request was checked.
    pub fn create_session(&mut self, request: &CreateSessionRequest) -> (result: Result<
        CreateSessionResponse,
        ServiceError,
    >)
        requires
            old(self).wf(),
        ensures
            final(self).wf(),
            final(self).same_counts(old(self)),
            create_refusal(*request) matches Some(refusal) ==> {
                &&& result == Err::<CreateSessionResponse, ServiceError>(refusal)
                &&& final(self).spec_manager() == old(self).spec_manager()
            },
            create_refusal(*request) is None ==> {
                let outcome = match result {
                    Ok(response) => Ok::<String, HeadlessError>(response.session_id),
                    Err(error) => Err(error->Session_0),
                };
                &&& result is Err ==> result->Err_0 is Session
                &&& result matches Ok(response) ==> response.cols == cells_within(request.cells.0)
                    && response.rows == cells_within(request.cells.1)
                &&& created(
                    &old(self).spec_manager(),
                    &final(self).spec_manager(),
                    cells_within(request.cells.0) as usize,
                    cells_within(request.cells.1) as usize,
                    request.ssh,
                    if request.ssh {
                        None
                    } else {
                        request.child_pid
                    },
                    outcome,
                )
            },
    {
        let size = match checked_create_request(request) {
            Ok(size) => size,
            Err(error) => return Err(error),
        };
        let made = if request.ssh {
            self.manager.create_ssh_session_with_size(size.cols as usize, size.rows as usize)
        } else {
            self.manager.create_session_with_size(
                size.cols as usize,
                size.rows as usize,
                request.child_pid,
            )
        };
        match made {
            Ok(session_id) => Ok(
                CreateSessionResponse {
                    session_id,
                    cols: size.cols as u32,
                    rows: size.rows as u32,
                },
            ),
            Err(error) => Err(ServiceError::Session(error)),
        }
    }

    /// What a client is told of all sessions, with what their terminals know of them
    /// in the order in which they are listed.
    pub fn list_sessions(&self, facts: &Vec<TerminalFacts>) -> (infos: Vec<SessionInfo>)
        requires
            self.wf(),
            facts@.len() == self.spec_manager().count(),
        ensures
            infos@.len() == self.spec_manager().listing().len(),
            forall|i: int|
                0 <= i < infos@.len() ==> describes(
                    #[trigger] infos@[i],
                    self.spec_manager().listing()[i],
                    facts@[i],
                ),
    {
        let sessions = self.manager.list_sessions();
        let ghost listed = sessions@.map_values(|session: SessionState| session@);
        let mut infos: Vec<SessionInfo> = Vec::new();
        let mut index: usize = 0;
        while index < sessions.len()
            invariant
                index <= sessions@.len(),
                facts@.len() == sessions@.len(),
                listed == sessions@.map_values(|session: SessionState| session@),
                infos@.len() == index,
                forall|i: int|
                    0 <= i < infos@.len() ==> describes(#[trigger] infos@[i], listed[i], facts@[i]),
            decreases sessions@.len() - index,
        {
            infos.push(session_info(&sessions[index], &facts[index]));
            index += 1;
        }
        infos
    }

    /// What a client is told of one session.
    pub fn get_session(&self, id: &str, facts: &TerminalFacts) -> (result: Result<
        SessionInfo,
        ServiceError,
    >)
        requires
            self.wf(),
        ensures
            match result {
                Ok(info) => {
                    &&& self.spec_manager().sessions().dom().contains(id@)
                    &&& describes(info, self.spec_manager().sessions()[id@], *facts)
                },
                Err(error) => self.session_missing(id@, error),
            },
    {
        match self.require_session(id) {
            Ok(session) => Ok(session_info(session, facts)),
            Err(error) => Err(error),
        }
    }

    /// Destroys a session.
    pub fn destroy_session(&mut self, id: &str, signal: Option<i32>) -> (result: Result<
        Destroyed,
        ServiceError,
    >)
        requires
            old(self).wf(),
        ensures
            final(self).wf(),
            final(self).same_counts(old(self)),
            match result {
                Ok(destroyed) => {
                    &&& old(self).spec_manager().sessions().dom().contains(id@)
                    &&& destroyed.session@ == old(self).spec_manager().sessions()[id@]
                    &&& destroyed.signal == ending_signal(
                        old(self).spec_manager().spec_platform(),
                        signal,
                    )
                    &&& final(self).session_gone(old(self), id@)
                },
                Err(error) => {
                    &&& old(self).session_missing(id@, error)
                    &&& final(self).spec_manager() == old(self).spec_manager()
                },
            },
    {
        match self.manager.destroy_session(id, signal) {
            Ok((session, signal)) => Ok(Destroyed { session, signal }),
            Err(error) => Err(ServiceError::Session(error)),
        }
    }

    /// Whether a session takes other colours: they must be valid, and the session
    /// must exist.
    pub fn set_session_palette(&self, id: &str, palette_valid: bool) -> (result: Result<
        &SessionState,
        ServiceError,
    >)
        requires
            self.wf(),
        ensures
            match result {
                Ok(session) => {
                    &&& palette_valid
                    &&& self.spec_manager().sessions().dom().contains(id@)
                    &&& session@ == self.spec_manager().sessions()[id@]
                },
                Err(error) => if palette_valid {
                    self.session_missing(id@, error)
                } else {
                    error == ServiceError::InvalidPalette
                },
            },
    {
        if !palette_valid {
            return Err(ServiceError::InvalidPalette);
        }
        self.require_session(id)
    }

    /// The state that a session's front end gets from an update. `current` is the
    /// state that it has, where the session exists, and `decodes` says whether the
    /// numbers of the merged state mean one.
    pub fn set_session_frontend_state(
        &self,
        id: &str,
        current: (i32, i32),
        appearance: Option<i32>,
        visibility: Option<i32>,
        decodes: bool,
    ) -> (result: Result<(i32, i32), ServiceError>)
        requires
            self.wf(),
        ensures
            match result {
                Ok(state) => {
                    &&& self.spec_manager().sessions().dom().contains(id@)
                    &&& appearance is Some || visibility is Some
                    &&& decodes
                    &&& state == merged_state(current, appearance, visibility)
                },
                Err(error) => if appearance is None && visibility is None {
                    error == ServiceError::EmptyFrontendState
                } else if self.spec_manager().sessions().dom().contains(id@) {
                    !decodes && error == ServiceError::InvalidFrontendState
                } else {
                    self.session_missing(id@, error)
                },
            },
    {
        let merged = match merged_frontend_state(current, appearance, visibility) {
            Ok(state) => state,
            Err(error) => return Err(error),
        };
        match self.require_session(id) {
            Ok(_) => if decodes {
                Ok(merged)
            } else {
                Err(ServiceError::InvalidFrontendState)
            },
            Err(error) => Err(error),
        }
    }

    /// What a key types into a session: nothing is written where it types nothing.
    pub fn send_key(&self, id: &str, key_valid: bool, sequence: Option<Vec<u8>>) -> (result: Result<
        SendKeyResponse,
        ServiceError,
    >)
        requires
            self.wf(),
        ensures
            match result {
                Ok(response) => {
                    &&& self.spec_manager().sessions().dom().contains(id@)
                    &&& key_valid
                    &&& response.sequence@ == typed_bytes(sequence)
                    &&& response.writes == (typed_bytes(sequence).len() > 0)
                },
                Err(error) => if self.spec_manager().sessions().dom().contains(id@) {
                    !key_valid && error == ServiceError::InvalidKey
                } else {
                    self.session_missing(id@, error)
                },
            },
    {
        match self.require_session(id) {
            Ok(_) => {},
            Err(error) => return Err(error),
        }
        if !key_valid {
            return Err(ServiceError::InvalidKey);
        }
        let sequence = match sequence {
            Some(sequence) => sequence,
            None => Vec::new(),
        };
        let writes = sequence.len() > 0;
        Ok(SendKeyResponse { sequence, writes })
    }

    /// A cell of a session's screen, where there is one.
    pub fn get_cell<C>(&self, id: &str, cell: Option<C>) -> (result: Result<C, ServiceError>)
        requires
            self.wf(),
        ensures
            match result {
                Ok(found) => {
                    &&& self.spec_manager().sessions().dom().contains(id@)
                    &&& cell == Some(found)
                },
                Err(error) => if self.spec_manager().sessions().dom().contains(id@) {
                    cell is None && error == ServiceError::CellOutOfRange
                } else {
                    self.session_missing(id@, error)
                },
            },
    {
        match self.require_session(id) {
            Ok(_) => {},
            Err(error) => return Err(error),
        }
        match cell {
            Some(cell) => Ok(cell),
            None => Err(ServiceError::CellOutOfRange),
        }
    }

    /// A client attaches to a session, which takes the client's size if it gives one.
    pub fn attach_session(&mut self, id: &str, cols: u32, rows: u32, facts: &TerminalFacts) -> (result:
        Result<SessionInfo, ServiceError>)
        requires
            old(self).wf(),
        ensures
            final(self).wf(),
            final(self).same_counts(old(self)),
            match result {
                Ok(info) => {
                    &&& old(self).spec_manager().sessions().dom().contains(id@)
                    &&& describes(info, final(self).spec_manager().sessions()[id@], *facts)
                    &&& final(self).session_became(
                        old(self),
                        id@,
                        client_attached(old(self).spec_manager().sessions()[id@], cols, rows),
                    )
                },
                Err(error) => {
                    &&& old(self).session_missing(id@, error)
                    &&& final(self).spec_manager() == old(self).spec_manager()
                },
            },
    {
        let ghost before = *self;
        let mut session = match self.take_session(id) {
            Ok(session) => session,
            Err(error) => return Err(error),
        };
        session.attach();
        if cols > 0 && rows > 0 {
            session.resize(cols as usize, rows as usize);
        }
        let info = session_info(&session, facts);
        self.return_session(session, Ghost(before));
        Ok(info)
    }

    /// A client detaches from a session, which ends unless it is to keep running:
    /// the session that ended.
    pub fn detach_session(&mut self, id: &str, keep_running: bool) -> (result: Result<
        Option<Destroyed>,
        ServiceError,
    >)
        requires
            old(self).wf(),
        ensures
            final(self).wf(),
            final(self).same_counts(old(self)),
            ({
                let sessions = old(self).spec_manager().sessions();
                let left = detached(sessions[id@]);
                match result {
                    Ok(None) => {
                        &&& keep_running
                        &&& if sessions.dom().contains(id@) {
                            final(self).session_became(old(self), id@, left)
                        } else {
                            final(self).spec_manager() == old(self).spec_manager()
                        }
                    },
                    Ok(Some(destroyed)) => {
                        &&& !keep_running
                        &&& sessions.dom().contains(id@)
                        &&& destroyed.session@ == left
                        &&& destroyed.signal == old(
                            self,
                        ).spec_manager().spec_platform().spec_default_signal()
                        &&& final(self).session_gone(old(self), id@)
                    },
                    Err(error) => {
                        &&& !keep_running
                        &&& old(self).session_missing(id@, error)
                        &&& final(self).spec_manager() == old(self).spec_manager()
                    },
                }
            }),
    {
        let ghost before = *self;
        match self.take_session(id) {
            Ok(taken) => {
                let mut session = taken;
                session.detach();
                self.return_session(session, Ghost(before));
            },
            Err(_) => {},
        }
        if keep_running {
            return Ok(None);
        }
        let ghost middle = self.spec_manager().sessions();
        match self.manager.destroy_session(id, None) {
            Ok((session, signal)) => {
                proof {
                    assert(middle.remove(id@) =~= before.spec_manager().sessions().remove(id@));
                }
                Ok(Some(Destroyed { session, signal }))
            },
            Err(error) => Err(ServiceError::Session(error)),
        }
    }

    /// A stream of a session's output to a client begins: the client is attached.
    pub fn stream_output(&mut self, id: &str) -> (result: Result<(), ServiceError>)
        requires
            old(self).wf(),
        ensures
            final(self).wf(),
            final(self).same_endpoint(old(self)),
            final(self).spec_client_count() == old(self).spec_client_count(),
            match result {
                Ok(()) => {
                    &&& old(self).spec_manager().sessions().dom().contains(id@)
                    &&& final(self).spec_active_streams() == old(
                        self,
                    ).spec_active_streams().wrapping_add(1)
                    &&& final(self).session_became(
                        old(self),
                        id@,
                        attached(old(self).spec_manager().sessions()[id@]),
                    )
                },
                Err(error) => {
                    &&& old(self).session_missing(id@, error)
                    &&& final(self).spec_active_streams() == old(self).spec_active_streams()
                    &&& final(self).spec_manager() == old(self).spec_manager()
                },
            },
    {
        let ghost before = *self;
        let mut session = match self.take_session(id) {
            Ok(session) => session,
            Err(error) => return Err(error),
        };
        session.attach();
        self.return_session(session, Ghost(before));
        self.active_streams = self.active_streams.wrapping_add(1);
        Ok(())
    }

    /// A stream of a session's output ends: the client is detached, where the
    /// session is still there. Whether the daemon stops: this was the last stream,
    /// and all sessions that there ever were are gone.
    pub fn stream_closed(&mut self, id: &str) -> (stops: bool)
        requires
            old(self).wf(),
        ensures
            final(self).wf(),
            final(self).same_endpoint(old(self)),
            final(self).spec_client_count() == old(self).spec_client_count(),
            final(self).spec_active_streams() == old(self).spec_active_streams().wrapping_sub(1),
            ({
                let sessions = old(self).spec_manager().sessions();
                if sessions.dom().contains(id@) {
                    final(self).session_became(old(self), id@, detached(sessions[id@]))
                } else {
                    final(self).spec_manager() == old(self).spec_manager()
                }
            }),
            stops == ends_with_stream(
                old(self).spec_active_streams(),
                old(self).spec_manager().count(),
                old(self).spec_manager().spec_had_sessions(),
            ),
    {
        let ghost before = *self;
        match self.take_session(id) {
            Ok(taken) => {
                let mut session = taken;
                session.detach();
                self.return_session(session, Ghost(before));
            },
            Err(_) => {},
        }
        let last = self.active_streams == 1;
        self.active_streams = self.active_streams.wrapping_sub(1);
        last && self.manager.session_count() == 0 && self.manager.had_sessions()
    }

    /// Removes the sessions whose children have exited. Whether the daemon stops:
    /// some were removed and none are left.
    pub fn cleanup_dead_sessions(&mut self) -> (stops: bool)
        requires
            old(self).wf(),
        ensures
            final(self).wf(),
            final(self).same_counts(old(self)),
            final(self).spec_manager().sessions() == running_sessions(
                old(self).spec_manager().sessions(),
            ),
            final(self).spec_manager().names() == names_of_living(
                old(self).spec_manager().names(),
                old(self).spec_manager().sessions(),
            ),
            final(self).spec_manager().spec_had_sessions() == old(
                self,
            ).spec_manager().spec_had_sessions(),
            stops == ends_with_cleanup(
                old(self).spec_manager().count(),
                final(self).spec_manager().count(),
                old(self).spec_manager().spec_had_sessions(),
            ),
    {
        let removed: usize = self.manager.cleanup_dead_sessions();
        stops_after_cleanup(removed, self.manager.session_count(), self.manager.had_sessions())
    }

    /// A request to shut down. It is refused while there are sessions, unless forced;
    /// then all sessions end first.
    pub fn shutdown(&mut self, force: bool) -> (outcome: (ShutdownResponse, Vec<Destroyed>))
        requires
            old(self).wf(),
        ensures
            final(self).wf(),
            final(self).same_counts(old(self)),
            outcome.0.success == shuts_down(force, old(self).spec_manager().count()),
            !outcome.0.success ==> {
                &&& outcome.0.reason@ == "Active sessions exist. Use force=true to override."@
                &&& outcome.1@.len() == 0
                &&& final(self).spec_manager() == old(self).spec_manager()
            },
            outcome.0.success ==> {
                &&& outcome.0.reason@ == Seq::<char>::empty()
                &&& final(self).spec_manager().count() == 0
                &&& final(self).spec_manager().sessions() == Map::<Seq<char>, SessionView>::empty()
                &&& final(self).spec_manager().names() == names_without_all(
                    old(self).spec_manager().names(),
                    old(self).spec_manager().sessions().dom(),
                )
                &&& final(self).spec_manager().spec_had_sessions() == old(
                    self,
                ).spec_manager().spec_had_sessions()
                &&& outcome.1@.len() == old(self).spec_manager().count()
                &&& forall|i: int|
                    0 <= i < outcome.1@.len() ==> (#[trigger] outcome.1@[i]).signal == old(
                        self,
                    ).spec_manager().spec_platform().spec_default_signal() && old(
                        self).spec_manager().sessions().dom().contains(outcome.1@[i].session@.id)
                        && outcome.1@[i].session@ == old(
                        self).spec_manager().sessions()[outcome.1@[i].session@.id]
                &&& forall|i: int, j: int|
                    0 <= i < j < outcome.1@.len() ==> (#[trigger] outcome.1@[i]).session@.id != (
                    #[trigger] outcome.1@[j]).session@.id
            },
    {
        let mut destroyed: Vec<Destroyed> = Vec::new();
        if !force && self.manager.session_count() > 0 {
            let response = ShutdownResponse {
                success: false,
                reason: "Active sessions exist. Use force=true to override.".to_owned(),
            };
            return (response, destroyed);
        }
        let ghost before = old(self).spec_manager().sessions();
        let ghost names = old(self).spec_manager().names();
        let ghost signal_sent = old(self).spec_manager().spec_platform().spec_default_signal();
        proof {
            assert(names =~= names_without_all(
                names,
                before.dom().difference(self.spec_manager().sessions().dom()),
            ));
        }
        while self.manager.session_count() > 0
            invariant
                self.wf(),
                self.same_counts(old(self)),
                before == old(self).spec_manager().sessions(),
                names == old(self).spec_manager().names(),
                signal_sent == old(self).spec_manager().spec_platform().spec_default_signal(),
                self.spec_manager().spec_had_sessions() == old(
                    self,
                ).spec_manager().spec_had_sessions(),
                self.spec_manager().names() == names_without_all(
                    names,
                    before.dom().difference(self.spec_manager().sessions().dom()),
                ),
                self.spec_manager().count() + destroyed@.len() == old(self).spec_manager().count(),
                forall|id: Seq<char>| #[trigger]
                    self.spec_manager().sessions().dom().contains(id) ==> before.dom().contains(id)
                        && before[id] == self.spec_manager().sessions()[id],
                forall|i: int|
                    0 <= i < destroyed@.len() ==> (#[trigger] destroyed@[i]).signal == signal_sent
                        && before.dom().contains(destroyed@[i].session@.id)
                        && destroyed@[i].session@ == before[destroyed@[i].session@.id]
                        && !self.spec_manager().sessions().dom().contains(
                        destroyed@[i].session@.id,
                    ),
                forall|i: int, j: int|
                    0 <= i < j < destroyed@.len() ==> (#[trigger] destroyed@[i]).session@.id != (
                    #[trigger] destroyed@[j]).session@.id,
            decreases self.spec_manager().count(),
        {
            let sessions = self.manager.list_sessions();
            let id = sessions[0].id().to_owned();
            proof {
                crate::keyed::lemma_keyed_entry(
                    crate::daemon::manager::session_entries(sessions@),
                    0,
                );
            }
            let ghost left = self.spec_manager().sessions();
            match self.manager.destroy_session(id.as_str(), None) {
                Ok((session, signal)) => {
                    destroyed.push(Destroyed { session, signal });
                },
                Err(_) => {},
            }
            proof {
                assert(left.dom().contains(id@));
                assert(self.spec_manager().names() =~= names_without_all(
                    names,
                    before.dom().difference(self.spec_manager().sessions().dom()),
                ));
            }
        }
        proof {
            assert forall|id: Seq<char>| !#[trigger] self.spec_manager().sessions().dom().contains(
                id,
            ) by {
                self.spec_manager().law_listing_shows_each_session_once(id);
            }
            assert(self.spec_manager().sessions() =~= Map::<Seq<char>, SessionView>::empty());
            assert(before.dom().difference(self.spec_manager().sessions().dom()) =~= before.dom());
        }
        (ShutdownResponse { success: true, reason: String::new() }, destroyed)
    }

    /// A request to relaunch: the binary to start, none for the current one. A
    /// managed daemon refuses.
    pub fn relaunch_daemon(&self, binary_path: &str) -> (result: Result<
        Option<String>,
        ServiceError,
    >)
        ensures
            match result {
                Ok(binary) => {
                    &&& !self.is_managed()
                    &&& match binary {
                        Some(binary) => binary_path@.len() > 0 && binary@ == binary_path@,
                        None => binary_path@.len() == 0,
                    }
                },
                Err(error) => self.is_managed() && error == ServiceError::RelaunchDisabled,
            },
    {
        if self.managed {
            return Err(ServiceError::RelaunchDisabled);
        }
        if binary_path.is_empty() {
            Ok(None)
        } else {
            Ok(Some(binary_path.to_owned()))
        }
    }
}

/// The sessions after those that could be adopted were restored, in order.
pub open spec fn with_restored(
    sessions: Map<Seq<char>, SessionView>,
    state: RelaunchState,
    adopted: Seq<bool>,
    count: nat,
) -> Map<Seq<char>, SessionView>
    decreases count,
{
    if count == 0 {
        sessions
    } else {
        let before = with_restored(sessions, state, adopted, (count - 1) as nat);
        let session = state.sessions@[count - 1];
        if adopted[count - 1] {
            before.insert(session.session_id@, restored_view(session))
        } else {
            before
        }
    }
}

/// Restores the sessions of a relaunch whose descriptors could be adopted. One that
/// could not does not keep the others from being restored.
pub fn restore_sessions(manager: &mut SessionManager, state: &RelaunchState, adopted: &Vec<bool>)
    requires
        old(manager).wf(),
        adopted@.len() == state.sessions@.len(),
    ensures
        final(manager).wf(),
        final(manager).same_settings(old(manager)),
        final(manager).names() == old(manager).names(),
        final(manager).sessions() == with_restored(
            old(manager).sessions(),
            *state,
            adopted@,
            state.sessions@.len(),
        ),
        final(manager).spec_had_sessions() == (old(manager).spec_had_sessions()
            || adopted@.contains(true)),
{
    let mut index: usize = 0;
    while index < state.sessions.len()
        invariant
            manager.wf(),
            index <= state.sessions@.len(),
            adopted@.len() == state.sessions@.len(),
            manager.same_settings(old(manager)),
            manager.names() == old(manager).names(),
            manager.sessions() == with_restored(
                old(manager).sessions(),
                *state,
                adopted@,
                index as nat,
            ),
            manager.spec_had_sessions() == (old(manager).spec_had_sessions() || exists|i: int|
                0 <= i < index && adopted@[i]),
        decreases state.sessions@.len() - index,
    {
        if adopted[index] {
            manager.restore_session(&state.sessions[index]);
            proof {
                assert(adopted@[index as int]);
            }
        }
        index += 1;
    }
    proof {
        if adopted@.contains(true) {
            let i = choose|i: int| 0 <= i < adopted@.len() && adopted@[i] == true;
            assert(adopted@[i]);
        }
        if exists|i: int| 0 <= i < index && adopted@[i] {
            let i = choose|i: int| 0 <= i < index && adopted@[i];
            assert(adopted@[i] == true);
        }
    }
}

/// A request sets exactly the parts of the metadata that it names: the title by the
/// first bit, the color by the second and the template by the third.
pub proof fn law_metadata_is_set_by_its_bits(
    session: SessionView,
    mask: u32,
    title: Seq<char>,
    color: Seq<char>,
    template: Seq<char>,
)
    ensures
        ({
            let after = with_metadata(session, mask, title, color, template);
            &&& mask & 1 != 0 ==> after.custom_title == title
            &&& mask & 1 == 0 ==> after.custom_title == session.custom_title
            &&& mask & 2 != 0 ==> after.tab_color == color
            &&& mask & 2 == 0 ==> after.tab_color == session.tab_color
            &&& mask & 4 != 0 ==> after.template_name == template
            &&& mask & 4 == 0 ==> after.template_name == session.template_name
            &&& after.id == session.id
            &&& after.cols == session.cols
            &&& after.rows == session.rows
            &&& templated(
                colored(titled(after, session.custom_title), session.tab_color),
                session.template_name,
            ) == session
        }),
{
}

/// Once a client has set the title and the color of a session, every listing, lookup
/// and attachment tells that title as the title and that color as the color, and the
/// template likewise.
pub proof fn law_metadata_is_told_as_it_was_set(
    before: &TerminalServiceImpl,
    after: &TerminalServiceImpl,
    id: Seq<char>,
    mask: u32,
    title: Seq<char>,
    color: Seq<char>,
    template: Seq<char>,
    info: SessionInfo,
    facts: TerminalFacts,
    cols: u32,
    rows: u32,
)
    requires
        mask & 1 != 0,
        mask & 2 != 0,
        mask & 4 != 0,
        before.spec_manager().sessions().dom().contains(id),
        after.session_became(
            before,
            id,
            with_metadata(before.spec_manager().sessions()[id], mask, title, color, template),
        ),
        describes(info, after.spec_manager().sessions()[id], facts) || describes(
            info,
            client_attached(after.spec_manager().sessions()[id], cols, rows),
            facts,
        ),
    ensures
        info.custom_title@ == title,
        info.tab_color@ == color,
        info.template_name@ == template,
{
}

/// The title that a client sets is told from then on, and the color stays what it was.
pub proof fn law_title_is_told_as_it_was_set(
    session: SessionView,
    title: Seq<char>,
    info: SessionInfo,
    facts: TerminalFacts,
)
    requires
        describes(info, titled(session, title), facts),
    ensures
        info.custom_title@ == title,
        info.tab_color@ == session.tab_color,
        info.template_name@ == session.template_name,
        info.title@ == facts.title@,
{
}

/// What is told of a session changes with exactly what changes about it: its size in
/// columns and rows, its clients, its alert and whether it runs.
pub proof fn law_sessions_are_told_as_they_are(
    session: SessionView,
    cols: usize,
    rows: usize,
    info: SessionInfo,
    facts: TerminalFacts,
)
    requires
        describes(info, resized(session, cols, rows), facts),
    ensures
        info.session_id@ == session.id,
        info.cols == cols,
        info.rows == rows,
        info.custom_title@ == session.custom_title,
        info.tab_color@ == session.tab_color,
        info.template_name@ == session.template_name,
        info.attached_clients == session.attached_clients,
        info.alerted == session.alerted,
        info.running <==> session.connecting || session.child_running,
        session.child_pid is None ==> info.child_pid == 0,
        session.child_pid matches Some(pid) ==> info.child_pid == pid,
        info.title@ == facts.title@,
        info.has_foreground_process == facts.has_foreground_process,
        facts.foreground_process_name is None ==> info.foreground_process_name@.len() == 0,
        facts.foreground_process_name matches Some(name) ==> info.foreground_process_name@ == name@,
{
}

/// A request about one session leaves all others, all names and the settings alone.
pub proof fn law_requests_touch_one_session(
    before: &TerminalServiceImpl,
    after: &TerminalServiceImpl,
    id: Seq<char>,
    session: SessionView,
    other: Seq<char>,
)
    requires
        other != id,
        before.spec_manager().sessions().dom().contains(other),
    ensures
        after.session_became(before, id, session) ==> {
            &&& after.spec_manager().sessions()[id] == session
            &&& after.spec_manager().sessions().dom().contains(id)
            &&& after.spec_manager().sessions().dom().contains(other)
            &&& after.spec_manager().sessions()[other] == before.spec_manager().sessions()[other]
            &&& after.spec_manager().names() == before.spec_manager().names()
        },
        after.session_gone(before, id) ==> {
            &&& !after.spec_manager().sessions().dom().contains(id)
            &&& after.spec_manager().sessions().dom().contains(other)
            &&& after.spec_manager().sessions()[other] == before.spec_manager().sessions()[other]
            &&& after.spec_manager().count() == before.spec_manager().count() - 1
            &&& forall|name: Seq<char>|
                after.spec_manager().names().dom().contains(name) ==> #[trigger] after.spec_manager().names()[name]
                    != id
        },
        after.same_counts(before) ==> {
            &&& after.is_managed() == before.is_managed()
            &&& after.spec_identity() == before.spec_identity()
            &&& after.spec_socket_path() == before.spec_socket_path()
            &&& after.spec_daemon_id() == before.spec_daemon_id()
            &&& after.spec_scrollback_lines() == before.spec_scrollback_lines()
            &&& after.spec_client_count() == before.spec_client_count()
            &&& after.spec_active_streams() == before.spec_active_streams()
            &&& after.spec_manager().spec_platform() == before.spec_manager().spec_platform()
        },
{
}

/// The daemon tells the same name of itself to everyone: the identifier, the version
/// and the host of a handshake are those of its description. Its identity is its own,
/// and it proves itself exactly if it is managed.
pub proof fn law_daemon_introduces_itself_alike(
    service: &TerminalServiceImpl,
    response: HandshakeResponse,
    info: DaemonInfo,
    build: BuildInfo,
    hostname: String,
    uptime_secs: u64,
)
    requires
        service.introduces(response, build, hostname),
        service.is_described_by(info, build, hostname, uptime_secs),
    ensures
        response.daemon_id@ == info.daemon_id@,
        response.daemon_id@ == service.spec_daemon_id(),
        response.daemon_version@ == info.version@,
        response.daemon_version@ == build.version@,
        response.hostname@ == info.hostname@,
        response.hostname == hostname,
        response.daemon_identity@ == service.spec_identity(),
        response.protocol_version == build.protocol_version,
        response.proves <==> service.is_managed(),
        response.is_local,
        info.session_count == service.spec_manager().count(),
        info.client_count == service.spec_client_count(),
        info.uptime_secs == uptime_secs,
{
}

/// After a relaunch every session that could be preserved and adopted is back under its
/// identifier with its columns, rows, title, color, template and process; what was
/// there before stays where no such session takes its place.
pub proof fn law_relaunch_brings_every_session_back(
    live: Seq<LiveSession>,
    scrollback_lines: usize,
    sessions: Map<Seq<char>, SessionView>,
    state: RelaunchState,
    adopted: Seq<bool>,
    count: nat,
    i: int,
    other: Seq<char>,
)
    requires
        state_of(live, scrollback_lines, state.sessions@),
        adopted.len() == state.sessions@.len(),
        0 <= i < count <= state.sessions@.len(),
        adopted[i],
        forall|j: int|
            0 <= j < state.sessions@.len() && j != i ==> (#[trigger] preserved(
                live,
            )[j]).session_id@ != preserved(live)[i].session_id@,
        forall|j: int|
            0 <= j < state.sessions@.len() ==> (#[trigger] preserved(live)[j]).session_id@ != other,
    ensures
        ({
            let after = with_restored(sessions, state, adopted, count);
            let kept = preserved(live)[i];
            &&& after.dom().contains(kept.session_id@)
            &&& after[kept.session_id@].cols == kept.cols
            &&& after[kept.session_id@].rows == kept.rows
            &&& after[kept.session_id@].custom_title == kept.custom_title@
            &&& after[kept.session_id@].tab_color == kept.tab_color@
            &&& after[kept.session_id@].template_name == kept.template_name@
            &&& after[kept.session_id@].child_pid == kept.child_pid
            &&& session_running(after[kept.session_id@])
            &&& after.dom().contains(other) <==> sessions.dom().contains(other)
            &&& sessions.dom().contains(other) ==> after[other] == sessions[other]
        }),
    decreases count,
{
    let last = preserved(live)[count - 1];
    assert(last.saved_as(scrollback_lines, state.sessions@[count - 1]));
    if i < count - 1 {
        law_relaunch_brings_every_session_back(
            live,
            scrollback_lines,
            sessions,
            state,
            adopted,
            (count - 1) as nat,
            i,
            other,
        );
    } else {
        law_relaunch_gives_sessions_back(last, scrollback_lines, state.sessions@[count - 1]);
        lemma_others_stay(
            live,
            scrollback_lines,
            sessions,
            state,
            adopted,
            (count - 1) as nat,
            other,
        );
    }
}

proof fn lemma_others_stay(
    live: Seq<LiveSession>,
    scrollback_lines: usize,
    sessions: Map<Seq<char>, SessionView>,
    state: RelaunchState,
    adopted: Seq<bool>,
    count: nat,
    other: Seq<char>,
)
    requires
        state_of(live, scrollback_lines, state.sessions@),
        count <= state.sessions@.len(),
        forall|j: int|
            0 <= j < state.sessions@.len() ==> (#[trigger] preserved(live)[j]).session_id@ != other,
    ensures
        with_restored(sessions, state, adopted, count).dom().contains(other)
            <==> sessions.dom().contains(other),
        sessions.dom().contains(other) ==> with_restored(sessions, state, adopted, count)[other]
            == sessions[other],
    decreases count,
{
    if count > 0 {
        assert(preserved(live)[count - 1].saved_as(scrollback_lines, state.sessions@[count - 1]));
        lemma_others_stay(
            live,
            scrollback_lines,
            sessions,
            state,
            adopted,
            (count - 1) as nat,
            other,
        );
    }
}

/// A request for a session that is not there is refused under the name that it asked for,
/// and no other request is refused so.
pub proof fn law_missing_sessions_are_named(
    service: &TerminalServiceImpl,
    id: Seq<char>,
    error: ServiceError,
)
    ensures
        service.session_missing(id, error) ==> !service.spec_manager().sessions().dom().contains(id),
        service.session_missing(id, error) ==> (error matches ServiceError::Session(
            HeadlessError::SessionNotFound(missing),
        ) && missing@ == id),
        service.spec_manager().sessions().dom().contains(id) ==> !service.session_missing(id, error),
{
}

} // verus!
