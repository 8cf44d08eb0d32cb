use cterm::daemon::manager::{HeadlessError, Platform, SessionManager};
use cterm::daemon::relaunch::{
    collect_relaunch_state, preserved_descriptors, relaunch_arguments, relaunch_dir,
    screen_file_name, LiveSession, RelaunchError, RelaunchState,
};
use cterm::daemon::service::{
    checked_create_request, host_name_bytes, initial_cursor, merged_frontend_state, remote_term,
    requested_size, restore_sessions, session_info, BuildInfo, CreateSessionRequest, CursorStyle,
    Decoded, InputStream, PtySize, ServiceError, TerminalFacts, TerminalServiceImpl,
};
use cterm::daemon::session::{
    entered_secret, host_key_accepted, join_responses, transfer_error, CommandStep, PromptKind,
    PromptReply, SessionState, TransferCommand, TransferRefusal, TransferRoute,
};
use cterm::daemon::writer::{Backpressure, PtyWriter, SendOutcome, WRITE_QUEUE_CAP};

#[test]
fn test_session_manager_new() {
    let manager = SessionManager::new();
    assert_eq!(manager.session_count(), 0);
}

#[test]
fn test_session_not_found() {
    let manager = SessionManager::new();
    let result = manager.get_session("nonexistent");
    assert!(matches!(result, Err(HeadlessError::SessionNotFound(_))));
}

#[test]
fn detach_count_saturates_at_zero() {
    let mut session = SessionState::new_ssh_connecting("attachment-count".to_string(), 80, 24);

    session.detach();
    assert_eq!(session.attached_clients(), 0);

    session.attach();
    session.detach();
    session.detach();
    assert_eq!(session.attached_clients(), 0);
}

#[test]
fn created_sessions_are_found_until_they_are_destroyed() {
    let mut manager = SessionManager::with_scrollback(500);
    assert_eq!(manager.scrollback_lines(), 500);
    assert!(!manager.had_sessions());
    let first = manager.create_session(0, 100000, Some(42)).unwrap();
    let second = manager.create_ssh_session(80, 24).unwrap();
    assert_ne!(first, second);
    assert_eq!(manager.session_count(), 2);
    let session = manager.get_session(&first).unwrap();
    assert_eq!(session.dimensions(), (1, 65535));
    assert_eq!(session.child_pid(), Some(42));
    assert!(session.is_running());
    assert!(manager.get_session(&second).unwrap().is_connecting());

    let (destroyed, signal) = manager.destroy_session(&first, None).unwrap();
    assert_eq!(destroyed.id(), first);
    assert_eq!(signal, 1);
    assert_eq!(
        manager.destroy_session(&first, Some(9)).unwrap_err(),
        HeadlessError::SessionNotFound(first.clone())
    );
    assert_eq!(manager.destroy_session(&second, Some(9)).unwrap().1, 9);
    assert_eq!(manager.session_count(), 0);
    assert!(manager.had_sessions());
}

#[test]
fn sessions_of_a_known_size_keep_it() {
    let mut manager = SessionManager::new();
    let id = manager.create_session_with_size(132, 43, None).unwrap();
    assert_eq!(manager.get_session(&id).unwrap().dimensions(), (132, 43));
}

#[test]
fn a_session_identifier_is_taken_once() {
    let mut manager = SessionManager::new();
    manager.insert_session(SessionState::new("one".to_string(), 80, 24, None)).unwrap();
    assert_eq!(
        manager.insert_session(SessionState::new("one".to_string(), 80, 24, None)),
        Err(HeadlessError::SessionAlreadyExists("one".to_string()))
    );
    assert_eq!(manager.list_sessions().len(), 1);
}

#[test]
fn named_sessions_are_reused_while_they_run() {
    let mut manager = SessionManager::new();
    let (first, created) = manager.get_or_create_named_session("build", 80, 24, Some(7)).unwrap();
    assert!(created);
    assert_eq!(manager.get_session(&first).unwrap().session_name(), Some("build"));
    let (again, created) = manager.get_or_create_named_session("build", 80, 24, Some(8)).unwrap();
    assert!(!created);
    assert_eq!(again, first);
    assert_eq!(manager.get_session_by_name("build").unwrap().id(), first);
    assert!(manager.find_running_by_name("other").is_none());

    let (mut session, _) = manager.destroy_session(&first, None).unwrap();
    assert!(manager.get_session_by_name("build").is_none());
    session.set_child_running(false);
    manager.insert_named_session("build", session).unwrap();
    assert!(manager.find_running_by_name("build").is_none());
    let (fresh, created) = manager.get_or_create_named_session("build", 80, 24, None).unwrap();
    assert!(created);
    assert_ne!(fresh, first);
}

#[test]
fn only_dead_sessions_are_cleaned_up() {
    let mut manager = SessionManager::new();
    let mut dead = SessionState::new("dead".to_string(), 80, 24, Some(1));
    dead.set_child_running(false);
    manager.insert_named_session("gone", dead).unwrap();
    manager.insert_session(SessionState::new("alive".to_string(), 80, 24, Some(2))).unwrap();
    let mut failed = SessionState::new_ssh_connecting("failed".to_string(), 80, 24);
    failed.connection_finished(false, None);
    manager.insert_session(failed).unwrap();
    manager
        .insert_session(SessionState::new_ssh_connecting("connecting".to_string(), 80, 24))
        .unwrap();
    assert_eq!(manager.cleanup_dead_sessions(), 2);
    assert_eq!(manager.session_count(), 2);
    assert!(manager.get_session("alive").is_ok());
    assert!(manager.get_session("connecting").is_ok());
    assert!(manager.get_session_by_name("gone").is_none());
    assert_eq!(manager.cleanup_dead_sessions(), 0);
}

#[test]
fn a_bell_is_broadcast_when_a_session_is_newly_alerted() {
    let mut session = SessionState::new("bell".to_string(), 80, 24, None);
    assert!(session.set_alerted(true));
    assert!(!session.set_alerted(true));
    assert!(session.is_alerted());
    assert!(!session.set_alerted(false));
    assert!(session.set_alerted(true));
}

#[test]
fn a_prompt_is_answered_once() {
    let mut session = SessionState::new_ssh_connecting("s".to_string(), 80, 24);
    let host = session.host_key_prompt(
        "host.example".to_string(),
        22,
        "ssh-ed25519".to_string(),
        "SHA256:abc".to_string(),
        true,
    );
    assert_eq!(host.prompt_id, "s-0");
    assert_eq!(host.kind, PromptKind::HostkeyChanged);
    assert_eq!(host.port, 22);
    let password = session.password_prompt("Password: ");
    assert_eq!(password.prompt_id, "s-1");
    assert_eq!(password.kind, PromptKind::Password);
    let passphrase = session.passphrase_prompt("/home/me/.ssh/id");
    assert_eq!(passphrase.prompt_id, "s-2");
    assert_eq!(passphrase.text, "Enter passphrase for /home/me/.ssh/id");
    assert!(session.respond_prompt("s-1", true));
    assert!(!session.respond_prompt("s-1", true));
    assert!(!session.respond_prompt("s-9", true));
    assert!(!session.respond_prompt("s-0", false));
    assert!(!session.respond_prompt("s-0", true));
}

#[test]
fn replies_to_prompts_are_taken_at_their_word() {
    assert!(!host_key_accepted(None));
    assert!(!host_key_accepted(Some(PromptReply::default())));
    assert!(host_key_accepted(Some(PromptReply { accept: true, secret: None })));
    assert_eq!(entered_secret(None), None);
    assert_eq!(
        entered_secret(Some(PromptReply { accept: false, secret: Some("x".to_string()) })),
        Some("x".to_string())
    );
}

#[test]
fn refused_transfers_are_answered_unless_quiet() {
    let mut session = SessionState::new("t".to_string(), 80, 24, None);
    assert_eq!(session.route_transfer(true), TransferRoute::Submit);
    assert_eq!(
        session.route_transfer(false),
        TransferRoute::Refuse(TransferRefusal::ExecutorUnavailable)
    );
    session.quiesce_tty_transfers();
    assert_eq!(
        session.route_transfer(true),
        TransferRoute::Refuse(TransferRefusal::RelaunchInProgress)
    );
    session.resume_tty_transfers();
    assert_eq!(session.route_transfer(true), TransferRoute::Submit);

    let answer = transfer_error("id", &None, 1, TransferRefusal::ExecutorStopped).unwrap();
    assert_eq!(answer.id, "id");
    assert_eq!(answer.status, "EIO:Local transfer executor stopped");
    assert_eq!(transfer_error("id", &None, 2, TransferRefusal::ExecutorStopped), None);
    assert_eq!(
        TransferRefusal::RelaunchInProgress.status(),
        "EBUSY:Daemon relaunch in progress"
    );
    assert_eq!(
        TransferRefusal::ExecutorUnavailable.status(),
        "ENOTSUP:Local transfer executor is unavailable"
    );
}

#[test]
fn responses_are_joined_in_order() {
    assert_eq!(join_responses(&vec![]), None);
    assert_eq!(
        join_responses(&vec![b"ab".to_vec(), vec![], b"c".to_vec()]),
        Some(b"abc".to_vec())
    );
}

#[test]
fn synchronized_updates_are_watched_while_they_last() {
    let mut session = SessionState::new("sync".to_string(), 80, 24, None);
    assert!(!session.watches_synchronized_update());
    session.output_processed(true);
    assert!(session.watches_synchronized_update());
    session.output_processed(false);
    assert!(!session.watches_synchronized_update());
}

#[test]
fn writes_are_queued_in_order_up_to_the_capacity() {
    let mut writer = PtyWriter::new();
    assert_eq!(writer.send(b""), SendOutcome::Empty);
    assert_eq!(writer.send(b"a"), SendOutcome::Queued);
    for _ in 1..WRITE_QUEUE_CAP {
        assert_eq!(writer.send(b"b"), SendOutcome::Queued);
    }
    assert_eq!(writer.send(b"c"), SendOutcome::Dropped);
    assert_eq!(
        writer.send_with_backpressure(b"d".to_vec(), false),
        Backpressure::Retry(b"d".to_vec())
    );
    assert_eq!(writer.send_with_backpressure(b"d".to_vec(), true), Backpressure::Done(false));
    assert_eq!(writer.next(), Some(b"a".to_vec()));
    assert_eq!(writer.send_with_backpressure(b"d".to_vec(), false), Backpressure::Done(true));
    assert_eq!(writer.send_with_backpressure(Vec::new(), true), Backpressure::Done(true));
    for _ in 1..WRITE_QUEUE_CAP {
        assert_eq!(writer.next(), Some(b"b".to_vec()));
    }
    assert_eq!(writer.next(), Some(b"d".to_vec()));
    assert_eq!(writer.next(), None);
    writer.close();
    assert_eq!(writer.send(b"e"), SendOutcome::Closed);
    assert_eq!(writer.send_with_backpressure(b"e".to_vec(), false), Backpressure::Done(false));
}

fn live(id: &str, fd: Option<i32>, pid: Option<i32>) -> LiveSession {
    LiveSession {
        session_id: id.to_string(),
        master_fd: fd,
        child_pid: pid,
        cols: 80,
        rows: 24,
        custom_title: "title".to_string(),
        tab_color: "#fff".to_string(),
        template_name: "shell".to_string(),
    }
}

#[test]
fn sessions_without_descriptor_or_process_do_not_survive_a_relaunch() {
    let state = collect_relaunch_state(
        &vec![
            live("a", Some(5), Some(100)),
            live("remote", None, Some(101)),
            live("gone", Some(6), None),
            live("bad", Some(-1), Some(102)),
            live("b", Some(7), Some(103)),
        ],
        "/run/ctermd.sock",
        10000,
    );
    assert_eq!(preserved_descriptors(&state), Ok(vec![5, 7]));
    assert_eq!(state.socket_path, "/run/ctermd.sock");
    assert_eq!(state.sessions[1].session_id, "b");
    assert_eq!(state.sessions[1].child_pid, 103);
    assert_eq!(state.sessions[1].custom_title, "title");
    assert_eq!(state.sessions[1].scrollback_lines, 10000);

    let nothing = RelaunchState {
        sessions: vec![],
        socket_path: String::new(),
        scrollback_lines: 1,
    };
    assert_eq!(preserved_descriptors(&nothing), Err(RelaunchError::NoSessions));

    let mut manager = SessionManager::new();
    restore_sessions(&mut manager, &state, &vec![false, true]);
    assert_eq!(manager.session_count(), 1);
    let restored = manager.get_session("b").unwrap();
    assert_eq!(restored.custom_title(), "title");
    assert_eq!(restored.child_pid(), Some(103));
    assert!(restored.is_running());
    assert!(manager.had_sessions());
}

#[test]
fn a_relaunch_keeps_the_exact_endpoint() {
    assert_eq!(relaunch_dir(1000), "/tmp/ctermd_relaunch_1000");
    assert_eq!(screen_file_name("abc"), "abc.screen");
    assert_eq!(
        relaunch_arguments("/usr/bin/ctermd", "/tmp/d", "/run/s", "cterm", 0).unwrap(),
        vec![
            "/usr/bin/ctermd",
            "--foreground",
            "--relaunch-state",
            "/tmp/d",
            "--listen",
            "/run/s",
            "--identity",
            "cterm",
            "--scrollback",
            "0",
        ]
    );
    assert_eq!(
        relaunch_arguments("a\0b", "/tmp/d", "/run/s", "cterm", 0),
        Err(RelaunchError::InvalidBinaryPath)
    );
    assert_eq!(
        relaunch_arguments("a", "/tmp/d", "/run/s", "c\0", 0),
        Err(RelaunchError::InvalidIdentity)
    );
}

#[test]
fn requested_sizes_are_brought_within_bounds() {
    assert_eq!(
        requested_size(0, 70000, 640, 100000),
        PtySize { cols: 1, rows: 65535, pixel_width: 640, pixel_height: 65535 }
    );
    let valid = create_request(80, 24);
    assert_eq!(
        checked_create_request(&valid),
        Ok(PtySize { cols: 80, rows: 24, pixel_width: 0, pixel_height: 0 })
    );
    let cursor = CreateSessionRequest { cursor_style: Decoded::Invalid, ..valid };
    assert_eq!(checked_create_request(&cursor), Err(ServiceError::InvalidCursorStyle));
    let state = CreateSessionRequest { frontend_state_valid: false, ..cursor };
    assert_eq!(checked_create_request(&state), Err(ServiceError::InvalidFrontendState));
    let palette = CreateSessionRequest { palette: Decoded::Invalid, ..state };
    assert_eq!(checked_create_request(&palette), Err(ServiceError::InvalidPalette));
    let mut service = TerminalServiceImpl::new(SessionManager::new());
    assert_eq!(service.create_session(&palette), Err(ServiceError::InvalidPalette));
    assert_eq!(service.manager().session_count(), 0);
}

#[test]
fn defaults_fill_what_a_client_leaves_out() {
    assert_eq!(remote_term(None), "xterm-256color");
    assert_eq!(remote_term(Some("vt100".to_string())), "vt100");
    assert_eq!(initial_cursor(None, None), (CursorStyle::Block, true));
    assert_eq!(initial_cursor(Some(CursorStyle::Bar), Some(false)), (CursorStyle::Bar, false));
    assert_eq!(merged_frontend_state((1, 2), None, Some(3)), Ok((1, 3)));
    assert_eq!(merged_frontend_state((1, 2), Some(4), None), Ok((4, 2)));
    assert_eq!(
        merged_frontend_state((1, 2), None, None),
        Err(ServiceError::EmptyFrontendState)
    );
    assert_eq!(host_name_bytes(&b"host\0rest".to_vec()), b"host".to_vec());
    assert_eq!(host_name_bytes(&b"host".to_vec()), b"host".to_vec());
}

fn service_with(id: &str) -> TerminalServiceImpl {
    let mut manager = SessionManager::new();
    manager.insert_session(SessionState::new(id.to_string(), 80, 24, Some(9))).unwrap();
    TerminalServiceImpl::new(manager)
}

fn create_request(cols: u32, rows: u32) -> CreateSessionRequest {
    CreateSessionRequest {
        palette: Decoded::Absent,
        frontend_state_valid: true,
        cursor_style: Decoded::Absent,
        cells: (cols, rows),
        pixels: (0, 0),
        ssh: false,
        child_pid: Some(4242),
    }
}

fn facts() -> TerminalFacts {
    TerminalFacts {
        title: "vim".to_string(),
        has_foreground_process: true,
        foreground_process_name: None,
    }
}

fn listed(service: &TerminalServiceImpl) -> Vec<String> {
    let known = (0..service.manager().session_count()).map(|_| facts()).collect();
    service.list_sessions(&known).into_iter().map(|info| info.session_id).collect()
}

#[test]
fn test_create_and_list_sessions() {
    let mut service = TerminalServiceImpl::new(SessionManager::new());
    assert!(listed(&service).is_empty(), "Expected no sessions initially");

    let created = service.create_session(&create_request(80, 24)).unwrap();
    assert!(!created.session_id.is_empty(), "Session ID should not be empty");
    assert_eq!(created.cols, 80);
    assert_eq!(created.rows, 24);
    assert_eq!(listed(&service), vec![created.session_id.clone()]);

    let destroyed = service.destroy_session(&created.session_id, None).unwrap();
    assert_eq!(destroyed.session.id(), created.session_id);
    assert!(listed(&service).is_empty());
}

#[test]
fn test_get_session() {
    let mut service = TerminalServiceImpl::new(SessionManager::new());
    let created = service.create_session(&create_request(100, 30)).unwrap();
    let session = service.get_session(&created.session_id, &facts()).unwrap();
    assert_eq!(session.session_id, created.session_id);
    assert_eq!(session.cols, 100);
    assert_eq!(session.rows, 30);
    assert!(session.running);
}

#[test]
fn test_resize() {
    let mut service = TerminalServiceImpl::new(SessionManager::new());
    let request = CreateSessionRequest { pixels: (640, 384), ..create_request(80, 24) };
    let created = service.create_session(&request).unwrap();
    assert_eq!(
        service.resize(&created.session_id, (120, 40), (1080, 800)),
        Ok((1080, 800))
    );
    let session = service.get_session(&created.session_id, &facts()).unwrap();
    assert_eq!(session.cols, 120);
    assert_eq!(session.rows, 40);
}

#[test]
fn test_multiple_sessions() {
    let mut service = TerminalServiceImpl::new(SessionManager::new());
    let mut session_ids = Vec::new();
    for _ in 0..3 {
        session_ids.push(service.create_session(&create_request(80, 24)).unwrap().session_id);
    }
    assert_eq!(listed(&service).len(), 3);
    for session_id in session_ids {
        let _ = service.destroy_session(&session_id, None);
    }
    assert!(listed(&service).is_empty());
}

#[test]
fn test_invalid_session_id() {
    let service = TerminalServiceImpl::new(SessionManager::new());
    let result = service.get_session("nonexistent-session-id", &facts());
    assert!(result.is_err(), "Should fail for invalid session ID");
}

#[test]
fn remote_sessions_are_created_while_they_connect() {
    let mut service = TerminalServiceImpl::new(SessionManager::new());
    let request = CreateSessionRequest { ssh: true, ..create_request(0, 70000) };
    let created = service.create_session(&request).unwrap();
    assert_eq!((created.cols, created.rows), (1, 65535));
    let session = service.require_session(&created.session_id).unwrap();
    assert!(session.is_connecting());
    assert_eq!(session.child_pid(), None);
}

#[test]
fn requests_about_terminals_are_checked() {
    let service = service_with("s");
    assert!(service.set_session_palette("s", true).is_ok());
    assert_eq!(
        service.set_session_palette("none", false).unwrap_err(),
        ServiceError::InvalidPalette
    );
    assert!(missing(service.set_session_palette("none", true)));
    assert_eq!(service.set_session_frontend_state("s", (1, 2), None, Some(5), true), Ok((1, 5)));
    assert_eq!(
        service.set_session_frontend_state("none", (1, 2), None, None, true),
        Err(ServiceError::EmptyFrontendState)
    );
    assert!(missing(service.set_session_frontend_state("none", (1, 2), Some(3), None, false)));
    assert_eq!(
        service.set_session_frontend_state("s", (1, 2), Some(-7), None, false),
        Err(ServiceError::InvalidFrontendState)
    );
    assert_eq!(
        service.set_session_frontend_state("s", (1, 2), None, None, false),
        Err(ServiceError::EmptyFrontendState)
    );
    let typed = service.send_key("s", true, Some(b"\x1b[A".to_vec())).unwrap();
    assert_eq!(typed.sequence, b"\x1b[A");
    assert!(typed.writes);
    assert!(!service.send_key("s", true, None).unwrap().writes);
    assert_eq!(service.send_key("s", false, None), Err(ServiceError::InvalidKey));
    assert!(missing(service.send_key("none", false, None)));
    assert_eq!(service.get_cell("s", Some('x')), Ok('x'));
    assert_eq!(service.get_cell::<char>("s", None), Err(ServiceError::CellOutOfRange));
    assert!(missing(service.get_cell("none", Some('x'))));
    assert!(missing(service.require_session("none")));
}

fn missing<T: std::fmt::Debug>(result: Result<T, ServiceError>) -> bool {
    matches!(
        result,
        Err(ServiceError::Session(HeadlessError::SessionNotFound(id))) if id == "none"
    )
}

#[test]
fn only_masked_metadata_changes() {
    let mut service = service_with("s");
    service
        .set_session_metadata("s", 5, "t".to_string(), "c".to_string(), "n".to_string())
        .unwrap();
    let session = service.manager().get_session("s").unwrap();
    assert_eq!(session.custom_title(), "t");
    assert_eq!(session.tab_color(), "");
    assert_eq!(session.template_name(), "n");
    service.set_session_title("s", "u".to_string()).unwrap();
    assert_eq!(service.resize("s", (0, 40), (70000, 1)), Ok((65535, 1)));
    let session = service.manager().get_session("s").unwrap();
    assert_eq!(session.custom_title(), "u");
    assert_eq!(session.dimensions(), (1, 40));
    assert!(missing(service.set_session_title("none", String::new())));
    assert!(missing(service.resize("none", (1, 1), (1, 1))));
    assert!(missing(service.clear_alert("none")));
    assert!(missing(service.respond_prompt("none", "p", true)));
    assert!(missing(service.set_session_metadata(
        "none",
        1,
        String::new(),
        String::new(),
        String::new()
    )));
    assert_eq!(service.respond_prompt("s", "p", true), Ok(false));
    assert_eq!(service.clear_alert("s"), Ok(()));
}

#[test]
fn attached_clients_are_counted() {
    let mut service = service_with("s");
    let info = service.attach_session("s", 100, 30, &facts()).unwrap();
    assert_eq!((info.cols, info.rows, info.attached_clients), (100, 30, 1));
    service.attach_session("s", 0, 30, &facts()).unwrap();
    let session = service.manager().get_session("s").unwrap();
    assert_eq!(session.attached_clients(), 2);
    assert_eq!(session.dimensions(), (100, 30));
    assert!(missing(service.attach_session("none", 1, 1, &facts())));
    assert!(service.detach_session("none", true).unwrap().is_none());
    assert!(missing(service.detach_session("none", false)));
    assert!(service.detach_session("s", true).unwrap().is_none());
    let ended = service.detach_session("s", false).unwrap().unwrap();
    assert_eq!(ended.signal, 1);
    assert_eq!(ended.session.attached_clients(), 0);
    assert_eq!(service.manager().session_count(), 0);
}

fn host() -> String {
    "host".to_string()
}

fn build() -> BuildInfo {
    BuildInfo { version: "1.2.3".to_string(), protocol_version: 7 }
}

#[test]
fn test_handshake_reports_exact_protocol_version_and_daemon_identity() {
    let mut service = TerminalServiceImpl::new(SessionManager::new());
    service.set_server_config(
        "/run/s".to_string(),
        "managed-integration".to_string(),
        false,
        10,
    );
    let response = service.handshake(&build(), host(), &vec![]).unwrap();
    assert_eq!(response.daemon_version, build().version);
    assert_eq!(response.protocol_version, build().protocol_version);
    assert_eq!(response.daemon_identity, "managed-integration");
}

#[test]
fn managed_daemons_insist_on_a_challenge_and_are_not_relaunched() {
    let mut service = service_with("s");
    let greeting = service.handshake(&build(), host(), &vec![]).unwrap();
    assert!(!greeting.proves && greeting.is_local);
    assert_eq!(greeting.daemon_identity, "cterm");
    assert_eq!(service.relaunch_daemon(""), Ok(None));
    assert_eq!(service.relaunch_daemon("/bin/new"), Ok(Some("/bin/new".to_string())));
    service.set_server_config(
        "/run/s".to_string(),
        "managed-integration".to_string(),
        true,
        10,
    );
    assert_eq!(service.handshake(&build(), host(), &vec![0; 31]), Err(ServiceError::InvalidChallenge));
    let greeting = service.handshake(&build(), host(), &vec![0; 32]).unwrap();
    assert!(greeting.proves);
    assert_eq!(greeting.daemon_identity, "managed-integration");
    assert_eq!(greeting.daemon_id, service.daemon_id());
    assert_eq!(greeting.hostname, "host");
    assert_eq!(greeting.daemon_version, "1.2.3");
    assert_eq!(greeting.protocol_version, 7);
    assert_eq!(service.relaunch_daemon(""), Err(ServiceError::RelaunchDisabled));
    let info = service.get_daemon_info(&build(), host(), 5);
    assert_eq!((info.session_count, info.client_count, info.uptime_secs), (1, 3, 5));
    assert_eq!(info.daemon_id, service.daemon_id());
    assert_eq!(info.version, "1.2.3");
}

#[test]
fn shutdown_waits_for_sessions_unless_forced() {
    let mut service = service_with("s");
    let (response, destroyed) = service.shutdown(false);
    assert!(!response.success);
    assert_eq!(response.reason, "Active sessions exist. Use force=true to override.");
    assert!(destroyed.is_empty());
    let (response, destroyed) = service.shutdown(true);
    assert!(response.success);
    assert_eq!(response.reason, "");
    assert_eq!(destroyed.len(), 1);
    assert_eq!(destroyed[0].session.id(), "s");
    assert_eq!(destroyed[0].signal, 1);
    assert!(service.shutdown(false).0.success);
}

#[test]
fn sessions_end_by_the_signal_of_their_platform() {
    assert_eq!(Platform::Unix.default_signal(), 1);
    assert_eq!(Platform::Other.default_signal(), 15);
    let mut manager = SessionManager::with_scrollback(7);
    manager.set_platform(Platform::Other);
    assert_eq!(manager.scrollback_lines(), 7);
    for id in ["a", "b", "c", "d"] {
        manager.insert_session(SessionState::new(id.to_string(), 80, 24, Some(9))).unwrap();
    }
    assert_eq!(manager.destroy_session("a", None).unwrap().1, 15);
    let mut service = TerminalServiceImpl::new(manager);
    assert_eq!(service.destroy_session("b", None).unwrap().signal, 15);
    let ended = service.detach_session("c", false).unwrap().unwrap();
    assert_eq!(ended.signal, 15);
    let (_, destroyed) = service.shutdown(true);
    assert_eq!(destroyed.len(), 1);
    assert_eq!(destroyed[0].signal, 15);
    service.create_session(&create_request(80, 24)).unwrap();
    let id = listed(&service).remove(0);
    assert_eq!(service.destroy_session(&id, Some(2)).unwrap().signal, 2);
}

#[test]
fn a_shutdown_forgets_names_but_not_that_there_were_sessions() {
    let mut manager = SessionManager::new();
    manager.get_or_create_named_session("build", 80, 24, Some(7)).unwrap();
    assert!(manager.had_sessions());
    assert_eq!(manager.session_count(), 1);
    let mut service = TerminalServiceImpl::new(manager);
    service.shutdown(true);
    assert_eq!(service.manager().session_count(), 0);
    assert!(service.manager().get_session_by_name("build").is_none());
    assert!(service.manager().had_sessions());
}

#[test]
fn the_daemon_stops_with_its_last_stream_and_session() {
    let mut service = service_with("s");
    assert!(missing(service.stream_output("none")));
    service.stream_output("s").unwrap();
    assert_eq!(service.require_session("s").unwrap().attached_clients(), 1);
    assert!(!service.stream_closed("s"));
    assert_eq!(service.require_session("s").unwrap().attached_clients(), 0);
    service.stream_output("s").unwrap();
    service.stream_output("s").unwrap();
    service.shutdown(true);
    assert!(!service.stream_closed("s"));
    assert!(service.stream_closed("s"));
    let other = TerminalServiceImpl::new(SessionManager::new());
    assert_ne!(other.daemon_id(), service.daemon_id());
    assert_eq!(other.daemon_id().len(), 36);
}

#[test]
fn an_input_stream_stays_with_its_session() {
    let service = service_with("s");
    let mut stream = InputStream::new();
    assert!(missing(stream.accept(service.manager(), "none")));
    assert_eq!(stream.accept(service.manager(), "s"), Ok(()));
    stream.written(3);
    assert_eq!(
        stream.accept(service.manager(), "t"),
        Err(ServiceError::StreamSessionMismatch)
    );
    assert_eq!(stream.accept(service.manager(), "s"), Ok(()));
    stream.written(4);
    assert_eq!(stream.total_bytes_written(), 7);
}

#[test]
fn clients_are_told_what_a_session_is() {
    let service = service_with("s");
    let info = session_info(service.manager().get_session("s").unwrap(), &facts());
    assert_eq!(info.session_id, "s");
    assert_eq!((info.cols, info.rows), (80, 24));
    assert_eq!(info.title, "vim");
    assert!(info.running && info.has_foreground_process && !info.alerted);
    assert_eq!(info.child_pid, 9);
    assert_eq!(info.foreground_process_name, "");
}

#[test]
fn parsed_output_is_answered_and_routed() {
    let mut session = SessionState::new("out".to_string(), 80, 24, None);
    let command = |quiet| TransferCommand {
        id: "t".to_string(),
        file_id: Some("f".to_string()),
        quiet,
    };
    let plan = session.process_output(
        true,
        &vec![b"a".to_vec(), b"b".to_vec()],
        &vec![command(0)],
        true,
    );
    assert_eq!(plan.response, Some(b"ab".to_vec()));
    assert_eq!(plan.commands, vec![CommandStep::Submit]);
    assert!(session.watches_synchronized_update());
    session.quiesce_tty_transfers();
    let plan = session.process_output(false, &vec![], &vec![command(1), command(2)], true);
    assert_eq!(plan.response, None);
    assert!(matches!(
        &plan.commands[0],
        CommandStep::Answer(answer)
            if answer.file_id.as_deref() == Some("f")
                && answer.status == "EBUSY:Daemon relaunch in progress"
    ));
    assert_eq!(plan.commands[1], CommandStep::Drop);
    assert!(!session.watches_synchronized_update());
}

#[test]
fn the_daemon_stops_after_its_last_session_died() {
    let mut empty = TerminalServiceImpl::new(SessionManager::new());
    assert!(!empty.cleanup_dead_sessions());

    let mut manager = SessionManager::new();
    let mut dead = SessionState::new("dead".to_string(), 80, 24, Some(1));
    dead.set_child_running(false);
    manager.insert_session(dead).unwrap();
    manager.insert_session(SessionState::new("alive".to_string(), 80, 24, Some(2))).unwrap();
    let mut service = TerminalServiceImpl::new(manager);
    assert!(!service.cleanup_dead_sessions());
    assert_eq!(listed(&service), vec!["alive".to_string()]);
    assert!(!service.cleanup_dead_sessions());

    let mut manager = SessionManager::new();
    let mut dead = SessionState::new("dead".to_string(), 80, 24, Some(1));
    dead.set_child_running(false);
    manager.insert_session(dead).unwrap();
    let mut service = TerminalServiceImpl::new(manager);
    assert!(service.cleanup_dead_sessions());
    assert!(!service.cleanup_dead_sessions());
}
