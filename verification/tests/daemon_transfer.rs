use cterm::daemon::consent::{ConsentRegistry, TtyTransferPrompt};
use cterm::daemon::transfer::{
    decrement_queued, executes_any, has_active_tty_transfers, ApprovalOutcome, ApprovalRequest, TransferAction,
    TransferDirection, TransferStep, TransferWorker, TtyTransferController, APPROVAL_TIMEOUT,
    APPROVED_IDLE_TIMEOUT, COMMAND_QUEUE_CAPACITY, DEFAULT_MAX_FILES_PER_SESSION,
    DEFAULT_MAX_FILE_BYTES, DEFAULT_MAX_SESSION_BYTES,
};

fn request(request_id: u64, transfer_id: &str) -> ApprovalRequest {
    ApprovalRequest {
        request_id,
        transfer_id: transfer_id.to_string(),
        direction: TransferDirection::Send,
        paths: vec!["/home/me/file".to_string()],
    }
}

#[test]
fn transfer_defaults_are_valid_and_bounded() {
    assert_eq!(DEFAULT_MAX_FILES_PER_SESSION, 256);
    assert!(DEFAULT_MAX_FILE_BYTES < DEFAULT_MAX_SESSION_BYTES);
    assert_eq!(COMMAND_QUEUE_CAPACITY, 2 * 256);
}

#[test]
fn queued_work_counter_never_wraps_during_worker_shutdown() {
    let mut queued = 0;
    decrement_queued(&mut queued);
    assert_eq!(queued, 0);

    queued = 1;
    decrement_queued(&mut queued);
    assert_eq!(queued, 0);
}

#[test]
fn transfer_prompt_is_replayed_and_exactly_one_decision_succeeds() {
    let mut worker = TransferWorker::new();
    let mut registry = ConsentRegistry::new();
    worker.enqueue(vec![TransferAction::RequestApproval(request(1, "consent-test"))]);
    let now = 1_000;
    let event = match worker.next_step(now) {
        TransferStep::Prompt { request, expires_at } => {
            registry.register(request, expires_at, now).unwrap()
        }
        step => panic!("unexpected {step:?}"),
    };
    assert_eq!(event.transfer_id, "consent-test");
    assert_eq!(event.direction, TransferDirection::Send);
    assert!((1..=60_000).contains(&event.expires_in_ms));

    let later = now + 5_000_000;
    let snapshot = registry.snapshot(later);
    assert_eq!(snapshot.len(), 1);
    assert_eq!(snapshot[0].request_id, event.request_id);
    assert_eq!(snapshot[0].transfer_id, event.transfer_id);
    assert!(snapshot[0].expires_in_ms < event.expires_in_ms);
    assert_eq!(
        worker.decide(event.request_id, false, later),
        ApprovalOutcome::Denied { transfer_id: "consent-test".to_string() }
    );
    registry.clear(event.request_id);
    assert_eq!(worker.decide(event.request_id, true, later), ApprovalOutcome::Unknown);
    assert!(registry.snapshot(later).is_empty());
}

#[test]
fn events_show_the_time_that_remains() {
    let prompt = TtyTransferPrompt::new(request(3, "t"), 10_000_000);
    let event = prompt.event_with_remaining_time(1_500_000).unwrap();
    assert_eq!(event.expires_in_ms, 8);
    assert_eq!(event.paths, vec!["/home/me/file"]);
    assert_eq!(event.max_files, 256);
    assert_eq!(event.max_file_bytes, DEFAULT_MAX_FILE_BYTES);
    assert_eq!(event.max_session_bytes, DEFAULT_MAX_SESSION_BYTES);
    assert_eq!(prompt.event_with_remaining_time(9_999_999).unwrap().expires_in_ms, 1);
    assert_eq!(prompt.event_with_remaining_time(10_000_000), None);
}

#[test]
fn prompts_are_listed_by_request_and_replaced() {
    let mut registry = ConsentRegistry::new();
    assert!(registry.register(request(9, "late"), 5, 5).is_none());
    assert!(registry.register(request(2, "b"), 100, 5).is_some());
    assert!(registry.register(request(1, "a"), 50, 5).is_some());
    assert!(registry.register(request(2, "c"), 100, 5).is_some());
    let shown: Vec<String> =
        registry.snapshot(10).into_iter().map(|event| event.transfer_id).collect();
    assert_eq!(shown, vec!["a", "c"]);
    assert_eq!(registry.snapshot(60).len(), 1);
    assert!(registry.contains(1));
    assert!(registry.forwards_decision(1, true));
    assert!(!registry.forwards_decision(1, false));
    assert!(!registry.forwards_decision(9, true));
    registry.clear(1);
    assert!(!registry.contains(1));
    registry.clear_all();
    assert!(registry.snapshot(0).is_empty());
}

fn waiting(requests: &[(u64, &str)], now: u64) -> TransferWorker {
    let mut worker = TransferWorker::new();
    for (id, transfer) in requests {
        worker.enqueue(vec![TransferAction::RequestApproval(request(*id, transfer))]);
        worker.next_step(now);
    }
    worker
}

#[test]
fn decisions_count_until_the_deadline() {
    let mut worker = waiting(&[(1, "a"), (2, "b")], 0);
    assert_eq!(worker.pending_request_of("b"), Some(2));
    assert_eq!(
        worker.decide(1, true, APPROVAL_TIMEOUT - 1),
        ApprovalOutcome::Approved { transfer_id: "a".to_string() }
    );
    assert_eq!(
        worker.decide(2, true, APPROVAL_TIMEOUT),
        ApprovalOutcome::Expired { transfer_id: "b".to_string() }
    );
    assert_eq!(worker.pending_request_of("b"), None);
}

#[test]
fn what_runs_out_of_time_is_forgotten() {
    let mut worker = waiting(&[(1, "a"), (2, "b")], 0);
    worker.decide(1, true, 1);
    worker.approval_finished("a".to_string(), 1);
    let plan = worker.expire(APPROVAL_TIMEOUT);
    assert_eq!(plan.requests, vec![2]);
    assert!(plan.transfers.is_empty());
    worker.command_finished("a".to_string(), true, true, 5);
    assert!(worker.expire(APPROVED_IDLE_TIMEOUT + 4).transfers.is_empty());
    assert_eq!(worker.expire(APPROVED_IDLE_TIMEOUT + 5).transfers, vec!["a"]);
    assert!(worker.expire(APPROVED_IDLE_TIMEOUT + 5).transfers.is_empty());
}

#[test]
fn everything_that_runs_out_of_time_is_listed_once() {
    let mut worker = waiting(&[(1, "a"), (2, "b"), (3, "c"), (4, "d")], 0);
    for (request, transfer) in [(1, "a"), (3, "c")] {
        worker.decide(request, true, 1);
        worker.approval_finished(transfer.to_string(), 1);
        worker.approval_finished(transfer.to_string(), 1);
    }
    let plan = worker.expire(APPROVED_IDLE_TIMEOUT + 1);
    let mut requests = plan.requests;
    requests.sort();
    assert_eq!(requests, vec![2, 4]);
    let mut transfers = plan.transfers;
    transfers.sort();
    assert_eq!(transfers, vec!["a", "c"]);
}

#[test]
fn finished_transfers_are_no_longer_watched() {
    let mut worker = TransferWorker::new();
    worker.approval_finished("a".to_string(), 0);
    worker.command_finished("a".to_string(), false, true, 0);
    assert!(worker.expire(APPROVED_IDLE_TIMEOUT).transfers.is_empty());
    worker.command_finished("b".to_string(), true, true, 0);
    assert!(worker.expire(APPROVED_IDLE_TIMEOUT).transfers.is_empty());
}

#[test]
fn a_request_that_no_longer_waits_is_cleared() {
    let mut worker = waiting(&[(1, "a")], 0);
    assert_eq!(worker.command_handled(Some(1), true), None);
    assert_eq!(worker.pending_request_of("a"), Some(1));
    assert_eq!(worker.command_handled(Some(1), false), Some(1));
    assert_eq!(worker.pending_request_of("a"), None);
    assert_eq!(worker.command_handled(None, false), None);
}

#[test]
fn shutdown_clears_every_prompt() {
    let mut worker = waiting(&[(4, "a"), (6, "b")], 0);
    let mut requests = worker.shutdown();
    requests.sort();
    assert_eq!(requests, vec![4, 6]);
    assert!(worker.shutdown().is_empty());
}

#[test]
fn actions_are_done_in_order() {
    let mut worker = TransferWorker::new();
    let actions = vec![TransferAction::Write(b"x".to_vec()), TransferAction::Execute(7)];
    assert!(executes_any(&actions));
    worker.enqueue(actions);
    let more = vec![TransferAction::Abort(8)];
    assert!(!executes_any(&more));
    worker.enqueue(more);
    assert_eq!(worker.next_step(0), TransferStep::Write(b"x".to_vec()));
    assert_eq!(worker.next_step(0), TransferStep::Execute(7));
    assert_eq!(worker.next_step(0), TransferStep::Abort(8));
    assert_eq!(worker.next_step(0), TransferStep::Done);
}

#[test]
fn the_controller_counts_what_is_under_way() {
    let mut controller = TtyTransferController::new();
    assert!(!controller.has_work());
    assert!(controller.submit());
    assert!(controller.has_work());
    controller.left_queue();
    assert!(!controller.has_work());
    controller.publish_activity(2);
    assert!(controller.has_work());
    controller.quiesce();
    assert!(!controller.submit());
    controller.worker_exited();
    assert!(!controller.has_work());
    controller.resume();
    assert!(controller.submit());
    assert!(has_active_tty_transfers(&Some(controller)));
    assert!(!has_active_tty_transfers(&None));
}
