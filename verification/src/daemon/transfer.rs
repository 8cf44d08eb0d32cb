//! Consent-gated file transfers of one session.
//!
//! The worker owns the requests that wait for the user's consent and the deadlines
//! of the transfers that were approved. Times are nanoseconds of a monotonic
//! clock.

use std::collections::VecDeque;
use vstd::prelude::*;

use crate::keyed::{
    distinct_keys, has_key, keyed, lemma_keyed_empty, lemma_keyed_entry, lemma_keyed_index,
    lemma_keyed_pushed, lemma_keyed_removed,
};
use crate::text::{same_text, texts};

verus! {

/// Commands that may wait for the worker.
pub const COMMAND_QUEUE_CAPACITY: usize = 512;

/// How long the user has to decide.
pub const APPROVAL_TIMEOUT: u64 = 60_000_000_000;

/// How long an approved transfer may be idle.
pub const APPROVED_IDLE_TIMEOUT: u64 = 600_000_000_000;

pub const DEFAULT_MAX_FILES_PER_SESSION: usize = 256;

pub const DEFAULT_MAX_FILE_BYTES: u64 = 4294967296;

pub const DEFAULT_MAX_SESSION_BYTES: u64 = 17179869184;

/// The status of a request that nobody decided in time.
pub const STATUS_APPROVAL_EXPIRED: &'static str = "ETIMEDOUT:Transfer approval expired";

/// The status of everything that ends with the session.
pub const STATUS_SESSION_CLOSED: &'static str = "ECANCELED:Terminal session closed";

/// The status of an approved transfer that was idle for too long.
pub const STATUS_SESSION_IDLE: &'static str = "ETIMEDOUT:Transfer session idle";

/// A count after one left, which stays at zero.
pub open spec fn one_less(count: usize) -> int {
    if count == 0 {
        0
    } else {
        count - 1
    }
}

/// A count goes down by one and never below zero, so leaving undoes entering.
pub proof fn law_counts_stay_at_zero(count: usize)
    ensures
        one_less(0) == 0,
        count > 0 ==> one_less(count) + 1 == count,
        count < usize::MAX ==> one_less((count + 1) as usize) == count,
{
}

/// One command left the queue; the count stays at zero where it is zero.
pub fn decrement_queued(queued: &mut usize)
    ensures
        *final(queued) == one_less(*old(queued)),
{
    *queued = queued.saturating_sub(1);
}

/// How many commands are queued after one was or was not admitted.
pub open spec fn queued_after(queued: usize, admitted: bool) -> usize {
    if admitted {
        queued.wrapping_add(1)
    } else {
        queued
    }
}

/// A worker holds transfers, or will once it took what is queued.
pub open spec fn works(active: bool, queued: usize) -> bool {
    active || queued != 0
}

/// A worker has work exactly while it holds a transfer or a command waits: every admitted
/// command is work until it left the queue, and a refused one is none.
pub proof fn law_admitted_commands_are_work(queued: usize, active: bool)
    ensures
        queued < usize::MAX ==> works(active, queued_after(queued, true)),
        queued < usize::MAX ==> queued_after(queued, true) == queued + 1,
        queued < usize::MAX ==> one_less(queued_after(queued, true)) == queued,
        queued_after(queued, false) == queued,
        works(true, queued),
        !works(false, 0),
        works(false, queued) <==> queued > 0,
{
}

/// The entrance to the worker.
#[derive(Debug)]
pub struct TtyTransferController {
    accepting: bool,
    active: bool,
    queued: usize,
}

impl TtyTransferController {
    pub closed spec fn is_accepting(&self) -> bool {
        self.accepting
    }

    /// Whether the worker holds transfers.
    pub closed spec fn is_active(&self) -> bool {
        self.active
    }

    /// Commands on their way to the worker.
    pub closed spec fn spec_queued(&self) -> usize {
        self.queued
    }

    pub fn new() -> (controller: TtyTransferController)
        ensures
            controller.is_accepting(),
            !controller.is_active(),
            controller.spec_queued() == 0,
    {
        TtyTransferController { accepting: true, active: false, queued: 0 }
    }

    /// Whether a command may be handed to the worker; if so it counts as queued.
    pub fn submit(&mut self) -> (admitted: bool)
        ensures
            admitted == old(self).is_accepting(),
            final(self).is_accepting() == old(self).is_accepting(),
            final(self).is_active() == old(self).is_active(),
            final(self).spec_queued() == queued_after(old(self).spec_queued(), admitted),
    {
        if !self.accepting {
            return false;
        }
        self.queued = self.queued.wrapping_add(1);
        true
    }

    /// The worker took a command, or is gone and never will.
    pub fn left_queue(&mut self)
        ensures
            final(self).is_accepting() == old(self).is_accepting(),
            final(self).is_active() == old(self).is_active(),
            final(self).spec_queued() == one_less(old(self).spec_queued()),
    {
        decrement_queued(&mut self.queued);
    }

    /// Publishes whether the worker holds transfers.
    pub fn publish_activity(&mut self, active_sessions: usize)
        ensures
            final(self).is_accepting() == old(self).is_accepting(),
            final(self).spec_queued() == old(self).spec_queued(),
            final(self).is_active() == (active_sessions != 0),
    {
        self.active = active_sessions != 0;
    }

    /// The worker has exited: nothing is active or queued.
    pub fn worker_exited(&mut self)
        ensures
            final(self).is_accepting() == old(self).is_accepting(),
            !final(self).is_active(),
            final(self).spec_queued() == 0,
    {
        self.active = false;
        self.queued = 0;
    }

    /// Takes no more commands.
    pub fn quiesce(&mut self)
        ensures
            !final(self).is_accepting(),
            final(self).is_active() == old(self).is_active(),
            final(self).spec_queued() == old(self).spec_queued(),
    {
        self.accepting = false;
    }

    /// Takes commands again.
    pub fn resume(&mut self)
        ensures
            final(self).is_accepting(),
            final(self).is_active() == old(self).is_active(),
            final(self).spec_queued() == old(self).spec_queued(),
    {
        self.accepting = true;
    }

    pub fn has_work(&self) -> (work: bool)
        ensures
            work == works(self.is_active(), self.spec_queued()),
    {
        self.active || self.queued != 0
    }
}

/// Whether transfers are under way in a session, which may have no worker at all.
pub fn has_active_tty_transfers(controller: &Option<TtyTransferController>) -> (active: bool)
    ensures
        active == (*controller matches Some(controller) && works(
            controller.is_active(),
            controller.spec_queued(),
        )),
{
    match controller {
        Some(controller) => controller.has_work(),
        None => false,
    }
}

/// A request that waits for the user's consent.
#[derive(Debug, PartialEq, Eq)]
pub struct PendingApproval {
    pub request_id: u64,
    pub transfer_id: String,
    pub deadline: u64,
}

/// An approved transfer and when it counts as idle.
#[derive(Debug, PartialEq, Eq)]
pub struct ApprovedTransfer {
    pub transfer_id: String,
    pub deadline: u64,
}

/// Which way the files go.
#[derive(Debug, Clone, Copy, PartialEq, Eq, Structural)]
pub enum TransferDirection {
    Send,
    Receive,
}

/// A request for the user's consent.
#[derive(Debug, PartialEq, Eq)]
pub struct ApprovalRequest {
    pub request_id: u64,
    pub transfer_id: String,
    pub direction: TransferDirection,
    pub paths: Vec<String>,
}

/// What a transfer asks for. Work for the filesystem is known by a number.
#[derive(Debug, PartialEq, Eq)]
pub enum TransferAction {
    /// Answer the child.
    Write(Vec<u8>),
    /// Ask the user.
    RequestApproval(ApprovalRequest),
    /// Let the filesystem do something.
    Execute(u64),
    /// Let the filesystem discard something.
    Abort(u64),
}

/// The next thing to do for a list of actions.
#[derive(Debug, PartialEq, Eq)]
pub enum TransferStep {
    Write(Vec<u8>),
    /// Show the request until the given time.
    Prompt { request: ApprovalRequest, expires_at: u64 },
    Execute(u64),
    Abort(u64),
    Done,
}

/// What becomes of the user's decision.
#[derive(Debug, PartialEq, Eq)]
pub enum ApprovalOutcome {
    /// The request is unknown or was decided before.
    Unknown,
    /// The decision came too late: the request is rejected.
    Expired { transfer_id: String },
    /// The transfer is approved.
    Approved { transfer_id: String },
    /// The transfer is denied.
    Denied { transfer_id: String },
}

/// What has run out of time.
#[derive(Debug, PartialEq, Eq)]
pub struct ExpiryPlan {
    /// Requests to reject because nobody decided in time.
    pub requests: Vec<u64>,
    /// Transfers to reject because they were idle for too long.
    pub transfers: Vec<String>,
}

/// Until when the user can decide on a request that is made now.
pub open spec fn approval_deadline(now: u64) -> u64 {
    (now + APPROVAL_TIMEOUT) as u64
}

/// When a transfer that does some work now counts as idle.
pub open spec fn idle_deadline(now: u64) -> u64 {
    (now + APPROVED_IDLE_TIMEOUT) as u64
}

/// The user has a minute to decide, and a transfer may be idle for ten.
pub proof fn law_deadlines_are_a_minute_and_ten(now: u64)
    ensures
        now <= u64::MAX - 60_000_000_000 ==> approval_deadline(now) - now == 60 * 1_000_000_000,
        now <= u64::MAX - 600_000_000_000 ==> idle_deadline(now) - now == 10 * 60 * 1_000_000_000,
{
}

/// What becomes of the user's decision on a request that waits.
pub open spec fn decided(
    outcome: ApprovalOutcome,
    owner: Seq<char>,
    deadline: u64,
    approve: bool,
    now: u64,
) -> bool {
    match outcome {
        ApprovalOutcome::Unknown => false,
        ApprovalOutcome::Expired { transfer_id } => deadline <= now && transfer_id@ == owner,
        ApprovalOutcome::Approved { transfer_id } => deadline > now && approve && transfer_id@
            == owner,
        ApprovalOutcome::Denied { transfer_id } => deadline > now && !approve && transfer_id@
            == owner,
    }
}

/// A transfer is approved exactly if the user approved it in time, denied exactly if they
/// denied it in time, and expired once the deadline has come, whatever they decided. The
/// decision is about the transfer that asked.
pub proof fn law_decisions_count_in_time(
    outcome: ApprovalOutcome,
    owner: Seq<char>,
    deadline: u64,
    approve: bool,
    now: u64,
)
    requires
        decided(outcome, owner, deadline, approve, now),
    ensures
        outcome is Approved <==> approve && now < deadline,
        outcome is Denied <==> !approve && now < deadline,
        outcome is Expired <==> now >= deadline,
        outcome matches ApprovalOutcome::Approved { transfer_id } ==> transfer_id@ == owner,
        outcome matches ApprovalOutcome::Denied { transfer_id } ==> transfer_id@ == owner,
        outcome matches ApprovalOutcome::Expired { transfer_id } ==> transfer_id@ == owner,
{
}

/// The request whose prompt is cleared after a command.
pub open spec fn cleared_request(was_pending: Option<u64>, still_pending: bool) -> Option<u64> {
    if still_pending {
        None
    } else {
        was_pending
    }
}

/// The approved transfers after the actions of a command.
pub open spec fn watched_after(
    approved: Map<Seq<char>, u64>,
    transfer_id: Seq<char>,
    has_session: bool,
    executed: bool,
    now: u64,
) -> Map<Seq<char>, u64> {
    if !has_session {
        approved.remove(transfer_id)
    } else if executed && approved.dom().contains(transfer_id) {
        approved.insert(transfer_id, idle_deadline(now))
    } else {
        approved
    }
}

/// A prompt is cleared exactly if its request no longer waits. A transfer that is gone is
/// not watched; work puts off when an approved one counts as idle, and approves none; and
/// other transfers are watched as before.
pub proof fn law_work_keeps_transfers_from_being_idle(
    approved: Map<Seq<char>, u64>,
    id: Seq<char>,
    other: Seq<char>,
    has_session: bool,
    executed: bool,
    now: u64,
    request: u64,
)
    ensures
        cleared_request(Some(request), false) == Some(request),
        cleared_request(Some(request), true) is None,
        cleared_request(None, executed) is None,
        ({
            let after = watched_after(approved, id, has_session, executed, now);
            &&& !has_session ==> !after.dom().contains(id)
            &&& has_session ==> (after.dom().contains(id) <==> approved.dom().contains(id))
            &&& has_session && executed && approved.dom().contains(id) ==> after[id]
                == idle_deadline(now)
            &&& has_session && !executed && approved.dom().contains(id) ==> after[id]
                == approved[id]
            &&& other != id ==> (after.dom().contains(other) <==> approved.dom().contains(other))
            &&& other != id && approved.dom().contains(other) ==> after[other] == approved[other]
        }),
{
}

/// What is done for an action.
pub open spec fn action_step(action: TransferAction, now: u64) -> TransferStep {
    match action {
        TransferAction::Write(bytes) => TransferStep::Write(bytes),
        TransferAction::Execute(work) => TransferStep::Execute(work),
        TransferAction::Abort(work) => TransferStep::Abort(work),
        TransferAction::RequestApproval(request) => TransferStep::Prompt {
            request,
            expires_at: approval_deadline(now),
        },
    }
}

/// The requests that wait after an action was taken up.
pub open spec fn waiting_after(
    pending: Map<u64, (Seq<char>, u64)>,
    action: TransferAction,
    now: u64,
) -> Map<u64, (Seq<char>, u64)> {
    match action {
        TransferAction::RequestApproval(request) => pending.insert(
            request.request_id,
            (request.transfer_id@, approval_deadline(now)),
        ),
        _ => pending,
    }
}

/// Each action is done as what it is, on its own content. A request is shown until the
/// time until which it waits, for the transfer that made it; no other action makes a
/// request wait.
pub proof fn law_actions_are_done_as_they_are(
    pending: Map<u64, (Seq<char>, u64)>,
    action: TransferAction,
    now: u64,
    work: u64,
)
    ensures
        action_step(action, now) == TransferStep::Execute(work) <==> action
            == TransferAction::Execute(work),
        action_step(action, now) == TransferStep::Abort(work) <==> action == TransferAction::Abort(
            work,
        ),
        action matches TransferAction::Write(bytes) ==> action_step(action, now)
            == TransferStep::Write(bytes),
        action_step(action, now) is Prompt <==> action is RequestApproval,
        !(action_step(action, now) is Done),
        action_step(action, now) matches TransferStep::Prompt { request, expires_at } ==> {
            let waiting = waiting_after(pending, action, now);
            &&& action == TransferAction::RequestApproval(request)
            &&& waiting.dom().contains(request.request_id)
            &&& waiting[request.request_id] == (request.transfer_id@, expires_at)
            &&& waiting.remove(request.request_id) == pending.remove(request.request_id)
        },
        !(action is RequestApproval) ==> waiting_after(pending, action, now) == pending,
{
    if let TransferAction::RequestApproval(request) = action {
        assert(waiting_after(pending, action, now).remove(request.request_id) =~= pending.remove(
            request.request_id,
        ));
    }
}

/// The worker's bookkeeping.
#[derive(Debug)]
pub struct TransferWorker {
    pending: Vec<PendingApproval>,
    approved: Vec<ApprovedTransfer>,
    actions: VecDeque<TransferAction>,
}

/// The pending requests: whose each is and until when it waits.
pub open spec fn pending_entries(pending: Seq<PendingApproval>) -> Seq<(u64, (Seq<char>, u64))> {
    pending.map_values(
        |entry: PendingApproval| (entry.request_id, (entry.transfer_id@, entry.deadline)),
    )
}

/// The approved transfers and when each counts as idle.
pub open spec fn approved_entries(approved: Seq<ApprovedTransfer>) -> Seq<(Seq<char>, u64)> {
    approved.map_values(|entry: ApprovedTransfer| (entry.transfer_id@, entry.deadline))
}

proof fn lemma_pending_entry(pending: Seq<PendingApproval>, index: int)
    requires
        distinct_keys(pending_entries(pending)),
        0 <= index < pending.len(),
    ensures
        keyed(pending_entries(pending)).dom().contains(pending[index].request_id),
        keyed(pending_entries(pending))[pending[index].request_id] == (
            pending[index].transfer_id@,
            pending[index].deadline,
        ),
{
    lemma_keyed_entry(pending_entries(pending), index);
}

proof fn lemma_pending_removed(pending: Seq<PendingApproval>, index: int)
    requires
        distinct_keys(pending_entries(pending)),
        0 <= index < pending.len(),
    ensures
        distinct_keys(pending_entries(pending.remove(index))),
        keyed(pending_entries(pending.remove(index))) == keyed(pending_entries(pending)).remove(
            pending[index].request_id,
        ),
{
    lemma_keyed_removed(pending_entries(pending), index);
    assert(pending_entries(pending.remove(index)) =~= pending_entries(pending).remove(index));
}

proof fn lemma_pending_pushed(pending: Seq<PendingApproval>, entry: PendingApproval)
    requires
        distinct_keys(pending_entries(pending)),
        !has_key(pending_entries(pending), entry.request_id),
    ensures
        distinct_keys(pending_entries(pending.push(entry))),
        keyed(pending_entries(pending.push(entry))) == keyed(pending_entries(pending)).insert(
            entry.request_id,
            (entry.transfer_id@, entry.deadline),
        ),
{
    let pair = (entry.request_id, (entry.transfer_id@, entry.deadline));
    lemma_keyed_pushed(pending_entries(pending), pair);
    assert(pending_entries(pending.push(entry)) =~= pending_entries(pending).push(pair));
}

proof fn lemma_approved_entry(approved: Seq<ApprovedTransfer>, index: int)
    requires
        distinct_keys(approved_entries(approved)),
        0 <= index < approved.len(),
    ensures
        keyed(approved_entries(approved)).dom().contains(approved[index].transfer_id@),
        keyed(approved_entries(approved))[approved[index].transfer_id@] == approved[index].deadline,
{
    lemma_keyed_entry(approved_entries(approved), index);
}

proof fn lemma_approved_removed(approved: Seq<ApprovedTransfer>, index: int)
    requires
        distinct_keys(approved_entries(approved)),
        0 <= index < approved.len(),
    ensures
        distinct_keys(approved_entries(approved.remove(index))),
        keyed(approved_entries(approved.remove(index))) == keyed(
            approved_entries(approved),
        ).remove(approved[index].transfer_id@),
{
    lemma_keyed_removed(approved_entries(approved), index);
    assert(approved_entries(approved.remove(index)) =~= approved_entries(approved).remove(index));
}

proof fn lemma_approved_pushed(approved: Seq<ApprovedTransfer>, entry: ApprovedTransfer)
    requires
        distinct_keys(approved_entries(approved)),
        !has_key(approved_entries(approved), entry.transfer_id@),
    ensures
        distinct_keys(approved_entries(approved.push(entry))),
        keyed(approved_entries(approved.push(entry))) == keyed(approved_entries(approved)).insert(
            entry.transfer_id@,
            entry.deadline,
        ),
{
    let pair = (entry.transfer_id@, entry.deadline);
    lemma_keyed_pushed(approved_entries(approved), pair);
    assert(approved_entries(approved.push(entry)) =~= approved_entries(approved).push(pair));
}

/// The pending requests without those whose deadline has come.
pub open spec fn unexpired_requests(pending: Map<u64, (Seq<char>, u64)>, now: u64) -> Map<
    u64,
    (Seq<char>, u64),
> {
    pending.restrict(Set::new(|id: u64| pending.dom().contains(id) && pending[id].1 > now))
}

/// The approved transfers without those that were idle for too long.
pub open spec fn unexpired_transfers(approved: Map<Seq<char>, u64>, now: u64) -> Map<
    Seq<char>,
    u64,
> {
    approved.restrict(
        Set::new(|id: Seq<char>| approved.dom().contains(id) && approved[id] > now),
    )
}

/// Whether a list of strings holds a text.
pub open spec fn lists_text(list: Seq<String>, text: Seq<char>) -> bool {
    exists|i: int| 0 <= i < list.len() && (#[trigger] list[i])@ == text
}

impl TransferWorker {
    pub closed spec fn wf(&self) -> bool {
        distinct_keys(pending_entries(self.pending@)) && distinct_keys(
            approved_entries(self.approved@),
        )
    }

    /// The requests that wait for consent: whose they are and until when.
    pub closed spec fn pending(&self) -> Map<u64, (Seq<char>, u64)> {
        keyed(pending_entries(self.pending@))
    }

    /// The approved transfers and when they count as idle.
    pub closed spec fn approved(&self) -> Map<Seq<char>, u64> {
        keyed(approved_entries(self.approved@))
    }

    /// The actions that are still to be done, in order.
    pub closed spec fn queued_actions(&self) -> Seq<TransferAction> {
        self.actions@
    }

    pub fn new() -> (worker: TransferWorker)
        ensures
            worker.wf(),
            worker.pending() == Map::<u64, (Seq<char>, u64)>::empty(),
            worker.approved() == Map::<Seq<char>, u64>::empty(),
            worker.queued_actions() == Seq::<TransferAction>::empty(),
    {
        let worker = TransferWorker {
            pending: Vec::new(),
            approved: Vec::new(),
            actions: VecDeque::new(),
        };
        proof {
            lemma_keyed_empty::<u64, (Seq<char>, u64)>();
            lemma_keyed_empty::<Seq<char>, u64>();
            assert(pending_entries(worker.pending@) =~= Seq::empty());
            assert(approved_entries(worker.approved@) =~= Seq::empty());
        }
        worker
    }

    fn find_pending(&self, request_id: u64) -> (found: Option<usize>)
        ensures
            match found {
                Some(index) => index < self.pending@.len() && self.pending@[index as int].request_id
                    == request_id,
                None => !has_key(pending_entries(self.pending@), request_id),
            },
    {
        let mut index: usize = 0;
        while index < self.pending.len()
            invariant
                index <= self.pending@.len(),
                forall|i: int|
                    0 <= i < index ==> (#[trigger] self.pending@[i]).request_id != request_id,
            decreases self.pending@.len() - index,
        {
            if self.pending[index].request_id == request_id {
                return Some(index);
            }
            index += 1;
        }
        None
    }

    fn find_approved(&self, transfer_id: &str) -> (found: Option<usize>)
        ensures
            match found {
                Some(index) => index < self.approved@.len()
                    && self.approved@[index as int].transfer_id@ == transfer_id@,
                None => !has_key(approved_entries(self.approved@), transfer_id@),
            },
    {
        let mut index: usize = 0;
        while index < self.approved.len()
            invariant
                index <= self.approved@.len(),
                forall|i: int|
                    0 <= i < index ==> (#[trigger] self.approved@[i]).transfer_id@ != transfer_id@,
            decreases self.approved@.len() - index,
        {
            if same_text(self.approved[index].transfer_id.as_str(), transfer_id) {
                return Some(index);
            }
            index += 1;
        }
        None
    }

    /// A request of this transfer that waits for consent.
    pub fn pending_request_of(&self, transfer_id: &str) -> (request: Option<u64>)
        requires
            self.wf(),
        ensures
            match request {
                Some(request_id) => self.pending().dom().contains(request_id)
                    && self.pending()[request_id].0 == transfer_id@,
                None => forall|request_id: u64|
                    self.pending().dom().contains(request_id) ==> (
                    #[trigger] self.pending()[request_id]).0 != transfer_id@,
            },
    {
        let mut index: usize = 0;
        while index < self.pending.len()
            invariant
                self.wf(),
                index <= self.pending@.len(),
                forall|i: int|
                    0 <= i < index ==> (#[trigger] self.pending@[i]).transfer_id@ != transfer_id@,
            decreases self.pending@.len() - index,
        {
            if same_text(self.pending[index].transfer_id.as_str(), transfer_id) {
                proof {
                    lemma_pending_entry(self.pending@, index as int);
                }
                return Some(self.pending[index].request_id);
            }
            index += 1;
        }
        proof {
            assert forall|request_id: u64| self.pending().dom().contains(request_id) implies (
            #[trigger] self.pending()[request_id]).0 != transfer_id@ by {
                let i = lemma_keyed_index(pending_entries(self.pending@), request_id);
                lemma_pending_entry(self.pending@, i);
            }
        }
        None
    }

    fn forget_pending(&mut self, request_id: u64) -> (entry: Option<PendingApproval>)
        requires
            old(self).wf(),
        ensures
            final(self).wf(),
            final(self).approved() == old(self).approved(),
            final(self).queued_actions() == old(self).queued_actions(),
            final(self).pending() == old(self).pending().remove(request_id),
            match entry {
                Some(entry) => {
                    &&& entry.request_id == request_id
                    &&& old(self).pending().dom().contains(request_id)
                    &&& old(self).pending()[request_id] == (entry.transfer_id@, entry.deadline)
                },
                None => !old(self).pending().dom().contains(request_id),
            },
    {
        match self.find_pending(request_id) {
            Some(index) => {
                proof {
                    lemma_pending_entry(self.pending@, index as int);
                    lemma_pending_removed(self.pending@, index as int);
                }
                Some(self.pending.remove(index))
            },
            None => {
                proof {
                    assert(self.pending().remove(request_id) =~= self.pending());
                }
                None
            },
        }
    }

    fn forget_approved(&mut self, transfer_id: &str) -> (found: bool)
        requires
            old(self).wf(),
        ensures
            final(self).wf(),
            final(self).pending() == old(self).pending(),
            final(self).queued_actions() == old(self).queued_actions(),
            final(self).approved() == old(self).approved().remove(transfer_id@),
            found == old(self).approved().dom().contains(transfer_id@),
    {
        match self.find_approved(transfer_id) {
            Some(index) => {
                proof {
                    lemma_approved_entry(self.approved@, index as int);
                    lemma_approved_removed(self.approved@, index as int);
                }
                self.approved.remove(index);
                true
            },
            None => {
                proof {
                    assert(self.approved().remove(transfer_id@) =~= self.approved());
                }
                false
            },
        }
    }

    fn set_approved(&mut self, transfer_id: String, deadline: u64)
        requires
            old(self).wf(),
        ensures
            final(self).wf(),
            final(self).pending() == old(self).pending(),
            final(self).queued_actions() == old(self).queued_actions(),
            final(self).approved() == old(self).approved().insert(transfer_id@, deadline),
    {
        self.forget_approved(transfer_id.as_str());
        let entry = ApprovedTransfer { transfer_id, deadline };
        proof {
            if has_key(approved_entries(self.approved@), entry.transfer_id@) {
                assert(self.approved().dom().contains(entry.transfer_id@));
            }
            lemma_approved_pushed(self.approved@, entry);
            assert(old(self).approved().remove(entry.transfer_id@).insert(
                entry.transfer_id@,
                deadline,
            ) =~= old(self).approved().insert(entry.transfer_id@, deadline));
        }
        self.approved.push(entry);
    }

    /// A command of a transfer was handled whose request `was_pending`. Where the
    /// request no longer waits for consent, it is forgotten and its prompt must be
    /// cleared.
    pub fn command_handled(&mut self, was_pending: Option<u64>, still_pending: bool) -> (cleared:
        Option<u64>)
        requires
            old(self).wf(),
        ensures
            final(self).wf(),
            final(self).approved() == old(self).approved(),
            final(self).queued_actions() == old(self).queued_actions(),
            cleared == cleared_request(was_pending, still_pending),
            final(self).pending() == (match cleared {
                Some(request_id) => old(self).pending().remove(request_id),
                None => old(self).pending(),
            }),
    {
        match was_pending {
            Some(request_id) => {
                if still_pending {
                    return None;
                }
                self.forget_pending(request_id);
                Some(request_id)
            },
            None => None,
        }
    }

    /// The actions of a command have been done. A transfer that is gone is no longer
    /// watched; one that did some work counts as idle later.
    pub fn command_finished(
        &mut self,
        transfer_id: String,
        has_session: bool,
        executed: bool,
        now: u64,
    )
        requires
            old(self).wf(),
            now <= u64::MAX - APPROVED_IDLE_TIMEOUT,
        ensures
            final(self).wf(),
            final(self).pending() == old(self).pending(),
            final(self).queued_actions() == old(self).queued_actions(),
            final(self).approved() == watched_after(
                old(self).approved(),
                transfer_id@,
                has_session,
                executed,
                now,
            ),
    {
        if !has_session {
            self.forget_approved(transfer_id.as_str());
        } else if executed {
            let known = self.find_approved(transfer_id.as_str());
            match known {
                Some(index) => {
                    proof {
                        lemma_approved_entry(self.approved@, index as int);
                    }
                    self.set_approved(transfer_id, now + APPROVED_IDLE_TIMEOUT);
                },
                None => {},
            }
        }
    }

    /// The user decided on a request. Only the first decision on a request counts,
    /// and only before its deadline. Whatever the outcome, the request no longer
    /// waits, and its prompt must be cleared unless it was unknown.
    pub fn decide(&mut self, request_id: u64, approve: bool, now: u64) -> (outcome: ApprovalOutcome)
        requires
            old(self).wf(),
        ensures
            final(self).wf(),
            final(self).approved() == old(self).approved(),
            final(self).queued_actions() == old(self).queued_actions(),
            final(self).pending() == old(self).pending().remove(request_id),
            !old(self).pending().dom().contains(request_id) <==> outcome is Unknown,
            old(self).pending().dom().contains(request_id) ==> {
                let (owner, deadline) = old(self).pending()[request_id];
                decided(outcome, owner, deadline, approve, now)
            },
    {
        match self.forget_pending(request_id) {
            None => ApprovalOutcome::Unknown,
            Some(entry) => {
                if entry.deadline <= now {
                    ApprovalOutcome::Expired { transfer_id: entry.transfer_id }
                } else if approve {
                    ApprovalOutcome::Approved { transfer_id: entry.transfer_id }
                } else {
                    ApprovalOutcome::Denied { transfer_id: entry.transfer_id }
                }
            },
        }
    }

    /// The actions of an approval have been done: the transfer is watched for being
    /// idle.
    pub fn approval_finished(&mut self, transfer_id: String, now: u64)
        requires
            old(self).wf(),
            now <= u64::MAX - APPROVED_IDLE_TIMEOUT,
        ensures
            final(self).wf(),
            final(self).pending() == old(self).pending(),
            final(self).queued_actions() == old(self).queued_actions(),
            final(self).approved() == old(self).approved().insert(
                transfer_id@,
                idle_deadline(now),
            ),
    {
        self.set_approved(transfer_id, now + APPROVED_IDLE_TIMEOUT);
    }

    /// The session closes: every request whose prompt must be cleared. Nothing waits
    /// or is watched any more.
    pub fn shutdown(&mut self) -> (requests: Vec<u64>)
        requires
            old(self).wf(),
        ensures
            final(self).wf(),
            final(self).pending() == Map::<u64, (Seq<char>, u64)>::empty(),
            final(self).approved() == Map::<Seq<char>, u64>::empty(),
            final(self).queued_actions() == old(self).queued_actions(),
            requests@.to_set() == old(self).pending().dom(),
            requests@.no_duplicates(),
    {
        let mut requests: Vec<u64> = Vec::new();
        let mut index: usize = 0;
        while index < self.pending.len()
            invariant
                self.wf(),
                *self == *old(self),
                index <= self.pending@.len(),
                requests@.len() == index,
                forall|i: int| 0 <= i < index ==> requests@[i] == self.pending@[i].request_id,
            decreases self.pending@.len() - index,
        {
            requests.push(self.pending[index].request_id);
            index += 1;
        }
        proof {
            assert forall|id: u64| requests@.to_set().contains(id) implies self.pending().dom().contains(
                id,
            ) by {
                let i = choose|i: int| 0 <= i < requests@.len() && requests@[i] == id;
                lemma_pending_entry(self.pending@, i);
            }
            assert forall|id: u64| self.pending().dom().contains(id) implies requests@.to_set().contains(
                id,
            ) by {
                let i = lemma_keyed_index(pending_entries(self.pending@), id);
                assert(requests@[i] == id);
            }
            assert(requests@.to_set() =~= self.pending().dom());
            assert forall|i: int, j: int|
                0 <= i < requests@.len() && 0 <= j < requests@.len() && i
                    != j implies requests@[i] != requests@[j] by {
                let entries = pending_entries(self.pending@);
                if i < j {
                    assert(entries[i].0 != entries[j].0);
                } else {
                    assert(entries[j].0 != entries[i].0);
                }
            }
        }
        self.pending.clear();
        self.approved.clear();
        proof {
            lemma_keyed_empty::<u64, (Seq<char>, u64)>();
            lemma_keyed_empty::<Seq<char>, u64>();
            assert(pending_entries(self.pending@) =~= Seq::empty());
            assert(approved_entries(self.approved@) =~= Seq::empty());
        }
        requests
    }

    /// What has run out of time. It is forgotten here; its prompts must be cleared
    /// and its transfers rejected.
    pub fn expire(&mut self, now: u64) -> (plan: ExpiryPlan)
        requires
            old(self).wf(),
        ensures
            final(self).wf(),
            final(self).queued_actions() == old(self).queued_actions(),
            final(self).pending() == unexpired_requests(old(self).pending(), now),
            final(self).approved() == unexpired_transfers(old(self).approved(), now),
            plan.requests@.no_duplicates(),
            forall|id: u64| #[trigger]
                plan.requests@.contains(id) <==> old(self).pending().dom().contains(id) && old(self).pending()[id].1 <= now,
            texts(plan.transfers@).no_duplicates(),
            forall|id: Seq<char>|
                #[trigger] lists_text(plan.transfers@, id) <==> old(self).approved().dom().contains(id)
                    && old(self).approved()[id] <= now,
    {
        let requests = self.expire_requests(now);
        let transfers = self.expire_transfers(now);
        ExpiryPlan { requests, transfers }
    }

    fn expire_requests(&mut self, now: u64) -> (requests: Vec<u64>)
        requires
            old(self).wf(),
        ensures
            final(self).wf(),
            final(self).queued_actions() == old(self).queued_actions(),
            final(self).approved() == old(self).approved(),
            final(self).pending() == unexpired_requests(old(self).pending(), now),
            requests@.no_duplicates(),
            forall|id: u64| #[trigger]
                requests@.contains(id) <==> old(self).pending().dom().contains(id) && old(self).pending()[id].1 <= now,
    {
        let ghost before = self.pending();
        let mut requests: Vec<u64> = Vec::new();
        let mut index: usize = 0;
        while index < self.pending.len()
            invariant
                self.wf(),
                index <= self.pending@.len(),
                before == old(self).pending(),
                self.queued_actions() == old(self).queued_actions(),
                self.approved() == old(self).approved(),
                forall|i: int| 0 <= i < index ==> (#[trigger] self.pending@[i]).deadline > now,
                forall|id: u64| #[trigger]
                    self.pending().dom().contains(id) ==> before.dom().contains(id)
                        && before[id] == self.pending()[id],
                forall|id: u64| #[trigger]
                    before.dom().contains(id) ==> self.pending().dom().contains(id)
                        || requests@.contains(id),
                requests@.no_duplicates(),
                forall|id: u64| #[trigger]
                    requests@.contains(id) ==> before.dom().contains(id) && before[id].1 <= now
                        && !self.pending().dom().contains(id),
            decreases self.pending@.len() - index,
        {
            if self.pending[index].deadline <= now {
                let request_id: u64 = self.pending[index].request_id;
                let ghost old_pending = self.pending();
                let ghost old_requests = requests@;
                proof {
                    lemma_pending_entry(self.pending@, index as int);
                    lemma_pending_removed(self.pending@, index as int);
                    assert forall|i: int| 0 <= i < index implies (
                    #[trigger] self.pending@.remove(index as int)[i]).deadline > now by {
                        assert(self.pending@[i].deadline > now);
                    }
                }
                assert(!requests@.contains(request_id));
                self.pending.remove(index);
                requests.push(request_id);
                proof {
                    assert(requests@[old_requests.len() as int] == request_id);
                    assert forall|id: u64| #[trigger] requests@.contains(id) <==> id == request_id
                        || old_requests.contains(id) by {
                        if requests@.contains(id) {
                            let i = choose|i: int| 0 <= i < requests@.len() && requests@[i] == id;
                            if i < old_requests.len() {
                                assert(old_requests[i] == id);
                            }
                        }
                        if old_requests.contains(id) {
                            let i = choose|i: int|
                                0 <= i < old_requests.len() && old_requests[i] == id;
                            assert(requests@[i] == id);
                        }
                    }
                    assert(self.pending() == old_pending.remove(request_id));
                }
            } else {
                index += 1;
            }
        }
        proof {
            assert forall|id: u64| #[trigger] self.pending().dom().contains(id) implies before[id].1
                > now by {
                let i = lemma_keyed_index(pending_entries(self.pending@), id);
                lemma_pending_entry(self.pending@, i);
            }
            assert(self.pending() =~= unexpired_requests(before, now));
        }
        requests
    }

    fn expire_transfers(&mut self, now: u64) -> (transfers: Vec<String>)
        requires
            old(self).wf(),
        ensures
            final(self).wf(),
            final(self).queued_actions() == old(self).queued_actions(),
            final(self).pending() == old(self).pending(),
            final(self).approved() == unexpired_transfers(old(self).approved(), now),
            texts(transfers@).no_duplicates(),
            forall|id: Seq<char>|
                #[trigger] lists_text(transfers@, id) <==> old(self).approved().dom().contains(id)
                    && old(self).approved()[id] <= now,
    {
        let ghost before = self.approved();
        let mut transfers: Vec<String> = Vec::new();
        let mut index: usize = 0;
        while index < self.approved.len()
            invariant
                self.wf(),
                index <= self.approved@.len(),
                before == old(self).approved(),
                self.queued_actions() == old(self).queued_actions(),
                self.pending() == old(self).pending(),
                forall|i: int| 0 <= i < index ==> (#[trigger] self.approved@[i]).deadline > now,
                forall|id: Seq<char>| #[trigger]
                    self.approved().dom().contains(id) ==> before.dom().contains(id)
                        && before[id] == self.approved()[id],
                forall|id: Seq<char>| #[trigger]
                    before.dom().contains(id) ==> self.approved().dom().contains(id)
                        || exists|i: int|
                        0 <= i < transfers@.len() && (#[trigger] transfers@[i])@ == id,
                texts(transfers@).no_duplicates(),
                forall|i: int|
                    0 <= i < transfers@.len() ==> before.dom().contains(
                        (#[trigger] transfers@[i])@,
                    ) && before[transfers@[i]@] <= now && !self.approved().dom().contains(
                        transfers@[i]@,
                    ),
            decreases self.approved@.len() - index,
        {
            if self.approved[index].deadline <= now {
                let ghost old_approved = self.approved();
                let ghost old_transfers = transfers@;
                proof {
                    lemma_approved_entry(self.approved@, index as int);
                    lemma_approved_removed(self.approved@, index as int);
                    assert forall|i: int| 0 <= i < index implies (
                    #[trigger] self.approved@.remove(index as int)[i]).deadline > now by {
                        assert(self.approved@[i].deadline > now);
                    }
                }
                let entry = self.approved.remove(index);
                let ghost transfer_id = entry.transfer_id@;
                transfers.push(entry.transfer_id);
                proof {
                    assert(texts(transfers@) =~= texts(old_transfers).push(transfer_id));
                    assert(self.approved() == old_approved.remove(transfer_id));
                    assert forall|id: Seq<char>| #[trigger] before.dom().contains(
                        id,
                    ) implies self.approved().dom().contains(id) || exists|i: int|
                        0 <= i < transfers@.len() && (#[trigger] transfers@[i])@ == id by {
                        if id == transfer_id {
                            assert(transfers@[old_transfers.len() as int]@ == id);
                        } else if !old_approved.dom().contains(id) {
                            let i = choose|i: int|
                                0 <= i < old_transfers.len() && (#[trigger] old_transfers[i])@ == id;
                            assert(transfers@[i]@ == id);
                        }
                    }
                    assert forall|i: int| 0 <= i < transfers@.len() implies before.dom().contains(
                        (#[trigger] transfers@[i])@,
                    ) && before[transfers@[i]@] <= now && !self.approved().dom().contains(
                        transfers@[i]@,
                    ) by {
                        if i < old_transfers.len() {
                            assert(transfers@[i] == old_transfers[i]);
                        }
                    }
                }
            } else {
                index += 1;
            }
        }
        proof {
            assert forall|id: Seq<char>| #[trigger] self.approved().dom().contains(
                id,
            ) implies before[id] > now by {
                let i = lemma_keyed_index(approved_entries(self.approved@), id);
                lemma_approved_entry(self.approved@, i);
            }
            assert(self.approved() =~= unexpired_transfers(before, now));
        }
        transfers
    }

    /// Adds actions behind those that are still to be done.
    pub fn enqueue(&mut self, actions: Vec<TransferAction>)
        requires
            old(self).wf(),
        ensures
            final(self).wf(),
            final(self).pending() == old(self).pending(),
            final(self).approved() == old(self).approved(),
            final(self).queued_actions() == old(self).queued_actions() + actions@,
    {
        let mut added: VecDeque<TransferAction> = VecDeque::new();
        let mut rest = actions;
        let ghost all = actions@;
        while rest.len() > 0
            invariant
                rest@ + added@ =~= all,
            decreases rest@.len(),
        {
            let ghost before = rest@;
            match rest.pop() {
                Some(action) => {
                    added.push_front(action);
                    proof {
                        assert(before =~= rest@.push(action));
                    }
                },
                None => {},
            }
        }
        proof {
            assert(added@ =~= all);
        }
        self.actions.append(&mut added);
        proof {
            assert(self.actions@ =~= old(self).actions@ + all);
        }
    }

    /// The next thing to do. A request for consent waits from now on.
    pub fn next_step(&mut self, now: u64) -> (step: TransferStep)
        requires
            old(self).wf(),
            now <= u64::MAX - APPROVAL_TIMEOUT,
        ensures
            final(self).wf(),
            final(self).approved() == old(self).approved(),
            old(self).queued_actions().len() == 0 ==> step is Done && final(self).queued_actions()
                == old(self).queued_actions() && final(self).pending() == old(self).pending(),
            old(self).queued_actions().len() > 0 ==> {
                &&& final(self).queued_actions() == old(self).queued_actions().drop_first()
                &&& step == action_step(old(self).queued_actions()[0], now)
                &&& final(self).pending() == waiting_after(
                    old(self).pending(),
                    old(self).queued_actions()[0],
                    now,
                )
            },
    {
        let ghost before = self.actions@;
        match self.actions.pop_front() {
            None => TransferStep::Done,
            Some(action) => {
                proof {
                    assert(self.actions@ =~= before.drop_first());
                }
                match action {
                    TransferAction::Write(bytes) => TransferStep::Write(bytes),
                    TransferAction::Execute(work) => TransferStep::Execute(work),
                    TransferAction::Abort(work) => TransferStep::Abort(work),
                    TransferAction::RequestApproval(request) => {
                        let expires_at: u64 = now + APPROVAL_TIMEOUT;
                        self.forget_pending(request.request_id);
                        let entry = PendingApproval {
                            request_id: request.request_id,
                            transfer_id: request.transfer_id.clone(),
                            deadline: expires_at,
                        };
                        proof {
                            if has_key(pending_entries(self.pending@), entry.request_id) {
                                assert(self.pending().dom().contains(entry.request_id));
                            }
                            lemma_pending_pushed(self.pending@, entry);
                            assert(old(self).pending().remove(entry.request_id).insert(
                                entry.request_id,
                                (entry.transfer_id@, expires_at),
                            ) =~= old(self).pending().insert(
                                entry.request_id,
                                (entry.transfer_id@, expires_at),
                            ));
                        }
                        self.pending.push(entry);
                        TransferStep::Prompt { request, expires_at }
                    },
                }
            },
        }
    }
}

/// Whether any of the actions lets the filesystem do something, which keeps an
/// approved transfer from counting as idle.
pub fn executes_any(actions: &Vec<TransferAction>) -> (executes: bool)
    ensures
        executes == exists|i: int| 0 <= i < actions@.len() && (#[trigger] actions@[i]) is Execute,
{
    let mut index: usize = 0;
    while index < actions.len()
        invariant
            index <= actions@.len(),
            forall|i: int| 0 <= i < index ==> !((#[trigger] actions@[i]) is Execute),
        decreases actions@.len() - index,
    {
        match &actions[index] {
            TransferAction::Execute(_) => return true,
            _ => {},
        }
        index += 1;
    }
    false
}

/// Exactly one decision on a request counts: once it was decided, it is unknown to
/// every later decision.
pub proof fn law_one_decision_per_request(
    pending: Map<u64, (Seq<char>, u64)>,
    request_id: u64,
    other: u64,
)
    ensures
        !pending.remove(request_id).dom().contains(request_id),
        other != request_id ==> (pending.remove(request_id).dom().contains(other)
            <==> pending.dom().contains(other)),
{
}

/// What has run out of time is forgotten, and nothing else: a request or a transfer stays
/// exactly while its time lies ahead, as it was.
pub proof fn law_only_the_overdue_expire(
    pending: Map<u64, (Seq<char>, u64)>,
    approved: Map<Seq<char>, u64>,
    now: u64,
    request: u64,
    transfer: Seq<char>,
)
    ensures
        unexpired_requests(pending, now).dom().contains(request) <==> pending.dom().contains(request)
            && now < pending[request].1,
        unexpired_requests(pending, now).dom().contains(request) ==> unexpired_requests(
            pending,
            now,
        )[request] == pending[request],
        unexpired_transfers(approved, now).dom().contains(transfer) <==> approved.dom().contains(
            transfer,
        ) && now < approved[transfer],
        unexpired_transfers(approved, now).dom().contains(transfer) ==> unexpired_transfers(
            approved,
            now,
        )[transfer] == approved[transfer],
{
}

/// What ends a transfer from this side is told by a status that begins with the name of
/// its system error: too late, too idle, or the end of the session. At most 512 commands
/// wait for the worker.
pub proof fn law_transfers_end_with_a_status()
    ensures
        STATUS_APPROVAL_EXPIRED@ == "ETIMEDOUT:Transfer approval expired"@,
        STATUS_SESSION_CLOSED@ == "ECANCELED:Terminal session closed"@,
        STATUS_SESSION_IDLE@ == "ETIMEDOUT:Transfer session idle"@,
        COMMAND_QUEUE_CAPACITY == 512,
{
}

} // verus!
