//! Prompts for consent to file transfers, as clients see them.
//!
//! Times are nanoseconds of a monotonic clock.

use vstd::prelude::*;

use crate::daemon::transfer::{
    ApprovalRequest, TransferDirection, DEFAULT_MAX_FILES_PER_SESSION, DEFAULT_MAX_FILE_BYTES,
    DEFAULT_MAX_SESSION_BYTES,
};
use crate::text::{copy_texts, texts};

verus! {

pub const NANOS_PER_MILLI: u64 = 1_000_000;

/// A request for consent as it is sent to clients.
#[derive(Debug, PartialEq, Eq)]
pub struct ApprovalEvent {
    pub request_id: u64,
    pub transfer_id: String,
    pub direction: TransferDirection,
    pub paths: Vec<String>,
    pub expires_in_ms: u64,
    pub max_files: u32,
    pub max_file_bytes: u64,
    pub max_session_bytes: u64,
}

/// A request for consent and when it expires.
#[derive(Debug)]
pub struct TtyTransferPrompt {
    request: ApprovalRequest,
    expires_at: u64,
}

/// The requests that clients have to be shown.
#[derive(Debug)]
pub struct ConsentRegistry {
    prompts: Vec<TtyTransferPrompt>,
}

/// The whole milliseconds that remain, at least one.
pub open spec fn remaining_millis(expires_at: u64, now: u64) -> int {
    let millis = (expires_at - now) / NANOS_PER_MILLI as int;
    if millis < 1 {
        1
    } else {
        millis
    }
}

/// The event that shows a request at a point of time before its end.
pub open spec fn shows(
    event: ApprovalEvent,
    request: ApprovalRequest,
    expires_at: u64,
    now: u64,
) -> bool {
    &&& event.request_id == request.request_id
    &&& event.transfer_id@ == request.transfer_id@
    &&& event.direction == request.direction
    &&& texts(event.paths@) == texts(request.paths@)
    &&& event.expires_in_ms == remaining_millis(expires_at, now)
    &&& event.max_files == DEFAULT_MAX_FILES_PER_SESSION
    &&& event.max_file_bytes == DEFAULT_MAX_FILE_BYTES
    &&& event.max_session_bytes == DEFAULT_MAX_SESSION_BYTES
}

impl TtyTransferPrompt {
    pub closed spec fn spec_request(&self) -> ApprovalRequest {
        self.request
    }

    pub closed spec fn spec_expires_at(&self) -> u64 {
        self.expires_at
    }

    pub fn new(request: ApprovalRequest, expires_at: u64) -> (prompt: TtyTransferPrompt)
        ensures
            prompt.spec_request() == request,
            prompt.spec_expires_at() == expires_at,
    {
        TtyTransferPrompt { request, expires_at }
    }

    /// The event that shows the request now, with the time that remains; none once
    /// it has expired.
    pub fn event_with_remaining_time(&self, now: u64) -> (event: Option<ApprovalEvent>)
        ensures
            match event {
                Some(event) => now < self.spec_expires_at() && shows(
                    event,
                    self.spec_request(),
                    self.spec_expires_at(),
                    now,
                ),
                None => now >= self.spec_expires_at(),
            },
    {
        if now >= self.expires_at {
            return None;
        }
        let remaining: u64 = (self.expires_at - now) / NANOS_PER_MILLI;
        let expires_in_ms: u64 = if remaining < 1 {
            1
        } else {
            remaining
        };
        Some(
            ApprovalEvent {
                request_id: self.request.request_id,
                transfer_id: self.request.transfer_id.clone(),
                direction: self.request.direction,
                paths: copy_texts(&self.request.paths),
                expires_in_ms,
                max_files: DEFAULT_MAX_FILES_PER_SESSION as u32,
                max_file_bytes: DEFAULT_MAX_FILE_BYTES,
                max_session_bytes: DEFAULT_MAX_SESSION_BYTES,
            },
        )
    }
}

/// The prompts are ordered by request, each request once.
pub open spec fn ordered_prompts(prompts: Seq<TtyTransferPrompt>) -> bool {
    forall|i: int, j: int|
        0 <= i < j < prompts.len() ==> (#[trigger] prompts[i]).spec_request().request_id < (
        #[trigger] prompts[j]).spec_request().request_id
}

/// The prompts that have not expired.
pub open spec fn live_prompts(prompts: Seq<TtyTransferPrompt>, now: u64) -> Seq<TtyTransferPrompt> {
    prompts.filter(|prompt: TtyTransferPrompt| now < prompt.spec_expires_at())
}

impl ConsentRegistry {
    /// The registered prompts, by request.
    pub closed spec fn prompts(&self) -> Seq<TtyTransferPrompt> {
        self.prompts@
    }

    pub open spec fn wf(&self) -> bool {
        ordered_prompts(self.prompts())
    }

    pub open spec fn holds(&self, request_id: u64) -> bool {
        exists|i: int|
            0 <= i < self.prompts().len() && (
            #[trigger] self.prompts()[i]).spec_request().request_id == request_id
    }

    pub fn new() -> (registry: ConsentRegistry)
        ensures
            registry.wf(),
            registry.prompts() == Seq::<TtyTransferPrompt>::empty(),
    {
        ConsentRegistry { prompts: Vec::new() }
    }

    /// How many prompts are for smaller requests.
    fn place_of(&self, request_id: u64) -> (place: usize)
        requires
            self.wf(),
        ensures
            place <= self.prompts@.len(),
            forall|i: int|
                0 <= i < place ==> (#[trigger] self.prompts@[i]).spec_request().request_id
                    < request_id,
            forall|i: int|
                place <= i < self.prompts@.len() ==> (
                #[trigger] self.prompts@[i]).spec_request().request_id >= request_id,
    {
        let mut place: usize = 0;
        while place < self.prompts.len() && self.prompts[place].request.request_id < request_id
            invariant
                self.wf(),
                place <= self.prompts@.len(),
                forall|i: int|
                    0 <= i < place ==> (#[trigger] self.prompts@[i]).spec_request().request_id
                        < request_id,
            decreases self.prompts@.len() - place,
        {
            place += 1;
        }
        proof {
            assert forall|i: int| place <= i < self.prompts@.len() implies (
            #[trigger] self.prompts@[i]).spec_request().request_id >= request_id by {
                if place < i {
                    assert(self.prompts@[place as int].spec_request().request_id
                        < self.prompts@[i].spec_request().request_id);
                }
            }
        }
        place
    }

    /// Whether a decision on the request is awaited.
    pub fn contains(&self, request_id: u64) -> (found: bool)
        requires
            self.wf(),
        ensures
            found == self.holds(request_id),
    {
        let place = self.place_of(request_id);
        let found = place < self.prompts.len() && self.prompts[place].request.request_id
            == request_id;
        proof {
            if found {
                assert(self.prompts()[place as int].spec_request().request_id == request_id);
            } else {
                assert forall|i: int| 0 <= i < self.prompts().len() implies (
                #[trigger] self.prompts()[i]).spec_request().request_id != request_id by {
                    if i > place {
                        assert(self.prompts@[place as int].spec_request().request_id
                            < self.prompts@[i].spec_request().request_id);
                    }
                }
            }
        }
        found
    }

    /// Whether a client's decision is handed to the worker: only on a request that
    /// clients were shown, and only where there is a worker.
    pub fn forwards_decision(&self, request_id: u64, controller_available: bool) -> (forwards: bool)
        requires
            self.wf(),
        ensures
            forwards == (self.holds(request_id) && controller_available),
    {
        self.contains(request_id) && controller_available
    }

    /// The prompt of a request is no longer shown.
    pub fn clear(&mut self, request_id: u64)
        requires
            old(self).wf(),
        ensures
            final(self).wf(),
            !final(self).holds(request_id),
            forall|prompt: TtyTransferPrompt|
                prompt.spec_request().request_id != request_id ==> (
                #[trigger] final(self).prompts().contains(prompt) <==> old(self).prompts().contains(
                    prompt,
                )),
    {
        let place = self.place_of(request_id);
        let ghost before = self.prompts@;
        if place < self.prompts.len() && self.prompts[place].request.request_id == request_id {
            self.prompts.remove(place);
            proof {
                let after = self.prompts@;
                assert forall|i: int, j: int| 0 <= i < j < after.len() implies (
                #[trigger] after[i]).spec_request().request_id < (
                #[trigger] after[j]).spec_request().request_id by {
                    let k = if i < place { i } else { i + 1 };
                    let l = if j < place { j } else { j + 1 };
                    assert(after[i] == before[k] && after[j] == before[l]);
                }
                assert forall|i: int| 0 <= i < after.len() implies (
                #[trigger] after[i]).spec_request().request_id != request_id by {
                    let k = if i < place { i } else { i + 1 };
                    assert(after[i] == before[k]);
                    if k > place {
                        assert(before[place as int].spec_request().request_id
                            < before[k].spec_request().request_id);
                    }
                }
                assert forall|prompt: TtyTransferPrompt|
                    prompt.spec_request().request_id != request_id implies (
                #[trigger] after.contains(prompt) <==> before.contains(prompt)) by {
                    if after.contains(prompt) {
                        let i = choose|i: int| 0 <= i < after.len() && after[i] == prompt;
                        let k = if i < place { i } else { i + 1 };
                        assert(before[k] == prompt);
                    }
                    if before.contains(prompt) {
                        let k = choose|k: int| 0 <= k < before.len() && before[k] == prompt;
                        let i = if k < place { k } else { k - 1 };
                        assert(after[i] == prompt);
                    }
                }
            }
        } else {
            proof {
                assert forall|i: int| 0 <= i < before.len() implies (
                #[trigger] before[i]).spec_request().request_id != request_id by {
                    if i > place {
                        assert(before[place as int].spec_request().request_id
                            < before[i].spec_request().request_id);
                    }
                }
            }
        }
    }

    /// The session closed: nothing is shown.
    pub fn clear_all(&mut self)
        requires
            old(self).wf(),
        ensures
            final(self).wf(),
            final(self).prompts() == Seq::<TtyTransferPrompt>::empty(),
    {
        self.prompts.clear();
    }

    /// Shows a request: the event for the clients that are connected. A request that
    /// has expired already is not shown. An earlier prompt for the same request is
    /// replaced.
    pub fn register(&mut self, request: ApprovalRequest, expires_at: u64, now: u64) -> (event: Option<
        ApprovalEvent,
    >)
        requires
            old(self).wf(),
        ensures
            final(self).wf(),
            match event {
                Some(event) => {
                    &&& now < expires_at
                    &&& shows(event, request, expires_at, now)
                    &&& final(self).holds(request.request_id)
                    &&& forall|prompt: TtyTransferPrompt| #[trigger]
                        final(self).prompts().contains(prompt) <==> (if prompt.spec_request().request_id
                            == request.request_id {
                            prompt.spec_request() == request && prompt.spec_expires_at()
                                == expires_at
                        } else {
                            old(self).prompts().contains(prompt)
                        })
                },
                None => now >= expires_at && final(self).prompts() == old(self).prompts(),
            },
    {
        let request_id: u64 = request.request_id;
        let prompt = TtyTransferPrompt { request, expires_at };
        let event = match prompt.event_with_remaining_time(now) {
            Some(event) => event,
            None => return None,
        };
        self.clear(request_id);
        let ghost before = self.prompts@;
        let place = self.place_of(request_id);
        self.prompts.insert(place, prompt);
        proof {
            let after = self.prompts@;
            assert(after =~= before.insert(place as int, prompt));
            assert forall|i: int| 0 <= i < before.len() implies (
            #[trigger] before[i]).spec_request().request_id != request_id by {}
            assert forall|i: int, j: int| 0 <= i < j < after.len() implies (
            #[trigger] after[i]).spec_request().request_id < (
            #[trigger] after[j]).spec_request().request_id by {
                if i == place {
                    assert(after[j] == before[j - 1]);
                } else if j == place {
                    assert(after[i] == before[i]);
                } else {
                    let k = if i < place { i } else { i - 1 };
                    let l = if j < place { j } else { j - 1 };
                    assert(after[i] == before[k] && after[j] == before[l]);
                }
            }
            assert(after[place as int] == prompt);
            assert forall|other: TtyTransferPrompt| #[trigger] after.contains(other) <==> (
            if other.spec_request().request_id == request_id {
                other == prompt
            } else {
                before.contains(other)
            }) by {
                if after.contains(other) {
                    let i = choose|i: int| 0 <= i < after.len() && after[i] == other;
                    if i < place {
                        assert(before[i] == other);
                    } else if i > place {
                        assert(before[i - 1] == other);
                    }
                }
                if before.contains(other) {
                    let i = choose|i: int| 0 <= i < before.len() && before[i] == other;
                    if i < place {
                        assert(after[i] == other);
                    } else {
                        assert(after[i + 1] == other);
                    }
                }
            }
        }
        Some(event)
    }

    /// What a client that connects now is shown: the requests that have not expired,
    /// by number.
    pub fn snapshot(&self, now: u64) -> (events: Vec<ApprovalEvent>)
        requires
            self.wf(),
        ensures
            events@.len() == live_prompts(self.prompts(), now).len(),
            forall|i: int|
                0 <= i < events@.len() ==> shows(
                    #[trigger] events@[i],
                    live_prompts(self.prompts(), now)[i].spec_request(),
                    live_prompts(self.prompts(), now)[i].spec_expires_at(),
                    now,
                ),
            forall|i: int, j: int|
                0 <= i < j < events@.len() ==> (#[trigger] events@[i]).request_id < (
                #[trigger] events@[j]).request_id,
    {
        let mut events: Vec<ApprovalEvent> = Vec::new();
        let mut index: usize = 0;
        proof {
            reveal(Seq::filter);
            assert(live_prompts(self.prompts@.take(0), now) =~= Seq::<TtyTransferPrompt>::empty());
        }
        while index < self.prompts.len()
            invariant
                self.wf(),
                index <= self.prompts@.len(),
                events@.len() == live_prompts(self.prompts@.take(index as int), now).len(),
                forall|i: int|
                    0 <= i < events@.len() ==> shows(
                        #[trigger] events@[i],
                        live_prompts(self.prompts@.take(index as int), now)[i].spec_request(),
                        live_prompts(self.prompts@.take(index as int), now)[i].spec_expires_at(),
                        now,
                    ),
                forall|i: int, j: int|
                    0 <= i < j < events@.len() ==> (#[trigger] events@[i]).request_id < (
                    #[trigger] events@[j]).request_id,
                forall|i: int|
                    0 <= i < events@.len() ==> exists|k: int|
                        0 <= k < index && (#[trigger] self.prompts@[k]).spec_request().request_id
                            == (#[trigger] events@[i]).request_id,
            decreases self.prompts@.len() - index,
        {
            let ghost before = live_prompts(self.prompts@.take(index as int), now);
            let ghost old_events = events@;
            proof {
                reveal(Seq::filter);
                assert(self.prompts@.take(index + 1).drop_last() =~= self.prompts@.take(
                    index as int,
                ));
                assert(self.prompts@.take(index + 1).last() == self.prompts@[index as int]);
            }
            match self.prompts[index].event_with_remaining_time(now) {
                Some(event) => {
                    events.push(event);
                    proof {
                        let after = live_prompts(self.prompts@.take(index + 1), now);
                        assert(after =~= before.push(self.prompts@[index as int]));
                        assert forall|i: int| 0 <= i < events@.len() implies shows(
                            #[trigger] events@[i],
                            after[i].spec_request(),
                            after[i].spec_expires_at(),
                            now,
                        ) by {
                            if i < old_events.len() {
                                assert(events@[i] == old_events[i] && after[i] == before[i]);
                            }
                        }
                        assert forall|i: int, j: int| 0 <= i < j < events@.len() implies (
                        #[trigger] events@[i]).request_id < (#[trigger] events@[j]).request_id by {
                            assert(events@[i] == old_events[i]);
                            if j < old_events.len() {
                                assert(events@[j] == old_events[j]);
                            } else {
                                let k = choose|k: int|
                                    0 <= k < index && (
                                    #[trigger] self.prompts@[k]).spec_request().request_id
                                        == old_events[i].request_id;
                                assert(self.prompts@[k].spec_request().request_id
                                    < self.prompts@[index as int].spec_request().request_id);
                            }
                        }
                        assert forall|i: int| 0 <= i < events@.len() implies exists|k: int|
                            0 <= k < index + 1 && (
                            #[trigger] self.prompts@[k]).spec_request().request_id == (
                            #[trigger] events@[i]).request_id by {
                            if i < old_events.len() {
                                assert(events@[i] == old_events[i]);
                                let k = choose|k: int|
                                    0 <= k < index && (
                                    #[trigger] self.prompts@[k]).spec_request().request_id
                                        == old_events[i].request_id;
                                assert(self.prompts@[k].spec_request().request_id
                                    == events@[i].request_id);
                            } else {
                                assert(self.prompts@[index as int].spec_request().request_id
                                    == events@[i].request_id);
                            }
                        }
                    }
                },
                None => {
                    proof {
                        assert(live_prompts(self.prompts@.take(index + 1), now) =~= before);
                        assert forall|i: int| 0 <= i < events@.len() implies exists|k: int|
                            0 <= k < index + 1 && (
                            #[trigger] self.prompts@[k]).spec_request().request_id == (
                            #[trigger] events@[i]).request_id by {
                            let k = choose|k: int|
                                0 <= k < index && (
                                #[trigger] self.prompts@[k]).spec_request().request_id
                                    == events@[i].request_id;
                            assert(self.prompts@[k].spec_request().request_id
                                == events@[i].request_id);
                        }
                    }
                },
            }
            index += 1;
        }
        proof {
            assert(self.prompts@.take(self.prompts@.len() as int) =~= self.prompts@);
        }
        events
    }
}

/// A client is told how many whole milliseconds remain, counted down, but never none
/// before the end; the time that is told never grows.
pub proof fn law_remaining_time_is_counted_down(expires_at: u64, now: u64, later: u64)
    requires
        now <= later < expires_at,
    ensures
        remaining_millis(expires_at, now) >= 1,
        expires_at - now >= 1_000_000 ==> remaining_millis(expires_at, now) * 1_000_000
            <= expires_at - now < (remaining_millis(expires_at, now) + 1) * 1_000_000,
        expires_at - now < 1_000_000 ==> remaining_millis(expires_at, now) == 1,
        remaining_millis(expires_at, later) <= remaining_millis(expires_at, now),
{
}

/// A request is shown as it is: under its number, for its transfer, in its direction and
/// with its paths. The limits that are told are those of every session: 256 files, four
/// gigabytes for each and sixteen for all.
pub proof fn law_requests_are_shown_as_they_are(
    event: ApprovalEvent,
    request: ApprovalRequest,
    expires_at: u64,
    now: u64,
    path: int,
)
    requires
        shows(event, request, expires_at, now),
    ensures
        event.request_id == request.request_id,
        event.transfer_id@ == request.transfer_id@,
        event.direction == TransferDirection::Send <==> request.direction
            == TransferDirection::Send,
        event.direction == TransferDirection::Receive <==> request.direction
            == TransferDirection::Receive,
        event.paths@.len() == request.paths@.len(),
        0 <= path < request.paths@.len() ==> event.paths@[path]@ == request.paths@[path]@,
        event.expires_in_ms == remaining_millis(expires_at, now),
        event.max_files == 256,
        event.max_file_bytes == 4 * 1024 * 1024 * 1024,
        event.max_session_bytes == 16 * 1024 * 1024 * 1024,
{
    assert(texts(event.paths@).len() == event.paths@.len());
    assert(texts(request.paths@).len() == request.paths@.len());
    if 0 <= path < request.paths@.len() {
        assert(texts(event.paths@)[path] == event.paths@[path]@);
        assert(texts(request.paths@)[path] == request.paths@[path]@);
    }
}

/// A client that connects is shown exactly the requests that have not expired.
pub proof fn law_live_requests_are_shown(
    prompts: Seq<TtyTransferPrompt>,
    now: u64,
    prompt: TtyTransferPrompt,
)
    ensures
        live_prompts(prompts, now).contains(prompt) <==> prompts.contains(prompt) && now
            < prompt.spec_expires_at(),
    decreases prompts.len(),
{
    reveal(Seq::filter);
    if prompts.len() > 0 {
        let front = prompts.drop_last();
        let kept = live_prompts(front, now);
        let all = live_prompts(prompts, now);
        law_live_requests_are_shown(front, now, prompt);
        assert(prompts =~= front.push(prompts.last()));
        if now < prompts.last().spec_expires_at() {
            assert(all =~= kept.push(prompts.last()));
            if all.contains(prompt) {
                let i = choose|i: int| 0 <= i < all.len() && all[i] == prompt;
                if i < kept.len() {
                    assert(kept[i] == prompt);
                }
            }
            if kept.contains(prompt) {
                let i = choose|i: int| 0 <= i < kept.len() && kept[i] == prompt;
                assert(all[i] == prompt);
            }
            if prompts.last() == prompt {
                assert(all[kept.len() as int] == prompt);
            }
        } else {
            assert(all =~= kept);
        }
        if prompts.contains(prompt) {
            let i = choose|i: int| 0 <= i < prompts.len() && prompts[i] == prompt;
            if i < front.len() {
                assert(front[i] == prompt);
            }
        }
        if front.contains(prompt) {
            let i = choose|i: int| 0 <= i < front.len() && front[i] == prompt;
            assert(prompts[i] == prompt);
        }
    }
}

/// A registry holds exactly the requests of its prompts; an empty one holds none.
pub proof fn law_prompted_requests_are_held(
    registry: ConsentRegistry,
    prompt: TtyTransferPrompt,
    request_id: u64,
)
    ensures
        registry.prompts().contains(prompt) ==> registry.holds(prompt.spec_request().request_id),
        registry.holds(request_id) ==> exists|held: TtyTransferPrompt| #[trigger]
            registry.prompts().contains(held) && held.spec_request().request_id == request_id,
        registry.prompts().len() == 0 ==> !registry.holds(request_id),
{
    if registry.holds(request_id) {
        let i = choose|i: int|
            0 <= i < registry.prompts().len() && (
            #[trigger] registry.prompts()[i]).spec_request().request_id == request_id;
        assert(registry.prompts().contains(registry.prompts()[i]));
    }
}

} // verus!
