//! The observation state of one service.
//!
//! Every change is recorded as a structured event. The hub keeps a bounded
//! history and an outbox; the events of the outbox are published by whoever
//! owns the hub, in order.
use super::ids::{number_after, IdCounter, OperationId, RequestId, TaskId};
use super::lifecycle::{ControlError, ServiceActivity, ServiceLifecycle};
use super::observation::{
    optional_text, OperationContext, OperationContextView, RuntimeEvent, RuntimeEventKind,
    RuntimeEventKindView, RuntimeEventView, ServiceSnapshot, ServiceSnapshotView, TaskSnapshot,
    TaskSnapshotView, TaskState,
};
use super::task::{TaskControl, TaskOutcome, TaskOutcomeView};
use crate::ordered_map::{
    lemma_every_key_is_listed, lemma_order_length, ordered_keys, OrderedMap,
};
use crate::outside::{all_cancelled, answered, cancel_requested};
use std::collections::VecDeque;
use std::sync::Arc;
use tokio_util::sync::CancellationToken;
use vstd::prelude::*;

verus! {

/// Requests cancellation of tokens, one after another.
pub fn cancel_tokens(tokens: &Vec<CancellationToken>)
    ensures
        all_cancelled(tokens@),
{
    let mut at: usize = 0;
    while at < tokens.len()
        invariant
            at <= tokens@.len(),
            forall|i: int| 0 <= i < at ==> cancel_requested(#[trigger] tokens@[i]),
        decreases tokens@.len() - at,
    {
        tokens[at].cancel();
        at = at + 1;
    }
}

/// What the hub knows of an active task.
pub struct ActiveTaskView {
    pub snapshot: TaskSnapshotView,
    pub cancellation: CancellationToken,
}

impl ActiveTaskView {
    /// What tells that the task was aborted.
    pub open spec fn aborted(self) -> RuntimeEventKindView {
        RuntimeEventKindView::TaskFinished {
            task: self.snapshot.id,
            operation: self.snapshot.operation_id,
            outcome: TaskOutcomeView::Aborted,
        }
    }
}

/// An active task with the token that cancels it.
pub struct ActiveTask {
    pub snapshot: TaskSnapshot,
    pub cancellation: CancellationToken,
}

impl View for ActiveTask {
    type V = ActiveTaskView;

    open spec fn view(&self) -> ActiveTaskView {
        ActiveTaskView { snapshot: self.snapshot@, cancellation: self.cancellation }
    }
}

/// A request that was accepted and has not ended.
#[derive(Debug, Clone, Copy)]
pub struct InFlightRequest {
    pub request: RequestId,
    pub operation: OperationId,
    pub observable: bool,
}

/// Everything that the hub needs to know of a task that starts.
pub struct TaskRegistration {
    pub operation: OperationId,
    pub trace_id: String,
    pub key: String,
    pub kind: String,
    pub summary: String,
    pub cancellable: bool,
    pub cancellation: CancellationToken,
}

impl TaskRegistration {
    /// The first snapshot of the task.
    pub open spec fn started(&self, id: TaskId, cancelled: bool, now: u64) -> TaskSnapshotView {
        TaskSnapshotView {
            id,
            operation_id: self.operation,
            trace_id: self.trace_id@,
            key: self.key@,
            kind: self.kind@,
            summary: self.summary@,
            state: if cancelled {
                TaskState::Cancelling
            } else {
                TaskState::Running
            },
            cancellable: self.cancellable,
            progress: None,
            milestone: None,
            blocked_on: None,
            started_at_ms: now,
        }
    }
}

/// The identities of active tasks in ascending order.
pub open spec fn task_order(tasks: Map<u64, ActiveTaskView>) -> Seq<u64> {
    ordered_keys::<TaskId>(tasks.dom())
}

/// The snapshots of active tasks in the order of their identities.
pub open spec fn task_listing(tasks: Map<u64, ActiveTaskView>) -> Seq<TaskSnapshotView> {
    task_order(tasks).map_values(|id: u64| tasks[id].snapshot)
}

/// The identities of requests in flight in ascending order.
pub open spec fn request_order(requests: Map<u64, InFlightRequest>) -> Seq<u64> {
    ordered_keys::<RequestId>(requests.dom())
}

/// The newest `limit` entries.
pub open spec fn newest(events: Seq<RuntimeEventView>, limit: nat) -> Seq<RuntimeEventView> {
    if events.len() > limit {
        events.skip(events.len() - limit)
    } else {
        events
    }
}

/// Idle without requests in flight, busy otherwise.
pub open spec fn activity_of(in_flight: usize) -> ServiceActivity {
    if in_flight == 0 {
        ServiceActivity::Idle
    } else {
        ServiceActivity::Busy
    }
}

/// Everything that a hub holds.
#[verifier::ext_equal]
pub struct HubView {
    pub snapshot: ServiceSnapshotView,
    pub tasks: Map<u64, ActiveTaskView>,
    pub requests: Map<u64, InFlightRequest>,
    pub history: Seq<RuntimeEventView>,
    pub history_limit: usize,
    pub outbox: Seq<RuntimeEventView>,
}

impl HubView {
    /// What every hub keeps: the snapshot lists the active tasks, counts the
    /// requests in flight and tells the activity, the history is bounded and its
    /// sequence numbers ascend up to the revision.
    pub open spec fn valid(self) -> bool {
        &&& self.recordable()
        &&& self.snapshot.active_tasks == task_listing(self.tasks)
        &&& self.snapshot.in_flight_requests == self.requests.dom().len()
        &&& self.snapshot.activity == activity_of(self.snapshot.in_flight_requests)
    }

    /// The part of validity that holds between a change and its event.
    pub open spec fn recordable(self) -> bool {
        &&& self.tasks.dom().finite()
        &&& forall|id: u64| #[trigger]
            self.tasks.contains_key(id) ==> self.tasks[id].snapshot.id@ == id
        &&& self.requests.dom().finite()
        &&& forall|id: u64| #[trigger]
            self.requests.contains_key(id) ==> self.requests[id].request@ == id
        &&& 1 <= self.history_limit
        &&& self.history.len() <= self.history_limit
        &&& forall|i: int, j: int|
            0 <= i < j < self.history.len() ==> (#[trigger] self.history[i]).sequence < (
            #[trigger] self.history[j]).sequence
        &&& forall|i: int|
            0 <= i < self.history.len() ==> (#[trigger] self.history[i]).sequence
                <= self.snapshot.revision
    }

    /// No counter overflows within `events` more events.
    pub open spec fn has_room(self, events: nat) -> bool {
        &&& self.snapshot.revision + events <= u64::MAX
        &&& self.snapshot.accepted_requests + events <= u64::MAX
        &&& self.snapshot.completed_requests + events <= u64::MAX
        &&& self.snapshot.rejected_requests + events <= u64::MAX
    }

    /// The hub after it recorded that `kind` happened.
    pub open spec fn recorded(self, kind: RuntimeEventKindView, now: u64) -> HubView {
        let revision = (self.snapshot.revision + 1) as u64;
        let event = RuntimeEventView {
            sequence: revision,
            timestamp_ms: now,
            service: self.snapshot.service,
            kind,
        };
        HubView {
            snapshot: ServiceSnapshotView {
                revision,
                active_tasks: task_listing(self.tasks),
                ..self.snapshot
            },
            history: newest(self.history.push(event), self.history_limit as nat),
            outbox: self.outbox.push(event),
            ..self
        }
    }

    /// The hub after the service entered `to`.
    pub open spec fn entered(self, to: ServiceLifecycle, reason: Seq<char>, now: u64) -> HubView {
        HubView {
            snapshot: ServiceSnapshotView { lifecycle: to, ..self.snapshot },
            ..self
        }.recorded(
            RuntimeEventKindView::LifecycleChanged { from: self.snapshot.lifecycle, to, reason },
            now,
        )
    }

    /// The hub after a task ended. An unknown task changes nothing.
    pub open spec fn task_ended(self, task: u64, outcome: TaskOutcomeView, now: u64) -> HubView {
        if self.tasks.contains_key(task) {
            HubView { tasks: self.tasks.remove(task), ..self }.recorded(
                RuntimeEventKindView::TaskFinished {
                    task: self.tasks[task].snapshot.id,
                    operation: self.tasks[task].snapshot.operation_id,
                    outcome,
                },
                now,
            )
        } else {
            self
        }
    }

    /// The hub after the given tasks ended, one after another.
    pub open spec fn tasks_ended(
        self,
        tasks: Seq<u64>,
        outcome: TaskOutcomeView,
        now: u64,
    ) -> HubView
        decreases tasks.len(),
    {
        if tasks.len() == 0 {
            self
        } else {
            self.tasks_ended(tasks.drop_last(), outcome, now).task_ended(tasks.last(), outcome, now)
        }
    }

    /// The hub after the given requests ended, one after another.
    pub open spec fn requests_ended(
        self,
        requests: Seq<u64>,
        error: Option<Seq<char>>,
        now: u64,
    ) -> HubView
        decreases requests.len(),
    {
        if requests.len() == 0 {
            self
        } else {
            self.requests_ended(requests.drop_last(), error, now).finished(
                requests.last(),
                error,
                now,
            )
        }
    }

    /// The hub after every task was aborted and every request in flight ended
    /// with `error`; nothing is queued.
    pub open spec fn emptied(self, error: Seq<char>, now: u64) -> HubView {
        let ended = self.tasks_ended(
            task_order(self.tasks),
            TaskOutcomeView::Aborted,
            now,
        ).requests_ended(request_order(self.requests), Some(error), now);
        HubView {
            snapshot: ServiceSnapshotView { queued_requests: 0, ..ended.snapshot },
            ..ended
        }
    }

    /// No task is active, nothing is queued and nothing is in flight.
    pub open spec fn holds_no_work(self) -> bool {
        &&& self.tasks.dom() == Set::<u64>::empty()
        &&& self.requests.dom() == Set::<u64>::empty()
        &&& self.snapshot.active_tasks.len() == 0
        &&& self.snapshot.queued_requests == 0
        &&& self.snapshot.in_flight_requests == 0
        &&& self.snapshot.activity == ServiceActivity::Idle
    }

    /// The number of events within which a hub can be emptied and enter its
    /// last stage.
    pub open spec fn closing_events(self) -> nat {
        self.tasks.dom().len() + 3 * self.requests.dom().len() + 1
    }

    /// The hub after the service failed.
    pub open spec fn failed(self, error: Seq<char>, now: u64) -> HubView {
        let emptied = self.emptied(error, now);
        HubView {
            snapshot: ServiceSnapshotView { last_error: Some(error), ..emptied.snapshot },
            ..emptied
        }.entered(ServiceLifecycle::Failed, error, now)
    }

    /// The hub after the root task was aborted by force.
    pub open spec fn force_aborted(self, reason: Seq<char>, now: u64) -> HubView {
        self.emptied(reason, now).entered(ServiceLifecycle::Stopped, reason, now)
    }

    /// The hub with another queue depth. Queue depths are not events.
    pub open spec fn with_queue(self, queued: usize) -> HubView {
        if queued == self.snapshot.queued_requests {
            self
        } else {
            HubView {
                snapshot: ServiceSnapshotView {
                    queued_requests: queued,
                    revision: (self.snapshot.revision + 1) as u64,
                    ..self.snapshot
                },
                ..self
            }
        }
    }

    /// The hub after one more request was queued.
    pub open spec fn enqueued(self) -> HubView {
        self.with_queue(
            if self.snapshot.queued_requests == usize::MAX {
                usize::MAX
            } else {
                (self.snapshot.queued_requests + 1) as usize
            },
        )
    }

    /// The hub after a request left the queue.
    pub open spec fn dequeued(self) -> HubView {
        self.with_queue(
            if self.snapshot.queued_requests == 0 {
                0
            } else {
                (self.snapshot.queued_requests - 1) as usize
            },
        )
    }

    /// The hub after the activity followed the requests in flight.
    pub open spec fn settled(self, now: u64) -> HubView {
        let from = self.snapshot.activity;
        let to = activity_of(self.snapshot.in_flight_requests);
        if from == to {
            self
        } else {
            HubView {
                snapshot: ServiceSnapshotView { activity: to, ..self.snapshot },
                ..self
            }.recorded(RuntimeEventKindView::ActivityChanged { from, to }, now)
        }
    }

    /// The edge of the activity between two hubs.
    pub open spec fn activity_edge(self, after: HubView) -> Option<ServiceActivity> {
        if self.snapshot.activity == after.snapshot.activity {
            None
        } else {
            Some(after.snapshot.activity)
        }
    }

    /// The hub after a request was accepted.
    pub open spec fn accepted(
        self,
        request: RequestId,
        operation: OperationContextView,
        now: u64,
    ) -> HubView {
        let announced = if operation.observable {
            self.recorded(RuntimeEventKindView::OperationStarted(operation), now)
        } else {
            self
        };
        let requests = announced.requests.insert(
            request@,
            InFlightRequest {
                request,
                operation: operation.id,
                observable: operation.observable,
            },
        );
        HubView {
            snapshot: ServiceSnapshotView {
                accepted_requests: (announced.snapshot.accepted_requests + 1) as u64,
                in_flight_requests: requests.dom().len() as usize,
                ..announced.snapshot
            },
            requests,
            ..announced
        }.recorded(
            RuntimeEventKindView::RequestAccepted { request, operation: operation.id },
            now,
        ).settled(now)
    }

    /// The hub after a request was turned away.
    pub open spec fn rejected(self, operation: OperationId, reason: Seq<char>, now: u64) -> HubView {
        HubView {
            snapshot: ServiceSnapshotView {
                rejected_requests: (self.snapshot.rejected_requests + 1) as u64,
                ..self.snapshot
            },
            ..self
        }.recorded(RuntimeEventKindView::RequestRejected { operation, reason }, now)
    }

    /// The hub after a request ended. A request that is not in flight changes
    /// nothing.
    pub open spec fn finished(self, request: u64, error: Option<Seq<char>>, now: u64) -> HubView {
        if !self.requests.contains_key(request) {
            self
        } else {
            let ended = self.requests[request];
            let requests = self.requests.remove(request);
            let settled = HubView {
                snapshot: ServiceSnapshotView {
                    in_flight_requests: requests.dom().len() as usize,
                    completed_requests: (self.snapshot.completed_requests + 1) as u64,
                    last_error: if error is Some {
                        error
                    } else {
                        self.snapshot.last_error
                    },
                    ..self.snapshot
                },
                requests,
                ..self
            }.recorded(
                RuntimeEventKindView::RequestFinished {
                    request: ended.request,
                    operation: ended.operation,
                    error,
                },
                now,
            ).settled(now);
            if ended.observable {
                settled.recorded(
                    RuntimeEventKindView::OperationFinished { operation: ended.operation, error },
                    now,
                )
            } else {
                settled
            }
        }
    }

    /// The hub with another snapshot of an active task; the same hub when the
    /// task is not active.
    pub open spec fn with_task(self, task: u64, snapshot: TaskSnapshotView) -> HubView {
        if self.tasks.contains_key(task) {
            HubView {
                tasks: self.tasks.insert(
                    task,
                    ActiveTaskView { snapshot, cancellation: self.tasks[task].cancellation },
                ),
                ..self
            }
        } else {
            self
        }
    }

    /// The hub after a task started.
    pub open spec fn task_started(
        self,
        snapshot: TaskSnapshotView,
        cancellation: CancellationToken,
        now: u64,
    ) -> HubView {
        HubView {
            tasks: self.tasks.insert(snapshot.id@, ActiveTaskView { snapshot, cancellation }),
            ..self
        }.recorded(RuntimeEventKindView::TaskStarted(snapshot), now)
    }

    /// The hub after a task reported its progress.
    pub open spec fn task_progressed(self, task: TaskId, progress: u8, now: u64) -> HubView {
        self.with_task(
            task@,
            TaskSnapshotView { progress: Some(progress), ..self.tasks[task@].snapshot },
        ).recorded(RuntimeEventKindView::TaskProgress { task, progress }, now)
    }

    /// The hub after a task reached a milestone.
    pub open spec fn task_reached(self, task: TaskId, message: Seq<char>, now: u64) -> HubView {
        self.with_task(
            task@,
            TaskSnapshotView { milestone: Some(message), ..self.tasks[task@].snapshot },
        ).recorded(RuntimeEventKindView::TaskMilestone { task, message }, now)
    }

    /// The hub after a task began or ceased to wait for something.
    pub open spec fn task_waits(
        self,
        task: TaskId,
        dependency: Option<Seq<char>>,
        now: u64,
    ) -> HubView {
        self.with_task(
            task@,
            TaskSnapshotView { blocked_on: dependency, ..self.tasks[task@].snapshot },
        ).recorded(RuntimeEventKindView::TaskBlocked { task, dependency }, now)
    }

    /// Why a task cannot be cancelled.
    pub open spec fn cancel_refusal(self, task: TaskId) -> Option<ControlError> {
        if !self.tasks.contains_key(task@) {
            Some(ControlError::TaskNotFound(task))
        } else if !self.tasks[task@].snapshot.cancellable {
            Some(ControlError::TaskNotCancellable(task))
        } else {
            None
        }
    }

    /// The hub after cancellation of a task was requested. A refused request
    /// changes nothing.
    pub open spec fn cancel_requested(self, task: TaskId, cause: Seq<char>, now: u64) -> HubView {
        if self.cancel_refusal(task) is Some {
            self
        } else {
            self.with_task(
                task@,
                TaskSnapshotView { state: TaskState::Cancelling, ..self.tasks[task@].snapshot },
            ).recorded(RuntimeEventKindView::TaskCancelRequested { task, cause }, now)
        }
    }

    /// The hub after cancellation of the given tasks was requested, one after
    /// another.
    pub open spec fn cancels_requested(self, tasks: Seq<u64>, cause: Seq<char>, now: u64) -> HubView
        decreases tasks.len(),
    {
        if tasks.len() == 0 {
            self
        } else {
            let before = self.cancels_requested(tasks.drop_last(), cause, now);
            before.cancel_requested(before.tasks[tasks.last()].snapshot.id, cause, now)
        }
    }

    /// The tokens of the cancellable ones among the given tasks.
    pub open spec fn tokens_of(self, tasks: Seq<u64>) -> Seq<CancellationToken>
        decreases tasks.len(),
    {
        if tasks.len() == 0 {
            Seq::empty()
        } else {
            let before = self.tokens_of(tasks.drop_last());
            if self.tasks[tasks.last()].snapshot.cancellable {
                before.push(self.tasks[tasks.last()].cancellation)
            } else {
                before
            }
        }
    }

    /// Which tokens are cancelled depends on the active tasks alone.
    pub proof fn lemma_tokens_of(self, other: HubView, tasks: Seq<u64>)
        requires
            self.tasks == other.tasks,
        ensures
            self.tokens_of(tasks) == other.tokens_of(tasks),
        decreases tasks.len(),
    {
        if tasks.len() > 0 {
            self.lemma_tokens_of(other, tasks.drop_last());
        }
    }

    proof fn lemma_recorded(self, kind: RuntimeEventKindView, now: u64)
        requires
            self.recordable(),
            self.snapshot.revision < u64::MAX,
        ensures
            self.recorded(kind, now).recordable(),
    {
    }
}

/// The observation state of one service.
pub struct ObservationHub {
    snapshot: ServiceSnapshot,
    tasks: OrderedMap<TaskId, ActiveTask>,
    requests: OrderedMap<RequestId, InFlightRequest>,
    history: VecDeque<Arc<RuntimeEvent>>,
    history_limit: usize,
    outbox: Vec<Arc<RuntimeEvent>>,
}

impl View for ObservationHub {
    type V = HubView;

    closed spec fn view(&self) -> HubView {
        HubView {
            snapshot: self.snapshot@,
            tasks: self.tasks@.map_values(|task: ActiveTask| task@),
            requests: self.requests@,
            history: self.history@.map_values(|event: Arc<RuntimeEvent>| event@),
            history_limit: self.history_limit,
            outbox: self.outbox@.map_values(|event: Arc<RuntimeEvent>| event@),
        }
    }
}

impl ObservationHub {
    spec fn consistent(&self) -> bool {
        self.tasks.wf() && self.requests.wf() && self@.recordable()
    }

    /// The hub is valid and its tasks are in order.
    pub closed spec fn wf(&self) -> bool {
        self.tasks.wf() && self.requests.wf() && self@.valid()
    }

    /// A well-formed hub is valid.
    pub proof fn lemma_valid(&self)
        requires
            self.wf(),
        ensures
            self@.valid(),
    {
    }

    /// The hub of a service that is about to initialize. The history holds at
    /// least one event.
    pub fn new(service: &str, domain: &str, history_limit: usize) -> (hub: Self)
        ensures
            hub.wf(),
            hub@ == (HubView {
                snapshot: ServiceSnapshotView {
                    revision: 0,
                    service: service@,
                    domain: domain@,
                    lifecycle: ServiceLifecycle::Initializing,
                    activity: ServiceActivity::Idle,
                    queued_requests: 0,
                    in_flight_requests: 0,
                    accepted_requests: 0,
                    completed_requests: 0,
                    rejected_requests: 0,
                    active_tasks: Seq::empty(),
                    last_error: None,
                },
                tasks: Map::empty(),
                requests: Map::empty(),
                history: Seq::empty(),
                history_limit: if history_limit == 0 {
                    1
                } else {
                    history_limit
                },
                outbox: Seq::empty(),
            }),
    {
        let hub = ObservationHub {
            snapshot: ServiceSnapshot {
                revision: 0,
                service: service.to_owned(),
                domain: domain.to_owned(),
                lifecycle: ServiceLifecycle::Initializing,
                activity: ServiceActivity::Idle,
                queued_requests: 0,
                in_flight_requests: 0,
                accepted_requests: 0,
                completed_requests: 0,
                rejected_requests: 0,
                active_tasks: Vec::new(),
                last_error: None,
            },
            tasks: OrderedMap::new(),
            requests: OrderedMap::new(),
            history: VecDeque::new(),
            history_limit: if history_limit == 0 {
                1
            } else {
                history_limit
            },
            outbox: Vec::new(),
        };
        proof {
            hub.tasks.lemma_listing();
            assert(hub@.tasks =~= Map::empty());
            assert(hub@.history =~= Seq::empty());
            assert(hub@.outbox =~= Seq::empty());
            assert(hub@.snapshot.active_tasks =~= Seq::empty());
            assert(hub@.tasks.dom() =~= hub.tasks@.dom());
            assert(task_listing(hub@.tasks) =~= Seq::empty());
        }
        hub
    }

    /// The current snapshot.
    pub fn snapshot(&self) -> (snapshot: ServiceSnapshot)
        ensures
            snapshot@ == self@.snapshot,
    {
        self.snapshot.clone()
    }

    /// The current lifecycle.
    pub fn current_lifecycle(&self) -> (lifecycle: ServiceLifecycle)
        ensures
            lifecycle == self@.snapshot.lifecycle,
    {
        self.snapshot.lifecycle
    }

    /// The current revision.
    pub fn revision(&self) -> (revision: u64)
        ensures
            revision == self@.snapshot.revision,
    {
        self.snapshot.revision
    }

    /// The retained events, oldest first.
    pub fn history(&self) -> (events: Vec<Arc<RuntimeEvent>>)
        ensures
            events@.map_values(|event: Arc<RuntimeEvent>| event@) == self@.history,
    {
        let mut events: Vec<Arc<RuntimeEvent>> = Vec::new();
        let mut at: usize = 0;
        while at < self.history.len()
            invariant
                at <= self.history@.len(),
                events@ =~= self.history@.take(at as int),
            decreases self.history@.len() - at,
        {
            events.push(self.history[at].clone());
            at = at + 1;
        }
        assert(events@ =~= self.history@);
        events
    }

    /// Hands out the events that were recorded since the last call, oldest
    /// first.
    pub fn take_outbox(&mut self) -> (events: Vec<Arc<RuntimeEvent>>)
        requires
            old(self).wf(),
        ensures
            final(self).wf(),
            events@.map_values(|event: Arc<RuntimeEvent>| event@) == old(self)@.outbox,
            final(self)@ == (HubView { outbox: Seq::empty(), ..old(self)@ }),
    {
        let mut events: Vec<Arc<RuntimeEvent>> = Vec::new();
        events.append(&mut self.outbox);
        assert(events@ =~= old(self).outbox@);
        assert(self@.outbox =~= Seq::empty());
        events
    }

    fn list_tasks(&self) -> (listing: Vec<TaskSnapshot>)
        requires
            self.consistent(),
        ensures
            listing@.map_values(|task: TaskSnapshot| task@) == task_listing(self@.tasks),
    {
        let mut listing: Vec<TaskSnapshot> = Vec::new();
        let mut at: usize = 0;
        let count = self.tasks.len();
        while at < count
            invariant
                self.consistent(),
                count == self.tasks.values().len(),
                at <= count,
                listing@.len() == at,
                forall|i: int| 0 <= i < at ==> #[trigger] listing@[i] == self.tasks.values()[i].snapshot,
            decreases count - at,
        {
            listing.push(self.tasks.value_at(at).snapshot.clone());
            at = at + 1;
        }
        proof {
            self.tasks.lemma_listing();
            assert(self@.tasks.dom() =~= self.tasks@.dom());
            let shown = listing@.map_values(|task: TaskSnapshot| task@);
            let expected = task_listing(self@.tasks);
            assert forall|i: int| 0 <= i < shown.len() implies shown[i] == expected[i] by {
                let id = self.tasks.keys()[i];
                assert(self.tasks@.contains_key(id));
                assert(self@.tasks[id] == self.tasks@[id]@);
            }
            assert(shown =~= expected);
        }
        listing
    }

    fn record(&mut self, kind: RuntimeEventKind, now: u64)
        requires
            old(self).consistent(),
            old(self)@.snapshot.revision < u64::MAX,
        ensures
            final(self).consistent(),
            final(self)@ == old(self)@.recorded(kind@, now),
    {
        let ghost before = *self;
        self.snapshot.revision = self.snapshot.revision + 1;
        self.snapshot.active_tasks = self.list_tasks();
        let event = Arc::new(
            RuntimeEvent {
                sequence: self.snapshot.revision,
                timestamp_ms: now,
                service: self.snapshot.service.clone(),
                kind,
            },
        );
        self.history.push_back(event.clone());
        if self.history.len() > self.history_limit {
            let _ = self.history.pop_front();
        }
        self.outbox.push(event);
        proof {
            let grown = before@.history.push(event@);
            assert(self@.outbox =~= before@.outbox.push(event@));
            assert(self@.history =~= newest(grown, self.history_limit as nat));
            before@.lemma_recorded(kind@, now);
        }
    }

    /// Enters a lifecycle stage.
    pub fn lifecycle(&mut self, to: ServiceLifecycle, reason: &str, now: u64)
        requires
            old(self).wf(),
            old(self)@.has_room(1),
        ensures
            final(self).wf(),
            final(self)@ == old(self)@.entered(to, reason@, now),
    {
        let from = self.snapshot.lifecycle;
        self.snapshot.lifecycle = to;
        self.record(RuntimeEventKind::LifecycleChanged { from, to, reason: reason.to_owned() }, now);
    }

    /// Whether no counter overflows within `events` more events.
    pub fn has_room_for(&self, events: usize) -> (result: bool)
        ensures
            result == self@.has_room(events as nat),
    {
        let more = events as u64;
        self.snapshot.revision <= u64::MAX - more && self.snapshot.accepted_requests <= u64::MAX
            - more && self.snapshot.completed_requests <= u64::MAX - more
            && self.snapshot.rejected_requests <= u64::MAX - more
    }

    /// The number of active tasks.
    pub fn task_count(&self) -> (count: usize)
        requires
            self.wf(),
        ensures
            count == self@.tasks.dom().len(),
    {
        proof {
            self.tasks.lemma_listing();
            assert(self@.tasks.dom() =~= self.tasks@.dom());
        }
        self.tasks.len()
    }

    /// The identities of the active tasks in ascending order.
    fn task_ids(&self) -> (ids: Vec<TaskId>)
        requires
            self.tasks.wf(),
        ensures
            ids@.map_values(|id: TaskId| id@) == task_order(self@.tasks),
            ids@.len() == self@.tasks.dom().len(),
    {
        let mut ids: Vec<TaskId> = Vec::new();
        let mut at: usize = 0;
        let count = self.tasks.len();
        proof {
            self.tasks.lemma_listing();
            assert(self@.tasks.dom() =~= self.tasks@.dom());
        }
        while at < count
            invariant
                count == self.tasks.keys().len(),
                at <= count,
                ids@.len() == at,
                forall|i: int| 0 <= i < at ==> (#[trigger] ids@[i])@ == self.tasks.keys()[i],
            decreases count - at,
        {
            ids.push(*self.tasks.key_at(at));
            at = at + 1;
        }
        assert(ids@.map_values(|id: TaskId| id@) =~= self.tasks.keys());
        ids
    }

    /// Ends a task. An unknown task changes nothing.
    pub fn finish_task(&mut self, task: TaskId, outcome: TaskOutcome, now: u64)
        requires
            old(self).wf(),
            old(self)@.has_room(1),
        ensures
            final(self).wf(),
            final(self)@ == old(self)@.task_ended(task@, outcome@, now),
    {
        let ghost before = *self;
        match self.tasks.remove(&task) {
            Some(active) => {
                let operation = active.snapshot.operation_id;
                proof {
                    assert(before@.tasks[task@] == active@);
                    TaskId::lemma_same_number(task, active.snapshot.id);
                    assert(self@.tasks =~= before@.tasks.remove(task@));
                }
                self.record(RuntimeEventKind::TaskFinished { task, operation, outcome }, now);
            },
            None => {
                proof {
                    assert(self.tasks@ =~= before.tasks@);
                    assert(self@ =~= before@);
                }
            },
        }
    }

    /// The identities of the requests in flight in ascending order.
    fn request_ids(&self) -> (ids: Vec<RequestId>)
        requires
            self.requests.wf(),
        ensures
            ids@.map_values(|id: RequestId| id@) == request_order(self@.requests),
            ids@.len() == self@.requests.dom().len(),
    {
        let mut ids: Vec<RequestId> = Vec::new();
        let mut at: usize = 0;
        let count = self.requests.len();
        proof {
            self.requests.lemma_listing();
        }
        while at < count
            invariant
                count == self.requests.keys().len(),
                at <= count,
                ids@.len() == at,
                forall|i: int| 0 <= i < at ==> (#[trigger] ids@[i])@ == self.requests.keys()[i],
            decreases count - at,
        {
            ids.push(*self.requests.key_at(at));
            at = at + 1;
        }
        assert(ids@.map_values(|id: RequestId| id@) =~= self.requests.keys());
        ids
    }

    fn abort_tasks(&mut self, now: u64)
        requires
            old(self).wf(),
            old(self)@.has_room(old(self)@.closing_events()),
        ensures
            final(self).wf(),
            final(self)@ == old(self)@.tasks_ended(
                task_order(old(self)@.tasks),
                TaskOutcomeView::Aborted,
                now,
            ),
            final(self)@.requests == old(self)@.requests,
            final(self)@.has_room(3 * old(self)@.requests.dom().len() + 1),
    {
        let ghost before = *self;
        let ids = self.task_ids();
        let ghost order = task_order(before@.tasks);
        let ghost rest = 3 * before@.requests.dom().len() + 1;
        let mut at: usize = 0;
        assert(order.take(0) =~= Seq::empty());
        while at < ids.len()
            invariant
                self.wf(),
                at <= ids@.len(),
                order == ids@.map_values(|id: TaskId| id@),
                self@ == before@.tasks_ended(order.take(at as int), TaskOutcomeView::Aborted, now),
                self@.requests == before@.requests,
                self@.has_room((ids@.len() - at + rest) as nat),
                rest > 0,
            decreases ids@.len() - at,
        {
            proof {
                let longer = order.take(at + 1);
                assert(longer.drop_last() =~= order.take(at as int));
                assert(longer.last() == ids@[at as int]@);
            }
            self.finish_task(ids[at], TaskOutcome::Aborted, now);
            at = at + 1;
        }
        assert(order.take(at as int) =~= order);
    }

    fn empty(&mut self, error: &str, now: u64)
        requires
            old(self).wf(),
            old(self)@.has_room(old(self)@.closing_events()),
        ensures
            final(self).wf(),
            final(self)@ == old(self)@.emptied(error@, now),
            final(self)@.has_room(1),
    {
        self.abort_tasks(now);
        let ghost before = *self;
        let ids = self.request_ids();
        let ghost order = request_order(before@.requests);
        let mut at: usize = 0;
        assert(order.take(0) =~= Seq::empty());
        while at < ids.len()
            invariant
                self.wf(),
                at <= ids@.len(),
                order == ids@.map_values(|id: RequestId| id@),
                self@ == before@.requests_ended(order.take(at as int), Some(error@), now),
                self@.has_room((3 * (ids@.len() - at) + 1) as nat),
            decreases ids@.len() - at,
        {
            proof {
                let longer = order.take(at + 1);
                assert(longer.drop_last() =~= order.take(at as int));
                assert(longer.last() == ids@[at as int]@);
            }
            let _ = self.request_finished(ids[at], Some(error.to_owned()), now);
            at = at + 1;
        }
        assert(order.take(at as int) =~= order);
        self.snapshot.queued_requests = 0;
    }

    /// Fails the service: every active task is aborted, every request in flight
    /// ends with the error, and nothing is queued any more.
    pub fn fail(&mut self, error: &str, now: u64)
        requires
            old(self).wf(),
            old(self)@.has_room(old(self)@.closing_events()),
        ensures
            final(self).wf(),
            final(self)@ == old(self)@.failed(error@, now),
    {
        self.empty(error, now);
        self.snapshot.last_error = Some(error.to_owned());
        self.lifecycle(ServiceLifecycle::Failed, error, now);
    }

    /// Stops the service by force: every active task is aborted, every request
    /// in flight ends with the reason as its error, and nothing is queued any
    /// more.
    pub fn force_abort(&mut self, reason: &str, now: u64)
        requires
            old(self).wf(),
            old(self)@.has_room(old(self)@.closing_events()),
        ensures
            final(self).wf(),
            final(self)@ == old(self)@.force_aborted(reason@, now),
    {
        self.empty(reason, now);
        self.lifecycle(ServiceLifecycle::Stopped, reason, now);
    }

    /// The number of requests in flight.
    pub fn request_count(&self) -> (count: usize)
        requires
            self.wf(),
        ensures
            count == self@.requests.dom().len(),
    {
        self.snapshot.in_flight_requests
    }

    fn set_queue_depth(&mut self, queued: usize)
        requires
            old(self).wf(),
            old(self)@.has_room(1),
        ensures
            final(self).wf(),
            final(self)@ == old(self)@.with_queue(queued),
    {
        if self.snapshot.queued_requests != queued {
            self.snapshot.queued_requests = queued;
            self.snapshot.revision = self.snapshot.revision + 1;
        }
    }

    /// One more request waits.
    pub fn request_enqueued(&mut self)
        requires
            old(self).wf(),
            old(self)@.has_room(1),
        ensures
            final(self).wf(),
            final(self)@ == old(self)@.enqueued(),
    {
        self.set_queue_depth(self.snapshot.queued_requests.saturating_add(1));
    }

    /// One request less waits.
    pub fn request_dequeued(&mut self)
        requires
            old(self).wf(),
            old(self)@.has_room(1),
        ensures
            final(self).wf(),
            final(self)@ == old(self)@.dequeued(),
    {
        self.set_queue_depth(self.snapshot.queued_requests.saturating_sub(1));
    }

    fn settle(&mut self, now: u64) -> (edge: Option<ServiceActivity>)
        requires
            old(self).consistent(),
            old(self)@.snapshot.active_tasks == task_listing(old(self)@.tasks),
            old(self)@.snapshot.in_flight_requests == old(self)@.requests.dom().len(),
            old(self)@.snapshot.revision < u64::MAX,
        ensures
            final(self).wf(),
            final(self)@ == old(self)@.settled(now),
            edge == old(self)@.activity_edge(final(self)@),
    {
        let from = self.snapshot.activity;
        let to = if self.snapshot.in_flight_requests == 0 {
            ServiceActivity::Idle
        } else {
            ServiceActivity::Busy
        };
        if from == to {
            return None;
        }
        self.snapshot.activity = to;
        self.record(RuntimeEventKind::ActivityChanged { from, to }, now);
        Some(to)
    }

    /// Accepts a request. The result is the activity, where it changed.
    pub fn request_accepted(
        &mut self,
        request: RequestId,
        operation: &OperationContext,
        now: u64,
    ) -> (edge: Option<ServiceActivity>)
        requires
            old(self).wf(),
            old(self)@.has_room(3),
        ensures
            final(self).wf(),
            final(self)@ == old(self)@.accepted(request, operation@, now),
            edge == old(self)@.activity_edge(final(self)@),
    {
        if operation.is_observable() {
            self.record(RuntimeEventKind::OperationStarted(operation.clone()), now);
        }
        let entry = InFlightRequest {
            request,
            operation: operation.id(),
            observable: operation.is_observable(),
        };
        self.requests.insert(request, entry);
        proof {
            self.requests.lemma_listing();
        }
        self.snapshot.accepted_requests = self.snapshot.accepted_requests + 1;
        self.snapshot.in_flight_requests = self.requests.len();
        self.record(
            RuntimeEventKind::RequestAccepted { request, operation: operation.id() },
            now,
        );
        self.settle(now)
    }

    /// Turns a request away.
    pub fn request_rejected(&mut self, operation: OperationId, reason: &str, now: u64)
        requires
            old(self).wf(),
            old(self)@.has_room(1),
        ensures
            final(self).wf(),
            final(self)@ == old(self)@.rejected(operation, reason@, now),
    {
        self.snapshot.rejected_requests = self.snapshot.rejected_requests + 1;
        self.record(
            RuntimeEventKind::RequestRejected { operation, reason: reason.to_owned() },
            now,
        );
    }

    /// Ends a request. The result is the activity, where it changed. A request
    /// that is not in flight changes nothing.
    pub fn request_finished(&mut self, request: RequestId, error: Option<String>, now: u64) -> (edge:
        Option<ServiceActivity>)
        requires
            old(self).wf(),
            old(self)@.has_room(3),
        ensures
            final(self).wf(),
            final(self)@ == old(self)@.finished(request@, optional_text(error), now),
            edge == old(self)@.activity_edge(final(self)@),
    {
        let ghost before = *self;
        let ended = match self.requests.remove(&request) {
            Some(ended) => ended,
            None => {
                proof {
                    assert(self@ =~= before@);
                }
                return None;
            },
        };
        proof {
            self.requests.lemma_listing();
        }
        let operation = ended.operation;
        let operation_error = error.clone();
        assert(optional_text(operation_error) == optional_text(error));
        self.snapshot.in_flight_requests = self.requests.len();
        self.snapshot.completed_requests = self.snapshot.completed_requests + 1;
        if let Some(text) = &error {
            self.snapshot.last_error = Some(text.clone());
        }
        self.record(
            RuntimeEventKind::RequestFinished { request: ended.request, operation, error },
            now,
        );
        let edge = self.settle(now);
        if ended.observable {
            self.record(
                RuntimeEventKind::OperationFinished { operation, error: operation_error },
                now,
            );
        }
        edge
    }

    /// Registers a task that starts, given whether its token is cancelled
    /// already.
    pub fn register_task(
        &mut self,
        id: TaskId,
        registration: TaskRegistration,
        cancelled: bool,
        now: u64,
    )
        requires
            old(self).wf(),
            old(self)@.has_room(1),
        ensures
            final(self).wf(),
            final(self)@ == old(self)@.task_started(
                registration.started(id, cancelled, now),
                registration.cancellation,
                now,
            ),
    {
        let ghost before = *self;
        let snapshot = TaskSnapshot {
            id,
            operation_id: registration.operation,
            trace_id: registration.trace_id,
            key: registration.key,
            kind: registration.kind,
            summary: registration.summary,
            state: if cancelled {
                TaskState::Cancelling
            } else {
                TaskState::Running
            },
            cancellable: registration.cancellable,
            progress: None,
            milestone: None,
            blocked_on: None,
            started_at_ms: now,
        };
        let active = ActiveTask {
            snapshot: snapshot.clone(),
            cancellation: registration.cancellation,
        };
        self.tasks.insert(id, active);
        proof {
            assert(self@.tasks =~= before@.tasks.insert(id@, active@));
        }
        self.record(RuntimeEventKind::TaskStarted(snapshot), now);
    }

    /// Starts a task under the next identity. It starts as cancelling when its
    /// token is cancelled by now.
    pub fn start_task(
        &mut self,
        registration: TaskRegistration,
        counter: &mut IdCounter,
        now: u64,
    ) -> (id: TaskId)
        requires
            old(self).wf(),
            old(self)@.has_room(1),
        ensures
            final(self).wf(),
            id@ == old(counter)@,
            final(counter)@ == number_after(old(counter)@),
            ({
                ||| answered(registration.cancellation, false) && final(self)@
                    == old(self)@.task_started(
                    registration.started(id, false, now),
                    registration.cancellation,
                    now,
                )
                ||| answered(registration.cancellation, true) && final(self)@
                    == old(self)@.task_started(
                    registration.started(id, true, now),
                    registration.cancellation,
                    now,
                )
            }),
    {
        let id = TaskId::next(counter);
        let cancelled = registration.cancellation.is_cancelled();
        self.register_task(id, registration, cancelled, now);
        id
    }

    /// The control of a task, where it is active.
    pub fn task_control(&self, task: TaskId) -> (control: Option<TaskControl>)
        requires
            self.wf(),
        ensures
            match control {
                Some(control) => self@.tasks.contains_key(task@) && control@ == task,
                None => !self@.tasks.contains_key(task@),
            },
    {
        if self.tasks.contains_key(&task) {
            Some(TaskControl::new(task))
        } else {
            None
        }
    }

    /// Reports the progress of a task, at most one hundred.
    pub fn task_progress(&mut self, task: TaskId, progress: u8, now: u64)
        requires
            old(self).wf(),
            old(self)@.has_room(1),
        ensures
            final(self).wf(),
            final(self)@ == old(self)@.task_progressed(
                task,
                if progress > 100 {
                    100
                } else {
                    progress
                },
                now,
            ),
    {
        let ghost before = *self;
        let progress = if progress > 100 {
            100
        } else {
            progress
        };
        if let Some(active) = self.tasks.get_mut(&task) {
            active.snapshot.progress = Some(progress);
        }
        proof {
            let snapshot = TaskSnapshotView {
                progress: Some(progress),
                ..before@.tasks[task@].snapshot
            };
            assert(self@.tasks =~= before@.with_task(task@, snapshot).tasks);
        }
        self.record(RuntimeEventKind::TaskProgress { task, progress }, now);
    }

    /// Reports a milestone of a task.
    pub fn task_milestone(&mut self, task: TaskId, message: &str, now: u64)
        requires
            old(self).wf(),
            old(self)@.has_room(1),
        ensures
            final(self).wf(),
            final(self)@ == old(self)@.task_reached(task, message@, now),
    {
        let ghost before = *self;
        if let Some(active) = self.tasks.get_mut(&task) {
            active.snapshot.milestone = Some(message.to_owned());
        }
        proof {
            let snapshot = TaskSnapshotView {
                milestone: Some(message@),
                ..before@.tasks[task@].snapshot
            };
            assert(self@.tasks =~= before@.with_task(task@, snapshot).tasks);
        }
        self.record(RuntimeEventKind::TaskMilestone { task, message: message.to_owned() }, now);
    }

    /// Reports what a task waits for, if anything.
    pub fn task_blocked(&mut self, task: TaskId, dependency: Option<String>, now: u64)
        requires
            old(self).wf(),
            old(self)@.has_room(1),
        ensures
            final(self).wf(),
            final(self)@ == old(self)@.task_waits(task, optional_text(dependency), now),
    {
        let ghost before = *self;
        if let Some(active) = self.tasks.get_mut(&task) {
            active.snapshot.blocked_on = dependency.clone();
        }
        proof {
            let snapshot = TaskSnapshotView {
                blocked_on: optional_text(dependency),
                ..before@.tasks[task@].snapshot
            };
            assert(self@.tasks =~= before@.with_task(task@, snapshot).tasks);
        }
        self.record(RuntimeEventKind::TaskBlocked { task, dependency }, now);
    }

    /// Records that cancellation of a task was requested and hands out the
    /// token to cancel.
    pub fn request_cancel(&mut self, task: TaskId, cause: &str, now: u64) -> (result: Result<
        CancellationToken,
        ControlError,
    >)
        requires
            old(self).wf(),
            old(self)@.has_room(1),
        ensures
            final(self).wf(),
            final(self)@ == old(self)@.cancel_requested(task, cause@, now),
            result == (match old(self)@.cancel_refusal(task) {
                Some(error) => Err(error),
                None => Ok(old(self)@.tasks[task@].cancellation),
            }),
    {
        let ghost before = *self;
        let token = match self.tasks.get_mut(&task) {
            None => {
                return Err(ControlError::TaskNotFound(task));
            },
            Some(active) => {
                if !active.snapshot.cancellable {
                    None
                } else {
                    active.snapshot.state = TaskState::Cancelling;
                    Some(active.cancellation.clone())
                }
            },
        };
        match token {
            None => {
                proof {
                    assert(self.tasks@ =~= before.tasks@);
                }
                Err(ControlError::TaskNotCancellable(task))
            },
            Some(token) => {
                proof {
                    let snapshot = TaskSnapshotView {
                        state: TaskState::Cancelling,
                        ..before@.tasks[task@].snapshot
                    };
                    assert(self@.tasks =~= before@.with_task(task@, snapshot).tasks);
                }
                self.record(
                    RuntimeEventKind::TaskCancelRequested { task, cause: cause.to_owned() },
                    now,
                );
                Ok(token)
            },
        }
    }

    /// Requests cancellation of a task and cancels its token.
    pub fn cancel_task(&mut self, task: TaskId, cause: &str, now: u64) -> (result: Result<
        (),
        ControlError,
    >)
        requires
            old(self).wf(),
            old(self)@.has_room(1),
        ensures
            final(self).wf(),
            final(self)@ == old(self)@.cancel_requested(task, cause@, now),
            result == (match old(self)@.cancel_refusal(task) {
                Some(error) => Err(error),
                None => Ok(()),
            }),
            result is Ok ==> cancel_requested(old(self)@.tasks[task@].cancellation),
    {
        match self.request_cancel(task, cause, now) {
            Ok(token) => {
                token.cancel();
                Ok(())
            },
            Err(error) => Err(error),
        }
    }

    /// Records that cancellation of every cancellable task was requested, in
    /// the order of their identities, and hands out the tokens to cancel.
    pub fn request_cancel_all(&mut self, cause: &str, now: u64) -> (tokens: Vec<CancellationToken>)
        requires
            old(self).wf(),
            old(self)@.has_room(old(self)@.tasks.dom().len()),
        ensures
            final(self).wf(),
            final(self)@ == old(self)@.cancels_requested(task_order(old(self)@.tasks), cause@, now),
            tokens@ == old(self)@.tokens_of(task_order(old(self)@.tasks)),
    {
        let ghost before = *self;
        let ids = self.task_ids();
        let ghost order = task_order(before@.tasks);
        let mut tokens: Vec<CancellationToken> = Vec::new();
        let mut at: usize = 0;
        proof {
            assert(order.take(0) =~= Seq::empty());
            self.tasks.lemma_listing();
            assert(self@.tasks.dom() =~= self.tasks@.dom());
            assert forall|i: int| 0 <= i < order.len() implies before@.tasks.contains_key(
                #[trigger] order[i],
            ) by {
                assert(self.tasks@.contains_key(self.tasks.keys()[i]));
            }
        }
        while at < ids.len()
            invariant
                self.wf(),
                at <= ids@.len(),
                order == ids@.map_values(|id: TaskId| id@),
                forall|i: int|
                    0 <= i < order.len() ==> before@.tasks.contains_key(#[trigger] order[i]),
                self@ == before@.cancels_requested(order.take(at as int), cause@, now),
                tokens@ == before@.tokens_of(order.take(at as int)),
                self@.has_room((ids@.len() - at) as nat),
                self@.tasks.dom() == before@.tasks.dom(),
                forall|id: u64| #[trigger]
                    self@.tasks.contains_key(id) ==> self@.tasks[id].cancellation
                        == before@.tasks[id].cancellation && self@.tasks[id].snapshot.cancellable
                        == before@.tasks[id].snapshot.cancellable,
            decreases ids@.len() - at,
        {
            let id = ids[at];
            let ghost earlier = self@;
            proof {
                let longer = order.take(at + 1);
                assert(longer.drop_last() =~= order.take(at as int));
                assert(longer.last() == id@);
                assert(order[at as int] == id@);
                assert(before@.tasks.dom().contains(id@));
                assert(self@.tasks.contains_key(id@));
                TaskId::lemma_same_number(id, self@.tasks[id@].snapshot.id);
            }
            match self.request_cancel(id, cause, now) {
                Ok(token) => {
                    tokens.push(token);
                },
                Err(_) => {},
            }
            proof {
                assert(self@.tasks.dom() =~= earlier.tasks.dom());
            }
            at = at + 1;
        }
        assert(order.take(at as int) =~= order);
        tokens
    }

    /// Requests cancellation of every cancellable task and cancels the tokens.
    pub fn cancel_all(&mut self, cause: &str, now: u64)
        requires
            old(self).wf(),
            old(self)@.has_room(old(self)@.tasks.dom().len()),
        ensures
            final(self).wf(),
            final(self)@ == old(self)@.cancels_requested(task_order(old(self)@.tasks), cause@, now),
            all_cancelled(old(self)@.tokens_of(task_order(old(self)@.tasks))),
    {
        let tokens = self.request_cancel_all(cause, now);
        cancel_tokens(&tokens);
    }

    /// Reports that an object of the service went from one state to another.
    pub fn state_transition(
        &mut self,
        task: TaskId,
        operation: OperationId,
        object: &str,
        event: &str,
        from: &str,
        action: &str,
        to: &str,
        now: u64,
    )
        requires
            old(self).wf(),
            old(self)@.has_room(1),
        ensures
            final(self).wf(),
            final(self)@ == old(self)@.recorded(
                RuntimeEventKindView::StateTransition {
                    task,
                    operation,
                    object: object@,
                    event: event@,
                    from: from@,
                    action: action@,
                    to: to@,
                },
                now,
            ),
    {
        self.record(
            RuntimeEventKind::StateTransition {
                task,
                operation,
                object: object.to_owned(),
                event: event.to_owned(),
                from: from.to_owned(),
                action: action.to_owned(),
                to: to.to_owned(),
            },
            now,
        );
    }
}

/// Every recorded event is the newest of the history and carries a sequence
/// number above all earlier ones; the history never outgrows its limit, and the
/// event waits in the outbox for publication.
pub proof fn law_events_ascend(hub: HubView, kind: RuntimeEventKindView, now: u64)
    requires
        hub.valid(),
        hub.has_room(1),
    ensures
        ({
            let after = hub.recorded(kind, now);
            &&& 1 <= after.history.len() <= hub.history_limit
            &&& after.history.last().kind == kind
            &&& after.history.last().timestamp_ms == now
            &&& after.history.last().service == hub.snapshot.service
            &&& after.history.last().sequence == hub.snapshot.revision + 1
            &&& after.snapshot.revision == after.history.last().sequence
            &&& after.outbox == hub.outbox.push(after.history.last())
            &&& forall|i: int|
                0 <= i < hub.history.len() ==> (#[trigger] hub.history[i]).sequence
                    < after.history.last().sequence
        }),
{
}

/// A failed service holds no work: no task is active, nothing is queued or in
/// flight, the error is kept, and the stage is `Failed`.
pub proof fn law_failure_leaves_no_work(hub: HubView, error: Seq<char>, now: u64)
    requires
        hub.valid(),
        hub.has_room(hub.closing_events()),
    ensures
        hub.failed(error, now).holds_no_work(),
        hub.failed(error, now).snapshot.last_error == Some(error),
        hub.failed(error, now).snapshot.lifecycle == ServiceLifecycle::Failed,
{
    lemma_emptied(hub, error, now);
}

/// A service that was aborted by force holds no work, and the stage is
/// `Stopped`.
pub proof fn law_force_abort_leaves_no_work(hub: HubView, reason: Seq<char>, now: u64)
    requires
        hub.valid(),
        hub.has_room(hub.closing_events()),
    ensures
        hub.force_aborted(reason, now).holds_no_work(),
        hub.force_aborted(reason, now).snapshot.lifecycle == ServiceLifecycle::Stopped,
{
    lemma_emptied(hub, reason, now);
}

/// Whether the events between two hubs tell that `kind` happened.
pub open spec fn reports(before: HubView, after: HubView, kind: RuntimeEventKindView) -> bool {
    exists|i: int|
        before.outbox.len() <= i < after.outbox.len() && (#[trigger] after.outbox[i]).kind == kind
}

/// Whether the events between two hubs tell that a request ended with `error`,
/// and with it the operation that it belongs to, where that is observable.
pub open spec fn reports_end(
    before: HubView,
    after: HubView,
    request: InFlightRequest,
    error: Seq<char>,
) -> bool {
    &&& reports(
        before,
        after,
        RuntimeEventKindView::RequestFinished {
            request: request.request,
            operation: request.operation,
            error: Some(error),
        },
    )
    &&& request.observable ==> reports(
        before,
        after,
        RuntimeEventKindView::OperationFinished {
            operation: request.operation,
            error: Some(error),
        },
    )
}

/// When a service fails or is aborted by force, everything that it had accepted
/// ends explicitly: events tell the end of every request that was in flight and
/// of its observable operation, each request counts as completed once, and every
/// active task is reported as aborted.
pub proof fn law_failure_ends_every_request(hub: HubView, error: Seq<char>, now: u64)
    requires
        hub.valid(),
        hub.has_room(hub.closing_events()),
    ensures
        forall|request: u64| #[trigger]
            hub.requests.contains_key(request) ==> reports_end(
                hub,
                hub.failed(error, now),
                hub.requests[request],
                error,
            ) && reports_end(
                hub,
                hub.force_aborted(error, now),
                hub.requests[request],
                error,
            ),
        forall|task: u64| #[trigger]
            hub.tasks.contains_key(task) ==> reports(
                hub,
                hub.failed(error, now),
                hub.tasks[task].aborted(),
            ) && reports(hub, hub.force_aborted(error, now), hub.tasks[task].aborted()),
        hub.failed(error, now).snapshot.completed_requests == hub.snapshot.completed_requests
            + hub.requests.dom().len(),
        hub.force_aborted(error, now).snapshot.completed_requests
            == hub.snapshot.completed_requests + hub.requests.dom().len(),
        hub.failed(error, now).snapshot.accepted_requests == hub.snapshot.accepted_requests,
        hub.force_aborted(error, now).snapshot.accepted_requests == hub.snapshot.accepted_requests,
{
    lemma_emptied(hub, error, now);
    let order = task_order(hub.tasks);
    let aborted = hub.tasks_ended(order, TaskOutcomeView::Aborted, now);
    let requests = request_order(hub.requests);
    let ended = aborted.requests_ended(requests, Some(error), now);
    lemma_every_key_is_listed::<TaskId>(hub.tasks.dom());
    lemma_every_key_is_listed::<RequestId>(hub.requests.dom());
    lemma_order_length::<TaskId>(hub.tasks.dom());
    lemma_tasks_ended_valid(hub, order, TaskOutcomeView::Aborted, now);
    lemma_tasks_ended_extends(hub, order, now);
    lemma_requests_ended_extends(aborted, requests, error, now);
    assert forall|request: u64| #[trigger] hub.requests.contains_key(request) implies reports_end(
        hub,
        hub.failed(error, now),
        hub.requests[request],
        error,
    ) && reports_end(hub, hub.force_aborted(error, now), hub.requests[request], error) by {
        assert(hub.requests.dom().contains(request));
        lemma_end_reported(aborted, requests, error, now, request);
        lemma_end_stays_reported(
            hub,
            aborted,
            ended,
            hub.failed(error, now),
            hub.requests[request],
            error,
        );
        lemma_end_stays_reported(
            hub,
            aborted,
            ended,
            hub.force_aborted(error, now),
            hub.requests[request],
            error,
        );
    }
    assert forall|task: u64| #[trigger] hub.tasks.contains_key(task) implies reports(
        hub,
        hub.failed(error, now),
        hub.tasks[task].aborted(),
    ) && reports(hub, hub.force_aborted(error, now), hub.tasks[task].aborted()) by {
        assert(hub.tasks.dom().contains(task));
        lemma_abort_reported(hub, order, now, task);
        let kind = hub.tasks[task].aborted();
        lemma_stays_reported(hub, hub, aborted, hub.failed(error, now), kind);
        lemma_stays_reported(hub, hub, aborted, hub.force_aborted(error, now), kind);
    }
}

/// A request that is accepted under a new identity and later ends leaves the
/// number of requests in flight and the activity as they were, and counts once
/// as accepted and once as completed. Ending it again changes nothing.
pub proof fn law_accepted_request_ends_once(
    hub: HubView,
    request: RequestId,
    operation: OperationContextView,
    error: Option<Seq<char>>,
    now: u64,
    later: u64,
)
    requires
        hub.valid(),
        hub.has_room(6),
        hub.requests.dom().len() < usize::MAX,
        !hub.requests.contains_key(request@),
    ensures
        ({
            let accepted = hub.accepted(request, operation, now);
            let after = accepted.finished(request@, error, later);
            &&& accepted.snapshot.activity == ServiceActivity::Busy
            &&& accepted.snapshot.in_flight_requests == hub.snapshot.in_flight_requests + 1
            &&& after.requests == hub.requests
            &&& after.snapshot.in_flight_requests == hub.snapshot.in_flight_requests
            &&& after.snapshot.activity == hub.snapshot.activity
            &&& after.snapshot.accepted_requests == hub.snapshot.accepted_requests + 1
            &&& after.snapshot.completed_requests == hub.snapshot.completed_requests + 1
            &&& after.snapshot.rejected_requests == hub.snapshot.rejected_requests
            &&& after.tasks == hub.tasks
            &&& after.finished(request@, error, later) == after
        }),
{
    let accepted = hub.accepted(request, operation, now);
    let after = accepted.finished(request@, error, later);
    assert(accepted.requests.dom() =~= hub.requests.dom().insert(request@));
    assert(after.requests =~= hub.requests);
}

/// A task that starts under a new identity and then ends leaves the active
/// tasks as they were.
pub proof fn law_task_ends_where_it_started(
    hub: HubView,
    snapshot: TaskSnapshotView,
    cancellation: CancellationToken,
    outcome: TaskOutcomeView,
    now: u64,
    later: u64,
)
    requires
        hub.valid(),
        hub.has_room(2),
        !hub.tasks.contains_key(snapshot.id@),
    ensures
        ({
            let started = hub.task_started(snapshot, cancellation, now);
            let ended = started.task_ended(snapshot.id@, outcome, later);
            &&& started.tasks.contains_key(snapshot.id@)
            &&& ended.tasks == hub.tasks
            &&& ended.snapshot.active_tasks == hub.snapshot.active_tasks
        }),
{
    let started = hub.task_started(snapshot, cancellation, now);
    let ended = started.task_ended(snapshot.id@, outcome, later);
    assert(ended.tasks =~= hub.tasks);
}

proof fn lemma_tasks_ended(
    hub: HubView,
    tasks: Seq<u64>,
    outcome: TaskOutcomeView,
    now: u64,
    task: u64,
)
    ensures
        hub.tasks_ended(tasks, outcome, now).tasks.contains_key(task) <==> hub.tasks.contains_key(
            task,
        ) && !tasks.contains(task),
    decreases tasks.len(),
{
    if tasks.len() > 0 {
        let shorter = tasks.drop_last();
        lemma_tasks_ended(hub, shorter, outcome, now, task);
        assert(tasks =~= shorter.push(tasks.last()));
        assert(tasks.contains(task) <==> shorter.contains(task) || task == tasks.last()) by {
            if shorter.contains(task) {
                let i = choose|i: int| 0 <= i < shorter.len() && shorter[i] == task;
                assert(tasks[i] == task);
            }
            if task == tasks.last() {
                assert(tasks[tasks.len() - 1] == task);
            }
            if tasks.contains(task) && task != tasks.last() {
                let i = choose|i: int| 0 <= i < tasks.len() && tasks[i] == task;
                assert(shorter[i] == task);
            }
        }
    }
}

proof fn lemma_finished(hub: HubView, request: u64, error: Option<Seq<char>>, now: u64)
    requires
        hub.valid(),
        hub.has_room(3),
        hub.requests.contains_key(request),
    ensures
        ({
            let after = hub.finished(request, error, now);
            &&& after.valid()
            &&& after.tasks == hub.tasks
            &&& after.requests == hub.requests.remove(request)
            &&& after.snapshot.lifecycle == hub.snapshot.lifecycle
            &&& after.snapshot.accepted_requests == hub.snapshot.accepted_requests
            &&& after.snapshot.rejected_requests == hub.snapshot.rejected_requests
            &&& after.snapshot.revision <= hub.snapshot.revision + 3
            &&& after.snapshot.completed_requests == hub.snapshot.completed_requests + 1
        }),
{
    assert(hub.requests.remove(request).dom() =~= hub.requests.dom().remove(request));
}

proof fn lemma_left_over(requests: Seq<u64>)
    requires
        requests.len() > 0,
        requests.no_duplicates(),
    ensures
        !requests.drop_last().contains(requests.last()),
        forall|request: u64|
            #![trigger requests.contains(request)]
            requests.contains(request) <==> requests.drop_last().contains(request) || request
                == requests.last(),
{
    let shorter = requests.drop_last();
    let last = requests.last();
    if shorter.contains(last) {
        let i = choose|i: int| 0 <= i < shorter.len() && shorter[i] == last;
        assert(requests[i] == requests[requests.len() - 1]);
    }
    assert forall|request: u64|
        #![trigger requests.contains(request)]
        requests.contains(request) <==> shorter.contains(request) || request == last by {
        if shorter.contains(request) {
            let i = choose|i: int| 0 <= i < shorter.len() && shorter[i] == request;
            assert(requests[i] == request);
        }
        if requests.contains(request) && request != last {
            let i = choose|i: int| 0 <= i < requests.len() && requests[i] == request;
            assert(shorter[i] == request);
        }
        if request == last {
            assert(requests[requests.len() - 1] == request);
        }
    }
}

#[verifier::spinoff_prover]
#[verifier::rlimit(40)]
proof fn lemma_requests_ended(hub: HubView, requests: Seq<u64>, error: Option<Seq<char>>, now: u64)
    requires
        hub.valid(),
        hub.has_room(3 * requests.len()),
        requests.no_duplicates(),
        forall|i: int| 0 <= i < requests.len() ==> hub.requests.contains_key(#[trigger] requests[i]),
    ensures
        ({
            let after = hub.requests_ended(requests, error, now);
            &&& after.valid()
            &&& after.tasks == hub.tasks
            &&& after.snapshot.lifecycle == hub.snapshot.lifecycle
            &&& after.snapshot.accepted_requests == hub.snapshot.accepted_requests
            &&& after.snapshot.rejected_requests == hub.snapshot.rejected_requests
            &&& after.snapshot.revision <= hub.snapshot.revision + 3 * requests.len()
            &&& after.snapshot.completed_requests == hub.snapshot.completed_requests
                + requests.len()
            &&& forall|request: u64| #[trigger]
                after.requests.contains_key(request) <==> hub.requests.contains_key(request)
                    && !requests.contains(request)
        }),
    decreases requests.len(),
{
    if requests.len() > 0 {
        let shorter = requests.drop_last();
        let last = requests.last();
        lemma_requests_ended(hub, shorter, error, now);
        let before = hub.requests_ended(shorter, error, now);
        lemma_left_over(requests);
        assert(hub.requests.contains_key(requests[requests.len() - 1]));
        assert(before.requests.contains_key(last));
        lemma_finished(before, last, error, now);
    }
}

proof fn lemma_tasks_ended_valid(hub: HubView, tasks: Seq<u64>, outcome: TaskOutcomeView, now: u64)
    requires
        hub.valid(),
        hub.has_room(tasks.len()),
    ensures
        ({
            let after = hub.tasks_ended(tasks, outcome, now);
            &&& after.valid()
            &&& after.requests == hub.requests
            &&& after.snapshot.accepted_requests == hub.snapshot.accepted_requests
            &&& after.snapshot.completed_requests == hub.snapshot.completed_requests
            &&& after.snapshot.rejected_requests == hub.snapshot.rejected_requests
            &&& after.snapshot.revision <= hub.snapshot.revision + tasks.len()
        }),
    decreases tasks.len(),
{
    if tasks.len() > 0 {
        lemma_tasks_ended_valid(hub, tasks.drop_last(), outcome, now);
    }
}

proof fn lemma_emptied(hub: HubView, error: Seq<char>, now: u64)
    requires
        hub.valid(),
        hub.has_room(hub.closing_events()),
    ensures
        hub.emptied(error, now).tasks.dom() == Set::<u64>::empty(),
        hub.emptied(error, now).requests.dom() == Set::<u64>::empty(),
        task_listing(hub.emptied(error, now).tasks).len() == 0,
        hub.emptied(error, now).snapshot.queued_requests == 0,
        hub.emptied(error, now).snapshot.in_flight_requests == 0,
        hub.emptied(error, now).snapshot.activity == ServiceActivity::Idle,
        hub.emptied(error, now).snapshot.accepted_requests == hub.snapshot.accepted_requests,
        hub.emptied(error, now).snapshot.completed_requests == hub.snapshot.completed_requests
            + hub.requests.dom().len(),
{
    let order = task_order(hub.tasks);
    let aborted = hub.tasks_ended(order, TaskOutcomeView::Aborted, now);
    let requests = request_order(hub.requests);
    let after = hub.emptied(error, now);
    lemma_every_key_is_listed::<TaskId>(hub.tasks.dom());
    lemma_every_key_is_listed::<RequestId>(hub.requests.dom());
    lemma_order_length::<TaskId>(hub.tasks.dom());
    lemma_order_length::<RequestId>(hub.requests.dom());
    lemma_tasks_ended_valid(hub, order, TaskOutcomeView::Aborted, now);
    lemma_requests_ended(aborted, requests, Some(error), now);
    assert forall|task: u64| !after.tasks.contains_key(task) by {
        lemma_tasks_ended(hub, order, TaskOutcomeView::Aborted, now, task);
    }
    assert(after.tasks.dom() =~= Set::<u64>::empty());
    assert forall|request: u64| !after.requests.contains_key(request) by {
        if hub.requests.dom().contains(request) {
            assert(requests.contains(request));
        }
    }
    assert(after.requests.dom() =~= Set::<u64>::empty());
    lemma_every_key_is_listed::<TaskId>(after.tasks.dom());
    if task_order(after.tasks).len() > 0 {
        assert(after.tasks.dom().contains(task_order(after.tasks)[0]));
    }
}

/// Whether a hub only recorded further events since another.
spec fn extends(before: HubView, after: HubView) -> bool {
    &&& before.outbox.len() <= after.outbox.len()
    &&& forall|i: int|
        0 <= i < before.outbox.len() ==> #[trigger] after.outbox[i] == before.outbox[i]
}

proof fn lemma_stays_reported(
    start: HubView,
    before: HubView,
    after: HubView,
    end: HubView,
    kind: RuntimeEventKindView,
)
    requires
        extends(start, before),
        reports(before, after, kind),
        extends(after, end),
    ensures
        reports(start, end, kind),
{
    let i = choose|i: int|
        before.outbox.len() <= i < after.outbox.len() && (#[trigger] after.outbox[i]).kind == kind;
    assert(end.outbox[i] == after.outbox[i]);
}

proof fn lemma_end_stays_reported(
    start: HubView,
    before: HubView,
    after: HubView,
    end: HubView,
    request: InFlightRequest,
    error: Seq<char>,
)
    requires
        extends(start, before),
        reports_end(before, after, request, error),
        extends(after, end),
    ensures
        reports_end(start, end, request, error),
{
    let kind = RuntimeEventKindView::RequestFinished {
        request: request.request,
        operation: request.operation,
        error: Some(error),
    };
    lemma_stays_reported(start, before, after, end, kind);
    if request.observable {
        let kind = RuntimeEventKindView::OperationFinished {
            operation: request.operation,
            error: Some(error),
        };
        lemma_stays_reported(start, before, after, end, kind);
    }
}

proof fn lemma_tasks_ended_extends(hub: HubView, tasks: Seq<u64>, now: u64)
    ensures
        extends(hub, hub.tasks_ended(tasks, TaskOutcomeView::Aborted, now)),
        forall|task: u64|
            #![trigger hub.tasks.contains_key(task)]
            hub.tasks.contains_key(task) && !tasks.contains(task) ==> {
                let after = hub.tasks_ended(tasks, TaskOutcomeView::Aborted, now);
                after.tasks.contains_key(task) && after.tasks[task] == hub.tasks[task]
            },
    decreases tasks.len(),
{
    if tasks.len() > 0 {
        let shorter = tasks.drop_last();
        lemma_tasks_ended_extends(hub, shorter, now);
        assert forall|task: u64| !(#[trigger] tasks.contains(task)) implies !shorter.contains(task) && task
            != tasks.last() by {
            if shorter.contains(task) {
                let i = choose|i: int| 0 <= i < shorter.len() && shorter[i] == task;
                assert(tasks[i] == task);
            }
            if task == tasks.last() {
                assert(tasks[tasks.len() - 1] == task);
            }
        }
    }
}

proof fn lemma_requests_ended_extends(
    hub: HubView,
    requests: Seq<u64>,
    error: Seq<char>,
    now: u64,
)
    ensures
        extends(hub, hub.requests_ended(requests, Some(error), now)),
        forall|request: u64|
            #![trigger hub.requests.contains_key(request)]
            hub.requests.contains_key(request) && !requests.contains(request) ==> {
                let after = hub.requests_ended(requests, Some(error), now);
                after.requests.contains_key(request) && after.requests[request]
                    == hub.requests[request]
            },
    decreases requests.len(),
{
    if requests.len() > 0 {
        let shorter = requests.drop_last();
        lemma_requests_ended_extends(hub, shorter, error, now);
        assert forall|request: u64| !(#[trigger] requests.contains(request)) implies !shorter.contains(
            request,
        ) && request != requests.last() by {
            if shorter.contains(request) {
                let i = choose|i: int| 0 <= i < shorter.len() && shorter[i] == request;
                assert(requests[i] == request);
            }
            if request == requests.last() {
                assert(requests[requests.len() - 1] == request);
            }
        }
    }
}

proof fn lemma_abort_reported(hub: HubView, tasks: Seq<u64>, now: u64, task: u64)
    requires
        hub.tasks.contains_key(task),
        tasks.contains(task),
    ensures
        reports(
            hub,
            hub.tasks_ended(tasks, TaskOutcomeView::Aborted, now),
            hub.tasks[task].aborted(),
        ),
    decreases tasks.len(),
{
    let shorter = tasks.drop_last();
    let before = hub.tasks_ended(shorter, TaskOutcomeView::Aborted, now);
    let after = hub.tasks_ended(tasks, TaskOutcomeView::Aborted, now);
    lemma_tasks_ended_extends(hub, shorter, now);
    if shorter.contains(task) {
        lemma_abort_reported(hub, shorter, now, task);
        lemma_stays_reported(hub, hub, before, after, hub.tasks[task].aborted());
    } else {
        let i = choose|i: int| 0 <= i < tasks.len() && tasks[i] == task;
        if i < shorter.len() {
            assert(shorter[i] == task);
        }
        assert(before.tasks.contains_key(task));
        assert(after.outbox[before.outbox.len() as int].kind == hub.tasks[task].aborted());
    }
}

proof fn lemma_end_reported(
    hub: HubView,
    requests: Seq<u64>,
    error: Seq<char>,
    now: u64,
    request: u64,
)
    requires
        hub.requests.contains_key(request),
        requests.contains(request),
    ensures
        reports_end(
            hub,
            hub.requests_ended(requests, Some(error), now),
            hub.requests[request],
            error,
        ),
    decreases requests.len(),
{
    let shorter = requests.drop_last();
    let before = hub.requests_ended(shorter, Some(error), now);
    let after = hub.requests_ended(requests, Some(error), now);
    lemma_requests_ended_extends(hub, shorter, error, now);
    if shorter.contains(request) {
        lemma_end_reported(hub, shorter, error, now, request);
        lemma_end_stays_reported(hub, hub, before, after, hub.requests[request], error);
    } else {
        let i = choose|i: int| 0 <= i < requests.len() && requests[i] == request;
        if i < shorter.len() {
            assert(shorter[i] == request);
        }
        assert(before.requests.contains_key(request));
        let ended = hub.requests[request];
        assert(after.outbox[before.outbox.len() as int].kind
            == RuntimeEventKindView::RequestFinished {
            request: ended.request,
            operation: ended.operation,
            error: Some(error),
        });
        if ended.observable {
            assert(after.outbox[after.outbox.len() - 1].kind
                == RuntimeEventKindView::OperationFinished {
                operation: ended.operation,
                error: Some(error),
            });
        }
    }
}

/// The ascending order of active tasks lists every one of them.
pub proof fn lemma_order_covers_tasks(tasks: Map<u64, ActiveTaskView>)
    requires
        tasks.dom().finite(),
    ensures
        forall|i: int|
            0 <= i < task_order(tasks).len() ==> tasks.contains_key(#[trigger] task_order(tasks)[i]),
        forall|task: u64| #[trigger] tasks.contains_key(task) ==> task_order(tasks).contains(task),
{
    lemma_every_key_is_listed::<TaskId>(tasks.dom());
    assert forall|i: int| 0 <= i < task_order(tasks).len() implies tasks.contains_key(
        #[trigger] task_order(tasks)[i],
    ) by {
        assert(tasks.dom().contains(task_order(tasks)[i]));
    }
    assert forall|task: u64| #[trigger] tasks.contains_key(task) implies task_order(tasks).contains(
        task,
    ) by {
        assert(tasks.dom().contains(task));
    }
}

/// Requests for cancellation keep every task active, keep which tasks are
/// cancellable, and mark each cancellable task that was named.
pub proof fn lemma_cancels_requested(hub: HubView, tasks: Seq<u64>, cause: Seq<char>, now: u64)
    requires
        forall|task: u64| #[trigger]
            hub.tasks.contains_key(task) ==> hub.tasks[task].snapshot.id@ == task,
        forall|i: int| 0 <= i < tasks.len() ==> hub.tasks.contains_key(#[trigger] tasks[i]),
    ensures
        ({
            let after = hub.cancels_requested(tasks, cause, now);
            &&& after.tasks.dom() == hub.tasks.dom()
            &&& after.requests == hub.requests
            &&& after.snapshot.lifecycle == hub.snapshot.lifecycle
            &&& forall|task: u64| #[trigger]
                after.tasks.contains_key(task) ==> {
                    &&& after.tasks[task].snapshot.id == hub.tasks[task].snapshot.id
                    &&& after.tasks[task].snapshot.cancellable
                        == hub.tasks[task].snapshot.cancellable
                    &&& tasks.contains(task) && hub.tasks[task].snapshot.cancellable
                        ==> after.tasks[task].snapshot.state == TaskState::Cancelling
                }
        }),
    decreases tasks.len(),
{
    if tasks.len() > 0 {
        let shorter = tasks.drop_last();
        let last = tasks.last();
        assert forall|i: int| 0 <= i < shorter.len() implies hub.tasks.contains_key(
            #[trigger] shorter[i],
        ) by {
            assert(hub.tasks.contains_key(tasks[i]));
        }
        lemma_cancels_requested(hub, shorter, cause, now);
        let before = hub.cancels_requested(shorter, cause, now);
        let after = hub.cancels_requested(tasks, cause, now);
        assert(hub.tasks.contains_key(tasks[tasks.len() - 1]));
        assert(hub.tasks.dom().contains(last));
        assert(before.tasks.contains_key(last));
        assert(after.tasks.dom() =~= hub.tasks.dom());
        assert forall|task: u64| #[trigger] after.tasks.contains_key(task) implies {
            &&& after.tasks[task].snapshot.id == hub.tasks[task].snapshot.id
            &&& after.tasks[task].snapshot.cancellable == hub.tasks[task].snapshot.cancellable
            &&& tasks.contains(task) && hub.tasks[task].snapshot.cancellable
                ==> after.tasks[task].snapshot.state == TaskState::Cancelling
        } by {
            assert(before.tasks.contains_key(task));
            if tasks.contains(task) && task != last {
                let i = choose|i: int| 0 <= i < tasks.len() && tasks[i] == task;
                assert(shorter[i] == task);
            }
        }
    }
}

/// Whether a change was told by events of these kinds, one after another and
/// without a gap: each carries the next revision, the time and the name of the
/// service, and what was to be published before still is.
pub open spec fn told(
    before: HubView,
    after: HubView,
    kinds: Seq<RuntimeEventKindView>,
    now: u64,
) -> bool {
    &&& after.outbox.len() == before.outbox.len() + kinds.len()
    &&& forall|i: int| 0 <= i < before.outbox.len() ==> #[trigger] after.outbox[i] == before.outbox[i]
    &&& forall|i: int|
        0 <= i < kinds.len() ==> {
            let event = #[trigger] after.outbox[before.outbox.len() + i];
            &&& event.kind == kinds[i]
            &&& event.sequence == before.snapshot.revision + 1 + i
            &&& event.timestamp_ms == now
            &&& event.service == before.snapshot.service
        }
    &&& after.snapshot.revision == before.snapshot.revision + kinds.len()
    &&& after.snapshot.service == before.snapshot.service
    &&& after.snapshot.domain == before.snapshot.domain
    &&& after.history_limit == before.history_limit
}

/// Whether the requests of a service and everything counted of them are the same
/// in two hubs.
pub open spec fn same_requests(before: HubView, after: HubView) -> bool {
    &&& after.requests == before.requests
    &&& after.snapshot.activity == before.snapshot.activity
    &&& after.snapshot.queued_requests == before.snapshot.queued_requests
    &&& after.snapshot.in_flight_requests == before.snapshot.in_flight_requests
    &&& after.snapshot.accepted_requests == before.snapshot.accepted_requests
    &&& after.snapshot.completed_requests == before.snapshot.completed_requests
    &&& after.snapshot.rejected_requests == before.snapshot.rejected_requests
    &&& after.snapshot.last_error == before.snapshot.last_error
}

/// Whether all active tasks but one are the same in two hubs.
pub open spec fn same_other_tasks(before: HubView, after: HubView, task: u64) -> bool {
    forall|other: u64| other != task ==> {
        &&& #[trigger] after.tasks.contains_key(other) <==> before.tasks.contains_key(other)
        &&& before.tasks.contains_key(other) ==> after.tasks[other] == before.tasks[other]
    }
}

/// A recorded event is the newest of the history. The history holds the newest
/// events up to its limit, in the order in which they happened.
pub proof fn law_history_keeps_the_newest(hub: HubView, kind: RuntimeEventKindView, now: u64)
    requires
        hub.valid(),
        hub.has_room(1),
    ensures
        ({
            let after = hub.recorded(kind, now);
            let held = after.history.len();
            &&& told(hub, after, seq![kind], now)
            &&& held == hub.history.len() + 1 || (held == hub.history_limit && held
                == hub.history.len())
            &&& held <= hub.history_limit
            &&& after.history[held - 1] == after.outbox[after.outbox.len() - 1]
            &&& forall|back: int|
                1 <= back < held ==> #[trigger] after.history[held - 1 - back]
                    == hub.history[hub.history.len() - back]
            &&& same_requests(hub, after)
            &&& after.tasks == hub.tasks
            &&& after.snapshot.lifecycle == hub.snapshot.lifecycle
        }),
{
    let after = hub.recorded(kind, now);
    let pushed = hub.history.push(after.outbox.last());
    assert forall|back: int| 1 <= back < after.history.len() implies #[trigger] after.history[
    after.history.len() - 1 - back] == hub.history[hub.history.len() - back] by {
        assert(after.history[after.history.len() - 1 - back] == pushed[pushed.len() - 1 - back]);
    }
}

/// The observed tasks are exactly the active ones: every active task is listed
/// once, and nothing else is.
pub proof fn law_listing_shows_the_active_tasks(hub: HubView, task: u64)
    requires
        hub.valid(),
    ensures
        hub.tasks.contains_key(task) <==> exists|i: int|
            0 <= i < hub.snapshot.active_tasks.len() && (
            #[trigger] hub.snapshot.active_tasks[i]).id@ == task,
        hub.tasks.contains_key(task) ==> hub.snapshot.active_tasks.contains(
            hub.tasks[task].snapshot,
        ),
        hub.snapshot.active_tasks.len() == hub.tasks.dom().len(),
{
    let order = task_order(hub.tasks);
    let listing = task_listing(hub.tasks);
    lemma_every_key_is_listed::<TaskId>(hub.tasks.dom());
    lemma_order_length::<TaskId>(hub.tasks.dom());
    if hub.tasks.contains_key(task) {
        assert(hub.tasks.dom().contains(task));
        let i = choose|i: int| 0 <= i < order.len() && order[i] == task;
        assert(listing[i] == hub.tasks[task].snapshot);
        assert(hub.snapshot.active_tasks[i].id@ == task);
    }
    if exists|i: int|
        0 <= i < hub.snapshot.active_tasks.len() && (#[trigger] hub.snapshot.active_tasks[i]).id@
            == task {
        let i = choose|i: int|
            0 <= i < hub.snapshot.active_tasks.len() && (
            #[trigger] hub.snapshot.active_tasks[i]).id@ == task;
        assert(listing[i] == hub.tasks[order[i]].snapshot);
        assert(hub.tasks.dom().contains(order[i]));
    }
}

/// Entering a stage is told once, with the stage before and the reason, and
/// touches neither requests nor tasks.
pub proof fn law_stage_is_told(hub: HubView, to: ServiceLifecycle, reason: Seq<char>, now: u64)
    requires
        hub.valid(),
        hub.has_room(1),
    ensures
        ({
            let after = hub.entered(to, reason, now);
            &&& after.snapshot.lifecycle == to
            &&& told(
                hub,
                after,
                seq![RuntimeEventKindView::LifecycleChanged {
                    from: hub.snapshot.lifecycle,
                    to,
                    reason,
                }],
                now,
            )
            &&& same_requests(hub, after)
            &&& after.tasks == hub.tasks
        }),
{
}

/// A queued request is counted until it leaves the queue. Neither is told by an
/// event, but observers see a new revision whenever the number changes; the
/// count goes neither below zero nor above its greatest value.
pub proof fn law_queue_is_counted(hub: HubView)
    requires
        hub.has_room(2),
    ensures
        ({
            let after = hub.enqueued();
            &&& hub.snapshot.queued_requests < usize::MAX ==> after.snapshot.queued_requests
                == hub.snapshot.queued_requests + 1 && after.snapshot.revision
                == hub.snapshot.revision + 1
            &&& hub.snapshot.queued_requests == usize::MAX ==> after == hub
            &&& after.outbox == hub.outbox
            &&& after.history == hub.history
            &&& after.tasks == hub.tasks
            &&& after.requests == hub.requests
            &&& after.snapshot.lifecycle == hub.snapshot.lifecycle
            &&& after.snapshot.rejected_requests == hub.snapshot.rejected_requests
        }),
        ({
            let after = hub.dequeued();
            &&& hub.snapshot.queued_requests > 0 ==> after.snapshot.queued_requests
                == hub.snapshot.queued_requests - 1 && after.snapshot.revision
                == hub.snapshot.revision + 1
            &&& hub.snapshot.queued_requests == 0 ==> after == hub
            &&& after.outbox == hub.outbox
            &&& after.history == hub.history
            &&& after.tasks == hub.tasks
            &&& after.requests == hub.requests
            &&& after.snapshot.lifecycle == hub.snapshot.lifecycle
            &&& after.snapshot.rejected_requests == hub.snapshot.rejected_requests
        }),
        hub.snapshot.queued_requests < usize::MAX ==> hub.enqueued().dequeued() == (HubView {
            snapshot: ServiceSnapshotView {
                revision: (hub.snapshot.revision + 2) as u64,
                ..hub.snapshot
            },
            ..hub
        }),
{
}

/// A request that is accepted is told after its operation, where that is
/// observable, and before the service becomes busy, where it was idle. It is in
/// flight from then on and counted as accepted, and nothing else is counted.
pub proof fn law_acceptance_is_told(
    hub: HubView,
    request: RequestId,
    operation: OperationContextView,
    now: u64,
)
    requires
        hub.valid(),
        hub.has_room(3),
        !hub.requests.contains_key(request@),
        hub.requests.dom().len() < usize::MAX,
    ensures
        ({
            let after = hub.accepted(request, operation, now);
            let started = if operation.observable {
                seq![RuntimeEventKindView::OperationStarted(operation)]
            } else {
                Seq::empty()
            };
            let busy = if hub.snapshot.in_flight_requests == 0 {
                seq![RuntimeEventKindView::ActivityChanged {
                    from: ServiceActivity::Idle,
                    to: ServiceActivity::Busy,
                }]
            } else {
                Seq::empty()
            };
            &&& told(
                hub,
                after,
                started + seq![RuntimeEventKindView::RequestAccepted {
                    request,
                    operation: operation.id,
                }] + busy,
                now,
            )
            &&& after.requests.contains_key(request@)
            &&& after.requests[request@].request == request
            &&& after.requests[request@].operation == operation.id
            &&& after.requests[request@].observable == operation.observable
            &&& after.requests.remove(request@) == hub.requests
            &&& after.snapshot.activity == ServiceActivity::Busy
            &&& after.snapshot.in_flight_requests == hub.snapshot.in_flight_requests + 1
            &&& after.snapshot.accepted_requests == hub.snapshot.accepted_requests + 1
            &&& after.snapshot.completed_requests == hub.snapshot.completed_requests
            &&& after.snapshot.rejected_requests == hub.snapshot.rejected_requests
            &&& after.snapshot.queued_requests == hub.snapshot.queued_requests
            &&& after.snapshot.lifecycle == hub.snapshot.lifecycle
            &&& after.snapshot.last_error == hub.snapshot.last_error
            &&& after.tasks == hub.tasks
        }),
{
    let after = hub.accepted(request, operation, now);
    assert(hub.requests.insert(request@, after.requests[request@]).dom() =~= hub.requests.dom().insert(
        request@,
    ));
    assert(after.requests.remove(request@) =~= hub.requests);
}

/// A request that is turned away is told with its reason and counted as
/// rejected. It is never in flight, and nothing else changes.
pub proof fn law_rejection_is_told(
    hub: HubView,
    operation: OperationId,
    reason: Seq<char>,
    now: u64,
)
    requires
        hub.valid(),
        hub.has_room(1),
    ensures
        ({
            let after = hub.rejected(operation, reason, now);
            &&& told(
                hub,
                after,
                seq![RuntimeEventKindView::RequestRejected { operation, reason }],
                now,
            )
            &&& after.snapshot.rejected_requests == hub.snapshot.rejected_requests + 1
            &&& after.snapshot.accepted_requests == hub.snapshot.accepted_requests
            &&& after.snapshot.completed_requests == hub.snapshot.completed_requests
            &&& after.snapshot.in_flight_requests == hub.snapshot.in_flight_requests
            &&& after.snapshot.queued_requests == hub.snapshot.queued_requests
            &&& after.snapshot.lifecycle == hub.snapshot.lifecycle
            &&& after.snapshot.activity == hub.snapshot.activity
            &&& after.snapshot.last_error == hub.snapshot.last_error
            &&& after.requests == hub.requests
            &&& after.tasks == hub.tasks
        }),
{
}

/// A request that ends is told before the service becomes idle, where it was the
/// last, and before the end of its operation, where that is observable; all
/// carry the same error. It is no longer in flight and counted as completed. An
/// error is remembered as the last one, and a success leaves the last one. A
/// request that is not in flight changes nothing.
pub proof fn law_end_of_request_is_told(
    hub: HubView,
    request: u64,
    error: Option<Seq<char>>,
    now: u64,
)
    requires
        hub.valid(),
        hub.has_room(3),
    ensures
        !hub.requests.contains_key(request) ==> hub.finished(request, error, now) == hub,
        hub.requests.contains_key(request) ==> ({
            let after = hub.finished(request, error, now);
            let ended = hub.requests[request];
            let idle = if hub.snapshot.in_flight_requests == 1 {
                seq![RuntimeEventKindView::ActivityChanged {
                    from: ServiceActivity::Busy,
                    to: ServiceActivity::Idle,
                }]
            } else {
                Seq::empty()
            };
            let over = if ended.observable {
                seq![RuntimeEventKindView::OperationFinished { operation: ended.operation, error }]
            } else {
                Seq::empty()
            };
            &&& told(
                hub,
                after,
                seq![RuntimeEventKindView::RequestFinished {
                    request: ended.request,
                    operation: ended.operation,
                    error,
                }] + idle + over,
                now,
            )
            &&& after.requests == hub.requests.remove(request)
            &&& after.snapshot.in_flight_requests == hub.snapshot.in_flight_requests - 1
            &&& after.snapshot.completed_requests == hub.snapshot.completed_requests + 1
            &&& after.snapshot.accepted_requests == hub.snapshot.accepted_requests
            &&& after.snapshot.rejected_requests == hub.snapshot.rejected_requests
            &&& after.snapshot.queued_requests == hub.snapshot.queued_requests
            &&& after.snapshot.lifecycle == hub.snapshot.lifecycle
            &&& error is Some ==> after.snapshot.last_error == error
            &&& error is None ==> after.snapshot.last_error == hub.snapshot.last_error
            &&& after.snapshot.activity is Idle <==> hub.snapshot.in_flight_requests == 1
            &&& after.tasks == hub.tasks
        }),
{
    if hub.requests.contains_key(request) {
        assert(hub.requests.remove(request).dom() =~= hub.requests.dom().remove(request));
        assert(hub.requests.dom().contains(request));
    }
}

/// A service is busy exactly while requests are in flight, and a change of the
/// activity is passed on exactly when there is one.
pub proof fn law_activity_follows_the_requests(hub: HubView, after: HubView)
    requires
        hub.valid(),
    ensures
        hub.snapshot.activity is Busy <==> hub.requests.dom().len() > 0,
        hub.activity_edge(after) is Some <==> hub.snapshot.activity != after.snapshot.activity,
        hub.activity_edge(after) matches Some(activity) ==> activity == after.snapshot.activity,
{
}

/// A task that starts is told with its first snapshot and is active from then
/// on. The token that cancels it is kept with it.
pub proof fn law_start_of_task_is_told(
    hub: HubView,
    snapshot: TaskSnapshotView,
    cancellation: CancellationToken,
    now: u64,
)
    requires
        hub.valid(),
        hub.has_room(1),
    ensures
        ({
            let after = hub.task_started(snapshot, cancellation, now);
            &&& told(hub, after, seq![RuntimeEventKindView::TaskStarted(snapshot)], now)
            &&& after.tasks.contains_key(snapshot.id@)
            &&& after.tasks[snapshot.id@].snapshot == snapshot
            &&& after.tasks[snapshot.id@].cancellation == cancellation
            &&& same_other_tasks(hub, after, snapshot.id@)
            &&& same_requests(hub, after)
            &&& after.snapshot.lifecycle == hub.snapshot.lifecycle
        }),
{
}

/// What a task reports is told, and its snapshot shows it: progress, a milestone,
/// or what it waits for. Everything else of the task stays as it was, and so do
/// all other tasks and the token of this one.
pub proof fn law_reports_of_task_are_told(
    hub: HubView,
    task: TaskId,
    progress: u8,
    message: Seq<char>,
    dependency: Option<Seq<char>>,
    now: u64,
)
    requires
        hub.valid(),
        hub.has_room(1),
    ensures
        ({
            let after = hub.task_progressed(task, progress, now);
            &&& told(hub, after, seq![RuntimeEventKindView::TaskProgress { task, progress }], now)
            &&& same_other_tasks(hub, after, task@)
            &&& same_requests(hub, after)
            &&& after.snapshot.lifecycle == hub.snapshot.lifecycle
            &&& after.tasks.contains_key(task@) <==> hub.tasks.contains_key(task@)
            &&& hub.tasks.contains_key(task@) ==> after.tasks[task@] == (ActiveTaskView {
                snapshot: TaskSnapshotView {
                    progress: Some(progress),
                    ..hub.tasks[task@].snapshot
                },
                cancellation: hub.tasks[task@].cancellation,
            })
        }),
        ({
            let after = hub.task_reached(task, message, now);
            &&& told(hub, after, seq![RuntimeEventKindView::TaskMilestone { task, message }], now)
            &&& same_other_tasks(hub, after, task@)
            &&& same_requests(hub, after)
            &&& after.snapshot.lifecycle == hub.snapshot.lifecycle
            &&& after.tasks.contains_key(task@) <==> hub.tasks.contains_key(task@)
            &&& hub.tasks.contains_key(task@) ==> after.tasks[task@] == (ActiveTaskView {
                snapshot: TaskSnapshotView {
                    milestone: Some(message),
                    ..hub.tasks[task@].snapshot
                },
                cancellation: hub.tasks[task@].cancellation,
            })
        }),
        ({
            let after = hub.task_waits(task, dependency, now);
            &&& told(hub, after, seq![RuntimeEventKindView::TaskBlocked { task, dependency }], now)
            &&& same_other_tasks(hub, after, task@)
            &&& same_requests(hub, after)
            &&& after.snapshot.lifecycle == hub.snapshot.lifecycle
            &&& after.tasks.contains_key(task@) <==> hub.tasks.contains_key(task@)
            &&& hub.tasks.contains_key(task@) ==> after.tasks[task@] == (ActiveTaskView {
                snapshot: TaskSnapshotView {
                    blocked_on: dependency,
                    ..hub.tasks[task@].snapshot
                },
                cancellation: hub.tasks[task@].cancellation,
            })
        }),
{
}

/// A task that ends is told with its outcome and is active no longer; its
/// operation is named. A task that is not active ends nothing.
pub proof fn law_end_of_task_is_told(hub: HubView, task: u64, outcome: TaskOutcomeView, now: u64)
    requires
        hub.valid(),
        hub.has_room(1),
    ensures
        !hub.tasks.contains_key(task) ==> hub.task_ended(task, outcome, now) == hub,
        hub.tasks.contains_key(task) ==> ({
            let after = hub.task_ended(task, outcome, now);
            &&& told(
                hub,
                after,
                seq![RuntimeEventKindView::TaskFinished {
                    task: hub.tasks[task].snapshot.id,
                    operation: hub.tasks[task].snapshot.operation_id,
                    outcome,
                }],
                now,
            )
            &&& !after.tasks.contains_key(task)
            &&& same_other_tasks(hub, after, task)
            &&& same_requests(hub, after)
            &&& after.snapshot.lifecycle == hub.snapshot.lifecycle
        }),
{
}

/// Cancellation of a task is refused exactly when the task is not active or
/// cannot be cancelled, and the refusal names it. Otherwise the request is told
/// with its cause, and the task stays active and is seen to be cancelling.
pub proof fn law_cancellation_is_told(hub: HubView, task: TaskId, cause: Seq<char>, now: u64)
    requires
        hub.valid(),
        hub.has_room(1),
    ensures
        !hub.tasks.contains_key(task@) ==> hub.cancel_refusal(task) == Some(
            ControlError::TaskNotFound(task),
        ),
        hub.tasks.contains_key(task@) && !hub.tasks[task@].snapshot.cancellable
            ==> hub.cancel_refusal(task) == Some(ControlError::TaskNotCancellable(task)),
        hub.tasks.contains_key(task@) && hub.tasks[task@].snapshot.cancellable
            ==> hub.cancel_refusal(task) is None,
        hub.cancel_refusal(task) is Some ==> hub.cancel_requested(task, cause, now) == hub,
        hub.cancel_refusal(task) is None ==> ({
            let after = hub.cancel_requested(task, cause, now);
            &&& told(
                hub,
                after,
                seq![RuntimeEventKindView::TaskCancelRequested { task, cause }],
                now,
            )
            &&& after.tasks.contains_key(task@)
            &&& after.tasks[task@] == (ActiveTaskView {
                snapshot: TaskSnapshotView {
                    state: TaskState::Cancelling,
                    ..hub.tasks[task@].snapshot
                },
                cancellation: hub.tasks[task@].cancellation,
            })
            &&& same_other_tasks(hub, after, task@)
            &&& same_requests(hub, after)
            &&& after.snapshot.lifecycle == hub.snapshot.lifecycle
        }),
{
}

/// The tokens of some tasks are those of the cancellable ones, each of them and
/// no others.
pub proof fn law_tokens_are_those_of_cancellable_tasks(
    hub: HubView,
    tasks: Seq<u64>,
    token: CancellationToken,
)
    ensures
        hub.tokens_of(tasks).contains(token) <==> exists|i: int|
            0 <= i < tasks.len() && hub.tasks[#[trigger] tasks[i]].snapshot.cancellable
                && hub.tasks[tasks[i]].cancellation == token,
        hub.tokens_of(tasks).len() <= tasks.len(),
    decreases tasks.len(),
{
    if tasks.len() > 0 {
        let shorter = tasks.drop_last();
        let last = tasks.len() - 1;
        law_tokens_are_those_of_cancellable_tasks(hub, shorter, token);
        let before = hub.tokens_of(shorter);
        let tokens = hub.tokens_of(tasks);
        if before.contains(token) {
            let k = choose|k: int| 0 <= k < before.len() && before[k] == token;
            assert(tokens[k] == token);
            let i = choose|i: int|
                0 <= i < shorter.len() && hub.tasks[#[trigger] shorter[i]].snapshot.cancellable
                    && hub.tasks[shorter[i]].cancellation == token;
            assert(tasks[i] == shorter[i]);
        }
        if hub.tasks[tasks[last]].snapshot.cancellable {
            assert(tokens[tokens.len() - 1] == hub.tasks[tasks[last]].cancellation);
        }
        if tokens.contains(token) && !before.contains(token) {
            let k = choose|k: int| 0 <= k < tokens.len() && tokens[k] == token;
            if k < before.len() {
                assert(before[k] == token);
            }
            assert(hub.tasks[tasks[last]].cancellation == token);
        }
        if exists|i: int|
            0 <= i < tasks.len() && hub.tasks[#[trigger] tasks[i]].snapshot.cancellable
                && hub.tasks[tasks[i]].cancellation == token {
            let i = choose|i: int|
                0 <= i < tasks.len() && hub.tasks[#[trigger] tasks[i]].snapshot.cancellable
                    && hub.tasks[tasks[i]].cancellation == token;
            if i < last {
                assert(shorter[i] == tasks[i]);
            }
        }
    }
}

/// A service that fails enters its last stage with the error, which is the last
/// error from then on; one that is aborted by force enters `Stopped`. Either is
/// told last of all, with the reason, and turns away no request.
pub proof fn law_failure_is_told_last(hub: HubView, reason: Seq<char>, now: u64)
    requires
        hub.valid(),
        hub.has_room(hub.closing_events()),
    ensures
        ({
            let after = hub.failed(reason, now);
            &&& after.snapshot.lifecycle == ServiceLifecycle::Failed
            &&& after.snapshot.last_error == Some(reason)
            &&& after.outbox.len() > 0
            &&& after.outbox.last().kind matches RuntimeEventKindView::LifecycleChanged {
                to,
                reason: said,
                ..
            }
            &&& to == ServiceLifecycle::Failed
            &&& said == reason
        }),
        ({
            let after = hub.force_aborted(reason, now);
            &&& after.snapshot.lifecycle == ServiceLifecycle::Stopped
            &&& hub.requests.dom().len() == 0 ==> after.snapshot.last_error
                == hub.snapshot.last_error
            &&& after.outbox.len() > 0
            &&& after.outbox.last().kind matches RuntimeEventKindView::LifecycleChanged {
                to,
                reason: said,
                ..
            }
            &&& to == ServiceLifecycle::Stopped
            &&& said == reason
        }),
{
    let ended = hub.tasks_ended(task_order(hub.tasks), TaskOutcomeView::Aborted, now);
    lemma_tasks_ended_keep_error(hub, task_order(hub.tasks), now);
    lemma_order_length::<RequestId>(hub.requests.dom());
}

proof fn lemma_tasks_ended_keep_error(hub: HubView, tasks: Seq<u64>, now: u64)
    ensures
        hub.tasks_ended(tasks, TaskOutcomeView::Aborted, now).snapshot.last_error
            == hub.snapshot.last_error,
    decreases tasks.len(),
{
    if tasks.len() > 0 {
        lemma_tasks_ended_keep_error(hub, tasks.drop_last(), now);
    }
}

/// Tasks and requests are listed in ascending order of their numbers, each once.
pub proof fn law_listing_is_in_ascending_order(hub: HubView, i: int, j: int)
    requires
        hub.valid(),
        0 <= i < j,
    ensures
        j < hub.snapshot.active_tasks.len() ==> hub.snapshot.active_tasks[i].id@
            < hub.snapshot.active_tasks[j].id@,
        j < request_order(hub.requests).len() ==> request_order(hub.requests)[i] < request_order(
            hub.requests,
        )[j],
        j < task_order(hub.tasks).len() ==> task_order(hub.tasks)[i] < task_order(hub.tasks)[j],
{
    let order = task_order(hub.tasks);
    lemma_every_key_is_listed::<TaskId>(hub.tasks.dom());
    lemma_every_key_is_listed::<RequestId>(hub.requests.dom());
    if j < order.len() {
        assert(<TaskId as crate::ordered_map::MapKey>::before(order[i], order[j]));
        assert(hub.tasks.dom().contains(order[i]));
        assert(hub.tasks.dom().contains(order[j]));
        assert(hub.tasks.contains_key(order[i]) && hub.tasks.contains_key(order[j]));
    }
    let requests = request_order(hub.requests);
    if j < requests.len() {
        assert(<RequestId as crate::ordered_map::MapKey>::before(requests[i], requests[j]));
    }
}

/// A task that is registered starts as it was described: running, or cancelling
/// where its scope is cancelled already, without progress, milestone or dependency.
pub proof fn law_registered_task_starts_as_described(
    registration: TaskRegistration,
    id: TaskId,
    cancelled: bool,
    now: u64,
)
    ensures
        ({
            let snapshot = registration.started(id, cancelled, now);
            &&& snapshot.id == id
            &&& snapshot.operation_id == registration.operation
            &&& snapshot.trace_id == registration.trace_id@
            &&& snapshot.key == registration.key@
            &&& snapshot.kind == registration.kind@
            &&& snapshot.summary == registration.summary@
            &&& snapshot.cancellable == registration.cancellable
            &&& snapshot.state is Cancelling <==> cancelled
            &&& snapshot.progress is None
            &&& snapshot.milestone is None
            &&& snapshot.blocked_on is None
            &&& snapshot.started_at_ms == now
        }),
{
}

/// A hub begins with a service that initializes, idle and without any work, and
/// keeps at least one event.
pub proof fn law_hub_begins_idle(
    service: &str,
    domain: &str,
    history_limit: usize,
    hub: ObservationHub,
)
    requires
        call_ensures(ObservationHub::new, (service, domain, history_limit), hub),
    ensures
        hub@.snapshot.lifecycle is Initializing,
        hub@.snapshot.activity is Idle,
        hub@.snapshot.revision == 0,
        hub@.snapshot.service == service@,
        hub@.snapshot.domain == domain@,
        hub@.snapshot.last_error is None,
        hub@.holds_no_work(),
        hub@.history.len() == 0,
        hub@.outbox.len() == 0,
        history_limit > 0 ==> hub@.history_limit == history_limit,
        history_limit == 0 ==> hub@.history_limit == 1,
{
    assert(hub@.tasks.dom() =~= Set::<u64>::empty());
    assert(hub@.requests.dom() =~= Set::<u64>::empty());
}

/// Events are handed out once, in the order in which they happened, and handing
/// them out leaves everything that is observed.
pub proof fn law_events_are_handed_out_once(
    hub: &mut ObservationHub,
    events: Vec<Arc<RuntimeEvent>>,
    at: int,
)
    requires
        call_ensures(ObservationHub::take_outbox, (hub,), events),
    ensures
        events@.len() == old(hub)@.outbox.len(),
        0 <= at < events@.len() ==> events@[at]@ == old(hub)@.outbox[at],
        final(hub)@.outbox.len() == 0,
        final(hub)@.snapshot == old(hub)@.snapshot,
        final(hub)@.history == old(hub)@.history,
        final(hub)@.tasks == old(hub)@.tasks,
        final(hub)@.requests == old(hub)@.requests,
{
    let seen = events@.map_values(|event: Arc<RuntimeEvent>| event@);
    assert(seen.len() == events@.len());
    if 0 <= at < events@.len() {
        assert(seen[at] == events@[at]@);
    }
}

/// What a task reports is told once and as it was reported, with a progress of at
/// most one hundred. The end of an active task is told with its outcome.
pub proof fn law_calls_of_a_task_are_told(
    hub: &mut ObservationHub,
    task: TaskId,
    progress: u8,
    progressed: (),
    reaching: &mut ObservationHub,
    message: &str,
    reached: (),
    waiting: &mut ObservationHub,
    dependency: Option<String>,
    blocked: (),
    ending: &mut ObservationHub,
    outcome: TaskOutcome,
    ended: (),
    now: u64,
)
    requires
        old(hub)@.valid() && old(hub)@.has_room(1),
        old(reaching)@.valid() && old(reaching)@.has_room(1),
        old(waiting)@.valid() && old(waiting)@.has_room(1),
        old(ending)@.valid() && old(ending)@.has_room(1),
        call_ensures(ObservationHub::task_progress, (hub, task, progress, now), progressed),
        call_ensures(ObservationHub::task_milestone, (reaching, task, message, now), reached),
        call_ensures(ObservationHub::task_blocked, (waiting, task, dependency, now), blocked),
        call_ensures(ObservationHub::finish_task, (ending, task, outcome, now), ended),
    ensures
        exists|told_progress: u8|
            {
                &&& told_progress <= 100
                &&& progress <= 100 ==> told_progress == progress
                &&& progress > 100 ==> told_progress == 100
                &&& #[trigger] told(
                    old(hub)@,
                    final(hub)@,
                    seq![RuntimeEventKindView::TaskProgress { task, progress: told_progress }],
                    now,
                )
            },
        told(
            old(reaching)@,
            final(reaching)@,
            seq![RuntimeEventKindView::TaskMilestone { task, message: message@ }],
            now,
        ),
        dependency is None ==> told(
            old(waiting)@,
            final(waiting)@,
            seq![RuntimeEventKindView::TaskBlocked { task, dependency: None }],
            now,
        ),
        dependency matches Some(name) ==> told(
            old(waiting)@,
            final(waiting)@,
            seq![RuntimeEventKindView::TaskBlocked { task, dependency: Some(name@) }],
            now,
        ),
        !final(ending)@.tasks.contains_key(task@),
        !old(ending)@.tasks.contains_key(task@) ==> final(ending)@ == old(ending)@,
        old(ending)@.tasks.contains_key(task@) ==> told(
            old(ending)@,
            final(ending)@,
            seq![RuntimeEventKindView::TaskFinished {
                task: old(ending)@.tasks[task@].snapshot.id,
                operation: old(ending)@.tasks[task@].snapshot.operation_id,
                outcome: outcome@,
            }],
            now,
        ),
{
    let most: u8 = if progress > 100 {
        100
    } else {
        progress
    };
    law_reports_of_task_are_told(old(hub)@, task, most, message@, None, now);
    law_reports_of_task_are_told(old(reaching)@, task, most, message@, None, now);
    law_reports_of_task_are_told(
        old(waiting)@,
        task,
        most,
        message@,
        optional_text(dependency),
        now,
    );
    law_end_of_task_is_told(old(ending)@, task@, outcome@, now);
}

/// A transition is told with everything that it names, a change of the stage with
/// the stage that was left, and neither changes the tasks.
pub proof fn law_transitions_and_stages_are_told(
    hub: &mut ObservationHub,
    task: TaskId,
    operation: OperationId,
    object: &str,
    event: &str,
    from: &str,
    action: &str,
    to: &str,
    moved: (),
    staged: &mut ObservationHub,
    stage: ServiceLifecycle,
    reason: &str,
    entered: (),
    now: u64,
)
    requires
        old(hub)@.valid() && old(hub)@.has_room(1),
        old(staged)@.valid() && old(staged)@.has_room(1),
        call_ensures(
            ObservationHub::state_transition,
            (hub, task, operation, object, event, from, action, to, now),
            moved,
        ),
        call_ensures(ObservationHub::lifecycle, (staged, stage, reason, now), entered),
    ensures
        told(
            old(hub)@,
            final(hub)@,
            seq![RuntimeEventKindView::StateTransition {
                task,
                operation,
                object: object@,
                event: event@,
                from: from@,
                action: action@,
                to: to@,
            }],
            now,
        ),
        final(hub)@.tasks == old(hub)@.tasks,
        final(hub)@.snapshot.lifecycle == old(hub)@.snapshot.lifecycle,
        told(
            old(staged)@,
            final(staged)@,
            seq![RuntimeEventKindView::LifecycleChanged {
                from: old(staged)@.snapshot.lifecycle,
                to: stage,
                reason: reason@,
            }],
            now,
        ),
        final(staged)@.tasks == old(staged)@.tasks,
        final(staged)@.snapshot.lifecycle == stage,
{
    law_stage_is_told(old(staged)@, stage, reason@, now);
    law_history_keeps_the_newest(
        old(hub)@,
        RuntimeEventKindView::StateTransition {
            task,
            operation,
            object: object@,
            event: event@,
            from: from@,
            action: action@,
            to: to@,
        },
        now,
    );
}

/// Cancellation of a task is granted exactly when the task is active and can be
/// cancelled, and its token is cancelled then; otherwise nothing changes.
pub proof fn law_cancellation_reaches_the_token(
    hub: &mut ObservationHub,
    task: TaskId,
    cause: &str,
    result: Result<(), ControlError>,
    all: &mut ObservationHub,
    asked: (),
    other: u64,
    now: u64,
)
    requires
        old(hub)@.valid() && old(hub)@.has_room(1),
        old(all)@.valid(),
        call_ensures(ObservationHub::cancel_task, (hub, task, cause, now), result),
        call_ensures(ObservationHub::cancel_all, (all, cause, now), asked),
    ensures
        result is Ok <==> old(hub)@.tasks.contains_key(task@)
            && old(hub)@.tasks[task@].snapshot.cancellable,
        result is Ok ==> cancel_requested(old(hub)@.tasks[task@].cancellation) && told(
            old(hub)@,
            final(hub)@,
            seq![RuntimeEventKindView::TaskCancelRequested { task, cause: cause@ }],
            now,
        ) && final(hub)@.tasks[task@].snapshot.state is Cancelling,
        result is Err ==> final(hub)@ == old(hub)@,
        result matches Err(error) ==> if old(hub)@.tasks.contains_key(task@) {
            error == ControlError::TaskNotCancellable(task)
        } else {
            error == ControlError::TaskNotFound(task)
        },
        old(all)@.tasks.contains_key(other) && old(all)@.tasks[other].snapshot.cancellable
            ==> cancel_requested(old(all)@.tasks[other].cancellation),
{
    law_cancellation_is_told(old(hub)@, task, cause@, now);
    if old(all)@.tasks.contains_key(other) && old(all)@.tasks[other].snapshot.cancellable {
        let before = old(all)@;
        let order = task_order(before.tasks);
        let token = before.tasks[other].cancellation;
        lemma_every_key_is_listed::<TaskId>(before.tasks.dom());
        assert(before.tasks.dom().contains(other));
        assert(order.contains(other));
        let i = choose|i: int| 0 <= i < order.len() && order[i] == other;
        assert(before.tasks[order[i]].snapshot.cancellable);
        law_tokens_are_those_of_cancellable_tasks(before, order, token);
        assert(before.tokens_of(order).contains(token));
    }
}

/// A request that is taken in is counted and told, as is one that is refused and
/// one that ends; the activity is reported exactly when it changes.
pub proof fn law_calls_of_a_request_are_told(
    hub: &mut ObservationHub,
    request: RequestId,
    operation: &OperationContext,
    busy: Option<ServiceActivity>,
    refusing: &mut ObservationHub,
    refused: OperationId,
    reason: &str,
    rejected: (),
    ending: &mut ObservationHub,
    error: Option<String>,
    idle: Option<ServiceActivity>,
    now: u64,
)
    requires
        old(hub)@.valid() && old(hub)@.has_room(3),
        !old(hub)@.requests.contains_key(request@),
        old(hub)@.requests.dom().len() < usize::MAX,
        old(refusing)@.valid() && old(refusing)@.has_room(1),
        old(ending)@.valid() && old(ending)@.has_room(3),
        old(ending)@.requests.contains_key(request@),
        call_ensures(ObservationHub::request_accepted, (hub, request, operation, now), busy),
        call_ensures(ObservationHub::request_rejected, (refusing, refused, reason, now), rejected),
        call_ensures(ObservationHub::request_finished, (ending, request, error, now), idle),
    ensures
        final(hub)@.requests.contains_key(request@),
        final(hub)@.requests[request@].operation == operation@.id,
        final(hub)@.snapshot.accepted_requests == old(hub)@.snapshot.accepted_requests + 1,
        final(hub)@.snapshot.in_flight_requests == old(hub)@.snapshot.in_flight_requests + 1,
        busy is Some <==> old(hub)@.snapshot.in_flight_requests == 0,
        busy matches Some(activity) ==> activity is Busy,
        told(
            old(refusing)@,
            final(refusing)@,
            seq![RuntimeEventKindView::RequestRejected { operation: refused, reason: reason@ }],
            now,
        ),
        final(refusing)@.snapshot.rejected_requests == old(refusing)@.snapshot.rejected_requests
            + 1,
        !final(ending)@.requests.contains_key(request@),
        final(ending)@.snapshot.completed_requests == old(ending)@.snapshot.completed_requests + 1,
        error matches Some(text) ==> final(ending)@.snapshot.last_error == Some(text@),
        error is None ==> final(ending)@.snapshot.last_error == old(ending)@.snapshot.last_error,
        idle is Some <==> old(ending)@.snapshot.in_flight_requests == 1,
        idle matches Some(activity) ==> activity is Idle,
{
    law_acceptance_is_told(old(hub)@, request, operation@, now);
    law_rejection_is_told(old(refusing)@, refused, reason@, now);
    law_end_of_request_is_told(old(ending)@, request@, optional_text(error), now);
    law_activity_follows_the_requests(old(hub)@, final(hub)@);
    law_activity_follows_the_requests(old(ending)@, final(ending)@);
}

/// A service that fails or is aborted by force keeps no work, with the reason at
/// hand, and the queue is counted up and down by one.
pub proof fn law_calls_that_close_leave_no_work(
    failing: &mut ObservationHub,
    error: &str,
    failed: (),
    aborting: &mut ObservationHub,
    reason: &str,
    aborted: (),
    queue: &mut ObservationHub,
    enqueued: (),
    unqueue: &mut ObservationHub,
    dequeued: (),
    now: u64,
)
    requires
        old(failing)@.valid() && old(failing)@.has_room(old(failing)@.closing_events()),
        old(aborting)@.valid() && old(aborting)@.has_room(old(aborting)@.closing_events()),
        old(queue)@.snapshot.queued_requests < usize::MAX && old(queue)@.has_room(2),
        old(unqueue)@.snapshot.queued_requests > 0,
        call_ensures(ObservationHub::fail, (failing, error, now), failed),
        call_ensures(ObservationHub::force_abort, (aborting, reason, now), aborted),
        call_ensures(ObservationHub::request_enqueued, (queue,), enqueued),
        call_ensures(ObservationHub::request_dequeued, (unqueue,), dequeued),
    ensures
        final(failing)@.snapshot.lifecycle is Failed,
        final(failing)@.snapshot.last_error == Some(error@),
        final(failing)@.holds_no_work(),
        final(aborting)@.snapshot.lifecycle is Stopped,
        final(aborting)@.holds_no_work(),
        final(queue)@.snapshot.queued_requests == old(queue)@.snapshot.queued_requests + 1,
        final(unqueue)@.snapshot.queued_requests == old(unqueue)@.snapshot.queued_requests - 1,
{
    law_failure_leaves_no_work(old(failing)@, error@, now);
    law_force_abort_leaves_no_work(old(aborting)@, reason@, now);
    law_queue_is_counted(old(queue)@);
}

} // verus!
