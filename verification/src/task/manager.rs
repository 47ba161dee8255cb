//! Managed tasks of a service.
//!
//! Of the tasks with one key at most one runs. A new task on a taken key is
//! refused, or replaces the running one: that is cancelled, and the new task
//! waits until it has settled.
use super::context::{
    announced, cancellation_reason, effective_reason, reason_made, reason_recorded, shows_task,
    ConflictPolicy, RequestContext, ScopeReason, TaskContext, TaskMeta, TaskRecord, TaskSnapshot,
    TaskSnapshotView, TaskState,
};
use super::entry::{
    find_waiting, identities_differ, list_tasks, pending_held, pending_records, running_views,
    shown_tasks, task_waits_for, PendingTask, RunningTask, RunningView,
};
use crate::ordered_map::{
    lemma_every_key_is_listed, lemma_order_length, ordered_keys, OrderedMap,
};
use crate::outside::{
    answered, cancel_requested, channel_made, child_token, delivered_as, descends_from, sent,
};
use crate::protocol::{
    reason_view, CancelReason, CancelReasonView, RuntimeError, TaskKey,
};
use crate::runtime::ids::{number_after, IdCounter, RequestId, TaskId};
use tokio::sync::oneshot;
use vstd::pervasive::cloned;
use vstd::prelude::*;

verus! {

/// The identity of a service within its group.
pub trait ServiceKey: Clone {

}

impl<T: Clone> ServiceKey for T {

}

/// How a handler ended.
#[derive(Debug, Clone, Copy, PartialEq, Eq, Structural)]
pub enum HandlerOutcome {
    Completed,
    Failed,
    Aborted,
}

/// The last state of a task: cancelled where a reason was given, otherwise as
/// its handler ended.
pub open spec fn last_state(outcome: HandlerOutcome, reason: Option<CancelReasonView>) -> TaskState {
    if reason is Some {
        TaskState::Cancelled
    } else {
        match outcome {
            HandlerOutcome::Completed => TaskState::Completed,
            HandlerOutcome::Failed => TaskState::Failed,
            HandlerOutcome::Aborted => TaskState::Aborted,
        }
    }
}

/// Tells the last state of a task.
pub fn terminal_state(outcome: HandlerOutcome, cancellation: Option<&CancelReason>) -> (state:
    TaskState)
    ensures
        state == (match cancellation {
            Some(reason) => last_state(outcome, Some(reason@)),
            None => last_state(outcome, None),
        }),
{
    if cancellation.is_some() {
        return TaskState::Cancelled;
    }
    match outcome {
        HandlerOutcome::Completed => TaskState::Completed,
        HandlerOutcome::Failed => TaskState::Failed,
        HandlerOutcome::Aborted => TaskState::Aborted,
    }
}

/// Where the starter of a waiting task learns that it runs, or why it never will.
pub type ReadySender = oneshot::Sender<Result<TaskContext, RuntimeError>>;

/// A list without one of its members.
pub open spec fn without(tasks: Seq<TaskId>, task: TaskId) -> Seq<TaskId>
    decreases tasks.len(),
{
    if tasks.len() == 0 {
        tasks
    } else {
        let rest = without(tasks.drop_last(), task);
        if tasks.last() == task {
            rest
        } else {
            rest.push(tasks.last())
        }
    }
}

/// Everything that a manager knows.
#[verifier::ext_equal]
pub struct ManagerView {
    pub running: Map<u64, RunningView>,
    pub by_key: Map<Seq<char>, TaskId>,
    pub pending: Map<Seq<char>, TaskRecord>,
    pub by_request: Map<u64, Seq<TaskId>>,
    pub primary_by_request: Map<u64, TaskId>,
    pub terminal_cancellation: Map<u64, CancelReasonView>,
    pub emitted: Seq<TaskSnapshotView>,
}

impl ManagerView {
    /// A manager without tasks.
    pub open spec fn vacant() -> Self {
        ManagerView {
            running: Map::empty(),
            by_key: Map::empty(),
            pending: Map::empty(),
            by_request: Map::empty(),
            primary_by_request: Map::empty(),
            terminal_cancellation: Map::empty(),
            emitted: Seq::empty(),
        }
    }

    /// What every manager keeps: keys and running tasks correspond one to one,
    /// a task waits only for a key that is taken, and no identity is used twice.
    pub open spec fn valid(self) -> bool {
        &&& self.exclusive()
        &&& forall|key: Seq<char>| #[trigger]
            self.pending.contains_key(key) ==> self.by_key.contains_key(key)
    }

    /// The part of validity that holds while keys are handed over.
    pub open spec fn exclusive(self) -> bool {
        &&& forall|id: u64| #[trigger]
            self.running.contains_key(id) ==> {
                let record = self.running[id].record;
                &&& record.id@ == id
                &&& self.by_key.contains_key(record.meta.key@)
                &&& self.by_key[record.meta.key@] == record.id
            }
        &&& forall|key: Seq<char>| #[trigger]
            self.by_key.contains_key(key) ==> {
                &&& self.running.contains_key(self.by_key[key]@)
                &&& self.running[self.by_key[key]@].record.meta.key@ == key
            }
        &&& forall|key: Seq<char>| #[trigger]
            self.pending.contains_key(key) ==> {
                &&& self.pending[key].meta.key@ == key
                &&& !self.running.contains_key(self.pending[key].id@)
            }
        &&& forall|a: Seq<char>, b: Seq<char>|
            (#[trigger] self.pending.contains_key(a)) && (#[trigger] self.pending.contains_key(b))
                && a != b ==> self.pending[a].id@ != self.pending[b].id@
    }

    /// Whether no task has this identity.
    pub open spec fn is_free(self, id: u64) -> bool {
        &&& !self.running.contains_key(id)
        &&& forall|key: Seq<char>| #[trigger]
            self.pending.contains_key(key) ==> self.pending[key].id@ != id
    }

    /// The manager after a task was tied to its request.
    pub open spec fn remembered(self, request: u64, task: TaskId) -> Self {
        ManagerView {
            by_request: self.by_request.insert(request, self.tasks_of(request).push(task)),
            primary_by_request: if self.primary_by_request.contains_key(request) {
                self.primary_by_request
            } else {
                self.primary_by_request.insert(request, task)
            },
            ..self
        }
    }

    /// The tasks of a request, oldest first.
    pub open spec fn tasks_of(self, request: u64) -> Seq<TaskId> {
        if self.by_request.contains_key(request) {
            self.by_request[request]
        } else {
            Seq::empty()
        }
    }

    /// The manager after a task was cut off from its request.
    pub open spec fn forgotten(self, request: u64, task: TaskId) -> Self {
        if self.by_request.contains_key(request) {
            let rest = without(self.by_request[request], task);
            ManagerView {
                by_request: if rest.len() == 0 {
                    self.by_request.remove(request)
                } else {
                    self.by_request.insert(request, rest)
                },
                ..self
            }
        } else {
            self
        }
    }

    /// The manager after a change of a task was announced.
    pub open spec fn told(self, task: TaskRecord, state: TaskState) -> Self {
        ManagerView { emitted: self.emitted.push(task.shown(state)), ..self }
    }

    /// The manager after a task began to run on a free key.
    pub open spec fn running_now(self, record: TaskRecord) -> Self {
        ManagerView {
            by_key: self.by_key.insert(record.meta.key@, record.id),
            running: self.running.insert(
                record.id@,
                RunningView { record, state: TaskState::Running, reason: None },
            ),
            ..self
        }.told(record, TaskState::Running)
    }

    /// The manager after cancellation of a running task was requested. The first
    /// reason counts.
    pub open spec fn cancelling(self, id: u64, reason: CancelReasonView) -> Self {
        let running = self.running[id];
        ManagerView {
            running: self.running.insert(
                id,
                RunningView {
                    state: TaskState::Cancelling,
                    reason: Some(
                        match running.reason {
                            Some(earlier) => earlier,
                            None => reason,
                        },
                    ),
                    ..running
                },
            ),
            ..self
        }.told(running.record, TaskState::Cancelling)
    }

    /// The manager after a waiting task was cancelled.
    pub open spec fn pending_cancelled(self, key: Seq<char>, reason: CancelReasonView) -> Self {
        let record = self.pending[key];
        let forgotten = ManagerView { pending: self.pending.remove(key), ..self }.forgotten(
            record.request.request_id@,
            record.id,
        );
        ManagerView {
            terminal_cancellation: forgotten.terminal_cancellation.insert(
                record.request.request_id@,
                reason,
            ),
            ..forgotten
        }.told(record, TaskState::Cancelled)
    }

    /// The manager after a task was created, unless its key is taken and it does
    /// not replace.
    pub open spec fn created(self, record: TaskRecord, conflict: ConflictPolicy) -> Self {
        let key = record.meta.key@;
        if !self.by_key.contains_key(key) {
            self.remembered(record.request.request_id@, record.id).running_now(record)
        } else {
            match conflict {
                ConflictPolicy::Reject => self,
                ConflictPolicy::Replace(reason) => {
                    let cancelled = self.cancelling(self.by_key[key]@, reason@);
                    let cleared = if cancelled.pending.contains_key(key) {
                        cancelled.pending_cancelled(
                            key,
                            CancelReasonView::Requested("replaced while waiting for task slot"@),
                        )
                    } else {
                        cancelled
                    };
                    let remembered = cleared.remembered(record.request.request_id@, record.id);
                    ManagerView {
                        pending: remembered.pending.insert(key, record),
                        ..remembered
                    }.told(record, TaskState::Queued)
                },
            }
        }
    }

    /// The key that a waiting task waits for.
    pub open spec fn waits_for(self, id: u64, key: Seq<char>) -> bool {
        self.pending.contains_key(key) && self.pending[key].id@ == id
    }

    /// The manager after every task was aborted: first those that wait, then
    /// those that run.
    pub open spec fn all_aborted(self) -> Self {
        ManagerView {
            running: Map::empty(),
            by_key: Map::empty(),
            pending: Map::empty(),
            by_request: Map::empty(),
            emitted: self.emitted + ordered_keys::<TaskKey>(self.pending.dom()).map_values(
                |key: Seq<char>| self.pending[key].shown(TaskState::Aborted),
            ) + ordered_keys::<TaskId>(self.running.dom()).map_values(
                |id: u64| self.running[id].record.shown(TaskState::Aborted),
            ),
            ..self
        }
    }

    /// The manager after the task that waits for a key took it over. Where
    /// nobody waits for the task itself any more, it is aborted.
    pub open spec fn handed_over(self, key: Seq<char>, delivered: bool) -> Self {
        if !self.pending.contains_key(key) {
            self
        } else {
            let record = self.pending[key];
            let started = ManagerView {
                pending: self.pending.remove(key),
                ..self
            }.running_now(record);
            if delivered {
                started
            } else {
                ManagerView {
                    running: started.running.remove(record.id@),
                    by_key: started.by_key.remove(key),
                    ..started
                }.forgotten(record.request.request_id@, record.id).told(record, TaskState::Aborted)
            }
        }
    }
}

/// How a new task goes on.
pub enum Acquisition {
    /// It runs.
    Ready(TaskContext),
    /// It waits; the receiver learns when it runs, or why it never will.
    Waiting(oneshot::Receiver<Result<TaskContext, RuntimeError>>),
}

impl Acquisition {
    /// What the receiver of a waiting task brought.
    pub fn acquired(
        received: Result<Result<TaskContext, RuntimeError>, oneshot::error::RecvError>,
    ) -> (result: Result<TaskContext, RuntimeError>)
        ensures
            match received {
                Ok(answer) => result == answer,
                Err(_) => result matches Err(RuntimeError::ChannelClosed(name)) && name@
                    == "task acquisition"@,
            },
    {
        match received {
            Ok(answer) => answer,
            Err(_) => Err(RuntimeError::ChannelClosed("task acquisition".to_owned())),
        }
    }
}

/// The managed tasks of a service.
pub struct ServiceTaskManager<K: ServiceKey> {
    service: K,
    running: OrderedMap<TaskId, RunningTask>,
    by_key: OrderedMap<TaskKey, TaskId>,
    pending: OrderedMap<TaskKey, PendingTask<ReadySender>>,
    by_request: OrderedMap<RequestId, Vec<TaskId>>,
    primary_by_request: OrderedMap<RequestId, TaskId>,
    terminal_cancellation: OrderedMap<RequestId, CancelReason>,
    emitted: Vec<TaskSnapshot<K>>,
}

impl<K: ServiceKey> View for ServiceTaskManager<K> {
    type V = ManagerView;

    closed spec fn view(&self) -> ManagerView {
        ManagerView {
            running: running_views(self.running@),
            by_key: self.by_key@,
            pending: pending_records(self.pending@),
            by_request: self.by_request@.map_values(|tasks: Vec<TaskId>| tasks@),
            primary_by_request: self.primary_by_request@,
            terminal_cancellation: self.terminal_cancellation@.map_values(
                |reason: CancelReason| reason@,
            ),
            emitted: self.emitted@.map_values(|task: TaskSnapshot<K>| task@),
        }
    }
}

impl<K: ServiceKey> ServiceTaskManager<K> {
    spec fn ordered(&self) -> bool {
        &&& self.running.wf()
        &&& self.by_key.wf()
        &&& self.pending.wf()
        &&& self.by_request.wf()
        &&& self.primary_by_request.wf()
        &&& self.terminal_cancellation.wf()
        &&& forall|i: int|
            0 <= i < self.emitted@.len() ==> cloned(
                self.service,
                (#[trigger] self.emitted@[i]).service,
            )
    }

    /// The identity of the service.
    pub closed spec fn name(&self) -> K {
        self.service
    }

    /// Where the starters of the waiting tasks learn of them, by key.
    pub closed spec fn waiting(&self) -> Map<Seq<char>, ReadySender> {
        pending_held(self.pending@)
    }

    /// The manager is valid and its maps are in order.
    pub closed spec fn wf(&self) -> bool {
        self.ordered() && self@.valid()
    }

    /// A well-formed manager is valid.
    pub proof fn lemma_valid(&self)
        requires
            self.wf(),
        ensures
            self@.valid(),
    {
    }

    /// A manager without tasks.
    pub fn new(service: K) -> (manager: Self)
        ensures
            manager.wf(),
            manager@ == ManagerView::vacant(),
            manager.name() == service,
            manager.waiting() == Map::<Seq<char>, ReadySender>::empty(),
    {
        let manager = ServiceTaskManager {
            service,
            running: OrderedMap::new(),
            by_key: OrderedMap::new(),
            pending: OrderedMap::new(),
            by_request: OrderedMap::new(),
            primary_by_request: OrderedMap::new(),
            terminal_cancellation: OrderedMap::new(),
            emitted: Vec::new(),
        };
        proof {
            assert(manager@.running =~= Map::empty());
            assert(manager@.pending =~= Map::empty());
            assert(manager@.by_request =~= Map::empty());
            assert(manager@.terminal_cancellation =~= Map::empty());
            assert(manager@.emitted =~= Seq::empty());
            assert(manager.waiting() =~= Map::empty());
        }
        manager
    }

    fn emit(&mut self, record: &TaskRecord, state: TaskState)
        requires
            old(self).ordered(),
        ensures
            final(self).ordered(),
            final(self)@ == old(self)@.told(*record, state),
            final(self).service == old(self).service,
            final(self).running == old(self).running,
            final(self).by_key == old(self).by_key,
            final(self).pending == old(self).pending,
            final(self).by_request == old(self).by_request,
            final(self).primary_by_request == old(self).primary_by_request,
            final(self).terminal_cancellation == old(self).terminal_cancellation,
    {
        let snapshot = record.snapshot(&self.service, state);
        self.emitted.push(snapshot);
        assert(self@.emitted =~= old(self)@.emitted.push(record.shown(state)));
    }

    fn remember(&mut self, request: RequestId, task: TaskId)
        requires
            old(self).ordered(),
        ensures
            final(self).ordered(),
            final(self)@ == old(self)@.remembered(request@, task),
            final(self).service == old(self).service,
            final(self).pending == old(self).pending,
    {
        let ghost before = *self;
        let mut tasks = match self.by_request.remove(&request) {
            Some(tasks) => tasks,
            None => Vec::new(),
        };
        tasks.push(task);
        self.by_request.insert(request, tasks);
        if !self.primary_by_request.contains_key(&request) {
            self.primary_by_request.insert(request, task);
        }
        proof {
            assert(tasks@ =~= before@.tasks_of(request@).push(task));
            assert(self@.by_request =~= before@.by_request.insert(request@, tasks@));
        }
    }

    fn forget_active(&mut self, request: RequestId, task: TaskId)
        requires
            old(self).ordered(),
        ensures
            final(self).ordered(),
            final(self)@ == old(self)@.forgotten(request@, task),
            final(self).service == old(self).service,
            final(self).pending == old(self).pending,
    {
        let ghost before = *self;
        if let Some(tasks) = self.by_request.remove(&request) {
            let mut rest: Vec<TaskId> = Vec::new();
            let mut at: usize = 0;
            assert(tasks@.take(0) =~= Seq::empty());
            while at < tasks.len()
                invariant
                    at <= tasks@.len(),
                    rest@ == without(tasks@.take(at as int), task),
                decreases tasks@.len() - at,
            {
                assert(tasks@.take(at + 1).drop_last() =~= tasks@.take(at as int));
                if tasks[at] != task {
                    rest.push(tasks[at]);
                }
                at = at + 1;
            }
            assert(tasks@.take(at as int) =~= tasks@);
            if rest.len() > 0 {
                self.by_request.insert(request, rest);
                proof {
                    assert(self@.by_request =~= before@.by_request.insert(request@, rest@));
                }
            } else {
                proof {
                    assert(self@.by_request =~= before@.by_request.remove(request@));
                }
            }
        } else {
            proof {
                assert(self.by_request@ =~= before.by_request@);
            }
        }
    }

    fn run(&mut self, record: TaskRecord)
        requires
            old(self).ordered(),
        ensures
            final(self).ordered(),
            final(self)@ == old(self)@.running_now(record),
            final(self).service == old(self).service,
            final(self).pending == old(self).pending,
    {
        let ghost before = *self;
        self.by_key.insert(record.meta.key.clone(), record.id);
        self.emit(&record, TaskState::Running);
        let task = RunningTask { record, state: TaskState::Running, reason: None };
        let id = task.record.id;
        self.running.insert(id, task);
        proof {
            assert(self@.running =~= before@.running.insert(record.id@, task@));
        }
    }

    /// Whether a running task was asked to cancel: its scope is cancelled and
    /// knows why.
    pub open spec fn told_to_cancel(&self, id: u64, reason: CancelReason) -> bool {
        let scope = self@.running[id].record.request;
        cancel_requested(scope.cancellation) && reason_recorded(scope.reason, reason)
    }

    /// Whether a waiting task was cancelled: its scope is cancelled and knows why,
    /// and so does its starter.
    pub open spec fn told_of_cancel(&self, key: Seq<char>, reason: CancelReason) -> bool {
        let scope = self@.pending[key].request;
        &&& cancel_requested(scope.cancellation)
        &&& reason_recorded(scope.reason, reason)
        &&& sent(self.waiting()[key], Err(RuntimeError::TaskCancelled(reason)))
    }

    /// Whether room was made for a new task on a taken key: the running task was
    /// asked to cancel, and the one that waited learned that it never runs.
    pub open spec fn displaced(&self, key: Seq<char>, reason: CancelReason) -> bool {
        &&& self.told_to_cancel(self@.by_key[key]@, reason)
        &&& self@.pending.contains_key(key) ==> exists|given: CancelReason|
            {
                &&& given@ == CancelReasonView::Requested(
                    "replaced while waiting for task slot"@,
                )
                &&& #[trigger] self.told_of_cancel(key, given)
            }
    }

    fn mark_cancelling(&mut self, id: TaskId, reason: CancelReason)
        requires
            old(self).ordered(),
            old(self)@.running.contains_key(id@),
        ensures
            final(self).ordered(),
            final(self)@ == old(self)@.cancelling(id@, reason@),
            final(self).service == old(self).service,
            final(self).pending == old(self).pending,
            old(self).told_to_cancel(id@, reason),
    {
        let ghost before = *self;
        let ghost given = reason@;
        let mut shown: Option<TaskRecord> = None;
        if let Some(running) = self.running.get_mut(&id) {
            running.record.request.reason.record(reason.clone());
            running.record.request.cancellation.cancel();
            running.state = TaskState::Cancelling;
            if running.reason.is_none() {
                running.reason = Some(reason);
            }
            shown = Some(running.record.clone());
        }
        proof {
            let expected = before@.cancelling(id@, given).running;
            assert(self@.running =~= expected);
        }
        if let Some(record) = shown {
            self.emit(&record, TaskState::Cancelling);
        }
    }

    fn cancel_pending(&mut self, key: &TaskKey, reason: CancelReason)
        requires
            old(self).ordered(),
            old(self)@.pending.contains_key(key@),
        ensures
            final(self).ordered(),
            final(self)@ == old(self)@.pending_cancelled(key@, reason@),
            final(self).service == old(self).service,
            final(self).waiting() == old(self).waiting().remove(key@),
            old(self).told_of_cancel(key@, reason),
    {
        let ghost before = *self;
        if let Some(pending) = self.pending.remove(key) {
            pending.record.request.reason.record(reason.clone());
            pending.record.request.cancellation.cancel();
            let _ = pending.held.send(Err(RuntimeError::TaskCancelled(reason.clone())));
            let record = pending.record;
            let ghost given = reason@;
            let request = record.request.request_id;
            proof {
                assert(self@.pending =~= before@.pending.remove(key@));
                assert(self.waiting() =~= before.waiting().remove(key@));
            }
            self.forget_active(request, record.id);
            let ghost forgotten = self@;
            self.terminal_cancellation.insert(request, reason);
            proof {
                assert(self@.terminal_cancellation =~= forgotten.terminal_cancellation.insert(
                    request@,
                    given,
                ));
            }
            self.emit(&record, TaskState::Cancelled);
        }
    }
}

impl ManagerView {
    /// A task that begins to run on a free key keeps the manager valid.
    pub proof fn lemma_running_now(self, record: TaskRecord)
        requires
            self.exclusive(),
            !self.by_key.contains_key(record.meta.key@),
            !self.pending.contains_key(record.meta.key@),
            self.is_free(record.id@),
        ensures
            self.running_now(record).exclusive(),
            self.valid() ==> self.running_now(record).valid(),
    {
        let after = self.running_now(record);
        let key = record.meta.key@;
        assert forall|id: u64| #[trigger] after.running.contains_key(id) implies {
            let record = after.running[id].record;
            &&& record.id@ == id
            &&& after.by_key.contains_key(record.meta.key@)
            &&& after.by_key[record.meta.key@] == record.id
        } by {
            if id != record.id@ {
                assert(self.running.contains_key(id));
            }
        }
        assert forall|other: Seq<char>| #[trigger] after.by_key.contains_key(other) implies {
            &&& after.running.contains_key(after.by_key[other]@)
            &&& after.running[after.by_key[other]@].record.meta.key@ == other
        } by {
            if other != key {
                assert(self.by_key.contains_key(other));
            }
        }
    }

    /// A request for cancellation keeps the manager valid.
    pub proof fn lemma_cancelling(self, id: u64, reason: CancelReasonView)
        requires
            self.valid(),
            self.running.contains_key(id),
        ensures
            self.cancelling(id, reason).valid(),
            self.cancelling(id, reason).pending == self.pending,
            self.cancelling(id, reason).by_key == self.by_key,
            self.cancelling(id, reason).running.dom() == self.running.dom(),
    {
        let after = self.cancelling(id, reason);
        assert(after.running.dom() =~= self.running.dom());
        assert forall|other: u64| #[trigger] after.running.contains_key(other) implies {
            let record = after.running[other].record;
            &&& record.id@ == other
            &&& after.by_key.contains_key(record.meta.key@)
            &&& after.by_key[record.meta.key@] == record.id
        } by {
            assert(self.running.contains_key(other));
        }
        assert forall|key: Seq<char>| #[trigger] after.by_key.contains_key(key) implies {
            &&& after.running.contains_key(after.by_key[key]@)
            &&& after.running[after.by_key[key]@].record.meta.key@ == key
        } by {
            assert(self.by_key.contains_key(key));
        }
        assert forall|key: Seq<char>| #[trigger] after.pending.contains_key(key) implies {
            &&& after.pending[key].meta.key@ == key
            &&& !after.running.contains_key(after.pending[key].id@)
        } by {
            assert(self.pending.contains_key(key));
        }
    }

    proof fn lemma_pending_cancelled(self, key: Seq<char>, reason: CancelReasonView)
        requires
            self.valid(),
            self.pending.contains_key(key),
        ensures
            self.pending_cancelled(key, reason).valid(),
            self.pending_cancelled(key, reason).pending == self.pending.remove(key),
            self.pending_cancelled(key, reason).running == self.running,
            self.pending_cancelled(key, reason).by_key == self.by_key,
    {
        let after = self.pending_cancelled(key, reason);
        assert forall|other: Seq<char>| #[trigger] after.pending.contains_key(other) implies {
            &&& after.pending[other].meta.key@ == other
            &&& !after.running.contains_key(after.pending[other].id@)
            &&& after.by_key.contains_key(other)
        } by {
            assert(self.pending.contains_key(other));
        }
        assert forall|a: Seq<char>, b: Seq<char>|
            (#[trigger] after.pending.contains_key(a)) && (#[trigger] after.pending.contains_key(b))
                && a != b implies after.pending[a].id@ != after.pending[b].id@ by {
            assert(self.pending.contains_key(a) && self.pending.contains_key(b));
        }
    }

    proof fn lemma_created(self, record: TaskRecord, conflict: ConflictPolicy)
        requires
            self.valid(),
            self.is_free(record.id@),
        ensures
            self.created(record, conflict).valid(),
    {
        let key = record.meta.key@;
        let request = record.request.request_id@;
        if !self.by_key.contains_key(key) {
            self.remembered(request, record.id).lemma_running_now(record);
        } else if let ConflictPolicy::Replace(reason) = conflict {
            let id = self.by_key[key]@;
            assert(self.running.contains_key(id));
            self.lemma_cancelling(id, reason@);
            let cancelled = self.cancelling(id, reason@);
            let replaced = CancelReasonView::Requested("replaced while waiting for task slot"@);
            if cancelled.pending.contains_key(key) {
                cancelled.lemma_pending_cancelled(key, replaced);
            }
            let cleared = if cancelled.pending.contains_key(key) {
                cancelled.pending_cancelled(key, replaced)
            } else {
                cancelled
            };
            assert(cleared.running.dom() == self.running.dom());
            assert(!cleared.running.contains_key(record.id@)) by {
                assert(!self.running.dom().contains(record.id@));
            }
            let after = self.created(record, conflict);
            assert forall|a: Seq<char>, b: Seq<char>|
                (#[trigger] after.pending.contains_key(a)) && (
                #[trigger] after.pending.contains_key(b)) && a != b implies after.pending[a].id@
                != after.pending[b].id@ by {
                if a != key {
                    assert(cleared.pending.contains_key(a));
                    assert(self.pending.contains_key(a));
                }
                if b != key {
                    assert(cleared.pending.contains_key(b));
                    assert(self.pending.contains_key(b));
                }
            }
            assert forall|other: Seq<char>| #[trigger] after.pending.contains_key(other) implies {
                &&& after.pending[other].meta.key@ == other
                &&& !after.running.contains_key(after.pending[other].id@)
                &&& after.by_key.contains_key(other)
            } by {
                if other != key {
                    assert(cleared.pending.contains_key(other));
                }
            }
            assert forall|other: u64| #[trigger] after.running.contains_key(other) implies {
                let record = after.running[other].record;
                &&& record.id@ == other
                &&& after.by_key.contains_key(record.meta.key@)
                &&& after.by_key[record.meta.key@] == record.id
            } by {
                assert(cleared.running.contains_key(other));
            }
            assert forall|other: Seq<char>| #[trigger] after.by_key.contains_key(other) implies {
                &&& after.running.contains_key(after.by_key[other]@)
                &&& after.running[after.by_key[other]@].record.meta.key@ == other
            } by {
                assert(cleared.by_key.contains_key(other));
            }
        }
    }
}

/// Whether a task is the one that a request starts under a number: it carries the
/// context of the request, with a scope of its own in that of the request.
pub open spec fn is_new_record(
    record: TaskRecord,
    number: u64,
    meta: TaskMeta,
    request: RequestContext,
) -> bool {
    &&& record.id@ == number
    &&& record.meta == meta
    &&& record.request == (RequestContext {
        cancellation: record.request.cancellation,
        reason: record.request.reason,
        ..request
    })
    &&& descends_from(record.request.cancellation, request.cancellation)
    &&& reason_made(record.request.reason)
}

/// Whether `result` is what the starter of a task is told, given whether its key
/// was taken.
pub open spec fn creation_result(
    record: TaskRecord,
    conflict: ConflictPolicy,
    taken: bool,
    result: Result<Acquisition, RuntimeError>,
) -> bool {
    if !taken {
        result == Ok::<_, RuntimeError>(
            Acquisition::Ready(
                TaskContext {
                    task_id: record.id,
                    key: record.meta.key,
                    request: record.request,
                },
            ),
        )
    } else {
        match conflict {
            ConflictPolicy::Reject => result == Err::<Acquisition, _>(
                RuntimeError::TaskAlreadyRunning(record.meta.key),
            ),
            ConflictPolicy::Replace(_) => result matches Ok(Acquisition::Waiting(_)),
        }
    }
}

impl<K: ServiceKey> ServiceTaskManager<K> {
    /// Creates a task of a request under the next identity. Its scope lies below
    /// that of the request. On a free key it runs at once; on a taken one it is
    /// refused, or it waits until the cancelled task has settled, in place of
    /// any task that waited before.
    pub fn create_new_task(
        &mut self,
        request: &RequestContext,
        meta: TaskMeta,
        conflict: ConflictPolicy,
        counter: &mut IdCounter,
    ) -> (result: Result<Acquisition, RuntimeError>)
        requires
            old(self).wf(),
            old(self)@.is_free(old(counter)@),
        ensures
            final(self).wf(),
            final(counter)@ == number_after(old(counter)@),
            exists|record: TaskRecord| #[trigger]
                is_new_record(record, old(counter)@, meta, *request) && {
                    &&& final(self)@ == old(self)@.created(record, conflict)
                    &&& creation_result(
                        record,
                        conflict,
                        old(self)@.by_key.contains_key(meta.key@),
                        result,
                    )
                },
            final(self).name() == old(self).name(),
            match conflict {
                ConflictPolicy::Replace(reason) if old(self)@.by_key.contains_key(meta.key@) => {
                    let ready = final(self).waiting()[meta.key@];
                    &&& old(self).displaced(meta.key@, reason)
                    &&& final(self).waiting() == old(self).waiting().insert(meta.key@, ready)
                    &&& result matches Ok(Acquisition::Waiting(receiver))
                    &&& channel_made(ready, receiver)
                },
                _ => final(self).waiting() == old(self).waiting(),
            },
    {
        let id = TaskId::next(counter);
        let cancellation = child_token(&request.cancellation);
        let scoped = RequestContext {
            request_id: request.request_id,
            operation_id: request.operation_id,
            trace: request.trace,
            cancellation: cancellation.clone(),
            reason: ScopeReason::new(),
        };
        let record = TaskRecord { id, meta, request: scoped };
        let ghost before = self@;
        let ghost first = *self;
        proof {
            assert(is_new_record(record, old(counter)@, meta, *request));
            before.lemma_created(record, conflict);
        }
        let request_id = record.request.request_id;
        let occupant = self.by_key.get(&record.meta.key);
        match occupant {
            None => {
                let context = TaskContext::new(
                    id,
                    record.meta.key.clone(),
                    record.request.clone(),
                );
                self.remember(request_id, id);
                self.run(record);
                Ok(Acquisition::Ready(context))
            },
            Some(running) => {
                let running = *running;
                match conflict {
                    ConflictPolicy::Reject => {
                        Err(RuntimeError::TaskAlreadyRunning(record.meta.key))
                    },
                    ConflictPolicy::Replace(reason) => {
                        self.mark_cancelling(running, reason);
                        let ghost cancelling = *self;
                        if self.pending.contains_key(&record.meta.key) {
                            self.cancel_pending(
                                &record.meta.key,
                                CancelReason::requested("replaced while waiting for task slot"),
                            );
                            proof {
                                let given = choose|given: CancelReason|
                                    {
                                        &&& given@ == CancelReasonView::Requested(
                                            "replaced while waiting for task slot"@,
                                        )
                                        &&& #[trigger] cancelling.told_of_cancel(
                                            record.meta.key@,
                                            given,
                                        )
                                    };
                                assert(first.told_of_cancel(record.meta.key@, given));
                            }
                        }
                        let ghost cleared = *self;
                        let (ready, waiting) = oneshot::channel();
                        self.remember(request_id, id);
                        let ghost remembered = self@;
                        self.emit(&record, TaskState::Queued);
                        self.pending.insert(
                            record.meta.key.clone(),
                            PendingTask { record, held: ready },
                        );
                        proof {
                            assert(self.waiting() =~= cleared.waiting().insert(
                                record.meta.key@,
                                ready,
                            ));
                            assert(cleared.waiting().insert(record.meta.key@, ready)
                                =~= first.waiting().insert(record.meta.key@, ready));
                            assert(self@.pending =~= remembered.pending.insert(
                                record.meta.key@,
                                record,
                            ));
                        }
                        Ok(Acquisition::Waiting(waiting))
                    },
                }
            },
        }
    }

    /// The key of a waiting task.
    fn find_pending(&self, task: TaskId) -> (key: Option<TaskKey>)
        requires
            self.ordered(),
        ensures
            match key {
                Some(key) => self@.waits_for(task@, key@),
                None => forall|key: Seq<char>| !self@.waits_for(task@, key),
            },
    {
        let key = find_waiting(&self.pending, task);
        proof {
            assert(forall|key: Seq<char>|
                task_waits_for(self@.pending, task@, key) == #[trigger] self@.waits_for(task@, key));
        }
        key
    }

    /// Cancels a task. A running one is asked to cancel; a waiting one never
    /// runs.
    pub fn cancel(&mut self, task: TaskId, reason: CancelReason) -> (result: Result<
        (),
        RuntimeError,
    >)
        requires
            old(self).wf(),
        ensures
            final(self).wf(),
            if old(self)@.running.contains_key(task@) {
                &&& result is Ok
                &&& final(self)@ == old(self)@.cancelling(task@, reason@)
                &&& old(self).told_to_cancel(task@, reason)
                &&& final(self).waiting() == old(self).waiting()
            } else if exists|key: Seq<char>| old(self)@.waits_for(task@, key) {
                &&& result is Ok
                &&& exists|key: Seq<char>| #[trigger]
                    old(self)@.waits_for(task@, key) && {
                        &&& final(self)@ == old(self)@.pending_cancelled(key, reason@)
                        &&& old(self).told_of_cancel(key, reason)
                        &&& final(self).waiting() == old(self).waiting().remove(key)
                    }
            } else {
                &&& result == Err::<(), _>(RuntimeError::TaskNotFound(task))
                &&& final(self)@ == old(self)@
                &&& final(self).waiting() == old(self).waiting()
            },
            final(self).name() == old(self).name(),
    {
        let ghost before = self@;
        if self.running.contains_key(&task) {
            proof {
                before.lemma_cancelling(task@, reason@);
            }
            self.mark_cancelling(task, reason);
            return Ok(());
        }
        match self.find_pending(task) {
            Some(key) => {
                proof {
                    before.lemma_pending_cancelled(key@, reason@);
                    assert(before.waits_for(task@, key@));
                }
                self.cancel_pending(&key, reason);
                Ok(())
            },
            None => Err(RuntimeError::TaskNotFound(task)),
        }
    }
}

/// A manager while the tasks of a request are released.
pub struct ReleaseView {
    pub manager: ManagerView,
    pub reason: Option<CancelReasonView>,
    pub keys: Seq<Seq<char>>,
}

impl ManagerView {
    /// The manager after some tasks of a request were released, one after
    /// another: the reason of their cancellation and the keys that they left.
    /// `cancelled` tells of each task whether its scope was cancelled.
    pub open spec fn released(
        self,
        tasks: Seq<TaskId>,
        cancelled: Seq<bool>,
        outcome: HandlerOutcome,
        reason: Option<CancelReasonView>,
    ) -> ReleaseView
        decreases tasks.len(),
    {
        if tasks.len() == 0 {
            ReleaseView { manager: self, reason, keys: Seq::empty() }
        } else {
            let before = self.released(
                tasks.drop_last(),
                cancelled.drop_last(),
                outcome,
                reason,
            );
            let id = tasks.last();
            if !before.manager.running.contains_key(id@) {
                before
            } else {
                let task = before.manager.running[id@];
                let key = task.record.meta.key@;
                let reason = match before.reason {
                    Some(reason) => Some(reason),
                    None => effective_reason(task.reason, cancelled.last()),
                };
                ReleaseView {
                    manager: ManagerView {
                        running: before.manager.running.remove(id@),
                        by_key: before.manager.by_key.remove(key),
                        ..before.manager
                    }.told(task.record, last_state(outcome, reason)),
                    reason,
                    keys: before.keys.push(key),
                }
            }
        }
    }

    /// Whether the flags are what the scopes of the released tasks answered when
    /// they were asked if they are cancelled.
    pub open spec fn release_answered(
        self,
        tasks: Seq<TaskId>,
        cancelled: Seq<bool>,
        outcome: HandlerOutcome,
        reason: Option<CancelReasonView>,
    ) -> bool
        decreases tasks.len(),
    {
        tasks.len() == 0 || {
            let running = self.released(
                tasks.drop_last(),
                cancelled.drop_last(),
                outcome,
                reason,
            ).manager.running;
            let id = tasks.last()@;
            &&& self.release_answered(tasks.drop_last(), cancelled.drop_last(), outcome, reason)
            &&& if running.contains_key(id) {
                answered(running[id].record.request.cancellation, cancelled.last())
            } else {
                !cancelled.last()
            }
        }
    }

    /// The manager after keys were handed over, one after another.
    pub open spec fn all_handed_over(self, keys: Seq<Seq<char>>, delivered: Seq<bool>) -> Self
        decreases keys.len(),
    {
        if keys.len() == 0 {
            self
        } else {
            self.all_handed_over(keys.drop_last(), delivered.drop_last()).handed_over(
                keys.last(),
                delivered.last(),
            )
        }
    }

    /// The reason that was kept for a request whose task never ran.
    pub open spec fn kept_reason(self, request: u64) -> Option<CancelReasonView> {
        if self.terminal_cancellation.contains_key(request) {
            Some(self.terminal_cancellation[request])
        } else {
            None
        }
    }

    /// The release of all tasks of a request.
    pub open spec fn request_released(
        self,
        request: u64,
        outcome: HandlerOutcome,
        cancelled: Seq<bool>,
    ) -> ReleaseView {
        ManagerView {
            terminal_cancellation: self.terminal_cancellation.remove(request),
            by_request: self.by_request.remove(request),
            ..self
        }.released(self.tasks_of(request), cancelled, outcome, self.kept_reason(request))
    }

    /// Whether the flags are what the scopes of the tasks of a request answered
    /// when the tasks were released.
    pub open spec fn request_answered(
        self,
        request: u64,
        outcome: HandlerOutcome,
        cancelled: Seq<bool>,
    ) -> bool {
        ManagerView {
            terminal_cancellation: self.terminal_cancellation.remove(request),
            by_request: self.by_request.remove(request),
            ..self
        }.release_answered(self.tasks_of(request), cancelled, outcome, self.kept_reason(request))
    }

    /// The manager after a request ended.
    pub open spec fn request_finished(
        self,
        request: u64,
        outcome: HandlerOutcome,
        cancelled: Seq<bool>,
        delivered: Seq<bool>,
    ) -> Self {
        let released = self.request_released(request, outcome, cancelled);
        ManagerView {
            primary_by_request: released.manager.primary_by_request.remove(request),
            ..released.manager
        }.all_handed_over(released.keys, delivered)
    }

    /// Keys are free to be handed over, and whoever waits for a free key waits
    /// for one of them.
    pub open spec fn handing(self, keys: Seq<Seq<char>>) -> bool {
        &&& self.exclusive()
        &&& keys.no_duplicates()
        &&& forall|i: int| 0 <= i < keys.len() ==> !self.by_key.contains_key(#[trigger] keys[i])
        &&& forall|key: Seq<char>| #[trigger]
            self.pending.contains_key(key) ==> self.by_key.contains_key(key) || keys.contains(key)
    }

    proof fn lemma_released_one(self, keys: Seq<Seq<char>>, id: u64, state: TaskState)
        requires
            self.handing(keys),
            self.running.contains_key(id),
        ensures
            ({
                let record = self.running[id].record;
                let key = record.meta.key@;
                ManagerView {
                    running: self.running.remove(id),
                    by_key: self.by_key.remove(key),
                    ..self
                }.told(record, state).handing(keys.push(key))
            }),
    {
        let record = self.running[id].record;
        let key = record.meta.key@;
        let longer = keys.push(key);
        let after = ManagerView {
            running: self.running.remove(id),
            by_key: self.by_key.remove(key),
            ..self
        }.told(record, state);
        assert(self.by_key.contains_key(key));
        assert forall|other: u64| #[trigger] after.running.contains_key(other) implies {
            let record = after.running[other].record;
            &&& record.id@ == other
            &&& after.by_key.contains_key(record.meta.key@)
            &&& after.by_key[record.meta.key@] == record.id
        } by {
            assert(self.running.contains_key(other));
            if self.running[other].record.meta.key@ == key {
                assert(self.by_key[key]@ == other);
            }
        }
        assert forall|other: Seq<char>| #[trigger] after.by_key.contains_key(other) implies {
            &&& after.running.contains_key(after.by_key[other]@)
            &&& after.running[after.by_key[other]@].record.meta.key@ == other
        } by {
            assert(self.by_key.contains_key(other));
        }
        assert forall|other: Seq<char>| #[trigger] after.pending.contains_key(other) implies {
            &&& after.pending[other].meta.key@ == other
            &&& !after.running.contains_key(after.pending[other].id@)
            &&& after.by_key.contains_key(other) || longer.contains(other)
        } by {
            assert(self.pending.contains_key(other));
            if keys.contains(other) {
                let i = choose|i: int| 0 <= i < keys.len() && keys[i] == other;
                assert(longer[i] == other);
            }
            if other == key {
                assert(longer[keys.len() as int] == other);
            }
        }
        assert forall|i: int| 0 <= i < longer.len() implies !after.by_key.contains_key(
            #[trigger] longer[i],
        ) by {
            if i < keys.len() {
                assert(!self.by_key.contains_key(keys[i]));
            }
        }
        assert(longer.no_duplicates()) by {
            assert forall|i: int, j: int|
                0 <= i < longer.len() && 0 <= j < longer.len() && i != j implies longer[i]
                != longer[j] by {
                if i < keys.len() {
                    assert(!self.by_key.contains_key(keys[i]));
                }
                if j < keys.len() {
                    assert(!self.by_key.contains_key(keys[j]));
                }
            }
        }
    }

    proof fn lemma_handed_over(self, keys: Seq<Seq<char>>, delivered: bool)
        requires
            self.handing(keys),
            keys.len() > 0,
        ensures
            self.handed_over(keys[0], delivered).handing(keys.skip(1)),
    {
        let key = keys[0];
        let rest = keys.skip(1);
        let after = self.handed_over(key, delivered);
        assert forall|i: int| 0 <= i < rest.len() implies rest[i] == keys[i + 1] && rest[i] != key by {
            assert(keys[i + 1] != keys[0]);
        }
        assert(rest.no_duplicates()) by {
            assert forall|i: int, j: int|
                0 <= i < rest.len() && 0 <= j < rest.len() && i != j implies rest[i] != rest[j] by {
                assert(keys[i + 1] != keys[j + 1]);
            }
        }
        assert forall|other: Seq<char>| keys.contains(other) && other != key implies rest.contains(
            other,
        ) by {
            let i = choose|i: int| 0 <= i < keys.len() && keys[i] == other;
            assert(rest[i - 1] == other);
        }
        if self.pending.contains_key(key) {
            let record = self.pending[key];
            let removed = ManagerView { pending: self.pending.remove(key), ..self };
            assert(removed.exclusive()) by {
                assert forall|other: Seq<char>| #[trigger]
                    removed.pending.contains_key(other) implies {
                    &&& removed.pending[other].meta.key@ == other
                    &&& !removed.running.contains_key(removed.pending[other].id@)
                } by {
                    assert(self.pending.contains_key(other));
                }
                assert forall|a: Seq<char>, b: Seq<char>|
                    (#[trigger] removed.pending.contains_key(a)) && (
                    #[trigger] removed.pending.contains_key(b)) && a != b implies removed.pending[a].id@
                    != removed.pending[b].id@ by {
                    assert(self.pending.contains_key(a) && self.pending.contains_key(b));
                }
            }
            assert(removed.is_free(record.id@)) by {
                assert forall|other: Seq<char>| #[trigger]
                    removed.pending.contains_key(other) implies removed.pending[other].id@
                    != record.id@ by {
                    assert(self.pending.contains_key(other));
                }
            }
            assert(!self.by_key.contains_key(keys[0]));
            removed.lemma_running_now(record);
            let started = removed.running_now(record);
            if !delivered {
                assert(after.running =~= self.running);
                assert(after.by_key =~= self.by_key);
            }
        }
        assert forall|other: Seq<char>| #[trigger] after.pending.contains_key(other) implies {
            after.by_key.contains_key(other) || rest.contains(other)
        } by {
            assert(self.pending.contains_key(other));
        }
        assert forall|i: int| 0 <= i < rest.len() implies !after.by_key.contains_key(
            #[trigger] rest[i],
        ) by {
            assert(!self.by_key.contains_key(keys[i + 1]));
        }
    }
}

/// What the end of a request came to.
pub struct RequestEnd {
    /// Why its work was cancelled, if it was.
    pub cancellation: Option<CancelReason>,
    /// Of each of its tasks, whether the scope was cancelled.
    pub cancelled: Vec<bool>,
    /// Of each key that it left, whether a waiting task took it over.
    pub delivered: Vec<bool>,
}

impl<K: ServiceKey> ServiceTaskManager<K> {
    /// Whether the starter of a waiting task was told that it runs, and whether it
    /// was still there to learn of it.
    pub open spec fn told_to_run(&self, key: Seq<char>, delivered: bool) -> bool {
        let record = self@.pending[key];
        delivered_as(
            self.waiting()[key],
            Ok(
                TaskContext {
                    task_id: record.id,
                    key: record.meta.key,
                    request: record.request,
                },
            ),
            delivered,
        )
    }

    /// Lets the task that waits for a key run. The result tells whether someone
    /// learned of it.
    fn activate_pending(&mut self, key: &TaskKey) -> (delivered: bool)
        requires
            old(self).ordered(),
            old(self)@.exclusive(),
        ensures
            final(self).ordered(),
            final(self)@ == old(self)@.handed_over(key@, delivered),
            final(self).service == old(self).service,
            final(self).waiting() == old(self).waiting().remove(key@),
            old(self)@.pending.contains_key(key@) ==> old(self).told_to_run(key@, delivered),
    {
        let ghost before = *self;
        let pending = match self.pending.remove(key) {
            Some(pending) => pending,
            None => {
                proof {
                    assert(self.pending@ =~= before.pending@);
                    assert(self.waiting() =~= before.waiting().remove(key@));
                }
                return false;
            },
        };
        proof {
            assert(before@.pending.contains_key(key@));
            assert(self@.pending =~= before@.pending.remove(key@));
            assert(self.waiting() =~= before.waiting().remove(key@));
        }
        let record = pending.record;
        let context = TaskContext::new(
            record.id,
            record.meta.key.clone(),
            record.request.clone(),
        );
        let id = record.id;
        let request = record.request.request_id;
        self.run(record.clone());
        let ghost started = *self;
        match pending.held.send(Ok(context)) {
            Ok(_) => true,
            Err(_) => {
                let _ = self.running.remove(&id);
                let _ = self.by_key.remove(key);
                proof {
                    assert(self@.running =~= started@.running.remove(id@));
                }
                self.forget_active(request, id);
                self.emit(&record, TaskState::Aborted);
                false
            },
        }
    }

    /// Ends a request: its running tasks leave their keys with their last state,
    /// and the tasks that wait for those keys take over.
    pub fn finish_request(&mut self, request: RequestId, outcome: HandlerOutcome) -> (end:
        RequestEnd)
        requires
            old(self).wf(),
        ensures
            final(self).wf(),
            ({
                let released = old(self)@.request_released(request@, outcome, end.cancelled@);
                &&& end.cancelled@.len() == old(self)@.tasks_of(request@).len()
                &&& end.delivered@.len() == released.keys.len()
                &&& reason_view(end.cancellation) == released.reason
                &&& final(self)@ == old(self)@.request_finished(
                    request@,
                    outcome,
                    end.cancelled@,
                    end.delivered@,
                )
                &&& old(self)@.request_answered(request@, outcome, end.cancelled@)
                &&& final(self).waiting() == old(self).waiting().remove_keys(
                    released.keys.to_set(),
                )
                &&& forall|i: int|
                    0 <= i < released.keys.len() && old(self)@.pending.contains_key(
                        #[trigger] released.keys[i],
                    ) ==> old(self).told_to_run(released.keys[i], end.delivered@[i])
            }),
            final(self).name() == old(self).name(),
    {
        let ghost before = *self;
        let mut cancellation = self.terminal_cancellation.remove(&request);
        let tasks = match self.by_request.remove(&request) {
            Some(tasks) => tasks,
            None => Vec::new(),
        };
        let ghost base = self@;
        let ghost reason = before@.kept_reason(request@);
        proof {
            assert(tasks@ =~= before@.tasks_of(request@));
            assert(base.terminal_cancellation =~= before@.terminal_cancellation.remove(request@));
            assert(base.by_request =~= before@.by_request.remove(request@));
            assert(reason_view(cancellation) == reason);
            assert(tasks@.take(0) =~= Seq::empty());
            assert(base.handing(Seq::<Seq<char>>::empty()));
        }
        let mut cancelled: Vec<bool> = Vec::new();
        let mut keys: Vec<TaskKey> = Vec::new();
        let mut at: usize = 0;
        assert(keys@.map_values(|key: TaskKey| key@) =~= Seq::<Seq<char>>::empty());
        while at < tasks.len()
            invariant
                self.ordered(),
                self.service == before.service,
                self.pending == before.pending,
                at <= tasks@.len(),
                cancelled@.len() == at,
                base.release_answered(tasks@.take(at as int), cancelled@, outcome, reason),
                self@ == base.released(tasks@.take(at as int), cancelled@, outcome, reason).manager,
                reason_view(cancellation) == base.released(
                    tasks@.take(at as int),
                    cancelled@,
                    outcome,
                    reason,
                ).reason,
                keys@.map_values(|key: TaskKey| key@) == base.released(
                    tasks@.take(at as int),
                    cancelled@,
                    outcome,
                    reason,
                ).keys,
                self@.handing(keys@.map_values(|key: TaskKey| key@)),
            decreases tasks@.len() - at,
        {
            let id = tasks[at];
            let ghost earlier = *self;
            let ghost flags = cancelled@;
            let ghost earlier_keys = keys@.map_values(|key: TaskKey| key@);
            proof {
                let longer = tasks@.take(at + 1);
                assert(longer.drop_last() =~= tasks@.take(at as int));
                assert(longer.last() == id);
            }
            match self.running.remove(&id) {
                None => {
                    cancelled.push(false);
                    proof {
                        assert(cancelled@.drop_last() =~= flags);
                        assert(self.running@ =~= earlier.running@);
                        assert(!earlier@.running.contains_key(id@));
                    }
                },
                Some(task) => {
                    proof {
                        assert(earlier@.running.contains_key(id@));
                        assert(self@.running =~= earlier@.running.remove(id@));
                    }
                    let record = task.record;
                    let is_cancelled = record.request.cancellation.is_cancelled();
                    cancelled.push(is_cancelled);
                    assert(cancelled@.drop_last() =~= flags);
                    if cancellation.is_none() {
                        cancellation = cancellation_reason(&task.reason, is_cancelled);
                    }
                    let state = terminal_state(outcome, cancellation.as_ref());
                    let _ = self.by_key.remove(&record.meta.key);
                    self.emit(&record, state);
                    keys.push(record.meta.key.clone());
                    proof {
                        earlier@.lemma_released_one(earlier_keys, id@, state);
                        assert(keys@.map_values(|key: TaskKey| key@) =~= earlier_keys.push(
                            record.meta.key@,
                        ));
                    }
                },
            }
            at = at + 1;
        }
        assert(tasks@.take(at as int) =~= tasks@);
        let ghost free = keys@.map_values(|key: TaskKey| key@);
        let _ = self.primary_by_request.remove(&request);
        let ghost left = self@;
        let mut delivered: Vec<bool> = Vec::new();
        let mut next: usize = 0;
        proof {
            assert(free.take(0) =~= Seq::empty());
            assert(free.skip(0) =~= free);
            assert(free.take(0).to_set() =~= Set::empty());
            assert(self.waiting() =~= before.waiting().remove_keys(free.take(0).to_set()));
            assert(self@.pending =~= before@.pending.remove_keys(free.take(0).to_set()));
        }
        while next < keys.len()
            invariant
                self.ordered(),
                self.service == before.service,
                next <= keys@.len(),
                delivered@.len() == next,
                free.no_duplicates(),
                self.waiting() == before.waiting().remove_keys(free.take(next as int).to_set()),
                self@.pending == before@.pending.remove_keys(free.take(next as int).to_set()),
                forall|i: int|
                    0 <= i < next && before@.pending.contains_key(#[trigger] free[i])
                        ==> before.told_to_run(free[i], delivered@[i]),
                free == keys@.map_values(|key: TaskKey| key@),
                self@ == left.all_handed_over(free.take(next as int), delivered@),
                self@.handing(free.skip(next as int)),
            decreases keys@.len() - next,
        {
            let ghost earlier = self@;
            let ghost flags = delivered@;
            let ghost waiting_earlier = *self;
            let taken = self.activate_pending(&keys[next]);
            delivered.push(taken);
            proof {
                let longer = free.take(next + 1);
                let key = free[next as int];
                let gone = free.take(next as int).to_set();
                assert(key == keys@[next as int]@);
                assert(!gone.contains(key)) by {
                    if gone.contains(key) {
                        let i = choose|i: int| 0 <= i < next && free.take(next as int)[i] == key;
                        assert(free[i] == free[next as int]);
                    }
                }
                assert(longer.to_set() =~= gone.insert(key)) by {
                    assert forall|other: Seq<char>| longer.to_set().contains(other) implies gone.insert(
                        key,
                    ).contains(other) by {
                        let i = choose|i: int| 0 <= i < longer.len() && longer[i] == other;
                        if i < next {
                            assert(free.take(next as int)[i] == other);
                        }
                    }
                    assert forall|other: Seq<char>| gone.insert(key).contains(
                        other,
                    ) implies longer.to_set().contains(other) by {
                        if other == key {
                            assert(longer[next as int] == other);
                        } else {
                            let i = choose|i: int| 0 <= i < next && free.take(next as int)[i] == other;
                            assert(longer[i] == other);
                        }
                    }
                }
                assert(self.waiting() =~= before.waiting().remove_keys(longer.to_set()));
                assert(self@.pending =~= before@.pending.remove_keys(longer.to_set()));
                if before@.pending.contains_key(key) {
                    assert(waiting_earlier@.pending.contains_key(key));
                    assert(before.waiting().contains_key(key));
                    assert(waiting_earlier.waiting()[key] == before.waiting()[key]);
                    assert(before.told_to_run(key, taken));
                }
                assert(longer.drop_last() =~= free.take(next as int));
                assert(longer.last() == keys@[next as int]@);
                assert(delivered@.drop_last() =~= flags);
                earlier.lemma_handed_over(free.skip(next as int), taken);
                assert(free.skip(next as int).skip(1) =~= free.skip(next + 1));
                assert(free.skip(next as int)[0] == keys@[next as int]@);
            }
            next = next + 1;
        }
        proof {
            assert(free.take(next as int) =~= free);
            assert(free.skip(next as int).len() == 0);
        }
        RequestEnd { cancellation, cancelled, delivered }
    }
}

impl ManagerView {
    /// Every task as others see it, by its identity.
    pub open spec fn all_shown(self) -> Map<u64, TaskSnapshotView> {
        shown_tasks(self.running, self.pending)
    }

    /// Whether the flags are what the scopes of running tasks answered when they
    /// were asked if they are cancelled.
    pub open spec fn all_answered(self, tasks: Seq<TaskId>, cancelled: Seq<bool>) -> bool {
        forall|i: int|
            0 <= i < tasks.len() ==> if self.running.contains_key((#[trigger] tasks[i])@) {
                answered(self.running[tasks[i]@].record.request.cancellation, cancelled[i])
            } else {
                !cancelled[i]
            }
    }

    /// The first reason among the running tasks of a request. `cancelled` tells
    /// of each task whether its scope was cancelled.
    pub open spec fn first_reason(self, tasks: Seq<TaskId>, cancelled: Seq<bool>) -> Option<
        CancelReasonView,
    >
        decreases tasks.len(),
    {
        if tasks.len() == 0 {
            None
        } else {
            match self.first_reason(tasks.drop_last(), cancelled.drop_last()) {
                Some(reason) => Some(reason),
                None => if self.running.contains_key(tasks.last()@) {
                    effective_reason(self.running[tasks.last()@].reason, cancelled.last())
                } else {
                    None
                },
            }
        }
    }
}

impl<K: ServiceKey> ServiceTaskManager<K> {
    /// Aborts every task: first those that wait, then those that run.
    pub fn abort_all(&mut self)
        requires
            old(self).wf(),
        ensures
            final(self).wf(),
            final(self)@ == old(self)@.all_aborted(),
            final(self).name() == old(self).name(),
            final(self).waiting() == Map::<Seq<char>, ReadySender>::empty(),
            forall|key: Seq<char>| #[trigger]
                old(self)@.pending.contains_key(key) ==> sent(
                    old(self).waiting()[key],
                    Err(RuntimeError::ResponseDropped),
                ),
    {
        let ghost before = *self;
        proof {
            before.pending.lemma_listing();
            before.running.lemma_listing();
            assert(before@.pending.dom() =~= before.pending@.dom());
            assert(before@.running.dom() =~= before.running@.dom());
        }
        let ghost waiting = ordered_keys::<TaskKey>(before@.pending.dom()).map_values(
            |key: Seq<char>| before@.pending[key].shown(TaskState::Aborted),
        );
        let ghost working = ordered_keys::<TaskId>(before@.running.dom()).map_values(
            |id: u64| before@.running[id].record.shown(TaskState::Aborted),
        );
        let mut pending: OrderedMap<TaskKey, PendingTask<ReadySender>> = OrderedMap::new();
        std::mem::swap(&mut pending, &mut self.pending);
        let ghost pending_values = pending.values();
        let pending = pending.into_values();
        proof {
            assert forall|i: int| 0 <= i < waiting.len() implies waiting[i]
                == pending_values[i].record.shown(TaskState::Aborted) by {
                assert(before.pending@.contains_key(before.pending.keys()[i]));
            }
            assert(waiting.take(0) =~= Seq::empty());
            assert(self@.emitted =~= before@.emitted + waiting.take(0));
        }
        for task in iter: pending
            invariant
                iter.seq() == pending_values,
                waiting.len() == pending_values.len(),
                forall|i: int|
                    0 <= i < waiting.len() ==> #[trigger] waiting[i]
                        == pending_values[i].record.shown(TaskState::Aborted),
                self.ordered(),
                forall|i: int|
                    0 <= i < iter.index() ==> sent(
                        (#[trigger] pending_values[i]).held,
                        Err(RuntimeError::ResponseDropped),
                    ),
                self.service == before.service,
                self.running == before.running,
                self.by_key == before.by_key,
                self.primary_by_request == before.primary_by_request,
                self.terminal_cancellation == before.terminal_cancellation,
                self.pending@ == Map::<Seq<char>, PendingTask<ReadySender>>::empty(),
                self@.emitted == before@.emitted + waiting.take(iter.index() as int),
        {
            let ghost place = iter.index() as int;
            assert(task == pending_values[place]);
            let _ = task.held.send(Err(RuntimeError::ResponseDropped));
            self.emit(&task.record, TaskState::Aborted);
            proof {
                assert(waiting[place] == task.record.shown(TaskState::Aborted));
                assert(waiting.take(place + 1) =~= waiting.take(place).push(waiting[place]));
                assert(self@.emitted =~= before@.emitted + waiting.take(place + 1));
            }
        }
        let ghost middle = before@.emitted + waiting;
        proof {
            assert forall|key: Seq<char>| #[trigger] before@.pending.contains_key(key) implies sent(
                before.waiting()[key],
                Err(RuntimeError::ResponseDropped),
            ) by {
                assert(before.pending@.contains_key(key));
                let i = choose|i: int|
                    0 <= i < before.pending.keys().len() && #[trigger] before.pending.keys()[i]
                        == key;
                assert(before.pending@[before.pending.keys()[i]] == pending_values[i]);
            }
            assert(waiting.take(waiting.len() as int) =~= waiting);
        }
        let mut running: OrderedMap<TaskId, RunningTask> = OrderedMap::new();
        std::mem::swap(&mut running, &mut self.running);
        let ghost running_values = running.values();
        let running = running.into_values();
        proof {
            assert forall|i: int| 0 <= i < working.len() implies working[i]
                == running_values[i].record.shown(TaskState::Aborted) by {
                assert(before.running@.contains_key(before.running.keys()[i]));
            }
            assert(working.take(0) =~= Seq::empty());
            assert(self@.emitted =~= middle + working.take(0));
        }
        for task in iter: running
            invariant
                iter.seq() == running_values,
                working.len() == running_values.len(),
                forall|i: int|
                    0 <= i < working.len() ==> #[trigger] working[i]
                        == running_values[i].record.shown(TaskState::Aborted),
                self.ordered(),
                self.service == before.service,
                self.running@ == Map::<u64, RunningTask>::empty(),
                self.pending@ == Map::<Seq<char>, PendingTask<ReadySender>>::empty(),
                self.primary_by_request == before.primary_by_request,
                self.terminal_cancellation == before.terminal_cancellation,
                self@.emitted == middle + working.take(iter.index() as int),
        {
            let ghost place = iter.index() as int;
            assert(task == running_values[place]);
            self.emit(&task.record, TaskState::Aborted);
            proof {
                assert(working[place] == task.record.shown(TaskState::Aborted));
                assert(working.take(place + 1) =~= working.take(place).push(working[place]));
                assert(self@.emitted =~= middle + working.take(place + 1));
            }
        }
        self.by_key = OrderedMap::new();
        self.by_request = OrderedMap::new();
        proof {
            assert(working.take(working.len() as int) =~= working);
            assert(self@.running =~= Map::empty());
            assert(self@.pending =~= Map::empty());
            assert(self.waiting() =~= Map::empty());
            assert(self@.by_request =~= Map::empty());
            assert(self@.emitted =~= before@.all_aborted().emitted);
            assert(self@ =~= before@.all_aborted());
        }
    }

    /// The first task of a request.
    pub fn task_for_request(&self, request: RequestId) -> (task: Option<TaskId>)
        requires
            self.wf(),
        ensures
            task == (if self@.primary_by_request.contains_key(request@) {
                Some(self@.primary_by_request[request@])
            } else {
                None
            }),
    {
        match self.primary_by_request.get(&request) {
            Some(task) => Some(*task),
            None => None,
        }
    }

    /// Why the work of a request is cancelled, if it is. The log tells of each
    /// task that was asked whether its scope was cancelled.
    pub fn cancellation_for_request(&self, request: RequestId) -> (result: (
        Option<CancelReason>,
        Vec<bool>,
    ))
        requires
            self.wf(),
        ensures
            match self@.kept_reason(request@) {
                Some(reason) => reason_view(result.0) == Some(reason) && result.1@.len() == 0,
                None => {
                    &&& result.1@.len() == self@.tasks_of(request@).len()
                    &&& reason_view(result.0) == self@.first_reason(
                        self@.tasks_of(request@),
                        result.1@,
                    )
                    &&& self@.all_answered(self@.tasks_of(request@), result.1@)
                },
            },
    {
        let mut cancelled: Vec<bool> = Vec::new();
        if let Some(reason) = self.terminal_cancellation.get(&request) {
            return (Some(reason.clone()), cancelled);
        }
        let mut found: Option<CancelReason> = None;
        if let Some(tasks) = self.by_request.get(&request) {
            let mut at: usize = 0;
            proof {
                assert(tasks@.take(0) =~= Seq::empty());
                assert(cancelled@ =~= Seq::empty());
            }
            while at < tasks.len()
                invariant
                    self.ordered(),
                    at <= tasks@.len(),
                    cancelled@.len() == at,
                    self@.all_answered(tasks@.take(at as int), cancelled@),
                    reason_view(found) == self@.first_reason(tasks@.take(at as int), cancelled@),
                decreases tasks@.len() - at,
            {
                let ghost flags = cancelled@;
                let id = tasks[at];
                proof {
                    assert(tasks@.take(at + 1).drop_last() =~= tasks@.take(at as int));
                }
                match self.running.get(&id) {
                    Some(task) => {
                        let is_cancelled = task.record.request.cancellation.is_cancelled();
                        cancelled.push(is_cancelled);
                        if found.is_none() {
                            found = cancellation_reason(&task.reason, is_cancelled);
                        }
                    },
                    None => {
                        cancelled.push(false);
                    },
                }
                assert(cancelled@.drop_last() =~= flags);
                at = at + 1;
            }
            assert(tasks@.take(at as int) =~= tasks@);
        }
        (found, cancelled)
    }

    /// Every task as others see it, in the order of identities.
    pub fn snapshots(&self) -> (snapshots: Vec<TaskSnapshot<K>>)
        requires
            self.wf(),
        ensures
            snapshots@.map_values(|task: TaskSnapshot<K>| task@) == ordered_keys::<TaskId>(
                self@.all_shown().dom(),
            ).map_values(|id: u64| self@.all_shown()[id]),
            forall|i: int|
                0 <= i < snapshots@.len() ==> cloned(
                    self.name(),
                    (#[trigger] snapshots@[i]).service,
                ),
    {
        proof {
            assert(identities_differ(self@.running, self@.pending));
        }
        list_tasks(&self.service, &self.running, &self.pending)
    }

    /// The number of tasks that run or wait.
    pub fn len(&self) -> (count: usize)
        requires
            self.wf(),
        ensures
            ({
                let tasks = self@.running.dom().len() + self@.pending.dom().len();
                count == if tasks > usize::MAX {
                    usize::MAX as nat
                } else {
                    tasks
                }
            }),
    {
        proof {
            self.running.lemma_listing();
            self.pending.lemma_listing();
            assert(self@.running.dom() =~= self.running@.dom());
            assert(self@.pending.dom() =~= self.pending@.dom());
        }
        self.running.len().saturating_add(self.pending.len())
    }

    /// Whether no task runs or waits.
    pub fn is_empty(&self) -> (result: bool)
        requires
            self.wf(),
        ensures
            result == (self@.running.dom().len() == 0 && self@.pending.dom().len() == 0),
    {
        proof {
            self.running.lemma_listing();
            self.pending.lemma_listing();
            assert(self@.running.dom() =~= self.running@.dom());
            assert(self@.pending.dom() =~= self.pending@.dom());
        }
        self.running.len() == 0 && self.pending.len() == 0
    }

    /// Whether no task has this identity.
    pub fn is_free_for(&self, counter: &IdCounter) -> (result: bool)
        requires
            self.wf(),
        ensures
            result == self@.is_free(counter@),
    {
        let task = counter.peek();
        let running = self.running.contains_key(&task);
        let pending = self.find_pending(task);
        proof {
            if pending is None {
                assert forall|key: Seq<char>| #[trigger]
                    self@.pending.contains_key(key) implies self@.pending[key].id@ != counter@ by {
                    assert(!self@.waits_for(task@, key));
                }
            }
        }
        !running && pending.is_none()
    }

    /// Hands out the changes of tasks since the last call, oldest first.
    pub fn take_events(&mut self) -> (events: Vec<TaskSnapshot<K>>)
        requires
            old(self).wf(),
        ensures
            final(self).wf(),
            events@.map_values(|task: TaskSnapshot<K>| task@) == old(self)@.emitted,
            forall|i: int|
                0 <= i < events@.len() ==> cloned(
                    old(self).name(),
                    (#[trigger] events@[i]).service,
                ),
            final(self)@ == (ManagerView { emitted: Seq::empty(), ..old(self)@ }),
            final(self).name() == old(self).name(),
            final(self).waiting() == old(self).waiting(),
    {
        let mut events: Vec<TaskSnapshot<K>> = Vec::new();
        events.append(&mut self.emitted);
        assert(events@ =~= old(self).emitted@);
        assert(self@.emitted =~= Seq::empty());
        events
    }
}

/// Of the tasks with one key at most one runs.
pub proof fn law_one_task_runs_per_key(manager: ManagerView, a: u64, b: u64)
    requires
        manager.valid(),
        manager.running.contains_key(a),
        manager.running.contains_key(b),
        manager.running[a].record.meta.key@ == manager.running[b].record.meta.key@,
    ensures
        a == b,
{
}

/// A task that replaces another never runs beside it: the running one keeps the
/// key and is being cancelled, the new one waits for it.
pub proof fn law_replacement_waits_for_the_running_task(
    manager: ManagerView,
    record: TaskRecord,
    reason: CancelReason,
)
    requires
        manager.valid(),
        manager.is_free(record.id@),
        manager.by_key.contains_key(record.meta.key@),
    ensures
        ({
            let key = record.meta.key@;
            let after = manager.created(record, ConflictPolicy::Replace(reason));
            let running = manager.by_key[key]@;
            &&& after.valid()
            &&& after.by_key == manager.by_key
            &&& after.running.contains_key(running)
            &&& after.running[running].state == TaskState::Cancelling
            &&& !after.running.contains_key(record.id@)
            &&& after.pending.contains_key(key)
            &&& after.pending[key] == record
        }),
{
    let key = record.meta.key@;
    manager.lemma_created(record, ConflictPolicy::Replace(reason));
    let id = manager.by_key[key]@;
    manager.lemma_cancelling(id, reason@);
    let cancelled = manager.cancelling(id, reason@);
    if cancelled.pending.contains_key(key) {
        cancelled.lemma_pending_cancelled(
            key,
            CancelReasonView::Requested("replaced while waiting for task slot"@),
        );
    }
    assert(!manager.running.dom().contains(record.id@));
}

/// A task that takes over a key runs only after the task before it was released,
/// and then it is the one that holds the key.
pub proof fn law_waiting_task_takes_over(manager: ManagerView, keys: Seq<Seq<char>>)
    requires
        manager.handing(keys),
        keys.len() > 0,
        manager.pending.contains_key(keys[0]),
    ensures
        ({
            let after = manager.handed_over(keys[0], true);
            let record = manager.pending[keys[0]];
            &&& !manager.by_key.contains_key(keys[0])
            &&& after.handing(keys.skip(1))
            &&& after.by_key.contains_key(keys[0])
            &&& after.by_key[keys[0]] == record.id
            &&& after.running[record.id@].state == TaskState::Running
            &&& !after.pending.contains_key(keys[0])
        }),
{
    manager.lemma_handed_over(keys, true);
    assert(!manager.by_key.contains_key(keys[0]));
}

/// After an abort nothing runs and nothing waits, and no request has tasks; the
/// first tasks of the requests and the reasons that were kept for them stay. Every
/// task that waited is announced as aborted, in the order of keys, and after those
/// every task that ran, in the order of identities. Nothing else is announced.
pub proof fn law_abort_leaves_no_task(manager: ManagerView)
    requires
        manager.running.dom().finite(),
        manager.pending.dom().finite(),
    ensures
        ({
            let after = manager.all_aborted();
            let added = after.emitted.skip(manager.emitted.len() as int);
            &&& after.valid()
            &&& after.running.dom() == Set::<u64>::empty()
            &&& after.pending.dom() == Set::<Seq<char>>::empty()
            &&& after.by_request.dom() == Set::<u64>::empty()
            &&& after.primary_by_request == manager.primary_by_request
            &&& after.terminal_cancellation == manager.terminal_cancellation
            &&& after.emitted == manager.emitted + added
            &&& added.len() == manager.pending.dom().len() + manager.running.dom().len()
            &&& forall|i: int|
                0 <= i < manager.pending.dom().len() ==> shows_task(
                    #[trigger] added[i],
                    manager.pending[ordered_keys::<TaskKey>(manager.pending.dom())[i]],
                    TaskState::Aborted,
                )
            &&& forall|i: int|
                manager.pending.dom().len() <= i < added.len() ==> shows_task(
                    #[trigger] added[i],
                    manager.running[ordered_keys::<TaskId>(manager.running.dom())[i
                        - manager.pending.dom().len()]].record,
                    TaskState::Aborted,
                )
            &&& forall|key: Seq<char>| #[trigger]
                manager.pending.contains_key(key) ==> added.contains(
                    manager.pending[key].shown(TaskState::Aborted),
                )
            &&& forall|id: u64| #[trigger]
                manager.running.contains_key(id) ==> added.contains(
                    manager.running[id].record.shown(TaskState::Aborted),
                )
        }),
{
    let after = manager.all_aborted();
    let keys = ordered_keys::<TaskKey>(manager.pending.dom());
    let ids = ordered_keys::<TaskId>(manager.running.dom());
    let waited = keys.map_values(
        |key: Seq<char>| manager.pending[key].shown(TaskState::Aborted),
    );
    let ran = ids.map_values(|id: u64| manager.running[id].record.shown(TaskState::Aborted));
    let added = after.emitted.skip(manager.emitted.len() as int);
    lemma_order_length::<TaskKey>(manager.pending.dom());
    lemma_order_length::<TaskId>(manager.running.dom());
    lemma_every_key_is_listed::<TaskKey>(manager.pending.dom());
    lemma_every_key_is_listed::<TaskId>(manager.running.dom());
    assert(after.running.dom() =~= Set::<u64>::empty());
    assert(after.pending.dom() =~= Set::<Seq<char>>::empty());
    assert(after.by_request.dom() =~= Set::<u64>::empty());
    assert(added =~= waited + ran);
    assert(after.emitted =~= manager.emitted + added);
    assert forall|key: Seq<char>| #[trigger]
        manager.pending.contains_key(key) implies added.contains(
        manager.pending[key].shown(TaskState::Aborted),
    ) by {
        assert(keys.contains(key));
        let i = choose|i: int| 0 <= i < keys.len() && keys[i] == key;
        assert(added[i] == waited[i]);
    }
    assert forall|id: u64| #[trigger] manager.running.contains_key(id) implies added.contains(
        manager.running[id].record.shown(TaskState::Aborted),
    ) by {
        assert(ids.contains(id));
        let i = choose|i: int| 0 <= i < ids.len() && ids[i] == id;
        assert(added[waited.len() + i] == ran[i]);
    }
}

/// A task ends as cancelled exactly when a reason for its cancellation is known,
/// whatever its handler came to. Otherwise it ends as its handler did.
pub proof fn law_reason_makes_the_end_a_cancellation(
    outcome: HandlerOutcome,
    reason: Option<CancelReasonView>,
)
    ensures
        last_state(outcome, reason) is Cancelled <==> reason is Some,
        last_state(outcome, reason) is Completed <==> reason is None && outcome is Completed,
        last_state(outcome, reason) is Failed <==> reason is None && outcome is Failed,
        last_state(outcome, reason) is Aborted <==> reason is None && outcome is Aborted,
{
}

/// Taking a task out of a list leaves all others, in their order.
pub proof fn law_others_stay_in_the_list(tasks: Seq<TaskId>, task: TaskId, other: TaskId)
    ensures
        !without(tasks, task).contains(task),
        other != task ==> (without(tasks, task).contains(other) <==> tasks.contains(other)),
        without(tasks, task) == tasks.filter(|entry: TaskId| entry != task),
    decreases tasks.len(),
{
    reveal(Seq::filter);
    if tasks.len() > 0 {
        let shorter = tasks.drop_last();
        let rest = without(shorter, task);
        let all = without(tasks, task);
        law_others_stay_in_the_list(shorter, task, other);
        assert(tasks[tasks.len() - 1] == tasks.last());
        if rest.contains(other) {
            let k = choose|k: int| 0 <= k < rest.len() && rest[k] == other;
            assert(all[k] == other);
        }
        if shorter.contains(other) {
            let k = choose|k: int| 0 <= k < shorter.len() && shorter[k] == other;
            assert(tasks[k] == other);
        }
        if tasks.contains(other) && !shorter.contains(other) {
            let k = choose|k: int| 0 <= k < tasks.len() && tasks[k] == other;
            if k < shorter.len() {
                assert(shorter[k] == other);
            }
            assert(tasks.last() == other);
            if other != task {
                assert(all[all.len() - 1] == other);
            }
        }
        if all.contains(other) && !rest.contains(other) {
            let k = choose|k: int| 0 <= k < all.len() && all[k] == other;
            if k < rest.len() {
                assert(rest[k] == other);
            }
        }
        if all.contains(task) {
            let k = choose|k: int| 0 <= k < all.len() && all[k] == task;
            if k < rest.len() {
                assert(rest[k] == task);
            }
        }
    }
}

/// A task that is tied to its request is the last of the tasks of that request,
/// and the first one stays the first. Cutting a task off takes it out of the
/// list of its request, and a request without tasks is not listed. Neither
/// touches another request.
pub proof fn law_request_lists_its_tasks(
    manager: ManagerView,
    request: u64,
    task: TaskId,
    other: u64,
)
    ensures
        ({
            let after = manager.remembered(request, task);
            &&& after.tasks_of(request) == manager.tasks_of(request).push(task)
            &&& after.primary_by_request.contains_key(request)
            &&& after.primary_by_request[request] == if manager.primary_by_request.contains_key(
                request,
            ) {
                manager.primary_by_request[request]
            } else {
                task
            }
            &&& other != request ==> {
                &&& after.tasks_of(other) == manager.tasks_of(other)
                &&& after.primary_by_request.contains_key(other)
                    <==> manager.primary_by_request.contains_key(other)
                &&& manager.primary_by_request.contains_key(other)
                    ==> after.primary_by_request[other] == manager.primary_by_request[other]
            }
            &&& after.running == manager.running
            &&& after.pending == manager.pending
            &&& after.by_key == manager.by_key
            &&& after.terminal_cancellation == manager.terminal_cancellation
            &&& after.emitted == manager.emitted
        }),
        ({
            let after = manager.forgotten(request, task);
            &&& !after.tasks_of(request).contains(task)
            &&& after.tasks_of(request) == manager.tasks_of(request).filter(
                |entry: TaskId| entry != task,
            )
            &&& manager.by_request.contains_key(request) ==> (after.by_request.contains_key(request)
                <==> after.tasks_of(request).len() > 0)
            &&& other != request ==> after.tasks_of(other) == manager.tasks_of(other)
            &&& after.primary_by_request == manager.primary_by_request
            &&& after.running == manager.running
            &&& after.pending == manager.pending
            &&& after.by_key == manager.by_key
            &&& after.terminal_cancellation == manager.terminal_cancellation
            &&& after.emitted == manager.emitted
        }),
        manager.by_request.contains_key(request) ==> manager.tasks_of(request)
            == manager.by_request[request],
        !manager.by_request.contains_key(request) ==> manager.tasks_of(request).len() == 0,
{
    reveal(Seq::filter);
    let tasks = manager.tasks_of(request);
    law_others_stay_in_the_list(tasks, task, task);
    if !manager.by_request.contains_key(request) {
        assert(tasks.filter(|entry: TaskId| entry != task) =~= tasks);
    } else {
        let rest = without(tasks, task);
        if rest.len() == 0 {
            assert(manager.forgotten(request, task).tasks_of(request) =~= rest);
        }
    }
}

/// A task on a free key runs at once, as the newest task of its request.
pub proof fn law_free_key_is_taken_at_once(
    manager: ManagerView,
    record: TaskRecord,
    conflict: ConflictPolicy,
)
    requires
        !manager.by_key.contains_key(record.meta.key@),
    ensures
        ({
            let after = manager.created(record, conflict);
            let request = record.request.request_id@;
            &&& announced(manager.emitted, after.emitted, seq![(record, TaskState::Running)])
            &&& after.by_key.contains_key(record.meta.key@)
            &&& after.by_key[record.meta.key@] == record.id
            &&& after.running.contains_key(record.id@)
            &&& after.running[record.id@].record == record
            &&& after.running[record.id@].state is Running
            &&& after.running[record.id@].reason is None
            &&& after.pending == manager.pending
            &&& after.tasks_of(request) == manager.tasks_of(request).push(record.id)
            &&& after.terminal_cancellation == manager.terminal_cancellation
        }),
{
}

/// A task on a taken key is refused without a trace, unless it replaces. One that
/// replaces waits, and this is announced last; the running task is asked to
/// cancel first of all, and a task that waited before is cancelled, with a reason
/// that is kept for its request.
pub proof fn law_taken_key_is_refused_or_replaced(
    manager: ManagerView,
    record: TaskRecord,
    reason: CancelReason,
)
    requires
        manager.valid(),
        manager.is_free(record.id@),
        manager.by_key.contains_key(record.meta.key@),
    ensures
        manager.created(record, ConflictPolicy::Reject) == manager,
        ({
            let key = record.meta.key@;
            let running = manager.running[manager.by_key[key]@];
            let after = manager.created(record, ConflictPolicy::Replace(reason));
            let now_running = after.running[manager.by_key[key]@];
            &&& now_running.record == running.record
            &&& now_running.state is Cancelling
            &&& running.reason is Some ==> now_running.reason == running.reason
            &&& running.reason is None ==> now_running.reason == Some(reason@)
            &&& after.pending.contains_key(key)
            &&& after.pending[key] == record
            &&& manager.pending.contains_key(key) ==> {
                let waited = manager.pending[key];
                &&& announced(
                    manager.emitted,
                    after.emitted,
                    seq![
                        (running.record, TaskState::Cancelling),
                        (waited, TaskState::Cancelled),
                        (record, TaskState::Queued),
                    ],
                )
                &&& after.terminal_cancellation.contains_key(waited.request.request_id@)
                &&& after.terminal_cancellation[waited.request.request_id@]
                    == CancelReasonView::Requested("replaced while waiting for task slot"@)
            }
            &&& !manager.pending.contains_key(key) ==> {
                &&& announced(
                    manager.emitted,
                    after.emitted,
                    seq![(running.record, TaskState::Cancelling), (record, TaskState::Queued)],
                )
                &&& after.terminal_cancellation == manager.terminal_cancellation
            }
        }),
{
}

/// A running task that is asked to cancel keeps running with its key, and the
/// first reason counts. A waiting task that is cancelled waits no longer and is
/// cut off from its request, which keeps the reason.
pub proof fn law_cancelled_task_settles_or_never_runs(
    manager: ManagerView,
    id: u64,
    key: Seq<char>,
    reason: CancelReasonView,
)
    ensures
        manager.running.contains_key(id) ==> ({
            let running = manager.running[id];
            let after = manager.cancelling(id, reason);
            &&& announced(
                manager.emitted,
                after.emitted,
                seq![(running.record, TaskState::Cancelling)],
            )
            &&& after.running.dom() == manager.running.dom()
            &&& after.running[id].record == running.record
            &&& after.running[id].state is Cancelling
            &&& running.reason is Some ==> after.running[id].reason == running.reason
            &&& running.reason is None ==> after.running[id].reason == Some(reason)
            &&& forall|other: u64|
                other != id && #[trigger] manager.running.contains_key(other)
                    ==> after.running[other] == manager.running[other]
            &&& after.by_key == manager.by_key
            &&& after.pending == manager.pending
            &&& after.by_request == manager.by_request
            &&& after.terminal_cancellation == manager.terminal_cancellation
        }),
        manager.pending.contains_key(key) ==> ({
            let record = manager.pending[key];
            let request = record.request.request_id@;
            let after = manager.pending_cancelled(key, reason);
            &&& announced(manager.emitted, after.emitted, seq![(record, TaskState::Cancelled)])
            &&& after.pending == manager.pending.remove(key)
            &&& after.running == manager.running
            &&& after.by_key == manager.by_key
            &&& after.terminal_cancellation.contains_key(request)
            &&& after.terminal_cancellation[request] == reason
            &&& !after.tasks_of(request).contains(record.id)
            &&& after.kept_reason(request) == Some(reason)
        }),
{
    if manager.running.contains_key(id) {
        assert(manager.cancelling(id, reason).running.dom() =~= manager.running.dom());
    }
    if manager.pending.contains_key(key) {
        let record = manager.pending[key];
        let removed = ManagerView { pending: manager.pending.remove(key), ..manager };
        law_request_lists_its_tasks(
            removed,
            record.request.request_id@,
            record.id,
            record.request.request_id@,
        );
    }
}

/// Releasing one more task of a request takes it off its key and announces its
/// end. The first reason that any of the tasks has holds for it and for all that
/// follow: with it they end as cancelled, and without it as the handler did. A
/// task that does not run is passed over.
pub proof fn law_tasks_are_released_one_by_one(
    manager: ManagerView,
    tasks: Seq<TaskId>,
    cancelled: Seq<bool>,
    outcome: HandlerOutcome,
    reason: Option<CancelReasonView>,
    id: TaskId,
    flag: bool,
)
    ensures
        ({
            let none = manager.released(Seq::empty(), Seq::empty(), outcome, reason);
            &&& none.manager == manager
            &&& none.reason == reason
            &&& none.keys.len() == 0
        }),
        ({
            let before = manager.released(tasks, cancelled, outcome, reason);
            let after = manager.released(tasks.push(id), cancelled.push(flag), outcome, reason);
            let task = before.manager.running[id@];
            let key = task.record.meta.key@;
            &&& !before.manager.running.contains_key(id@) ==> after == before
            &&& before.manager.running.contains_key(id@) ==> {
                &&& !after.manager.running.contains_key(id@)
                &&& after.manager.running == before.manager.running.remove(id@)
                &&& after.manager.by_key == before.manager.by_key.remove(key)
                &&& after.manager.pending == before.manager.pending
                &&& after.keys == before.keys.push(key)
                &&& before.reason is Some ==> after.reason == before.reason
                &&& before.reason is None && task.reason is Some ==> after.reason == task.reason
                &&& before.reason is None && task.reason is None && flag ==> after.reason == Some(
                    CancelReasonView::ParentCancelled,
                )
                &&& before.reason is None && task.reason is None && !flag ==> after.reason is None
                &&& after.reason is Some ==> announced(
                    before.manager.emitted,
                    after.manager.emitted,
                    seq![(task.record, TaskState::Cancelled)],
                )
                &&& after.reason is None && outcome is Completed ==> announced(
                    before.manager.emitted,
                    after.manager.emitted,
                    seq![(task.record, TaskState::Completed)],
                )
                &&& after.reason is None && outcome is Failed ==> announced(
                    before.manager.emitted,
                    after.manager.emitted,
                    seq![(task.record, TaskState::Failed)],
                )
                &&& after.reason is None && outcome is Aborted ==> announced(
                    before.manager.emitted,
                    after.manager.emitted,
                    seq![(task.record, TaskState::Aborted)],
                )
            }
        }),
{
    assert(tasks.push(id).drop_last() =~= tasks);
    assert(cancelled.push(flag).drop_last() =~= cancelled);
}

/// The task that waits for a released key runs on it from then on. Where nobody
/// waits for the task itself any more, it is aborted at once, and the key is
/// free again. A key that nobody waits for is left alone.
pub proof fn law_released_key_is_handed_over(manager: ManagerView, key: Seq<char>, delivered: bool)
    requires
        manager.exclusive(),
        !manager.by_key.contains_key(key),
    ensures
        !manager.pending.contains_key(key) ==> manager.handed_over(key, delivered) == manager,
        manager.pending.contains_key(key) ==> ({
            let record = manager.pending[key];
            let after = manager.handed_over(key, delivered);
            &&& after.pending == manager.pending.remove(key)
            &&& delivered ==> {
                &&& announced(manager.emitted, after.emitted, seq![(record, TaskState::Running)])
                &&& after.by_key == manager.by_key.insert(key, record.id)
                &&& after.running.contains_key(record.id@)
                &&& after.running[record.id@].record == record
                &&& after.running[record.id@].state is Running
                &&& after.running[record.id@].reason is None
                &&& after.by_request == manager.by_request
            }
            &&& !delivered ==> {
                &&& announced(
                    manager.emitted,
                    after.emitted,
                    seq![(record, TaskState::Running), (record, TaskState::Aborted)],
                )
                &&& after.by_key == manager.by_key
                &&& after.running == manager.running
                &&& !after.tasks_of(record.request.request_id@).contains(record.id)
            }
        }),
{
    if manager.pending.contains_key(key) {
        let record = manager.pending[key];
        let started = ManagerView {
            pending: manager.pending.remove(key),
            ..manager
        }.running_now(record);
        let ended = ManagerView {
            running: started.running.remove(record.id@),
            by_key: started.by_key.remove(key),
            ..started
        };
        assert(ended.running =~= manager.running);
        assert(ended.by_key =~= manager.by_key);
        law_request_lists_its_tasks(
            ended,
            record.request.request_id@,
            record.id,
            record.request.request_id@,
        );
    }
}

proof fn lemma_released_keeps_requests(
    manager: ManagerView,
    tasks: Seq<TaskId>,
    cancelled: Seq<bool>,
    outcome: HandlerOutcome,
    reason: Option<CancelReasonView>,
    task: TaskId,
)
    ensures
        ({
            let after = manager.released(tasks, cancelled, outcome, reason).manager;
            &&& after.by_request == manager.by_request
            &&& after.primary_by_request == manager.primary_by_request
            &&& after.terminal_cancellation == manager.terminal_cancellation
            &&& after.pending == manager.pending
            &&& tasks.contains(task) ==> !after.running.contains_key(task@)
            &&& !tasks.contains(task) && manager.running.contains_key(task@) && (forall|i: int|
                0 <= i < tasks.len() ==> (#[trigger] tasks[i])@ != task@) ==> after.running[task@]
                == manager.running[task@] && after.running.contains_key(task@)
        }),
    decreases tasks.len(),
{
    if tasks.len() > 0 {
        let shorter = tasks.drop_last();
        lemma_released_keeps_requests(
            manager,
            shorter,
            cancelled.drop_last(),
            outcome,
            reason,
            task,
        );
        assert(tasks[tasks.len() - 1] == tasks.last());
        if tasks.contains(task) && !shorter.contains(task) {
            let k = choose|k: int| 0 <= k < tasks.len() && tasks[k] == task;
            if k < shorter.len() {
                assert(shorter[k] == task);
            }
        }
        if shorter.contains(task) {
            let k = choose|k: int| 0 <= k < shorter.len() && shorter[k] == task;
            assert(tasks[k] == task);
        }
        assert forall|i: int| 0 <= i < shorter.len() implies #[trigger] shorter[i] == tasks[i] by {}
    }
}

proof fn lemma_handing_over_keeps_requests(
    manager: ManagerView,
    keys: Seq<Seq<char>>,
    delivered: Seq<bool>,
    request: u64,
)
    ensures
        ({
            let after = manager.all_handed_over(keys, delivered);
            &&& after.primary_by_request == manager.primary_by_request
            &&& after.terminal_cancellation == manager.terminal_cancellation
            &&& !manager.by_request.contains_key(request) ==> !after.by_request.contains_key(request)
        }),
    decreases keys.len(),
{
    if keys.len() > 0 {
        lemma_handing_over_keeps_requests(manager, keys.drop_last(), delivered.drop_last(), request);
    }
}

/// A request that ended leaves nothing behind: none of its tasks runs when their
/// keys are handed over, and neither its tasks, nor its first task, nor a kept
/// reason are known any more. A reason that was kept for it is the one that its
/// tasks end with.
pub proof fn law_ended_request_leaves_nothing(
    manager: ManagerView,
    request: u64,
    outcome: HandlerOutcome,
    cancelled: Seq<bool>,
    delivered: Seq<bool>,
    task: TaskId,
)
    ensures
        ({
            let released = manager.request_released(request, outcome, cancelled);
            let after = manager.request_finished(request, outcome, cancelled, delivered);
            &&& manager.tasks_of(request).contains(task) ==> !released.manager.running.contains_key(
                task@,
            )
            &&& manager.terminal_cancellation.contains_key(request) ==> released.reason == Some(
                manager.terminal_cancellation[request],
            )
            &&& manager.tasks_of(request).len() == 0
                && !manager.terminal_cancellation.contains_key(request) ==> released.reason is None
            &&& !after.by_request.contains_key(request)
            &&& !after.primary_by_request.contains_key(request)
            &&& !after.terminal_cancellation.contains_key(request)
            &&& after.tasks_of(request).len() == 0
        }),
{
    let cleared = ManagerView {
        terminal_cancellation: manager.terminal_cancellation.remove(request),
        by_request: manager.by_request.remove(request),
        ..manager
    };
    let tasks = manager.tasks_of(request);
    lemma_released_keeps_requests(
        cleared,
        tasks,
        cancelled,
        outcome,
        manager.kept_reason(request),
        task,
    );
    lemma_reason_stays(cleared, tasks, cancelled, outcome, manager.kept_reason(request));
    let released = manager.request_released(request, outcome, cancelled);
    let ended = ManagerView {
        primary_by_request: released.manager.primary_by_request.remove(request),
        ..released.manager
    };
    lemma_handing_over_keeps_requests(ended, released.keys, delivered, request);
}

proof fn lemma_reason_stays(
    manager: ManagerView,
    tasks: Seq<TaskId>,
    cancelled: Seq<bool>,
    outcome: HandlerOutcome,
    reason: Option<CancelReasonView>,
)
    ensures
        reason is Some ==> manager.released(tasks, cancelled, outcome, reason).reason == reason,
    decreases tasks.len(),
{
    if tasks.len() > 0 {
        lemma_reason_stays(manager, tasks.drop_last(), cancelled.drop_last(), outcome, reason);
    }
}

/// Whether a task of a request runs and gives a reason for its cancellation: the
/// recorded one, or that its scope is cancelled.
pub open spec fn gives_reason(manager: ManagerView, task: TaskId, cancelled: bool) -> bool {
    manager.running.contains_key(task@) && (manager.running[task@].reason is Some || cancelled)
}

/// The reason of a request is that of the first of its tasks that runs and gives
/// one, and there is none where no task does.
pub proof fn law_first_task_with_a_reason_decides(
    manager: ManagerView,
    tasks: Seq<TaskId>,
    cancelled: Seq<bool>,
    at: int,
)
    requires
        cancelled.len() == tasks.len(),
    ensures
        (forall|i: int|
            0 <= i < tasks.len() ==> !gives_reason(manager, #[trigger] tasks[i], cancelled[i]))
            ==> manager.first_reason(tasks, cancelled) is None,
        0 <= at < tasks.len() && gives_reason(manager, tasks[at], cancelled[at]) && (forall|i: int|
            0 <= i < at ==> !gives_reason(manager, #[trigger] tasks[i], cancelled[i])) ==> {
            let task = manager.running[tasks[at]@];
            &&& task.reason is Some ==> manager.first_reason(tasks, cancelled) == task.reason
            &&& task.reason is None ==> manager.first_reason(tasks, cancelled) == Some(
                CancelReasonView::ParentCancelled,
            )
        },
    decreases tasks.len(),
{
    if tasks.len() > 0 {
        let shorter = tasks.drop_last();
        let flags = cancelled.drop_last();
        law_first_task_with_a_reason_decides(manager, shorter, flags, at);
        assert forall|i: int| 0 <= i < shorter.len() implies #[trigger] shorter[i] == tasks[i]
            && flags[i] == cancelled[i] by {}
        if at == tasks.len() - 1 && (forall|i: int|
            0 <= i < at ==> !gives_reason(manager, #[trigger] tasks[i], cancelled[i])) {
            assert forall|i: int| 0 <= i < shorter.len() implies !gives_reason(
                manager,
                #[trigger] shorter[i],
                flags[i],
            ) by {
                assert(!gives_reason(manager, tasks[i], cancelled[i]));
            }
        }
        if forall|i: int|
            0 <= i < tasks.len() ==> !gives_reason(manager, #[trigger] tasks[i], cancelled[i]) {
            assert forall|i: int| 0 <= i < shorter.len() implies !gives_reason(
                manager,
                #[trigger] shorter[i],
                flags[i],
            ) by {
                assert(!gives_reason(manager, tasks[i], cancelled[i]));
            }
            assert(!gives_reason(manager, tasks[tasks.len() - 1], cancelled[tasks.len() - 1]));
        }
        if 0 <= at < shorter.len() && gives_reason(manager, tasks[at], cancelled[at]) && (forall|
            i: int,
        |
            0 <= i < at ==> !gives_reason(manager, #[trigger] tasks[i], cancelled[i])) {
            assert(gives_reason(manager, shorter[at], flags[at]));
            assert forall|i: int| 0 <= i < at implies !gives_reason(
                manager,
                #[trigger] shorter[i],
                flags[i],
            ) by {
                assert(!gives_reason(manager, tasks[i], cancelled[i]));
            }
        }
    }
}

/// The starter of a task is told at once that it runs, on a free key, and on a
/// taken one that it is refused, with the key, or that it waits.
pub proof fn law_starter_is_told_at_once(
    record: TaskRecord,
    conflict: ConflictPolicy,
    taken: bool,
    result: Result<Acquisition, RuntimeError>,
)
    requires
        creation_result(record, conflict, taken, result),
    ensures
        (result matches Ok(Acquisition::Ready(_))) <==> !taken,
        (result matches Ok(Acquisition::Waiting(_))) <==> taken && conflict is Replace,
        result matches Err(error) ==> taken && conflict is Reject && error
            == RuntimeError::TaskAlreadyRunning(record.meta.key),
        result matches Ok(Acquisition::Ready(context)) ==> {
            &&& context.task_id == record.id
            &&& context.key == record.meta.key
            &&& context.request == record.request
        },
{
}

/// A new task carries what its request carries, under an identity of its own,
/// and only its scope is new.
pub proof fn law_new_task_belongs_to_its_request(
    record: TaskRecord,
    number: u64,
    meta: TaskMeta,
    request: RequestContext,
)
    requires
        is_new_record(record, number, meta, request),
    ensures
        record.id@ == number,
        record.meta == meta,
        record.request.request_id == request.request_id,
        record.request.operation_id == request.operation_id,
        record.request.trace == request.trace,
        descends_from(record.request.cancellation, request.cancellation),
{
}

/// A running task is cancelled by its own token and with the reason, and stays; a
/// waiting one never runs, and its starter learns the reason. Only a task that is
/// neither is not found.
pub proof fn law_cancel_reaches_running_and_waiting_tasks<K: ServiceKey>(
    manager: &mut ServiceTaskManager<K>,
    task: TaskId,
    reason: CancelReason,
    result: Result<(), RuntimeError>,
    key: Seq<char>,
)
    requires
        old(manager)@.valid(),
        call_ensures(ServiceTaskManager::<K>::cancel, (manager, task, reason), result),
    ensures
        ({
            let before = old(manager)@;
            let after = final(manager)@;
            &&& before.running.contains_key(task@) ==> {
                let scope = before.running[task@].record.request;
                &&& result is Ok
                &&& after.running[task@].state is Cancelling
                &&& cancel_requested(scope.cancellation)
                &&& reason_recorded(scope.reason, reason)
            }
            &&& before.pending.contains_key(key) && before.pending[key].id@ == task@ ==> {
                let scope = before.pending[key].request;
                &&& result is Ok
                &&& !after.pending.contains_key(key)
                &&& cancel_requested(scope.cancellation)
                &&& reason_recorded(scope.reason, reason)
                &&& sent(old(manager).waiting()[key], Err(RuntimeError::TaskCancelled(reason)))
            }
            &&& result matches Err(error) ==> {
                &&& error == RuntimeError::TaskNotFound(task)
                &&& !before.running.contains_key(task@)
                &&& !(before.pending.contains_key(key) && before.pending[key].id@ == task@)
                &&& after == before
            }
        }),
{
    let before = old(manager)@;
    if before.pending.contains_key(key) && before.pending[key].id@ == task@ {
        assert(before.waits_for(task@, key));
        assert(!before.running.contains_key(task@));
        let found = choose|found: Seq<char>| #[trigger]
            before.waits_for(task@, found) && {
                &&& final(manager)@ == before.pending_cancelled(found, reason@)
                &&& old(manager).told_of_cancel(found, reason)
                &&& final(manager).waiting() == old(manager).waiting().remove(found)
            };
        assert(before.pending.contains_key(found));
        assert(found == key);
        law_cancelled_task_settles_or_never_runs(before, task@, key, reason@);
    }
}

/// A task that is replaced is told so: the running one by its token and with the
/// reason, and the starter of the one that waited with a reason of its own. The
/// starter of a task that takes over gets the context of that task.
pub proof fn law_replaced_and_promoted_tasks_are_told<K: ServiceKey>(
    manager: ServiceTaskManager<K>,
    key: Seq<char>,
    reason: CancelReason,
    delivered: bool,
)
    requires
        manager.displaced(key, reason),
        manager.told_to_run(key, delivered),
    ensures
        ({
            let scope = manager@.running[manager@.by_key[key]@].record.request;
            &&& cancel_requested(scope.cancellation)
            &&& reason_recorded(scope.reason, reason)
        }),
        manager@.pending.contains_key(key) ==> exists|given: CancelReason|
            {
                &&& #[trigger] sent(
                    manager.waiting()[key],
                    Err::<TaskContext, _>(RuntimeError::TaskCancelled(given)),
                )
                &&& given@ == CancelReasonView::Requested("replaced while waiting for task slot"@)
            },
        exists|context: TaskContext|
            {
                &&& #[trigger] delivered_as(
                    manager.waiting()[key],
                    Ok::<_, RuntimeError>(context),
                    delivered,
                )
                &&& context.task_id == manager@.pending[key].id
                &&& context.key == manager@.pending[key].meta.key
                &&& context.request == manager@.pending[key].request
            },
{
    if manager@.pending.contains_key(key) {
        let given = choose|given: CancelReason|
            {
                &&& given@ == CancelReasonView::Requested("replaced while waiting for task slot"@)
                &&& #[trigger] manager.told_of_cancel(key, given)
            };
        assert(sent(
            manager.waiting()[key],
            Err::<TaskContext, _>(RuntimeError::TaskCancelled(given)),
        ));
    }
    let record = manager@.pending[key];
    let context = TaskContext {
        task_id: record.id,
        key: record.meta.key,
        request: record.request,
    };
    assert(delivered_as(manager.waiting()[key], Ok::<_, RuntimeError>(context), delivered));
}

/// A request is known by its first task. The starter of a waiting task that is
/// aborted learns that the response was dropped, and the manager is empty then.
pub proof fn law_abort_tells_the_starters<K: ServiceKey>(
    manager: &mut ServiceTaskManager<K>,
    aborted: (),
    key: Seq<char>,
    other: ServiceTaskManager<K>,
    request: RequestId,
    task: Option<TaskId>,
    count: usize,
    empty: bool,
)
    requires
        call_ensures(ServiceTaskManager::<K>::abort_all, (manager,), aborted),
        call_ensures(ServiceTaskManager::<K>::task_for_request, (&other, request), task),
        call_ensures(ServiceTaskManager::<K>::len, (&other,), count),
        call_ensures(ServiceTaskManager::<K>::is_empty, (&other,), empty),
    ensures
        old(manager)@.pending.contains_key(key) ==> sent(
            old(manager).waiting()[key],
            Err::<TaskContext, _>(RuntimeError::ResponseDropped),
        ),
        !final(manager)@.pending.contains_key(key),
        !final(manager)@.by_key.contains_key(key),
        task is Some <==> other@.primary_by_request.contains_key(request@),
        task matches Some(first) ==> first == other@.primary_by_request[request@],
        other@.running.dom().len() + other@.pending.dom().len() <= usize::MAX ==> count
            == other@.running.dom().len() + other@.pending.dom().len(),
        empty <==> count == 0,
{
}

/// The work of a request is cancelled for the reason that was kept for it, and
/// otherwise for that of the first of its running tasks that has one. A request
/// ends with the reason that its tasks ended with.
pub proof fn law_request_is_cancelled_for_its_first_reason<K: ServiceKey>(
    manager: ServiceTaskManager<K>,
    request: RequestId,
    result: (Option<CancelReason>, Vec<bool>),
    ending: &mut ServiceTaskManager<K>,
    outcome: HandlerOutcome,
    end: RequestEnd,
)
    requires
        call_ensures(
            ServiceTaskManager::<K>::cancellation_for_request,
            (&manager, request),
            result,
        ),
        call_ensures(ServiceTaskManager::<K>::finish_request, (ending, request, outcome), end),
    ensures
        manager@.terminal_cancellation.contains_key(request@) ==> (result.0 matches Some(reason)
            && reason@ == manager@.terminal_cancellation[request@]),
        !manager@.terminal_cancellation.contains_key(request@) && !manager@.by_request.contains_key(
            request@,
        ) ==> result.0 is None,
        old(ending)@.terminal_cancellation.contains_key(request@) ==> (end.cancellation
            matches Some(reason) && reason@ == old(ending)@.terminal_cancellation[request@]),
        !old(ending)@.terminal_cancellation.contains_key(request@)
            && !old(ending)@.by_request.contains_key(request@) ==> end.cancellation is None,
        !final(ending)@.by_request.contains_key(request@),
        !final(ending)@.primary_by_request.contains_key(request@),
        !final(ending)@.terminal_cancellation.contains_key(request@),
{
    law_ended_request_leaves_nothing(
        old(ending)@,
        request@,
        outcome,
        end.cancelled@,
        end.delivered@,
        arbitrary(),
    );
}

/// The starter of a waiting task gets what was sent to it, and a task whose
/// manager is gone was never acquired.
pub proof fn law_starter_gets_what_was_sent(
    received: Result<Result<TaskContext, RuntimeError>, oneshot::error::RecvError>,
    result: Result<TaskContext, RuntimeError>,
)
    requires
        call_ensures(Acquisition::acquired, (received,), result),
    ensures
        received matches Ok(answer) ==> result == answer,
        received is Err ==> (result matches Err(RuntimeError::ChannelClosed(_))),
{
}

/// A task ends as cancelled exactly when a reason was given, and as its handler
/// did otherwise. A new task is told at once what became of it.
pub proof fn law_terminal_state_follows_reason_and_handler<K: ServiceKey>(
    outcome: HandlerOutcome,
    cancellation: Option<&CancelReason>,
    state: TaskState,
    manager: &mut ServiceTaskManager<K>,
    request: &RequestContext,
    meta: TaskMeta,
    conflict: ConflictPolicy,
    counter: &mut IdCounter,
    result: Result<Acquisition, RuntimeError>,
)
    requires
        call_ensures(terminal_state, (outcome, cancellation), state),
        call_ensures(
            ServiceTaskManager::<K>::create_new_task,
            (manager, request, meta, conflict, counter),
            result,
        ),
    ensures
        state is Cancelled <==> cancellation is Some,
        state is Completed <==> cancellation is None && outcome is Completed,
        state is Failed <==> cancellation is None && outcome is Failed,
        state is Aborted <==> cancellation is None && outcome is Aborted,
        ({
            let taken = old(manager)@.by_key.contains_key(meta.key@);
            &&& (result matches Ok(Acquisition::Ready(_))) <==> !taken
            &&& (result matches Ok(Acquisition::Waiting(_))) <==> taken && conflict is Replace
            &&& result is Err ==> final(manager)@ == old(manager)@
            &&& result matches Err(error) ==> error == RuntimeError::TaskAlreadyRunning(meta.key)
            &&& result matches Ok(Acquisition::Ready(context)) ==> {
                &&& context.task_id@ == old(counter)@
                &&& context.request.request_id == request.request_id
                &&& context.request.operation_id == request.operation_id
                &&& final(manager)@.running.contains_key(context.task_id@)
                &&& final(manager)@.by_key[meta.key@] == context.task_id
            }
        }),
{
}

/// Announcements are handed out once, in the order in which they were made, and
/// the tasks stay as they are. A new manager knows of no task and no request.
pub proof fn law_events_are_handed_out_once<K: ServiceKey>(
    manager: &mut ServiceTaskManager<K>,
    events: Vec<TaskSnapshot<K>>,
    i: int,
    service: K,
    fresh: ServiceTaskManager<K>,
    id: u64,
    key: Seq<char>,
    request: u64,
)
    requires
        call_ensures(ServiceTaskManager::<K>::take_events, (manager,), events),
        call_ensures(ServiceTaskManager::<K>::new, (service,), fresh),
    ensures
        events@.len() == old(manager)@.emitted.len(),
        0 <= i < events@.len() ==> events@[i]@ == old(manager)@.emitted[i],
        final(manager)@.emitted.len() == 0,
        final(manager)@.running == old(manager)@.running,
        final(manager)@.pending == old(manager)@.pending,
        final(manager)@.by_key == old(manager)@.by_key,
        final(manager)@.by_request == old(manager)@.by_request,
        final(manager)@.primary_by_request == old(manager)@.primary_by_request,
        final(manager)@.terminal_cancellation == old(manager)@.terminal_cancellation,
        !fresh@.running.contains_key(id),
        !fresh@.pending.contains_key(key),
        !fresh@.by_key.contains_key(key),
        !fresh@.primary_by_request.contains_key(request),
        !fresh@.terminal_cancellation.contains_key(request),
        fresh@.emitted.len() == 0,
        fresh.name() == service,
{
    let shown = events@.map_values(|task: TaskSnapshot<K>| task@);
    assert(shown.len() == events@.len());
    if 0 <= i < events@.len() {
        assert(shown[i] == events@[i]@);
    }
}

/// The listing of a manager shows each task that runs or waits once, in the order
/// of identities.
pub proof fn law_manager_lists_its_tasks_in_order<K: ServiceKey>(
    manager: ServiceTaskManager<K>,
    snapshots: Vec<TaskSnapshot<K>>,
    i: int,
)
    requires
        call_ensures(ServiceTaskManager::<K>::snapshots, (&manager,), snapshots),
        0 <= i < snapshots@.len(),
    ensures
        ({
            let order = ordered_keys::<TaskId>(manager@.all_shown().dom());
            &&& snapshots@.len() == order.len()
            &&& snapshots@[i]@ == manager@.all_shown()[order[i]]
        }),
{
    let shown = snapshots@.map_values(|task: TaskSnapshot<K>| task@);
    assert(shown.len() == snapshots@.len());
    assert(shown[i] == snapshots@[i]@);
}

} // verus!
