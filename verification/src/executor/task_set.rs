//! The tasks that the root of a service executes.
use crate::ordered_map::{ordered_keys, OrderedMap};
use crate::outside::{answered, cancel_requested, channel_made, sent};
use crate::protocol::{
    reason_view, CancelReason, CancelReasonView, RuntimeError, TaskExit, TaskKey,
};
use crate::runtime::ids::{number_after, IdCounter, TaskId};
use crate::task::context::{
    announced, cancellation_reason, effective_reason, reason_answered, reason_recorded, shows_task,
    ConflictPolicy, RequestContext, ScopeReason, TaskContext, TaskMeta, TaskRecord, TaskSnapshot,
    TaskSnapshotView, TaskState,
};
use crate::task::entry::{
    find_waiting, identities_differ, list_tasks, pending_held, pending_records, running_views,
    task_waits_for, PendingTask, RunningTask, RunningView,
};
use crate::task::manager::{ManagerView, ServiceKey};
use tokio::sync::oneshot;
use vstd::pervasive::cloned;
use vstd::prelude::*;

verus! {

/// The name of how a task ended.
pub open spec fn exit_state<T, E>(exit: TaskExit<T, E>) -> TaskState {
    match exit {
        TaskExit::Completed(_) => TaskState::Completed,
        TaskExit::Failed(_) => TaskState::Failed,
        TaskExit::Cancelled(_) => TaskState::Cancelled,
        TaskExit::Aborted => TaskState::Aborted,
    }
}

/// Tells how a task ended, given what its work returned: a task whose scope is
/// cancelled ends as cancelled whatever it returned, and one without a result
/// was aborted.
pub fn exit_of<T, E>(
    result: Option<Result<T, E>>,
    cancelled: bool,
    recorded: &Option<CancelReason>,
) -> (exit: TaskExit<T, E>)
    ensures
        match result {
            None => exit is Aborted,
            Some(result) => if cancelled {
                exit matches TaskExit::Cancelled(reason) && Some(reason@) == effective_reason(
                    reason_view(*recorded),
                    true,
                )
            } else {
                exit == match result {
                    Ok(value) => TaskExit::Completed(value),
                    Err(error) => TaskExit::Failed(error),
                }
            },
        },
{
    match result {
        None => TaskExit::Aborted,
        Some(result) => {
            if cancelled {
                match cancellation_reason(recorded, true) {
                    Some(reason) => TaskExit::Cancelled(reason),
                    None => TaskExit::Cancelled(CancelReason::ParentCancelled),
                }
            } else {
                match result {
                    Ok(value) => TaskExit::Completed(value),
                    Err(error) => TaskExit::Failed(error),
                }
            }
        },
    }
}

/// What is held for a task that waits: what makes its work, and where it is told
/// how the task ended.
#[verifier::reject_recursive_types(T)]
#[verifier::reject_recursive_types(E)]
pub struct HeldTask<F, T, E> {
    pub factory: F,
    pub completion: oneshot::Sender<TaskExit<T, E>>,
}

/// A task that the executor has to run now.
#[verifier::reject_recursive_types(T)]
#[verifier::reject_recursive_types(E)]
pub struct StartedTask<F, T, E> {
    pub context: TaskContext,
    pub factory: F,
    pub completion: oneshot::Sender<TaskExit<T, E>>,
}

/// Whether whoever waits for a task learned that it never ran, with the reason
/// that its scope gave.
pub open spec fn refused<T, E>(
    completion: oneshot::Sender<TaskExit<T, E>>,
    scope: ScopeReason,
) -> bool {
    exists|recorded: Option<CancelReason>, reason: CancelReason|
        {
            &&& #[trigger] reason_answered(scope, recorded)
            &&& #[trigger] sent(completion, TaskExit::<T, E>::Cancelled(reason))
            &&& Some(reason@) == effective_reason(reason_view(recorded), true)
        }
}

/// Whether `started` is what came of a start: the scope of the task was asked if
/// it is cancelled, and accordingly the task runs or was refused.
pub open spec fn start_result<F, T, E>(
    task: TaskRecord,
    held: HeldTask<F, T, E>,
    started: Option<StartedTask<F, T, E>>,
) -> bool {
    &&& answered(task.request.cancellation, started is None)
    &&& match started {
        Some(started) => started == StartedTask {
            context: TaskContext {
                task_id: task.id,
                key: task.meta.key,
                request: task.request,
            },
            factory: held.factory,
            completion: held.completion,
        },
        None => refused(held.completion, task.request.reason),
    }
}

/// What became of a submitted task.
#[verifier::reject_recursive_types(T)]
#[verifier::reject_recursive_types(E)]
pub struct SubmittedTask<F, T, E> {
    pub task_id: TaskId,
    /// Tells how the task ended.
    pub completion: oneshot::Receiver<TaskExit<T, E>>,
    /// The task itself, when it runs now.
    pub started: Option<StartedTask<F, T, E>>,
}

/// Everything that a task set knows of its tasks.
#[verifier::ext_equal]
pub struct TaskSetView {
    pub running: Map<u64, RunningView>,
    pub by_key: Map<Seq<char>, TaskId>,
    pub pending: Map<Seq<char>, TaskRecord>,
    pub emitted: Seq<TaskSnapshotView>,
}

impl TaskSetView {
    /// The set as a manager that knows of no requests.
    pub open spec fn as_manager(self) -> ManagerView {
        ManagerView {
            running: self.running,
            by_key: self.by_key,
            pending: self.pending,
            by_request: Map::empty(),
            primary_by_request: Map::empty(),
            terminal_cancellation: Map::empty(),
            emitted: self.emitted,
        }
    }

    /// Keys and running tasks correspond one to one, a task waits only for a key
    /// that is taken, and no identity is used twice.
    pub open spec fn valid(self) -> bool {
        self.as_manager().valid()
    }

    /// The set after a change of a task was announced.
    pub open spec fn told(self, task: TaskRecord, state: TaskState) -> Self {
        TaskSetView { emitted: self.emitted.push(task.shown(state)), ..self }
    }

    /// The set after a task was started, given whether its scope is cancelled
    /// already: a cancelled task never runs.
    pub open spec fn started(self, task: TaskRecord, cancelled: bool) -> Self {
        if cancelled {
            self.told(task, TaskState::Cancelled)
        } else {
            TaskSetView {
                by_key: self.by_key.insert(task.meta.key@, task.id),
                running: self.running.insert(
                    task.id@,
                    RunningView { record: task, state: TaskState::Running, reason: None },
                ),
                ..self
            }.told(task, TaskState::Running)
        }
    }

    /// The set after a waiting task was cancelled.
    pub open spec fn pending_finished(self, key: Seq<char>) -> Self {
        TaskSetView { pending: self.pending.remove(key), ..self }.told(
            self.pending[key],
            TaskState::Cancelled,
        )
    }

    /// The set after cancellation of a running task was requested. The first
    /// reason counts.
    pub open spec fn cancelling(self, id: u64, reason: CancelReasonView) -> Self {
        let running = self.running[id];
        TaskSetView {
            running: self.running.insert(
                id,
                RunningView {
                    state: TaskState::Cancelling,
                    reason: Some(
                        match running.reason {
                            Some(earlier) => earlier,
                            None => reason,
                        },
                    ),
                    ..running
                },
            ),
            ..self
        }.told(running.record, TaskState::Cancelling)
    }

    /// The set after a task replaced the one that runs on its key.
    pub open spec fn replaced(self, task: TaskRecord, reason: CancelReasonView) -> Self {
        let key = task.meta.key@;
        let cleared = if self.pending.contains_key(key) {
            self.pending_finished(key)
        } else {
            self
        };
        let cancelled = cleared.cancelling(self.by_key[key]@, reason).told(task, TaskState::Queued);
        TaskSetView { pending: cancelled.pending.insert(key, task), ..cancelled }
    }

    /// The set after a task was submitted.
    pub open spec fn submitted(self, task: TaskRecord, conflict: ConflictPolicy, cancelled: bool) -> Self {
        if self.by_key.contains_key(task.meta.key@) {
            match conflict {
                ConflictPolicy::Reject => self,
                ConflictPolicy::Replace(reason) => self.replaced(task, reason@),
            }
        } else {
            self.started(task, cancelled)
        }
    }

    /// The set after a running task ended. The task that waits for its key is
    /// not started yet.
    pub open spec fn ended(self, id: u64, state: TaskState) -> Self {
        let record = self.running[id].record;
        TaskSetView {
            running: self.running.remove(id),
            by_key: self.by_key.remove(record.meta.key@),
            ..self
        }.told(record, state)
    }

    /// The set after a running task ended and the one that waits for its key was
    /// started.
    pub open spec fn finished(self, id: u64, state: TaskState, cancelled: bool) -> Self {
        let key = self.running[id].record.meta.key@;
        let ended = self.ended(id, state);
        if ended.pending.contains_key(key) {
            TaskSetView { pending: ended.pending.remove(key), ..ended }.started(
                ended.pending[key],
                cancelled,
            )
        } else {
            ended
        }
    }

    /// Whether a task waits for a key.
    pub open spec fn waits_for(self, id: u64, key: Seq<char>) -> bool {
        self.pending.contains_key(key) && self.pending[key].id@ == id
    }

    /// The set after every waiting task was cancelled, in the order of keys.
    pub open spec fn all_pending_finished(self) -> Self {
        TaskSetView {
            pending: Map::empty(),
            emitted: self.emitted + ordered_keys::<TaskKey>(self.pending.dom()).map_values(
                |key: Seq<char>| self.pending[key].shown(TaskState::Cancelled),
            ),
            ..self
        }
    }

    /// The set after cancellation of some running tasks was requested, one after
    /// another.
    pub open spec fn all_cancelling(self, ids: Seq<u64>, reason: CancelReasonView) -> Self
        decreases ids.len(),
    {
        if ids.len() == 0 {
            self
        } else {
            self.all_cancelling(ids.drop_last(), reason).cancelling(ids.last(), reason)
        }
    }

    proof fn lemma_started(self, task: TaskRecord, cancelled: bool)
        requires
            self.valid(),
            !self.by_key.contains_key(task.meta.key@),
            self.as_manager().is_free(task.id@),
        ensures
            self.started(task, cancelled).valid(),
    {
        if !cancelled {
            assert(!self.pending.contains_key(task.meta.key@)) by {
                if self.pending.contains_key(task.meta.key@) {
                    assert(self.as_manager().pending.contains_key(task.meta.key@));
                }
            }
            self.as_manager().lemma_running_now(task);
            assert(self.started(task, cancelled).as_manager() =~= self.as_manager().running_now(
                task,
            ));
        }
    }

    proof fn lemma_pending_finished(self, key: Seq<char>)
        requires
            self.valid(),
            self.pending.contains_key(key),
        ensures
            self.pending_finished(key).valid(),
    {
        let before = self.as_manager();
        let after = self.pending_finished(key).as_manager();
        assert forall|other: Seq<char>| #[trigger] after.pending.contains_key(other) implies {
            &&& after.pending[other].meta.key@ == other
            &&& !after.running.contains_key(after.pending[other].id@)
            &&& after.by_key.contains_key(other)
        } by {
            assert(before.pending.contains_key(other));
        }
        assert forall|a: Seq<char>, b: Seq<char>|
            (#[trigger] after.pending.contains_key(a)) && (#[trigger] after.pending.contains_key(b))
                && a != b implies after.pending[a].id@ != after.pending[b].id@ by {
            assert(before.pending.contains_key(a) && before.pending.contains_key(b));
        }
        assert forall|id: u64| #[trigger] after.running.contains_key(id) implies {
            let record = after.running[id].record;
            &&& record.id@ == id
            &&& after.by_key.contains_key(record.meta.key@)
            &&& after.by_key[record.meta.key@] == record.id
        } by {
            assert(before.running.contains_key(id));
        }
        assert forall|other: Seq<char>| #[trigger] after.by_key.contains_key(other) implies {
            &&& after.running.contains_key(after.by_key[other]@)
            &&& after.running[after.by_key[other]@].record.meta.key@ == other
        } by {
            assert(before.by_key.contains_key(other));
        }
    }

    proof fn lemma_cancelling(self, id: u64, reason: CancelReasonView)
        requires
            self.valid(),
            self.running.contains_key(id),
        ensures
            self.cancelling(id, reason).valid(),
            self.cancelling(id, reason).running.dom() == self.running.dom(),
            self.cancelling(id, reason).pending == self.pending,
            self.cancelling(id, reason).by_key == self.by_key,
    {
        self.as_manager().lemma_cancelling(id, reason);
        assert(self.cancelling(id, reason).as_manager() =~= self.as_manager().cancelling(
            id,
            reason,
        ));
    }

    proof fn lemma_replaced(self, task: TaskRecord, reason: CancelReasonView)
        requires
            self.valid(),
            self.by_key.contains_key(task.meta.key@),
            self.as_manager().is_free(task.id@),
        ensures
            self.replaced(task, reason).valid(),
    {
        let key = task.meta.key@;
        let id = self.by_key[key]@;
        assert(self.as_manager().by_key.contains_key(key));
        assert(self.running.contains_key(id));
        if self.pending.contains_key(key) {
            self.lemma_pending_finished(key);
        }
        let cleared = if self.pending.contains_key(key) {
            self.pending_finished(key)
        } else {
            self
        };
        cleared.lemma_cancelling(id, reason);
        let cancelled = cleared.cancelling(id, reason).as_manager();
        let after = self.replaced(task, reason).as_manager();
        let first = self.as_manager();
        assert(!after.running.contains_key(task.id@)) by {
            assert(!self.running.dom().contains(task.id@));
        }
        assert forall|a: Seq<char>, b: Seq<char>|
            (#[trigger] after.pending.contains_key(a)) && (#[trigger] after.pending.contains_key(b))
                && a != b implies after.pending[a].id@ != after.pending[b].id@ by {
            if a != key {
                assert(cancelled.pending.contains_key(a));
                assert(first.pending.contains_key(a));
            }
            if b != key {
                assert(cancelled.pending.contains_key(b));
                assert(first.pending.contains_key(b));
            }
        }
        assert forall|other: Seq<char>| #[trigger] after.pending.contains_key(other) implies {
            &&& after.pending[other].meta.key@ == other
            &&& !after.running.contains_key(after.pending[other].id@)
            &&& after.by_key.contains_key(other)
        } by {
            if other != key {
                assert(cancelled.pending.contains_key(other));
            }
        }
        assert forall|other: u64| #[trigger] after.running.contains_key(other) implies {
            let record = after.running[other].record;
            &&& record.id@ == other
            &&& after.by_key.contains_key(record.meta.key@)
            &&& after.by_key[record.meta.key@] == record.id
        } by {
            assert(cancelled.running.contains_key(other));
        }
        assert forall|other: Seq<char>| #[trigger] after.by_key.contains_key(other) implies {
            &&& after.running.contains_key(after.by_key[other]@)
            &&& after.running[after.by_key[other]@].record.meta.key@ == other
        } by {
            assert(cancelled.by_key.contains_key(other));
        }
    }

    proof fn lemma_finished(self, id: u64, state: TaskState, cancelled: bool)
        requires
            self.valid(),
            self.running.contains_key(id),
        ensures
            ({
                let key = self.running[id].record.meta.key@;
                let ended = self.ended(id, state);
                let cleared = TaskSetView { pending: ended.pending.remove(key), ..ended };
                &&& cleared.valid()
                &&& !cleared.by_key.contains_key(key)
                &&& ended.pending.contains_key(key) ==> {
                    &&& cleared.as_manager().is_free(ended.pending[key].id@)
                    &&& ended.pending[key].meta.key@ == key
                }
                &&& !ended.pending.contains_key(key) ==> cleared == ended
            }),
            self.finished(id, state, cancelled).valid(),
    {
        let before = self.as_manager();
        let key = self.running[id].record.meta.key@;
        let ended = self.ended(id, state);
        let cleared = TaskSetView { pending: ended.pending.remove(key), ..ended };
        let after = cleared.as_manager();
        assert(before.running.contains_key(id));
        assert(before.by_key.contains_key(key));
        assert forall|other: u64| #[trigger] after.running.contains_key(other) implies {
            let record = after.running[other].record;
            &&& record.id@ == other
            &&& after.by_key.contains_key(record.meta.key@)
            &&& after.by_key[record.meta.key@] == record.id
        } by {
            assert(before.running.contains_key(other));
            if before.running[other].record.meta.key@ == key {
                assert(before.by_key[key]@ == other);
            }
        }
        assert forall|other: Seq<char>| #[trigger] after.by_key.contains_key(other) implies {
            &&& after.running.contains_key(after.by_key[other]@)
            &&& after.running[after.by_key[other]@].record.meta.key@ == other
        } by {
            assert(before.by_key.contains_key(other));
        }
        assert forall|other: Seq<char>| #[trigger] after.pending.contains_key(other) implies {
            &&& after.pending[other].meta.key@ == other
            &&& !after.running.contains_key(after.pending[other].id@)
            &&& after.by_key.contains_key(other)
        } by {
            assert(before.pending.contains_key(other));
        }
        assert forall|a: Seq<char>, b: Seq<char>|
            (#[trigger] after.pending.contains_key(a)) && (#[trigger] after.pending.contains_key(b))
                && a != b implies after.pending[a].id@ != after.pending[b].id@ by {
            assert(before.pending.contains_key(a) && before.pending.contains_key(b));
        }
        if ended.pending.contains_key(key) {
            assert(before.pending.contains_key(key));
            let next = ended.pending[key];
            assert(after.is_free(next.id@)) by {
                assert forall|other: Seq<char>| #[trigger] after.pending.contains_key(
                    other,
                ) implies after.pending[other].id@ != next.id@ by {
                    assert(before.pending.contains_key(other));
                }
            }
            cleared.lemma_started(next, cancelled);
        } else {
            assert(cleared.pending =~= ended.pending);
        }
    }
}

/// The tasks that the root of a service executes: those that run and, per key, at
/// most one that waits. `F` is what makes the work of a task.
#[verifier::reject_recursive_types(T)]
#[verifier::reject_recursive_types(E)]
pub struct TaskSet<K: ServiceKey, F, T, E> {
    service: K,
    running: OrderedMap<TaskId, RunningTask>,
    by_key: OrderedMap<TaskKey, TaskId>,
    pending: OrderedMap<TaskKey, PendingTask<HeldTask<F, T, E>>>,
    emitted: Vec<TaskSnapshot<K>>,
}

impl<K: ServiceKey, F, T, E> View for TaskSet<K, F, T, E> {
    type V = TaskSetView;

    closed spec fn view(&self) -> TaskSetView {
        TaskSetView {
            running: running_views(self.running@),
            by_key: self.by_key@,
            pending: pending_records(self.pending@),
            emitted: self.emitted@.map_values(|task: TaskSnapshot<K>| task@),
        }
    }
}

impl<K: ServiceKey, F, T, E> TaskSet<K, F, T, E> {
    spec fn ordered(&self) -> bool {
        &&& self.running.wf()
        &&& self.by_key.wf()
        &&& self.pending.wf()
        &&& forall|i: int|
            0 <= i < self.emitted@.len() ==> cloned(
                self.service,
                (#[trigger] self.emitted@[i]).service,
            )
    }

    /// The set is valid and its maps are in order.
    pub closed spec fn wf(&self) -> bool {
        self.ordered() && self@.valid()
    }

    /// A well-formed set is valid.
    pub proof fn lemma_valid(&self)
        requires
            self.wf(),
        ensures
            self@.valid(),
    {
    }

    /// What is held for the waiting tasks, by key.
    pub closed spec fn waiting(&self) -> Map<Seq<char>, HeldTask<F, T, E>> {
        pending_held(self.pending@)
    }

    /// Whether a running task was asked to cancel: its scope is cancelled and
    /// knows why.
    pub open spec fn told_to_cancel(&self, id: u64, reason: CancelReason) -> bool {
        let scope = self@.running[id].record.request;
        cancel_requested(scope.cancellation) && reason_recorded(scope.reason, reason)
    }

    /// Whether whoever waits for a waiting task learned that it was cancelled.
    pub open spec fn told_of_cancel(&self, key: Seq<char>, reason: CancelReason) -> bool {
        sent(self.waiting()[key].completion, TaskExit::Cancelled(reason))
    }

    /// Whether room was made for a new task on a taken key: the running task was
    /// asked to cancel, and the one that waited was cancelled.
    pub open spec fn displaced(&self, key: Seq<char>, reason: CancelReason) -> bool {
        &&& self.told_to_cancel(self@.by_key[key]@, reason)
        &&& self@.pending.contains_key(key) ==> exists|given: CancelReason|
            {
                &&& given@ == CancelReasonView::Requested("replaced while queued"@)
                &&& #[trigger] self.told_of_cancel(key, given)
            }
    }

    /// The identity of the service.
    pub closed spec fn name(&self) -> K {
        self.service
    }

    /// Whether a task was taken in by this set, which holds `after` for
    /// the waiting tasks then: on a taken
    /// key it replaces the running task and waits, on a free one it was started.
    pub open spec fn submission(
        &self,
        after: Map<Seq<char>, HeldTask<F, T, E>>,
        task: TaskRecord,
        conflict: ConflictPolicy,
        held: HeldTask<F, T, E>,
        started: Option<StartedTask<F, T, E>>,
    ) -> bool {
        let key = task.meta.key@;
        if self@.by_key.contains_key(key) {
            &&& conflict matches ConflictPolicy::Replace(reason)
            &&& self.displaced(key, reason)
            &&& started is None
            &&& after == self.waiting().insert(key, held)
        } else {
            &&& start_result(task, held, started)
            &&& after == self.waiting()
        }
    }

    /// Whether every waiting task was cancelled and every running one was asked to
    /// cancel.
    pub open spec fn all_told(&self, reason: CancelReason) -> bool {
        &&& forall|key: Seq<char>| #[trigger]
            self@.pending.contains_key(key) ==> self.told_of_cancel(key, reason)
        &&& forall|id: u64| #[trigger]
            self@.running.contains_key(id) ==> self.told_to_cancel(id, reason)
    }

    /// A set without tasks.
    pub fn new(service: K) -> (tasks: Self)
        ensures
            tasks.wf(),
            tasks@ == (TaskSetView {
                running: Map::empty(),
                by_key: Map::empty(),
                pending: Map::empty(),
                emitted: Seq::empty(),
            }),
            tasks.name() == service,
            tasks.waiting() == Map::<Seq<char>, HeldTask<F, T, E>>::empty(),
    {
        let tasks = TaskSet {
            service,
            running: OrderedMap::new(),
            by_key: OrderedMap::new(),
            pending: OrderedMap::new(),
            emitted: Vec::new(),
        };
        proof {
            assert(tasks@.running =~= Map::empty());
            assert(tasks@.pending =~= Map::empty());
            assert(tasks@.emitted =~= Seq::empty());
            assert(tasks.waiting() =~= Map::empty());
        }
        tasks
    }

    fn emit(&mut self, info: &TaskRecord, state: TaskState)
        requires
            old(self).ordered(),
        ensures
            final(self).ordered(),
            final(self)@ == old(self)@.told(*info, state),
            final(self).service == old(self).service,
            final(self).running == old(self).running,
            final(self).by_key == old(self).by_key,
            final(self).pending == old(self).pending,
    {
        let snapshot = info.snapshot(&self.service, state);
        self.emitted.push(snapshot);
        assert(self@.emitted =~= old(self)@.emitted.push(info.shown(state)));
    }

    /// Starts a task, given whether its scope is cancelled already and the reason
    /// that the scope gives. A cancelled task never runs; whoever waits for it
    /// learns why.
    fn start_unless(
        &mut self,
        pending: PendingTask<HeldTask<F, T, E>>,
        cancelled: bool,
        recorded: &Option<CancelReason>,
    ) -> (started: Option<StartedTask<F, T, E>>)
        requires
            old(self).ordered(),
        ensures
            final(self).ordered(),
            final(self)@ == old(self)@.started(pending.record, cancelled),
            final(self).service == old(self).service,
            final(self).pending == old(self).pending,
            match started {
                Some(started) => {
                    &&& !cancelled
                    &&& started == StartedTask {
                        context: TaskContext {
                            task_id: pending.record.id,
                            key: pending.record.meta.key,
                            request: pending.record.request,
                        },
                        factory: pending.held.factory,
                        completion: pending.held.completion,
                    }
                },
                None => cancelled && exists|reason: CancelReason|
                    {
                        &&& #[trigger] sent(
                            pending.held.completion,
                            TaskExit::<T, E>::Cancelled(reason),
                        )
                        &&& Some(reason@) == effective_reason(reason_view(*recorded), true)
                    },
            },
    {
        let ghost before = *self;
        let record = pending.record;
        let held = pending.held;
        if cancelled {
            let reason = match cancellation_reason(recorded, true) {
                Some(reason) => reason,
                None => CancelReason::ParentCancelled,
            };
            self.emit(&record, TaskState::Cancelled);
            let _ = held.completion.send(TaskExit::Cancelled(reason));
            assert(sent(held.completion, TaskExit::<T, E>::Cancelled(reason)));
            return None;
        }
        let context = TaskContext::new(record.id, record.meta.key.clone(), record.request.clone());
        self.by_key.insert(record.meta.key.clone(), record.id);
        let task = RunningTask { record: record.clone(), state: TaskState::Running, reason: None };
        self.running.insert(record.id, task);
        proof {
            assert(self@.running =~= before@.running.insert(record.id@, task@));
        }
        self.emit(&record, TaskState::Running);
        Some(StartedTask { context, factory: held.factory, completion: held.completion })
    }

    /// Starts a task unless its scope is cancelled by now.
    fn start(&mut self, pending: PendingTask<HeldTask<F, T, E>>) -> (started: Option<
        StartedTask<F, T, E>,
    >)
        requires
            old(self).ordered(),
        ensures
            final(self).ordered(),
            final(self)@ == old(self)@.started(pending.record, started is None),
            final(self).service == old(self).service,
            final(self).pending == old(self).pending,
            start_result(pending.record, pending.held, started),
    {
        let cancelled = pending.record.request.cancellation.is_cancelled();
        let recorded = pending.record.request.reason.get();
        self.start_unless(pending, cancelled, &recorded)
    }

    fn finish_pending(&mut self, key: &TaskKey, reason: CancelReason)
        requires
            old(self).ordered(),
            old(self)@.pending.contains_key(key@),
        ensures
            final(self).ordered(),
            final(self)@ == old(self)@.pending_finished(key@),
            final(self).service == old(self).service,
            final(self).waiting() == old(self).waiting().remove(key@),
            old(self).told_of_cancel(key@, reason),
    {
        let ghost before = *self;
        if let Some(pending) = self.pending.remove(key) {
            proof {
                assert(self@.pending =~= before@.pending.remove(key@));
                assert(self.waiting() =~= before.waiting().remove(key@));
            }
            self.emit(&pending.record, TaskState::Cancelled);
            let _ = pending.held.completion.send(TaskExit::Cancelled(reason));
        }
    }

    fn mark_cancelling(&mut self, id: TaskId, reason: CancelReason)
        requires
            old(self).ordered(),
            old(self)@.running.contains_key(id@),
        ensures
            final(self).ordered(),
            final(self)@ == old(self)@.cancelling(id@, reason@),
            final(self).service == old(self).service,
            final(self).pending == old(self).pending,
            old(self).told_to_cancel(id@, reason),
    {
        let ghost before = *self;
        let ghost given = reason@;
        let mut shown: Option<TaskRecord> = None;
        if let Some(task) = self.running.get_mut(&id) {
            task.record.request.reason.record(reason.clone());
            task.record.request.cancellation.cancel();
            task.state = TaskState::Cancelling;
            if task.reason.is_none() {
                task.reason = Some(reason);
            }
            shown = Some(task.record.clone());
        }
        proof {
            assert(self@.running =~= before@.cancelling(id@, given).running);
        }
        if let Some(record) = shown {
            self.emit(&record, TaskState::Cancelling);
        }
    }

    /// Submits a task under the next identity. On a free key it starts, unless
    /// its scope is cancelled; on a taken one it is refused, or it waits in place
    /// of any other until the running one has ended.
    pub fn submit(
        &mut self,
        meta: TaskMeta,
        conflict: ConflictPolicy,
        factory: F,
        request: RequestContext,
        counter: &mut IdCounter,
    ) -> (result: Result<SubmittedTask<F, T, E>, RuntimeError>)
        requires
            old(self).wf(),
            old(self)@.as_manager().is_free(old(counter)@),
        ensures
            final(self).wf(),
            final(counter)@ == number_after(old(counter)@),
            match result {
                Err(error) => {
                    &&& old(self)@.by_key.contains_key(meta.key@)
                    &&& conflict is Reject
                    &&& error == RuntimeError::TaskAlreadyRunning(meta.key)
                    &&& final(self)@ == old(self)@
                    &&& final(self).waiting() == old(self).waiting()
                },
                Ok(submitted) => {
                    let task = TaskRecord { id: submitted.task_id, meta, request };
                    &&& submitted.task_id@ == old(counter)@
                    &&& final(self)@ == old(self)@.submitted(
                        task,
                        conflict,
                        submitted.started is None,
                    )
                    &&& exists|completion: oneshot::Sender<TaskExit<T, E>>| #[trigger]
                        channel_made(completion, submitted.completion) && old(self).submission(
                            final(self).waiting(),
                            task,
                            conflict,
                            HeldTask { factory, completion },
                            submitted.started,
                        )
                },
            },
            final(self).name() == old(self).name(),
    {
        let id = TaskId::next(counter);
        let (completion, ticket) = oneshot::channel();
        let record = TaskRecord { id, meta, request };
        let held = HeldTask { factory, completion };
        let ghost before = self@;
        let ghost first = *self;
        match self.by_key.get(&record.meta.key) {
            Some(running) => {
                let running = *running;
                match conflict {
                    ConflictPolicy::Reject => {
                        Err(RuntimeError::TaskAlreadyRunning(record.meta.key))
                    },
                    ConflictPolicy::Replace(reason) => {
                        proof {
                            before.lemma_replaced(record, reason@);
                            assert(before.as_manager().by_key.contains_key(record.meta.key@));
                        }
                        if self.pending.contains_key(&record.meta.key) {
                            self.finish_pending(
                                &record.meta.key,
                                CancelReason::requested("replaced while queued"),
                            );
                        }
                        let ghost cleared = *self;
                        self.mark_cancelling(running, reason);
                        self.emit(&record, TaskState::Queued);
                        let ghost cancelled = self@;
                        proof {
                            assert(cleared.told_to_cancel(running@, reason));
                            assert(first.told_to_cancel(running@, reason));
                        }
                        self.pending.insert(
                            record.meta.key.clone(),
                            PendingTask { record, held },
                        );
                        proof {
                            assert(self.waiting() =~= cleared.waiting().insert(
                                record.meta.key@,
                                held,
                            ));
                            assert(cleared.waiting().insert(record.meta.key@, held)
                                =~= first.waiting().insert(record.meta.key@, held));
                            assert(self@.pending =~= cancelled.pending.insert(
                                record.meta.key@,
                                record,
                            ));
                        }
                        assert(first.submission(self.waiting(), record, conflict, held, None));
                        let submitted = SubmittedTask {
                            task_id: id,
                            completion: ticket,
                            started: None,
                        };
                        assert(channel_made(completion, submitted.completion));
                        Ok(submitted)
                    },
                }
            },
            None => {
                proof {
                    before.lemma_started(record, true);
                    before.lemma_started(record, false);
                }
                let started = self.start(PendingTask { record, held });
                assert(first.submission(self.waiting(), record, conflict, held, started));
                let submitted = SubmittedTask { task_id: id, completion: ticket, started };
                assert(channel_made(completion, submitted.completion));
                Ok(submitted)
            },
        }
    }

    fn find_pending(&self, task: TaskId) -> (key: Option<TaskKey>)
        requires
            self.ordered(),
        ensures
            match key {
                Some(key) => self@.waits_for(task@, key@),
                None => forall|key: Seq<char>| !self@.waits_for(task@, key),
            },
    {
        let key = find_waiting(&self.pending, task);
        proof {
            assert(forall|key: Seq<char>|
                task_waits_for(self@.pending, task@, key) == #[trigger] self@.waits_for(task@, key));
        }
        key
    }

    /// Requests cancellation of a task. A waiting task never runs. The result
    /// tells whether a running task has to be aborted by force.
    pub fn request_cancel(&mut self, task: TaskId, reason: CancelReason, force: bool) -> (result:
        Result<bool, RuntimeError>)
        requires
            old(self).wf(),
        ensures
            final(self).wf(),
            if old(self)@.running.contains_key(task@) {
                &&& result == Ok::<bool, RuntimeError>(force)
                &&& final(self)@ == old(self)@.cancelling(task@, reason@)
                &&& final(self).waiting() == old(self).waiting()
                &&& old(self).told_to_cancel(task@, reason)
            } else if exists|key: Seq<char>| old(self)@.waits_for(task@, key) {
                &&& result == Ok::<bool, RuntimeError>(false)
                &&& exists|key: Seq<char>| #[trigger]
                    old(self)@.waits_for(task@, key) && {
                        &&& final(self)@ == old(self)@.pending_finished(key)
                        &&& final(self).waiting() == old(self).waiting().remove(key)
                        &&& old(self).told_of_cancel(key, reason)
                    }
            } else {
                &&& result == Err::<bool, _>(RuntimeError::TaskNotFound(task))
                &&& final(self)@ == old(self)@
                &&& final(self).waiting() == old(self).waiting()
            },
            final(self).name() == old(self).name(),
    {
        let ghost before = self@;
        if self.running.contains_key(&task) {
            proof {
                before.lemma_cancelling(task@, reason@);
            }
            self.mark_cancelling(task, reason);
            return Ok(force);
        }
        match self.find_pending(task) {
            Some(key) => {
                proof {
                    before.lemma_pending_finished(key@);
                    assert(before.waits_for(task@, key@));
                }
                self.finish_pending(&key, reason);
                Ok(false)
            },
            None => Err(RuntimeError::TaskNotFound(task)),
        }
    }

    /// Cancels every task: those that wait never run, those that run are asked
    /// to cancel, in the order of identities. The result lists the running
    /// tasks.
    pub fn cancel_all(&mut self, reason: CancelReason) -> (ids: Vec<TaskId>)
        requires
            old(self).wf(),
        ensures
            final(self).wf(),
            ids@.map_values(|id: TaskId| id@) == ordered_keys::<TaskId>(
                old(self)@.running.dom(),
            ),
            final(self)@ == old(self)@.all_pending_finished().all_cancelling(
                ordered_keys::<TaskId>(old(self)@.running.dom()),
                reason@,
            ),
            final(self).name() == old(self).name(),
            final(self).waiting() == Map::<Seq<char>, HeldTask<F, T, E>>::empty(),
            old(self).all_told(reason),
    {
        let ghost before = *self;
        proof {
            before.pending.lemma_listing();
            before.running.lemma_listing();
            assert(before@.pending.dom() =~= before.pending@.dom());
            assert(before@.running.dom() =~= before.running@.dom());
        }
        let ghost waiting = ordered_keys::<TaskKey>(before@.pending.dom()).map_values(
            |key: Seq<char>| before@.pending[key].shown(TaskState::Cancelled),
        );
        let mut pending: OrderedMap<TaskKey, PendingTask<HeldTask<F, T, E>>> = OrderedMap::new();
        std::mem::swap(&mut pending, &mut self.pending);
        let ghost pending_values = pending.values();
        let pending = pending.into_values();
        proof {
            assert forall|i: int| 0 <= i < waiting.len() implies waiting[i]
                == pending_values[i].record.shown(TaskState::Cancelled) by {
                assert(before.pending@.contains_key(before.pending.keys()[i]));
            }
            assert(waiting.take(0) =~= Seq::empty());
            assert(self@.emitted =~= before@.emitted + waiting.take(0));
        }
        for task in iter: pending
            invariant
                iter.seq() == pending_values,
                waiting.len() == pending_values.len(),
                forall|i: int|
                    0 <= i < waiting.len() ==> #[trigger] waiting[i]
                        == pending_values[i].record.shown(TaskState::Cancelled),
                forall|i: int|
                    0 <= i < iter.index() ==> sent(
                        (#[trigger] pending_values[i]).held.completion,
                        TaskExit::<T, E>::Cancelled(reason),
                    ),
                self.ordered(),
                self.service == before.service,
                self.running == before.running,
                self.by_key == before.by_key,
                self.pending@ == Map::<Seq<char>, PendingTask<HeldTask<F, T, E>>>::empty(),
                self@.emitted == before@.emitted + waiting.take(iter.index() as int),
        {
            let ghost place = iter.index() as int;
            assert(task == pending_values[place]);
            self.emit(&task.record, TaskState::Cancelled);
            let _ = task.held.completion.send(TaskExit::Cancelled(reason.clone()));
            proof {
                assert(waiting[place] == task.record.shown(TaskState::Cancelled));
                assert(waiting.take(place + 1) =~= waiting.take(place).push(waiting[place]));
                assert(self@.emitted =~= before@.emitted + waiting.take(place + 1));
            }
        }
        let ghost cleared = self@;
        let ghost order = ordered_keys::<TaskId>(before@.running.dom());
        let ghost start = *self;
        proof {
            assert(waiting.take(waiting.len() as int) =~= waiting);
            assert(self@.pending =~= Map::empty());
            assert(self.waiting() =~= Map::empty());
            assert forall|key: Seq<char>| #[trigger]
                before@.pending.contains_key(key) implies before.told_of_cancel(key, reason) by {
                assert(before.pending@.contains_key(key));
                let i = choose|i: int|
                    0 <= i < before.pending.keys().len() && #[trigger] before.pending.keys()[i]
                        == key;
                assert(before.pending@[before.pending.keys()[i]] == pending_values[i]);
            }
            assert(self@ =~= before@.all_pending_finished());
            before@.lemma_all_pending_finished();
        }
        let mut ids: Vec<TaskId> = Vec::new();
        let mut at: usize = 0;
        let count = self.running.len();
        while at < count
            invariant
                count == self.running.keys().len(),
                at <= count,
                ids@.len() == at,
                forall|i: int| 0 <= i < at ==> (#[trigger] ids@[i])@ == self.running.keys()[i],
            decreases count - at,
        {
            ids.push(*self.running.key_at(at));
            at = at + 1;
        }
        proof {
            assert(ids@.map_values(|id: TaskId| id@) =~= order);
            assert(order.take(0) =~= Seq::empty());
            assert forall|i: int| 0 <= i < order.len() implies cleared.running.contains_key(
                #[trigger] order[i],
            ) by {
                assert(before.running@.contains_key(before.running.keys()[i]));
            }
        }
        let mut next: usize = 0;
        while next < ids.len()
            invariant
                self.wf(),
                next <= ids@.len(),
                order == ids@.map_values(|id: TaskId| id@),
                forall|i: int|
                    0 <= i < order.len() ==> cleared.running.contains_key(#[trigger] order[i]),
                self.service == before.service,
                self.pending == start.pending,
                cleared.running == before@.running,
                forall|i: int|
                    0 <= i < next ==> before.told_to_cancel(#[trigger] order[i], reason),
                forall|id: u64| #[trigger]
                    cleared.running.contains_key(id) ==> self@.running[id].record
                        == cleared.running[id].record,
                self@.running.dom() == cleared.running.dom(),
                self@ == cleared.all_cancelling(order.take(next as int), reason@),
            decreases ids@.len() - next,
        {
            let id = ids[next];
            let ghost earlier = self@;
            proof {
                let longer = order.take(next + 1);
                assert(longer.drop_last() =~= order.take(next as int));
                assert(longer.last() == id@);
                assert(order[next as int] == id@);
                assert(cleared.running.dom().contains(id@));
                assert(self@.running.contains_key(id@));
                earlier.lemma_cancelling(id@, reason@);
            }
            self.mark_cancelling(id, reason.clone());
            next = next + 1;
        }
        proof {
            assert(order.take(next as int) =~= order);
            assert forall|id: u64| #[trigger]
                before@.running.contains_key(id) implies before.told_to_cancel(id, reason) by {
                assert(before.running@.contains_key(id));
                let i = choose|i: int|
                    0 <= i < before.running.keys().len() && #[trigger] before.running.keys()[i]
                        == id;
                assert(order[i] == id);
            }
        }
        ids
    }

    /// Ends a running task and starts the one that waits for its key.
    pub fn finish(
        &mut self,
        id: TaskId,
        exit: TaskExit<T, E>,
        completion: oneshot::Sender<TaskExit<T, E>>,
    ) -> (started: Option<StartedTask<F, T, E>>)
        requires
            old(self).wf(),
            old(self)@.running.contains_key(id@),
        ensures
            final(self).wf(),
            final(self)@ == old(self)@.finished(id@, exit_state(exit), started is None),
            ({
                let end = final(self)@.emitted[old(self)@.emitted.len() as int];
                &&& end.task_id == old(self)@.running[id@].record.id
                &&& end.state is Completed <==> exit is Completed
                &&& end.state is Failed <==> exit is Failed
                &&& end.state is Cancelled <==> exit is Cancelled
                &&& end.state is Aborted <==> exit is Aborted
            }),
            final(self).name() == old(self).name(),
            sent(completion, exit),
            ({
                let key = old(self)@.running[id@].record.meta.key@;
                &&& final(self).waiting() == old(self).waiting().remove(key)
                &&& if old(self)@.pending.contains_key(key) {
                    start_result(old(self)@.pending[key], old(self).waiting()[key], started)
                } else {
                    started is None
                }
            }),
    {
        let ghost before = *self;
        let ghost state = exit_state(exit);
        let named = match &exit {
            TaskExit::Completed(_) => TaskState::Completed,
            TaskExit::Failed(_) => TaskState::Failed,
            TaskExit::Cancelled(_) => TaskState::Cancelled,
            TaskExit::Aborted => TaskState::Aborted,
        };
        proof {
            before@.lemma_finished(id@, state, true);
            before@.lemma_finished(id@, state, false);
        }
        let task = match self.running.remove(&id) {
            Some(task) => task,
            None => {
                return None;
            },
        };
        let record = task.record;
        proof {
            assert(before@.running[id@].record == record);
            assert(self@.running =~= before@.running.remove(id@));
        }
        let _ = self.by_key.remove(&record.meta.key);
        self.emit(&record, named);
        let _ = completion.send(exit);
        let ghost ended = *self;
        match self.pending.remove(&record.meta.key) {
            Some(next) => {
                proof {
                    assert(self@.pending =~= ended@.pending.remove(record.meta.key@));
                    assert(self.waiting() =~= before.waiting().remove(record.meta.key@));
                }
                self.start(next)
            },
            None => {
                proof {
                    assert(self.pending@ =~= ended.pending@);
                    assert(self.waiting() =~= before.waiting().remove(record.meta.key@));
                }
                None
            },
        }
    }

    /// Every task as others see it, in the order of identities.
    pub fn snapshots(&self) -> (snapshots: Vec<TaskSnapshot<K>>)
        requires
            self.wf(),
        ensures
            snapshots@.map_values(|task: TaskSnapshot<K>| task@) == ordered_keys::<TaskId>(
                self@.as_manager().all_shown().dom(),
            ).map_values(|id: u64| self@.as_manager().all_shown()[id]),
            forall|i: int|
                0 <= i < snapshots@.len() ==> cloned(
                    self.name(),
                    (#[trigger] snapshots@[i]).service,
                ),
    {
        proof {
            assert(self@.as_manager().exclusive());
            assert(identities_differ(self@.running, self@.pending));
        }
        list_tasks(&self.service, &self.running, &self.pending)
    }

    /// The number of tasks that run or wait.
    pub fn len(&self) -> (count: usize)
        requires
            self.wf(),
        ensures
            ({
                let tasks = self@.running.dom().len() + self@.pending.dom().len();
                count == if tasks > usize::MAX {
                    usize::MAX as nat
                } else {
                    tasks
                }
            }),
    {
        proof {
            self.lemma_counts();
        }
        self.running.len().saturating_add(self.pending.len())
    }

    proof fn lemma_counts(&self)
        requires
            self.ordered(),
        ensures
            self@.running.dom() == self.running@.dom(),
            self@.pending.dom() == self.pending@.dom(),
            self.running.keys().len() == self@.running.dom().len(),
            self.pending.keys().len() == self@.pending.dom().len(),
    {
        self.running.lemma_listing();
        self.pending.lemma_listing();
        assert(self@.running.dom() =~= self.running@.dom());
        assert(self@.pending.dom() =~= self.pending@.dom());
    }

    /// Whether no task runs or waits.
    pub fn is_empty(&self) -> (result: bool)
        requires
            self.wf(),
        ensures
            result == (self@.running.dom().len() == 0 && self@.pending.dom().len() == 0),
    {
        proof {
            self.lemma_counts();
        }
        self.running.len() == 0 && self.pending.len() == 0
    }

    /// Whether a task runs.
    pub fn has_running(&self) -> (result: bool)
        requires
            self.wf(),
        ensures
            result == (self@.running.dom().len() > 0),
    {
        proof {
            self.lemma_counts();
        }
        self.running.len() > 0
    }

    /// Why a running task was cancelled: the reason that its scope gives, or else
    /// the one that was recorded for the task.
    pub fn recorded_reason(&self, id: TaskId) -> (reason: Option<CancelReason>)
        requires
            self.wf(),
        ensures
            if self@.running.contains_key(id@) {
                let task = self@.running[id@];
                exists|shared: Option<CancelReason>| #[trigger]
                    reason_answered(task.record.request.reason, shared) && reason_view(reason)
                        == match reason_view(shared) {
                        Some(given) => Some(given),
                        None => task.reason,
                    }
            } else {
                reason is None
            },
    {
        match self.running.get(&id) {
            Some(task) => match task.record.request.reason.get() {
                Some(reason) => Some(reason),
                None => task.reason.clone(),
            },
            None => None,
        }
    }

    /// Whether a task runs under this identity.
    pub fn is_running(&self, id: TaskId) -> (result: bool)
        requires
            self.wf(),
        ensures
            result == self@.running.contains_key(id@),
    {
        self.running.contains_key(&id)
    }

    /// Whether no task has the identity that is drawn next.
    pub fn is_free_for(&self, counter: &IdCounter) -> (result: bool)
        requires
            self.wf(),
        ensures
            result == self@.as_manager().is_free(counter@),
    {
        let task = counter.peek();
        let running = self.running.contains_key(&task);
        let pending = self.find_pending(task);
        proof {
            let manager = self@.as_manager();
            if pending is None {
                assert forall|key: Seq<char>| #[trigger]
                    manager.pending.contains_key(key) implies manager.pending[key].id@
                    != counter@ by {
                    assert(!self@.waits_for(task@, key));
                }
            } else {
                let key = pending->0@;
                assert(self@.waits_for(task@, key));
                assert(manager.pending.contains_key(key));
            }
        }
        !running && pending.is_none()
    }

    /// Hands out the changes of tasks since the last call, oldest first.
    pub fn take_events(&mut self) -> (events: Vec<TaskSnapshot<K>>)
        requires
            old(self).wf(),
        ensures
            final(self).wf(),
            events@.map_values(|task: TaskSnapshot<K>| task@) == old(self)@.emitted,
            forall|i: int|
                0 <= i < events@.len() ==> cloned(
                    old(self).name(),
                    (#[trigger] events@[i]).service,
                ),
            final(self)@ == (TaskSetView { emitted: Seq::empty(), ..old(self)@ }),
            final(self).name() == old(self).name(),
            final(self).waiting() == old(self).waiting(),
    {
        let mut events: Vec<TaskSnapshot<K>> = Vec::new();
        events.append(&mut self.emitted);
        proof {
            assert(events@ =~= old(self).emitted@);
            assert(self@.emitted =~= Seq::empty());
        }
        events
    }
}

impl TaskSetView {
    proof fn lemma_all_pending_finished(self)
        requires
            self.valid(),
        ensures
            self.all_pending_finished().valid(),
    {
        let before = self.as_manager();
        let after = self.all_pending_finished().as_manager();
        assert forall|id: u64| #[trigger] after.running.contains_key(id) implies {
            let record = after.running[id].record;
            &&& record.id@ == id
            &&& after.by_key.contains_key(record.meta.key@)
            &&& after.by_key[record.meta.key@] == record.id
        } by {
            assert(before.running.contains_key(id));
        }
        assert forall|other: Seq<char>| #[trigger] after.by_key.contains_key(other) implies {
            &&& after.running.contains_key(after.by_key[other]@)
            &&& after.running[after.by_key[other]@].record.meta.key@ == other
        } by {
            assert(before.by_key.contains_key(other));
        }
    }
}

/// Of the tasks with one key at most one runs, and a task that ends leaves its
/// key to the one that waits for it.
pub proof fn law_key_passes_to_the_waiting_task(tasks: TaskSetView, id: u64, state: TaskState)
    requires
        tasks.valid(),
        tasks.running.contains_key(id),
    ensures
        ({
            let key = tasks.running[id].record.meta.key@;
            let after = tasks.finished(id, state, false);
            &&& after.valid()
            &&& if tasks.pending.contains_key(key) {
                &&& after.by_key.contains_key(key)
                &&& after.by_key[key] == tasks.pending[key].id
                &&& !after.pending.contains_key(key)
            } else {
                !after.by_key.contains_key(key)
            }
        }),
{
    tasks.lemma_finished(id, state, false);
}

/// Whether the tasks under all other identities and keys are the same in two
/// sets.
pub open spec fn same_other_work(
    before: TaskSetView,
    after: TaskSetView,
    id: u64,
    key: Seq<char>,
) -> bool {
    &&& forall|other: u64| other != id ==> {
        &&& #[trigger] after.running.contains_key(other) <==> before.running.contains_key(other)
        &&& before.running.contains_key(other) ==> after.running[other] == before.running[other]
    }
    &&& forall|other: Seq<char>| other != key ==> {
        &&& #[trigger] after.pending.contains_key(other) <==> before.pending.contains_key(other)
        &&& before.pending.contains_key(other) ==> after.pending[other] == before.pending[other]
        &&& after.by_key.contains_key(other) <==> before.by_key.contains_key(other)
        &&& before.by_key.contains_key(other) ==> after.by_key[other] == before.by_key[other]
    }
}

/// The end of a task is announced as what it was: completed exactly when the task
/// completed, failed exactly when it failed, cancelled exactly when it was
/// cancelled and aborted exactly when it was aborted. It is announced before
/// anything of the task that takes its key over, and the task runs no longer.
pub proof fn law_end_is_announced_as_it_was<T, E>(
    tasks: TaskSetView,
    id: u64,
    exit: TaskExit<T, E>,
    cancelled: bool,
)
    requires
        tasks.valid(),
        tasks.running.contains_key(id),
    ensures
        ({
            let record = tasks.running[id].record;
            let key = record.meta.key@;
            let after = tasks.finished(id, exit_state(exit), cancelled);
            let end = after.emitted[tasks.emitted.len() as int];
            &&& end.state is Completed <==> exit is Completed
            &&& end.state is Failed <==> exit is Failed
            &&& end.state is Cancelled <==> exit is Cancelled
            &&& end.state is Aborted <==> exit is Aborted
            &&& shows_task(end, record, end.state)
            &&& !after.running.contains_key(id)
            &&& !tasks.pending.contains_key(key) ==> {
                &&& announced(tasks.emitted, after.emitted, seq![(record, end.state)])
                &&& !after.by_key.contains_key(key)
                &&& same_other_work(tasks, after, id, key)
            }
            &&& tasks.pending.contains_key(key) ==> {
                let next = tasks.pending[key];
                &&& !after.pending.contains_key(key)
                &&& cancelled ==> {
                    &&& announced(
                        tasks.emitted,
                        after.emitted,
                        seq![(record, end.state), (next, TaskState::Cancelled)],
                    )
                    &&& !after.by_key.contains_key(key)
                    &&& same_other_work(tasks, after, id, key)
                }
                &&& !cancelled ==> {
                    &&& announced(
                        tasks.emitted,
                        after.emitted,
                        seq![(record, end.state), (next, TaskState::Running)],
                    )
                    &&& after.by_key.contains_key(key)
                    &&& after.by_key[key] == next.id
                    &&& after.running.contains_key(next.id@)
                    &&& after.running[next.id@].record == next
                    &&& after.running[next.id@].state is Running
                    &&& after.running[next.id@].reason is None
                    &&& forall|other: u64| other != id && other != next.id@ ==> {
                        &&& #[trigger] after.running.contains_key(other)
                            <==> tasks.running.contains_key(other)
                        &&& tasks.running.contains_key(other) ==> after.running[other]
                            == tasks.running[other]
                    }
                }
            }
        }),
{
    tasks.lemma_finished(id, exit_state(exit), cancelled);
    let key = tasks.running[id].record.meta.key@;
    assert(tasks.as_manager().running.contains_key(id));
    if tasks.pending.contains_key(key) {
        assert(tasks.as_manager().pending.contains_key(key));
    }
}

/// A task on a free key runs from then on and is announced as running, unless
/// its scope is cancelled: such a task never runs, leaves its key free and is
/// announced as cancelled.
pub proof fn law_cancelled_task_never_runs(tasks: TaskSetView, task: TaskRecord, cancelled: bool)
    ensures
        ({
            let after = tasks.started(task, cancelled);
            &&& cancelled ==> {
                &&& announced(tasks.emitted, after.emitted, seq![(task, TaskState::Cancelled)])
                &&& after.running == tasks.running
                &&& after.by_key == tasks.by_key
                &&& after.pending == tasks.pending
            }
            &&& !cancelled ==> {
                &&& announced(tasks.emitted, after.emitted, seq![(task, TaskState::Running)])
                &&& after.by_key.contains_key(task.meta.key@)
                &&& after.by_key[task.meta.key@] == task.id
                &&& after.running.contains_key(task.id@)
                &&& after.running[task.id@].record == task
                &&& after.running[task.id@].state is Running
                &&& after.running[task.id@].reason is None
                &&& after.pending == tasks.pending
                &&& same_other_work(tasks, after, task.id@, task.meta.key@)
            }
        }),
{
}

/// A running task that is asked to cancel keeps running and its key; it is
/// announced and seen as cancelling, and the first reason that was given counts.
/// A waiting task that is cancelled waits no longer and is announced as
/// cancelled.
pub proof fn law_first_reason_counts(
    tasks: TaskSetView,
    id: u64,
    key: Seq<char>,
    reason: CancelReasonView,
)
    ensures
        tasks.running.contains_key(id) ==> ({
            let running = tasks.running[id];
            let after = tasks.cancelling(id, reason);
            &&& announced(
                tasks.emitted,
                after.emitted,
                seq![(running.record, TaskState::Cancelling)],
            )
            &&& after.running.contains_key(id)
            &&& after.running[id].record == running.record
            &&& after.running[id].state is Cancelling
            &&& running.reason is Some ==> after.running[id].reason == running.reason
            &&& running.reason is None ==> after.running[id].reason == Some(reason)
            &&& after.by_key == tasks.by_key
            &&& after.pending == tasks.pending
            &&& same_other_work(tasks, after, id, key)
        }),
        tasks.pending.contains_key(key) ==> ({
            let after = tasks.pending_finished(key);
            &&& announced(
                tasks.emitted,
                after.emitted,
                seq![(tasks.pending[key], TaskState::Cancelled)],
            )
            &&& !after.pending.contains_key(key)
            &&& after.running == tasks.running
            &&& after.by_key == tasks.by_key
            &&& same_other_work(tasks, after, id, key)
        }),
{
}

/// On a taken key a new task is refused without a trace, or it replaces: the
/// running task is asked to cancel and stays, a task that waited is cancelled,
/// and the new one waits in its place. On a free key it is started.
pub proof fn law_taken_key_is_refused_or_waited_for(
    tasks: TaskSetView,
    task: TaskRecord,
    conflict: ConflictPolicy,
    cancelled: bool,
)
    requires
        tasks.valid(),
        tasks.as_manager().is_free(task.id@),
    ensures
        ({
            let key = task.meta.key@;
            let after = tasks.submitted(task, conflict, cancelled);
            &&& !tasks.by_key.contains_key(key) ==> after == tasks.started(task, cancelled)
            &&& tasks.by_key.contains_key(key) && conflict is Reject ==> after == tasks
            &&& tasks.by_key.contains_key(key) ==> (conflict matches ConflictPolicy::Replace(reason)
                ==> {
                let id = tasks.by_key[key]@;
                let running = tasks.running[id];
                &&& after.by_key == tasks.by_key
                &&& after.pending.contains_key(key)
                &&& after.pending[key] == task
                &&& after.running.contains_key(id)
                &&& after.running[id].record == running.record
                &&& after.running[id].state is Cancelling
                &&& running.reason is Some ==> after.running[id].reason == running.reason
                &&& running.reason is None ==> after.running[id].reason == Some(reason@)
                &&& same_other_work(tasks, after, id, key)
                &&& tasks.pending.contains_key(key) ==> announced(
                    tasks.emitted,
                    after.emitted,
                    seq![
                        (tasks.pending[key], TaskState::Cancelled),
                        (running.record, TaskState::Cancelling),
                        (task, TaskState::Queued),
                    ],
                )
                &&& !tasks.pending.contains_key(key) ==> announced(
                    tasks.emitted,
                    after.emitted,
                    seq![(running.record, TaskState::Cancelling), (task, TaskState::Queued)],
                )
            })
        }),
{
    assert(tasks.as_manager().by_key == tasks.by_key);
}

/// When everything is cancelled no task waits any more, every task that runs is
/// cancelling, and none has ended.
pub proof fn law_everything_is_cancelled(
    tasks: TaskSetView,
    ids: Seq<u64>,
    reason: CancelReasonView,
    id: u64,
)
    requires
        tasks.running.contains_key(id),
    ensures
        tasks.all_pending_finished().pending.dom() == Set::<Seq<char>>::empty(),
        tasks.all_pending_finished().running == tasks.running,
        tasks.all_pending_finished().by_key == tasks.by_key,
        ({
            let after = tasks.all_cancelling(ids, reason);
            &&& after.pending == tasks.pending
            &&& after.by_key == tasks.by_key
            &&& after.running.contains_key(id)
            &&& after.running[id].record == tasks.running[id].record
            &&& ids.contains(id) ==> after.running[id].state is Cancelling
            &&& ids.contains(id) && tasks.running[id].reason is None ==> after.running[id].reason
                == Some(reason)
            &&& tasks.running[id].reason is Some ==> after.running[id].reason
                == tasks.running[id].reason
            &&& !ids.contains(id) ==> after.running[id] == tasks.running[id]
        }),
    decreases ids.len(),
{
    assert(tasks.all_pending_finished().pending.dom() =~= Set::<Seq<char>>::empty());
    if ids.len() > 0 {
        let shorter = ids.drop_last();
        law_everything_is_cancelled(tasks, shorter, reason, id);
        if shorter.contains(id) {
            let k = choose|k: int| 0 <= k < shorter.len() && shorter[k] == id;
            assert(ids[k] == id);
        }
        if ids.contains(id) && !shorter.contains(id) {
            let k = choose|k: int| 0 <= k < ids.len() && ids[k] == id;
            if k < shorter.len() {
                assert(shorter[k] == id);
            }
        }
        assert(ids[ids.len() - 1] == ids.last());
    }
}

/// When everything is cancelled each task that waited is announced as cancelled,
/// once, in the order of keys.
pub proof fn law_every_waiting_task_is_announced(tasks: TaskSetView, key: Seq<char>)
    requires
        tasks.pending.dom().finite(),
        tasks.pending.contains_key(key),
    ensures
        ({
            let after = tasks.all_pending_finished();
            &&& after.emitted.len() == tasks.emitted.len() + tasks.pending.dom().len()
            &&& forall|i: int|
                0 <= i < tasks.emitted.len() ==> #[trigger] after.emitted[i] == tasks.emitted[i]
            &&& forall|i: int|
                tasks.emitted.len() <= i < after.emitted.len() ==> shows_task(
                    #[trigger] after.emitted[i],
                    tasks.pending[ordered_keys::<TaskKey>(tasks.pending.dom())[i
                        - tasks.emitted.len()]],
                    TaskState::Cancelled,
                )
            &&& exists|i: int|
                tasks.emitted.len() <= i < after.emitted.len() && shows_task(
                    #[trigger] after.emitted[i],
                    tasks.pending[key],
                    TaskState::Cancelled,
                )
        }),
{
    let order = ordered_keys::<TaskKey>(tasks.pending.dom());
    let after = tasks.all_pending_finished();
    crate::ordered_map::lemma_every_key_is_listed::<TaskKey>(tasks.pending.dom());
    crate::ordered_map::lemma_order_length::<TaskKey>(tasks.pending.dom());
    assert(tasks.pending.dom().contains(key));
    let k = choose|k: int| 0 <= k < order.len() && order[k] == key;
    let i = tasks.emitted.len() + k;
    assert(after.emitted[i] == tasks.pending[order[k]].shown(TaskState::Cancelled));
    assert(shows_task(after.emitted[i], tasks.pending[key], TaskState::Cancelled));
}

/// A task ends as its work did, unless its scope is cancelled: it ends as
/// cancelled then, whatever its work returned, with the recorded reason or that of
/// the parent. Work without a result was aborted, cancelled or not.
pub proof fn law_cancelled_scope_decides_the_end<T, E>(
    result: Option<Result<T, E>>,
    cancelled: bool,
    recorded: &Option<CancelReason>,
    exit: TaskExit<T, E>,
)
    requires
        call_ensures(exit_of::<T, E>, (result, cancelled, recorded), exit),
    ensures
        exit is Aborted <==> result is None,
        exit is Cancelled <==> result is Some && cancelled,
        exit is Completed <==> !cancelled && (result matches Some(Ok(_))),
        exit is Failed <==> !cancelled && (result matches Some(Err(_))),
        exit matches TaskExit::Completed(value) ==> result == Some(Ok::<T, E>(value)),
        exit matches TaskExit::Failed(error) ==> result == Some(Err::<T, E>(error)),
        exit matches TaskExit::Cancelled(reason) ==> match *recorded {
            Some(given) => reason@ == given@,
            None => reason@ == CancelReasonView::ParentCancelled,
        },
{
}

/// The end of a task is told as it was, to whoever waits for the task and to
/// everyone else.
pub proof fn law_end_is_told_to_everyone<K: ServiceKey, F, T, E>(
    tasks: &mut TaskSet<K, F, T, E>,
    id: TaskId,
    exit: TaskExit<T, E>,
    completion: oneshot::Sender<TaskExit<T, E>>,
    started: Option<StartedTask<F, T, E>>,
)
    requires
        old(tasks)@.valid(),
        old(tasks)@.running.contains_key(id@),
        call_ensures(TaskSet::<K, F, T, E>::finish, (tasks, id, exit, completion), started),
    ensures
        sent(completion, exit),
        ({
            let end = final(tasks)@.emitted[old(tasks)@.emitted.len() as int];
            &&& shows_task(end, old(tasks)@.running[id@].record, end.state)
            &&& end.state is Completed <==> exit is Completed
            &&& end.state is Failed <==> exit is Failed
            &&& end.state is Cancelled <==> exit is Cancelled
            &&& end.state is Aborted <==> exit is Aborted
        }),
        !final(tasks)@.running.contains_key(id@),
        started is Some ==> old(tasks)@.pending.contains_key(
            old(tasks)@.running[id@].record.meta.key@,
        ),
{
    law_end_is_announced_as_it_was(old(tasks)@, id@, exit, started is None);
}

/// Only a known task is cancelled, and only a running one can have to be aborted
/// by force.
pub proof fn law_only_known_tasks_are_cancelled<K: ServiceKey, F, T, E>(
    tasks: &mut TaskSet<K, F, T, E>,
    task: TaskId,
    reason: CancelReason,
    force: bool,
    result: Result<bool, RuntimeError>,
)
    requires
        call_ensures(TaskSet::<K, F, T, E>::request_cancel, (tasks, task, reason, force), result),
    ensures
        result is Ok <==> old(tasks)@.running.contains_key(task@) || exists|key: Seq<char>|
            old(tasks)@.pending.contains_key(key) && #[trigger] old(tasks)@.pending[key].id@ == task@,
        result == Ok::<bool, RuntimeError>(true) ==> force && old(tasks)@.running.contains_key(
            task@,
        ),
        old(tasks)@.running.contains_key(task@) ==> result == Ok::<bool, RuntimeError>(force)
            && final(tasks)@.running[task@].state is Cancelling,
        result matches Err(error) ==> error == RuntimeError::TaskNotFound(task) && final(tasks)@
            == old(tasks)@,
{
    if exists|key: Seq<char>|
        old(tasks)@.pending.contains_key(key) && #[trigger] old(tasks)@.pending[key].id@ == task@ {
        let key = choose|key: Seq<char>|
            old(tasks)@.pending.contains_key(key) && #[trigger] old(tasks)@.pending[key].id@
                == task@;
        assert(old(tasks)@.waits_for(task@, key));
    }
    if exists|key: Seq<char>| old(tasks)@.waits_for(task@, key) {
        let key = choose|key: Seq<char>| old(tasks)@.waits_for(task@, key);
        assert(old(tasks)@.pending[key].id@ == task@);
    }
}

/// A task that is started got the factory and the channel that were held for it,
/// and its scope was not cancelled when it was asked. One that is not started was
/// cancelled then, and whoever waits for it learned the reason.
pub proof fn law_start_asks_the_scope<F, T, E>(
    task: TaskRecord,
    held: HeldTask<F, T, E>,
    started: Option<StartedTask<F, T, E>>,
)
    requires
        start_result(task, held, started),
    ensures
        started is Some ==> answered(task.request.cancellation, false),
        started is None ==> answered(task.request.cancellation, true),
        started matches Some(run) ==> {
            &&& run.context.task_id == task.id
            &&& run.context.key == task.meta.key
            &&& run.context.request == task.request
            &&& run.factory == held.factory
            &&& run.completion == held.completion
        },
        started is None ==> exists|reason: CancelReason| #[trigger]
            sent(held.completion, TaskExit::<T, E>::Cancelled(reason)),
{
}

/// On a taken key the running task is told to cancel, by its token and with the
/// reason, a task that waited learns that it was replaced, and the new one is held
/// in its place. On a free key nothing is held.
pub proof fn law_replaced_tasks_are_told<K: ServiceKey, F, T, E>(
    tasks: TaskSet<K, F, T, E>,
    after: Map<Seq<char>, HeldTask<F, T, E>>,
    task: TaskRecord,
    conflict: ConflictPolicy,
    held: HeldTask<F, T, E>,
    started: Option<StartedTask<F, T, E>>,
)
    requires
        tasks.submission(after, task, conflict, held, started),
    ensures
        ({
            let key = task.meta.key@;
            let scope = tasks@.running[tasks@.by_key[key]@].record.request;
            &&& tasks@.by_key.contains_key(key) ==> {
                &&& conflict matches ConflictPolicy::Replace(reason)
                &&& started is None
                &&& cancel_requested(scope.cancellation)
                &&& reason_recorded(scope.reason, reason)
                &&& after == tasks.waiting().insert(key, held)
                &&& tasks@.pending.contains_key(key) ==> exists|given: CancelReason|
                    {
                        &&& #[trigger] sent(
                            tasks.waiting()[key].completion,
                            TaskExit::<T, E>::Cancelled(given),
                        )
                        &&& given@ == CancelReasonView::Requested("replaced while queued"@)
                    }
            }
            &&& !tasks@.by_key.contains_key(key) ==> {
                &&& after == tasks.waiting()
                &&& start_result(task, held, started)
            }
        }),
{
    let key = task.meta.key@;
    if tasks@.by_key.contains_key(key) && tasks@.pending.contains_key(key) {
        let given = choose|given: CancelReason|
            {
                &&& given@ == CancelReasonView::Requested("replaced while queued"@)
                &&& #[trigger] tasks.told_of_cancel(key, given)
            };
        assert(sent(tasks.waiting()[key].completion, TaskExit::<T, E>::Cancelled(given)));
    }
}

/// When everything is cancelled, whoever waits for a waiting task learns that it
/// was cancelled, and every running task is told to cancel, with the same reason.
pub proof fn law_everyone_is_told_of_the_cancellation<K: ServiceKey, F, T, E>(
    tasks: &mut TaskSet<K, F, T, E>,
    reason: CancelReason,
    ids: Vec<TaskId>,
    id: u64,
    key: Seq<char>,
)
    requires
        old(tasks)@.running.dom().finite(),
        call_ensures(TaskSet::<K, F, T, E>::cancel_all, (tasks, reason), ids),
    ensures
        old(tasks)@.pending.contains_key(key) ==> sent(
            old(tasks).waiting()[key].completion,
            TaskExit::<T, E>::Cancelled(reason),
        ),
        old(tasks)@.running.contains_key(id) ==> {
            let scope = old(tasks)@.running[id].record.request;
            &&& cancel_requested(scope.cancellation)
            &&& reason_recorded(scope.reason, reason)
            &&& final(tasks)@.running.contains_key(id)
            &&& final(tasks)@.running[id].state is Cancelling
            &&& ids@.map_values(|id: TaskId| id@).contains(id)
        },
        final(tasks)@.pending.dom() == Set::<Seq<char>>::empty(),
        ids@.len() == old(tasks)@.running.dom().len(),
{
    let order = ordered_keys::<TaskId>(old(tasks)@.running.dom());
    let cleared = old(tasks)@.all_pending_finished();
    crate::ordered_map::lemma_every_key_is_listed::<TaskId>(old(tasks)@.running.dom());
    crate::ordered_map::lemma_order_length::<TaskId>(old(tasks)@.running.dom());
    assert(ids@.map_values(|id: TaskId| id@).len() == ids@.len());
    if old(tasks)@.pending.contains_key(key) {
        assert(old(tasks).told_of_cancel(key, reason));
    }
    if old(tasks)@.running.contains_key(id) {
        assert(old(tasks).told_to_cancel(id, reason));
        assert(old(tasks)@.running.dom().contains(id));
        let i = choose|i: int| 0 <= i < order.len() && order[i] == id;
        assert(order.contains(id));
        law_everything_is_cancelled(cleared, order, reason@, id);
    }
    assert(cleared.pending.dom() =~= Set::<Seq<char>>::empty());
    lemma_cancelling_keeps_pending(cleared, order, reason@);
}

proof fn lemma_cancelling_keeps_pending(
    tasks: TaskSetView,
    ids: Seq<u64>,
    reason: CancelReasonView,
)
    ensures
        tasks.all_cancelling(ids, reason).pending == tasks.pending,
    decreases ids.len(),
{
    if ids.len() > 0 {
        lemma_cancelling_keeps_pending(tasks, ids.drop_last(), reason);
    }
}

/// A set counts the tasks that run and those that wait.
pub proof fn law_set_counts_all_its_tasks<K: ServiceKey, F, T, E>(
    tasks: TaskSet<K, F, T, E>,
    count: usize,
    empty: bool,
    runs: bool,
)
    requires
        call_ensures(TaskSet::<K, F, T, E>::len, (&tasks,), count),
        call_ensures(TaskSet::<K, F, T, E>::is_empty, (&tasks,), empty),
        call_ensures(TaskSet::<K, F, T, E>::has_running, (&tasks,), runs),
    ensures
        tasks@.running.dom().len() + tasks@.pending.dom().len() <= usize::MAX ==> count
            == tasks@.running.dom().len() + tasks@.pending.dom().len(),
        empty <==> count == 0,
        runs <==> tasks@.running.dom().len() > 0,
{
}

/// The reason of a running task is the one that its scope gives, and only where
/// that gives none the one that was recorded for the task. A task that does not
/// run has none.
pub proof fn law_reason_of_the_scope_comes_first<K: ServiceKey, F, T, E>(
    tasks: TaskSet<K, F, T, E>,
    id: TaskId,
    reason: Option<CancelReason>,
)
    requires
        call_ensures(TaskSet::<K, F, T, E>::recorded_reason, (&tasks, id), reason),
    ensures
        !tasks@.running.contains_key(id@) ==> reason is None,
        tasks@.running.contains_key(id@) ==> exists|shared: Option<CancelReason>|
            {
                &&& #[trigger] reason_answered(tasks@.running[id@].record.request.reason, shared)
                &&& shared matches Some(given) ==> (reason matches Some(told) && told@ == given@)
                &&& shared is None ==> reason_view(reason) == tasks@.running[id@].reason
            },
{
    if tasks@.running.contains_key(id@) {
        let task = tasks@.running[id@];
        let shared = choose|shared: Option<CancelReason>| #[trigger]
            reason_answered(task.record.request.reason, shared) && reason_view(reason)
                == match reason_view(shared) {
                Some(given) => Some(given),
                None => task.reason,
            };
        assert(reason_answered(task.record.request.reason, shared));
    }
}

/// A task that is submitted gets the next identity. It is refused exactly when its
/// key is taken and it does not replace, and then nothing changes.
pub proof fn law_submission_is_refused_on_a_taken_key<K: ServiceKey, F, T, E>(
    tasks: &mut TaskSet<K, F, T, E>,
    meta: TaskMeta,
    conflict: ConflictPolicy,
    factory: F,
    request: RequestContext,
    counter: &mut IdCounter,
    result: Result<SubmittedTask<F, T, E>, RuntimeError>,
)
    requires
        call_ensures(
            TaskSet::<K, F, T, E>::submit,
            (tasks, meta, conflict, factory, request, counter),
            result,
        ),
    ensures
        result is Err <==> old(tasks)@.by_key.contains_key(meta.key@) && conflict is Reject,
        result matches Err(error) ==> error == RuntimeError::TaskAlreadyRunning(meta.key) && final(tasks)@ == old(tasks)@,
        result matches Ok(submitted) ==> {
            &&& submitted.task_id@ == old(counter)@
            &&& old(tasks)@.by_key.contains_key(meta.key@) ==> {
                &&& submitted.started is None
                &&& final(tasks)@.pending.contains_key(meta.key@)
                &&& final(tasks)@.pending[meta.key@].id == submitted.task_id
            }
            &&& !old(tasks)@.by_key.contains_key(meta.key@) ==> (submitted.started is Some
                ==> final(tasks)@.running.contains_key(submitted.task_id@))
        },
{
}

/// Announcements are handed out once, in the order in which they were made, and
/// the tasks stay as they are. A new set has none.
pub proof fn law_announcements_are_handed_out_once<K: ServiceKey, F, T, E>(
    tasks: &mut TaskSet<K, F, T, E>,
    events: Vec<TaskSnapshot<K>>,
    i: int,
    service: K,
    fresh: TaskSet<K, F, T, E>,
    id: TaskId,
    running: bool,
)
    requires
        call_ensures(TaskSet::<K, F, T, E>::take_events, (tasks,), events),
        call_ensures(TaskSet::<K, F, T, E>::new, (service,), fresh),
        call_ensures(TaskSet::<K, F, T, E>::is_running, (&fresh, id), running),
    ensures
        events@.len() == old(tasks)@.emitted.len(),
        0 <= i < events@.len() ==> events@[i]@ == old(tasks)@.emitted[i],
        final(tasks)@.emitted.len() == 0,
        final(tasks)@.running == old(tasks)@.running,
        final(tasks)@.pending == old(tasks)@.pending,
        final(tasks)@.by_key == old(tasks)@.by_key,
        fresh@.emitted.len() == 0,
        fresh.name() == service,
        !running,
{
    let shown = events@.map_values(|task: TaskSnapshot<K>| task@);
    assert(shown.len() == events@.len());
    if 0 <= i < events@.len() {
        assert(shown[i] == events@[i]@);
    }
    assert(!fresh@.running.dom().contains(id@));
}

/// The listing of a set shows each task that runs or waits once, in the order of
/// identities.
pub proof fn law_set_lists_its_tasks_in_order<K: ServiceKey, F, T, E>(
    tasks: TaskSet<K, F, T, E>,
    snapshots: Vec<TaskSnapshot<K>>,
    i: int,
)
    requires
        call_ensures(TaskSet::<K, F, T, E>::snapshots, (&tasks,), snapshots),
        0 <= i < snapshots@.len(),
    ensures
        ({
            let order = ordered_keys::<TaskId>(tasks@.as_manager().all_shown().dom());
            &&& snapshots@.len() == order.len()
            &&& snapshots@[i]@ == tasks@.as_manager().all_shown()[order[i]]
        }),
{
    let shown = snapshots@.map_values(|task: TaskSnapshot<K>| task@);
    assert(shown.len() == snapshots@.len());
    assert(shown[i] == snapshots@[i]@);
}

} // verus!
