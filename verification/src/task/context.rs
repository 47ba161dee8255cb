//! Descriptions and contexts of managed tasks.
use crate::outside::{answered, child_token, descends_from, token_made};
use crate::protocol::{reason_view, CancelReason, CancelReasonView, TaskKey, TraceContext};
use crate::runtime::ids::{OperationId, RequestId, TaskId};
use std::sync::{Arc, OnceLock};
use tokio_util::sync::CancellationToken;
use vstd::prelude::*;

verus! {

/// Who may see a task.
#[derive(Debug, Clone, Copy, PartialEq, Eq, Structural)]
pub enum TaskVisibility {
    Public,
    Internal,
}

/// What a task description says.
pub struct TaskMetaView {
    pub key: Seq<char>,
    pub label: Seq<char>,
    pub visibility: TaskVisibility,
}

/// Description of a task.
#[derive(Debug)]
pub struct TaskMeta {
    pub key: TaskKey,
    pub label: String,
    pub visibility: TaskVisibility,
}

impl View for TaskMeta {
    type V = TaskMetaView;

    open spec fn view(&self) -> TaskMetaView {
        TaskMetaView { key: self.key@, label: self.label@, visibility: self.visibility }
    }
}

impl Clone for TaskMeta {
    fn clone(&self) -> (copy: Self)
        ensures
            copy == *self,
    {
        TaskMeta { key: self.key.clone(), label: self.label.clone(), visibility: self.visibility }
    }
}

impl TaskMeta {
    /// An internal task.
    pub fn new(key: TaskKey, label: &str) -> (meta: Self)
        ensures
            meta.key == key,
            meta@ == (TaskMetaView {
                key: key@,
                label: label@,
                visibility: TaskVisibility::Internal,
            }),
    {
        TaskMeta { key, label: label.to_owned(), visibility: TaskVisibility::Internal }
    }

    /// The same task, for everyone to see.
    pub fn public(self) -> (meta: Self)
        ensures
            meta == (TaskMeta { visibility: TaskVisibility::Public, ..self }),
    {
        TaskMeta { key: self.key, label: self.label, visibility: TaskVisibility::Public }
    }
}

/// What happens when the key of a new task is taken.
#[derive(Debug)]
pub enum ConflictPolicy {
    Reject,
    Replace(CancelReason),
}

impl Clone for ConflictPolicy {
    fn clone(&self) -> (copy: Self)
        ensures
            copy == *self,
    {
        match self {
            ConflictPolicy::Reject => ConflictPolicy::Reject,
            ConflictPolicy::Replace(reason) => ConflictPolicy::Replace(reason.clone()),
        }
    }
}

/// A task to be run: its description, what happens on a taken key, and what makes
/// its work.
pub struct TaskSpec<F> {
    pub meta: TaskMeta,
    pub conflict: ConflictPolicy,
    pub factory: F,
}

impl<F> TaskSpec<F> {
    /// A task that is refused when its key is taken.
    pub fn new(meta: TaskMeta, factory: F) -> (spec: Self)
        ensures
            spec.meta == meta,
            spec.conflict is Reject,
            spec.factory == factory,
    {
        TaskSpec { meta, conflict: ConflictPolicy::Reject, factory }
    }

    /// The same task, which replaces the one that runs on its key.
    pub fn replace_running(self, reason: CancelReason) -> (spec: Self)
        ensures
            spec.meta == self.meta,
            spec.conflict == ConflictPolicy::Replace(reason),
            spec.factory == self.factory,
    {
        TaskSpec {
            meta: self.meta,
            conflict: ConflictPolicy::Replace(reason),
            factory: self.factory,
        }
    }

    /// The parts of the task.
    pub fn into_parts(self) -> (parts: (TaskMeta, ConflictPolicy, F))
        ensures
            parts == (self.meta, self.conflict, self.factory),
    {
        (self.meta, self.conflict, self.factory)
    }
}

/// Where a task stands.
#[derive(Debug, Clone, Copy, PartialEq, Eq, Structural)]
pub enum TaskState {
    Queued,
    Running,
    Cancelling,
    Completed,
    Failed,
    Cancelled,
    Aborted,
}

/// Why a scope was cancelled, for everyone who shares the scope. The first reason
/// counts.
pub struct ScopeReason {
    pub cell: Arc<OnceLock<CancelReason>>,
}

impl Clone for ScopeReason {
    fn clone(&self) -> (copy: Self)
        ensures
            copy == *self,
    {
        ScopeReason { cell: self.cell.clone() }
    }
}

/// Whether the reason of a scope was made for that scope alone.
pub open spec fn reason_made(scope: ScopeReason) -> bool {
    call_ensures(OnceLock::<CancelReason>::new, (), *scope.cell)
}

/// Whether a reason was recorded for a scope, be it the first one or not.
pub open spec fn reason_recorded(scope: ScopeReason, reason: CancelReason) -> bool {
    exists|outcome: Result<(), CancelReason>| #[trigger]
        call_ensures(OnceLock::<CancelReason>::set, (&*scope.cell, reason), outcome)
}

/// Whether a scope was asked for its reason and gave this answer.
pub open spec fn reason_answered(scope: ScopeReason, reason: Option<CancelReason>) -> bool {
    match reason {
        Some(reason) => call_ensures(
            OnceLock::<CancelReason>::get,
            (&*scope.cell,),
            Some(&reason),
        ),
        None => call_ensures(OnceLock::<CancelReason>::get, (&*scope.cell,), None),
    }
}

impl ScopeReason {
    /// A scope of its own, without a reason.
    pub(crate) fn new() -> (scope: Self)
        ensures
            reason_made(scope),
    {
        ScopeReason { cell: Arc::new(OnceLock::new()) }
    }

    /// Records why the scope is cancelled.
    pub fn record(&self, reason: CancelReason)
        ensures
            reason_recorded(*self, reason),
    {
        let _ = self.cell.set(reason);
    }

    /// Why the scope was cancelled, as far as it is known by now.
    pub fn get(&self) -> (reason: Option<CancelReason>)
        ensures
            reason_answered(*self, reason),
    {
        match self.cell.get() {
            Some(reason) => Some(reason.clone()),
            None => None,
        }
    }
}

/// What a request carries along. Its work is cancelled with its scope.
pub struct RequestContext {
    pub request_id: RequestId,
    pub operation_id: OperationId,
    pub trace: TraceContext,
    pub cancellation: CancellationToken,
    /// Why the scope was cancelled.
    pub reason: ScopeReason,
}

impl Clone for RequestContext {
    fn clone(&self) -> (copy: Self)
        ensures
            copy == *self,
    {
        RequestContext {
            request_id: self.request_id,
            operation_id: self.operation_id,
            trace: self.trace,
            cancellation: self.cancellation.clone(),
            reason: self.reason.clone(),
        }
    }
}

impl RequestContext {
    /// A request that nothing else caused, with a scope of its own.
    pub fn root(request_id: RequestId, operation_id: OperationId, trace: TraceContext) -> (context:
        Self)
        ensures
            context == (RequestContext {
                request_id,
                operation_id,
                trace,
                cancellation: context.cancellation,
                reason: context.reason,
            }),
            token_made(context.cancellation),
            reason_made(context.reason),
    {
        RequestContext {
            request_id,
            operation_id,
            trace,
            cancellation: CancellationToken::new(),
            reason: ScopeReason::new(),
        }
    }

    /// A request that a task of this request makes: it belongs to the same
    /// operation, its trace leads to the task, and it is cancelled with this
    /// request.
    pub fn child(&self, request_id: RequestId, parent_task: TaskId) -> (context: Self)
        ensures
            context == (RequestContext {
                request_id,
                operation_id: self.operation_id,
                trace: TraceContext {
                    trace_id: self.trace.trace_id,
                    parent_task: Some(parent_task),
                },
                cancellation: context.cancellation,
                reason: context.reason,
            }),
            descends_from(context.cancellation, self.cancellation),
            reason_made(context.reason),
    {
        RequestContext {
            request_id,
            operation_id: self.operation_id,
            trace: self.trace.child(parent_task),
            cancellation: child_token(&self.cancellation),
            reason: ScopeReason::new(),
        }
    }

    /// The same context for another request.
    pub fn for_request(&self, request_id: RequestId) -> (context: Self)
        ensures
            context == (RequestContext { request_id, ..*self }),
    {
        RequestContext {
            request_id,
            operation_id: self.operation_id,
            trace: self.trace,
            cancellation: self.cancellation.clone(),
            reason: self.reason.clone(),
        }
    }
}

/// What a task carries along.
pub struct TaskContext {
    pub task_id: TaskId,
    pub key: TaskKey,
    pub request: RequestContext,
}

impl Clone for TaskContext {
    fn clone(&self) -> (copy: Self)
        ensures
            copy == *self,
    {
        TaskContext {
            task_id: self.task_id,
            key: self.key.clone(),
            request: self.request.clone(),
        }
    }
}

/// The reason of a cancellation: the recorded one, or that of the parent when a
/// scope is cancelled without a reason of its own.
pub open spec fn effective_reason(recorded: Option<CancelReasonView>, cancelled: bool) -> Option<
    CancelReasonView,
> {
    match recorded {
        Some(reason) => Some(reason),
        None => if cancelled {
            Some(CancelReasonView::ParentCancelled)
        } else {
            None
        },
    }
}

/// Tells the reason of a cancellation.
pub fn cancellation_reason(recorded: &Option<CancelReason>, cancelled: bool) -> (reason: Option<
    CancelReason,
>)
    ensures
        reason_view(reason) == effective_reason(reason_view(*recorded), cancelled),
{
    match recorded {
        Some(reason) => Some(reason.clone()),
        None => if cancelled {
            Some(CancelReason::ParentCancelled)
        } else {
            None
        },
    }
}

impl TaskContext {
    /// The context of a task of a request.
    pub fn new(task_id: TaskId, key: TaskKey, request: RequestContext) -> (context: Self)
        ensures
            context == (TaskContext { task_id, key, request }),
    {
        TaskContext { task_id, key, request }
    }

    /// The identity of the task.
    pub fn task_id(&self) -> (id: TaskId)
        ensures
            id == self.task_id,
    {
        self.task_id
    }

    /// The key of the task.
    pub fn key(&self) -> (key: &TaskKey)
        ensures
            *key == self.key,
    {
        &self.key
    }

    /// The operation that the task belongs to.
    pub fn operation_id(&self) -> (id: OperationId)
        ensures
            id == self.request.operation_id,
    {
        self.request.operation_id
    }

    /// The trace of what the task does.
    pub fn trace(&self) -> (trace: TraceContext)
        ensures
            trace == (TraceContext {
                trace_id: self.request.trace.trace_id,
                parent_task: Some(self.task_id),
            }),
    {
        self.request.trace.child(self.task_id)
    }

    /// Why the scope of the task was cancelled, as far as it is known by now.
    pub fn cancellation_reason(&self) -> (reason: Option<CancelReason>)
        ensures
            reason_answered(self.request.reason, reason),
    {
        self.request.reason.get()
    }

    /// Whether the task is cancelled by now: what the token of its own request
    /// answers. The answer depends on when it is asked.
    pub fn is_cancelled(&self) -> (cancelled: bool)
        ensures
            answered(self.request.cancellation, cancelled),
    {
        self.request.cancellation.is_cancelled()
    }

    /// A request that the task makes: it belongs to the same operation, its
    /// trace leads to the task, and it is cancelled with the task.
    pub fn child_request(&self, request_id: RequestId) -> (context: RequestContext)
        ensures
            context == (RequestContext {
                request_id,
                operation_id: self.request.operation_id,
                trace: TraceContext {
                    trace_id: self.request.trace.trace_id,
                    parent_task: Some(self.task_id),
                },
                cancellation: context.cancellation,
                reason: context.reason,
            }),
            descends_from(context.cancellation, self.request.cancellation),
            reason_made(context.reason),
    {
        self.request.child(request_id, self.task_id)
    }
}

/// A task as others see it, without its service.
pub struct TaskSnapshotView {
    pub task_id: TaskId,
    pub key: Seq<char>,
    pub label: Seq<char>,
    pub state: TaskState,
    pub visibility: TaskVisibility,
    pub request_id: RequestId,
    pub operation_id: OperationId,
    pub trace: TraceContext,
}

/// A task as others see it.
#[derive(Debug)]
pub struct TaskSnapshot<K> {
    pub service: K,
    pub task_id: TaskId,
    pub key: TaskKey,
    pub label: String,
    pub state: TaskState,
    pub visibility: TaskVisibility,
    pub request_id: RequestId,
    pub operation_id: OperationId,
    pub trace: TraceContext,
}

impl<K> View for TaskSnapshot<K> {
    type V = TaskSnapshotView;

    open spec fn view(&self) -> TaskSnapshotView {
        TaskSnapshotView {
            task_id: self.task_id,
            key: self.key@,
            label: self.label@,
            state: self.state,
            visibility: self.visibility,
            request_id: self.request_id,
            operation_id: self.operation_id,
            trace: self.trace,
        }
    }
}

/// A change of a task.
#[derive(Debug)]
pub struct TaskEvent<K> {
    pub task: TaskSnapshot<K>,
}

/// What is known of a managed task.
pub struct TaskRecord {
    pub id: TaskId,
    pub meta: TaskMeta,
    pub request: RequestContext,
}

impl Clone for TaskRecord {
    fn clone(&self) -> (copy: Self)
        ensures
            copy == *self,
    {
        TaskRecord { id: self.id, meta: self.meta.clone(), request: self.request.clone() }
    }
}

impl TaskRecord {
    /// The task in a state, as others see it.
    pub open spec fn shown(&self, state: TaskState) -> TaskSnapshotView {
        TaskSnapshotView {
            task_id: self.id,
            key: self.meta.key@,
            label: self.meta.label@,
            state,
            visibility: self.meta.visibility,
            request_id: self.request.request_id,
            operation_id: self.request.operation_id,
            trace: self.request.trace,
        }
    }

    /// Shows the task in a state to others.
    pub fn snapshot<K: Clone>(&self, service: &K, state: TaskState) -> (snapshot: TaskSnapshot<K>)
        ensures
            snapshot@ == self.shown(state),
            vstd::pervasive::cloned(*service, snapshot.service),
    {
        TaskSnapshot {
            service: service.clone(),
            task_id: self.id,
            key: self.meta.key.clone(),
            label: self.meta.label.clone(),
            state,
            visibility: self.meta.visibility,
            request_id: self.request.request_id,
            operation_id: self.request.operation_id,
            trace: self.request.trace,
        }
    }
}

/// Whether a snapshot shows a task in a state: its identity, its key, its label,
/// its visibility and what the request that it belongs to carries along.
pub open spec fn shows_task(
    snapshot: TaskSnapshotView,
    record: TaskRecord,
    state: TaskState,
) -> bool {
    &&& snapshot.task_id == record.id
    &&& snapshot.key == record.meta.key@
    &&& snapshot.label == record.meta.label@
    &&& snapshot.state == state
    &&& snapshot.visibility == record.meta.visibility
    &&& snapshot.request_id == record.request.request_id
    &&& snapshot.operation_id == record.request.operation_id
    &&& snapshot.trace == record.request.trace
}

/// Whether the announcements `after` are those `before` followed by one for each
/// of these tasks in its state, in order.
pub open spec fn announced(
    before: Seq<TaskSnapshotView>,
    after: Seq<TaskSnapshotView>,
    changes: Seq<(TaskRecord, TaskState)>,
) -> bool {
    &&& after.len() == before.len() + changes.len()
    &&& forall|i: int| 0 <= i < before.len() ==> #[trigger] after[i] == before[i]
    &&& forall|i: int|
        0 <= i < changes.len() ==> shows_task(
            #[trigger] after[before.len() + i],
            changes[i].0,
            changes[i].1,
        )
}

/// A task is shown to others as it is, in the state that is announced.
pub proof fn law_task_is_shown_as_it_is(record: TaskRecord, state: TaskState)
    ensures
        shows_task(record.shown(state), record, state),
{
}

/// A cancelled scope always has a reason: the recorded one where there is one,
/// and otherwise that its parent was cancelled. A scope that is not cancelled has
/// no reason but a recorded one.
pub proof fn law_recorded_reason_comes_first(recorded: Option<CancelReasonView>, cancelled: bool)
    ensures
        recorded is Some ==> effective_reason(recorded, cancelled) == recorded,
        recorded is None && cancelled ==> effective_reason(recorded, cancelled) == Some(
            CancelReasonView::ParentCancelled,
        ),
        recorded is None && !cancelled ==> effective_reason(recorded, cancelled) is None,
{
}

/// A request that a task makes belongs to the operation and the trace of the task,
/// names the task as its parent, and is cancelled with it. A request under another
/// identity is the same in everything else.
pub proof fn law_child_request_belongs_to_its_task(
    task: TaskContext,
    request_id: RequestId,
    child: RequestContext,
    request: RequestContext,
    parent: TaskId,
    below: RequestContext,
    renamed: RequestContext,
)
    requires
        call_ensures(TaskContext::child_request, (&task, request_id), child),
        call_ensures(RequestContext::child, (&request, request_id, parent), below),
        call_ensures(RequestContext::for_request, (&request, request_id), renamed),
    ensures
        child.request_id == request_id,
        child.operation_id == task.request.operation_id,
        child.trace.trace_id == task.request.trace.trace_id,
        child.trace.parent_task == Some(task.task_id),
        descends_from(child.cancellation, task.request.cancellation),
        below.request_id == request_id,
        below.operation_id == request.operation_id,
        below.trace.trace_id == request.trace.trace_id,
        below.trace.parent_task == Some(parent),
        descends_from(below.cancellation, request.cancellation),
        renamed.request_id == request_id,
        renamed.operation_id == request.operation_id,
        renamed.trace == request.trace,
        renamed.cancellation == request.cancellation,
        renamed.reason == request.reason,
{
}

/// A task is internal and refused on a taken key, unless it is made public or made
/// to replace; either changes nothing else.
pub proof fn law_task_is_internal_and_refused_by_default<F>(
    key: TaskKey,
    label: &str,
    meta: TaskMeta,
    public: TaskMeta,
    factory: F,
    spec: TaskSpec<F>,
    reason: CancelReason,
    replacing: TaskSpec<F>,
)
    requires
        call_ensures(TaskMeta::new, (key, label), meta),
        call_ensures(TaskMeta::public, (meta,), public),
        call_ensures(TaskSpec::<F>::new, (meta, factory), spec),
        call_ensures(TaskSpec::<F>::replace_running, (spec, reason), replacing),
    ensures
        meta.key == key,
        meta@.label == label@,
        meta@.visibility is Internal,
        public.key == key,
        public@.label == label@,
        public@.visibility is Public,
        spec.conflict is Reject,
        spec.meta == meta,
        spec.factory == factory,
        replacing.conflict == ConflictPolicy::Replace(reason),
        replacing.meta == meta,
        replacing.factory == factory,
{
}

} // verus!
