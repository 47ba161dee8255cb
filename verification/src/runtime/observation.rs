//! Causal identities, snapshots and structured events of one service.
use super::ids::{number_after, IdCounter, OperationId, RequestId, TaskId};
use super::lifecycle::{ServiceActivity, ServiceLifecycle};
use super::task::{TaskOutcome, TaskOutcomeView};
use crate::text::decimal_text;
use vstd::prelude::*;
use vstd::string::StringExecFns;

verus! {

/// The text of an optional string.
pub open spec fn optional_text(text: Option<String>) -> Option<Seq<char>> {
    match text {
        Some(text) => Some(text@),
        None => None,
    }
}

/// Optional non-blocking adapter for persisting or exporting structured
/// runtime events.
pub trait RuntimeEventSink {
    fn record(&self, event: &RuntimeEvent);
}

/// The identity under which one operation is traced through the services.
#[derive(Debug, PartialEq, Eq)]
pub struct TraceContext {
    trace_id: String,
}

impl View for TraceContext {
    type V = Seq<char>;

    closed spec fn view(&self) -> Seq<char> {
        self.trace_id@
    }
}

impl Clone for TraceContext {
    fn clone(&self) -> (copy: Self)
        ensures
            copy == *self,
    {
        TraceContext { trace_id: self.trace_id.clone() }
    }
}

impl TraceContext {
    /// The trace named `trace_id`.
    pub fn new(trace_id: &str) -> (trace: Self)
        ensures
            trace@ == trace_id@,
    {
        TraceContext { trace_id: trace_id.to_owned() }
    }

    /// The name of the trace.
    pub fn trace_id(&self) -> (id: &str)
        ensures
            id@ == self@,
    {
        self.trace_id.as_str()
    }
}

/// What an [`OperationSpec`] says of an operation.
pub struct OperationSpecView {
    pub domain: Seq<char>,
    pub kind: Seq<char>,
    pub scope: Seq<char>,
    pub summary: Seq<char>,
    pub causes: Seq<OperationId>,
    pub trace: Option<Seq<char>>,
}

/// Description of an operation that is about to start.
#[derive(Debug, PartialEq, Eq)]
pub struct OperationSpec {
    domain: String,
    kind: String,
    scope: String,
    summary: String,
    causes: Vec<OperationId>,
    trace: Option<TraceContext>,
}

impl View for OperationSpec {
    type V = OperationSpecView;

    closed spec fn view(&self) -> OperationSpecView {
        OperationSpecView {
            domain: self.domain@,
            kind: self.kind@,
            scope: self.scope@,
            summary: self.summary@,
            causes: self.causes@,
            trace: match self.trace {
                Some(trace) => Some(trace@),
                None => None,
            },
        }
    }
}

impl OperationSpec {
    /// An operation without causes and without a trace of its own.
    pub fn new(domain: &str, kind: &str, scope: &str, summary: &str) -> (spec: Self)
        ensures
            spec@ == (OperationSpecView {
                domain: domain@,
                kind: kind@,
                scope: scope@,
                summary: summary@,
                causes: Seq::empty(),
                trace: None,
            }),
    {
        OperationSpec {
            domain: domain.to_owned(),
            kind: kind.to_owned(),
            scope: scope.to_owned(),
            summary: summary.to_owned(),
            causes: Vec::new(),
            trace: None,
        }
    }

    /// Adds an operation that caused this one.
    pub fn caused_by(self, cause: OperationId) -> (spec: Self)
        ensures
            spec@ == (OperationSpecView { causes: self@.causes.push(cause), ..self@ }),
    {
        let mut spec = self;
        spec.causes.push(cause);
        spec
    }

    /// Puts the operation into `trace`.
    pub fn with_trace(self, trace: TraceContext) -> (spec: Self)
        ensures
            spec@ == (OperationSpecView { trace: Some(trace@), ..self@ }),
    {
        let mut spec = self;
        spec.trace = Some(trace);
        spec
    }
}

/// What an [`OperationContext`] says of an operation.
pub struct OperationContextView {
    pub id: OperationId,
    pub domain: Seq<char>,
    pub kind: Seq<char>,
    pub scope: Seq<char>,
    pub summary: Seq<char>,
    pub causes: Seq<OperationId>,
    pub trace: Seq<char>,
    pub observable: bool,
}

/// Stable causal identity propagated across service calls. It contains no
/// business phase or workflow state.
#[derive(Debug, PartialEq, Eq)]
pub struct OperationContext {
    id: OperationId,
    domain: String,
    kind: String,
    scope: String,
    summary: String,
    causes: Vec<OperationId>,
    trace: TraceContext,
    observable: bool,
}

impl View for OperationContext {
    type V = OperationContextView;

    closed spec fn view(&self) -> OperationContextView {
        OperationContextView {
            id: self.id,
            domain: self.domain@,
            kind: self.kind@,
            scope: self.scope@,
            summary: self.summary@,
            causes: self.causes@,
            trace: self.trace@,
            observable: self.observable,
        }
    }
}

impl Clone for OperationContext {
    fn clone(&self) -> (copy: Self)
        ensures
            copy@ == self@,
    {
        let causes = self.causes.clone();
        assert(causes@ =~= self.causes@);
        OperationContext {
            id: self.id,
            domain: self.domain.clone(),
            kind: self.kind.clone(),
            scope: self.scope.clone(),
            summary: self.summary.clone(),
            causes,
            trace: self.trace.clone(),
            observable: self.observable,
        }
    }
}

impl OperationContext {
    /// Starts an observable operation. Without a trace of its own it is traced
    /// under its identity.
    pub fn root(counter: &mut IdCounter, spec: OperationSpec) -> (context: Self)
        ensures
            context@.id@ == old(counter)@,
            final(counter)@ == number_after(old(counter)@),
            context@ == (OperationContextView {
                id: context@.id,
                domain: spec@.domain,
                kind: spec@.kind,
                scope: spec@.scope,
                summary: spec@.summary,
                causes: spec@.causes,
                trace: match spec@.trace {
                    Some(trace) => trace,
                    None => "operation-"@ + decimal_text(context@.id@ as nat),
                },
                observable: true,
            }),
    {
        let id = OperationId::next(counter);
        let trace = match spec.trace {
            Some(trace) => trace,
            None => {
                let mut text = "operation-".to_owned();
                text.append(id.to_string().as_str());
                TraceContext { trace_id: text }
            },
        };
        OperationContext {
            id,
            domain: spec.domain,
            kind: spec.kind,
            scope: spec.scope,
            summary: spec.summary,
            causes: spec.causes,
            trace,
            observable: true,
        }
    }

    /// The identity of a request that is not observed as an operation.
    pub fn transient(counter: &mut IdCounter) -> (context: Self)
        ensures
            context@.id@ == old(counter)@,
            final(counter)@ == number_after(old(counter)@),
            context@ == (OperationContextView {
                id: context@.id,
                domain: "runtime"@,
                kind: "request"@,
                scope: "transient"@,
                summary: "untracked request"@,
                causes: Seq::empty(),
                trace: "transient-"@ + decimal_text(context@.id@ as nat),
                observable: false,
            }),
    {
        let id = OperationId::next(counter);
        let mut trace = "transient-".to_owned();
        trace.append(id.to_string().as_str());
        OperationContext {
            id,
            domain: "runtime".to_owned(),
            kind: "request".to_owned(),
            scope: "transient".to_owned(),
            summary: "untracked request".to_owned(),
            causes: Vec::new(),
            trace: TraceContext { trace_id: trace },
            observable: false,
        }
    }

    /// The identity of the operation.
    pub fn id(&self) -> (id: OperationId)
        ensures
            id == self@.id,
    {
        self.id
    }

    /// The domain that the operation belongs to.
    pub fn domain(&self) -> (domain: &str)
        ensures
            domain@ == self@.domain,
    {
        self.domain.as_str()
    }

    /// The kind of the operation.
    pub fn kind(&self) -> (kind: &str)
        ensures
            kind@ == self@.kind,
    {
        self.kind.as_str()
    }

    /// What the operation acts on.
    pub fn scope(&self) -> (scope: &str)
        ensures
            scope@ == self@.scope,
    {
        self.scope.as_str()
    }

    /// What the operation does.
    pub fn summary(&self) -> (summary: &str)
        ensures
            summary@ == self@.summary,
    {
        self.summary.as_str()
    }

    /// The operations that caused this one.
    pub fn causes(&self) -> (causes: &[OperationId])
        ensures
            causes@ == self@.causes,
    {
        self.causes.as_slice()
    }

    /// The trace of the operation.
    pub fn trace(&self) -> (trace: &TraceContext)
        ensures
            trace@ == self@.trace,
    {
        &self.trace
    }

    /// Whether the operation is reported in events.
    pub fn is_observable(&self) -> (result: bool)
        ensures
            result == self@.observable,
    {
        self.observable
    }
}

/// Whether cancellation of a task was requested.
#[derive(Debug, Clone, Copy, PartialEq, Eq, Structural)]
pub enum TaskState {
    Running,
    Cancelling,
}

/// What a [`TaskSnapshot`] says of a task.
pub struct TaskSnapshotView {
    pub id: TaskId,
    pub operation_id: OperationId,
    pub trace_id: Seq<char>,
    pub key: Seq<char>,
    pub kind: Seq<char>,
    pub summary: Seq<char>,
    pub state: TaskState,
    pub cancellable: bool,
    pub progress: Option<u8>,
    pub milestone: Option<Seq<char>>,
    pub blocked_on: Option<Seq<char>>,
    pub started_at_ms: u64,
}

/// One active task as observers see it.
#[derive(Debug, PartialEq, Eq)]
pub struct TaskSnapshot {
    pub id: TaskId,
    pub operation_id: OperationId,
    pub trace_id: String,
    pub key: String,
    pub kind: String,
    pub summary: String,
    pub state: TaskState,
    pub cancellable: bool,
    pub progress: Option<u8>,
    pub milestone: Option<String>,
    pub blocked_on: Option<String>,
    pub started_at_ms: u64,
}

impl View for TaskSnapshot {
    type V = TaskSnapshotView;

    open spec fn view(&self) -> TaskSnapshotView {
        TaskSnapshotView {
            id: self.id,
            operation_id: self.operation_id,
            trace_id: self.trace_id@,
            key: self.key@,
            kind: self.kind@,
            summary: self.summary@,
            state: self.state,
            cancellable: self.cancellable,
            progress: self.progress,
            milestone: optional_text(self.milestone),
            blocked_on: optional_text(self.blocked_on),
            started_at_ms: self.started_at_ms,
        }
    }
}

impl Clone for TaskSnapshot {
    fn clone(&self) -> (copy: Self)
        ensures
            copy == *self,
    {
        TaskSnapshot {
            id: self.id,
            operation_id: self.operation_id,
            trace_id: self.trace_id.clone(),
            key: self.key.clone(),
            kind: self.kind.clone(),
            summary: self.summary.clone(),
            state: self.state,
            cancellable: self.cancellable,
            progress: self.progress,
            milestone: self.milestone.clone(),
            blocked_on: self.blocked_on.clone(),
            started_at_ms: self.started_at_ms,
        }
    }
}

/// What a [`ServiceSnapshot`] says of a service.
pub struct ServiceSnapshotView {
    pub revision: u64,
    pub service: Seq<char>,
    pub domain: Seq<char>,
    pub lifecycle: ServiceLifecycle,
    pub activity: ServiceActivity,
    pub queued_requests: usize,
    pub in_flight_requests: usize,
    pub accepted_requests: u64,
    pub completed_requests: u64,
    pub rejected_requests: u64,
    pub active_tasks: Seq<TaskSnapshotView>,
    pub last_error: Option<Seq<char>>,
}

/// One service as observers see it.
#[derive(Debug, PartialEq, Eq)]
pub struct ServiceSnapshot {
    pub revision: u64,
    pub service: String,
    pub domain: String,
    pub lifecycle: ServiceLifecycle,
    pub activity: ServiceActivity,
    pub queued_requests: usize,
    pub in_flight_requests: usize,
    pub accepted_requests: u64,
    pub completed_requests: u64,
    pub rejected_requests: u64,
    pub active_tasks: Vec<TaskSnapshot>,
    pub last_error: Option<String>,
}

impl View for ServiceSnapshot {
    type V = ServiceSnapshotView;

    open spec fn view(&self) -> ServiceSnapshotView {
        ServiceSnapshotView {
            revision: self.revision,
            service: self.service@,
            domain: self.domain@,
            lifecycle: self.lifecycle,
            activity: self.activity,
            queued_requests: self.queued_requests,
            in_flight_requests: self.in_flight_requests,
            accepted_requests: self.accepted_requests,
            completed_requests: self.completed_requests,
            rejected_requests: self.rejected_requests,
            active_tasks: self.active_tasks@.map_values(|task: TaskSnapshot| task@),
            last_error: optional_text(self.last_error),
        }
    }
}

impl Clone for ServiceSnapshot {
    fn clone(&self) -> (copy: Self)
        ensures
            copy@ == self@,
    {
        let active_tasks = self.active_tasks.clone();
        assert(active_tasks@ =~= self.active_tasks@);
        ServiceSnapshot {
            revision: self.revision,
            service: self.service.clone(),
            domain: self.domain.clone(),
            lifecycle: self.lifecycle,
            activity: self.activity,
            queued_requests: self.queued_requests,
            in_flight_requests: self.in_flight_requests,
            accepted_requests: self.accepted_requests,
            completed_requests: self.completed_requests,
            rejected_requests: self.rejected_requests,
            active_tasks,
            last_error: self.last_error.clone(),
        }
    }
}

/// What a [`RuntimeEvent`] says.
pub struct RuntimeEventView {
    pub sequence: u64,
    pub timestamp_ms: u64,
    pub service: Seq<char>,
    pub kind: RuntimeEventKindView,
}

/// One structured event of a service.
#[derive(Debug, PartialEq, Eq)]
pub struct RuntimeEvent {
    pub sequence: u64,
    pub timestamp_ms: u64,
    pub service: String,
    pub kind: RuntimeEventKind,
}

impl View for RuntimeEvent {
    type V = RuntimeEventView;

    open spec fn view(&self) -> RuntimeEventView {
        RuntimeEventView {
            sequence: self.sequence,
            timestamp_ms: self.timestamp_ms,
            service: self.service@,
            kind: self.kind@,
        }
    }
}

/// What happened, with all text by its characters.
#[allow(inconsistent_fields)]
pub enum RuntimeEventKindView {
    OperationStarted(OperationContextView),
    OperationFinished { operation: OperationId, error: Option<Seq<char>> },
    LifecycleChanged { from: ServiceLifecycle, to: ServiceLifecycle, reason: Seq<char> },
    ActivityChanged { from: ServiceActivity, to: ServiceActivity },
    RequestAccepted { request: RequestId, operation: OperationId },
    RequestRejected { operation: OperationId, reason: Seq<char> },
    RequestFinished { request: RequestId, operation: OperationId, error: Option<Seq<char>> },
    TaskStarted(TaskSnapshotView),
    TaskProgress { task: TaskId, progress: u8 },
    TaskMilestone { task: TaskId, message: Seq<char> },
    TaskBlocked { task: TaskId, dependency: Option<Seq<char>> },
    TaskCancelRequested { task: TaskId, cause: Seq<char> },
    TaskFinished { task: TaskId, operation: OperationId, outcome: TaskOutcomeView },
    StateTransition {
        task: TaskId,
        operation: OperationId,
        object: Seq<char>,
        event: Seq<char>,
        from: Seq<char>,
        action: Seq<char>,
        to: Seq<char>,
    },
}

/// What happened.
#[allow(inconsistent_fields)]
#[derive(Debug, PartialEq, Eq)]
pub enum RuntimeEventKind {
    OperationStarted(OperationContext),
    OperationFinished { operation: OperationId, error: Option<String> },
    LifecycleChanged { from: ServiceLifecycle, to: ServiceLifecycle, reason: String },
    ActivityChanged { from: ServiceActivity, to: ServiceActivity },
    RequestAccepted { request: RequestId, operation: OperationId },
    RequestRejected { operation: OperationId, reason: String },
    RequestFinished { request: RequestId, operation: OperationId, error: Option<String> },
    TaskStarted(TaskSnapshot),
    TaskProgress { task: TaskId, progress: u8 },
    TaskMilestone { task: TaskId, message: String },
    TaskBlocked { task: TaskId, dependency: Option<String> },
    TaskCancelRequested { task: TaskId, cause: String },
    TaskFinished { task: TaskId, operation: OperationId, outcome: TaskOutcome },
    StateTransition {
        task: TaskId,
        operation: OperationId,
        object: String,
        event: String,
        from: String,
        action: String,
        to: String,
    },
}

impl View for RuntimeEventKind {
    type V = RuntimeEventKindView;

    open spec fn view(&self) -> RuntimeEventKindView {
        match *self {
            RuntimeEventKind::OperationStarted(operation) => RuntimeEventKindView::OperationStarted(
                operation@,
            ),
            RuntimeEventKind::OperationFinished { operation, error } => {
                RuntimeEventKindView::OperationFinished { operation, error: optional_text(error) }
            },
            RuntimeEventKind::LifecycleChanged { from, to, reason } => {
                RuntimeEventKindView::LifecycleChanged { from, to, reason: reason@ }
            },
            RuntimeEventKind::ActivityChanged { from, to } => RuntimeEventKindView::ActivityChanged {
                from,
                to,
            },
            RuntimeEventKind::RequestAccepted { request, operation } => {
                RuntimeEventKindView::RequestAccepted { request, operation }
            },
            RuntimeEventKind::RequestRejected { operation, reason } => {
                RuntimeEventKindView::RequestRejected { operation, reason: reason@ }
            },
            RuntimeEventKind::RequestFinished { request, operation, error } => {
                RuntimeEventKindView::RequestFinished {
                    request,
                    operation,
                    error: optional_text(error),
                }
            },
            RuntimeEventKind::TaskStarted(task) => RuntimeEventKindView::TaskStarted(task@),
            RuntimeEventKind::TaskProgress { task, progress } => RuntimeEventKindView::TaskProgress {
                task,
                progress,
            },
            RuntimeEventKind::TaskMilestone { task, message } => {
                RuntimeEventKindView::TaskMilestone { task, message: message@ }
            },
            RuntimeEventKind::TaskBlocked { task, dependency } => RuntimeEventKindView::TaskBlocked {
                task,
                dependency: optional_text(dependency),
            },
            RuntimeEventKind::TaskCancelRequested { task, cause } => {
                RuntimeEventKindView::TaskCancelRequested { task, cause: cause@ }
            },
            RuntimeEventKind::TaskFinished { task, operation, outcome } => {
                RuntimeEventKindView::TaskFinished { task, operation, outcome: outcome@ }
            },
            RuntimeEventKind::StateTransition { task, operation, object, event, from, action, to } => {
                RuntimeEventKindView::StateTransition {
                    task,
                    operation,
                    object: object@,
                    event: event@,
                    from: from@,
                    action: action@,
                    to: to@,
                }
            },
        }
    }
}

/// The whole milliseconds since the epoch as an event time: times beyond the
/// range of `u64` become its greatest value.
pub fn now_ms(elapsed_millis: u128) -> (millis: u64)
    ensures
        millis == (if elapsed_millis <= u64::MAX {
            elapsed_millis as u64
        } else {
            u64::MAX
        }),
{
    if elapsed_millis <= u64::MAX as u128 {
        elapsed_millis as u64
    } else {
        u64::MAX
    }
}

/// An operation keeps its own trace, and is traced under its identity without
/// one. It is observable, and a transient request is not.
pub proof fn law_operation_is_traced_and_transient_is_not_observed(
    counter: &mut IdCounter,
    spec: OperationSpec,
    context: OperationContext,
    other: &mut IdCounter,
    transient: OperationContext,
)
    requires
        call_ensures(OperationContext::root, (counter, spec), context),
        call_ensures(OperationContext::transient, (other,), transient),
    ensures
        context@.id@ == old(counter)@,
        context@.observable,
        spec@.trace matches Some(trace) ==> context@.trace == trace,
        spec@.trace is None ==> context@.trace == "operation-"@ + decimal_text(
            old(counter)@ as nat,
        ),
        context@.domain == spec@.domain,
        context@.kind == spec@.kind,
        context@.scope == spec@.scope,
        context@.summary == spec@.summary,
        context@.causes == spec@.causes,
        transient@.id@ == old(other)@,
        !transient@.observable,
        transient@.causes.len() == 0,
{
}

/// A cause is put behind the earlier ones, and a trace takes the place of an
/// earlier one; nothing else of the operation changes.
pub proof fn law_causes_are_collected(
    spec: OperationSpec,
    cause: OperationId,
    caused: OperationSpec,
    trace: TraceContext,
    traced: OperationSpec,
)
    requires
        call_ensures(OperationSpec::caused_by, (spec, cause), caused),
        call_ensures(OperationSpec::with_trace, (spec, trace), traced),
    ensures
        caused@.causes == spec@.causes.push(cause),
        caused@.trace == spec@.trace,
        caused@.kind == spec@.kind,
        caused@.scope == spec@.scope,
        traced@.trace == Some(trace@),
        traced@.causes == spec@.causes,
        traced@.kind == spec@.kind,
        traced@.scope == spec@.scope,
{
}

/// The time of an event is the time that passed, held at the greatest there is,
/// and never goes back when more time passed.
pub proof fn law_time_is_held_at_its_end(elapsed: u128, later: u128, first: u64, second: u64)
    requires
        elapsed <= later,
        call_ensures(now_ms, (elapsed,), first),
        call_ensures(now_ms, (later,), second),
    ensures
        first <= second,
        elapsed <= u64::MAX ==> first == elapsed,
        elapsed > u64::MAX ==> first == u64::MAX,
{
}

} // verus!
