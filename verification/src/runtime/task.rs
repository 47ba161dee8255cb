//! Tasks: observation and control of a part of a running request.
use super::hub::{
    law_cancellation_is_told, law_end_of_task_is_told, law_history_keeps_the_newest,
    law_reports_of_task_are_told, law_start_of_task_is_told, told, ObservationHub,
    TaskRegistration,
};
use super::ids::{number_after, IdCounter, OperationId, TaskId};
use super::observation::{
    OperationContext, OperationContextView, RuntimeEventKindView, TaskSnapshotView, TaskState,
};
use crate::outside::{answered, cancel_requested};
use tokio_util::sync::CancellationToken;
use vstd::prelude::*;

verus! {

/// What a [`TaskMeta`] says of a task.
pub struct TaskMetaView {
    pub key: Seq<char>,
    pub kind: Seq<char>,
    pub summary: Seq<char>,
    pub cancellable: bool,
}

/// Description of a task that is about to start.
#[derive(Debug, PartialEq, Eq)]
pub struct TaskMeta {
    key: String,
    kind: String,
    summary: String,
    cancellable: bool,
}

impl View for TaskMeta {
    type V = TaskMetaView;

    closed spec fn view(&self) -> TaskMetaView {
        TaskMetaView {
            key: self.key@,
            kind: self.kind@,
            summary: self.summary@,
            cancellable: self.cancellable,
        }
    }
}

impl Clone for TaskMeta {
    fn clone(&self) -> (copy: Self)
        ensures
            copy == *self,
    {
        TaskMeta {
            key: self.key.clone(),
            kind: self.kind.clone(),
            summary: self.summary.clone(),
            cancellable: self.cancellable,
        }
    }
}

impl TaskMeta {
    /// A cancellable task.
    pub fn new(key: &str, kind: &str, summary: &str) -> (meta: Self)
        ensures
            meta@ == (TaskMetaView {
                key: key@,
                kind: kind@,
                summary: summary@,
                cancellable: true,
            }),
    {
        TaskMeta {
            key: key.to_owned(),
            kind: kind.to_owned(),
            summary: summary.to_owned(),
            cancellable: true,
        }
    }

    /// The same task without the possibility to cancel it.
    pub fn non_cancellable(self) -> (meta: Self)
        ensures
            meta@ == (TaskMetaView { cancellable: false, ..self@ }),
    {
        TaskMeta { key: self.key, kind: self.kind, summary: self.summary, cancellable: false }
    }

    /// Takes the description apart: key, kind, summary and cancellability.
    pub fn into_parts(self) -> (parts: (String, String, String, bool))
        ensures
            parts.0@ == self@.key,
            parts.1@ == self@.kind,
            parts.2@ == self@.summary,
            parts.3 == self@.cancellable,
    {
        (self.key, self.kind, self.summary, self.cancellable)
    }
}

/// How a task ended, with the text of a failure.
pub enum TaskOutcomeView {
    Completed,
    Cancelled,
    Failed(Seq<char>),
    Aborted,
}

/// How a task ended.
#[derive(Debug, PartialEq, Eq)]
pub enum TaskOutcome {
    Completed,
    Cancelled,
    Failed(String),
    Aborted,
}

impl View for TaskOutcome {
    type V = TaskOutcomeView;

    open spec fn view(&self) -> TaskOutcomeView {
        match *self {
            TaskOutcome::Completed => TaskOutcomeView::Completed,
            TaskOutcome::Cancelled => TaskOutcomeView::Cancelled,
            TaskOutcome::Failed(error) => TaskOutcomeView::Failed(error@),
            TaskOutcome::Aborted => TaskOutcomeView::Aborted,
        }
    }
}

impl Clone for TaskOutcome {
    fn clone(&self) -> (copy: Self)
        ensures
            copy == *self,
    {
        match self {
            TaskOutcome::Completed => TaskOutcome::Completed,
            TaskOutcome::Cancelled => TaskOutcome::Cancelled,
            TaskOutcome::Failed(error) => TaskOutcome::Failed(error.clone()),
            TaskOutcome::Aborted => TaskOutcome::Aborted,
        }
    }
}

/// A reference through which an active task can be cancelled. It neither owns
/// nor runs the work.
#[derive(Debug, Clone, Copy, PartialEq, Eq, Structural)]
pub struct TaskControl {
    id: TaskId,
}

impl View for TaskControl {
    type V = TaskId;

    closed spec fn view(&self) -> TaskId {
        self.id
    }
}

impl TaskControl {
    /// The control of a task.
    pub fn new(id: TaskId) -> (control: Self)
        ensures
            control@ == id,
    {
        TaskControl { id }
    }

    /// The identity of the task.
    pub fn id(&self) -> (id: TaskId)
        ensures
            id == self@,
    {
        self.id
    }

    /// Requests cancellation of the task. A refusal is ignored.
    pub fn request_cancel(&self, hub: &mut ObservationHub, cause: &str, now: u64)
        requires
            old(hub).wf(),
            old(hub)@.has_room(1),
        ensures
            final(hub).wf(),
            final(hub)@ == old(hub)@.cancel_requested(self@, cause@, now),
            old(hub)@.cancel_refusal(self@) is None ==> cancel_requested(
                old(hub)@.tasks[self@@].cancellation,
            ),
    {
        let _ = hub.cancel_task(self.id, cause, now);
    }
}

/// What a task attempt refers to.
pub struct TaskAttemptView {
    pub id: TaskId,
    pub operation: OperationId,
    pub cancellation: CancellationToken,
}

/// Observability and control of a portion of a running request. The attempt is
/// data about the work, not its owner.
pub struct TaskAttempt {
    id: TaskId,
    operation: OperationId,
    cancellation: CancellationToken,
}

impl View for TaskAttempt {
    type V = TaskAttemptView;

    closed spec fn view(&self) -> TaskAttemptView {
        TaskAttemptView {
            id: self.id,
            operation: self.operation,
            cancellation: self.cancellation,
        }
    }
}

impl TaskMetaView {
    /// The first snapshot of a task that carries out a part of `operation`.
    pub open spec fn started(
        self,
        operation: OperationContextView,
        id: TaskId,
        cancelled: bool,
        now: u64,
    ) -> TaskSnapshotView {
        TaskSnapshotView {
            id,
            operation_id: operation.id,
            trace_id: operation.trace,
            key: self.key,
            kind: self.kind,
            summary: self.summary,
            state: if cancelled {
                TaskState::Cancelling
            } else {
                TaskState::Running
            },
            cancellable: self.cancellable,
            progress: None,
            milestone: None,
            blocked_on: None,
            started_at_ms: now,
        }
    }
}

impl TaskAttempt {
    /// Starts a task of an operation under the next identity.
    pub fn start(
        hub: &mut ObservationHub,
        counter: &mut IdCounter,
        operation: &OperationContext,
        meta: TaskMeta,
        cancellation: CancellationToken,
        now: u64,
    ) -> (attempt: Self)
        requires
            old(hub).wf(),
            old(hub)@.has_room(1),
        ensures
            final(hub).wf(),
            attempt@.id@ == old(counter)@,
            final(counter)@ == number_after(old(counter)@),
            attempt@.operation == operation@.id,
            attempt@.cancellation == cancellation,
            ({
                ||| answered(cancellation, false) && final(hub)@ == old(hub)@.task_started(
                    meta@.started(operation@, attempt@.id, false, now),
                    cancellation,
                    now,
                )
                ||| answered(cancellation, true) && final(hub)@ == old(hub)@.task_started(
                    meta@.started(operation@, attempt@.id, true, now),
                    cancellation,
                    now,
                )
            }),
    {
        let (key, kind, summary, cancellable) = meta.into_parts();
        let registration = TaskRegistration {
            operation: operation.id(),
            trace_id: operation.trace().trace_id().to_owned(),
            key,
            kind,
            summary,
            cancellable,
            cancellation: cancellation.clone(),
        };
        let id = hub.start_task(registration, counter, now);
        TaskAttempt { id, operation: operation.id(), cancellation }
    }

    /// The identity of the task.
    pub fn id(&self) -> (id: TaskId)
        ensures
            id == self@.id,
    {
        self.id
    }

    /// The control of the task.
    pub fn control(&self) -> (control: TaskControl)
        ensures
            control@ == self@.id,
    {
        TaskControl::new(self.id)
    }

    /// The token that cancels the task.
    pub fn cancellation(&self) -> (token: &CancellationToken)
        ensures
            *token == self@.cancellation,
    {
        &self.cancellation
    }

    /// Reports the progress in percent; more than one hundred counts as one
    /// hundred.
    pub fn progress(&self, hub: &mut ObservationHub, percent: u8, now: u64)
        requires
            old(hub).wf(),
            old(hub)@.has_room(1),
        ensures
            final(hub).wf(),
            final(hub)@ == old(hub)@.task_progressed(
                self@.id,
                if percent > 100 {
                    100
                } else {
                    percent
                },
                now,
            ),
    {
        hub.task_progress(self.id, percent, now);
    }

    /// Reports a milestone.
    pub fn milestone(&self, hub: &mut ObservationHub, message: &str, now: u64)
        requires
            old(hub).wf(),
            old(hub)@.has_room(1),
        ensures
            final(hub).wf(),
            final(hub)@ == old(hub)@.task_reached(self@.id, message@, now),
    {
        hub.task_milestone(self.id, message, now);
    }

    /// Reports what the task waits for.
    pub fn blocked_on(&self, hub: &mut ObservationHub, dependency: &str, now: u64)
        requires
            old(hub).wf(),
            old(hub)@.has_room(1),
        ensures
            final(hub).wf(),
            final(hub)@ == old(hub)@.task_waits(self@.id, Some(dependency@), now),
    {
        hub.task_blocked(self.id, Some(dependency.to_owned()), now);
    }

    /// Reports that the task waits no more.
    pub fn unblocked(&self, hub: &mut ObservationHub, now: u64)
        requires
            old(hub).wf(),
            old(hub)@.has_room(1),
        ensures
            final(hub).wf(),
            final(hub)@ == old(hub)@.task_waits(self@.id, None, now),
    {
        hub.task_blocked(self.id, None, now);
    }

    /// Reports that an object went from one state to another on behalf of the
    /// task.
    pub fn transition(
        &self,
        hub: &mut ObservationHub,
        object: &str,
        event: &str,
        from: &str,
        action: &str,
        to: &str,
        now: u64,
    )
        requires
            old(hub).wf(),
            old(hub)@.has_room(1),
        ensures
            final(hub).wf(),
            final(hub)@ == old(hub)@.recorded(
                RuntimeEventKindView::StateTransition {
                    task: self@.id,
                    operation: self@.operation,
                    object: object@,
                    event: event@,
                    from: from@,
                    action: action@,
                    to: to@,
                },
                now,
            ),
    {
        hub.state_transition(self.id, self.operation, object, event, from, action, to, now);
    }

    /// Ends the task.
    pub fn finish(self, hub: &mut ObservationHub, outcome: TaskOutcome, now: u64)
        requires
            old(hub).wf(),
            old(hub)@.has_room(1),
        ensures
            final(hub).wf(),
            final(hub)@ == old(hub)@.task_ended(self@.id@, outcome@, now),
    {
        hub.finish_task(self.id, outcome, now);
    }

    /// Gives the task up without an outcome of its own: it counts as aborted.
    pub fn abandon(self, hub: &mut ObservationHub, now: u64)
        requires
            old(hub).wf(),
            old(hub)@.has_room(1),
        ensures
            final(hub).wf(),
            final(hub)@ == old(hub)@.task_ended(self@.id@, TaskOutcomeView::Aborted, now),
    {
        hub.finish_task(self.id, TaskOutcome::Aborted, now);
    }
}

/// A task starts as it was described, as a part of its operation and in its trace.
/// It is seen as running, or as cancelling where its scope is cancelled already,
/// and has reported nothing.
pub proof fn law_task_starts_as_described(
    meta: TaskMetaView,
    operation: OperationContextView,
    id: TaskId,
    cancelled: bool,
    now: u64,
)
    ensures
        ({
            let snapshot = meta.started(operation, id, cancelled, now);
            &&& snapshot.id == id
            &&& snapshot.operation_id == operation.id
            &&& snapshot.trace_id == operation.trace
            &&& snapshot.key == meta.key
            &&& snapshot.kind == meta.kind
            &&& snapshot.summary == meta.summary
            &&& snapshot.cancellable == meta.cancellable
            &&& snapshot.state is Cancelling <==> cancelled
            &&& snapshot.progress is None
            &&& snapshot.milestone is None
            &&& snapshot.blocked_on is None
            &&& snapshot.started_at_ms == now
        }),
{
}

/// Reported progress never exceeds one hundred percent, and is reported as it is
/// up to that.
pub proof fn law_progress_is_a_percentage(
    attempt: TaskAttempt,
    hub: &mut ObservationHub,
    percent: u8,
    now: u64,
    reported: (),
)
    requires
        old(hub).wf(),
        call_ensures(TaskAttempt::progress, (&attempt, hub, percent, now), reported),
        old(hub)@.tasks.contains_key(attempt@.id@),
    ensures
        final(hub)@.tasks.contains_key(attempt@.id@),
        final(hub)@.tasks[attempt@.id@].snapshot.progress matches Some(progress) && {
            &&& progress <= 100
            &&& percent <= 100 ==> progress == percent
            &&& percent > 100 ==> progress == 100
        },
{
}

/// An outcome is observed as what it is, with the text of a failure.
pub proof fn law_outcome_is_observed_as_it_is(outcome: TaskOutcome)
    ensures
        outcome is Completed <==> outcome@ is Completed,
        outcome is Cancelled <==> outcome@ is Cancelled,
        outcome is Aborted <==> outcome@ is Aborted,
        outcome matches TaskOutcome::Failed(error) ==> outcome@ == TaskOutcomeView::Failed(error@),
{
}

/// A task starts under the next identity, as its description and its operation
/// say, and is active from then on with the token that it was given.
pub proof fn law_attempt_starts_under_the_next_identity(
    hub: &mut ObservationHub,
    counter: &mut IdCounter,
    operation: &OperationContext,
    meta: TaskMeta,
    cancellation: CancellationToken,
    now: u64,
    attempt: TaskAttempt,
)
    requires
        old(hub)@.valid() && old(hub)@.has_room(1),
        call_ensures(
            TaskAttempt::start,
            (hub, counter, operation, meta, cancellation, now),
            attempt,
        ),
    ensures
        attempt@.id@ == old(counter)@,
        attempt@.operation == operation@.id,
        attempt@.cancellation == cancellation,
        final(hub)@.tasks.contains_key(attempt@.id@),
        ({
            let task = final(hub)@.tasks[attempt@.id@];
            &&& task.cancellation == cancellation
            &&& task.snapshot.id == attempt@.id
            &&& task.snapshot.operation_id == operation@.id
            &&& task.snapshot.key == meta@.key
            &&& task.snapshot.kind == meta@.kind
            &&& task.snapshot.summary == meta@.summary
            &&& task.snapshot.cancellable == meta@.cancellable
            &&& task.snapshot.started_at_ms == now
            &&& told(
                old(hub)@,
                final(hub)@,
                seq![RuntimeEventKindView::TaskStarted(task.snapshot)],
                now,
            )
        }),
{
    law_start_of_task_is_told(
        old(hub)@,
        meta@.started(operation@, attempt@.id, false, now),
        cancellation,
        now,
    );
    law_start_of_task_is_told(
        old(hub)@,
        meta@.started(operation@, attempt@.id, true, now),
        cancellation,
        now,
    );
}

/// What a running attempt reports is told of its own task. When it waits no longer
/// nothing is named that it waits for.
pub proof fn law_attempt_speaks_of_its_own_task(
    attempt: TaskAttempt,
    reaching: &mut ObservationHub,
    message: &str,
    reached: (),
    waiting: &mut ObservationHub,
    dependency: &str,
    blocked: (),
    freed: &mut ObservationHub,
    unblocked: (),
    now: u64,
)
    requires
        old(reaching)@.valid() && old(reaching)@.has_room(1),
        old(waiting)@.valid() && old(waiting)@.has_room(1),
        old(freed)@.valid() && old(freed)@.has_room(1),
        call_ensures(TaskAttempt::milestone, (&attempt, reaching, message, now), reached),
        call_ensures(TaskAttempt::blocked_on, (&attempt, waiting, dependency, now), blocked),
        call_ensures(TaskAttempt::unblocked, (&attempt, freed, now), unblocked),
    ensures
        told(
            old(reaching)@,
            final(reaching)@,
            seq![RuntimeEventKindView::TaskMilestone { task: attempt@.id, message: message@ }],
            now,
        ),
        told(
            old(waiting)@,
            final(waiting)@,
            seq![RuntimeEventKindView::TaskBlocked {
                task: attempt@.id,
                dependency: Some(dependency@),
            }],
            now,
        ),
        told(
            old(freed)@,
            final(freed)@,
            seq![RuntimeEventKindView::TaskBlocked { task: attempt@.id, dependency: None }],
            now,
        ),
{
    law_reports_of_task_are_told(old(reaching)@, attempt@.id, 0, message@, None, now);
    law_reports_of_task_are_told(
        old(waiting)@,
        attempt@.id,
        0,
        message@,
        Some(dependency@),
        now,
    );
    law_reports_of_task_are_told(old(freed)@, attempt@.id, 0, message@, None, now);
}

/// An attempt that ends is told with its outcome, and one that is given up as
/// aborted. Its task is active no longer.
pub proof fn law_attempt_ends_its_own_task(
    attempt: TaskAttempt,
    ending: &mut ObservationHub,
    outcome: TaskOutcome,
    ended: (),
    leaving: &mut ObservationHub,
    left: (),
    now: u64,
)
    requires
        old(ending)@.valid() && old(ending)@.has_room(1),
        old(leaving)@.valid() && old(leaving)@.has_room(1),
        old(ending)@.tasks.contains_key(attempt@.id@),
        old(leaving)@.tasks.contains_key(attempt@.id@),
        call_ensures(TaskAttempt::finish, (attempt, ending, outcome, now), ended),
        call_ensures(TaskAttempt::abandon, (attempt, leaving, now), left),
    ensures
        !final(ending)@.tasks.contains_key(attempt@.id@),
        told(
            old(ending)@,
            final(ending)@,
            seq![RuntimeEventKindView::TaskFinished {
                task: old(ending)@.tasks[attempt@.id@].snapshot.id,
                operation: old(ending)@.tasks[attempt@.id@].snapshot.operation_id,
                outcome: outcome@,
            }],
            now,
        ),
        !final(leaving)@.tasks.contains_key(attempt@.id@),
        told(
            old(leaving)@,
            final(leaving)@,
            seq![RuntimeEventKindView::TaskFinished {
                task: old(leaving)@.tasks[attempt@.id@].snapshot.id,
                operation: old(leaving)@.tasks[attempt@.id@].snapshot.operation_id,
                outcome: TaskOutcomeView::Aborted,
            }],
            now,
        ),
{
    law_end_of_task_is_told(old(ending)@, attempt@.id@, outcome@, now);
    law_end_of_task_is_told(old(leaving)@, attempt@.id@, TaskOutcomeView::Aborted, now);
}

/// A transition of an attempt is told with its own task and operation, and a
/// control asks its own task to cancel exactly when that can be cancelled. Only
/// the description that says so makes a task that cannot be.
pub proof fn law_attempt_and_control_name_their_task(
    attempt: TaskAttempt,
    hub: &mut ObservationHub,
    object: &str,
    event: &str,
    from: &str,
    action: &str,
    to: &str,
    moved: (),
    control: TaskControl,
    asking: &mut ObservationHub,
    cause: &str,
    asked: (),
    meta: TaskMeta,
    fixed: TaskMeta,
    now: u64,
)
    requires
        old(hub)@.valid() && old(hub)@.has_room(1),
        old(asking)@.valid() && old(asking)@.has_room(1),
        call_ensures(
            TaskAttempt::transition,
            (&attempt, hub, object, event, from, action, to, now),
            moved,
        ),
        call_ensures(TaskControl::request_cancel, (&control, asking, cause, now), asked),
        call_ensures(TaskMeta::non_cancellable, (meta,), fixed),
    ensures
        told(
            old(hub)@,
            final(hub)@,
            seq![RuntimeEventKindView::StateTransition {
                task: attempt@.id,
                operation: attempt@.operation,
                object: object@,
                event: event@,
                from: from@,
                action: action@,
                to: to@,
            }],
            now,
        ),
        ({
            let granted = old(asking)@.tasks.contains_key(control@@)
                && old(asking)@.tasks[control@@].snapshot.cancellable;
            &&& !granted ==> final(asking)@ == old(asking)@
            &&& granted ==> cancel_requested(old(asking)@.tasks[control@@].cancellation)
            &&& granted ==> told(
                old(asking)@,
                final(asking)@,
                seq![RuntimeEventKindView::TaskCancelRequested {
                    task: control@,
                    cause: cause@,
                }],
                now,
            )
        }),
        !fixed@.cancellable,
        fixed@.key == meta@.key,
        fixed@.kind == meta@.kind,
        fixed@.summary == meta@.summary,
{
    law_history_keeps_the_newest(
        old(hub)@,
        RuntimeEventKindView::StateTransition {
            task: attempt@.id,
            operation: attempt@.operation,
            object: object@,
            event: event@,
            from: from@,
            action: action@,
            to: to@,
        },
        now,
    );
    law_cancellation_is_told(old(asking)@, control@, cause@, now);
}

} // verus!
