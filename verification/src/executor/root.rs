//! The root of a service with managed tasks.
//!
//! The root prefers control commands to finished tasks and those to new
//! requests. It reports its state after every step.
use super::task_set::{HeldTask, StartedTask, TaskSet};
use crate::outside::{channel_made, sent};
use crate::protocol::{CancelReason, CancelReasonView, RuntimeError, TaskExit};
use crate::runtime::ids::{number_after, IdCounter, TaskId};
use crate::runtime::lifecycle::{ServiceActivity, ServiceLifecycle};
use crate::service::client::{Submission, TaskTicket};
use crate::service::control::{RuntimeControl, ShutdownMode};
use crate::task::context::{RequestContext, TaskRecord, TaskSpec};
use crate::task::manager::ServiceKey;
use tokio::sync::oneshot;
use vstd::pervasive::cloned;
use vstd::prelude::*;

verus! {

/// A service as others see it.
#[derive(Debug)]
pub struct ServiceSnapshot<K> {
    pub service: K,
    pub lifecycle: ServiceLifecycle,
    pub activity: ServiceActivity,
    pub queued_requests: usize,
    pub managed_tasks: usize,
}

/// A service that has nothing to do yet.
pub fn lifecycle_snapshot<K>(service: K, lifecycle: ServiceLifecycle) -> (snapshot: ServiceSnapshot<
    K,
>)
    ensures
        snapshot == (ServiceSnapshot {
            service,
            lifecycle,
            activity: ServiceActivity::Idle,
            queued_requests: 0,
            managed_tasks: 0,
        }),
{
    ServiceSnapshot {
        service,
        lifecycle,
        activity: ServiceActivity::Idle,
        queued_requests: 0,
        managed_tasks: 0,
    }
}

/// What the root of a service knows.
pub struct ExecutorView {
    pub lifecycle: ServiceLifecycle,
    pub activity: ServiceActivity,
    pub drain_reply: Option<oneshot::Sender<()>>,
    pub shutdown_reply: Option<oneshot::Sender<()>>,
    pub shutdown_after_drain: bool,
}

impl ExecutorView {
    /// The root after a control command.
    pub open spec fn commanded(self, control: RuntimeControl) -> Self {
        match control {
            RuntimeControl::Pause(_) => ExecutorView {
                lifecycle: if self.lifecycle == ServiceLifecycle::Running {
                    ServiceLifecycle::Paused
                } else {
                    self.lifecycle
                },
                ..self
            },
            RuntimeControl::Resume(_) => ExecutorView {
                lifecycle: if self.lifecycle == ServiceLifecycle::Paused {
                    ServiceLifecycle::Running
                } else {
                    self.lifecycle
                },
                ..self
            },
            RuntimeControl::Drain(reply) => ExecutorView {
                lifecycle: ServiceLifecycle::Draining,
                drain_reply: Some(reply),
                shutdown_after_drain: false,
                ..self
            },
            RuntimeControl::Shutdown(ShutdownMode::Graceful, reply) => ExecutorView {
                lifecycle: ServiceLifecycle::Draining,
                shutdown_reply: Some(reply),
                shutdown_after_drain: true,
                ..self
            },
            RuntimeControl::Shutdown(ShutdownMode::Immediate, reply) => ExecutorView {
                lifecycle: ServiceLifecycle::Stopping,
                shutdown_reply: Some(reply),
                ..self
            },
            RuntimeControl::CancelTask { .. } => self,
        }
    }

    /// Whether a drain is complete.
    pub open spec fn is_drained(self, no_requests: bool, no_tasks: bool) -> bool {
        self.lifecycle == ServiceLifecycle::Draining && no_requests && no_tasks
    }

    /// The root after it looked whether a drain is complete: it stops when a
    /// shutdown waits for that, and pauses otherwise.
    pub open spec fn drained(self, no_requests: bool, no_tasks: bool) -> Self {
        if !self.is_drained(no_requests, no_tasks) {
            self
        } else if self.shutdown_after_drain {
            ExecutorView { lifecycle: ServiceLifecycle::Stopping, ..self }
        } else {
            ExecutorView { lifecycle: ServiceLifecycle::Paused, drain_reply: None, ..self }
        }
    }

    /// The activity of a service with the given work.
    pub open spec fn activity_with(queued: usize, tasks: usize) -> ServiceActivity {
        if queued == 0 && tasks == 0 {
            ServiceActivity::Idle
        } else {
            ServiceActivity::Busy
        }
    }
}

/// Whether whoever waits on a channel, if anyone does, was told that it is done.
pub open spec fn told(reply: Option<oneshot::Sender<()>>) -> bool {
    reply matches Some(reply) ==> sent(reply, ())
}

/// Whether `after` is the task set after cancellation of a task was requested: a
/// running task was asked to cancel, a waiting one was cancelled.
pub open spec fn cancel_applied<K: ServiceKey, F, T, E>(
    before: TaskSet<K, F, T, E>,
    after: TaskSet<K, F, T, E>,
    task: TaskId,
    reason: CancelReason,
) -> bool {
    if before@.running.contains_key(task@) {
        &&& after@ == before@.cancelling(task@, reason@)
        &&& after.waiting() == before.waiting()
        &&& before.told_to_cancel(task@, reason)
    } else if exists|key: Seq<char>| before@.waits_for(task@, key) {
        exists|key: Seq<char>| #[trigger]
            before@.waits_for(task@, key) && {
                &&& after@ == before@.pending_finished(key)
                &&& after.waiting() == before.waiting().remove(key)
                &&& before.told_of_cancel(key, reason)
            }
    } else {
        &&& after@ == before@
        &&& after.waiting() == before.waiting()
    }
}

/// The root of a service with managed tasks.
pub struct ExecutorRoot {
    lifecycle: ServiceLifecycle,
    activity: ServiceActivity,
    drain_reply: Option<oneshot::Sender<()>>,
    shutdown_reply: Option<oneshot::Sender<()>>,
    shutdown_after_drain: bool,
}

impl View for ExecutorRoot {
    type V = ExecutorView;

    closed spec fn view(&self) -> ExecutorView {
        ExecutorView {
            lifecycle: self.lifecycle,
            activity: self.activity,
            drain_reply: self.drain_reply,
            shutdown_reply: self.shutdown_reply,
            shutdown_after_drain: self.shutdown_after_drain,
        }
    }
}

impl ExecutorRoot {
    /// The root of a service that is about to run.
    pub fn new() -> (root: Self)
        ensures
            root@ == (ExecutorView {
                lifecycle: ServiceLifecycle::Initializing,
                activity: ServiceActivity::Idle,
                drain_reply: None,
                shutdown_reply: None,
                shutdown_after_drain: false,
            }),
    {
        ExecutorRoot {
            lifecycle: ServiceLifecycle::Initializing,
            activity: ServiceActivity::Idle,
            drain_reply: None,
            shutdown_reply: None,
            shutdown_after_drain: false,
        }
    }

    /// The stage of the service.
    pub fn lifecycle(&self) -> (lifecycle: ServiceLifecycle)
        ensures
            lifecycle == self@.lifecycle,
    {
        self.lifecycle
    }

    /// Begins to run.
    pub fn run(&mut self)
        ensures
            final(self)@ == (ExecutorView { lifecycle: ServiceLifecycle::Running, ..old(self)@ }),
    {
        self.lifecycle = ServiceLifecycle::Running;
    }

    /// Whether new requests are taken: while the service runs or drains.
    pub fn receives_requests(&self) -> (result: bool)
        ensures
            result == (self@.lifecycle == ServiceLifecycle::Running || self@.lifecycle
                == ServiceLifecycle::Draining),
    {
        match self.lifecycle {
            ServiceLifecycle::Running | ServiceLifecycle::Draining => true,
            _ => false,
        }
    }

    /// Handles a control command. A pause or resume is answered at once whatever
    /// it did; a drain or shutdown is answered when it is complete.
    pub fn handle_control<K: ServiceKey, F, T, E>(
        &mut self,
        control: RuntimeControl,
        tasks: &mut TaskSet<K, F, T, E>,
    ) -> (answer: Option<Result<(), RuntimeError>>)
        requires
            old(tasks).wf(),
        ensures
            final(tasks).wf(),
            final(self)@ == old(self)@.commanded(control),
            match control {
                RuntimeControl::CancelTask { task_id, reason, reply } => {
                    let known = old(tasks)@.running.contains_key(task_id@) || exists|
                        key: Seq<char>,
                    |
                        old(tasks)@.waits_for(task_id@, key);
                    &&& answer == Some(
                        if known {
                            Ok::<(), RuntimeError>(())
                        } else {
                            Err(RuntimeError::TaskNotFound(task_id))
                        },
                    )
                    &&& sent(reply, answer->0)
                    &&& cancel_applied(*old(tasks), *final(tasks), task_id, reason)
                },
                RuntimeControl::Pause(reply) | RuntimeControl::Resume(reply) => {
                    &&& answer == Some(Ok::<(), RuntimeError>(()))
                    &&& sent(reply, ())
                    &&& *final(tasks) == *old(tasks)
                },
                _ => answer is None && *final(tasks) == *old(tasks),
            },
            final(tasks).name() == old(tasks).name(),
    {
        match control {
            RuntimeControl::Pause(reply) => {
                if self.lifecycle == ServiceLifecycle::Running {
                    self.lifecycle = ServiceLifecycle::Paused;
                }
                let _ = reply.send(());
                Some(Ok(()))
            },
            RuntimeControl::Resume(reply) => {
                if self.lifecycle == ServiceLifecycle::Paused {
                    self.lifecycle = ServiceLifecycle::Running;
                }
                let _ = reply.send(());
                Some(Ok(()))
            },
            RuntimeControl::Drain(reply) => {
                self.lifecycle = ServiceLifecycle::Draining;
                self.drain_reply = Some(reply);
                self.shutdown_after_drain = false;
                None
            },
            RuntimeControl::Shutdown(mode, reply) => {
                match mode {
                    ShutdownMode::Graceful => {
                        self.lifecycle = ServiceLifecycle::Draining;
                        self.shutdown_after_drain = true;
                    },
                    ShutdownMode::Immediate => {
                        self.lifecycle = ServiceLifecycle::Stopping;
                    },
                }
                self.shutdown_reply = Some(reply);
                None
            },
            RuntimeControl::CancelTask { task_id, reason, reply } => {
                match tasks.request_cancel(task_id, reason, false) {
                    Ok(_) => {
                        let _ = reply.send(Ok(()));
                        Some(Ok(()))
                    },
                    Err(error) => {
                        let _ = reply.send(Err(error.clone()));
                        Some(Err(error))
                    },
                }
            },
        }
    }

    /// Ends a drain that is complete. Whoever asked for the drain alone learns of
    /// it. The result tells whether anything changed.
    pub fn finish_drain_if_ready(&mut self, no_requests: bool, no_tasks: bool) -> (changed: bool)
        ensures
            changed == old(self)@.is_drained(no_requests, no_tasks),
            final(self)@ == old(self)@.drained(no_requests, no_tasks),
            changed && !old(self)@.shutdown_after_drain ==> told(old(self)@.drain_reply),
    {
        if self.lifecycle != ServiceLifecycle::Draining || !no_requests || !no_tasks {
            return false;
        }
        if self.shutdown_after_drain {
            self.lifecycle = ServiceLifecycle::Stopping;
        } else {
            self.lifecycle = ServiceLifecycle::Paused;
            if let Some(reply) = self.drain_reply.take() {
                let _ = reply.send(());
            }
        }
        true
    }

    /// Begins to stop: every task is cancelled. The result lists the running
    /// tasks, which are aborted by force.
    pub fn begin_stop<K: ServiceKey, F, T, E>(&mut self, tasks: &mut TaskSet<K, F, T, E>) -> (ids:
        Vec<TaskId>)
        requires
            old(tasks).wf(),
        ensures
            final(tasks).wf(),
            final(self)@ == (ExecutorView { lifecycle: ServiceLifecycle::Stopping, ..old(self)@ }),
            ids@.map_values(|id: TaskId| id@) == crate::ordered_map::ordered_keys::<TaskId>(
                old(tasks)@.running.dom(),
            ),
            final(tasks)@ == old(tasks)@.all_pending_finished().all_cancelling(
                crate::ordered_map::ordered_keys::<TaskId>(old(tasks)@.running.dom()),
                CancelReasonView::ServiceStopping,
            ),
            old(tasks).all_told(CancelReason::ServiceStopping),
            final(tasks).waiting() == Map::<Seq<char>, HeldTask<F, T, E>>::empty(),
            final(tasks).name() == old(tasks).name(),
    {
        self.lifecycle = ServiceLifecycle::Stopping;
        tasks.cancel_all(CancelReason::ServiceStopping)
    }

    /// Stops once no task runs. Whoever waits for that is answered after the stop
    /// was reported.
    pub fn finish_stop(&mut self)
        ensures
            final(self)@ == (ExecutorView { lifecycle: ServiceLifecycle::Stopped, ..old(self)@ }),
    {
        self.lifecycle = ServiceLifecycle::Stopped;
    }

    /// Tells whoever waits for a drain or a shutdown that it is complete.
    pub fn answer_stop(&mut self)
        ensures
            final(self)@ == (ExecutorView {
                drain_reply: None,
                shutdown_reply: None,
                ..old(self)@
            }),
            told(old(self)@.drain_reply),
            told(old(self)@.shutdown_reply),
    {
        if let Some(reply) = self.drain_reply.take() {
            let _ = reply.send(());
        }
        if let Some(reply) = self.shutdown_reply.take() {
            let _ = reply.send(());
        }
    }

    /// Reports the state of the service, and the activity where it changed.
    pub fn publish<K: ServiceKey>(
        &mut self,
        service: &K,
        queued_requests: usize,
        managed_tasks: usize,
    ) -> (report: (ServiceSnapshot<K>, Option<ServiceActivity>))
        ensures
            ({
                let activity = ExecutorView::activity_with(queued_requests, managed_tasks);
                &&& final(self)@ == (ExecutorView { activity, ..old(self)@ })
                &&& cloned(*service, report.0.service)
                &&& report.0 == (ServiceSnapshot {
                    service: report.0.service,
                    lifecycle: old(self)@.lifecycle,
                    activity,
                    queued_requests,
                    managed_tasks,
                })
                &&& report.1 == if activity == old(self)@.activity {
                    None
                } else {
                    Some(activity)
                }
            }),
    {
        let activity = if queued_requests == 0 && managed_tasks == 0 {
            ServiceActivity::Idle
        } else {
            ServiceActivity::Busy
        };
        let changed = if activity != self.activity {
            self.activity = activity;
            Some(activity)
        } else {
            None
        };
        let snapshot = ServiceSnapshot {
            service: service.clone(),
            lifecycle: self.lifecycle,
            activity,
            queued_requests,
            managed_tasks,
        };
        (snapshot, changed)
    }
}

/// What a handler made of a request.
pub enum HandleResult<F, T, E> {
    /// A reply at once.
    Reply(Result<T, E>),
    /// A task that carries the request out.
    Task(TaskSpec<F>),
}

/// What the submitter of a request is told, and the task to run now, if any.
#[verifier::reject_recursive_types(T)]
#[verifier::reject_recursive_types(E)]
pub struct RequestOutcome<F, T, E> {
    pub accepted: Result<Submission<T, E>, RuntimeError>,
    pub started: Option<StartedTask<F, T, E>>,
}

/// Carries out what a handler made of a request: a reply creates no task, and a
/// task is submitted to the set.
pub fn handle_request<K: ServiceKey, F, T, E>(
    result: HandleResult<F, T, E>,
    context: RequestContext,
    tasks: &mut TaskSet<K, F, T, E>,
    counter: &mut IdCounter,
) -> (outcome: RequestOutcome<F, T, E>)
    requires
        old(tasks).wf(),
        old(tasks)@.as_manager().is_free(old(counter)@),
    ensures
        final(tasks).wf(),
        match result {
            HandleResult::Reply(reply) => {
                &&& outcome.accepted == Ok::<Submission<T, E>, RuntimeError>(
                    Submission::Reply(reply),
                )
                &&& outcome.started is None
                &&& *final(tasks) == *old(tasks)
                &&& final(counter)@ == old(counter)@
            },
            HandleResult::Task(spec) => match outcome.accepted {
                Ok(submission) => {
                    &&& submission matches Submission::Task(ticket)
                    &&& ticket.id()@ == old(counter)@
                    &&& final(tasks)@ == old(tasks)@.submitted(
                        TaskRecord { id: ticket.id(), meta: spec.meta, request: context },
                        spec.conflict,
                        outcome.started is None,
                    )
                    &&& exists|completion: oneshot::Sender<TaskExit<T, E>>| #[trigger]
                        channel_made(completion, ticket.receiver()) && old(tasks).submission(
                            final(tasks).waiting(),
                            TaskRecord { id: ticket.id(), meta: spec.meta, request: context },
                            spec.conflict,
                            HeldTask { factory: spec.factory, completion },
                            outcome.started,
                        )
                },
                Err(error) => {
                    &&& old(tasks)@.by_key.contains_key(spec.meta.key@)
                    &&& spec.conflict is Reject
                    &&& error == RuntimeError::TaskAlreadyRunning(spec.meta.key)
                    &&& outcome.started is None
                    &&& final(tasks)@ == old(tasks)@
                    &&& final(tasks).waiting() == old(tasks).waiting()
                },
            },
        },
        final(tasks).name() == old(tasks).name(),
        result is Task ==> final(counter)@ == number_after(old(counter)@),
{
    match result {
        HandleResult::Reply(reply) => RequestOutcome {
            accepted: Ok(Submission::Reply(reply)),
            started: None,
        },
        HandleResult::Task(spec) => {
            let (meta, conflict, factory) = spec.into_parts();
            match tasks.submit(meta, conflict, factory, context, counter) {
                Ok(submitted) => RequestOutcome {
                    accepted: Ok(
                        Submission::Task(
                            TaskTicket::new(submitted.task_id, submitted.completion),
                        ),
                    ),
                    started: submitted.started,
                },
                Err(error) => RequestOutcome { accepted: Err(error), started: None },
            }
        },
    }
}

/// A drain alone leaves the service paused, and one for a shutdown stops it, but
/// not before everything accepted has ended.
pub proof fn law_drain_ends_when_all_work_ended(
    root: ExecutorView,
    no_requests: bool,
    no_tasks: bool,
)
    requires
        root.lifecycle == ServiceLifecycle::Draining,
    ensures
        !(no_requests && no_tasks) ==> root.drained(no_requests, no_tasks) == root,
        no_requests && no_tasks ==> root.drained(no_requests, no_tasks).lifecycle == (
        if root.shutdown_after_drain {
            ServiceLifecycle::Stopping
        } else {
            ServiceLifecycle::Paused
        }),
{
}

/// Only a running service is paused and only a paused one resumed; a command that
/// does not apply changes nothing. A drain or a shutdown applies in every stage:
/// a drain and a graceful shutdown wait for the work that was accepted, and an
/// immediate one does not. Whoever asked waits for the end, and only a graceful
/// shutdown stops the service when it is drained.
pub proof fn law_commands_move_the_lifecycle(
    root: ExecutorView,
    replied: oneshot::Sender<()>,
    task_id: TaskId,
    reason: CancelReason,
    reply: oneshot::Sender<Result<(), RuntimeError>>,
)
    ensures
        ({
            let after = root.commanded(RuntimeControl::Pause(replied));
            &&& root.lifecycle is Running ==> after.lifecycle is Paused
            &&& !(root.lifecycle is Running) ==> after.lifecycle == root.lifecycle
            &&& same_waiters(root, after)
        }),
        ({
            let after = root.commanded(RuntimeControl::Resume(replied));
            &&& root.lifecycle is Paused ==> after.lifecycle is Running
            &&& !(root.lifecycle is Paused) ==> after.lifecycle == root.lifecycle
            &&& same_waiters(root, after)
        }),
        ({
            let after = root.commanded(RuntimeControl::Drain(replied));
            &&& after.lifecycle is Draining
            &&& after.drain_reply == Some(replied)
            &&& after.shutdown_reply == root.shutdown_reply
            &&& !after.shutdown_after_drain
            &&& after.activity == root.activity
        }),
        ({
            let after = root.commanded(RuntimeControl::Shutdown(ShutdownMode::Graceful, replied));
            &&& after.lifecycle is Draining
            &&& after.shutdown_reply == Some(replied)
            &&& after.drain_reply == root.drain_reply
            &&& after.shutdown_after_drain
            &&& after.activity == root.activity
        }),
        ({
            let after = root.commanded(RuntimeControl::Shutdown(ShutdownMode::Immediate, replied));
            &&& after.lifecycle is Stopping
            &&& after.shutdown_reply == Some(replied)
            &&& after.drain_reply == root.drain_reply
            &&& after.shutdown_after_drain == root.shutdown_after_drain
            &&& after.activity == root.activity
        }),
        root.commanded((RuntimeControl::CancelTask { task_id, reason, reply })) == root,
{
}

/// Whether two roots have the same to answer at the end, and the same activity.
pub open spec fn same_waiters(before: ExecutorView, after: ExecutorView) -> bool {
    &&& after.drain_reply == before.drain_reply
    &&& after.shutdown_reply == before.shutdown_reply
    &&& after.shutdown_after_drain == before.shutdown_after_drain
    &&& after.activity == before.activity
}

/// A drain is complete exactly when a draining service has neither requests nor
/// tasks. It ends in a stop, with everyone still to be answered, where a shutdown
/// waits for it, and in a pause otherwise, with the drain answered. Until it is
/// complete nothing changes.
pub proof fn law_drain_is_complete_without_work(
    root: ExecutorView,
    no_requests: bool,
    no_tasks: bool,
)
    ensures
        ({
            let complete = root.lifecycle is Draining && no_requests && no_tasks;
            let after = root.drained(no_requests, no_tasks);
            &&& root.is_drained(no_requests, no_tasks) <==> complete
            &&& !complete ==> after == root
            &&& complete && root.shutdown_after_drain ==> after.lifecycle is Stopping
                && same_waiters(root, after)
            &&& complete && !root.shutdown_after_drain ==> {
                &&& after.lifecycle is Paused
                &&& after.drain_reply is None
                &&& after.shutdown_reply == root.shutdown_reply
                &&& !after.shutdown_after_drain
                &&& after.activity == root.activity
            }
        }),
{
}

/// A service is idle exactly when nothing is queued and no task is managed.
pub proof fn law_service_is_idle_without_work(queued: usize, tasks: usize)
    ensures
        ExecutorView::activity_with(queued, tasks) is Idle <==> queued == 0 && tasks == 0,
{
}

/// A task is cancelled where it stands: one that runs keeps running and is seen
/// as cancelling, and one that waits is gone. A task that is neither leaves the
/// set as it was.
pub proof fn law_task_is_cancelled_where_it_stands<K: ServiceKey, F, T, E>(
    before: TaskSet<K, F, T, E>,
    after: TaskSet<K, F, T, E>,
    task: TaskId,
    reason: CancelReason,
    key: Seq<char>,
)
    requires
        before@.valid(),
        cancel_applied(before, after, task, reason),
    ensures
        before@.running.contains_key(task@) ==> {
            &&& after@.running.contains_key(task@)
            &&& after@.running[task@].state is Cancelling
            &&& after@.running[task@].reason is Some
            &&& before.told_to_cancel(task@, reason)
            &&& after@.pending == before@.pending
        },
        before@.pending.contains_key(key) && before@.pending[key].id@ == task@ ==> {
            &&& !after@.pending.contains_key(key)
            &&& before.told_of_cancel(key, reason)
            &&& after@.running == before@.running
        },
        !before@.running.contains_key(task@) && (forall|other: Seq<char>| #[trigger]
            before@.pending.contains_key(other) ==> before@.pending[other].id@ != task@) ==> after@
            == before@,
{
    if before@.pending.contains_key(key) && before@.pending[key].id@ == task@ {
        assert(before@.as_manager().pending.contains_key(key));
        assert(before@.waits_for(task@, key));
        let found = choose|found: Seq<char>| #[trigger]
            before@.waits_for(task@, found) && {
                &&& after@ == before@.pending_finished(found)
                &&& after.waiting() == before.waiting().remove(found)
                &&& before.told_of_cancel(found, reason)
            };
        assert(before@.as_manager().pending.contains_key(found));
        assert(found == key);
    }
    if exists|found: Seq<char>| before@.waits_for(task@, found) {
        let found = choose|found: Seq<char>| before@.waits_for(task@, found);
        assert(before@.pending.contains_key(found));
    }
}

/// A service takes new requests while it runs and while it drains. It reports its
/// own stage and what it has to do, and tells the activity exactly when it
/// changed.
pub proof fn law_report_shows_the_root<K: ServiceKey>(
    root: ExecutorRoot,
    receives: bool,
    reporting: &mut ExecutorRoot,
    service: &K,
    queued_requests: usize,
    managed_tasks: usize,
    report: (ServiceSnapshot<K>, Option<ServiceActivity>),
)
    requires
        call_ensures(ExecutorRoot::receives_requests, (&root,), receives),
        call_ensures(
            ExecutorRoot::publish::<K>,
            (reporting, service, queued_requests, managed_tasks),
            report,
        ),
    ensures
        receives <==> root@.lifecycle is Running || root@.lifecycle is Draining,
        report.0.lifecycle == old(reporting)@.lifecycle,
        report.0.queued_requests == queued_requests,
        report.0.managed_tasks == managed_tasks,
        report.0.activity is Idle <==> queued_requests == 0 && managed_tasks == 0,
        report.1 is Some <==> report.0.activity != old(reporting)@.activity,
        report.1 matches Some(activity) ==> activity == report.0.activity,
        final(reporting)@.activity == report.0.activity,
        final(reporting)@.lifecycle == old(reporting)@.lifecycle,
{
}

/// A pause or resume is answered at once whatever it did, a drain or shutdown when
/// it is complete, and a cancellation at once: with success exactly for a task
/// that is known.
pub proof fn law_commands_are_answered_in_time<K: ServiceKey, F, T, E>(
    root: &mut ExecutorRoot,
    control: RuntimeControl,
    tasks: &mut TaskSet<K, F, T, E>,
    answer: Option<Result<(), RuntimeError>>,
)
    requires
        call_ensures(ExecutorRoot::handle_control::<K, F, T, E>, (root, control, tasks), answer),
    ensures
        answer is None <==> control is Drain || control is Shutdown,
        control is Pause || control is Resume ==> (answer matches Some(Ok(_))),
        control matches RuntimeControl::CancelTask { task_id, .. } ==> {
            &&& old(tasks)@.running.contains_key(task_id@) ==> (answer matches Some(Ok(_)))
            &&& answer matches Some(Err(error)) ==> error == RuntimeError::TaskNotFound(task_id)
        },
        final(root)@ == old(root)@.commanded(control),
        !(control is CancelTask) ==> *final(tasks) == *old(tasks),
{
}

/// A reply makes no task and is passed on as it is. A task is submitted under the
/// next identity, and refused exactly when its key is taken and it does not
/// replace.
pub proof fn law_reply_makes_no_task<K: ServiceKey, F, T, E>(
    result: HandleResult<F, T, E>,
    context: RequestContext,
    tasks: &mut TaskSet<K, F, T, E>,
    counter: &mut IdCounter,
    outcome: RequestOutcome<F, T, E>,
)
    requires
        call_ensures(handle_request::<K, F, T, E>, (result, context, tasks, counter), outcome),
    ensures
        result matches HandleResult::Reply(reply) ==> {
            &&& outcome.accepted == Ok::<Submission<T, E>, RuntimeError>(Submission::Reply(reply))
            &&& outcome.started is None
            &&& *final(tasks) == *old(tasks)
        },
        result matches HandleResult::Task(spec) ==> {
            &&& outcome.accepted is Err <==> old(tasks)@.by_key.contains_key(spec.meta.key@)
                && spec.conflict is Reject
            &&& outcome.accepted matches Ok(submission) ==> (submission matches Submission::Task(
                ticket,
            ) && ticket.id()@ == old(counter)@)
            &&& outcome.accepted matches Err(error) ==> error == RuntimeError::TaskAlreadyRunning(
                spec.meta.key,
            ) && final(tasks)@ == old(tasks)@
        },
{
}

/// A drain that is complete is told to whoever asked for it, unless a shutdown
/// waits for the drain: that is told at the end, with everything else. A stop
/// cancels every task for that reason.
pub proof fn law_end_of_drain_and_stop_are_told<K: ServiceKey, F, T, E>(
    draining: &mut ExecutorRoot,
    no_requests: bool,
    no_tasks: bool,
    changed: bool,
    answering: &mut ExecutorRoot,
    answered: (),
    stopping: &mut ExecutorRoot,
    tasks: &mut TaskSet<K, F, T, E>,
    ids: Vec<TaskId>,
    stopped: &mut ExecutorRoot,
    done: (),
)
    requires
        call_ensures(
            ExecutorRoot::finish_drain_if_ready,
            (draining, no_requests, no_tasks),
            changed,
        ),
        call_ensures(ExecutorRoot::answer_stop, (answering,), answered),
        call_ensures(ExecutorRoot::begin_stop::<K, F, T, E>, (stopping, tasks), ids),
        call_ensures(ExecutorRoot::finish_stop, (stopped,), done),
    ensures
        changed <==> old(draining)@.lifecycle is Draining && no_requests && no_tasks,
        !changed ==> final(draining)@ == old(draining)@,
        changed && old(draining)@.shutdown_after_drain ==> final(draining)@.lifecycle is Stopping,
        changed && !old(draining)@.shutdown_after_drain ==> {
            &&& final(draining)@.lifecycle is Paused
            &&& old(draining)@.drain_reply matches Some(reply) ==> sent(reply, ())
        },
        old(answering)@.drain_reply matches Some(reply) ==> sent(reply, ()),
        old(answering)@.shutdown_reply matches Some(reply) ==> sent(reply, ()),
        final(answering)@.drain_reply is None && final(answering)@.shutdown_reply is None,
        final(stopping)@.lifecycle is Stopping,
        old(tasks).all_told(CancelReason::ServiceStopping),
        final(stopped)@.lifecycle is Stopped,
{
}

/// A root begins without work and runs when told to; what waits for it stays. A
/// service that is only shown by its stage shows no work.
pub proof fn law_root_begins_without_work<K>(
    root: ExecutorRoot,
    running: &mut ExecutorRoot,
    run: (),
    service: K,
    stage: ServiceLifecycle,
    snapshot: ServiceSnapshot<K>,
)
    requires
        call_ensures(ExecutorRoot::new, (), root),
        call_ensures(ExecutorRoot::run, (running,), run),
        call_ensures(lifecycle_snapshot::<K>, (service, stage), snapshot),
    ensures
        root@.lifecycle is Initializing,
        root@.activity is Idle,
        root@.drain_reply is None,
        root@.shutdown_reply is None,
        !root@.shutdown_after_drain,
        final(running)@.lifecycle is Running,
        final(running)@.drain_reply == old(running)@.drain_reply,
        final(running)@.shutdown_reply == old(running)@.shutdown_reply,
        final(running)@.shutdown_after_drain == old(running)@.shutdown_after_drain,
        snapshot.service == service,
        snapshot.lifecycle == stage,
        snapshot.activity is Idle,
        snapshot.queued_requests == 0,
        snapshot.managed_tasks == 0,
{
}

} // verus!
