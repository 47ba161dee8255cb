use pool_control_plane::executor::root::{
    handle_request, lifecycle_snapshot, ExecutorRoot, HandleResult,
};
use pool_control_plane::executor::task_set::{exit_of, TaskSet};
use pool_control_plane::protocol::{
    CallError, CancelReason, RuntimeError, TaskExit, TaskKey, TraceContext,
};
use pool_control_plane::router::Router;
use pool_control_plane::runtime::ids::{IdCounter, RequestId, TaskId};
use pool_control_plane::runtime::lifecycle::{ServiceActivity, ServiceLifecycle};
use pool_control_plane::service::client::{
    check_available, reply_result, root_request, task_result, Submission, TaskTicket,
};
use pool_control_plane::service::control::{
    cancel_completed, completed, not_sent, RuntimeControl, ShutdownMode,
};
use pool_control_plane::task::context::{
    cancellation_reason, ConflictPolicy, RequestContext, TaskContext, TaskMeta, TaskSpec,
    TaskState, TaskVisibility,
};
use pool_control_plane::task::manager::{
    terminal_state, Acquisition, HandlerOutcome, ServiceTaskManager,
};
use tokio::sync::oneshot;

struct Ids {
    operations: IdCounter,
    requests: IdCounter,
    tasks: IdCounter,
}

fn ids() -> Ids {
    Ids { operations: IdCounter::new(), requests: IdCounter::new(), tasks: IdCounter::new() }
}

impl Ids {
    fn request(&mut self) -> RequestContext {
        root_request(&mut self.operations, &mut self.requests)
    }
}

fn meta(key: &str) -> TaskMeta {
    TaskMeta::new(TaskKey::new(key), "test work")
}

fn ready(result: Result<Acquisition, RuntimeError>) -> TaskContext {
    match result {
        Ok(Acquisition::Ready(context)) => context,
        _ => panic!("the key is free"),
    }
}

fn waiting(
    result: Result<Acquisition, RuntimeError>,
) -> oneshot::Receiver<Result<TaskContext, RuntimeError>> {
    match result {
        Ok(Acquisition::Waiting(receiver)) => receiver,
        _ => panic!("the key is taken"),
    }
}

fn lost<T>() -> Result<T, oneshot::error::RecvError> {
    let (sender, receiver) = oneshot::channel::<T>();
    drop(sender);
    tokio::runtime::Builder::new_current_thread().build().unwrap().block_on(receiver)
}

#[test]
fn a_task_runs_at_once_on_a_free_key() {
    let mut ids = ids();
    let mut manager = ServiceTaskManager::new("test");
    let request = ids.request();
    assert!(manager.is_free_for(&ids.tasks));
    let policy = ConflictPolicy::Reject;
    let task = ready(manager.create_new_task(&request, meta("work"), policy, &mut ids.tasks));
    assert_eq!(manager.len(), 1);
    assert_eq!(manager.task_for_request(request.request_id), Some(task.task_id()));
    let snapshots = manager.snapshots();
    assert_eq!(snapshots.len(), 1);
    assert!(snapshots[0].state == TaskState::Running);
    assert!(snapshots[0].visibility == TaskVisibility::Internal);
    assert_eq!(snapshots[0].label, "test work");
    assert!(!task.is_cancelled());

    let refused = manager.create_new_task(
        &ids.request(),
        meta("work"),
        ConflictPolicy::Reject,
        &mut ids.tasks,
    );
    match refused {
        Err(error) => assert_eq!(error.to_string(), "task already running: work"),
        Ok(_) => panic!("the key is taken"),
    }
}

#[test]
fn replacement_stays_queued_until_the_old_task_is_gracefully_cancelled() {
    let mut ids = ids();
    let mut manager = ServiceTaskManager::new("test");
    let first = ids.request();
    let offline = ready(manager.create_new_task(
        &first,
        meta("disk/disk-1").public(),
        ConflictPolicy::Reject,
        &mut ids.tasks,
    ));
    let second = ids.request();
    let by = TaskKey::new("disk/disk-1");
    let mut fault = waiting(manager.create_new_task(
        &second,
        meta("disk/disk-1").public(),
        ConflictPolicy::Replace(CancelReason::Preempted { by }),
        &mut ids.tasks,
    ));
    let snapshots = manager.snapshots();
    assert!(snapshots.iter().any(|task| task.state == TaskState::Cancelling));
    assert!(snapshots.iter().any(|task| task.state == TaskState::Queued));
    assert!(offline.is_cancelled());
    assert!(fault.try_recv().is_err());

    let end = manager.finish_request(first.request_id, HandlerOutcome::Failed);
    assert!(matches!(end.cancellation, Some(CancelReason::Preempted { .. })));
    let promoted = Acquisition::acquired(Ok(fault.try_recv().unwrap())).ok().unwrap();
    assert!(!promoted.is_cancelled());
    assert!(manager.snapshots()[0].state == TaskState::Running);
    let end = manager.finish_request(second.request_id, HandlerOutcome::Completed);
    assert!(end.cancellation.is_none());
    assert!(manager.is_empty());

    let states: Vec<TaskState> = manager.take_events().iter().map(|event| event.state).collect();
    assert_eq!(
        states,
        [
            TaskState::Running,
            TaskState::Cancelling,
            TaskState::Queued,
            TaskState::Cancelled,
            TaskState::Running,
            TaskState::Completed,
        ]
    );
    assert!(manager.take_events().is_empty());
}

#[test]
fn a_newer_replacement_takes_the_place_of_a_waiting_one() {
    let mut ids = ids();
    let mut manager = ServiceTaskManager::new("test");
    let first = ids.request();
    let _running = ready(manager.create_new_task(
        &first,
        meta("work"),
        ConflictPolicy::Reject,
        &mut ids.tasks,
    ));
    let replace = || ConflictPolicy::Replace(CancelReason::requested("newer"));
    let second = ids.request();
    let mut older =
        waiting(manager.create_new_task(&second, meta("work"), replace(), &mut ids.tasks));
    let third = ids.request();
    let mut newer =
        waiting(manager.create_new_task(&third, meta("work"), replace(), &mut ids.tasks));
    match older.try_recv().unwrap() {
        Err(RuntimeError::TaskCancelled(CancelReason::Requested(cause))) => {
            assert_eq!(cause, "replaced while waiting for task slot");
        }
        _ => panic!("the older one never runs"),
    }
    manager.finish_request(first.request_id, HandlerOutcome::Completed);
    assert!(newer.try_recv().unwrap().is_ok());
}

#[test]
fn cancelling_reaches_running_and_waiting_tasks_only() {
    let mut ids = ids();
    let mut manager = ServiceTaskManager::new("test");
    let first = ids.request();
    let running = ready(manager.create_new_task(
        &first,
        meta("work"),
        ConflictPolicy::Reject,
        &mut ids.tasks,
    ));
    assert!(manager.cancel(running.task_id(), CancelReason::requested("one")).is_ok());
    assert!(manager.cancel(running.task_id(), CancelReason::requested("two")).is_ok());
    let (reason, _) = manager.cancellation_for_request(first.request_id);
    assert!(matches!(reason, Some(CancelReason::Requested(cause)) if cause == "one"));
    manager.finish_request(first.request_id, HandlerOutcome::Completed);
    match manager.cancel(running.task_id(), CancelReason::requested("late")) {
        Err(error) => assert!(matches!(error, RuntimeError::TaskNotFound(_))),
        Ok(()) => panic!("the task has ended"),
    }
}

#[test]
fn an_abort_leaves_no_task() {
    let mut ids = ids();
    let mut manager = ServiceTaskManager::new("test");
    let first = ids.request();
    let running = ready(manager.create_new_task(
        &first,
        meta("work"),
        ConflictPolicy::Reject,
        &mut ids.tasks,
    ));
    let second = ids.request();
    let mut pending = waiting(manager.create_new_task(
        &second,
        meta("work"),
        ConflictPolicy::Replace(CancelReason::ServiceStopping),
        &mut ids.tasks,
    ));
    manager.take_events();
    manager.abort_all();
    let told: Vec<TaskState> = manager.take_events().iter().map(|task| task.state).collect();
    assert_eq!(told, [TaskState::Aborted, TaskState::Aborted]);
    assert!(manager.is_empty());
    assert!(manager.snapshots().is_empty());
    assert!(running.is_cancelled());
    assert!(!matches!(pending.try_recv(), Ok(Ok(_))));
}

#[test]
fn a_lost_acquisition_is_a_closed_channel() {
    match Acquisition::acquired(lost()) {
        Err(error) => assert_eq!(error.to_string(), "channel closed: task acquisition"),
        Ok(_) => panic!("nothing was received"),
    }
}

#[test]
fn the_outcome_of_a_handler_names_the_end_of_its_task() {
    let reason = CancelReason::ServiceStopping;
    assert_eq!(terminal_state(HandlerOutcome::Completed, None), TaskState::Completed);
    assert_eq!(terminal_state(HandlerOutcome::Failed, None), TaskState::Failed);
    assert_eq!(terminal_state(HandlerOutcome::Aborted, None), TaskState::Aborted);
    assert_eq!(terminal_state(HandlerOutcome::Aborted, Some(&reason)), TaskState::Cancelled);
    assert_eq!(terminal_state(HandlerOutcome::Completed, Some(&reason)), TaskState::Cancelled);
    assert!(matches!(cancellation_reason(&None, true), Some(CancelReason::ParentCancelled)));
    assert!(cancellation_reason(&None, false).is_none());
}

type Tasks = TaskSet<&'static str, u32, u64, ()>;

#[test]
fn a_task_set_runs_one_task_per_key() {
    let mut ids = ids();
    let mut tasks: Tasks = TaskSet::new("test");
    let request = ids.request();
    let policy = ConflictPolicy::Reject;
    let mut first =
        tasks.submit(meta("work"), policy, 1, request.clone(), &mut ids.tasks).ok().unwrap();
    let started = first.started.take().unwrap();
    assert_eq!(started.factory, 1);
    assert_eq!(started.context.task_id(), first.task_id);
    assert!(tasks.has_running());
    match tasks.submit(meta("work"), ConflictPolicy::Reject, 2, request.clone(), &mut ids.tasks) {
        Err(error) => assert!(matches!(error, RuntimeError::TaskAlreadyRunning(_))),
        Ok(_) => panic!("the key is taken"),
    }

    let replace = ConflictPolicy::Replace(CancelReason::requested("newer"));
    let mut second =
        tasks.submit(meta("work"), replace, 3, request.clone(), &mut ids.tasks).ok().unwrap();
    assert!(second.started.is_none());
    assert_eq!(tasks.len(), 2);
    assert!(matches!(
        started.context.cancellation_reason(),
        Some(CancelReason::Requested(cause)) if cause == "newer"
    ));
    assert!(matches!(
        tasks.recorded_reason(first.task_id),
        Some(CancelReason::Requested(cause)) if cause == "newer"
    ));
    let exit: TaskExit<u64, ()> = exit_of(
        Some(Ok(7)),
        true,
        &tasks.recorded_reason(first.task_id),
    );
    assert!(matches!(exit, TaskExit::Cancelled(_)));
    assert!(tasks.is_running(first.task_id));
    // The scope of the request was cancelled with the task, so its successor ends
    // before it runs, for the reason that the scope gives.
    let next = tasks.finish(first.task_id, exit, started.completion);
    assert!(matches!(first.completion.try_recv(), Ok(TaskExit::Cancelled(_))));
    assert!(next.is_none());
    assert!(!tasks.has_running());
    assert!(matches!(
        second.completion.try_recv(),
        Ok(TaskExit::Cancelled(CancelReason::Requested(cause))) if cause == "newer"
    ));
}

#[test]
fn the_first_reason_of_a_scope_counts_for_everyone_who_shares_it() {
    let mut ids = ids();
    let request = ids.request();
    let shared = request.clone();
    assert!(request.reason.get().is_none());
    shared.reason.record(CancelReason::requested("first"));
    request.reason.record(CancelReason::requested("second"));
    assert!(matches!(
        request.reason.get(),
        Some(CancelReason::Requested(cause)) if cause == "first"
    ));

    // A task of a cancelled scope is refused for the reason of the scope.
    request.cancellation.cancel();
    let mut tasks: Tasks = TaskSet::new("test");
    let mut refused =
        tasks.submit(meta("work"), ConflictPolicy::Reject, 1, request, &mut ids.tasks).ok().unwrap();
    assert!(refused.started.is_none() && tasks.is_empty());
    assert!(matches!(
        refused.completion.try_recv(),
        Ok(TaskExit::Cancelled(CancelReason::Requested(cause))) if cause == "first"
    ));

    // One without a reason of its own was cancelled with its parent.
    let request = ids.request();
    request.cancellation.cancel();
    let mut refused =
        tasks.submit(meta("work"), ConflictPolicy::Reject, 1, request, &mut ids.tasks).ok().unwrap();
    assert!(matches!(
        refused.completion.try_recv(),
        Ok(TaskExit::Cancelled(CancelReason::ParentCancelled))
    ));
}

#[test]
fn the_key_of_a_finished_task_passes_to_the_waiting_one() {
    let mut ids = ids();
    let mut tasks: Tasks = TaskSet::new("test");
    let first_request = ids.request();
    let mut first = tasks
        .submit(meta("work"), ConflictPolicy::Reject, 1, first_request, &mut ids.tasks)
        .ok()
        .unwrap();
    let started = first.started.take().unwrap();
    let second_request = ids.request();
    let replace = ConflictPolicy::Replace(CancelReason::requested("newer"));
    let second =
        tasks.submit(meta("work"), replace, 2, second_request, &mut ids.tasks).ok().unwrap();
    let next = tasks
        .finish(first.task_id, TaskExit::Completed(7), started.completion)
        .expect("the waiting task runs");
    assert_eq!(next.factory, 2);
    assert_eq!(next.context.task_id(), second.task_id);
    assert!(matches!(first.completion.try_recv(), Ok(TaskExit::Completed(7))));
    assert_eq!(tasks.len(), 1);
    assert!(tasks.finish(second.task_id, TaskExit::Aborted, next.completion).is_none());
    assert!(tasks.is_empty());
}

#[test]
fn a_waiting_task_can_be_cancelled_before_it_runs() {
    let mut ids = ids();
    let mut tasks: Tasks = TaskSet::new("test");
    let request = ids.request();
    let first = tasks
        .submit(meta("work"), ConflictPolicy::Reject, 1, request, &mut ids.tasks)
        .ok()
        .unwrap();
    let replace = ConflictPolicy::Replace(CancelReason::requested("newer"));
    let request = ids.request();
    let mut second = tasks.submit(meta("work"), replace, 2, request, &mut ids.tasks).ok().unwrap();
    assert!(matches!(
        tasks.request_cancel(second.task_id, CancelReason::requested("enough"), true),
        Ok(false)
    ));
    assert!(matches!(
        second.completion.try_recv(),
        Ok(TaskExit::Cancelled(CancelReason::Requested(cause))) if cause == "enough"
    ));
    assert!(matches!(
        tasks.request_cancel(first.task_id, CancelReason::requested("force"), true),
        Ok(true)
    ));
    let unknown = TaskId::next(&mut ids.tasks);
    assert!(matches!(
        tasks.request_cancel(unknown, CancelReason::requested("none"), false),
        Err(RuntimeError::TaskNotFound(_))
    ));
    assert_eq!(tasks.cancel_all(CancelReason::ServiceStopping), [first.task_id]);
}

#[test]
fn handler_future_can_optionally_create_a_managed_task() {
    let mut ids = ids();
    let mut tasks: Tasks = TaskSet::new("test");
    let reply: HandleResult<u32, u64, ()> = HandleResult::Reply(Ok(7));
    let request = ids.request();
    let outcome = handle_request(reply, request, &mut tasks, &mut ids.tasks);
    assert!(matches!(outcome.accepted, Ok(Submission::Reply(Ok(7)))));
    assert!(outcome.started.is_none());
    assert!(tasks.take_events().is_empty());
    assert!(tasks.snapshots().is_empty());

    let work: HandleResult<u32, u64, ()> = HandleResult::Task(TaskSpec::new(meta("work"), 5));
    let request = ids.request();
    let outcome = handle_request(work, request, &mut tasks, &mut ids.tasks);
    let ticket: TaskTicket<u64, ()> = match outcome.accepted {
        Ok(Submission::Task(ticket)) => ticket,
        _ => panic!("work must create a managed task"),
    };
    let started = outcome.started.unwrap();
    let mut root = ExecutorRoot::new();
    root.run();
    let (reply, mut answer) = oneshot::channel();
    let cancel = RuntimeControl::CancelTask {
        task_id: ticket.task_id(),
        reason: CancelReason::requested("test"),
        reply,
    };
    assert!(matches!(root.handle_control(cancel, &mut tasks), Some(Ok(()))));
    assert!(matches!(cancel_completed(Ok(answer.try_recv().unwrap())), Ok(())));
    assert!(started.context.is_cancelled());
    let exit = exit_of(Some(Ok(7)), true, &tasks.recorded_reason(ticket.task_id()));
    assert!(tasks.finish(ticket.task_id(), exit, started.completion).is_none());
    let (_, mut completion) = ticket.into_parts();
    let exit = TaskTicket::wait(Ok(completion.try_recv().unwrap()));
    assert!(matches!(exit, Ok(TaskExit::Cancelled(_))));
    assert!(tasks.snapshots().is_empty());
}

#[test]
fn lifecycle_control_rejects_new_requests_while_paused() {
    let mut tasks: Tasks = TaskSet::new("test");
    let mut root = ExecutorRoot::new();
    root.run();
    let (reply, mut paused) = oneshot::channel();
    root.handle_control(RuntimeControl::Pause(reply), &mut tasks);
    assert!(completed(Ok(paused.try_recv().unwrap())).is_ok());
    let (snapshot, _) = root.publish(&"test", 0, 0);
    assert_eq!(snapshot.lifecycle, ServiceLifecycle::Paused);
    assert!(!root.receives_requests());
    assert!(check_available("test", root.lifecycle()).is_err());

    let (reply, mut resumed) = oneshot::channel();
    root.handle_control(RuntimeControl::Resume(reply), &mut tasks);
    assert!(resumed.try_recv().is_ok());
    assert!(check_available("test", root.lifecycle()).is_ok());

    let (reply, mut drained) = oneshot::channel();
    assert!(root.handle_control(RuntimeControl::Drain(reply), &mut tasks).is_none());
    assert!(root.receives_requests());
    assert!(!root.finish_drain_if_ready(false, tasks.is_empty()));
    assert!(drained.try_recv().is_err());
    assert!(root.finish_drain_if_ready(true, tasks.is_empty()));
    assert!(drained.try_recv().is_ok());
    assert_eq!(root.lifecycle(), ServiceLifecycle::Paused);

    let (reply, mut stopped) = oneshot::channel();
    let shutdown = RuntimeControl::Shutdown(ShutdownMode::Immediate, reply);
    assert!(root.handle_control(shutdown, &mut tasks).is_none());
    assert_eq!(root.lifecycle(), ServiceLifecycle::Stopping);
    assert!(root.begin_stop(&mut tasks).is_empty());
    root.finish_stop();
    assert_eq!(root.lifecycle(), ServiceLifecycle::Stopped);
    assert!(stopped.try_recv().is_err());
    root.answer_stop();
    assert!(stopped.try_recv().is_ok());
}

#[test]
fn a_graceful_shutdown_waits_for_the_drain() {
    let mut tasks: Tasks = TaskSet::new("test");
    let mut root = ExecutorRoot::new();
    root.run();
    let (reply, mut stopped) = oneshot::channel();
    root.handle_control(RuntimeControl::Shutdown(ShutdownMode::Graceful, reply), &mut tasks);
    assert_eq!(root.lifecycle(), ServiceLifecycle::Draining);
    assert!(root.finish_drain_if_ready(true, true));
    assert_eq!(root.lifecycle(), ServiceLifecycle::Stopping);
    assert!(stopped.try_recv().is_err());
    root.finish_stop();
    root.answer_stop();
    assert!(stopped.try_recv().is_ok());
}

#[test]
fn activity_is_reported_where_it_changes() {
    let mut root = ExecutorRoot::new();
    let (snapshot, edge) = root.publish(&"test", 1, 0);
    assert_eq!(snapshot.activity, ServiceActivity::Busy);
    assert_eq!(snapshot.queued_requests, 1);
    assert_eq!(edge, Some(ServiceActivity::Busy));
    assert_eq!(root.publish(&"test", 0, 2).1, None);
    assert_eq!(root.publish(&"test", 0, 0).1, Some(ServiceActivity::Idle));
    let fresh = lifecycle_snapshot("test", ServiceLifecycle::Initializing);
    assert_eq!(fresh.lifecycle, ServiceLifecycle::Initializing);
    assert_eq!(fresh.managed_tasks, 0);
}

#[test]
fn calls_tell_runtime_and_domain_errors_apart() {
    assert!(matches!(reply_result::<u64, &str>(Ok(7)), Ok(7)));
    assert!(matches!(reply_result::<u64, &str>(Err("no")), Err(CallError::Service("no"))));
    assert!(matches!(task_result::<u64, &str>(Ok(TaskExit::Completed(7))), Ok(7)));
    assert!(matches!(
        task_result::<u64, &str>(Ok(TaskExit::Failed("no"))),
        Err(CallError::Service("no"))
    ));
    assert!(matches!(
        task_result::<u64, &str>(Ok(TaskExit::Cancelled(CancelReason::NoLongerNeeded))),
        Err(CallError::Cancelled(CancelReason::NoLongerNeeded))
    ));
    assert!(matches!(
        task_result::<u64, &str>(Ok(TaskExit::Aborted)),
        Err(CallError::Aborted)
    ));
    let dropped = TaskTicket::<u64, &str>::wait(lost());
    assert!(matches!(
        task_result(dropped),
        Err(CallError::Runtime(RuntimeError::ResponseDropped))
    ));
    assert!(matches!(completed(lost()), Err(RuntimeError::ResponseDropped)));
    assert!(matches!(cancel_completed(lost()), Err(RuntimeError::ResponseDropped)));
    assert_eq!(not_sent("test").to_string(), "channel closed: test");
    match check_available("disk", ServiceLifecycle::Draining) {
        Err(error) => assert_eq!(error.to_string(), "service unavailable: disk is Draining"),
        Ok(()) => panic!("a draining service takes no calls"),
    }
}

#[test]
fn a_call_chain_keeps_its_operation_and_names_its_parent() {
    let mut ids = ids();
    let request = ids.request();
    assert_eq!(request.trace, TraceContext::root(request.operation_id.get() as u128));
    let task = TaskContext::new(TaskId::next(&mut ids.tasks), TaskKey::new("work"), request);
    let child = task.child_request(RequestId::next(&mut ids.requests));
    assert_eq!(child.operation_id, task.operation_id());
    assert_eq!(child.trace.parent_task, Some(task.task_id()));
    assert_eq!(child.trace.trace_id, task.trace().trace_id);
    assert_eq!(task.key().as_str(), "work");
    task.request.cancellation.cancel();
    assert!(child.cancellation.is_cancelled());
}

#[test]
fn a_router_knows_the_services_that_were_registered() {
    let mut router: Router<u64, &str> = Router::new();
    router.register(1, "first");
    router.register(1, "second");
    assert!(matches!(router.route(&1, "one"), Ok("second")));
    match router.route(&2, "two") {
        Err(error) => assert_eq!(error.to_string(), "service not found: two"),
        Ok(_) => panic!("the service is unknown"),
    }
}
