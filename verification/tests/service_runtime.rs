use pool_control_plane::runtime::hub::{ObservationHub, TaskRegistration};
use pool_control_plane::runtime::lifecycle::ControlError;
use pool_control_plane::runtime::observation::{now_ms, RuntimeEvent};
use pool_control_plane::runtime::service::{
    control_result, enqueue, panic_message, reject_remaining, root_panicked, CallError,
    ControlCommand, ControlRequest, Reception, RequestContext, RootOwner, RootStep, ServiceConfig,
    ServiceRoot, Startup,
};
use pool_control_plane::runtime::{
    IdCounter, OperationContext, OperationSpec, RuntimeEventKind, RuntimeEventSink,
    ServiceActivity, ServiceLifecycle, ServiceUnavailable, TaskAttempt, TaskMeta, TaskOutcome,
    TaskState, TraceContext,
};
use std::cell::RefCell;
use tokio::sync::oneshot;
use tokio_util::sync::CancellationToken;

type ControlAnswer = oneshot::Receiver<Result<(), ControlError>>;

struct Probe {
    root: ServiceRoot,
    hub: ObservationHub,
    counter: IdCounter,
    queue: Vec<OperationContext>,
    activity: Vec<ServiceActivity>,
}

fn probe_with(max_in_flight: usize) -> Probe {
    let mut config = ServiceConfig::new("probe-service", "probe");
    config.max_in_flight_requests = max_in_flight;
    assert_eq!(config.problem(), None);
    Probe {
        root: ServiceRoot::new(&config),
        hub: ObservationHub::new("probe-service", "probe", config.event_history),
        counter: IdCounter::new(),
        queue: Vec::new(),
        activity: Vec::new(),
    }
}

fn running_probe() -> Probe {
    let mut probe = probe_with(4);
    probe.initialize();
    probe
}

impl Probe {
    fn initialize(&mut self) {
        assert_eq!(self.root.initialization_finished(Ok(()), &mut self.hub, 1), Startup::Serve);
    }

    fn query(&mut self) -> OperationContext {
        OperationContext::transient(&mut self.counter)
    }

    fn work(&mut self) -> OperationContext {
        let spec = OperationSpec::new("probe", "work", "object/1", "controlled test work")
            .with_trace(TraceContext::new("probe-trace"));
        OperationContext::root(&mut self.counter, spec)
    }

    fn send(&mut self, operation: OperationContext) -> Result<(), ServiceUnavailable> {
        let result = enqueue(&operation, &mut self.hub, 2);
        if result.is_ok() {
            self.queue.push(operation);
        }
        result
    }

    /// Takes the oldest message from the queue, where the root wants one.
    fn poll(&mut self) -> Option<Result<RequestContext, ServiceUnavailable>> {
        match self.root.next_step() {
            RootStep::Wait { business: true, .. } if !self.queue.is_empty() => {}
            _ => return None,
        }
        let operation = self.queue.remove(0);
        match self.root.receive(Some(&operation), &mut self.counter, &mut self.hub, 3) {
            Reception::Accepted { context, activity } => {
                self.activity.extend(activity);
                Some(Ok(context))
            }
            Reception::Rejected(reason) => Some(Err(reason)),
            Reception::ClientsGone => panic!("a message came"),
        }
    }

    fn accept(&mut self, operation: OperationContext) -> RequestContext {
        self.send(operation).unwrap();
        self.poll().unwrap().unwrap()
    }

    fn finish(&mut self, context: &RequestContext, error: Option<&str>) {
        let error = error.map(|text| text.to_string());
        let edge = self.root.request_finished(context.request_id(), error, &mut self.hub, 4);
        self.activity.extend(edge);
    }

    fn start_work(&mut self, context: &RequestContext) -> TaskAttempt {
        let token = context.cancellation().child_token();
        let meta = TaskMeta::new("object/1", "probe-work", "controlled probe task");
        let task = context.start_task(&mut self.hub, &mut self.counter, meta, token, 5);
        task.progress(&mut self.hub, 10, 5);
        task.milestone(&mut self.hub, "waiting for test release", 5);
        task.blocked_on(&mut self.hub, "test gate", 5);
        task
    }

    fn control(&mut self, request: ControlRequest) -> (Option<Result<(), ControlError>>, ControlAnswer) {
        let (reply, answer) = oneshot::channel();
        let sent = self.root.handle_control(ControlCommand { request, reply }, &mut self.hub, 6);
        (sent, answer)
    }

    fn ordered(&mut self, request: ControlRequest) -> Result<(), ControlError> {
        let (sent, mut answer) = self.control(request);
        let received = answer.try_recv().unwrap();
        assert_eq!(sent, Some(received));
        control_result(Ok(received))
    }

    fn shut_down(&mut self) {
        assert_eq!(self.root.next_step(), RootStep::Shutdown);
        self.root.shutdown_finished(Ok(()), &mut self.hub, 7);
        assert_eq!(self.root.answer_waiters(), Ok(()));
        while !self.queue.is_empty() {
            let operation = self.queue.remove(0);
            let reason = ServiceUnavailable::from(self.root.stage());
            reject_remaining(operation.id(), reason, &mut self.hub, 7);
        }
    }
}

#[test]
fn initialization_and_running_are_observable() {
    let mut probe = probe_with(4);
    assert_eq!(probe.hub.snapshot().lifecycle, ServiceLifecycle::Initializing);
    probe.initialize();
    assert_eq!(probe.hub.snapshot().lifecycle, ServiceLifecycle::Running);
    let query = probe.query();
    let context = probe.accept(query);
    probe.finish(&context, None);

    let (sent, mut drained) = probe.control(ControlRequest::Drain);
    assert_eq!(sent, None);
    probe.shut_down();
    assert_eq!(drained.try_recv().unwrap(), Ok(()));
}

#[test]
fn requests_wait_for_initialization_and_stop_can_cancel_initialization() {
    let mut probe = probe_with(4);
    let query = probe.query();
    probe.send(query).unwrap();
    assert_eq!(probe.hub.snapshot().queued_requests, 1);

    let (sent, mut stopped) = probe.control(ControlRequest::Stop);
    assert_eq!(sent, None);
    assert!(probe.root.cancellation().is_cancelled());
    let result = Err("Cancelled".to_string());
    probe.root.initialization_finished(result, &mut probe.hub, 3);
    probe.shut_down();
    assert_eq!(stopped.try_recv().unwrap(), Ok(()));
    let snapshot = probe.hub.snapshot();
    assert_eq!(snapshot.lifecycle, ServiceLifecycle::Stopped);
    assert_eq!(snapshot.queued_requests, 0);
    assert_eq!(snapshot.rejected_requests, 1);
}

#[test]
fn pause_rejects_new_business_and_resume_reopens_admission() {
    let mut probe = running_probe();
    probe.ordered(ControlRequest::Pause).unwrap();
    let query = probe.query();
    assert_eq!(probe.send(query), Err(ServiceUnavailable::Paused));
    assert_eq!(probe.hub.snapshot().rejected_requests, 1);

    probe.ordered(ControlRequest::Resume).unwrap();
    let query = probe.query();
    let context = probe.accept(query);
    probe.finish(&context, None);
    assert_eq!(probe.hub.snapshot().completed_requests, 1);
}

#[test]
fn control_preempts_a_full_business_window_and_queue_depth_is_observable() {
    let mut probe = probe_with(1);
    probe.initialize();
    let first = probe.work();
    let first = probe.accept(first);
    let second = probe.work();
    probe.send(second).unwrap();
    assert_eq!(probe.hub.snapshot().queued_requests, 1);
    assert_eq!(probe.root.next_step(), RootStep::Wait { business: false, requests: true });
    assert!(probe.poll().is_none());

    probe.ordered(ControlRequest::Pause).unwrap();
    assert_eq!(probe.hub.snapshot().lifecycle, ServiceLifecycle::Paused);

    probe.finish(&first, None);
    match probe.poll() {
        Some(Err(reason)) => assert_eq!(reason, ServiceUnavailable::Paused),
        _ => panic!("a paused service turns requests away"),
    }
    assert_eq!(probe.hub.snapshot().queued_requests, 0);
    assert_eq!(probe.hub.snapshot().accepted_requests, 1);
    assert_eq!(probe.hub.snapshot().rejected_requests, 1);
    probe.ordered(ControlRequest::Resume).unwrap();
}

#[test]
fn drain_waits_for_accepted_work_but_rejects_new_work() {
    let mut probe = running_probe();
    let work = probe.work();
    let context = probe.accept(work);
    let task = probe.start_work(&context);
    assert_eq!(probe.hub.snapshot().activity, ServiceActivity::Busy);
    assert_eq!(probe.hub.snapshot().active_tasks.len(), 1);

    let (sent, mut drained) = probe.control(ControlRequest::Drain);
    assert_eq!(sent, None);
    assert_eq!(probe.hub.snapshot().lifecycle, ServiceLifecycle::Draining);
    let query = probe.query();
    assert_eq!(probe.send(query), Err(ServiceUnavailable::Draining));
    assert!(drained.try_recv().is_err());
    assert!(!task.cancellation().is_cancelled());
    assert!(matches!(probe.root.next_step(), RootStep::Wait { requests: true, .. }));

    task.finish(&mut probe.hub, TaskOutcome::Completed, 6);
    probe.finish(&context, None);
    probe.shut_down();
    assert_eq!(drained.try_recv().unwrap(), Ok(()));
    let snapshot = probe.hub.snapshot();
    assert_eq!(snapshot.lifecycle, ServiceLifecycle::Stopped);
    assert_eq!(snapshot.activity, ServiceActivity::Idle);
    assert_eq!(snapshot.in_flight_requests, 0);
    assert!(snapshot.active_tasks.is_empty());
}

#[test]
fn stop_and_precise_task_cancel_are_cooperative_and_audited() {
    let mut probe = running_probe();
    let work = probe.work();
    let context = probe.accept(work);
    let attempt = probe.start_work(&context);
    let snapshot = probe.hub.snapshot().active_tasks.remove(0);
    let task = snapshot.id;
    assert_eq!(snapshot.trace_id, "probe-trace");
    assert_eq!(snapshot.progress, Some(10));
    assert_eq!(snapshot.milestone.as_deref(), Some("waiting for test release"));
    assert_eq!(snapshot.blocked_on.as_deref(), Some("test gate"));
    let cause = "operator cancelled probe".to_string();
    probe.ordered(ControlRequest::CancelTask { task, cause }).unwrap();
    assert!(attempt.cancellation().is_cancelled());
    assert_eq!(probe.hub.snapshot().active_tasks[0].state, TaskState::Cancelling);
    attempt.unblocked(&mut probe.hub, 7);
    attempt.finish(&mut probe.hub, TaskOutcome::Cancelled, 7);
    probe.finish(&context, Some("Cancelled"));
    assert_eq!(probe.hub.snapshot().activity, ServiceActivity::Idle);

    let history = probe.hub.history();
    assert!(history.iter().any(|event| matches!(
        &event.kind,
        RuntimeEventKind::TaskCancelRequested { task: id, cause }
            if *id == task && cause == "operator cancelled probe"
    )));
    assert!(history.iter().any(|event| matches!(
        &event.kind,
        RuntimeEventKind::TaskFinished { task: id, outcome: TaskOutcome::Cancelled, .. }
            if *id == task
    )));

    let (sent, mut stopped) = probe.control(ControlRequest::Stop);
    assert_eq!(sent, None);
    probe.shut_down();
    assert_eq!(stopped.try_recv().unwrap(), Ok(()));
}

#[test]
fn query_has_no_task_and_activity_edges_are_reported() {
    let mut probe = running_probe();
    let query = probe.query();
    let context = probe.accept(query);
    probe.finish(&context, None);
    let snapshot = probe.hub.snapshot();
    assert_eq!(snapshot.completed_requests, 1);
    assert!(snapshot.active_tasks.is_empty());
    assert_eq!(snapshot.activity, ServiceActivity::Idle);
    assert_eq!(snapshot.in_flight_requests, 0);
    assert!(!probe
        .hub
        .history()
        .iter()
        .any(|event| matches!(event.kind, RuntimeEventKind::TaskStarted(_))));
    assert_eq!(probe.activity, [ServiceActivity::Busy, ServiceActivity::Idle]);
}

#[test]
fn force_abort_ends_all_requests_and_marks_tasks_aborted() {
    let mut probe = running_probe();
    let work = probe.work();
    let operation = work.id();
    let context = probe.accept(work);
    let attempt = probe.start_work(&context);
    let task = attempt.id();

    let mut owner = RootOwner::new();
    assert!(owner.abort(&mut probe.hub, 8));
    assert!(!owner.release(true, &mut probe.hub, 9));
    let snapshot = probe.hub.snapshot();
    assert_eq!(snapshot.lifecycle, ServiceLifecycle::Stopped);
    assert_eq!(snapshot.activity, ServiceActivity::Idle);
    assert_eq!(snapshot.in_flight_requests, 0);
    assert!(snapshot.active_tasks.is_empty());
    let history = probe.hub.history();
    assert!(history.iter().any(|event| matches!(
        &event.kind,
        RuntimeEventKind::TaskFinished { task: id, outcome: TaskOutcome::Aborted, .. }
            if *id == task
    )));
    assert_eq!(
        history
            .iter()
            .filter(|event| matches!(
                &event.kind,
                RuntimeEventKind::OperationFinished { operation: ended, error: Some(_) }
                    if *ended == operation
            ))
            .count(),
        1
    );
    let lost: CallError<()> = CallError::<()>::lost_reply(true, snapshot.lifecycle);
    assert_eq!(lost, CallError::RequestAborted);
    let queued: CallError<()> = CallError::<()>::lost_reply(false, snapshot.lifecycle);
    assert_eq!(queued, CallError::Stopped);

    // What the dropped future would still report changes nothing.
    let revision = probe.hub.revision();
    attempt.abandon(&mut probe.hub, 10);
    assert_eq!(probe.hub.revision(), revision);
}

#[test]
fn dropping_the_root_owner_cannot_leak_the_service_task() {
    let mut probe = running_probe();
    let work = probe.work();
    let context = probe.accept(work);
    let _task = probe.start_work(&context);
    let mut owner = RootOwner::new();
    assert!(owner.release(false, &mut probe.hub, 8));
    let snapshot = probe.hub.snapshot();
    assert_eq!(snapshot.lifecycle, ServiceLifecycle::Stopped);
    assert!(snapshot.active_tasks.is_empty());
    assert_eq!(snapshot.activity, ServiceActivity::Idle);
    assert_eq!(snapshot.in_flight_requests, 0);
    let lost: CallError<()> = CallError::<()>::lost_reply(true, snapshot.lifecycle);
    assert_eq!(lost, CallError::RequestAborted);
    let query = probe.query();
    assert_eq!(probe.send(query), Err(ServiceUnavailable::Stopped));
}

#[test]
fn a_handler_panic_is_reported_as_service_failure() {
    let mut probe = running_probe();
    let crash = OperationContext::root(
        &mut probe.counter,
        OperationSpec::new("probe", "crash", "object/1", "panic isolation test"),
    );
    let _context = probe.accept(crash);
    let panic = panic_message(Some("probe handler crashed"), None);
    root_panicked(&mut probe.hub, panic, 9);

    let snapshot = probe.hub.snapshot();
    assert_eq!(snapshot.lifecycle, ServiceLifecycle::Failed);
    assert_eq!(snapshot.activity, ServiceActivity::Idle);
    assert_eq!(snapshot.in_flight_requests, 0);
    assert_eq!(snapshot.queued_requests, 0);
    assert!(snapshot
        .last_error
        .as_deref()
        .is_some_and(|error| error.contains("probe handler crashed")));
    let lost: CallError<()> = CallError::<()>::lost_reply(true, snapshot.lifecycle);
    assert_eq!(lost, CallError::HandlerPanicked);
    let queued: CallError<()> = CallError::<()>::lost_reply(false, snapshot.lifecycle);
    assert_eq!(queued, CallError::Stopped);
    assert!(probe
        .hub
        .history()
        .iter()
        .any(|event| matches!(event.kind, RuntimeEventKind::RequestFinished { error: Some(_), .. })));
}

#[derive(Default)]
struct RecordingSink {
    finished: RefCell<usize>,
    stopped: RefCell<usize>,
}

impl RuntimeEventSink for RecordingSink {
    fn record(&self, event: &RuntimeEvent) {
        match &event.kind {
            RuntimeEventKind::RequestFinished { .. } => *self.finished.borrow_mut() += 1,
            RuntimeEventKind::LifecycleChanged { to: ServiceLifecycle::Stopped, .. } => {
                *self.stopped.borrow_mut() += 1
            }
            _ => {}
        }
    }
}

#[test]
fn structured_events_can_be_exported_without_parsing_logs() {
    let sink = RecordingSink::default();
    let mut probe = running_probe();
    let query = probe.query();
    let context = probe.accept(query);
    probe.finish(&context, None);
    let _ = probe.control(ControlRequest::Drain);
    probe.shut_down();

    let events = probe.hub.take_outbox();
    assert_eq!(events.len(), probe.hub.history().len());
    for pair in events.windows(2) {
        assert!(pair[0].sequence < pair[1].sequence);
    }
    for event in &events {
        sink.record(event);
    }
    assert_eq!(*sink.finished.borrow(), 1);
    assert_eq!(*sink.stopped.borrow(), 1);
    assert!(probe.hub.take_outbox().is_empty());
}

#[test]
fn a_failed_initialization_fails_the_service() {
    let mut probe = probe_with(4);
    let result = Err("no metadata".to_string());
    assert_eq!(probe.root.initialization_finished(result, &mut probe.hub, 3), Startup::Failed);
    let snapshot = probe.hub.snapshot();
    assert_eq!(snapshot.lifecycle, ServiceLifecycle::Failed);
    assert!(snapshot.last_error.unwrap().contains("no metadata"));
}

#[test]
fn a_failed_shutdown_fails_the_service_and_its_waiters() {
    let mut probe = running_probe();
    let (_, mut drained) = probe.control(ControlRequest::Drain);
    assert_eq!(probe.root.next_step(), RootStep::Shutdown);
    let result = Err("still busy".to_string());
    probe.root.shutdown_finished(result, &mut probe.hub, 7);
    assert_eq!(probe.hub.snapshot().lifecycle, ServiceLifecycle::Failed);
    assert!(drained.try_recv().is_err());
    assert_eq!(probe.root.answer_waiters(), Err(ControlError::ServiceStopped));
    assert_eq!(drained.try_recv().unwrap(), Err(ControlError::ServiceStopped));
}

#[test]
fn a_command_is_acted_on_after_its_change_was_reported() {
    let mut probe = running_probe();
    let operation = probe.work();
    let context = probe.accept(operation);
    let task = probe.start_work(&context);
    let (reply, mut stopped) = oneshot::channel();
    let service = probe.root.cancellation().clone();
    let step = probe.root.decide_control(&ControlRequest::Stop, &mut probe.hub, 6);
    assert_eq!(probe.hub.snapshot().lifecycle, ServiceLifecycle::Stopping);
    assert_eq!(step.tokens.len(), 1);
    assert!(!task.cancellation().is_cancelled() && !service.is_cancelled());
    probe.root.finish_control(step, reply);
    assert!(task.cancellation().is_cancelled() && service.is_cancelled());
    assert!(stopped.try_recv().is_err());

    let cancel = ControlRequest::CancelTask { task: task.id(), cause: "enough".to_string() };
    let (reply, mut answer) = oneshot::channel();
    let step = probe.root.decide_control(&cancel, &mut probe.hub, 6);
    assert!(answer.try_recv().is_err());
    probe.root.finish_control(step, reply);
    assert_eq!(answer.try_recv().unwrap(), Ok(()));
}

#[test]
fn dropped_clients_drain_the_service() {
    let mut probe = running_probe();
    assert!(matches!(
        probe.root.receive(None, &mut probe.counter, &mut probe.hub, 3),
        Reception::ClientsGone
    ));
    assert_eq!(probe.root.stage(), ServiceLifecycle::Draining);
    probe.shut_down();
    assert_eq!(probe.hub.snapshot().lifecycle, ServiceLifecycle::Stopped);
}

#[test]
fn commands_follow_the_lifecycle() {
    let mut probe = running_probe();
    assert_eq!(
        probe.ordered(ControlRequest::Resume),
        Err(ControlError::InvalidTransition {
            from: ServiceLifecycle::Running,
            command: "resume",
        })
    );
    probe.ordered(ControlRequest::Pause).unwrap();
    assert_eq!(
        probe.ordered(ControlRequest::Pause),
        Err(ControlError::InvalidTransition { from: ServiceLifecycle::Paused, command: "pause" })
    );
    let (_, mut stopped) = probe.control(ControlRequest::Stop);
    let (sent, mut again) = probe.control(ControlRequest::Stop);
    assert_eq!(sent, None);
    assert_eq!(
        probe.ordered(ControlRequest::Drain),
        Err(ControlError::InvalidTransition {
            from: ServiceLifecycle::Stopping,
            command: "drain",
        })
    );
    probe.shut_down();
    assert_eq!(stopped.try_recv().unwrap(), Ok(()));
    assert_eq!(again.try_recv().unwrap(), Ok(()));
    assert_eq!(
        probe.ordered(ControlRequest::Stop),
        Err(ControlError::InvalidTransition { from: ServiceLifecycle::Stopped, command: "stop" })
    );
}

#[test]
fn a_task_can_be_cancelled_only_while_it_runs_and_is_cancellable() {
    let mut probe = running_probe();
    let work = probe.work();
    let context = probe.accept(work);
    let meta = TaskMeta::new("object/1", "commit", "an atomic commit").non_cancellable();
    let fixed = context.start_task(
        &mut probe.hub,
        &mut probe.counter,
        meta,
        context.cancellation().clone(),
        5,
    );
    let id = fixed.id();
    let refused = probe.hub.cancel_task(id, "no", 6).unwrap_err();
    assert!(refused.to_string().contains(&id.to_string()));
    assert!(!fixed.cancellation().is_cancelled());
    fixed.finish(&mut probe.hub, TaskOutcome::Completed, 6);
    assert!(probe.hub.cancel_task(id, "late", 7).is_err());
    assert!(probe.hub.task_control(id).is_none());
}

#[test]
fn a_lost_control_answer_means_that_the_service_stopped() {
    let (reply, mut answer) = oneshot::channel::<Result<(), ControlError>>();
    drop(reply);
    assert!(answer.try_recv().is_err());
    let (reply, answer) = oneshot::channel::<Result<(), ControlError>>();
    drop(reply);
    let received = tokio::runtime::Builder::new_current_thread()
        .build()
        .unwrap()
        .block_on(answer);
    assert_eq!(control_result(received), Err(ControlError::ServiceStopped));
}

#[test]
fn all_cancellable_tasks_are_cancelled_together() {
    let mut probe = running_probe();
    let operation = probe.work();
    let context = probe.accept(operation);
    let task = probe.start_work(&context);
    probe.hub.cancel_all("service is stopping", 6);
    assert!(task.cancellation().is_cancelled());
    assert!(!probe.root.cancellation().is_cancelled());
}

#[test]
fn history_is_bounded() {
    let mut hub = ObservationHub::new("probe-service", "probe", 2);
    hub.lifecycle(ServiceLifecycle::Running, "a", 1);
    hub.lifecycle(ServiceLifecycle::Paused, "b", 2);
    hub.lifecycle(ServiceLifecycle::Running, "c", 3);
    let history = hub.history();
    assert_eq!(history.len(), 2);
    assert_eq!(history[0].timestamp_ms, 2);
    assert_eq!(history[1].timestamp_ms, 3);
    assert_eq!(hub.revision(), 3);
}

#[test]
fn a_task_registered_by_hand_is_shown_until_it_ends() {
    let mut counter = IdCounter::new();
    let operation = OperationContext::transient(&mut counter);
    let mut hub = ObservationHub::new("probe-service", "probe", 8);
    let registration = TaskRegistration {
        operation: operation.id(),
        trace_id: "trace".to_string(),
        key: "object/1".to_string(),
        kind: "probe".to_string(),
        summary: "probe".to_string(),
        cancellable: true,
        cancellation: CancellationToken::new(),
    };
    let id = hub.start_task(registration, &mut counter, 5);
    assert_eq!(hub.task_count(), 1);
    assert_eq!(hub.snapshot().active_tasks[0].started_at_ms, 5);
    hub.finish_task(id, TaskOutcome::Failed("late".to_string()), 6);
    assert_eq!(hub.task_count(), 0);
    hub.finish_task(id, TaskOutcome::Completed, 7);
    assert_eq!(hub.history().len(), 2);
}

#[test]
fn panics_and_times_are_told_in_plain_values() {
    let owned = "owned".to_string();
    assert_eq!(panic_message(Some("literal"), Some(&owned)), "literal");
    assert_eq!(panic_message(None, Some(&owned)), "owned");
    assert_eq!(panic_message(None, None), "non-string panic payload");
    assert_eq!(now_ms(12), 12);
    assert_eq!(now_ms(1 << 100), u64::MAX);
    let lost: CallError<()> = CallError::<()>::lost_reply(true, ServiceLifecycle::Running);
    assert_eq!(lost, CallError::Stopped);
}

#[test]
fn a_configuration_without_room_is_refused() {
    let mut config = ServiceConfig::new("probe-service", "probe");
    config.business_capacity = 0;
    assert!(config.problem().is_some());
    let mut config = ServiceConfig::new("probe-service", "probe");
    config.control_capacity = 0;
    assert!(config.problem().is_some());
    let mut config = ServiceConfig::new("probe-service", "probe");
    config.max_in_flight_requests = 0;
    assert!(config.problem().is_some());
}
