//! The root of a service: lifecycle, control commands and the admission of
//! requests.
//!
//! A service has one root. The root receives control commands, the outcomes of
//! running requests and new business messages, in this order of preference, and
//! tells after each of them what to wait for next.
use super::hub::{cancel_tokens, task_order, told, HubView, ObservationHub};
use super::ids::{number_after, IdCounter, OperationId, RequestId, TaskId};
use super::lifecycle::{ControlError, ServiceActivity, ServiceLifecycle, ServiceUnavailable};
use super::observation::{
    optional_text, OperationContext, OperationContextView, RuntimeEventKindView,
};
use super::task::{TaskAttempt, TaskControl, TaskMeta};
use crate::outside::{
    all_cancelled, answered, cancel_requested, child_token, descends_from, sent, token_made,
};
use tokio::sync::oneshot;
use tokio_util::sync::CancellationToken;
use vstd::prelude::*;
use vstd::string::StringExecFns;

verus! {

/// What a service is started with, with all text by its characters.
pub struct ServiceConfigView {
    pub name: Seq<char>,
    pub domain: Seq<char>,
    pub business_capacity: usize,
    pub control_capacity: usize,
    pub max_in_flight_requests: usize,
    pub event_history: usize,
}

/// What a service is started with.
#[derive(Debug)]
pub struct ServiceConfig {
    pub name: String,
    pub domain: String,
    pub business_capacity: usize,
    pub control_capacity: usize,
    pub max_in_flight_requests: usize,
    pub event_history: usize,
}

impl View for ServiceConfig {
    type V = ServiceConfigView;

    open spec fn view(&self) -> ServiceConfigView {
        ServiceConfigView {
            name: self.name@,
            domain: self.domain@,
            business_capacity: self.business_capacity,
            control_capacity: self.control_capacity,
            max_in_flight_requests: self.max_in_flight_requests,
            event_history: self.event_history,
        }
    }
}

impl Clone for ServiceConfig {
    fn clone(&self) -> (copy: Self)
        ensures
            copy == *self,
    {
        ServiceConfig {
            name: self.name.clone(),
            domain: self.domain.clone(),
            business_capacity: self.business_capacity,
            control_capacity: self.control_capacity,
            max_in_flight_requests: self.max_in_flight_requests,
            event_history: self.event_history,
        }
    }
}

impl ServiceConfig {
    /// A configuration with the usual capacities.
    pub fn new(name: &str, domain: &str) -> (config: Self)
        ensures
            config@ == (ServiceConfigView {
                name: name@,
                domain: domain@,
                business_capacity: 128,
                control_capacity: 16,
                max_in_flight_requests: 64,
                event_history: 1024,
            }),
    {
        ServiceConfig {
            name: name.to_owned(),
            domain: domain.to_owned(),
            business_capacity: 128,
            control_capacity: 16,
            max_in_flight_requests: 64,
            event_history: 1024,
        }
    }

    /// What forbids starting a service with this configuration.
    pub fn problem(&self) -> (problem: Option<&'static str>)
        ensures
            match problem {
                Some(text) => {
                    if self.business_capacity == 0 {
                        text@ == "business capacity must be non-zero"@
                    } else if self.control_capacity == 0 {
                        text@ == "control capacity must be non-zero"@
                    } else {
                        self.max_in_flight_requests == 0 && text@
                            == "request concurrency must be non-zero"@
                    }
                },
                None => self.business_capacity > 0 && self.control_capacity > 0
                    && self.max_in_flight_requests > 0,
            },
    {
        if self.business_capacity == 0 {
            Some("business capacity must be non-zero")
        } else if self.control_capacity == 0 {
            Some("control capacity must be non-zero")
        } else if self.max_in_flight_requests == 0 {
            Some("request concurrency must be non-zero")
        } else {
            None
        }
    }
}

/// Why a call got no reply of its service. Errors of the lifecycle and of the
/// communication are apart from those of the domain.
#[derive(Debug, PartialEq, Eq)]
pub enum CallError<E> {
    /// The service does not take requests in its present stage.
    Unavailable(ServiceUnavailable),
    /// The service is gone.
    Stopped,
    /// The handler of the request panicked.
    HandlerPanicked,
    /// The request was dropped while it was in flight.
    RequestAborted,
    /// The service answered with a reply of another request.
    ProtocolViolation(&'static str),
    /// The domain refused the request.
    Domain(E),
}

impl<E> CallError<E> {
    /// The error of a call whose reply was lost, by whether its request was
    /// accepted and the stage that the service is in by now.
    pub open spec fn of_lost_reply(accepted: bool, stage: ServiceLifecycle) -> CallError<E> {
        if !accepted {
            CallError::Stopped
        } else {
            match stage {
                ServiceLifecycle::Failed => CallError::HandlerPanicked,
                ServiceLifecycle::Stopped => CallError::RequestAborted,
                _ => CallError::Stopped,
            }
        }
    }

    /// Tells why a reply was lost. An accepted request was in flight: a failed
    /// service panicked, a stopped one was aborted. For a request that was never
    /// accepted the service is just gone.
    pub fn lost_reply(accepted: bool, stage: ServiceLifecycle) -> (error: CallError<E>)
        ensures
            error == CallError::<E>::of_lost_reply(accepted, stage),
    {
        if !accepted {
            return CallError::Stopped;
        }
        match stage {
            ServiceLifecycle::Failed => CallError::HandlerPanicked,
            ServiceLifecycle::Stopped => CallError::RequestAborted,
            _ => CallError::Stopped,
        }
    }
}

/// The text of a panic: the payload, where it is text.
pub fn panic_message<'a>(literal: Option<&'a str>, owned: Option<&'a String>) -> (text: &'a str)
    ensures
        text@ == (match (literal, owned) {
            (Some(text), _) => text@,
            (None, Some(text)) => text@,
            (None, None) => "non-string panic payload"@,
        }),
{
    match literal {
        Some(text) => text,
        None => match owned {
            Some(text) => text.as_str(),
            None => "non-string panic payload",
        },
    }
}

/// Records that the root of a service panicked.
pub fn root_panicked(hub: &mut ObservationHub, panic: &str, now: u64)
    requires
        old(hub).wf(),
        old(hub)@.has_room(old(hub)@.closing_events()),
    ensures
        final(hub).wf(),
        final(hub)@ == old(hub)@.failed("service root panicked: "@ + panic@, now),
{
    let mut text = "service root panicked: ".to_owned();
    text.append(panic);
    hub.fail(text.as_str(), now);
}

/// A command to a service, without the channel for its answer.
#[derive(Debug, PartialEq, Eq)]
pub enum ControlRequest {
    Pause,
    Resume,
    Drain,
    Stop,
    CancelTask { task: TaskId, cause: String },
}

/// A command to a service with the channel for its answer.
pub struct ControlCommand {
    pub request: ControlRequest,
    pub reply: oneshot::Sender<Result<(), ControlError>>,
}

/// What is left to do for a control request once its change was reported.
pub struct ControlStep {
    /// The answer, unless it has to wait for the end of the service.
    pub answer: Option<Result<(), ControlError>>,
    /// The tokens of the tasks that have to be cancelled.
    pub tokens: Vec<CancellationToken>,
    /// Whether all work of the service has to be cancelled.
    pub cancel_service: bool,
}

/// Whether a service in this stage can begin to drain.
pub open spec fn can_drain(stage: ServiceLifecycle) -> bool {
    stage == ServiceLifecycle::Initializing || stage == ServiceLifecycle::Running || stage
        == ServiceLifecycle::Paused
}

/// Whether a service in this stage can begin to stop.
pub open spec fn can_stop(stage: ServiceLifecycle) -> bool {
    can_drain(stage) || stage == ServiceLifecycle::Draining
}

/// Whether a service in this stage ends as soon as no request runs.
pub open spec fn is_closing(stage: ServiceLifecycle) -> bool {
    stage == ServiceLifecycle::Draining || stage == ServiceLifecycle::Stopping
}

/// The stage after a control request.
pub open spec fn stage_after(stage: ServiceLifecycle, request: ControlRequest) -> ServiceLifecycle {
    match request {
        ControlRequest::Pause => if stage == ServiceLifecycle::Running {
            ServiceLifecycle::Paused
        } else {
            stage
        },
        ControlRequest::Resume => if stage == ServiceLifecycle::Paused {
            ServiceLifecycle::Running
        } else {
            stage
        },
        ControlRequest::Drain => if can_drain(stage) {
            ServiceLifecycle::Draining
        } else {
            stage
        },
        ControlRequest::Stop => if can_stop(stage) {
            ServiceLifecycle::Stopping
        } else {
            stage
        },
        ControlRequest::CancelTask { .. } => stage,
    }
}

/// The answer to a control request, where it is due at once.
pub open spec fn control_answer(
    stage: ServiceLifecycle,
    request: ControlRequest,
    hub: HubView,
) -> Option<Result<(), ControlError>> {
    match request {
        ControlRequest::Pause => Some(
            if stage == ServiceLifecycle::Running {
                Ok(())
            } else {
                Err(ControlError::InvalidTransition { from: stage, command: "pause" })
            },
        ),
        ControlRequest::Resume => Some(
            if stage == ServiceLifecycle::Paused {
                Ok(())
            } else {
                Err(ControlError::InvalidTransition { from: stage, command: "resume" })
            },
        ),
        ControlRequest::Drain => if can_drain(stage) || stage == ServiceLifecycle::Draining {
            None
        } else {
            Some(Err(ControlError::InvalidTransition { from: stage, command: "drain" }))
        },
        ControlRequest::Stop => if can_stop(stage) || stage == ServiceLifecycle::Stopping {
            None
        } else {
            Some(Err(ControlError::InvalidTransition { from: stage, command: "stop" }))
        },
        ControlRequest::CancelTask { task, .. } => Some(
            match hub.cancel_refusal(task) {
                Some(error) => Err(error),
                None => Ok(()),
            },
        ),
    }
}

/// The observation hub after a control request.
pub open spec fn hub_after(
    stage: ServiceLifecycle,
    request: ControlRequest,
    hub: HubView,
    now: u64,
) -> HubView {
    let entered = stage_after(stage, request);
    match request {
        ControlRequest::Pause => if entered != stage {
            hub.entered(entered, "pause requested"@, now)
        } else {
            hub
        },
        ControlRequest::Resume => if entered != stage {
            hub.entered(entered, "resume requested"@, now)
        } else {
            hub
        },
        ControlRequest::Drain => if entered != stage {
            hub.entered(entered, "drain requested"@, now)
        } else {
            hub
        },
        ControlRequest::Stop => if entered != stage {
            hub.entered(entered, "cooperative stop requested"@, now).cancels_requested(
                task_order(hub.tasks),
                "service is stopping"@,
                now,
            )
        } else {
            hub
        },
        ControlRequest::CancelTask { task, cause } => hub.cancel_requested(task, cause@, now),
    }
}

/// The tokens of the tasks that a control request cancels: all that can be
/// cancelled when the service stops, and that of a task whose cancellation is not
/// refused.
pub open spec fn control_tokens(
    stage: ServiceLifecycle,
    request: ControlRequest,
    hub: HubView,
) -> Seq<CancellationToken> {
    match request {
        ControlRequest::Stop if can_stop(stage) => hub.tokens_of(task_order(hub.tasks)),
        ControlRequest::CancelTask { task, .. } if hub.cancel_refusal(task) is None => {
            seq![hub.tasks[task@].cancellation]
        },
        _ => Seq::empty(),
    }
}

/// What those who wait for the end of a service are told: that it stopped, or that
/// it is gone.
pub open spec fn end_answer(stage: ServiceLifecycle) -> Result<(), ControlError> {
    if stage == ServiceLifecycle::Stopped {
        Ok(())
    } else {
        Err(ControlError::ServiceStopped)
    }
}

/// The text of a failed step.
pub open spec fn failure_text(result: Result<(), String>) -> Option<Seq<char>> {
    match result {
        Ok(_) => None,
        Err(error) => Some(error@),
    }
}

/// What the root waits for next.
#[derive(Debug, Clone, Copy, PartialEq, Eq, Structural)]
pub enum RootStep {
    /// No request runs and none will: the service shuts down.
    Shutdown,
    /// Control commands, the end of a running request and, where `business`
    /// says so, a new message.
    Wait { business: bool, requests: bool },
}

/// How the service goes on after its initialization.
#[derive(Debug, Clone, Copy, PartialEq, Eq, Structural)]
pub enum Startup {
    /// The service runs, or shuts down in order.
    Serve,
    /// The service failed; messages that still wait are turned away.
    Failed,
}

/// What the root knows of its service.
pub struct RootView {
    pub stage: ServiceLifecycle,
    pub running: usize,
    pub business_open: bool,
    pub max_in_flight: usize,
    pub waiters: Seq<oneshot::Sender<Result<(), ControlError>>>,
    pub cancellation: CancellationToken,
}

impl RootView {
    /// Whether the root takes the next message. A running service takes none
    /// beyond its concurrency; in every other stage messages are taken only to
    /// be turned away.
    pub open spec fn takes_business(self) -> bool {
        self.business_open && (self.stage == ServiceLifecycle::Running ==> self.running
            < self.max_in_flight)
    }

    /// What the root waits for next.
    pub open spec fn step(self) -> RootStep {
        if is_closing(self.stage) && self.running == 0 {
            RootStep::Shutdown
        } else {
            RootStep::Wait { business: self.takes_business(), requests: self.running > 0 }
        }
    }
}

/// What a handler gets along with its request.
pub struct RequestContextView {
    pub request_id: RequestId,
    pub operation: OperationContextView,
    pub cancellation: CancellationToken,
}

/// What a handler gets along with its request.
pub struct RequestContext {
    request_id: RequestId,
    operation: OperationContext,
    cancellation: CancellationToken,
}

impl View for RequestContext {
    type V = RequestContextView;

    closed spec fn view(&self) -> RequestContextView {
        RequestContextView {
            request_id: self.request_id,
            operation: self.operation@,
            cancellation: self.cancellation,
        }
    }
}

impl Clone for RequestContext {
    fn clone(&self) -> (copy: Self)
        ensures
            copy@ == self@,
    {
        RequestContext {
            request_id: self.request_id,
            operation: self.operation.clone(),
            cancellation: self.cancellation.clone(),
        }
    }
}

impl RequestContext {
    /// The identity of the request.
    pub fn request_id(&self) -> (id: RequestId)
        ensures
            id == self@.request_id,
    {
        self.request_id
    }

    /// The operation that the request belongs to.
    pub fn operation(&self) -> (operation: &OperationContext)
        ensures
            operation@ == self@.operation,
    {
        &self.operation
    }

    /// The token that cancels the request.
    pub fn cancellation(&self) -> (token: &CancellationToken)
        ensures
            *token == self@.cancellation,
    {
        &self.cancellation
    }

    /// Attaches control and observation to work that the request carries out
    /// already.
    pub fn start_task(
        &self,
        hub: &mut ObservationHub,
        counter: &mut IdCounter,
        meta: TaskMeta,
        cancellation: CancellationToken,
        now: u64,
    ) -> (attempt: TaskAttempt)
        requires
            old(hub).wf(),
            old(hub)@.has_room(1),
        ensures
            final(hub).wf(),
            attempt@.id@ == old(counter)@,
            final(counter)@ == number_after(old(counter)@),
            attempt@.operation == self@.operation.id,
            attempt@.cancellation == cancellation,
            ({
                ||| answered(cancellation, false) && final(hub)@ == old(hub)@.task_started(
                    meta@.started(self@.operation, attempt@.id, false, now),
                    cancellation,
                    now,
                )
                ||| answered(cancellation, true) && final(hub)@ == old(hub)@.task_started(
                    meta@.started(self@.operation, attempt@.id, true, now),
                    cancellation,
                    now,
                )
            }),
    {
        TaskAttempt::start(hub, counter, &self.operation, meta, cancellation, now)
    }

    /// The control of an active task.
    pub fn control_task(&self, hub: &ObservationHub, task: TaskId) -> (control: Option<TaskControl>)
        requires
            hub.wf(),
        ensures
            match control {
                Some(control) => hub@.tasks.contains_key(task@) && control@ == task,
                None => !hub@.tasks.contains_key(task@),
            },
    {
        hub.task_control(task)
    }
}

/// What became of a message that the root took.
pub enum Reception {
    /// The request runs. The activity is told where it changed.
    Accepted { context: RequestContext, activity: Option<ServiceActivity> },
    /// The request is turned away.
    Rejected(ServiceUnavailable),
    /// There will be no more messages.
    ClientsGone,
}

/// The root of a service.
pub struct ServiceRoot {
    stage: ServiceLifecycle,
    running: usize,
    business_open: bool,
    max_in_flight: usize,
    waiters: Vec<oneshot::Sender<Result<(), ControlError>>>,
    cancellation: CancellationToken,
}

impl View for ServiceRoot {
    type V = RootView;

    closed spec fn view(&self) -> RootView {
        RootView {
            stage: self.stage,
            running: self.running,
            business_open: self.business_open,
            max_in_flight: self.max_in_flight,
            waiters: self.waiters@,
            cancellation: self.cancellation,
        }
    }
}

impl ServiceRoot {
    /// The root of a service that is about to initialize, with a token of its
    /// own.
    pub fn new(config: &ServiceConfig) -> (root: Self)
        ensures
            root@ == (RootView {
                stage: ServiceLifecycle::Initializing,
                running: 0,
                business_open: true,
                max_in_flight: config.max_in_flight_requests,
                waiters: Seq::empty(),
                cancellation: root@.cancellation,
            }),
            token_made(root@.cancellation),
    {
        let root = ServiceRoot {
            stage: ServiceLifecycle::Initializing,
            running: 0,
            business_open: true,
            max_in_flight: config.max_in_flight_requests,
            waiters: Vec::new(),
            cancellation: CancellationToken::new(),
        };
        assert(root.waiters@ =~= Seq::empty());
        root
    }

    /// The stage of the service.
    pub fn stage(&self) -> (stage: ServiceLifecycle)
        ensures
            stage == self@.stage,
    {
        self.stage
    }

    /// The token that cancels all work of the service.
    pub fn cancellation(&self) -> (token: &CancellationToken)
        ensures
            *token == self@.cancellation,
    {
        &self.cancellation
    }

    fn enter(&mut self, stage: ServiceLifecycle, reason: &str, hub: &mut ObservationHub, now: u64)
        requires
            old(hub).wf(),
            old(hub)@.has_room(1),
        ensures
            final(hub).wf(),
            final(self)@ == (RootView { stage, ..old(self)@ }),
            final(hub)@ == old(hub)@.entered(stage, reason@, now),
    {
        self.stage = stage;
        hub.lifecycle(stage, reason, now);
    }

    /// Tells everyone who waits for the end of the service what it came to.
    pub fn answer_waiters(&mut self) -> (answer: Result<(), ControlError>)
        ensures
            answer == end_answer(old(self)@.stage),
            final(self)@ == (RootView { waiters: Seq::empty(), ..old(self)@ }),
            forall|i: int|
                0 <= i < old(self)@.waiters.len() ==> sent(
                    #[trigger] old(self)@.waiters[i],
                    answer,
                ),
    {
        let answer = if self.stage == ServiceLifecycle::Stopped {
            Ok(())
        } else {
            Err(ControlError::ServiceStopped)
        };
        let ghost given = self.waiters@;
        let mut waiters: Vec<oneshot::Sender<Result<(), ControlError>>> = Vec::new();
        waiters.append(&mut self.waiters);
        assert(waiters@ =~= given);
        for waiter in iter: waiters
            invariant
                iter.seq() == given,
                forall|i: int| 0 <= i < iter.index() ==> sent(#[trigger] given[i], answer),
        {
            assert(waiter == given[iter.index() as int]);
            let _ = waiter.send(answer);
        }
        assert(self.waiters@ =~= Seq::empty());
        answer
    }

    /// Decides a control request: the stage and the observation change, and the
    /// step says what is left to do once the change was reported.
    pub fn decide_control(
        &mut self,
        request: &ControlRequest,
        hub: &mut ObservationHub,
        now: u64,
    ) -> (step: ControlStep)
        requires
            old(hub).wf(),
            old(hub)@.has_room(old(hub)@.tasks.dom().len() + 1),
        ensures
            final(hub).wf(),
            final(self)@ == (RootView {
                stage: stage_after(old(self)@.stage, *request),
                ..old(self)@
            }),
            final(hub)@ == hub_after(old(self)@.stage, *request, old(hub)@, now),
            step.answer == control_answer(old(self)@.stage, *request, old(hub)@),
            step.cancel_service == (*request is Stop && can_stop(old(self)@.stage)),
            step.tokens@ == control_tokens(old(self)@.stage, *request, old(hub)@),
    {
        let stage = self.stage;
        let none: Vec<CancellationToken> = Vec::new();
        assert(none@ =~= Seq::empty());
        match request {
            ControlRequest::Pause => {
                let answer = if stage == ServiceLifecycle::Running {
                    self.enter(ServiceLifecycle::Paused, "pause requested", hub, now);
                    Ok(())
                } else {
                    Err(ControlError::InvalidTransition { from: stage, command: "pause" })
                };
                ControlStep { answer: Some(answer), tokens: none, cancel_service: false }
            },
            ControlRequest::Resume => {
                let answer = if stage == ServiceLifecycle::Paused {
                    self.enter(ServiceLifecycle::Running, "resume requested", hub, now);
                    Ok(())
                } else {
                    Err(ControlError::InvalidTransition { from: stage, command: "resume" })
                };
                ControlStep { answer: Some(answer), tokens: none, cancel_service: false }
            },
            ControlRequest::Drain => {
                let answer = match stage {
                    ServiceLifecycle::Initializing
                    | ServiceLifecycle::Running
                    | ServiceLifecycle::Paused => {
                        self.enter(ServiceLifecycle::Draining, "drain requested", hub, now);
                        None
                    },
                    ServiceLifecycle::Draining => None,
                    _ => Some(
                        Err(ControlError::InvalidTransition { from: stage, command: "drain" }),
                    ),
                };
                ControlStep { answer, tokens: none, cancel_service: false }
            },
            ControlRequest::Stop => match stage {
                ServiceLifecycle::Initializing
                | ServiceLifecycle::Running
                | ServiceLifecycle::Paused
                | ServiceLifecycle::Draining => {
                    self.enter(ServiceLifecycle::Stopping, "cooperative stop requested", hub, now);
                    proof {
                        hub@.lemma_tokens_of(old(hub)@, task_order(hub@.tasks));
                    }
                    let tokens = hub.request_cancel_all("service is stopping", now);
                    ControlStep { answer: None, tokens, cancel_service: true }
                },
                ServiceLifecycle::Stopping => ControlStep {
                    answer: None,
                    tokens: none,
                    cancel_service: false,
                },
                _ => ControlStep {
                    answer: Some(
                        Err(ControlError::InvalidTransition { from: stage, command: "stop" }),
                    ),
                    tokens: none,
                    cancel_service: false,
                },
            },
            ControlRequest::CancelTask { task, cause } => {
                match hub.request_cancel(*task, cause.as_str(), now) {
                    Ok(token) => {
                        let tokens = vec![token];
                        assert(tokens@ =~= seq![token]);
                        ControlStep { answer: Some(Ok(())), tokens, cancel_service: false }
                    },
                    Err(error) => ControlStep {
                        answer: Some(Err(error)),
                        tokens: none,
                        cancel_service: false,
                    },
                }
            },
        }
    }

    /// Does what is left to do for a control request: tasks and the service are
    /// cancelled, and the sender is answered or waits for the end of the service.
    pub fn finish_control(
        &mut self,
        step: ControlStep,
        reply: oneshot::Sender<Result<(), ControlError>>,
    )
        ensures
            final(self)@ == (RootView {
                waiters: if step.answer is Some {
                    old(self)@.waiters
                } else {
                    old(self)@.waiters.push(reply)
                },
                ..old(self)@
            }),
            all_cancelled(step.tokens@),
            step.cancel_service ==> cancel_requested(old(self)@.cancellation),
            step.answer matches Some(answer) ==> sent(reply, answer),
    {
        cancel_tokens(&step.tokens);
        if step.cancel_service {
            self.cancellation.cancel();
        }
        match step.answer {
            Some(answer) => {
                let _ = reply.send(answer);
            },
            None => {
                self.waiters.push(reply);
            },
        }
    }

    /// Handles a control command. A command whose answer is not due yet waits
    /// for the end of the service. The result is the answer that was sent.
    pub fn handle_control(
        &mut self,
        command: ControlCommand,
        hub: &mut ObservationHub,
        now: u64,
    ) -> (answered: Option<Result<(), ControlError>>)
        requires
            old(hub).wf(),
            old(hub)@.has_room(old(hub)@.tasks.dom().len() + 1),
        ensures
            final(hub).wf(),
            final(hub)@ == hub_after(old(self)@.stage, command.request, old(hub)@, now),
            answered == control_answer(old(self)@.stage, command.request, old(hub)@),
            final(self)@ == (RootView {
                stage: stage_after(old(self)@.stage, command.request),
                waiters: if answered is Some {
                    old(self)@.waiters
                } else {
                    old(self)@.waiters.push(command.reply)
                },
                ..old(self)@
            }),
            all_cancelled(control_tokens(old(self)@.stage, command.request, old(hub)@)),
            command.request is Stop && can_stop(old(self)@.stage) ==> cancel_requested(
                old(self)@.cancellation,
            ),
            answered matches Some(answer) ==> sent(command.reply, answer),
    {
        let step = self.decide_control(&command.request, hub, now);
        let answer = step.answer;
        self.finish_control(step, command.reply);
        answer
    }

    /// Goes on after the initialization. A failure ends the service, unless the
    /// service is stopping anyway. Whoever waits for the end is answered once the
    /// failure was reported.
    pub fn initialization_finished(
        &mut self,
        result: Result<(), String>,
        hub: &mut ObservationHub,
        now: u64,
    ) -> (startup: Startup)
        requires
            old(hub).wf(),
            old(hub)@.has_room(old(hub)@.closing_events()),
        ensures
            final(hub).wf(),
            match failure_text(result) {
                Some(error) if old(self)@.stage != ServiceLifecycle::Stopping => {
                    &&& startup == Startup::Failed
                    &&& final(hub)@ == old(hub)@.failed(error, now)
                    &&& final(self)@ == (RootView {
                        stage: ServiceLifecycle::Failed,
                        ..old(self)@
                    })
                },
                _ => {
                    &&& startup == Startup::Serve
                    &&& if old(self)@.stage == ServiceLifecycle::Initializing {
                        &&& final(hub)@ == old(hub)@.entered(
                            ServiceLifecycle::Running,
                            "initialization completed"@,
                            now,
                        )
                        &&& final(self)@ == (RootView {
                            stage: ServiceLifecycle::Running,
                            ..old(self)@
                        })
                    } else {
                        final(hub)@ == old(hub)@ && final(self)@ == old(self)@
                    }
                },
            },
    {
        if let Err(error) = result {
            if self.stage != ServiceLifecycle::Stopping {
                hub.fail(error.as_str(), now);
                self.stage = ServiceLifecycle::Failed;
                return Startup::Failed;
            }
        }
        if self.stage == ServiceLifecycle::Initializing {
            self.enter(ServiceLifecycle::Running, "initialization completed", hub, now);
        }
        Startup::Serve
    }

    /// Tells what to wait for next.
    pub fn next_step(&self) -> (step: RootStep)
        ensures
            step == self@.step(),
    {
        let closing = match self.stage {
            ServiceLifecycle::Draining | ServiceLifecycle::Stopping => true,
            _ => false,
        };
        if closing && self.running == 0 {
            RootStep::Shutdown
        } else {
            let business = self.business_open && (self.stage != ServiceLifecycle::Running
                || self.running < self.max_in_flight);
            RootStep::Wait { business, requests: self.running > 0 }
        }
    }

    /// Ends the service after its shutdown hook: it has stopped, or failed with
    /// the error of the hook. Whoever waits for the end is answered once that was
    /// reported.
    pub fn shutdown_finished(
        &mut self,
        result: Result<(), String>,
        hub: &mut ObservationHub,
        now: u64,
    )
        requires
            old(hub).wf(),
            old(hub)@.has_room(old(hub)@.closing_events()),
        ensures
            final(hub).wf(),
            match failure_text(result) {
                None => {
                    &&& final(hub)@ == old(hub)@.entered(
                        ServiceLifecycle::Stopped,
                        "shutdown completed"@,
                        now,
                    )
                    &&& final(self)@ == (RootView {
                        stage: ServiceLifecycle::Stopped,
                        ..old(self)@
                    })
                },
                Some(error) => {
                    &&& final(hub)@ == old(hub)@.failed(error, now)
                    &&& final(self)@ == (RootView {
                        stage: ServiceLifecycle::Failed,
                        ..old(self)@
                    })
                },
            },
    {
        match result {
            Ok(_) => {
                self.enter(ServiceLifecycle::Stopped, "shutdown completed", hub, now);
            },
            Err(error) => {
                hub.fail(error.as_str(), now);
                self.stage = ServiceLifecycle::Failed;
            },
        }
    }

    /// Takes a message off the queue, or learns that there will be none. Only a
    /// running service accepts the request; its work is cancelled with the
    /// service. When all clients are gone, the service drains.
    pub fn receive(
        &mut self,
        message: Option<&OperationContext>,
        counter: &mut IdCounter,
        hub: &mut ObservationHub,
        now: u64,
    ) -> (reception: Reception)
        requires
            old(self)@.takes_business(),
            old(hub).wf(),
            old(hub)@.has_room(4),
        ensures
            final(hub).wf(),
            match message {
                None => {
                    &&& reception is ClientsGone
                    &&& final(counter)@ == old(counter)@
                    &&& if old(self)@.stage == ServiceLifecycle::Running || old(self)@.stage
                        == ServiceLifecycle::Paused {
                        &&& final(hub)@ == old(hub)@.entered(
                            ServiceLifecycle::Draining,
                            "all business clients were dropped"@,
                            now,
                        )
                        &&& final(self)@ == (RootView {
                            stage: ServiceLifecycle::Draining,
                            business_open: false,
                            ..old(self)@
                        })
                    } else {
                        &&& final(hub)@ == old(hub)@
                        &&& final(self)@ == (RootView { business_open: false, ..old(self)@ })
                    }
                },
                Some(operation) if old(self)@.stage == ServiceLifecycle::Running => {
                    &&& reception matches Reception::Accepted { context, activity }
                    &&& context@.request_id@ == old(counter)@
                    &&& final(counter)@ == number_after(old(counter)@)
                    &&& context@.operation == operation@
                    &&& descends_from(context@.cancellation, old(self)@.cancellation)
                    &&& final(hub)@ == old(hub)@.dequeued().accepted(
                        context@.request_id,
                        operation@,
                        now,
                    )
                    &&& activity == old(hub)@.activity_edge(final(hub)@)
                    &&& final(self)@ == (RootView {
                        running: (old(self)@.running + 1) as usize,
                        ..old(self)@
                    })
                },
                Some(operation) => {
                    &&& reception matches Reception::Rejected(reason)
                    &&& reason.stage() == old(self)@.stage
                    &&& final(hub)@ == old(hub)@.dequeued().rejected(
                        operation@.id,
                        reason.message(),
                        now,
                    )
                    &&& final(self)@ == old(self)@
                    &&& final(counter)@ == old(counter)@
                },
            },
    {
        match message {
            Some(operation) => {
                hub.request_dequeued();
                if self.stage == ServiceLifecycle::Running {
                    let request = RequestId::next(counter);
                    let activity = hub.request_accepted(request, operation, now);
                    self.running = self.running + 1;
                    let context = RequestContext {
                        request_id: request,
                        operation: operation.clone(),
                        cancellation: child_token(&self.cancellation),
                    };
                    Reception::Accepted { context, activity }
                } else {
                    let reason = ServiceUnavailable::from(self.stage);
                    let text = reason.to_string();
                    hub.request_rejected(operation.id(), text.as_str(), now);
                    Reception::Rejected(reason)
                }
            },
            None => {
                self.business_open = false;
                match self.stage {
                    ServiceLifecycle::Running | ServiceLifecycle::Paused => {
                        self.enter(
                            ServiceLifecycle::Draining,
                            "all business clients were dropped",
                            hub,
                            now,
                        );
                    },
                    _ => {},
                }
                Reception::ClientsGone
            },
        }
    }

    /// Ends a running request. The activity is told where it changed.
    pub fn request_finished(
        &mut self,
        request: RequestId,
        error: Option<String>,
        hub: &mut ObservationHub,
        now: u64,
    ) -> (activity: Option<ServiceActivity>)
        requires
            old(self)@.running > 0,
            old(hub).wf(),
            old(hub)@.has_room(3),
        ensures
            final(hub).wf(),
            final(hub)@ == old(hub)@.finished(request@, optional_text(error), now),
            activity == old(hub)@.activity_edge(final(hub)@),
            final(self)@ == (RootView {
                running: (old(self)@.running - 1) as usize,
                ..old(self)@
            }),
    {
        self.running = self.running - 1;
        hub.request_finished(request, error, now)
    }
}

/// What a control command comes to for its sender: the answer, or that the
/// service is gone.
pub fn control_result(
    received: Result<Result<(), ControlError>, oneshot::error::RecvError>,
) -> (result: Result<(), ControlError>)
    ensures
        result == (match received {
            Ok(answer) => answer,
            Err(_) => Err(ControlError::ServiceStopped),
        }),
{
    match received {
        Ok(answer) => answer,
        Err(_) => Err(ControlError::ServiceStopped),
    }
}

/// Turns away a message that still waits when its service has ended. Anyone who
/// sends to a service that ends gets a definite answer.
pub fn reject_remaining(
    operation: OperationId,
    reason: ServiceUnavailable,
    hub: &mut ObservationHub,
    now: u64,
)
    requires
        old(hub).wf(),
        old(hub)@.has_room(2),
    ensures
        final(hub).wf(),
        final(hub)@ == old(hub)@.dequeued().rejected(operation, reason.message(), now),
{
    hub.request_dequeued();
    let text = reason.to_string();
    hub.request_rejected(operation, text.as_str(), now);
}

/// Whether a client may put a request in the queue: while the service
/// initializes or runs. A request that may not is recorded as turned away.
pub fn enqueue(operation: &OperationContext, hub: &mut ObservationHub, now: u64) -> (result: Result<
    (),
    ServiceUnavailable,
>)
    requires
        old(hub).wf(),
        old(hub)@.has_room(1),
    ensures
        final(hub).wf(),
        ({
            let stage = old(hub)@.snapshot.lifecycle;
            if stage == ServiceLifecycle::Initializing || stage == ServiceLifecycle::Running {
                &&& result is Ok
                &&& final(hub)@ == old(hub)@.enqueued()
            } else {
                &&& result matches Err(reason)
                &&& reason.stage() == stage
                &&& final(hub)@ == old(hub)@.rejected(operation@.id, reason.message(), now)
            }
        }),
{
    let stage = hub.current_lifecycle();
    match stage {
        ServiceLifecycle::Initializing | ServiceLifecycle::Running => {
            hub.request_enqueued();
            Ok(())
        },
        _ => {
            let reason = ServiceUnavailable::from(stage);
            let text = reason.to_string();
            hub.request_rejected(operation.id(), text.as_str(), now);
            Err(reason)
        },
    }
}

/// The owner's side of a root task: a force abort takes effect once.
#[derive(Debug)]
pub struct RootOwner {
    force_aborted: bool,
}

impl View for RootOwner {
    type V = bool;

    closed spec fn view(&self) -> bool {
        self.force_aborted
    }
}

impl RootOwner {
    /// An owner that has not aborted its task.
    pub fn new() -> (owner: Self)
        ensures
            !owner@,
    {
        RootOwner { force_aborted: false }
    }

    fn force_abort_once(&mut self, reason: &str, hub: &mut ObservationHub, now: u64) -> (abort: bool)
        requires
            old(hub).wf(),
            old(hub)@.has_room(old(hub)@.closing_events()),
        ensures
            final(hub).wf(),
            final(self)@,
            abort == !old(self)@,
            final(hub)@ == if abort {
                old(hub)@.force_aborted(reason@, now)
            } else {
                old(hub)@
            },
    {
        if self.force_aborted {
            false
        } else {
            self.force_aborted = true;
            hub.force_abort(reason, now);
            true
        }
    }

    /// Aborts the root task by force, the first time only. The result tells
    /// whether the task has to be aborted.
    pub fn abort(&mut self, hub: &mut ObservationHub, now: u64) -> (abort: bool)
        requires
            old(hub).wf(),
            old(hub)@.has_room(old(hub)@.closing_events()),
        ensures
            final(hub).wf(),
            final(self)@,
            abort == !old(self)@,
            final(hub)@ == if abort {
                old(hub)@.force_aborted("root task was force-aborted by its owner"@, now)
            } else {
                old(hub)@
            },
    {
        self.force_abort_once("root task was force-aborted by its owner", hub, now)
    }

    /// Gives up the ownership of the root task. A task that has not finished is
    /// aborted, so that no service leaks.
    pub fn release(&mut self, finished: bool, hub: &mut ObservationHub, now: u64) -> (abort: bool)
        requires
            old(hub).wf(),
            old(hub)@.has_room(old(hub)@.closing_events()),
        ensures
            final(hub).wf(),
            final(self)@ == (old(self)@ || !finished),
            abort == (!finished && !old(self)@),
            final(hub)@ == if abort {
                old(hub)@.force_aborted(
                    "root task ownership was dropped before service shutdown"@,
                    now,
                )
            } else {
                old(hub)@
            },
    {
        if finished {
            false
        } else {
            self.force_abort_once(
                "root task ownership was dropped before service shutdown",
                hub,
                now,
            )
        }
    }
}

/// Whether a service may go from one stage to another.
pub open spec fn may_follow(from: ServiceLifecycle, to: ServiceLifecycle) -> bool {
    match from {
        ServiceLifecycle::Initializing => to == ServiceLifecycle::Running || to
            == ServiceLifecycle::Draining || to == ServiceLifecycle::Stopping || to
            == ServiceLifecycle::Failed,
        ServiceLifecycle::Running => to == ServiceLifecycle::Paused || to
            == ServiceLifecycle::Draining || to == ServiceLifecycle::Stopping,
        ServiceLifecycle::Paused => to == ServiceLifecycle::Running || to
            == ServiceLifecycle::Draining || to == ServiceLifecycle::Stopping,
        ServiceLifecycle::Draining => to == ServiceLifecycle::Stopping || to
            == ServiceLifecycle::Stopped || to == ServiceLifecycle::Failed,
        ServiceLifecycle::Stopping => to == ServiceLifecycle::Stopped || to
            == ServiceLifecycle::Failed,
        ServiceLifecycle::Stopped | ServiceLifecycle::Failed => false,
    }
}

/// A control request moves the lifecycle along its graph or leaves it alone. A
/// service that has ended stays as it ended and refuses every change of stage.
pub proof fn law_control_follows_lifecycle(
    stage: ServiceLifecycle,
    request: ControlRequest,
    hub: HubView,
)
    ensures
        stage_after(stage, request) == stage || may_follow(stage, stage_after(stage, request)),
        stage == ServiceLifecycle::Stopped || stage == ServiceLifecycle::Failed ==> {
            &&& stage_after(stage, request) == stage
            &&& request is CancelTask || (control_answer(stage, request, hub) matches Some(
                Err(ControlError::InvalidTransition { from, .. }),
            ) && from == stage)
        },
{
}

/// The observed lifecycle is the stage of the root: a control request keeps the
/// two equal.
pub proof fn law_stage_is_observed(
    stage: ServiceLifecycle,
    request: ControlRequest,
    hub: HubView,
    now: u64,
)
    requires
        hub.valid(),
        hub.snapshot.lifecycle == stage,
    ensures
        hub_after(stage, request, hub, now).snapshot.lifecycle == stage_after(stage, request),
{
    let entered = hub.entered(
        ServiceLifecycle::Stopping,
        "cooperative stop requested"@,
        now,
    );
    super::hub::lemma_order_covers_tasks(hub.tasks);
    super::hub::lemma_cancels_requested(
        entered,
        task_order(hub.tasks),
        "service is stopping"@,
        now,
    );
}

/// A pause and a resume undo each other.
pub proof fn law_resume_undoes_pause(stage: ServiceLifecycle)
    ensures
        stage == ServiceLifecycle::Running ==> stage_after(
            stage_after(stage, ControlRequest::Pause),
            ControlRequest::Resume,
        ) == stage,
        stage == ServiceLifecycle::Paused ==> stage_after(
            stage_after(stage, ControlRequest::Resume),
            ControlRequest::Pause,
        ) == stage,
{
}

/// Draining cancels nothing: every active task stays as it is, and no request
/// in flight is touched.
pub proof fn law_drain_keeps_accepted_work(stage: ServiceLifecycle, hub: HubView, now: u64)
    ensures
        hub_after(stage, ControlRequest::Drain, hub, now).tasks == hub.tasks,
        hub_after(stage, ControlRequest::Drain, hub, now).requests == hub.requests,
        hub_after(stage, ControlRequest::Drain, hub, now).snapshot.in_flight_requests
            == hub.snapshot.in_flight_requests,
{
}

/// Stopping asks for cancellation only: every active task stays active, each
/// cancellable one is marked, and the requests in flight stay until they settle.
pub proof fn law_stop_is_cooperative(stage: ServiceLifecycle, hub: HubView, now: u64)
    requires
        hub.valid(),
        can_stop(stage),
    ensures
        ({
            let after = hub_after(stage, ControlRequest::Stop, hub, now);
            &&& after.tasks.dom() == hub.tasks.dom()
            &&& after.requests == hub.requests
            &&& forall|task: u64| #[trigger]
                hub.tasks.contains_key(task) && hub.tasks[task].snapshot.cancellable
                    ==> after.tasks[task].snapshot.state == super::observation::TaskState::Cancelling
        }),
{
    let entered = hub.entered(
        ServiceLifecycle::Stopping,
        "cooperative stop requested"@,
        now,
    );
    super::hub::lemma_order_covers_tasks(hub.tasks);
    super::hub::lemma_cancels_requested(
        entered,
        task_order(hub.tasks),
        "service is stopping"@,
        now,
    );
}

/// The root shuts its service down only when the service is closing and no
/// request runs, and it accepts requests only while the service runs below its
/// concurrency.
pub proof fn law_shutdown_waits_for_requests(root: RootView)
    ensures
        root.step() == RootStep::Shutdown <==> is_closing(root.stage) && root.running == 0,
        root.takes_business() && root.stage == ServiceLifecycle::Running ==> root.running
            < root.max_in_flight,
{
}

/// Drain takes a service that initializes, runs or is paused to `Draining`, and
/// whoever asked is answered at the end of the service; so is whoever asks while
/// it drains. A service that stops or has ended refuses and stays as it is.
pub proof fn law_drain_waits_for_the_end(stage: ServiceLifecycle, hub: HubView)
    ensures
        stage is Initializing || stage is Running || stage is Paused || stage is Draining ==> {
            &&& stage_after(stage, ControlRequest::Drain) is Draining
            &&& control_answer(stage, ControlRequest::Drain, hub) is None
        },
        stage is Stopping || stage is Stopped || stage is Failed ==> {
            &&& stage_after(stage, ControlRequest::Drain) == stage
            &&& control_answer(stage, ControlRequest::Drain, hub) matches Some(
                Err(ControlError::InvalidTransition { from, command }),
            )
            &&& from == stage
            &&& command@ == "drain"@
        },
{
}

/// Stop takes a service that has neither stopped nor failed to `Stopping`, also
/// while it drains, and whoever asked is answered at the end of the service. A
/// service that has ended refuses and stays as it is.
pub proof fn law_stop_waits_for_the_end(stage: ServiceLifecycle, hub: HubView)
    ensures
        stage is Initializing || stage is Running || stage is Paused || stage is Draining
            || stage is Stopping ==> {
            &&& stage_after(stage, ControlRequest::Stop) is Stopping
            &&& control_answer(stage, ControlRequest::Stop, hub) is None
        },
        stage is Stopped || stage is Failed ==> {
            &&& stage_after(stage, ControlRequest::Stop) == stage
            &&& control_answer(stage, ControlRequest::Stop, hub) matches Some(
                Err(ControlError::InvalidTransition { from, command }),
            )
            &&& from == stage
            &&& command@ == "stop"@
        },
        can_stop(stage) <==> stage is Initializing || stage is Running || stage is Paused
            || stage is Draining,
{
}

/// Only a running service can be paused, and only a paused one resumed. Both are
/// answered at once, and a refusal names the stage and the command and changes
/// nothing.
pub proof fn law_pause_and_resume_are_answered_at_once(stage: ServiceLifecycle, hub: HubView)
    ensures
        stage is Running ==> {
            &&& stage_after(stage, ControlRequest::Pause) is Paused
            &&& control_answer(stage, ControlRequest::Pause, hub) matches Some(Ok(_))
        },
        !(stage is Running) ==> {
            &&& stage_after(stage, ControlRequest::Pause) == stage
            &&& control_answer(stage, ControlRequest::Pause, hub) matches Some(
                Err(ControlError::InvalidTransition { from, command }),
            )
            &&& from == stage
            &&& command@ == "pause"@
        },
        stage is Paused ==> {
            &&& stage_after(stage, ControlRequest::Resume) is Running
            &&& control_answer(stage, ControlRequest::Resume, hub) matches Some(Ok(_))
        },
        !(stage is Paused) ==> {
            &&& stage_after(stage, ControlRequest::Resume) == stage
            &&& control_answer(stage, ControlRequest::Resume, hub) matches Some(
                Err(ControlError::InvalidTransition { from, command }),
            )
            &&& from == stage
            &&& command@ == "resume"@
        },
{
}

/// Cancelling a task is possible in every stage and changes none. It is answered
/// at once: success exactly for an active task that can be cancelled, and
/// otherwise that the task is not active or not cancellable.
pub proof fn law_task_is_cancelled_in_every_stage(
    stage: ServiceLifecycle,
    task: TaskId,
    cause: String,
    hub: HubView,
)
    ensures
        ({
            let request = ControlRequest::CancelTask { task, cause };
            let answer = control_answer(stage, request, hub);
            &&& stage_after(stage, request) == stage
            &&& answer is Some
            &&& !hub.tasks.contains_key(task@) ==> answer == Some(
                Err::<(), _>(ControlError::TaskNotFound(task)),
            )
            &&& hub.tasks.contains_key(task@) && !hub.tasks[task@].snapshot.cancellable ==> answer
                == Some(Err::<(), _>(ControlError::TaskNotCancellable(task)))
            &&& hub.tasks.contains_key(task@) && hub.tasks[task@].snapshot.cancellable ==> {
                &&& answer matches Some(Ok(_))
                &&& control_tokens(stage, request, hub) == seq![hub.tasks[task@].cancellation]
            }
            &&& !(hub.tasks.contains_key(task@) && hub.tasks[task@].snapshot.cancellable) ==> {
                &&& control_tokens(stage, request, hub).len() == 0
                &&& forall|now: u64| #[trigger] hub_after(stage, request, hub, now) == hub
            }
        }),
{
}

/// A control request that changes the stage is told as such, with the stage
/// before, the stage after and the command; one that does not is told of no
/// change of stage. Only a stop that changes the stage cancels the tasks of the
/// service, and then every one of them that can be cancelled.
pub proof fn law_change_of_stage_is_told(
    stage: ServiceLifecycle,
    hub: HubView,
    now: u64,
    task: u64,
    token: CancellationToken,
)
    requires
        hub.valid(),
        hub.has_room(hub.tasks.dom().len() + 1),
        hub.snapshot.lifecycle == stage,
    ensures
        stage is Running ==> told(
            hub,
            hub_after(stage, ControlRequest::Pause, hub, now),
            seq![RuntimeEventKindView::LifecycleChanged {
                from: stage,
                to: ServiceLifecycle::Paused,
                reason: "pause requested"@,
            }],
            now,
        ),
        !(stage is Running) ==> hub_after(stage, ControlRequest::Pause, hub, now) == hub,
        stage is Paused ==> told(
            hub,
            hub_after(stage, ControlRequest::Resume, hub, now),
            seq![RuntimeEventKindView::LifecycleChanged {
                from: stage,
                to: ServiceLifecycle::Running,
                reason: "resume requested"@,
            }],
            now,
        ),
        !(stage is Paused) ==> hub_after(stage, ControlRequest::Resume, hub, now) == hub,
        stage is Initializing || stage is Running || stage is Paused ==> told(
            hub,
            hub_after(stage, ControlRequest::Drain, hub, now),
            seq![RuntimeEventKindView::LifecycleChanged {
                from: stage,
                to: ServiceLifecycle::Draining,
                reason: "drain requested"@,
            }],
            now,
        ),
        !(stage is Initializing || stage is Running || stage is Paused) ==> hub_after(
            stage,
            ControlRequest::Drain,
            hub,
            now,
        ) == hub,
        stage is Initializing || stage is Running || stage is Paused || stage is Draining ==> {
            let after = hub_after(stage, ControlRequest::Stop, hub, now);
            &&& after.snapshot.lifecycle is Stopping
            &&& after.outbox.len() > hub.outbox.len()
            &&& after.outbox[hub.outbox.len() as int].kind
                == (RuntimeEventKindView::LifecycleChanged {
                from: stage,
                to: ServiceLifecycle::Stopping,
                reason: "cooperative stop requested"@,
            })
            &&& hub.tasks.contains_key(task) && hub.tasks[task].snapshot.cancellable
                && hub.tasks[task].cancellation == token ==> control_tokens(
                stage,
                ControlRequest::Stop,
                hub,
            ).contains(token)
            &&& control_tokens(stage, ControlRequest::Stop, hub).contains(token) ==> exists|id: u64|
                #[trigger] hub.tasks.contains_key(id) && hub.tasks[id].snapshot.cancellable
                    && hub.tasks[id].cancellation == token
        },
        stage is Stopping || stage is Stopped || stage is Failed ==> {
            &&& hub_after(stage, ControlRequest::Stop, hub, now) == hub
            &&& control_tokens(stage, ControlRequest::Stop, hub).len() == 0
        },
        control_tokens(stage, ControlRequest::Pause, hub).len() == 0,
        control_tokens(stage, ControlRequest::Resume, hub).len() == 0,
        control_tokens(stage, ControlRequest::Drain, hub).len() == 0,
{
    let order = task_order(hub.tasks);
    super::hub::lemma_order_covers_tasks(hub.tasks);
    crate::ordered_map::lemma_every_key_is_listed::<TaskId>(hub.tasks.dom());
    super::hub::law_tokens_are_those_of_cancellable_tasks(hub, order, token);
    let entered = hub.entered(
        ServiceLifecycle::Stopping,
        "cooperative stop requested"@,
        now,
    );
    super::hub::lemma_cancels_requested(entered, order, "service is stopping"@, now);
    lemma_cancels_extend(entered, order, now);
    if hub.tasks.contains_key(task) {
        assert(hub.tasks.dom().contains(task));
        let i = choose|i: int| 0 <= i < order.len() && order[i] == task;
        assert(order[i] == task);
    }
    if hub.tokens_of(order).contains(token) {
        let i = choose|i: int|
            0 <= i < order.len() && hub.tasks[#[trigger] order[i]].snapshot.cancellable
                && hub.tasks[order[i]].cancellation == token;
        assert(hub.tasks.dom().contains(order[i]));
        assert(hub.tasks.contains_key(order[i]));
    }
}

proof fn lemma_cancels_extend(hub: HubView, tasks: Seq<u64>, now: u64)
    ensures
        hub.cancels_requested(tasks, "service is stopping"@, now).outbox.len() >= hub.outbox.len(),
        forall|i: int|
            0 <= i < hub.outbox.len() ==> #[trigger] hub.cancels_requested(
                tasks,
                "service is stopping"@,
                now,
            ).outbox[i] == hub.outbox[i],
    decreases tasks.len(),
{
    if tasks.len() > 0 {
        lemma_cancels_extend(hub, tasks.drop_last(), now);
    }
}

/// Whoever waits for the end of a service is told of success exactly when it
/// stopped in order, and that it is gone otherwise.
pub proof fn law_end_is_a_success_only_if_stopped(stage: ServiceLifecycle)
    ensures
        end_answer(stage) is Ok <==> stage is Stopped,
        end_answer(stage) matches Err(error) ==> error == ControlError::ServiceStopped,
{
}

/// A step that failed has the text of its error, and a step that succeeded has
/// none.
pub proof fn law_failure_has_a_text(result: Result<(), String>)
    ensures
        failure_text(result) is None <==> result is Ok,
        result matches Err(error) ==> failure_text(result) == Some(error@),
{
}

/// A reply is lost with a request that was in flight only in a service that has
/// ended: a failed one panicked, a stopped one aborted it. Without acceptance, or
/// in any other stage, the service is just gone.
pub proof fn law_lost_reply_tells_the_end<E>(accepted: bool, stage: ServiceLifecycle)
    ensures
        CallError::<E>::of_lost_reply(accepted, stage) is HandlerPanicked <==> accepted
            && stage is Failed,
        CallError::<E>::of_lost_reply(accepted, stage) is RequestAborted <==> accepted
            && stage is Stopped,
        CallError::<E>::of_lost_reply(accepted, stage) is Stopped <==> !accepted || !(stage is Failed
            || stage is Stopped),
{
}

/// The root shuts down exactly when the service drains or stops and no request
/// runs. Until that it waits for the requests that run, if there are any, and
/// takes messages while there are clients: a running service only below its
/// concurrency, a service in any other stage always, to turn them away.
pub proof fn law_root_waits_for_what_can_come(root: RootView)
    ensures
        root.step() is Shutdown <==> (root.stage is Draining || root.stage is Stopping)
            && root.running == 0,
        root.step() matches RootStep::Wait { business, requests } ==> {
            &&& requests <==> root.running > 0
            &&& business <==> root.business_open && (!(root.stage is Running) || root.running
                < root.max_in_flight)
        },
        root.takes_business() <==> root.business_open && (!(root.stage is Running) || root.running
            < root.max_in_flight),
{
}

/// A root that is asked to drain while its service initializes, runs or is paused
/// drains from then on and answers nobody yet; asked to stop, it stops and has all
/// its work cancelled. Whatever is asked, only the stage of the root changes.
pub proof fn law_root_carries_commands_out(
    root: &mut ServiceRoot,
    request: ControlRequest,
    hub: &mut ObservationHub,
    now: u64,
    step: ControlStep,
)
    requires
        call_ensures(ServiceRoot::decide_control, (root, &request, hub, now), step),
    ensures
        ({
            let before = old(root)@;
            let after = final(root)@;
            let closing = before.stage is Initializing || before.stage is Running
                || before.stage is Paused;
            &&& request is Drain && closing ==> after.stage is Draining && step.answer is None
                && !step.cancel_service && step.tokens@.len() == 0
            &&& request is Stop && (closing || before.stage is Draining) ==> after.stage is Stopping
                && step.answer is None && step.cancel_service
            &&& request is Pause ==> (after.stage is Paused <==> before.stage is Running
                || before.stage is Paused) && (step.answer matches Some(answer) && (answer is Ok
                <==> before.stage is Running))
            &&& request is Resume ==> (after.stage is Running <==> before.stage is Running
                || before.stage is Paused) && (step.answer matches Some(answer) && (answer is Ok
                <==> before.stage is Paused))
            &&& step.cancel_service ==> request is Stop
            &&& before.stage is Stopped || before.stage is Failed ==> after.stage == before.stage
            &&& after.running == before.running
            &&& after.business_open == before.business_open
            &&& after.max_in_flight == before.max_in_flight
            &&& after.waiters == before.waiters
            &&& after.cancellation == before.cancellation
        }),
{
}

/// A command without an answer joins those who wait for the end of the service,
/// behind all who wait already. One with an answer is answered and does not wait.
pub proof fn law_unanswered_commands_wait(
    root: &mut ServiceRoot,
    step: ControlStep,
    reply: oneshot::Sender<Result<(), ControlError>>,
    done: (),
)
    requires
        call_ensures(ServiceRoot::finish_control, (root, step, reply), done),
    ensures
        step.answer is None ==> final(root)@.waiters == old(root)@.waiters.push(reply),
        step.answer matches Some(answer) ==> final(root)@.waiters == old(root)@.waiters && sent(
            reply,
            answer,
        ),
        step.cancel_service ==> cancel_requested(old(root)@.cancellation),
        all_cancelled(step.tokens@),
        final(root)@.stage == old(root)@.stage,
        final(root)@.running == old(root)@.running,
{
}

/// Everyone who waits for the end is told the same: success if the service
/// stopped, and that it is gone otherwise. Nobody waits after that.
pub proof fn law_everyone_who_waits_is_answered(
    root: &mut ServiceRoot,
    answer: Result<(), ControlError>,
    at: int,
)
    requires
        call_ensures(ServiceRoot::answer_waiters, (root,), answer),
    ensures
        answer is Ok <==> old(root)@.stage is Stopped,
        answer matches Err(error) ==> error is ServiceStopped,
        0 <= at < old(root)@.waiters.len() ==> sent(old(root)@.waiters[at], answer),
        final(root)@.waiters.len() == 0,
        final(root)@.stage == old(root)@.stage,
{
}

/// A service whose initialization succeeded runs, unless it was told meanwhile to
/// drain or to stop. One whose initialization failed has failed, unless it stops
/// anyway.
pub proof fn law_service_runs_once_initialized(
    root: &mut ServiceRoot,
    result: Result<(), String>,
    hub: &mut ObservationHub,
    now: u64,
    startup: Startup,
)
    requires
        call_ensures(ServiceRoot::initialization_finished, (root, result, hub, now), startup),
    ensures
        startup is Failed <==> result is Err && !(old(root)@.stage is Stopping),
        startup is Failed ==> final(root)@.stage is Failed && final(hub)@.snapshot.lifecycle is Failed,
        startup is Serve && old(root)@.stage is Initializing ==> final(root)@.stage is Running
            && final(hub)@.snapshot.lifecycle is Running,
        startup is Serve && !(old(root)@.stage is Initializing) ==> final(root)@ == old(root)@
            && final(hub)@ == old(hub)@,
{
}

/// A service ends as stopped exactly when its shutdown succeeded, and as failed
/// otherwise.
pub proof fn law_shutdown_decides_the_end(
    root: &mut ServiceRoot,
    result: Result<(), String>,
    hub: &mut ObservationHub,
    now: u64,
    done: (),
)
    requires
        call_ensures(ServiceRoot::shutdown_finished, (root, result, hub, now), done),
    ensures
        result is Ok ==> final(root)@.stage is Stopped && final(hub)@.snapshot.lifecycle is Stopped,
        result matches Err(error) ==> {
            &&& final(root)@.stage is Failed
            &&& final(hub)@.snapshot.lifecycle is Failed
            &&& final(hub)@.snapshot.last_error == Some(error@)
        },
        final(root)@.waiters == old(root)@.waiters,
{
}

/// Only a running service accepts a message, and every other turns it away for its
/// stage; what is accepted runs and is counted. When all clients are gone, a
/// service that runs or is paused drains, and no message is taken any more.
pub proof fn law_only_a_running_service_accepts(
    root: &mut ServiceRoot,
    message: Option<&OperationContext>,
    counter: &mut IdCounter,
    hub: &mut ObservationHub,
    now: u64,
    reception: Reception,
)
    requires
        old(root)@.running < usize::MAX,
        call_ensures(ServiceRoot::receive, (root, message, counter, hub, now), reception),
    ensures
        reception is ClientsGone <==> message is None,
        reception is Accepted <==> message is Some && old(root)@.stage is Running,
        reception is Accepted ==> {
            &&& final(root)@.running == old(root)@.running + 1
            &&& final(root)@.stage == old(root)@.stage
            &&& final(root)@.business_open == old(root)@.business_open
        },
        reception matches Reception::Rejected(reason) ==> {
            &&& final(root)@ == old(root)@
            &&& old(root)@.stage is Initializing <==> reason is Initializing
            &&& old(root)@.stage is Paused <==> reason is Paused
            &&& old(root)@.stage is Draining <==> reason is Draining
            &&& old(root)@.stage is Stopping <==> reason is Stopping
            &&& old(root)@.stage is Stopped <==> reason is Stopped
            &&& old(root)@.stage is Failed <==> reason is Failed
        },
        reception is ClientsGone ==> {
            &&& !final(root)@.business_open
            &&& final(root)@.running == old(root)@.running
            &&& old(root)@.stage is Running || old(root)@.stage is Paused ==> final(root)@.stage is Draining
            &&& !(old(root)@.stage is Running || old(root)@.stage is Paused) ==> final(root)@.stage
                == old(root)@.stage
        },
{
}

/// A request that ended runs no longer, and nothing else of the root changes.
pub proof fn law_ended_request_runs_no_longer(
    root: &mut ServiceRoot,
    request: RequestId,
    error: Option<String>,
    hub: &mut ObservationHub,
    now: u64,
    activity: Option<ServiceActivity>,
)
    requires
        old(root)@.running > 0,
        call_ensures(ServiceRoot::request_finished, (root, request, error, hub, now), activity),
    ensures
        final(root)@.running == old(root)@.running - 1,
        final(root)@.stage == old(root)@.stage,
        final(root)@.business_open == old(root)@.business_open,
        final(root)@.waiters == old(root)@.waiters,
        activity is Some <==> final(hub)@.snapshot.activity != old(hub)@.snapshot.activity,
{
}

/// A client may queue a request exactly while the service initializes or runs.
/// Otherwise the request is turned away for the stage, counted as such and not
/// queued.
pub proof fn law_requests_are_queued_before_and_while_running(
    operation: OperationContext,
    hub: &mut ObservationHub,
    now: u64,
    result: Result<(), ServiceUnavailable>,
)
    requires
        old(hub)@.valid(),
        old(hub)@.has_room(1),
        old(hub)@.snapshot.queued_requests < usize::MAX,
        call_ensures(enqueue, (&operation, hub, now), result),
    ensures
        ({
            let before = old(hub)@.snapshot;
            let after = final(hub)@.snapshot;
            &&& result is Ok <==> before.lifecycle is Initializing || before.lifecycle is Running
            &&& result is Ok ==> after.queued_requests == before.queued_requests + 1
                && after.rejected_requests == before.rejected_requests
            &&& result matches Err(reason) ==> {
                &&& after.queued_requests == before.queued_requests
                &&& after.rejected_requests == before.rejected_requests + 1
                &&& before.lifecycle is Paused <==> reason is Paused
                &&& before.lifecycle is Draining <==> reason is Draining
                &&& before.lifecycle is Stopping <==> reason is Stopping
                &&& before.lifecycle is Stopped <==> reason is Stopped
                &&& before.lifecycle is Failed <==> reason is Failed
            }
        }),
{
}

/// A message that is left over when its service has ended leaves the queue and is
/// counted as turned away.
pub proof fn law_remaining_messages_are_turned_away(
    operation: OperationId,
    reason: ServiceUnavailable,
    hub: &mut ObservationHub,
    now: u64,
    done: (),
)
    requires
        old(hub)@.valid(),
        old(hub)@.has_room(2),
        old(hub)@.snapshot.queued_requests > 0,
        call_ensures(reject_remaining, (operation, reason, hub, now), done),
    ensures
        final(hub)@.snapshot.queued_requests == old(hub)@.snapshot.queued_requests - 1,
        final(hub)@.snapshot.rejected_requests == old(hub)@.snapshot.rejected_requests + 1,
        final(hub)@.snapshot.accepted_requests == old(hub)@.snapshot.accepted_requests,
        final(hub)@.requests == old(hub)@.requests,
{
}

/// A root task is aborted by force at most once, and never when it has finished;
/// giving up the ownership of one that has not finished aborts it.
pub proof fn law_root_task_is_aborted_once(
    owner: &mut RootOwner,
    hub: &mut ObservationHub,
    now: u64,
    abort: bool,
    holder: &mut RootOwner,
    finished: bool,
    other: &mut ObservationHub,
    dropped: bool,
)
    requires
        call_ensures(RootOwner::abort, (owner, hub, now), abort),
        call_ensures(RootOwner::release, (holder, finished, other, now), dropped),
    ensures
        abort <==> !old(owner)@,
        final(owner)@,
        !abort ==> final(hub)@ == old(hub)@,
        abort ==> final(hub)@.snapshot.lifecycle is Stopped,
        dropped <==> !finished && !old(holder)@,
        !finished ==> final(holder)@,
        finished ==> final(holder)@ == old(holder)@,
        !dropped ==> final(other)@ == old(other)@,
        dropped ==> final(other)@.snapshot.lifecycle is Stopped,
{
}

/// A configuration is refused exactly when one of its capacities or its
/// concurrency is zero. The usual one is not refused.
pub proof fn law_capacities_are_not_zero(
    config: ServiceConfig,
    problem: Option<&'static str>,
    name: &str,
    domain: &str,
    usual: ServiceConfig,
)
    requires
        call_ensures(ServiceConfig::problem, (&config,), problem),
        call_ensures(ServiceConfig::new, (name, domain), usual),
    ensures
        problem is None <==> config.business_capacity > 0 && config.control_capacity > 0
            && config.max_in_flight_requests > 0,
        usual@.business_capacity > 0 && usual@.control_capacity > 0 && usual@.max_in_flight_requests
            > 0,
        usual@.name == name@,
        usual@.domain == domain@,
{
}

/// The sender of a command gets the answer that was sent, and learns that the
/// service is gone where none was.
pub proof fn law_sender_gets_the_answer(
    received: Result<Result<(), ControlError>, oneshot::error::RecvError>,
    result: Result<(), ControlError>,
)
    requires
        call_ensures(control_result, (received,), result),
    ensures
        received matches Ok(answer) ==> result == answer,
        received is Err ==> result == Err::<(), _>(ControlError::ServiceStopped),
{
}

/// A command is handled as it was decided: its sender is answered at once where an
/// answer is due, and waits for the end of the service where none is. A stop that
/// takes effect cancels all work of the service.
pub proof fn law_handled_command_is_answered_or_waits(
    root: &mut ServiceRoot,
    command: ControlCommand,
    hub: &mut ObservationHub,
    now: u64,
    reply: Option<Result<(), ControlError>>,
)
    requires
        call_ensures(ServiceRoot::handle_control, (root, command, hub, now), reply),
    ensures
        ({
            let before = old(root)@.stage;
            let after = final(root)@.stage;
            let open = before is Initializing || before is Running || before is Paused;
            &&& command.request is Drain && (open || before is Draining) ==> after is Draining
                && reply is None
            &&& command.request is Stop && (open || before is Draining || before is Stopping)
                ==> after is Stopping && reply is None
            &&& command.request is Stop && (open || before is Draining) ==> cancel_requested(
                old(root)@.cancellation,
            )
            &&& before is Stopped || before is Failed ==> after == before
            &&& reply is None ==> final(root)@.waiters == old(root)@.waiters.push(command.reply)
            &&& reply matches Some(answer) ==> final(root)@.waiters == old(root)@.waiters && sent(
                command.reply,
                answer,
            )
        }),
{
}

/// The root says what it waits for: it shuts down exactly when the service drains
/// or stops and no request runs, and takes messages of a running service only
/// below its concurrency.
pub proof fn law_root_says_what_it_waits_for<E>(
    root: ServiceRoot,
    step: RootStep,
    accepted: bool,
    stage: ServiceLifecycle,
    error: CallError<E>,
)
    requires
        call_ensures(ServiceRoot::next_step, (&root,), step),
        call_ensures(CallError::<E>::lost_reply, (accepted, stage), error),
    ensures
        step is Shutdown <==> (root@.stage is Draining || root@.stage is Stopping) && root@.running
            == 0,
        step matches RootStep::Wait { business, requests } ==> {
            &&& requests <==> root@.running > 0
            &&& business <==> root@.business_open && (!(root@.stage is Running) || root@.running
                < root@.max_in_flight)
        },
        error is HandlerPanicked <==> accepted && stage is Failed,
        error is RequestAborted <==> accepted && stage is Stopped,
        error is Stopped <==> !accepted || !(stage is Failed || stage is Stopped),
{
}

/// A panic is told by its own text where it has one, and a root that panicked has
/// failed with that text.
pub proof fn law_panic_is_told_by_its_text(
    literal: Option<&str>,
    owned: Option<&String>,
    text: &str,
    hub: &mut ObservationHub,
    panic: &str,
    now: u64,
    done: (),
)
    requires
        call_ensures(panic_message, (literal, owned), text),
        call_ensures(root_panicked, (hub, panic, now), done),
    ensures
        literal matches Some(said) ==> text@ == said@,
        literal is None ==> (owned matches Some(said) ==> text@ == said@),
        literal is None && owned is None ==> text@ == "non-string panic payload"@,
        final(hub)@.snapshot.lifecycle is Failed,
        final(hub)@.snapshot.last_error == Some("service root panicked: "@ + panic@),
{
}

/// A stop asks only those tasks to cancel that can be cancelled: every other task
/// stays exactly as it was.
pub proof fn law_stop_spares_what_cannot_be_cancelled(
    stage: ServiceLifecycle,
    hub: HubView,
    now: u64,
    task: u64,
)
    requires
        hub.valid(),
        hub.tasks.contains_key(task),
        !hub.tasks[task].snapshot.cancellable,
    ensures
        ({
            let after = hub_after(stage, ControlRequest::Stop, hub, now);
            &&& after.tasks.contains_key(task)
            &&& after.tasks[task] == hub.tasks[task]
        }),
{
    let entered = hub.entered(
        ServiceLifecycle::Stopping,
        "cooperative stop requested"@,
        now,
    );
    let order = task_order(hub.tasks);
    super::hub::lemma_order_covers_tasks(hub.tasks);
    crate::ordered_map::lemma_every_key_is_listed::<TaskId>(hub.tasks.dom());
    assert forall|i: int| 0 <= i < order.len() implies entered.tasks.contains_key(
        #[trigger] order[i],
    ) by {
        assert(hub.tasks.dom().contains(order[i]));
    }
    lemma_cancels_spare(entered, order, now, task);
}

proof fn lemma_cancels_spare(hub: HubView, tasks: Seq<u64>, now: u64, task: u64)
    requires
        hub.tasks.contains_key(task),
        !hub.tasks[task].snapshot.cancellable,
        forall|id: u64| #[trigger]
            hub.tasks.contains_key(id) ==> hub.tasks[id].snapshot.id@ == id,
        forall|i: int| 0 <= i < tasks.len() ==> hub.tasks.contains_key(#[trigger] tasks[i]),
    ensures
        ({
            let after = hub.cancels_requested(tasks, "service is stopping"@, now);
            &&& after.tasks.contains_key(task)
            &&& after.tasks[task] == hub.tasks[task]
            &&& forall|id: u64| #[trigger]
                hub.tasks.contains_key(id) ==> after.tasks.contains_key(id)
                    && after.tasks[id].snapshot.id@ == id
        }),
    decreases tasks.len(),
{
    if tasks.len() > 0 {
        let shorter = tasks.drop_last();
        assert forall|i: int| 0 <= i < shorter.len() implies hub.tasks.contains_key(
            #[trigger] shorter[i],
        ) by {
            assert(shorter[i] == tasks[i]);
        }
        lemma_cancels_spare(hub, shorter, now, task);
        assert(hub.tasks.contains_key(tasks[tasks.len() - 1]));
    }
}

/// A task of a request belongs to the operation of the request and is active under
/// the next identity. A request controls exactly the tasks that are active.
pub proof fn law_request_starts_and_controls_tasks(
    context: RequestContext,
    hub: &mut ObservationHub,
    counter: &mut IdCounter,
    meta: TaskMeta,
    cancellation: CancellationToken,
    now: u64,
    attempt: TaskAttempt,
    observed: ObservationHub,
    task: TaskId,
    control: Option<TaskControl>,
)
    requires
        old(hub)@.valid(),
        call_ensures(
            RequestContext::start_task,
            (&context, hub, counter, meta, cancellation, now),
            attempt,
        ),
        call_ensures(RequestContext::control_task, (&context, &observed, task), control),
    ensures
        attempt@.id@ == old(counter)@,
        attempt@.operation == context@.operation.id,
        attempt@.cancellation == cancellation,
        final(hub)@.tasks.contains_key(attempt@.id@),
        final(hub)@.tasks[attempt@.id@].cancellation == cancellation,
        final(hub)@.tasks[attempt@.id@].snapshot.operation_id == context@.operation.id,
        final(hub)@.tasks[attempt@.id@].snapshot.key == meta@.key,
        final(hub)@.tasks[attempt@.id@].snapshot.cancellable == meta@.cancellable,
        control is Some <==> observed@.tasks.contains_key(task@),
        control matches Some(control) ==> control@ == task,
{
}

} // verus!
