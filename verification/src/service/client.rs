//! Calls to a service with managed tasks.
use crate::protocol::{CallError, RuntimeError, TaskExit, TraceContext};
use crate::runtime::ids::{number_after, IdCounter, OperationId, RequestId, TaskId};
use crate::runtime::lifecycle::ServiceLifecycle;
use crate::outside::token_made;
use crate::task::context::{reason_made, RequestContext};
use tokio::sync::oneshot;
use vstd::prelude::*;
use vstd::string::StringExecFns;

verus! {

/// Whether a service takes requests: only while it runs.
pub fn check_available(name: &str, lifecycle: ServiceLifecycle) -> (result: Result<(), RuntimeError>)
    ensures
        if lifecycle == ServiceLifecycle::Running {
            result is Ok
        } else {
            result matches Err(RuntimeError::ServiceUnavailable(text)) && text@ == name@ + " is "@
                + lifecycle.name_text()
        },
{
    if lifecycle == ServiceLifecycle::Running {
        return Ok(());
    }
    let mut text = name.to_owned();
    text.append(" is ");
    text.append(lifecycle.name());
    Err(RuntimeError::ServiceUnavailable(text))
}

/// A request that nothing else caused: a new operation, traced under its number.
pub fn root_request(operations: &mut IdCounter, requests: &mut IdCounter) -> (context:
    RequestContext)
    ensures
        context.operation_id@ == old(operations)@,
        final(operations)@ == number_after(old(operations)@),
        context.request_id@ == old(requests)@,
        final(requests)@ == number_after(old(requests)@),
        context.trace == (TraceContext {
            trace_id: old(operations)@ as u128,
            parent_task: None,
        }),
        token_made(context.cancellation),
        reason_made(context.reason),
{
    let operation_id = OperationId::next(operations);
    let request_id = RequestId::next(requests);
    let trace_id = operation_id.get() as u128;
    RequestContext::root(request_id, operation_id, TraceContext::root(trace_id))
}

/// What a request came to at once: a reply, or a task that goes on.
#[verifier::reject_recursive_types(T)]
#[verifier::reject_recursive_types(E)]
pub enum Submission<T, E> {
    Reply(Result<T, E>),
    Task(TaskTicket<T, E>),
}

/// The submitter's side of a task.
#[verifier::reject_recursive_types(T)]
#[verifier::reject_recursive_types(E)]
pub struct TaskTicket<T, E> {
    task_id: TaskId,
    completion: oneshot::Receiver<TaskExit<T, E>>,
}

impl<T, E> TaskTicket<T, E> {
    /// The identity of the task.
    pub closed spec fn id(&self) -> TaskId {
        self.task_id
    }

    /// What tells the end of the task.
    pub closed spec fn receiver(&self) -> oneshot::Receiver<TaskExit<T, E>> {
        self.completion
    }

    /// The ticket of a task.
    pub fn new(task_id: TaskId, completion: oneshot::Receiver<TaskExit<T, E>>) -> (ticket: Self)
        ensures
            ticket.id() == task_id,
            ticket.receiver() == completion,
    {
        TaskTicket { task_id, completion }
    }

    /// The identity of the task.
    pub fn task_id(&self) -> (id: TaskId)
        ensures
            id == self.id(),
    {
        self.task_id
    }

    /// The parts of the ticket.
    pub fn into_parts(self) -> (parts: (TaskId, oneshot::Receiver<TaskExit<T, E>>))
        ensures
            parts == (self.id(), self.receiver()),
    {
        (self.task_id, self.completion)
    }

    /// What waiting for a task came to: its end, or that it was lost.
    pub fn wait(received: Result<TaskExit<T, E>, oneshot::error::RecvError>) -> (result: Result<
        TaskExit<T, E>,
        RuntimeError,
    >)
        ensures
            result == (match received {
                Ok(exit) => Ok(exit),
                Err(_) => Err(RuntimeError::ResponseDropped),
            }),
    {
        match received {
            Ok(exit) => Ok(exit),
            Err(_) => Err(RuntimeError::ResponseDropped),
        }
    }
}

/// What a call comes to when its service replied at once.
pub fn reply_result<T, E>(reply: Result<T, E>) -> (result: Result<T, CallError<E>>)
    ensures
        result == (match reply {
            Ok(value) => Ok(value),
            Err(error) => Err(CallError::Service(error)),
        }),
{
    match reply {
        Ok(value) => Ok(value),
        Err(error) => Err(CallError::Service(error)),
    }
}

/// What a call comes to when a task carried it out.
pub fn task_result<T, E>(exit: Result<TaskExit<T, E>, RuntimeError>) -> (result: Result<
    T,
    CallError<E>,
>)
    ensures
        result == (match exit {
            Err(error) => Err(CallError::Runtime(error)),
            Ok(TaskExit::Completed(value)) => Ok(value),
            Ok(TaskExit::Failed(error)) => Err(CallError::Service(error)),
            Ok(TaskExit::Cancelled(reason)) => Err(CallError::Cancelled(reason)),
            Ok(TaskExit::Aborted) => Err(CallError::Aborted),
        }),
{
    match exit {
        Err(error) => Err(CallError::Runtime(error)),
        Ok(TaskExit::Completed(value)) => Ok(value),
        Ok(TaskExit::Failed(error)) => Err(CallError::Service(error)),
        Ok(TaskExit::Cancelled(reason)) => Err(CallError::Cancelled(reason)),
        Ok(TaskExit::Aborted) => Err(CallError::Aborted),
    }
}

/// A service takes requests exactly while it runs, and a refusal names it.
pub proof fn law_only_a_running_service_is_available(
    name: &str,
    lifecycle: ServiceLifecycle,
    result: Result<(), RuntimeError>,
)
    requires
        call_ensures(check_available, (name, lifecycle), result),
    ensures
        result is Ok <==> lifecycle is Running,
        result matches Err(error) ==> error is ServiceUnavailable,
{
}

/// A call that a task carried out has a value exactly when the task completed,
/// and that value. A task that failed gives the error of the service, one that
/// was cancelled its reason, one that was aborted that it was; a task that was
/// lost gives the error of the runtime.
pub proof fn law_only_a_completed_task_has_a_value<T, E>(
    exit: Result<TaskExit<T, E>, RuntimeError>,
    result: Result<T, CallError<E>>,
)
    requires
        call_ensures(task_result::<T, E>, (exit,), result),
    ensures
        result is Ok <==> (exit matches Ok(TaskExit::Completed(_))),
        exit matches Ok(TaskExit::Completed(value)) ==> result == Ok::<T, CallError<E>>(value),
        exit matches Ok(TaskExit::Failed(error)) ==> result == Err::<T, _>(
            CallError::Service(error),
        ),
        exit matches Ok(TaskExit::Cancelled(reason)) ==> result == Err::<T, _>(
            CallError::<E>::Cancelled(reason),
        ),
        exit matches Ok(TaskExit::Aborted) ==> result == Err::<T, _>(CallError::<E>::Aborted),
        exit matches Err(error) ==> result == Err::<T, _>(CallError::<E>::Runtime(error)),
{
}

/// A call that was replied to at once has the value of the reply, or its error as
/// an error of the service.
pub proof fn law_reply_is_passed_on<T, E>(reply: Result<T, E>, result: Result<T, CallError<E>>)
    requires
        call_ensures(reply_result::<T, E>, (reply,), result),
    ensures
        result is Ok <==> reply is Ok,
        reply matches Ok(value) ==> result == Ok::<T, CallError<E>>(value),
        reply matches Err(error) ==> result == Err::<T, _>(CallError::Service(error)),
{
}

/// Waiting for a task brings its end as it was, and a task whose end never comes
/// was dropped.
pub proof fn law_wait_brings_the_end<T, E>(
    received: Result<TaskExit<T, E>, oneshot::error::RecvError>,
    result: Result<TaskExit<T, E>, RuntimeError>,
)
    requires
        call_ensures(TaskTicket::<T, E>::wait, (received,), result),
    ensures
        received matches Ok(exit) ==> result == Ok::<_, RuntimeError>(exit),
        received is Err ==> result == Err::<TaskExit<T, E>, _>(RuntimeError::ResponseDropped),
{
}

/// A request that nothing else caused draws the next operation and the next
/// request, and is traced under the number of its operation without a parent.
pub proof fn law_root_request_begins_a_trace(
    operations: &mut IdCounter,
    requests: &mut IdCounter,
    context: RequestContext,
)
    requires
        call_ensures(root_request, (operations, requests), context),
    ensures
        context.operation_id@ == old(operations)@,
        context.request_id@ == old(requests)@,
        context.trace.trace_id == old(operations)@,
        context.trace.parent_task is None,
{
}

} // verus!
