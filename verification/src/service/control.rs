//! Control of a service with managed tasks.
use crate::protocol::{CancelReason, RuntimeError};
use crate::runtime::ids::TaskId;
use tokio::sync::oneshot;
use vstd::prelude::*;

verus! {

/// How a service is shut down.
#[derive(Debug, Clone, Copy, PartialEq, Eq, Structural)]
pub enum ShutdownMode {
    /// After the accepted work has ended.
    Graceful,
    /// At once.
    Immediate,
}

/// A command to a service with the channel for its answer.
pub enum RuntimeControl {
    Pause(oneshot::Sender<()>),
    Resume(oneshot::Sender<()>),
    Drain(oneshot::Sender<()>),
    Shutdown(ShutdownMode, oneshot::Sender<()>),
    CancelTask {
        task_id: TaskId,
        reason: CancelReason,
        reply: oneshot::Sender<Result<(), RuntimeError>>,
    },
}

/// What a command comes to when its channel was closed before it was sent.
pub fn not_sent(service: &str) -> (error: RuntimeError)
    ensures
        error matches RuntimeError::ChannelClosed(name) && name@ == service@,
{
    RuntimeError::ChannelClosed(service.to_owned())
}

/// What a command comes to for its sender: its completion, or that the answer
/// was dropped.
pub fn completed(received: Result<(), oneshot::error::RecvError>) -> (result: Result<
    (),
    RuntimeError,
>)
    ensures
        match received {
            Ok(_) => result is Ok,
            Err(_) => result == Err::<(), _>(RuntimeError::ResponseDropped),
        },
{
    match received {
        Ok(_) => Ok(()),
        Err(_) => Err(RuntimeError::ResponseDropped),
    }
}

/// What a request for cancellation comes to for its sender.
pub fn cancel_completed(
    received: Result<Result<(), RuntimeError>, oneshot::error::RecvError>,
) -> (result: Result<(), RuntimeError>)
    ensures
        result == (match received {
            Ok(answer) => answer,
            Err(_) => Err(RuntimeError::ResponseDropped),
        }),
{
    match received {
        Ok(answer) => answer,
        Err(_) => Err(RuntimeError::ResponseDropped),
    }
}

/// A command is complete exactly when its answer came, and a request for
/// cancellation comes to the answer that it was given. An answer that never comes
/// was dropped.
pub proof fn law_answer_is_passed_on(
    received: Result<(), oneshot::error::RecvError>,
    result: Result<(), RuntimeError>,
    answered: Result<Result<(), RuntimeError>, oneshot::error::RecvError>,
    cancelled: Result<(), RuntimeError>,
)
    requires
        call_ensures(completed, (received,), result),
        call_ensures(cancel_completed, (answered,), cancelled),
    ensures
        result is Ok <==> received is Ok,
        result matches Err(error) ==> error is ResponseDropped,
        answered matches Ok(answer) ==> cancelled == answer,
        answered is Err ==> cancelled == Err::<(), _>(RuntimeError::ResponseDropped),
{
}

} // verus!
