//! The protocol of services with managed tasks: keys, traces, reasons and
//! errors.
use crate::ordered_map::MapKey;
use crate::runtime::ids::TaskId;
use crate::text::{decimal, decimal_text, text_before};
use vstd::prelude::*;
use vstd::string::StringExecFns;

verus! {

/// What a task works on. Two tasks with one key exclude each other.
#[derive(Debug, PartialEq, Eq, Hash)]
pub struct TaskKey(String);

impl View for TaskKey {
    type V = Seq<char>;

    closed spec fn view(&self) -> Seq<char> {
        self.0@
    }
}

impl Clone for TaskKey {
    fn clone(&self) -> (copy: Self)
        ensures
            copy == *self,
    {
        TaskKey(self.0.clone())
    }
}

impl TaskKey {
    /// The key written as `value`.
    pub fn new(value: &str) -> (key: Self)
        ensures
            key@ == value@,
    {
        TaskKey(value.to_owned())
    }

    /// The key as text.
    pub fn as_str(&self) -> (text: &str)
        ensures
            text@ == self@,
    {
        self.0.as_str()
    }
}

impl MapKey for TaskKey {
    open spec fn before(a: Seq<char>, b: Seq<char>) -> bool {
        text_before(a, b)
    }

    proof fn order_laws(a: Seq<char>, b: Seq<char>, c: Seq<char>) {
        crate::text::lemma_text_order(a, b, c);
    }

    fn precedes(&self, other: &Self) -> (result: bool) {
        crate::text::precedes(self.as_str(), other.as_str())
    }

    fn duplicate(&self) -> (copy: Self) {
        self.clone()
    }
}

/// Why work was cancelled.
#[derive(Debug, PartialEq, Eq)]
pub enum CancelReason {
    Requested(String),
    ParentCancelled,
    ServiceStopping,
    Preempted { by: TaskKey },
    NoLongerNeeded,
}

/// Why work was cancelled, with all text by its characters.
pub enum CancelReasonView {
    Requested(Seq<char>),
    ParentCancelled,
    ServiceStopping,
    Preempted { by: Seq<char> },
    NoLongerNeeded,
}

impl View for CancelReason {
    type V = CancelReasonView;

    open spec fn view(&self) -> CancelReasonView {
        match *self {
            CancelReason::Requested(cause) => CancelReasonView::Requested(cause@),
            CancelReason::ParentCancelled => CancelReasonView::ParentCancelled,
            CancelReason::ServiceStopping => CancelReasonView::ServiceStopping,
            CancelReason::Preempted { by } => CancelReasonView::Preempted { by: by@ },
            CancelReason::NoLongerNeeded => CancelReasonView::NoLongerNeeded,
        }
    }
}

/// A reason, where there is one.
pub open spec fn reason_view(reason: Option<CancelReason>) -> Option<CancelReasonView> {
    match reason {
        Some(reason) => Some(reason@),
        None => None,
    }
}

impl Clone for CancelReason {
    fn clone(&self) -> (copy: Self)
        ensures
            copy == *self,
    {
        match self {
            CancelReason::Requested(cause) => CancelReason::Requested(cause.clone()),
            CancelReason::ParentCancelled => CancelReason::ParentCancelled,
            CancelReason::ServiceStopping => CancelReason::ServiceStopping,
            CancelReason::Preempted { by } => CancelReason::Preempted { by: by.clone() },
            CancelReason::NoLongerNeeded => CancelReason::NoLongerNeeded,
        }
    }
}

impl CancelReason {
    /// A request with this cause.
    pub fn requested(cause: &str) -> (reason: Self)
        ensures
            reason@ == CancelReasonView::Requested(cause@),
    {
        CancelReason::Requested(cause.to_owned())
    }
}

/// The place of a task in a causal chain.
#[derive(Debug, Clone, Copy, PartialEq, Eq, Structural)]
pub struct TraceContext {
    pub trace_id: u128,
    pub parent_task: Option<TaskId>,
}

impl TraceContext {
    /// The beginning of a chain.
    pub fn root(trace_id: u128) -> (trace: Self)
        ensures
            trace == (TraceContext { trace_id, parent_task: None }),
    {
        TraceContext { trace_id, parent_task: None }
    }

    /// The chain as it goes on below a task.
    pub fn child(self, parent_task: TaskId) -> (trace: Self)
        ensures
            trace == (TraceContext { trace_id: self.trace_id, parent_task: Some(parent_task) }),
    {
        TraceContext { trace_id: self.trace_id, parent_task: Some(parent_task) }
    }
}

/// Why a service did not take or finish work.
#[derive(Debug, PartialEq, Eq)]
pub enum RuntimeError {
    TaskAlreadyRunning(TaskKey),
    TaskCancelled(CancelReason),
    TaskNotFound(TaskId),
    ChannelClosed(String),
    ResponseDropped,
    ServiceUnavailable(String),
    ServiceNotFound(String),
}

impl Clone for RuntimeError {
    fn clone(&self) -> (copy: Self)
        ensures
            copy == *self,
    {
        match self {
            RuntimeError::TaskAlreadyRunning(key) => RuntimeError::TaskAlreadyRunning(key.clone()),
            RuntimeError::TaskCancelled(reason) => RuntimeError::TaskCancelled(reason.clone()),
            RuntimeError::TaskNotFound(task) => RuntimeError::TaskNotFound(*task),
            RuntimeError::ChannelClosed(name) => RuntimeError::ChannelClosed(name.clone()),
            RuntimeError::ResponseDropped => RuntimeError::ResponseDropped,
            RuntimeError::ServiceUnavailable(text) => RuntimeError::ServiceUnavailable(
                text.clone(),
            ),
            RuntimeError::ServiceNotFound(name) => RuntimeError::ServiceNotFound(name.clone()),
        }
    }
}

impl RuntimeError {
    /// The message for operators.
    pub open spec fn message(self) -> Seq<char> {
        match self {
            RuntimeError::TaskAlreadyRunning(key) => "task already running: "@ + key@,
            RuntimeError::TaskCancelled(_) => "task was cancelled"@,
            RuntimeError::TaskNotFound(task) => "task not found: "@ + decimal_text(task@ as nat),
            RuntimeError::ChannelClosed(name) => "channel closed: "@ + name@,
            RuntimeError::ResponseDropped => "response was dropped"@,
            RuntimeError::ServiceUnavailable(text) => "service unavailable: "@ + text@,
            RuntimeError::ServiceNotFound(name) => "service not found: "@ + name@,
        }
    }

    /// Writes the message for operators.
    pub fn to_string(&self) -> (text: String)
        ensures
            text@ == self.message(),
    {
        match self {
            RuntimeError::TaskAlreadyRunning(key) => {
                let mut text = "task already running: ".to_owned();
                text.append(key.as_str());
                text
            },
            RuntimeError::TaskCancelled(_) => "task was cancelled".to_owned(),
            RuntimeError::TaskNotFound(task) => {
                let mut text = "task not found: ".to_owned();
                text.append(decimal(task.get()).as_str());
                text
            },
            RuntimeError::ChannelClosed(name) => {
                let mut text = "channel closed: ".to_owned();
                text.append(name.as_str());
                text
            },
            RuntimeError::ResponseDropped => "response was dropped".to_owned(),
            RuntimeError::ServiceUnavailable(reason) => {
                let mut text = "service unavailable: ".to_owned();
                text.append(reason.as_str());
                text
            },
            RuntimeError::ServiceNotFound(name) => {
                let mut text = "service not found: ".to_owned();
                text.append(name.as_str());
                text
            },
        }
    }
}

/// How a task ended.
#[derive(Debug, PartialEq, Eq)]
pub enum TaskExit<T, E> {
    Completed(T),
    Failed(E),
    Cancelled(CancelReason),
    Aborted,
}

/// Why a call got no value.
#[derive(Debug, PartialEq, Eq)]
pub enum CallError<E> {
    Runtime(RuntimeError),
    Service(E),
    Cancelled(CancelReason),
    Aborted,
}

/// The message of an error names the key, the task or the service that it is
/// about.
pub proof fn law_errors_name_their_subject(key: TaskKey, reason: CancelReason, task: TaskId, name: String)
    ensures
        RuntimeError::TaskAlreadyRunning(key).message() == "task already running: "@ + key@,
        RuntimeError::TaskCancelled(reason).message() == "task was cancelled"@,
        RuntimeError::TaskNotFound(task).message() == "task not found: "@ + decimal_text(
            task@ as nat,
        ),
        RuntimeError::ChannelClosed(name).message() == "channel closed: "@ + name@,
        RuntimeError::ResponseDropped.message() == "response was dropped"@,
        RuntimeError::ServiceUnavailable(name).message() == "service unavailable: "@ + name@,
        RuntimeError::ServiceNotFound(name).message() == "service not found: "@ + name@,
{
}

/// A reason is seen as what it is, with its text or its key.
pub proof fn law_reason_is_seen_as_it_is(reason: CancelReason)
    ensures
        reason matches CancelReason::Requested(cause) ==> reason@ == CancelReasonView::Requested(
            cause@,
        ),
        reason matches CancelReason::Preempted { by } ==> reason@ == (CancelReasonView::Preempted {
            by: by@,
        }),
        reason is ParentCancelled <==> reason@ is ParentCancelled,
        reason is ServiceStopping <==> reason@ is ServiceStopping,
        reason is NoLongerNeeded <==> reason@ is NoLongerNeeded,
        reason_view(Some(reason)) == Some(reason@),
        reason_view(None) is None,
{
}

} // verus!
