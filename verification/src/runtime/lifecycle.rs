//! The lifecycle of one service and the errors of its control path.
use super::ids::TaskId;
use crate::text::decimal_text;
use vstd::prelude::*;
use vstd::string::StringExecFns;

verus! {

/// The stages of one service instance.
#[derive(Debug, Clone, Copy, PartialEq, Eq, Structural)]
pub enum ServiceLifecycle {
    Initializing,
    Running,
    Paused,
    Draining,
    Stopping,
    Stopped,
    Failed,
}

impl ServiceLifecycle {
    /// The name of the stage.
    pub open spec fn name_text(self) -> Seq<char> {
        match self {
            ServiceLifecycle::Initializing => "Initializing"@,
            ServiceLifecycle::Running => "Running"@,
            ServiceLifecycle::Paused => "Paused"@,
            ServiceLifecycle::Draining => "Draining"@,
            ServiceLifecycle::Stopping => "Stopping"@,
            ServiceLifecycle::Stopped => "Stopped"@,
            ServiceLifecycle::Failed => "Failed"@,
        }
    }

    /// Whether new business requests are admitted.
    pub fn accepts_requests(self) -> (result: bool)
        ensures
            result == (self == ServiceLifecycle::Running),
    {
        self == ServiceLifecycle::Running
    }

    /// Whether the service has ended.
    pub fn is_terminal(self) -> (result: bool)
        ensures
            result == (self == ServiceLifecycle::Stopped || self == ServiceLifecycle::Failed),
    {
        self == ServiceLifecycle::Stopped || self == ServiceLifecycle::Failed
    }

    /// The name of the stage.
    pub fn name(self) -> (name: &'static str)
        ensures
            name@ == self.name_text(),
    {
        match self {
            ServiceLifecycle::Initializing => "Initializing",
            ServiceLifecycle::Running => "Running",
            ServiceLifecycle::Paused => "Paused",
            ServiceLifecycle::Draining => "Draining",
            ServiceLifecycle::Stopping => "Stopping",
            ServiceLifecycle::Stopped => "Stopped",
            ServiceLifecycle::Failed => "Failed",
        }
    }
}

/// Whether a service has requests in flight.
#[derive(Debug, Clone, Copy, PartialEq, Eq, Structural)]
pub enum ServiceActivity {
    Idle,
    Busy,
}

/// Why a service does not take a request.
#[derive(Debug, Clone, Copy, PartialEq, Eq, Structural)]
pub enum ServiceUnavailable {
    Initializing,
    Paused,
    Draining,
    Stopping,
    Stopped,
    Failed,
}

impl ServiceUnavailable {
    /// The stage that keeps the service from taking requests.
    pub open spec fn stage(self) -> ServiceLifecycle {
        match self {
            ServiceUnavailable::Initializing => ServiceLifecycle::Initializing,
            ServiceUnavailable::Paused => ServiceLifecycle::Paused,
            ServiceUnavailable::Draining => ServiceLifecycle::Draining,
            ServiceUnavailable::Stopping => ServiceLifecycle::Stopping,
            ServiceUnavailable::Stopped => ServiceLifecycle::Stopped,
            ServiceUnavailable::Failed => ServiceLifecycle::Failed,
        }
    }

    /// The message for callers.
    pub open spec fn message(self) -> Seq<char> {
        "service is "@ + self.stage().name_text()
    }

    /// The reason that a stage gives. A running service is available.
    pub fn from(lifecycle: ServiceLifecycle) -> (reason: Self)
        requires
            lifecycle != ServiceLifecycle::Running,
        ensures
            reason.stage() == lifecycle,
    {
        match lifecycle {
            ServiceLifecycle::Initializing => ServiceUnavailable::Initializing,
            ServiceLifecycle::Paused => ServiceUnavailable::Paused,
            ServiceLifecycle::Draining => ServiceUnavailable::Draining,
            ServiceLifecycle::Stopping => ServiceUnavailable::Stopping,
            ServiceLifecycle::Stopped => ServiceUnavailable::Stopped,
            ServiceLifecycle::Failed => ServiceUnavailable::Failed,
            ServiceLifecycle::Running => {
                assert(false);
                ServiceUnavailable::Failed
            },
        }
    }

    /// Writes the message for callers.
    pub fn to_string(&self) -> (text: String)
        ensures
            text@ == self.message(),
    {
        let name = match self {
            ServiceUnavailable::Initializing => "Initializing",
            ServiceUnavailable::Paused => "Paused",
            ServiceUnavailable::Draining => "Draining",
            ServiceUnavailable::Stopping => "Stopping",
            ServiceUnavailable::Stopped => "Stopped",
            ServiceUnavailable::Failed => "Failed",
        };
        let mut text = "service is ".to_owned();
        text.append(name);
        text
    }
}

/// Why a control command was refused.
#[derive(Debug, Clone, Copy, PartialEq, Eq)]
pub enum ControlError {
    ServiceStopped,
    InvalidTransition { from: ServiceLifecycle, command: &'static str },
    TaskNotFound(TaskId),
    TaskNotCancellable(TaskId),
}

impl ControlError {
    /// The message for operators.
    pub open spec fn message(self) -> Seq<char> {
        match self {
            ControlError::ServiceStopped => "service control channel is closed"@,
            ControlError::InvalidTransition { from, command } => {
                "cannot "@ + command@ + " a service in "@ + from.name_text()
            },
            ControlError::TaskNotFound(task) => {
                "task "@ + decimal_text(task@ as nat) + " is not active"@
            },
            ControlError::TaskNotCancellable(task) => {
                "task "@ + decimal_text(task@ as nat) + " is not cancellable"@
            },
        }
    }

    /// Writes the message for operators.
    pub fn to_string(&self) -> (text: String)
        ensures
            text@ == self.message(),
    {
        match self {
            ControlError::ServiceStopped => "service control channel is closed".to_owned(),
            ControlError::InvalidTransition { from, command } => {
                let mut text = "cannot ".to_owned();
                text.append(command);
                text.append(" a service in ");
                text.append(from.name());
                text
            },
            ControlError::TaskNotFound(task) => {
                let mut text = "task ".to_owned();
                text.append(task.to_string().as_str());
                text.append(" is not active");
                text
            },
            ControlError::TaskNotCancellable(task) => {
                let mut text = "task ".to_owned();
                text.append(task.to_string().as_str());
                text.append(" is not cancellable");
                text
            },
        }
    }
}

/// Requests are admitted exactly while the service runs, and a service has ended
/// exactly when it stopped or failed.
pub proof fn law_stages_admit_and_end(
    stage: ServiceLifecycle,
    accepts: bool,
    terminal: bool,
)
    requires
        call_ensures(ServiceLifecycle::accepts_requests, (stage,), accepts),
        call_ensures(ServiceLifecycle::is_terminal, (stage,), terminal),
    ensures
        accepts <==> stage is Running,
        terminal <==> stage is Stopped || stage is Failed,
        !(accepts && terminal),
{
}

/// A stage in which a service takes no requests is given as the reason under its
/// own name, and no two stages give the same reason.
pub proof fn law_unavailable_service_names_its_stage(
    stage: ServiceLifecycle,
    reason: ServiceUnavailable,
)
    requires
        !(stage is Running),
        call_ensures(ServiceUnavailable::from, (stage,), reason),
    ensures
        stage is Initializing <==> reason is Initializing,
        stage is Paused <==> reason is Paused,
        stage is Draining <==> reason is Draining,
        stage is Stopping <==> reason is Stopping,
        stage is Stopped <==> reason is Stopped,
        stage is Failed <==> reason is Failed,
        reason.message() == "service is "@ + stage.name_text(),
{
}

/// Every stage has a name of its own.
pub proof fn law_stages_have_names(stage: ServiceLifecycle)
    ensures
        stage is Initializing ==> stage.name_text() == "Initializing"@,
        stage is Running ==> stage.name_text() == "Running"@,
        stage is Paused ==> stage.name_text() == "Paused"@,
        stage is Draining ==> stage.name_text() == "Draining"@,
        stage is Stopping ==> stage.name_text() == "Stopping"@,
        stage is Stopped ==> stage.name_text() == "Stopped"@,
        stage is Failed ==> stage.name_text() == "Failed"@,
{
}

/// The message of a refusal names the command and the stage, or the task.
pub proof fn law_refusals_name_what_they_refuse(
    from: ServiceLifecycle,
    command: &'static str,
    task: TaskId,
)
    ensures
        (ControlError::InvalidTransition { from, command }).message() == "cannot "@ + command@
            + " a service in "@ + from.name_text(),
        ControlError::TaskNotFound(task).message() == "task "@ + decimal_text(task@ as nat)
            + " is not active"@,
        ControlError::TaskNotCancellable(task).message() == "task "@ + decimal_text(task@ as nat)
            + " is not cancellable"@,
        ControlError::ServiceStopped.message() == "service control channel is closed"@,
{
}

} // verus!
