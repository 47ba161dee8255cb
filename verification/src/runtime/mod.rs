//! The common service runtime: lifecycle, observation, tasks and object slots.

pub mod hub;
pub mod ids;
pub mod lifecycle;
pub mod object_task;
pub mod observation;
pub mod service;
pub mod task;

pub use hub::ObservationHub;
pub use ids::{IdCounter, OperationId, RequestId, TaskId};
pub use lifecycle::{ControlError, ServiceActivity, ServiceLifecycle, ServiceUnavailable};
pub use object_task::{
    ConflictDecision, ObjectActivity, ObjectAdmission, ObjectLease, ObjectPending,
    ObjectTaskCoordinator,
};
pub use observation::{
    OperationContext, OperationSpec, RuntimeEvent, RuntimeEventKind, RuntimeEventSink,
    ServiceSnapshot, TaskSnapshot, TaskState, TraceContext,
};
pub use service::{CallError, RequestContext, ServiceConfig};
pub use task::{TaskAttempt, TaskControl, TaskMeta, TaskOutcome};
