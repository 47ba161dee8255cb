//! Tasks that a service manages on behalf of its handlers.
pub mod context;
pub mod entry;
pub mod manager;

pub use context::{
    ConflictPolicy, RequestContext, TaskContext, TaskEvent, TaskMeta, TaskSnapshot, TaskSpec,
    TaskState, TaskVisibility,
};
pub use manager::ServiceTaskManager;
