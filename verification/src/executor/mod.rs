//! Execution of the tasks of a service by its one root.
pub mod root;
pub mod task_set;
