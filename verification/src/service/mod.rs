//! How clients and operators talk to a service with managed tasks.
pub mod client;
pub mod control;
