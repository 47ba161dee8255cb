//! Pool control plane: the common service runtime and the MemberDisk domain.
//!
//! Every decision of the control plane stands in this library as a function on
//! plain state. Waiting, spawning and talking to other services is done around
//! it.
pub mod demo;
pub mod executor;
pub mod member_disk;
pub mod ordered_map;
pub mod outside;
pub mod protocol;
pub mod router;
pub mod runtime;
pub mod service;
pub mod task;
pub mod text;
