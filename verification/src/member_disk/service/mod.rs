//! The MemberDisk service.
pub mod allocation;
pub mod client;
pub mod directory;
pub mod error;
pub mod operations;
pub mod reconcile;
pub mod workflow;

pub use client::{Accepted, MemberDiskCallError};
pub use directory::MemberDiskService;
pub use error::MemberDiskServiceError;
