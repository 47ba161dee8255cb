//! Member disks of a storage pool.
pub mod allocation;
pub mod event;
pub mod model;
pub mod ports;
pub mod service;

pub use allocation::{AllocateBlks, Allocation, AllocationBitmap, BlkId, BlkRef, BlkSize};
pub use event::{EpochMillis, EventKind, MemberDiskEvent, PhysicalState};
pub use model::{
    AllocationState, DiskIoState, DiskUuid, FailureDomain, MemberDisk, MemberDiskError,
    MemberDiskState, MemberDiskUpdate, MembershipState,
};
pub use ports::{Cancelled, MetadataError, PoolNodeError, UserDpRequest, VirtualDiskError};
pub use service::{Accepted, MemberDiskCallError, MemberDiskService, MemberDiskServiceError};
