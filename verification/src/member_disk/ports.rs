//! What the MemberDisk domain exchanges with its neighbours.
use super::model::{DiskIoState, DiskUuid};
use vstd::prelude::*;
use vstd::string::StringExecFns;

verus! {

/// The marker of work that was cancelled.
#[derive(Debug, Clone, Copy, PartialEq, Eq, Structural)]
pub struct Cancelled;

/// Why a change was not committed to SDB.
#[derive(Debug, PartialEq, Eq)]
pub struct MetadataError(String);

impl View for MetadataError {
    type V = Seq<char>;

    closed spec fn view(&self) -> Seq<char> {
        self.0@
    }
}

impl Clone for MetadataError {
    fn clone(&self) -> (copy: Self)
        ensures
            copy == *self,
    {
        MetadataError(self.0.clone())
    }
}

impl MetadataError {
    /// An error with this message.
    pub fn new(message: &str) -> (error: Self)
        ensures
            error@ == message@,
    {
        MetadataError(message.to_owned())
    }

    /// The message.
    pub fn to_string(&self) -> (text: String)
        ensures
            text@ == self@,
    {
        self.0.clone()
    }
}

/// A request to the data plane on every Pool node.
#[derive(Debug, PartialEq, Eq)]
pub enum UserDpRequest {
    OpenDisk(DiskUuid),
    SetDiskState { disk: DiskUuid, state: DiskIoState },
}

impl Clone for UserDpRequest {
    fn clone(&self) -> (copy: Self)
        ensures
            copy == *self,
    {
        match self {
            UserDpRequest::OpenDisk(disk) => UserDpRequest::OpenDisk(disk.clone()),
            UserDpRequest::SetDiskState { disk, state } => UserDpRequest::SetDiskState {
                disk: disk.clone(),
                state: *state,
            },
        }
    }
}

/// Why a broadcast to the Pool nodes did not succeed.
#[derive(Debug, PartialEq, Eq)]
pub enum PoolNodeError {
    Cancelled,
    Failed(String),
}

impl Clone for PoolNodeError {
    fn clone(&self) -> (copy: Self)
        ensures
            copy == *self,
    {
        match self {
            PoolNodeError::Cancelled => PoolNodeError::Cancelled,
            PoolNodeError::Failed(message) => PoolNodeError::Failed(message.clone()),
        }
    }
}

impl PoolNodeError {
    /// The message for operators.
    pub open spec fn message(self) -> Seq<char> {
        match self {
            PoolNodeError::Cancelled => "PoolNode broadcast was cancelled"@,
            PoolNodeError::Failed(message) => "PoolNode broadcast failed: "@ + message@,
        }
    }

    /// A failure with this message.
    pub fn failed(message: &str) -> (error: Self)
        ensures
            error matches PoolNodeError::Failed(text) && text@ == message@,
    {
        PoolNodeError::Failed(message.to_owned())
    }

    /// Writes the message for operators.
    pub fn to_string(&self) -> (text: String)
        ensures
            text@ == self.message(),
    {
        match self {
            PoolNodeError::Cancelled => "PoolNode broadcast was cancelled".to_owned(),
            PoolNodeError::Failed(message) => {
                let mut text = "PoolNode broadcast failed: ".to_owned();
                text.append(message.as_str());
                text
            },
        }
    }
}

/// Why an operation of the virtual disks did not succeed.
#[derive(Debug, PartialEq, Eq)]
pub enum VirtualDiskError {
    Cancelled,
    Failed(String),
}

impl Clone for VirtualDiskError {
    fn clone(&self) -> (copy: Self)
        ensures
            copy == *self,
    {
        match self {
            VirtualDiskError::Cancelled => VirtualDiskError::Cancelled,
            VirtualDiskError::Failed(message) => VirtualDiskError::Failed(message.clone()),
        }
    }
}

impl VirtualDiskError {
    /// The message for operators.
    pub open spec fn message(self) -> Seq<char> {
        match self {
            VirtualDiskError::Cancelled => "VirtualDisk operation was cancelled"@,
            VirtualDiskError::Failed(message) => "VirtualDisk operation failed: "@ + message@,
        }
    }

    /// A failure with this message.
    pub fn failed(message: &str) -> (error: Self)
        ensures
            error matches VirtualDiskError::Failed(text) && text@ == message@,
    {
        VirtualDiskError::Failed(message.to_owned())
    }

    /// Writes the message for operators.
    pub fn to_string(&self) -> (text: String)
        ensures
            text@ == self.message(),
    {
        match self {
            VirtualDiskError::Cancelled => "VirtualDisk operation was cancelled".to_owned(),
            VirtualDiskError::Failed(message) => {
                let mut text = "VirtualDisk operation failed: ".to_owned();
                text.append(message.as_str());
                text
            },
        }
    }
}

} // verus!
