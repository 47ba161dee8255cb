//! Errors of the MemberDisk service.
use crate::member_disk::model::{DiskUuid, MemberDiskError};
use crate::member_disk::ports::{Cancelled, MetadataError, PoolNodeError, VirtualDiskError};
use crate::text::{decimal, decimal_text};
use vstd::prelude::*;
use vstd::std_specs::convert::FromSpecImpl;
use vstd::string::StringExecFns;

verus! {

/// Why the MemberDisk service did not do what it was asked.
#[derive(Debug, PartialEq, Eq)]
pub enum MemberDiskServiceError {
    UnknownDisk(DiskUuid),
    ServiceStopped,
    Cancelled,
    PoolNode(PoolNodeError),
    VirtualDisk(VirtualDiskError),
    Metadata(MetadataError),
    InvalidState(MemberDiskError),
    EmptyAllocation,
    InsufficientAllocationCandidates { tier: String, requested: usize, available: usize },
    TransitionIncomplete(String),
}

impl Clone for MemberDiskServiceError {
    fn clone(&self) -> (copy: Self)
        ensures
            copy == *self,
    {
        match self {
            MemberDiskServiceError::UnknownDisk(disk) => MemberDiskServiceError::UnknownDisk(
                disk.clone(),
            ),
            MemberDiskServiceError::ServiceStopped => MemberDiskServiceError::ServiceStopped,
            MemberDiskServiceError::Cancelled => MemberDiskServiceError::Cancelled,
            MemberDiskServiceError::PoolNode(error) => MemberDiskServiceError::PoolNode(
                error.clone(),
            ),
            MemberDiskServiceError::VirtualDisk(error) => MemberDiskServiceError::VirtualDisk(
                error.clone(),
            ),
            MemberDiskServiceError::Metadata(error) => MemberDiskServiceError::Metadata(
                error.clone(),
            ),
            MemberDiskServiceError::InvalidState(error) => MemberDiskServiceError::InvalidState(
                *error,
            ),
            MemberDiskServiceError::EmptyAllocation => MemberDiskServiceError::EmptyAllocation,
            MemberDiskServiceError::InsufficientAllocationCandidates {
                tier,
                requested,
                available,
            } => MemberDiskServiceError::InsufficientAllocationCandidates {
                tier: tier.clone(),
                requested: *requested,
                available: *available,
            },
            MemberDiskServiceError::TransitionIncomplete(text) => {
                MemberDiskServiceError::TransitionIncomplete(text.clone())
            },
        }
    }
}

impl MemberDiskServiceError {
    /// The message for operators.
    pub open spec fn message(self) -> Seq<char> {
        match self {
            MemberDiskServiceError::UnknownDisk(disk) => "unknown MemberDisk "@ + disk@,
            MemberDiskServiceError::ServiceStopped => "MemberDisk service has stopped"@,
            MemberDiskServiceError::Cancelled => "MemberDisk operation was cancelled"@,
            MemberDiskServiceError::PoolNode(error) => error.message(),
            MemberDiskServiceError::VirtualDisk(error) => error.message(),
            MemberDiskServiceError::Metadata(error) => "MemberDisk metadata update failed: "@
                + error@,
            MemberDiskServiceError::InvalidState(error) => error.message(),
            MemberDiskServiceError::EmptyAllocation => "allocation must request at least one BLK"@,
            MemberDiskServiceError::InsufficientAllocationCandidates {
                tier,
                requested,
                available,
            } => "Tier "@ + tier@ + " can provide "@ + decimal_text(available as nat) + " of "@
                + decimal_text(requested as nat) + " requested BLKs"@,
            MemberDiskServiceError::TransitionIncomplete(text) => {
                "MemberDisk transition is incomplete: "@ + text@
            },
        }
    }

    /// Writes the message for operators.
    pub fn to_string(&self) -> (text: String)
        ensures
            text@ == self.message(),
    {
        match self {
            MemberDiskServiceError::UnknownDisk(disk) => {
                let mut text = "unknown MemberDisk ".to_owned();
                text.append(disk.as_str());
                text
            },
            MemberDiskServiceError::ServiceStopped => "MemberDisk service has stopped".to_owned(),
            MemberDiskServiceError::Cancelled => "MemberDisk operation was cancelled".to_owned(),
            MemberDiskServiceError::PoolNode(error) => error.to_string(),
            MemberDiskServiceError::VirtualDisk(error) => error.to_string(),
            MemberDiskServiceError::Metadata(error) => {
                let mut text = "MemberDisk metadata update failed: ".to_owned();
                text.append(error.to_string().as_str());
                text
            },
            MemberDiskServiceError::InvalidState(error) => error.to_string(),
            MemberDiskServiceError::EmptyAllocation => {
                "allocation must request at least one BLK".to_owned()
            },
            MemberDiskServiceError::InsufficientAllocationCandidates {
                tier,
                requested,
                available,
            } => {
                let mut text = "Tier ".to_owned();
                text.append(tier.as_str());
                text.append(" can provide ");
                text.append(decimal(*available as u64).as_str());
                text.append(" of ");
                text.append(decimal(*requested as u64).as_str());
                text.append(" requested BLKs");
                text
            },
            MemberDiskServiceError::TransitionIncomplete(incomplete) => {
                let mut text = "MemberDisk transition is incomplete: ".to_owned();
                text.append(incomplete.as_str());
                text
            },
        }
    }
}

impl FromSpecImpl<Cancelled> for MemberDiskServiceError {
    open spec fn obeys_from_spec() -> bool {
        true
    }

    open spec fn from_spec(error: Cancelled) -> Self {
        MemberDiskServiceError::Cancelled
    }
}

impl From<Cancelled> for MemberDiskServiceError {
    fn from(error: Cancelled) -> Self {
        MemberDiskServiceError::Cancelled
    }
}

impl FromSpecImpl<MemberDiskError> for MemberDiskServiceError {
    open spec fn obeys_from_spec() -> bool {
        true
    }

    open spec fn from_spec(error: MemberDiskError) -> Self {
        MemberDiskServiceError::InvalidState(error)
    }
}

impl From<MemberDiskError> for MemberDiskServiceError {
    fn from(error: MemberDiskError) -> Self {
        MemberDiskServiceError::InvalidState(error)
    }
}

impl FromSpecImpl<PoolNodeError> for MemberDiskServiceError {
    open spec fn obeys_from_spec() -> bool {
        true
    }

    open spec fn from_spec(error: PoolNodeError) -> Self {
        match error {
            PoolNodeError::Cancelled => MemberDiskServiceError::Cancelled,
            _ => MemberDiskServiceError::PoolNode(error),
        }
    }
}

impl From<PoolNodeError> for MemberDiskServiceError {
    fn from(error: PoolNodeError) -> Self {
        match error {
            PoolNodeError::Cancelled => MemberDiskServiceError::Cancelled,
            error => MemberDiskServiceError::PoolNode(error),
        }
    }
}

impl FromSpecImpl<VirtualDiskError> for MemberDiskServiceError {
    open spec fn obeys_from_spec() -> bool {
        true
    }

    open spec fn from_spec(error: VirtualDiskError) -> Self {
        match error {
            VirtualDiskError::Cancelled => MemberDiskServiceError::Cancelled,
            _ => MemberDiskServiceError::VirtualDisk(error),
        }
    }
}

impl From<VirtualDiskError> for MemberDiskServiceError {
    fn from(error: VirtualDiskError) -> Self {
        match error {
            VirtualDiskError::Cancelled => MemberDiskServiceError::Cancelled,
            error => MemberDiskServiceError::VirtualDisk(error),
        }
    }
}

impl FromSpecImpl<MetadataError> for MemberDiskServiceError {
    open spec fn obeys_from_spec() -> bool {
        true
    }

    open spec fn from_spec(error: MetadataError) -> Self {
        MemberDiskServiceError::Metadata(error)
    }
}

impl From<MetadataError> for MemberDiskServiceError {
    fn from(error: MetadataError) -> Self {
        MemberDiskServiceError::Metadata(error)
    }
}

/// The message of an error that came from a neighbour or from the disk is that of
/// its cause. Every other names what it is about: the disk, the Tier with what it
/// can provide and what was asked for, or the transition.
pub proof fn law_message_is_that_of_the_cause(
    disk: DiskUuid,
    node: PoolNodeError,
    virtual_disk: VirtualDiskError,
    metadata: MetadataError,
    state: MemberDiskError,
    tier: String,
    requested: usize,
    available: usize,
)
    ensures
        MemberDiskServiceError::PoolNode(node).message() == node.message(),
        MemberDiskServiceError::VirtualDisk(virtual_disk).message() == virtual_disk.message(),
        MemberDiskServiceError::InvalidState(state).message() == state.message(),
        MemberDiskServiceError::Metadata(metadata).message()
            == "MemberDisk metadata update failed: "@ + metadata@,
        MemberDiskServiceError::UnknownDisk(disk).message() == "unknown MemberDisk "@ + disk@,
        MemberDiskServiceError::ServiceStopped.message() == "MemberDisk service has stopped"@,
        MemberDiskServiceError::Cancelled.message() == "MemberDisk operation was cancelled"@,
        MemberDiskServiceError::EmptyAllocation.message()
            == "allocation must request at least one BLK"@,
        (MemberDiskServiceError::InsufficientAllocationCandidates { tier, requested, available })
            .message() == "Tier "@ + tier@ + " can provide "@ + decimal_text(available as nat)
            + " of "@ + decimal_text(requested as nat) + " requested BLKs"@,
        MemberDiskServiceError::TransitionIncomplete(tier).message()
            == "MemberDisk transition is incomplete: "@ + tier@,
        node matches PoolNodeError::Failed(text) ==> node.message()
            == "PoolNode broadcast failed: "@ + text@,
        node is Cancelled ==> node.message() == "PoolNode broadcast was cancelled"@,
        virtual_disk matches VirtualDiskError::Failed(text) ==> virtual_disk.message()
            == "VirtualDisk operation failed: "@ + text@,
        virtual_disk is Cancelled ==> virtual_disk.message()
            == "VirtualDisk operation was cancelled"@,
{
}

/// Cancelled work becomes the cancellation of the operation, wherever it came
/// from, and every other error is kept with its cause.
pub proof fn law_errors_keep_their_cause(
    cancelled: Cancelled,
    node: PoolNodeError,
    virtual_disk: VirtualDiskError,
    metadata: MetadataError,
    state: MemberDiskError,
)
    ensures
        <MemberDiskServiceError as vstd::std_specs::convert::FromSpec<Cancelled>>::from_spec(cancelled) is Cancelled,
        node is Cancelled ==> <MemberDiskServiceError as vstd::std_specs::convert::FromSpec<
            PoolNodeError,
        >>::from_spec(node) is Cancelled,
        node is Failed ==> <MemberDiskServiceError as vstd::std_specs::convert::FromSpec<
            PoolNodeError,
        >>::from_spec(node) == MemberDiskServiceError::PoolNode(node),
        virtual_disk is Cancelled ==> <MemberDiskServiceError as vstd::std_specs::convert::FromSpec<
            VirtualDiskError,
        >>::from_spec(virtual_disk) is Cancelled,
        virtual_disk is Failed ==> <MemberDiskServiceError as vstd::std_specs::convert::FromSpec<
            VirtualDiskError,
        >>::from_spec(virtual_disk) == MemberDiskServiceError::VirtualDisk(virtual_disk),
        <MemberDiskServiceError as vstd::std_specs::convert::FromSpec<MetadataError>>::from_spec(metadata)
            == MemberDiskServiceError::Metadata(metadata),
        <MemberDiskServiceError as vstd::std_specs::convert::FromSpec<MemberDiskError>>::from_spec(state)
            == MemberDiskServiceError::InvalidState(state),
{
}

} // verus!
