//! The protocol between the clients of the MemberDisk service and the service.
use super::error::MemberDiskServiceError;
use super::workflow::{
    disk_scope, kind_text, reported_as, write_disk_scope, write_tier_scope,
};
use crate::member_disk::allocation::{AllocateBlks, Allocation};
use crate::member_disk::event::{EventKind, MemberDiskEvent, PhysicalState};
use crate::member_disk::model::{DiskUuid, MemberDisk};
use crate::runtime::observation::{OperationSpec, OperationSpecView};
use crate::runtime::service::CallError;
use crate::text::{decimal, decimal_text};
use vstd::prelude::*;
use vstd::string::StringExecFns;

verus! {

/// Confirms that an external fact or intent entered its MemberDisk object slot.
/// It does not mean that background convergence has completed.
#[derive(Debug, Clone, Copy, PartialEq, Eq, Structural)]
pub struct Accepted;

/// The complete protocol accepted by one MemberDisk service instance.
#[derive(Debug)]
pub enum MemberDiskRequest {
    ApplyEvent(MemberDiskEvent),
    Get(DiskUuid),
    WaitIdle(DiskUuid),
    Allocate(AllocateBlks),
}

/// One reply type shared by the complete MemberDisk protocol.
#[derive(Debug)]
pub enum MemberDiskReply {
    Accepted(Accepted),
    Member(MemberDisk),
    Idle,
    Allocation(Allocation),
}

/// Why a call to the MemberDisk service got no reply of its kind.
pub type MemberDiskCallError = CallError<MemberDiskServiceError>;

/// The name of what is done with a disk on behalf of an event.
pub open spec fn action_text(kind: EventKind) -> Seq<char> {
    match kind {
        EventKind::Offline => "take offline"@,
        EventKind::Online => "bring online"@,
        EventKind::Shrink => "shrink"@,
    }
}

impl MemberDiskRequest {
    /// The operation that a request begins. Queries begin none.
    pub open spec fn begins(&self) -> Option<OperationSpecView> {
        match *self {
            MemberDiskRequest::ApplyEvent(event) => Some(
                OperationSpecView {
                    domain: "member_disk"@,
                    kind: kind_text(event.asks()),
                    scope: disk_scope(event.subject()@),
                    summary: action_text(event.asks()) + " member disk "@ + event.subject()@,
                    causes: Seq::empty(),
                    trace: None,
                },
            ),
            MemberDiskRequest::Allocate(request) => Some(
                OperationSpecView {
                    domain: "member_disk"@,
                    kind: "allocate_blks"@,
                    scope: "tier/"@ + request@.tier,
                    summary: "allocate "@ + decimal_text(request@.count as nat)
                        + " BLKs from Tier "@ + request@.tier,
                    causes: Seq::empty(),
                    trace: None,
                },
            ),
            MemberDiskRequest::Get(_) | MemberDiskRequest::WaitIdle(_) => None,
        }
    }

    /// The operation that a request begins. Queries begin none.
    pub fn operation(&self) -> (spec: Option<OperationSpec>)
        ensures
            match spec {
                Some(spec) => self.begins() == Some(spec@),
                None => self.begins() is None,
            },
    {
        match self {
            MemberDiskRequest::ApplyEvent(event) => {
                let (kind, action) = match event.kind() {
                    EventKind::Offline => ("offline", "take offline"),
                    EventKind::Online => ("online", "bring online"),
                    EventKind::Shrink => ("shrink", "shrink"),
                };
                let scope = write_disk_scope(event.disk());
                let mut summary = action.to_owned();
                summary.append(" member disk ");
                summary.append(event.disk().as_str());
                Some(OperationSpec::new("member_disk", kind, scope.as_str(), summary.as_str()))
            },
            MemberDiskRequest::Allocate(request) => {
                let scope = write_tier_scope(request.tier());
                let mut summary = "allocate ".to_owned();
                summary.append(decimal(request.count() as u64).as_str());
                summary.append(" BLKs from Tier ");
                summary.append(request.tier());
                Some(
                    OperationSpec::new(
                        "member_disk",
                        "allocate_blks",
                        scope.as_str(),
                        summary.as_str(),
                    ),
                )
            },
            MemberDiskRequest::Get(_) | MemberDiskRequest::WaitIdle(_) => None,
        }
    }
}

impl CallError<MemberDiskServiceError> {
    /// The text of a failed call.
    pub open spec fn text(self) -> Seq<char> {
        match self {
            CallError::Unavailable(reason) => reason.message(),
            CallError::Stopped => "service has stopped"@,
            CallError::HandlerPanicked => "request handler panicked"@,
            CallError::RequestAborted => "request was aborted"@,
            CallError::ProtocolViolation(text) => text@,
            CallError::Domain(error) => error.message(),
        }
    }

    /// The text of a failed call.
    pub fn to_string(&self) -> (text: String)
        ensures
            text@ == self.text(),
    {
        match self {
            CallError::Unavailable(reason) => reason.to_string(),
            CallError::Stopped => "service has stopped".to_owned(),
            CallError::HandlerPanicked => "request handler panicked".to_owned(),
            CallError::RequestAborted => "request was aborted".to_owned(),
            CallError::ProtocolViolation(text) => (*text).to_owned(),
            CallError::Domain(error) => error.to_string(),
        }
    }
}

/// The reply to an event.
pub fn expect_accepted(reply: MemberDiskReply) -> (result: Result<Accepted, MemberDiskCallError>)
    ensures
        result == (match reply {
            MemberDiskReply::Accepted(accepted) => Ok(accepted),
            _ => Err(
                MemberDiskCallError::ProtocolViolation("MemberDisk ApplyEvent returned an unexpected reply"),
            ),
        }),
{
    match reply {
        MemberDiskReply::Accepted(accepted) => Ok(accepted),
        _ => Err(
            MemberDiskCallError::ProtocolViolation("MemberDisk ApplyEvent returned an unexpected reply"),
        ),
    }
}

/// The reply to a query for a disk.
pub fn expect_member(reply: MemberDiskReply) -> (result: Result<MemberDisk, MemberDiskCallError>)
    ensures
        result == (match reply {
            MemberDiskReply::Member(member) => Ok(member),
            _ => Err(MemberDiskCallError::ProtocolViolation("MemberDisk Get returned an unexpected reply")),
        }),
{
    match reply {
        MemberDiskReply::Member(member) => Ok(member),
        _ => Err(MemberDiskCallError::ProtocolViolation("MemberDisk Get returned an unexpected reply")),
    }
}

/// The reply to the question whether a disk is free.
pub fn expect_idle(reply: MemberDiskReply) -> (result: Result<(), MemberDiskCallError>)
    ensures
        result == (match reply {
            MemberDiskReply::Idle => Ok(()),
            _ => Err(
                MemberDiskCallError::ProtocolViolation("MemberDisk WaitIdle returned an unexpected reply"),
            ),
        }),
{
    match reply {
        MemberDiskReply::Idle => Ok(()),
        _ => Err(MemberDiskCallError::ProtocolViolation("MemberDisk WaitIdle returned an unexpected reply")),
    }
}

/// The reply to a request for BLKs.
pub fn expect_allocation(reply: MemberDiskReply) -> (result: Result<
    Allocation,
    MemberDiskCallError,
>)
    ensures
        result == (match reply {
            MemberDiskReply::Allocation(allocation) => Ok(allocation),
            _ => Err(
                MemberDiskCallError::ProtocolViolation("MemberDisk Allocate returned an unexpected reply"),
            ),
        }),
{
    match reply {
        MemberDiskReply::Allocation(allocation) => Ok(allocation),
        _ => Err(MemberDiskCallError::ProtocolViolation("MemberDisk Allocate returned an unexpected reply")),
    }
}

/// Every kind of request is answered by its own kind of reply; any other reply is
/// a violation of the protocol.
pub proof fn law_replies_answer_their_requests(
    reply: MemberDiskReply,
    accepted: Result<Accepted, MemberDiskCallError>,
    member: Result<MemberDisk, MemberDiskCallError>,
    idle: Result<(), MemberDiskCallError>,
    allocation: Result<Allocation, MemberDiskCallError>,
)
    requires
        call_ensures(expect_accepted, (reply,), accepted),
        call_ensures(expect_member, (reply,), member),
        call_ensures(expect_idle, (reply,), idle),
        call_ensures(expect_allocation, (reply,), allocation),
    ensures
        accepted is Ok <==> reply is Accepted,
        member is Ok <==> reply is Member,
        idle is Ok <==> reply is Idle,
        allocation is Ok <==> reply is Allocation,
        reply matches MemberDiskReply::Member(found) ==> member == Ok::<_, MemberDiskCallError>(
            found,
        ),
        reply matches MemberDiskReply::Allocation(given) ==> allocation == Ok::<
            _,
            MemberDiskCallError,
        >(given),
        accepted matches Err(error) ==> error is ProtocolViolation,
        member matches Err(error) ==> error is ProtocolViolation,
        idle matches Err(error) ==> error is ProtocolViolation,
        allocation matches Err(error) ==> error is ProtocolViolation,
{
}

/// Events and allocations begin an operation, of the member disk domain and about
/// the disk or the Tier that they concern; queries begin none.
pub proof fn law_only_changes_begin_operations(request: MemberDiskRequest)
    ensures
        request.begins() is Some <==> request is ApplyEvent || request is Allocate,
        request.begins() matches Some(spec) ==> spec.domain == "member_disk"@ && spec.causes.len()
            == 0 && spec.trace is None,
        request matches MemberDiskRequest::ApplyEvent(event) ==> {
            &&& request.begins() matches Some(spec)
            &&& spec.scope == "disk/"@ + event.subject()@
            &&& reported_as(event, spec.kind)
        },
        request matches MemberDiskRequest::Allocate(wanted) ==> {
            &&& request.begins() matches Some(spec)
            &&& spec.scope == "tier/"@ + wanted@.tier
            &&& spec.kind == "allocate_blks"@
        },
{
}

/// The text of a failed call is that of its reason or of the domain, where it has
/// one.
pub proof fn law_failed_call_tells_its_reason(error: MemberDiskCallError)
    ensures
        error matches CallError::Domain(cause) ==> error.text() == cause.message(),
        error matches CallError::Unavailable(reason) ==> error.text() == reason.message(),
        error matches CallError::ProtocolViolation(text) ==> error.text() == text@,
        error is Stopped ==> error.text() == "service has stopped"@,
        error is HandlerPanicked ==> error.text() == "request handler panicked"@,
        error is RequestAborted ==> error.text() == "request was aborted"@,
{
}

/// What is asked of a disk, and what of a Tier, is summed up with its name and its
/// number.
pub proof fn law_summaries_name_the_work(request: MemberDiskRequest)
    ensures
        request matches MemberDiskRequest::ApplyEvent(event) ==> {
            &&& request.begins() matches Some(spec)
            &&& event is Shrink ==> spec.summary == "shrink"@ + " member disk "@ + event.subject()@
            &&& (event matches MemberDiskEvent::PhysicalChanged { state: PhysicalState::Up, .. })
                ==> spec.summary == "bring online"@ + " member disk "@ + event.subject()@
            &&& (event matches MemberDiskEvent::PhysicalChanged { state: PhysicalState::Down, .. })
                ==> spec.summary == "take offline"@ + " member disk "@ + event.subject()@
        },
        request matches MemberDiskRequest::Allocate(wanted) ==> (request.begins() matches Some(spec)
            && spec.summary == "allocate "@ + decimal_text(wanted@.count as nat)
            + " BLKs from Tier "@ + wanted@.tier),
{
}

} // verus!
