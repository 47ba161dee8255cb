use pool_control_plane::member_disk::service::client::{
    expect_accepted, expect_allocation, expect_idle, expect_member, MemberDiskCallError,
    MemberDiskReply, MemberDiskRequest,
};
use pool_control_plane::member_disk::{
    Accepted, AllocateBlks, Allocation, DiskUuid, MemberDisk, MemberDiskEvent,
};
use pool_control_plane::runtime::{CallError, OperationContext, OperationSpec};

#[allow(dead_code)]
fn replies_are_typed(replies: Vec<MemberDiskReply>) -> Result<(), MemberDiskCallError> {
    for reply in replies {
        match reply {
            MemberDiskReply::Accepted(_) => {
                let _: Accepted = expect_accepted(reply)?;
            }
            MemberDiskReply::Member(_) => {
                let _: MemberDisk = expect_member(reply)?;
            }
            MemberDiskReply::Idle => expect_idle(reply)?,
            MemberDiskReply::Allocation(_) => {
                let _: Allocation = expect_allocation(reply)?;
            }
        }
    }
    Ok(())
}

#[allow(dead_code)]
fn requests_name_their_operations(
    _operation: &OperationContext,
    event: MemberDiskEvent,
    disk: DiskUuid,
) -> Vec<Option<OperationSpec>> {
    vec![
        MemberDiskRequest::ApplyEvent(event).operation(),
        MemberDiskRequest::Get(disk.clone()).operation(),
        MemberDiskRequest::WaitIdle(disk).operation(),
        MemberDiskRequest::Allocate(AllocateBlks::new("tier-ssd", 1)).operation(),
    ]
}

#[test]
fn public_api_compiles() {}

#[test]
fn a_reply_of_another_request_is_a_protocol_violation() {
    assert!(matches!(
        expect_accepted(MemberDiskReply::Idle),
        Err(CallError::ProtocolViolation(_))
    ));
    assert!(matches!(
        expect_member(MemberDiskReply::Idle),
        Err(CallError::ProtocolViolation(_))
    ));
    assert!(matches!(
        expect_allocation(MemberDiskReply::Idle),
        Err(CallError::ProtocolViolation(_))
    ));
    assert!(matches!(
        expect_idle(MemberDiskReply::Accepted(Accepted)),
        Err(CallError::ProtocolViolation(_))
    ));
    assert!(expect_idle(MemberDiskReply::Idle).is_ok());
}

#[test]
fn only_commands_are_operations() {
    let event = MemberDiskEvent::Shrink { disk: DiskUuid::new("disk-1") };
    assert!(MemberDiskRequest::ApplyEvent(event).operation().is_some());
    assert!(MemberDiskRequest::Get(DiskUuid::new("disk-1")).operation().is_none());
    assert!(MemberDiskRequest::WaitIdle(DiskUuid::new("disk-1")).operation().is_none());
    let request = AllocateBlks::new("tier-ssd", 1);
    assert!(MemberDiskRequest::Allocate(request).operation().is_some());
}
