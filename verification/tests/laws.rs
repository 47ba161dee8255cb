use pool_control_plane::member_disk::service::operations::{
    evacuate_down_disk, evacuate_online_disk, open_and_serve, set_disk_down, NextStep, Operation,
    Step, StepAction, StepFlow, StepOutcome,
};
use pool_control_plane::member_disk::service::reconcile::{
    reconcile_choice, Choice, ReconcileState,
};
use pool_control_plane::member_disk::{
    Allocation, BlkId, BlkRef, DiskIoState, DiskUuid, EpochMillis, MemberDisk, MemberDiskEvent,
    MemberDiskService, MemberDiskServiceError, MemberDiskState, MemberDiskUpdate, PhysicalState,
    PoolNodeError, UserDpRequest, VirtualDiskError,
};
use pool_control_plane::protocol::{CancelReason, TaskKey};
use pool_control_plane::runtime::object_task::{
    ConflictDecision, ObjectActivity, ObjectAdmission, ObjectTaskCoordinator,
};
use pool_control_plane::runtime::{
    IdCounter, ObservationHub, OperationContext, OperationId, OperationSpec, RequestId, TaskId,
};
use pool_control_plane::task::context::{ConflictPolicy, TaskMeta, TaskSpec};
use tokio_util::sync::CancellationToken;

const GIB: u64 = 1024 * 1024 * 1024;

fn member() -> MemberDisk {
    let uuid = DiskUuid::new("disk-1");
    let mut disk =
        MemberDisk::new(uuid, "pool-1", "tier-ssd", "ssd", 4 * GIB, Vec::new()).unwrap();
    disk.mark_io_up().unwrap();
    disk
}

#[test]
fn identities_ascend_from_one() {
    let mut counter = IdCounter::new();
    assert_eq!(TaskId::next(&mut counter).get(), 1);
    assert_eq!(RequestId::next(&mut counter).get(), 2);
    assert_eq!(OperationId::next(&mut counter).to_string(), "3");
    assert_eq!(counter.peek().get(), 4);
}

#[test]
fn an_operation_keeps_its_causes_and_its_trace() {
    let mut counter = IdCounter::new();
    let cause = OperationId::next(&mut counter);
    let spec = OperationSpec::new("pool", "resize", "pool/1", "grow").caused_by(cause);
    let operation = OperationContext::root(&mut counter, spec);
    assert_eq!(operation.causes(), [cause]);
    assert_eq!(operation.trace().trace_id(), "operation-2");
    assert_eq!((operation.domain(), operation.kind()), ("pool", "resize"));
    assert_eq!((operation.scope(), operation.summary()), ("pool/1", "grow"));
    assert!(operation.is_observable());
    let transient = OperationContext::transient(&mut counter);
    assert_eq!(transient.trace().trace_id(), "transient-3");
    assert!(!transient.is_observable());
}

#[test]
fn updates_settle_and_keep_the_identity_of_a_disk() {
    let mut disk = member();
    disk.allocate_blk().unwrap();
    let updates = [
        MemberDiskUpdate::RequestShrink,
        MemberDiskUpdate::ApplyDown,
        MemberDiskUpdate::DisableAllocation,
        MemberDiskUpdate::CompleteOnline,
    ];
    for update in updates {
        if disk.validate_update(&update).unwrap() {
            disk.apply_committed(&update);
        }
        assert_eq!(disk.validate_update(&update), Ok(false));
        assert_eq!(disk.uuid().as_str(), "disk-1");
        assert_eq!(disk.capacity_bytes(), 4 * GIB);
        assert_eq!(disk.allocation_bitmap().allocated_blks(), 1);
        assert!(disk.shrink_requested());
    }
}

#[test]
fn only_a_rejoin_clears_the_shrink_intent() {
    let mut disk = member();
    for update in [
        MemberDiskUpdate::RequestShrink,
        MemberDiskUpdate::DisableAllocation,
        MemberDiskUpdate::ApplyDown,
        MemberDiskUpdate::Remove,
    ] {
        assert_eq!(disk.validate_update(&update), Ok(true));
        disk.apply_committed(&update);
        assert!(disk.shrink_requested());
    }
    assert_eq!(disk.state(), MemberDiskState::Removed);
    disk.apply_committed(&MemberDiskUpdate::Rejoin);
    assert!(!disk.shrink_requested());
    assert_eq!(disk.state(), MemberDiskState::UpActive);
    assert_eq!(disk.complete_online(), Ok(false));
}

#[test]
fn a_release_undoes_an_allocation() {
    let mut disk = member();
    let before = disk.allocation_bitmap().clone();
    let blk = disk.allocate_blk().unwrap();
    assert_ne!(*disk.allocation_bitmap(), before);
    disk.release_blk(blk).unwrap();
    assert_eq!(*disk.allocation_bitmap(), before);
    let refs = vec![BlkRef::new(DiskUuid::new("disk-1"), BlkId::new(3))];
    assert_eq!(Allocation::new(refs.clone()).into_blks(), refs);
}

#[test]
fn operations_are_made_of_the_documented_steps() {
    assert_eq!(
        set_disk_down(),
        [Step::BroadcastDown, Step::Commit(MemberDiskUpdate::ApplyDown)]
    );
    assert_eq!(evacuate_down_disk(), [Step::Evacuate, Step::Commit(MemberDiskUpdate::Remove)]);
    assert_eq!(
        evacuate_online_disk(),
        [
            Step::Evacuate,
            Step::BroadcastDown,
            Step::Commit(MemberDiskUpdate::ApplyDown),
            Step::Commit(MemberDiskUpdate::Remove),
        ]
    );
    assert_eq!(
        open_and_serve(MemberDiskState::Removed)[2],
        Step::Commit(MemberDiskUpdate::Rejoin)
    );
    assert_eq!(
        open_and_serve(MemberDiskState::DownActive)[2],
        Step::Commit(MemberDiskUpdate::CompleteOnline)
    );
}

#[test]
fn a_failed_broadcast_ends_an_operation_unless_it_takes_the_disk_down() {
    let mut service = MemberDiskService::new(vec![member()], 0);
    let disk = DiskUuid::new("disk-1");
    let mut down = Operation::new(disk.clone(), set_disk_down());
    assert!(!down.commits_next());
    match down.next(&service, 0) {
        NextStep::Act(StepAction::Broadcast { request, preemptible }) => {
            assert!(!preemptible);
            assert_eq!(
                request,
                UserDpRequest::SetDiskState { disk: disk.clone(), state: DiskIoState::Down }
            );
        }
        _ => panic!("the broadcast comes first"),
    }
    let refused = || StepOutcome::Broadcast(Err(PoolNodeError::failed("lost")));
    assert_eq!(
        down.resume(refused(), &mut service),
        Ok(StepFlow::RepeatAfter { millis: 100 })
    );
    assert_eq!(down.resume(StepOutcome::Broadcast(Ok(())), &mut service), Ok(StepFlow::Next));
    assert!(down.commits_next());

    let steps = open_and_serve(MemberDiskState::DownActive);
    let mut online = Operation::new(disk.clone(), steps);
    match online.next(&service, 0) {
        NextStep::Act(StepAction::Broadcast { request, preemptible }) => {
            assert!(preemptible);
            assert_eq!(request, UserDpRequest::OpenDisk(disk.clone()));
        }
        _ => panic!("the disk is opened first"),
    }
    assert_eq!(
        online.resume(refused(), &mut service),
        Err(MemberDiskServiceError::PoolNode(PoolNodeError::failed("lost")))
    );

    let mut evacuation = Operation::new(disk, evacuate_down_disk());
    assert!(matches!(evacuation.next(&service, 0), NextStep::Act(StepAction::Evacuate)));
    assert_eq!(
        evacuation.resume(StepOutcome::Evacuated(Err(VirtualDiskError::Cancelled)), &mut service),
        Err(MemberDiskServiceError::Cancelled)
    );
}

#[test]
fn a_disk_that_is_down_is_taken_down_before_anything_else() {
    let event = MemberDiskEvent::PhysicalChanged {
        disk: DiskUuid::new("disk-1"),
        state: PhysicalState::Down,
        observed_at: EpochMillis::new(7),
    };
    for shrinking in [false, true] {
        for member in [MemberDiskState::UpActive, MemberDiskState::UpInactive] {
            match reconcile_choice(&event, ReconcileState { member, shrinking }, 5) {
                Choice::Run { steps, action, finish } => {
                    assert_eq!(steps, set_disk_down());
                    assert_eq!(action, "set disk DOWN");
                    assert_eq!(finish.shrinking, shrinking);
                }
                _ => panic!("the disk is taken down"),
            }
        }
    }
    let start = ReconcileState { member: MemberDiskState::DownActive, shrinking: false };
    match reconcile_choice(&event, start, 5) {
        Choice::Run { steps, .. } => assert_eq!(steps[0], Step::WaitUntil { deadline_ms: 12 }),
        _ => panic!("the recovery window follows"),
    }
    let end = ReconcileState { member: MemberDiskState::Removed, shrinking: false };
    assert!(matches!(reconcile_choice(&event, end, 5), Choice::Stable));
}

fn join(_: ObjectActivity<'_, u8>, _: &u8) -> ConflictDecision {
    ConflictDecision::Join
}

#[test]
fn a_lease_gives_back_only_what_it_holds() {
    let service = CancellationToken::new();
    let mut hub = ObservationHub::new("objects", "objects", 8);
    let mut first: ObjectTaskCoordinator<u64, u8, &str> = ObjectTaskCoordinator::new("dropped");
    let mut second: ObjectTaskCoordinator<u64, u8, &str> = ObjectTaskCoordinator::new("dropped");
    let _busy = match second.admit_intent(9, 0, &service, join, &mut hub, 1) {
        ObjectAdmission::Active(lease) => lease,
        _ => panic!("the object is free"),
    };
    let _held = match second.admit_intent(1, 1, &service, join, &mut hub, 1) {
        ObjectAdmission::Active(lease) => lease,
        _ => panic!("the object is free"),
    };
    let stale = match first.admit_intent(1, 2, &service, join, &mut hub, 1) {
        ObjectAdmission::Active(lease) => lease,
        _ => panic!("the object is free"),
    };
    assert!(stale.finish(&mut second, Ok(())).is_empty());
    assert!(second.is_active(&1));
    assert!(first.is_active(&1));
}

#[test]
fn a_task_spec_can_replace_a_running_task() {
    let meta = TaskMeta::new(TaskKey::new("work"), "work");
    let spec = TaskSpec::new(meta, 7).replace_running(CancelReason::NoLongerNeeded);
    assert!(matches!(spec.conflict, ConflictPolicy::Replace(CancelReason::NoLongerNeeded)));
    assert_eq!(spec.into_parts().2, 7);
}
