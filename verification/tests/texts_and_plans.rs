use pool_control_plane::member_disk::service::error::MemberDiskServiceError;
use pool_control_plane::member_disk::service::operations::{
    wait_then_disable, Step, SET_DISK_DOWN_RETRY_DELAY_MS,
};
use pool_control_plane::member_disk::service::reconcile::{
    finish_evacuation_transition, finish_transition, ReconcileResult, ReconcileState,
};
use pool_control_plane::member_disk::service::workflow::{
    begin_allocation, end_allocation, event_kind, write_disk_scope, write_tier_scope,
};
use pool_control_plane::member_disk::{
    AllocateBlks, AllocationBitmap, BlkId, BlkSize, Cancelled, DiskIoState, DiskUuid, EpochMillis,
    FailureDomain, MemberDisk, MemberDiskCallError, MemberDiskError, MemberDiskEvent, MemberDiskService,
    MemberDiskState, MemberDiskUpdate, MetadataError, PhysicalState, PoolNodeError,
    VirtualDiskError,
};
use pool_control_plane::ordered_map::OrderedMap;
use pool_control_plane::runtime::service::{enqueue, Reception, ServiceRoot};
use pool_control_plane::runtime::{
    ControlError, IdCounter, ObservationHub, OperationContext, OperationSpec, ServiceConfig,
    ServiceLifecycle, ServiceUnavailable, TaskId, TaskOutcome, TraceContext,
};
use pool_control_plane::runtime::RuntimeEventKind;
use pool_control_plane::text::{decimal, precedes};

const GIB: u64 = 1024 * 1024 * 1024;

fn member(uuid: &str, tier: &str, node: &str, gib: u64) -> MemberDisk {
    let domains = vec![FailureDomain::new("node", node)];
    let mut disk =
        MemberDisk::new(DiskUuid::new(uuid), "pool-1", tier, "ssd", gib * GIB, domains).unwrap();
    disk.mark_io_up().unwrap();
    disk
}

#[test]
fn numbers_are_written_in_decimal() {
    assert_eq!(decimal(0), "0");
    assert_eq!(decimal(9), "9");
    assert_eq!(decimal(10), "10");
    assert_eq!(decimal(u64::MAX), u64::MAX.to_string());
    assert!(precedes("disk-1", "disk-2"));
    assert!(precedes("disk", "disk-1"));
    assert!(!precedes("b", "ab"));
    assert!(!precedes("a", "a"));
}

#[test]
fn an_ordered_map_is_walked_in_the_order_of_its_keys() {
    let mut map: OrderedMap<u64, &str> = OrderedMap::new();
    assert!(map.is_empty());
    assert_eq!(map.insert(3, "c"), None);
    assert_eq!(map.insert(1, "a"), None);
    assert_eq!(map.insert(2, "b"), None);
    assert_eq!(map.insert(2, "B"), Some("b"));
    assert_eq!(map.len(), 3);
    assert_eq!((*map.key_at(0), *map.value_at(1)), (1, "B"));
    assert_eq!(map.remove(&1), Some("a"));
    assert_eq!(map.remove(&1), None);
    assert_eq!(map.get(&3), Some(&"c"));
    assert!(!map.contains_key(&1));
    assert_eq!(map.into_values(), ["B", "c"]);
}

#[test]
fn errors_of_the_model_have_texts() {
    let blk = BlkId::new(5);
    let texts = [
        (
            MemberDiskError::CapacityTooSmall { capacity_bytes: 7, minimum_bytes: GIB },
            "member disk capacity 7 is smaller than one BLK (1073741824)",
        ),
        (
            MemberDiskError::NotAllocatable { state: MemberDiskState::DownActive },
            "member disk is not allocatable in state DownActive",
        ),
        (MemberDiskError::NoFreeBlk, "member disk has no free BLK"),
        (
            MemberDiskError::BlkOutOfRange { blk, total_blks: 4 },
            "BLK 5 is outside member disk range 0..4",
        ),
        (MemberDiskError::BlkNotAllocated { blk }, "BLK 5 is not allocated"),
        (MemberDiskError::BlkAlreadyAllocated { blk }, "BLK 5 is already allocated"),
        (
            MemberDiskError::AllocationStillActive,
            "allocation must be disabled before removing member disk",
        ),
        (
            MemberDiskError::BlksStillAllocated { allocated_blks: 2 },
            "member disk still owns 2 allocated BLKs",
        ),
        (MemberDiskError::AlreadyRemoved, "member disk has already been removed"),
    ];
    for (error, text) in texts {
        assert_eq!(error.to_string(), text);
    }
}

#[test]
fn errors_of_the_service_have_texts() {
    let mut counter = IdCounter::new();
    let task = TaskId::next(&mut counter);
    assert_eq!(
        MemberDiskServiceError::UnknownDisk(DiskUuid::new("disk-1")).to_string(),
        "unknown MemberDisk disk-1"
    );
    assert_eq!(MemberDiskServiceError::from(Cancelled), MemberDiskServiceError::Cancelled);
    assert_eq!(
        MemberDiskServiceError::from(VirtualDiskError::Cancelled),
        MemberDiskServiceError::Cancelled
    );
    assert_eq!(
        MemberDiskServiceError::from(PoolNodeError::Cancelled),
        MemberDiskServiceError::Cancelled
    );
    assert_eq!(
        MemberDiskServiceError::from(VirtualDiskError::failed("busy")).to_string(),
        "VirtualDisk operation failed: busy"
    );
    assert_eq!(
        MemberDiskServiceError::from(PoolNodeError::failed("lost")).to_string(),
        "PoolNode broadcast failed: lost"
    );
    assert_eq!(
        MemberDiskServiceError::from(MetadataError::new("SDB unavailable")).to_string(),
        "MemberDisk metadata update failed: SDB unavailable"
    );
    assert_eq!(
        MemberDiskServiceError::from(MemberDiskError::NoFreeBlk).to_string(),
        "member disk has no free BLK"
    );
    assert_eq!(ServiceUnavailable::Paused.to_string(), "service is Paused");
    assert_eq!(
        ControlError::InvalidTransition { from: ServiceLifecycle::Paused, command: "pause" }
            .to_string(),
        "cannot pause a service in Paused"
    );
    assert_eq!(
        ControlError::TaskNotFound(task).to_string(),
        format!("task {} is not active", task.get())
    );
    assert_eq!(
        ControlError::TaskNotCancellable(task).to_string(),
        format!("task {} is not cancellable", task.get())
    );
    assert_eq!(ControlError::ServiceStopped.to_string(), "service control channel is closed");
}

#[test]
fn an_incomplete_transition_is_told_with_the_quoted_event() {
    let disk = DiskUuid::new("a\"b");
    let start = ReconcileState { member: MemberDiskState::UpActive, shrinking: false };
    let finish = ReconcileState { member: MemberDiskState::DownActive, shrinking: false };
    let event = MemberDiskEvent::PhysicalChanged {
        disk: disk.clone(),
        state: PhysicalState::Down,
        observed_at: EpochMillis::new(12),
    };
    assert_eq!(
        finish_transition(&disk, start, &event, "set disk down", finish, start),
        Err(MemberDiskServiceError::TransitionIncomplete(
            "MemberDisk a\"b: ReconcileState { member: UpActive, shrinking: false } \
             --PhysicalChanged { disk: DiskUuid(\"a\\\"b\"), state: Down, observed_at: \
             EpochMillis(12) } / set disk down--> expected ReconcileState { member: DownActive, \
             shrinking: false }, got ReconcileState { member: UpActive, shrinking: false }"
                .to_string()
        ))
    );
    assert_eq!(
        finish_transition(&disk, start, &event, "set disk down", finish, finish),
        Ok(ReconcileResult::Transitioned { action: "set disk down" })
    );
    let shrink = MemberDiskEvent::Shrink { disk: DiskUuid::new("disk-1") };
    let name = DiskUuid::new("disk-1");
    assert_eq!(
        finish_evacuation_transition(&name, start, &shrink, start, true),
        Err(MemberDiskServiceError::TransitionIncomplete(
            "MemberDisk disk-1: ReconcileState { member: UpActive, shrinking: false } \
             --Shrink { disk: DiskUuid(\"disk-1\") } / evacuate BG references--> expected \
             ReconcileState { member: UpActive, shrinking: false } with no VDM references, got \
             ReconcileState { member: UpActive, shrinking: false } with has_bg_references=true"
                .to_string()
        ))
    );
    assert!(finish_evacuation_transition(&name, start, &shrink, start, false).is_ok());
}

#[test]
fn the_recovery_deadline_is_fixed_and_saturates() {
    assert_eq!(
        wait_then_disable(EpochMillis::new(1_000), 500),
        [
            Step::WaitUntil { deadline_ms: 1_500 },
            Step::Commit(MemberDiskUpdate::DisableAllocation),
        ]
    );
    assert_eq!(
        wait_then_disable(EpochMillis::new(u64::MAX), 500)[0],
        Step::WaitUntil { deadline_ms: u64::MAX }
    );
    assert_eq!(SET_DISK_DOWN_RETRY_DELAY_MS, 100);
}

#[test]
fn a_bitmap_hands_out_every_block_once() {
    let mut bitmap = AllocationBitmap::empty(65);
    for index in 0..65 {
        assert_eq!(bitmap.allocate_one(), Ok(BlkId::new(index)));
    }
    assert_eq!(bitmap.allocate_one(), Err(MemberDiskError::NoFreeBlk));
    assert_eq!(bitmap.allocated_blks(), 65);
    bitmap.release(BlkId::new(64)).unwrap();
    assert_eq!(bitmap.next_free(), Some(BlkId::new(64)));
    assert_eq!(
        bitmap.release(BlkId::new(64)),
        Err(MemberDiskError::BlkNotAllocated { blk: BlkId::new(64) })
    );
    assert_eq!(
        bitmap.mark_allocated(BlkId::new(65)),
        Err(MemberDiskError::BlkOutOfRange { blk: BlkId::new(65), total_blks: 65 })
    );
    assert_eq!(
        bitmap.mark_allocated(BlkId::new(0)),
        Err(MemberDiskError::BlkAlreadyAllocated { blk: BlkId::new(0) })
    );
    assert!(!bitmap.is_allocated(BlkId::new(65)));
    assert_eq!(BlkSize::for_capacity(8 * 1024 * GIB).bytes(), GIB);
    assert_eq!(BlkSize::for_capacity(8 * 1024 * GIB + 1).bytes(), 2 * GIB);
}

#[test]
fn an_allocation_takes_distinct_disks_and_marks_exactly_its_plan() {
    let disks = vec![
        member("disk-1", "tier-ssd", "node-1", 4),
        member("disk-2", "tier-ssd", "node-1", 4),
        member("disk-3", "tier-ssd", "node-2", 4),
        member("disk-4", "tier-hdd", "node-3", 4),
    ];
    let mut service = MemberDiskService::new(disks, 0);
    let plan = service
        .plan_allocation(&AllocateBlks::new("tier-ssd", 2).distinct_by("node"))
        .unwrap();
    let chosen: Vec<&str> = plan.iter().map(|blk| blk.disk().as_str()).collect();
    assert_eq!(chosen, ["disk-1", "disk-3"]);
    let allocation = service.finish_allocation(plan, Ok(())).unwrap();
    assert_eq!(allocation.blks().len(), 2);
    let used = |service: &MemberDiskService, name: &str| {
        let disk = service.get_member(&DiskUuid::new(name)).unwrap();
        disk.allocation_bitmap().allocated_blks()
    };
    assert_eq!(used(&service, "disk-1"), 1);
    assert_eq!(used(&service, "disk-2"), 0);
    assert_eq!(used(&service, "disk-3"), 1);

    let plan = service.plan_allocation(&AllocateBlks::new("tier-ssd", 1)).unwrap();
    let refused = service.finish_allocation(plan, Err(MetadataError::new("SDB unavailable")));
    assert_eq!(
        refused.err().unwrap(),
        MemberDiskServiceError::Metadata(MetadataError::new("SDB unavailable"))
    );
    assert_eq!(used(&service, "disk-1"), 1);
    assert_eq!(used(&service, "disk-2"), 0);
}

#[test]
fn an_allocation_that_cannot_be_met_changes_nothing() {
    let service = MemberDiskService::new(vec![member("disk-1", "tier-ssd", "node-1", 4)], 0);
    assert_eq!(
        service.plan_allocation(&AllocateBlks::new("tier-ssd", 0)).err().unwrap(),
        MemberDiskServiceError::EmptyAllocation
    );
    assert_eq!(
        service.plan_allocation(&AllocateBlks::new("tier-ssd", 2)).err().unwrap(),
        MemberDiskServiceError::InsufficientAllocationCandidates {
            tier: "tier-ssd".to_string(),
            requested: 2,
            available: 1,
        }
    );
}

#[test]
fn a_change_is_published_only_after_its_commit() {
    let mut service = MemberDiskService::new(vec![member("disk-1", "tier-ssd", "node-1", 4)], 5);
    let disk = DiskUuid::new("disk-1");
    assert_eq!(service.recovery_window_ms(), 5);
    assert_eq!(service.disk_count(), 1);
    assert_eq!(service.check_change(&disk, MemberDiskUpdate::ApplyDown), Ok(true));
    assert_eq!(service.disk_at(0).io_state(), DiskIoState::Up);
    let failure = Err(MetadataError::new("SDB unavailable"));
    assert!(service.finish_change(&disk, MemberDiskUpdate::ApplyDown, failure).is_err());
    assert_eq!(service.disk_at(0).io_state(), DiskIoState::Up);
    assert!(service.finish_change(&disk, MemberDiskUpdate::ApplyDown, Ok(())).is_ok());
    assert_eq!(service.disk_at(0).io_state(), DiskIoState::Down);
    assert_eq!(service.check_change(&disk, MemberDiskUpdate::ApplyDown), Ok(false));
    assert_eq!(
        service.check_change(&DiskUuid::new("disk-9"), MemberDiskUpdate::Remove),
        Err(MemberDiskServiceError::UnknownDisk(DiskUuid::new("disk-9")))
    );
    assert_eq!(
        service.check_change(&disk, MemberDiskUpdate::Remove),
        Err(MemberDiskServiceError::InvalidState(MemberDiskError::AllocationStillActive))
    );
}

#[test]
fn an_allocation_is_observed_as_a_task_that_cannot_be_cancelled() {
    let mut counter = IdCounter::new();
    let mut hub = ObservationHub::new("member-disk", "member-disk", 32);
    let mut root = ServiceRoot::new(&ServiceConfig::new("member-disk", "member-disk"));
    root.initialization_finished(Ok(()), &mut hub, 0);
    let spec = OperationSpec::new("member_disk", "allocate_blks", "tier/tier-ssd", "allocate")
        .with_trace(TraceContext::new("trace-7"));
    let operation = OperationContext::root(&mut counter, spec);
    enqueue(&operation, &mut hub, 1).unwrap();
    let context = match root.receive(Some(&operation), &mut counter, &mut hub, 1) {
        Reception::Accepted { context, .. } => context,
        _ => panic!("a running service accepts requests"),
    };
    let request = AllocateBlks::new("tier-ssd", 3);
    let task = begin_allocation(&request, &context, &mut hub, &mut counter, 2);
    let shown = hub.snapshot().active_tasks.remove(0);
    assert_eq!(shown.key, "tier/tier-ssd");
    assert_eq!(shown.kind, "allocate_blks");
    assert_eq!(shown.summary, "allocate 3 BLKs");
    assert_eq!(shown.trace_id, "trace-7");
    assert_eq!(shown.blocked_on.as_deref(), Some("SDB MemberDisk allocation commit"));
    assert_eq!(
        hub.cancel_task(task.id(), "no", 3),
        Err(ControlError::TaskNotCancellable(task.id()))
    );
    end_allocation(task, &Err(MemberDiskServiceError::EmptyAllocation), &mut hub, 4);
    assert!(hub.history().iter().any(|event| matches!(
        &event.kind,
        RuntimeEventKind::TaskFinished { outcome: TaskOutcome::Failed(text), .. }
            if text == "allocation must request at least one BLK"
    )));
}

#[test]
fn scopes_and_kinds_have_names() {
    assert_eq!(write_disk_scope(&DiskUuid::new("disk-1")), "disk/disk-1");
    assert_eq!(write_tier_scope("tier-ssd"), "tier/tier-ssd");
    let shrink = MemberDiskEvent::Shrink { disk: DiskUuid::new("disk-1") };
    assert_eq!(event_kind(&shrink), "shrink");
    assert_eq!(ServiceLifecycle::Draining.name(), "Draining");
    assert!(ServiceLifecycle::Failed.is_terminal());
    assert!(ServiceLifecycle::Running.accepts_requests());
}

#[test]
fn a_refused_allocation_is_told_the_largest_selection() {
    let disks = vec![
        member("disk-1", "tier-ssd", "node-1", 4),
        member("disk-2", "tier-ssd", "node-1", 4),
        member("disk-3", "tier-ssd", "node-2", 4),
        member("disk-4", "tier-hdd", "node-3", 4),
    ];
    let service = MemberDiskService::new(disks, 0);
    for (request, largest) in [
        (AllocateBlks::new("tier-ssd", 4), 3),
        (AllocateBlks::new("tier-ssd", 4).distinct_by("node"), 2),
        (AllocateBlks::new("tier-ssd", 4).distinct_by("rack"), 0),
    ] {
        assert_eq!(
            service.plan_allocation(&request).err().unwrap(),
            MemberDiskServiceError::InsufficientAllocationCandidates {
                tier: "tier-ssd".to_string(),
                requested: 4,
                available: largest,
            }
        );
    }
}

#[test]
fn a_disk_identity_is_its_text() {
    let disk = DiskUuid::new("disk-1");
    assert_eq!(disk.to_string(), "disk-1");
    assert_eq!(DiskUuid::new(disk.to_string().as_str()), disk);
    assert_ne!(DiskUuid::new("disk-2"), disk);
}

#[test]
fn failed_calls_have_texts() {
    let disk = DiskUuid::new("disk-1");
    let domain = MemberDiskServiceError::UnknownDisk(disk);
    let text = domain.to_string();
    assert_eq!(MemberDiskCallError::Domain(domain).to_string(), text);
    assert_eq!(MemberDiskCallError::Stopped.to_string(), "service has stopped");
    assert_eq!(MemberDiskCallError::HandlerPanicked.to_string(), "request handler panicked");
    assert_eq!(MemberDiskCallError::RequestAborted.to_string(), "request was aborted");
    assert_eq!(MemberDiskCallError::ProtocolViolation("odd reply").to_string(), "odd reply");
    let paused = ServiceUnavailable::from(ServiceLifecycle::Paused);
    assert_eq!(MemberDiskCallError::Unavailable(paused).to_string(), paused.to_string());
}
