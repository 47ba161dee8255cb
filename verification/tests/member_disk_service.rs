use pool_control_plane::member_disk::service::directory::MemberDiskService;
use pool_control_plane::member_disk::service::error::MemberDiskServiceError;
use pool_control_plane::member_disk::service::operations::{StepAction, StepFlow, StepOutcome};
use pool_control_plane::member_disk::service::reconcile::{
    ReconcileAction, ReconcileOutcome, ReconcileState, Reconciliation,
};
use pool_control_plane::member_disk::service::workflow::{ObjectWorkflow, RoundEnd};
use pool_control_plane::member_disk::{
    DiskIoState, DiskUuid, EpochMillis, FailureDomain, MemberDisk, MemberDiskEvent,
    MemberDiskState, MemberDiskUpdate, MetadataError, PhysicalState, PoolNodeError, UserDpRequest,
    VirtualDiskError,
};
use pool_control_plane::runtime::hub::ObservationHub;
use pool_control_plane::runtime::ids::IdCounter;
use pool_control_plane::runtime::object_task::{
    IdleWait, ObjectAdmission, ObjectLease, ObjectPending, Offer,
};
use pool_control_plane::runtime::observation::{OperationContext, OperationSpec, RuntimeEventKind};
use pool_control_plane::runtime::service::{
    enqueue, Reception, RequestContext, ServiceConfig, ServiceRoot,
};
use pool_control_plane::runtime::task::TaskOutcome;

const GIB: u64 = 1024 * 1024 * 1024;
const HOUR_MS: u128 = 3_600_000;

#[derive(Debug, PartialEq, Eq)]
enum Call {
    Metadata(MemberDiskUpdate),
    PoolNode(UserDpRequest),
    Evacuate(DiskUuid),
}

/// The outside work at which a workflow is held up.
#[derive(Debug, Clone, Copy, PartialEq, Eq)]
enum Hold {
    Down,
    Wait,
    Evacuation,
}

struct World {
    service: MemberDiskService,
    hub: ObservationHub,
    counter: IdCounter,
    root: ServiceRoot,
    now: u64,
    calls: Vec<Call>,
    fail_metadata: bool,
    down_failures: usize,
    down_attempts: usize,
    delays: Vec<u64>,
    has_references: bool,
    clear_references_on_success: bool,
    reference_queries: usize,
    evacuations: usize,
}

type Lease = ObjectLease<DiskUuid, MemberDiskEvent>;
type Pending = ObjectPending<DiskUuid, MemberDiskEvent>;

struct Driver {
    workflow: ObjectWorkflow,
    round: Option<(ReconcileState, Reconciliation)>,
    held: Option<ReconcileAction>,
}

enum Progress {
    Held,
    Ended(Result<(), MemberDiskServiceError>, Vec<Offer>),
}

fn disk() -> DiskUuid {
    DiskUuid::new("disk-1")
}

fn member() -> MemberDisk {
    let mut disk = MemberDisk::new(
        disk(),
        "pool-1",
        "tier-ssd",
        "ssd",
        GIB,
        vec![FailureDomain::new("node", "node-1")],
    )
    .unwrap();
    disk.mark_io_up().unwrap();
    disk
}

fn world(recovery_window_ms: u128) -> World {
    let config = ServiceConfig::new("member-disk", "member-disk");
    let mut hub = ObservationHub::new("member-disk", "member-disk", 256);
    let mut root = ServiceRoot::new(&config);
    root.initialization_finished(Ok(()), &mut hub, 0);
    World {
        service: MemberDiskService::new(vec![member()], recovery_window_ms),
        hub,
        counter: IdCounter::new(),
        root,
        now: 10_000,
        calls: Vec::new(),
        fail_metadata: false,
        down_failures: 0,
        down_attempts: 0,
        delays: Vec::new(),
        has_references: true,
        clear_references_on_success: true,
        reference_queries: 0,
        evacuations: 0,
    }
}

fn physical(state: PhysicalState, observed_at: u64) -> MemberDiskEvent {
    MemberDiskEvent::PhysicalChanged {
        disk: disk(),
        state,
        observed_at: EpochMillis::new(observed_at),
    }
}

fn shrink() -> MemberDiskEvent {
    MemberDiskEvent::Shrink { disk: disk() }
}

impl World {
    fn request(&mut self) -> RequestContext {
        let operation = OperationContext::root(
            &mut self.counter,
            OperationSpec::new("member-disk", "apply-event", "disk/disk-1", "apply an event"),
        );
        enqueue(&operation, &mut self.hub, self.now).unwrap();
        match self.root.receive(Some(&operation), &mut self.counter, &mut self.hub, self.now) {
            Reception::Accepted { context, .. } => context,
            _ => panic!("a running service accepts requests"),
        }
    }

    fn admission(&mut self, event: MemberDiskEvent) -> ObjectAdmission<DiskUuid, MemberDiskEvent> {
        let cancellation = self.root.cancellation().clone();
        self.service.handle_event(event, &cancellation, &mut self.hub, self.now).unwrap()
    }

    fn submit(&mut self, event: MemberDiskEvent) -> Driver {
        match self.admission(event) {
            ObjectAdmission::Active(lease) => self.start(lease),
            _ => panic!("a free disk is taken at once"),
        }
    }

    fn submit_pending(&mut self, event: MemberDiskEvent) -> Pending {
        match self.admission(event) {
            ObjectAdmission::Pending(pending) => pending,
            _ => panic!("a conflicting event waits"),
        }
    }

    fn start(&mut self, lease: Lease) -> Driver {
        let context = self.request();
        let workflow = ObjectWorkflow::start(
            lease,
            &context,
            &mut self.service,
            &mut self.hub,
            &mut self.counter,
            self.now,
        );
        Driver { workflow, round: None, held: None }
    }

    fn promote(&mut self, mut pending: Pending) -> Driver {
        let lease = pending.receiver.try_recv().unwrap().expect("the event was promoted");
        self.start(lease)
    }

    fn state(&self) -> MemberDiskState {
        self.service.get_member(&disk()).unwrap().state()
    }

    fn idle_result(&mut self) -> Result<(), MemberDiskServiceError> {
        match self.service.object_tasks().wait_idle(disk()) {
            IdleWait::Idle(result) => result,
            IdleWait::Waiting(_) => panic!("the disk is free"),
        }
    }

    fn perform(&mut self, action: ReconcileAction, cancelled: bool) -> ReconcileOutcome {
        match action {
            ReconcileAction::QueryReferences => {
                self.reference_queries += 1;
                ReconcileOutcome::References(Ok(self.has_references))
            }
            ReconcileAction::Evacuate => ReconcileOutcome::Evacuated(self.evacuate(cancelled)),
            ReconcileAction::Step(step) => ReconcileOutcome::Step(match step {
                StepAction::Broadcast { request, preemptible } => {
                    StepOutcome::Broadcast(self.broadcast(request, preemptible && cancelled))
                }
                StepAction::Sleep { millis } => {
                    if cancelled && millis > 0 {
                        StepOutcome::Interrupted
                    } else {
                        self.now += millis;
                        StepOutcome::Slept
                    }
                }
                StepAction::Evacuate => StepOutcome::Evacuated(self.evacuate(cancelled)),
                StepAction::CommitMetadata { update } => {
                    if self.fail_metadata {
                        StepOutcome::Committed(Err(MetadataError::new("SDB unavailable")))
                    } else {
                        self.calls.push(Call::Metadata(update));
                        StepOutcome::Committed(Ok(()))
                    }
                }
            }),
            ReconcileAction::Done(_) => panic!("a finished round asks for nothing"),
        }
    }

    fn broadcast(&mut self, request: UserDpRequest, cancelled: bool) -> Result<(), PoolNodeError> {
        if cancelled {
            return Err(PoolNodeError::Cancelled);
        }
        if is_down(&request) {
            self.down_attempts += 1;
            if self.down_failures > 0 {
                self.down_failures -= 1;
                return Err(PoolNodeError::failed("temporary user_dp failure"));
            }
        }
        self.calls.push(Call::PoolNode(request));
        Ok(())
    }

    fn evacuate(&mut self, cancelled: bool) -> Result<(), VirtualDiskError> {
        self.calls.push(Call::Evacuate(disk()));
        self.evacuations += 1;
        if cancelled {
            return Err(VirtualDiskError::Cancelled);
        }
        if self.clear_references_on_success {
            self.has_references = false;
        }
        Ok(())
    }
}

fn is_down(request: &UserDpRequest) -> bool {
    matches!(request, UserDpRequest::SetDiskState { state: DiskIoState::Down, .. })
}

fn hold_of(action: &ReconcileAction) -> Option<Hold> {
    match action {
        ReconcileAction::Evacuate | ReconcileAction::Step(StepAction::Evacuate) => {
            Some(Hold::Evacuation)
        }
        ReconcileAction::Step(StepAction::Broadcast { request, .. }) if is_down(request) => {
            Some(Hold::Down)
        }
        ReconcileAction::Step(StepAction::Sleep { .. }) => Some(Hold::Wait),
        _ => None,
    }
}

impl Driver {
    /// Runs the workflow to its end, or up to some outside work.
    fn run(mut self, world: &mut World, hold: Option<Hold>) -> (Option<Driver>, Progress) {
        loop {
            if self.round.is_none() {
                let before = world.service.reconcile_state(&disk()).unwrap();
                let round = self
                    .workflow
                    .begin_round(&world.service, &mut world.hub, world.now)
                    .unwrap();
                self.round = Some((before, round));
            }
            let (before, mut round) = self.round.take().unwrap();
            let (action, resumed) = match self.held.take() {
                Some(action) => (action, true),
                None => (round.next(&world.service, world.now), false),
            };
            if let ReconcileAction::Done(result) = action {
                match self.workflow.end_round(
                    before,
                    result,
                    &world.service,
                    &mut world.hub,
                    world.now,
                ) {
                    RoundEnd::Again => continue,
                    RoundEnd::Over(result) => return (None, self.end(result, world)),
                    RoundEnd::BrokenOff(_) => panic!("the disk is known"),
                }
            }
            if hold.is_some() && hold_of(&action) == hold && !resumed {
                self.held = Some(action);
                self.round = Some((before, round));
                return (Some(self), Progress::Held);
            }
            let cancelled = self.workflow.cancellation().is_cancelled();
            let outcome = world.perform(action, cancelled);
            match round.resume(outcome, &mut world.service) {
                Ok(StepFlow::Next) => {}
                Ok(StepFlow::RepeatAfter { millis }) => world.delays.push(millis),
                Err(error) => {
                    match self.workflow.end_round(
                        before,
                        Err(error),
                        &world.service,
                        &mut world.hub,
                        world.now,
                    ) {
                        RoundEnd::Over(result) => return (None, self.end(result, world)),
                        _ => panic!("an error ends the workflow"),
                    }
                }
            }
            self.round = Some((before, round));
        }
    }

    fn end(self, result: Result<(), MemberDiskServiceError>, world: &mut World) -> Progress {
        let copy = result.clone();
        let offers = self.workflow.finish(result, &mut world.service, &mut world.hub, world.now);
        Progress::Ended(copy, offers)
    }

    fn to_the_end(self, world: &mut World) -> Result<(), MemberDiskServiceError> {
        match self.run(world, None).1 {
            Progress::Ended(result, _) => result,
            Progress::Held => panic!("nothing holds the workflow"),
        }
    }

    fn up_to(self, world: &mut World, hold: Hold) -> Driver {
        self.run(world, Some(hold)).0.expect("the workflow gets there")
    }
}

fn set_state(state: DiskIoState) -> UserDpRequest {
    UserDpRequest::SetDiskState { disk: disk(), state }
}

#[test]
fn offline_is_driven_to_removed_by_the_state_table() {
    let mut world = world(0);
    let driver = world.submit(physical(PhysicalState::Down, 1_000));
    assert_eq!(driver.to_the_end(&mut world), Ok(()));
    assert_eq!(world.idle_result(), Ok(()));

    assert_eq!(world.state(), MemberDiskState::Removed);
    assert_eq!(
        world.calls,
        [
            Call::PoolNode(set_state(DiskIoState::Down)),
            Call::Metadata(MemberDiskUpdate::ApplyDown),
            Call::Metadata(MemberDiskUpdate::DisableAllocation),
            Call::Evacuate(disk()),
            Call::Metadata(MemberDiskUpdate::Remove),
        ]
    );
}

#[test]
fn online_cancels_the_recovery_wait_and_returns_to_up_active() {
    let mut world = world(HOUR_MS);
    let now = world.now;
    let down = world.submit(physical(PhysicalState::Down, now)).up_to(&mut world, Hold::Wait);
    let up = world.submit_pending(physical(PhysicalState::Up, now));
    assert!(down.workflow.cancellation().is_cancelled());
    assert_eq!(down.to_the_end(&mut world), Err(MemberDiskServiceError::Cancelled));
    assert_eq!(world.promote(up).to_the_end(&mut world), Ok(()));
    assert_eq!(world.idle_result(), Ok(()));

    assert_eq!(world.state(), MemberDiskState::UpActive);
    assert_eq!(world.evacuations, 0);
    assert_eq!(
        world.reference_queries, 0,
        "mandatory DOWN and replacement UP must not depend on VDM"
    );
}

#[test]
fn up_cannot_interrupt_the_required_down_broadcast() {
    let mut world = world(HOUR_MS);
    let now = world.now;
    let down = world.submit(physical(PhysicalState::Down, now)).up_to(&mut world, Hold::Down);
    let up = world.submit_pending(physical(PhysicalState::Up, now));
    assert!(down.workflow.cancellation().is_cancelled());
    assert_eq!(down.to_the_end(&mut world), Err(MemberDiskServiceError::Cancelled));
    assert_eq!(world.promote(up).to_the_end(&mut world), Ok(()));

    let node_calls: Vec<&UserDpRequest> = world
        .calls
        .iter()
        .filter_map(|call| match call {
            Call::PoolNode(request) => Some(request),
            _ => None,
        })
        .collect();
    assert_eq!(
        node_calls,
        [
            &set_state(DiskIoState::Down),
            &UserDpRequest::OpenDisk(disk()),
            &set_state(DiskIoState::Up),
        ]
    );
    assert!(world.calls.contains(&Call::Metadata(MemberDiskUpdate::ApplyDown)));
    assert_eq!(world.state(), MemberDiskState::UpActive);
}

#[test]
fn repeated_down_is_merged_in_the_disk_slot() {
    let mut world = world(HOUR_MS);
    let now = world.now;
    let down = world.submit(physical(PhysicalState::Down, now)).up_to(&mut world, Hold::Down);
    assert!(matches!(
        world.admission(physical(PhysicalState::Down, now)),
        ObjectAdmission::Joined
    ));
    assert_eq!(world.down_attempts, 0);
    let down = down.up_to(&mut world, Hold::Wait);
    assert_eq!(world.down_attempts, 1);

    let up = world.submit_pending(physical(PhysicalState::Up, now));
    assert_eq!(down.to_the_end(&mut world), Err(MemberDiskServiceError::Cancelled));
    assert_eq!(world.promote(up).to_the_end(&mut world), Ok(()));
    assert_eq!(world.down_attempts, 1);
}

#[test]
fn shrink_replaces_the_recovery_wait_without_losing_its_intent() {
    let mut world = world(HOUR_MS);
    let now = world.now;
    let down = world.submit(physical(PhysicalState::Down, now)).up_to(&mut world, Hold::Wait);
    let pending = world.submit_pending(shrink());
    assert_eq!(down.to_the_end(&mut world), Err(MemberDiskServiceError::Cancelled));
    assert_eq!(world.promote(pending).to_the_end(&mut world), Ok(()));

    let removed = world.service.get_member(&disk()).unwrap();
    assert_eq!(removed.state(), MemberDiskState::Removed);
    assert!(removed.shrink_requested());
    assert_eq!(world.evacuations, 1);
}

#[test]
fn disk_service_retries_a_failed_down_broadcast() {
    let mut world = world(0);
    world.down_failures = 1;
    let now = world.now;
    let down = world.submit(physical(PhysicalState::Down, now));
    assert_eq!(down.to_the_end(&mut world), Ok(()));

    assert_eq!(world.down_attempts, 2);
    assert_eq!(world.delays, [100]);
    assert_eq!(world.state(), MemberDiskState::Removed);
}

#[test]
fn an_abandoned_workflow_publishes_nothing_and_frees_the_disk() {
    let mut world = world(0);
    let down = world.submit(physical(PhysicalState::Down, 1_000)).up_to(&mut world, Hold::Down);
    let now = world.now;
    let offers = down.workflow.abandon(&mut world.service, &mut world.hub, now);
    assert!(offers.is_empty());
    assert!(!world.calls.contains(&Call::Metadata(MemberDiskUpdate::ApplyDown)));
    assert!(!world.service.is_busy(&disk()));
    assert_eq!(world.idle_result(), Err(MemberDiskServiceError::Cancelled));
    assert!(world.hub.history().iter().any(|event| matches!(
        &event.kind,
        RuntimeEventKind::TaskFinished { outcome: TaskOutcome::Aborted, .. }
    )));
}

#[test]
fn shrink_drains_before_stopping_io_and_removing_the_disk() {
    let mut world = world(0);
    let driver = world.submit(shrink());
    assert_eq!(driver.to_the_end(&mut world), Ok(()));

    assert_eq!(
        world.calls,
        [
            Call::Metadata(MemberDiskUpdate::RequestShrink),
            Call::Metadata(MemberDiskUpdate::DisableAllocation),
            Call::Evacuate(disk()),
            Call::PoolNode(set_state(DiskIoState::Down)),
            Call::Metadata(MemberDiskUpdate::ApplyDown),
            Call::Metadata(MemberDiskUpdate::Remove),
        ]
    );
    let removed = world.service.get_member(&disk()).unwrap();
    assert_eq!(removed.state(), MemberDiskState::Removed);
    assert!(removed.shrink_requested());
}

#[test]
fn a_new_up_event_rejoins_a_disk_removed_by_shrink() {
    let mut world = world(0);
    let driver = world.submit(shrink());
    assert_eq!(driver.to_the_end(&mut world), Ok(()));
    assert_eq!(world.state(), MemberDiskState::Removed);

    // The physical value was already Up before removal. This new event is
    // nevertheless an explicit rejoin request and clears the Shrink intent.
    let driver = world.submit(physical(PhysicalState::Up, 3_000));
    assert_eq!(driver.to_the_end(&mut world), Ok(()));

    let rejoined = world.service.get_member(&disk()).unwrap();
    assert_eq!(rejoined.state(), MemberDiskState::UpActive);
    assert!(!rejoined.shrink_requested());
}

#[test]
fn down_during_shrink_settles_then_resumes_from_the_real_state() {
    let mut world = world(0);
    let first = world.submit(shrink()).up_to(&mut world, Hold::Evacuation);
    let pending = world.submit_pending(physical(PhysicalState::Down, 2_000));
    assert_eq!(first.to_the_end(&mut world), Err(MemberDiskServiceError::Cancelled));
    let down = world.promote(pending);
    assert_eq!(down.to_the_end(&mut world), Ok(()));

    assert_eq!(world.evacuations, 2);
    assert_eq!(world.state(), MemberDiskState::Removed);
}

#[test]
fn failed_sdb_change_is_not_published_to_memory() {
    let mut world = world(0);
    world.fail_metadata = true;
    let failure = Err(MemberDiskServiceError::Metadata(MetadataError::new("SDB unavailable")));
    let driver = world.submit(physical(PhysicalState::Down, 1_000));
    assert_eq!(driver.to_the_end(&mut world), failure);
    assert_eq!(
        world.idle_result(),
        Err(MemberDiskServiceError::Metadata(MetadataError::new("SDB unavailable")))
    );
    assert_eq!(world.state(), MemberDiskState::UpActive);
}

#[test]
fn evacuation_must_reach_its_declared_finish_state() {
    let mut world = world(0);
    world.clear_references_on_success = false;
    let driver = world.submit(shrink());
    assert!(matches!(
        driver.to_the_end(&mut world),
        Err(MemberDiskServiceError::TransitionIncomplete(_))
    ));
    assert!(matches!(
        world.idle_result(),
        Err(MemberDiskServiceError::TransitionIncomplete(_))
    ));
    assert_eq!(world.state(), MemberDiskState::UpInactive);
}

#[test]
fn an_event_on_an_unknown_disk_is_refused() {
    let mut world = world(0);
    let cancellation = world.root.cancellation().clone();
    let event = MemberDiskEvent::Shrink { disk: DiskUuid::new("disk-9") };
    match world.service.handle_event(event, &cancellation, &mut world.hub, 0) {
        Err(error) => {
            assert_eq!(error, MemberDiskServiceError::UnknownDisk(DiskUuid::new("disk-9")));
        }
        Ok(_) => panic!("the disk is unknown"),
    }
    assert!(!world.service.is_busy(&DiskUuid::new("disk-9")));
}

#[test]
fn every_transition_of_a_workflow_is_audited() {
    let mut world = world(0);
    let driver = world.submit(physical(PhysicalState::Down, 1_000));
    assert_eq!(driver.to_the_end(&mut world), Ok(()));
    let transitions: Vec<(String, String, String, String)> = world
        .hub
        .history()
        .iter()
        .filter_map(|event| match &event.kind {
            RuntimeEventKind::StateTransition { object, event, from, action: _, to, .. } => {
                Some((object.clone(), event.clone(), from.clone(), to.clone()))
            }
            _ => None,
        })
        .collect();
    assert_eq!(transitions.len(), 4);
    for (object, event, _, _) in &transitions {
        assert_eq!(object, "disk/disk-1");
        assert_eq!(event, "offline");
    }
    for pair in transitions.windows(2) {
        assert_eq!(pair[0].3, pair[1].2);
    }
    assert!(world.hub.snapshot().active_tasks.is_empty());
}
