//! Business operations of the MemberDisk service.
//!
//! An operation is a list of steps. Each step asks for one piece of outside work
//! and goes on with its outcome.
use super::directory::{MemberDiskService, MemberDiskServiceView};
use super::error::MemberDiskServiceError;
use crate::member_disk::event::EpochMillis;
use crate::member_disk::model::{
    DiskIoState, DiskUuid, MemberDiskState, MemberDiskUpdate, MemberDiskView,
};
use crate::member_disk::ports::{MetadataError, PoolNodeError, UserDpRequest, VirtualDiskError};
use vstd::prelude::*;

verus! {

/// How long a failed DOWN broadcast waits before it is repeated.
pub const SET_DISK_DOWN_RETRY_DELAY_MS: u64 = 100;

/// One step of an operation.
#[derive(Debug, Clone, Copy, PartialEq, Eq, Structural)]
pub enum Step {
    /// Stop disk IO on every serviceable Pool node. Failed broadcasts are
    /// repeated, and no conflicting event interrupts this.
    BroadcastDown,
    /// Open the disk on every serviceable Pool node.
    OpenDisk,
    /// Publish the disk as UP on every serviceable Pool node.
    PublishUp,
    /// Wait for a point in time.
    WaitUntil { deadline_ms: u64 },
    /// Move every BG off the disk.
    Evacuate,
    /// Commit a change to SDB, then publish it in memory.
    Commit(MemberDiskUpdate),
}

/// The outside work that a step asks for.
#[derive(Debug, PartialEq, Eq)]
pub enum StepAction {
    /// Make one broadcast attempt. Only a preemptible one is cancelled with the
    /// task.
    Broadcast { request: UserDpRequest, preemptible: bool },
    /// Sleep, unless the task is cancelled.
    Sleep { millis: u64 },
    /// Have the virtual disks evacuate the disk.
    Evacuate,
    /// Commit a change to SDB.
    CommitMetadata { update: MemberDiskUpdate },
}

/// What came of the outside work.
#[derive(Debug, PartialEq, Eq)]
pub enum StepOutcome {
    Broadcast(Result<(), PoolNodeError>),
    Slept,
    Interrupted,
    Evacuated(Result<(), VirtualDiskError>),
    Committed(Result<(), MetadataError>),
}

/// How an operation goes on after a step.
#[derive(Debug, Clone, Copy, PartialEq, Eq, Structural)]
pub enum StepFlow {
    /// The step is done.
    Next,
    /// The step is repeated after a delay that nothing cuts short.
    RepeatAfter { millis: u64 },
}

/// Stops disk IO on every serviceable Pool node, then commits effective DOWN to
/// the MemberDisk metadata.
pub open spec fn down_steps() -> Seq<Step> {
    seq![Step::BroadcastDown, Step::Commit(MemberDiskUpdate::ApplyDown)]
}

/// Opens the disk, publishes it as UP, then commits the result.
pub open spec fn online_steps(state: MemberDiskState) -> Seq<Step> {
    seq![
        Step::OpenDisk,
        Step::PublishUp,
        Step::Commit(
            if state == MemberDiskState::Removed {
                MemberDiskUpdate::Rejoin
            } else {
                MemberDiskUpdate::CompleteOnline
            },
        ),
    ]
}

/// The sum of two times; beyond the range of `u64` its greatest value.
pub open spec fn time_after(start: u64, millis: u64) -> u64 {
    if start + millis > u64::MAX {
        u64::MAX
    } else {
        (start + millis) as u64
    }
}

/// What is left until a point in time.
pub open spec fn time_left(deadline_ms: u64, now: u64) -> u64 {
    if deadline_ms > now {
        (deadline_ms - now) as u64
    } else {
        0
    }
}

/// Waits for the end of the recovery window, then stops allocation.
pub open spec fn recovery_steps(observed_at: u64, window_ms: u64) -> Seq<Step> {
    seq![
        Step::WaitUntil { deadline_ms: time_after(observed_at, window_ms) },
        Step::Commit(MemberDiskUpdate::DisableAllocation),
    ]
}

/// The steps that stop the IO of a disk.
pub fn set_disk_down() -> (steps: Vec<Step>)
    ensures
        steps@ == down_steps(),
{
    vec![Step::BroadcastDown, Step::Commit(MemberDiskUpdate::ApplyDown)]
}

/// The steps that give a disk its recovery window and stop allocation after
/// that.
pub fn wait_then_disable(observed_at: EpochMillis, window_ms: u64) -> (steps: Vec<Step>)
    ensures
        steps@ == recovery_steps(observed_at@, window_ms),
{
    let deadline_ms = observed_at.get().saturating_add(window_ms);
    vec![
        Step::WaitUntil { deadline_ms },
        Step::Commit(MemberDiskUpdate::DisableAllocation),
    ]
}

/// The step that stops allocation on a disk.
pub fn disable_allocation() -> (steps: Vec<Step>)
    ensures
        steps@ == seq![Step::Commit(MemberDiskUpdate::DisableAllocation)],
{
    vec![Step::Commit(MemberDiskUpdate::DisableAllocation)]
}

/// The steps that empty a disk that is down and remove it.
pub fn evacuate_down_disk() -> (steps: Vec<Step>)
    ensures
        steps@ == seq![Step::Evacuate, Step::Commit(MemberDiskUpdate::Remove)],
{
    vec![Step::Evacuate, Step::Commit(MemberDiskUpdate::Remove)]
}

/// The steps that empty a disk that is up, stop its IO and remove it.
pub fn evacuate_online_disk() -> (steps: Vec<Step>)
    ensures
        steps@ == seq![Step::Evacuate] + down_steps() + seq![
            Step::Commit(MemberDiskUpdate::Remove),
        ],
{
    let steps = vec![
        Step::Evacuate,
        Step::BroadcastDown,
        Step::Commit(MemberDiskUpdate::ApplyDown),
        Step::Commit(MemberDiskUpdate::Remove),
    ];
    assert(steps@ =~= seq![Step::Evacuate] + down_steps() + seq![
        Step::Commit(MemberDiskUpdate::Remove),
    ]);
    steps
}

/// The steps that bring a disk online. A removed disk rejoins its Pool.
pub fn open_and_serve(state: MemberDiskState) -> (steps: Vec<Step>)
    ensures
        steps@ == online_steps(state),
{
    let update = match state {
        MemberDiskState::Removed => MemberDiskUpdate::Rejoin,
        _ => MemberDiskUpdate::CompleteOnline,
    };
    vec![Step::OpenDisk, Step::PublishUp, Step::Commit(update)]
}

/// The step that records the intent to shrink.
pub fn request_shrink() -> (steps: Vec<Step>)
    ensures
        steps@ == seq![Step::Commit(MemberDiskUpdate::RequestShrink)],
{
    vec![Step::Commit(MemberDiskUpdate::RequestShrink)]
}

/// The step that moves every BG off a disk.
pub fn evacuate() -> (steps: Vec<Step>)
    ensures
        steps@ == seq![Step::Evacuate],
{
    vec![Step::Evacuate]
}

/// The step that removes a disk from its Pool.
pub fn remove() -> (steps: Vec<Step>)
    ensures
        steps@ == seq![Step::Commit(MemberDiskUpdate::Remove)],
{
    vec![Step::Commit(MemberDiskUpdate::Remove)]
}

/// The steps that are left once commits that change nothing are passed over.
pub open spec fn pending_steps(steps: Seq<Step>, disk: MemberDiskView) -> Seq<Step>
    decreases steps.len(),
{
    if steps.len() == 0 {
        steps
    } else {
        match steps[0] {
            Step::Commit(update) => if disk.check(update) == Ok::<
                bool,
                crate::member_disk::model::MemberDiskError,
            >(false) {
                pending_steps(steps.skip(1), disk)
            } else {
                steps
            },
            _ => steps,
        }
    }
}

/// The outside work that a step on a disk asks for.
pub open spec fn action_of(step: Step, disk: DiskUuid, now: u64) -> StepAction {
    match step {
        Step::BroadcastDown => StepAction::Broadcast {
            request: UserDpRequest::SetDiskState { disk, state: DiskIoState::Down },
            preemptible: false,
        },
        Step::OpenDisk => StepAction::Broadcast {
            request: UserDpRequest::OpenDisk(disk),
            preemptible: true,
        },
        Step::PublishUp => StepAction::Broadcast {
            request: UserDpRequest::SetDiskState { disk, state: DiskIoState::Up },
            preemptible: true,
        },
        Step::WaitUntil { deadline_ms } => StepAction::Sleep { millis: time_left(deadline_ms, now) },
        Step::Evacuate => StepAction::Evacuate,
        Step::Commit(update) => StepAction::CommitMetadata { update },
    }
}

/// Whether an outcome belongs to a step.
pub open spec fn outcome_fits(step: Step, outcome: StepOutcome) -> bool {
    match step {
        Step::BroadcastDown | Step::OpenDisk | Step::PublishUp => outcome is Broadcast,
        Step::WaitUntil { .. } => outcome is Slept || outcome is Interrupted,
        Step::Evacuate => outcome is Evacuated,
        Step::Commit(_) => outcome is Committed,
    }
}

/// How an operation goes on after a step came to an outcome.
pub open spec fn flow_after(step: Step, outcome: StepOutcome) -> Result<
    StepFlow,
    MemberDiskServiceError,
> {
    match outcome {
        StepOutcome::Broadcast(Err(error)) => if step == Step::BroadcastDown {
            Ok(StepFlow::RepeatAfter { millis: SET_DISK_DOWN_RETRY_DELAY_MS })
        } else {
            Err(
                match error {
                    PoolNodeError::Cancelled => MemberDiskServiceError::Cancelled,
                    _ => MemberDiskServiceError::PoolNode(error),
                },
            )
        },
        StepOutcome::Interrupted => Err(MemberDiskServiceError::Cancelled),
        StepOutcome::Evacuated(Err(error)) => Err(
            match error {
                VirtualDiskError::Cancelled => MemberDiskServiceError::Cancelled,
                _ => MemberDiskServiceError::VirtualDisk(error),
            },
        ),
        StepOutcome::Committed(Err(error)) => Err(MemberDiskServiceError::Metadata(error)),
        _ => Ok(StepFlow::Next),
    }
}

/// The service after a step on a disk came to an outcome: only a committed
/// change is published.
pub open spec fn service_after(
    service: MemberDiskServiceView,
    uuid: Seq<char>,
    step: Step,
    outcome: StepOutcome,
) -> MemberDiskServiceView {
    match (step, outcome) {
        (Step::Commit(update), StepOutcome::Committed(Ok(_))) => service.changed(uuid, update),
        _ => service,
    }
}

/// What is to be done next for an operation.
pub enum NextStep {
    /// Outside work.
    Act(StepAction),
    /// Nothing: the operation is complete.
    Complete,
    /// Nothing: the operation failed.
    Fail(MemberDiskServiceError),
}

/// The steps of an operation that are left on the disk as it is.
pub open spec fn steps_left(
    steps: Seq<Step>,
    disk: DiskUuid,
    service: MemberDiskServiceView,
) -> Seq<Step> {
    if service.disks.contains_key(disk@) {
        pending_steps(steps, service.disks[disk@])
    } else {
        steps
    }
}

/// What is to be done next for an operation.
pub open spec fn next_step(
    steps: Seq<Step>,
    disk: DiskUuid,
    service: MemberDiskServiceView,
    now: u64,
) -> NextStep {
    let rest = steps_left(steps, disk, service);
    if !service.disks.contains_key(disk@) {
        NextStep::Fail(MemberDiskServiceError::UnknownDisk(disk))
    } else if rest.len() == 0 {
        NextStep::Complete
    } else {
        match rest[0] {
            Step::Commit(update) => match service.disks[disk@].check(update) {
                Ok(_) => NextStep::Act(StepAction::CommitMetadata { update }),
                Err(error) => NextStep::Fail(MemberDiskServiceError::InvalidState(error)),
            },
            _ => NextStep::Act(action_of(rest[0], disk, now)),
        }
    }
}

/// An operation on a disk under way.
pub struct Operation {
    disk: DiskUuid,
    steps: Vec<Step>,
    at: usize,
}

impl Operation {
    /// The disk of the operation.
    pub closed spec fn disk(&self) -> DiskUuid {
        self.disk
    }

    /// The steps that are left.
    pub closed spec fn rest(&self) -> Seq<Step> {
        self.steps@.skip(self.at as int)
    }

    /// The operation stands at one of its steps or behind the last.
    pub closed spec fn wf(&self) -> bool {
        self.at <= self.steps@.len()
    }

    /// An operation that begins with the first of its steps.
    pub fn new(disk: DiskUuid, steps: Vec<Step>) -> (operation: Self)
        ensures
            operation.wf(),
            operation.disk() == disk,
            operation.rest() == steps@,
    {
        assert(steps@.skip(0) =~= steps@);
        Operation { disk, steps, at: 0 }
    }

    /// Whether the next step changes the MemberDisk metadata. Such a step is
    /// exclusive of every other change until its outcome is known.
    pub fn commits_next(&self) -> (result: bool)
        requires
            self.wf(),
        ensures
            result == (self.rest().len() > 0 && self.rest()[0] is Commit),
    {
        if self.at < self.steps.len() {
            match self.steps[self.at] {
                Step::Commit(_) => true,
                _ => false,
            }
        } else {
            false
        }
    }

    /// Tells what to do next. Commits that change nothing are passed over.
    pub fn next(&mut self, service: &MemberDiskService, now: u64) -> (next: NextStep)
        requires
            old(self).wf(),
            service.wf(),
        ensures
            final(self).wf(),
            final(self).disk() == old(self).disk(),
            final(self).rest() == steps_left(old(self).rest(), old(self).disk(), service@),
            next == next_step(old(self).rest(), old(self).disk(), service@, now),
    {
        let member = match service.get_member(&self.disk) {
            Ok(member) => member,
            Err(error) => {
                return NextStep::Fail(error);
            },
        };
        let ghost disk = service@.disks[self.disk@];
        while self.at < self.steps.len()
            invariant
                self.wf(),
                self.disk == old(self).disk,
                self.steps == old(self).steps,
                member.wf(),
                member@ == disk,
                old(self).wf(),
                service@.disks.contains_key(self.disk@),
                disk == service@.disks[self.disk@],
                pending_steps(self.rest(), disk) == pending_steps(old(self).rest(), disk),
            decreases self.steps@.len() - self.at,
        {
            let step = self.steps[self.at];
            assert(self.rest()[0] == step);
            match step {
                Step::Commit(update) => match member.validate_update(&update) {
                    Ok(changed) => {
                        if changed {
                            return NextStep::Act(StepAction::CommitMetadata { update });
                        }
                        assert(self.rest().skip(1) =~= self.steps@.skip(self.at + 1));
                        self.at = self.at + 1;
                    },
                    Err(error) => {
                        return NextStep::Fail(MemberDiskServiceError::from(error));
                    },
                },
                Step::BroadcastDown => {
                    return NextStep::Act(
                        StepAction::Broadcast {
                            request: UserDpRequest::SetDiskState {
                                disk: self.disk.clone(),
                                state: DiskIoState::Down,
                            },
                            preemptible: false,
                        },
                    );
                },
                Step::OpenDisk => {
                    return NextStep::Act(
                        StepAction::Broadcast {
                            request: UserDpRequest::OpenDisk(self.disk.clone()),
                            preemptible: true,
                        },
                    );
                },
                Step::PublishUp => {
                    return NextStep::Act(
                        StepAction::Broadcast {
                            request: UserDpRequest::SetDiskState {
                                disk: self.disk.clone(),
                                state: DiskIoState::Up,
                            },
                            preemptible: true,
                        },
                    );
                },
                Step::WaitUntil { deadline_ms } => {
                    return NextStep::Act(
                        StepAction::Sleep { millis: deadline_ms.saturating_sub(now) },
                    );
                },
                Step::Evacuate => {
                    return NextStep::Act(StepAction::Evacuate);
                },
            }
        }
        NextStep::Complete
    }

    /// Goes on with the outcome of the step that is under way.
    pub fn resume(&mut self, outcome: StepOutcome, service: &mut MemberDiskService) -> (result: Result<
        StepFlow,
        MemberDiskServiceError,
    >)
        requires
            old(self).wf(),
            old(self).rest().len() > 0,
            old(service).wf(),
            outcome_fits(old(self).rest()[0], outcome),
            old(self).rest()[0] matches Step::Commit(update) ==> old(service)@.change(
                old(self).disk(),
                update,
            ) == Ok::<bool, MemberDiskServiceError>(true),
        ensures
            final(self).wf(),
            final(self).disk() == old(self).disk(),
            final(service).wf(),
            result == flow_after(old(self).rest()[0], outcome),
            final(service).coordinator() == old(service).coordinator(),
            final(service)@ == service_after(
                old(service)@,
                old(self).disk()@,
                old(self).rest()[0],
                outcome,
            ),
            final(self).rest() == (if result == Ok::<StepFlow, MemberDiskServiceError>(
                StepFlow::Next,
            ) {
                old(self).rest().skip(1)
            } else {
                old(self).rest()
            }),
    {
        assert(self.at < self.steps.len());
        let step = self.steps[self.at];
        assert(self.rest()[0] == step);
        assert(self.rest().skip(1) =~= self.steps@.skip(self.at + 1));
        match outcome {
            StepOutcome::Broadcast(Err(error)) => {
                if step == Step::BroadcastDown {
                    Ok(StepFlow::RepeatAfter { millis: SET_DISK_DOWN_RETRY_DELAY_MS })
                } else {
                    Err(MemberDiskServiceError::from(error))
                }
            },
            StepOutcome::Interrupted => Err(MemberDiskServiceError::Cancelled),
            StepOutcome::Evacuated(Err(error)) => Err(MemberDiskServiceError::from(error)),
            StepOutcome::Committed(committed) => match step {
                Step::Commit(update) => {
                    match service.finish_change(&self.disk, update, committed) {
                        Ok(_) => {
                            self.at = self.at + 1;
                            Ok(StepFlow::Next)
                        },
                        Err(error) => Err(error),
                    }
                },
                _ => Ok(StepFlow::Next),
            },
            _ => {
                self.at = self.at + 1;
                Ok(StepFlow::Next)
            },
        }
    }
}

/// Memory follows SDB: a step changes the service only when it is a commit that
/// SDB has carried out, and then by exactly that change.
pub proof fn law_memory_follows_sdb(
    service: MemberDiskServiceView,
    uuid: Seq<char>,
    step: Step,
    outcome: StepOutcome,
)
    requires
        outcome_fits(step, outcome),
    ensures
        service_after(service, uuid, step, outcome) != service ==> (step is Commit && (outcome
            matches StepOutcome::Committed(Ok(_)))),
        outcome matches StepOutcome::Committed(Err(_)) ==> service_after(
            service,
            uuid,
            step,
            outcome,
        ) == service && flow_after(step, outcome) is Err,
{
}

/// The DOWN boundary is reliable: its broadcast is not preemptible, a failed
/// attempt is always repeated after the same delay and never given up, and DOWN
/// is committed only after a successful attempt.
pub proof fn law_down_is_not_preemptible(disk: DiskUuid, outcome: StepOutcome, now: u64)
    requires
        outcome_fits(Step::BroadcastDown, outcome),
    ensures
        down_steps()[0] == Step::BroadcastDown,
        down_steps()[1] == Step::Commit(MemberDiskUpdate::ApplyDown),
        down_steps().len() == 2,
        action_of(Step::BroadcastDown, disk, now) matches StepAction::Broadcast {
            preemptible,
            ..
        } && !preemptible,
        flow_after(Step::BroadcastDown, outcome) == Ok::<StepFlow, MemberDiskServiceError>(
            if outcome matches StepOutcome::Broadcast(Ok(_)) {
                StepFlow::Next
            } else {
                StepFlow::RepeatAfter { millis: SET_DISK_DOWN_RETRY_DELAY_MS }
            },
        ),
{
}

/// Every other outside work can be cancelled, and cancellation ends the
/// operation as cancelled.
pub proof fn law_other_steps_are_cancellable(step: Step)
    ensures
        step == Step::OpenDisk || step == Step::PublishUp ==> flow_after(
            step,
            StepOutcome::Broadcast(Err(PoolNodeError::Cancelled)),
        ) == Err::<StepFlow, _>(MemberDiskServiceError::Cancelled),
        flow_after(step, StepOutcome::Interrupted) == Err::<StepFlow, _>(
            MemberDiskServiceError::Cancelled,
        ),
        flow_after(step, StepOutcome::Evacuated(Err(VirtualDiskError::Cancelled))) == Err::<
            StepFlow,
            _,
        >(MemberDiskServiceError::Cancelled),
{
}

/// The wait for the recovery window ends at the same time however often it is
/// begun: what is left shrinks as time goes by.
pub proof fn law_recovery_deadline_is_fixed(observed_at: u64, window_ms: u64, now: u64, later: u64)
    requires
        now <= later,
    ensures
        ({
            let deadline = time_after(observed_at, window_ms);
            &&& time_left(deadline, later) <= time_left(deadline, now)
            &&& now >= deadline ==> time_left(deadline, now) == 0
            &&& now < deadline ==> now + time_left(deadline, now) == deadline
        }),
{
}

/// Each step asks for its own work on the disk of the operation and on no other:
/// IO is stopped by a broadcast that nothing preempts, a disk is opened and
/// published by broadcasts that a cancellation preempts, a wait sleeps to its
/// deadline, and a commit hands on its change.
pub proof fn law_steps_ask_for_their_own_work(
    disk: DiskUuid,
    deadline_ms: u64,
    update: MemberDiskUpdate,
    now: u64,
)
    ensures
        action_of(Step::BroadcastDown, disk, now) == (StepAction::Broadcast {
            request: UserDpRequest::SetDiskState { disk, state: DiskIoState::Down },
            preemptible: false,
        }),
        action_of(Step::OpenDisk, disk, now) == (StepAction::Broadcast {
            request: UserDpRequest::OpenDisk(disk),
            preemptible: true,
        }),
        action_of(Step::PublishUp, disk, now) == (StepAction::Broadcast {
            request: UserDpRequest::SetDiskState { disk, state: DiskIoState::Up },
            preemptible: true,
        }),
        action_of(Step::WaitUntil { deadline_ms }, disk, now) matches StepAction::Sleep {
            millis,
        } && (now + millis == deadline_ms || (millis == 0 && now >= deadline_ms)),
        action_of(Step::Evacuate, disk, now) is Evacuate,
        action_of(Step::Commit(update), disk, now) == (StepAction::CommitMetadata { update }),
{
}

/// Whether a step is a commit that leaves the disk as it is.
pub open spec fn changes_nothing(step: Step, disk: MemberDiskView) -> bool {
    step matches Step::Commit(update) && disk.check(update) == Ok::<
        bool,
        crate::member_disk::model::MemberDiskError,
    >(false)
}

/// Only commits that change nothing are passed over, and only up to the first
/// other step: what is left is the end of the steps that begins with it.
pub proof fn law_only_idle_commits_are_passed_over(steps: Seq<Step>, disk: MemberDiskView)
    ensures
        ({
            let left = pending_steps(steps, disk);
            let passed = steps.len() - left.len();
            &&& 0 <= passed <= steps.len()
            &&& left == steps.skip(passed)
            &&& forall|at: int|
                0 <= at < passed ==> changes_nothing(#[trigger] steps[at], disk)
            &&& left.len() > 0 ==> !changes_nothing(left[0], disk)
        }),
    decreases steps.len(),
{
    if steps.len() > 0 && changes_nothing(steps[0], disk) {
        law_only_idle_commits_are_passed_over(steps.skip(1), disk);
        let left = pending_steps(steps, disk);
        let passed = steps.len() - left.len();
        assert(left =~= steps.skip(passed));
        assert forall|at: int| 0 <= at < passed implies changes_nothing(
            #[trigger] steps[at],
            disk,
        ) by {
            if at > 0 {
                assert(steps.skip(1)[at - 1] == steps[at]);
            }
        }
    } else {
        assert(steps.skip(0) =~= steps);
    }
}

/// An operation on an unknown disk fails as such. On a known disk it goes on
/// with the first step that is not a commit without effect: it fails where that
/// is a commit which the disk refuses, with the reason of the refusal, it asks
/// for the work of the step otherwise, and it is complete where there is none.
pub proof fn law_operation_goes_on_with_the_first_step_that_counts(
    steps: Seq<Step>,
    disk: DiskUuid,
    service: MemberDiskServiceView,
    now: u64,
    at: int,
)
    ensures
        !service.disks.contains_key(disk@) ==> next_step(steps, disk, service, now)
            == NextStep::Fail(MemberDiskServiceError::UnknownDisk(disk)) && steps_left(
            steps,
            disk,
            service,
        ) == steps,
        service.disks.contains_key(disk@) && (forall|i: int|
            0 <= i < steps.len() ==> changes_nothing(#[trigger] steps[i], service.disks[disk@]))
            ==> next_step(steps, disk, service, now) is Complete,
        service.disks.contains_key(disk@) && 0 <= at < steps.len() && !changes_nothing(
            steps[at],
            service.disks[disk@],
        ) && (forall|i: int|
            0 <= i < at ==> changes_nothing(#[trigger] steps[i], service.disks[disk@])) ==> {
            &&& steps_left(steps, disk, service) == steps.skip(at)
            &&& match steps[at] {
                Step::Commit(update) => match service.disks[disk@].check(update) {
                    Ok(_) => next_step(steps, disk, service, now) == NextStep::Act(
                        StepAction::CommitMetadata { update },
                    ),
                    Err(error) => next_step(steps, disk, service, now) == NextStep::Fail(
                        MemberDiskServiceError::InvalidState(error),
                    ),
                },
                _ => next_step(steps, disk, service, now) == NextStep::Act(
                    action_of(steps[at], disk, now),
                ),
            }
        },
{
    if service.disks.contains_key(disk@) {
        law_only_idle_commits_are_passed_over(steps, service.disks[disk@]);
        let left = pending_steps(steps, service.disks[disk@]);
        let passed = steps.len() - left.len();
        if left.len() > 0 {
            assert(left[0] == steps[passed]);
        }
        if 0 <= at < steps.len() && !changes_nothing(steps[at], service.disks[disk@]) && forall|
            i: int,
        |
            0 <= i < at ==> changes_nothing(#[trigger] steps[i], service.disks[disk@]) {
            assert(passed <= at);
            assert(at <= passed);
        }
    }
}

/// Work that succeeded moves an operation on. Work that failed ends it with the
/// error of the neighbour, or as cancelled where the neighbour was cancelled;
/// only the broadcast that stops IO is made again instead, after a tenth of a
/// second, whatever its error.
pub proof fn law_failed_work_ends_an_operation(
    step: Step,
    node: PoolNodeError,
    virtual_disk: VirtualDiskError,
    metadata: MetadataError,
)
    ensures
        flow_after(step, StepOutcome::Broadcast(Ok(()))) == Ok::<StepFlow, MemberDiskServiceError>(
            StepFlow::Next,
        ),
        flow_after(step, StepOutcome::Slept) == Ok::<StepFlow, MemberDiskServiceError>(
            StepFlow::Next,
        ),
        flow_after(step, StepOutcome::Evacuated(Ok(()))) == Ok::<StepFlow, MemberDiskServiceError>(
            StepFlow::Next,
        ),
        flow_after(step, StepOutcome::Committed(Ok(()))) == Ok::<StepFlow, MemberDiskServiceError>(
            StepFlow::Next,
        ),
        step is BroadcastDown ==> flow_after(step, StepOutcome::Broadcast(Err(node))) == Ok::<
            StepFlow,
            MemberDiskServiceError,
        >(StepFlow::RepeatAfter { millis: 100 }),
        !(step is BroadcastDown) ==> {
            &&& node is Cancelled ==> flow_after(step, StepOutcome::Broadcast(Err(node))) == Err::<
                StepFlow,
                _,
            >(MemberDiskServiceError::Cancelled)
            &&& node is Failed ==> flow_after(step, StepOutcome::Broadcast(Err(node))) == Err::<
                StepFlow,
                _,
            >(MemberDiskServiceError::PoolNode(node))
        },
        flow_after(step, StepOutcome::Interrupted) == Err::<StepFlow, _>(
            MemberDiskServiceError::Cancelled,
        ),
        virtual_disk is Cancelled ==> flow_after(step, StepOutcome::Evacuated(Err(virtual_disk)))
            == Err::<StepFlow, _>(MemberDiskServiceError::Cancelled),
        !(virtual_disk is Cancelled) ==> flow_after(
            step,
            StepOutcome::Evacuated(Err(virtual_disk)),
        ) == Err::<StepFlow, _>(MemberDiskServiceError::VirtualDisk(virtual_disk)),
        flow_after(step, StepOutcome::Committed(Err(metadata))) == Err::<StepFlow, _>(
            MemberDiskServiceError::Metadata(metadata),
        ),
{
}

/// A change that SDB carried out is in memory after the step, on the disk of the
/// operation and on no other. Every other outcome leaves memory alone.
pub proof fn law_committed_change_is_published(
    service: MemberDiskServiceView,
    uuid: Seq<char>,
    step: Step,
    outcome: StepOutcome,
    other: Seq<char>,
)
    requires
        outcome_fits(step, outcome),
    ensures
        ({
            let after = service_after(service, uuid, step, outcome);
            &&& after.recovery_window_ms == service.recovery_window_ms
            &&& after.tasks == service.tasks
            &&& other != uuid && service.disks.contains_key(other) ==> after.disks.contains_key(
                other,
            ) && after.disks[other] == service.disks[other]
            &&& match outcome {
                StepOutcome::Committed(Ok(_)) => {
                    &&& step matches Step::Commit(update)
                    &&& after.disks == service.disks.insert(
                        uuid,
                        service.disks[uuid].updated(update),
                    )
                },
                _ => after == service,
            }
        }),
{
}

/// Every step takes the outcomes of its own work and no others.
pub proof fn law_outcomes_belong_to_their_step(
    step: Step,
    outcome: StepOutcome,
    disk: DiskUuid,
    now: u64,
)
    ensures
        outcome_fits(step, outcome) ==> match outcome {
            StepOutcome::Broadcast(_) => step is BroadcastDown || step is OpenDisk
                || step is PublishUp,
            StepOutcome::Slept | StepOutcome::Interrupted => step is WaitUntil,
            StepOutcome::Evacuated(_) => step is Evacuate,
            StepOutcome::Committed(_) => step is Commit,
        },
        action_of(step, disk, now) is Broadcast <==> outcome_fits(
            step,
            StepOutcome::Broadcast(Ok(())),
        ),
        action_of(step, disk, now) is Sleep <==> outcome_fits(step, StepOutcome::Slept),
        action_of(step, disk, now) is Sleep <==> outcome_fits(step, StepOutcome::Interrupted),
        action_of(step, disk, now) is Evacuate <==> outcome_fits(
            step,
            StepOutcome::Evacuated(Ok(())),
        ),
        action_of(step, disk, now) is CommitMetadata <==> outcome_fits(
            step,
            StepOutcome::Committed(Ok(())),
        ),
{
}

/// The deadline of a recovery window is the observation plus the window, held
/// at the greatest time there is. It comes no earlier for a later observation or
/// a longer window.
pub proof fn law_deadline_is_observation_plus_window(
    observed_at: u64,
    window_ms: u64,
    later: u64,
    longer_ms: u64,
)
    requires
        observed_at <= later,
        window_ms <= longer_ms,
    ensures
        time_after(observed_at, window_ms) <= time_after(later, longer_ms),
        observed_at + window_ms <= u64::MAX ==> time_after(observed_at, window_ms) == observed_at
            + window_ms,
        observed_at + window_ms >= u64::MAX ==> time_after(observed_at, window_ms) == u64::MAX,
{
}

/// BGs leave a disk before the disk is removed, and a disk that is up goes down in
/// between: its IO is stopped on the Pool nodes, and only then it is committed to
/// be down.
pub proof fn law_disk_is_emptied_before_it_is_removed(
    down: Vec<Step>,
    online: Vec<Step>,
    moved: Vec<Step>,
    removed: Vec<Step>,
    stopped: Vec<Step>,
)
    requires
        call_ensures(evacuate_down_disk, (), down),
        call_ensures(evacuate_online_disk, (), online),
        call_ensures(evacuate, (), moved),
        call_ensures(remove, (), removed),
        call_ensures(set_disk_down, (), stopped),
    ensures
        down@ == moved@ + removed@,
        online@ == moved@ + stopped@ + removed@,
        moved@.len() == 1 && moved@[0] == Step::Evacuate,
        removed@.len() == 1 && removed@[0] == Step::Commit(MemberDiskUpdate::Remove),
        stopped@.len() == 2 && stopped@[0] == Step::BroadcastDown && stopped@[1] == Step::Commit(
            MemberDiskUpdate::ApplyDown,
        ),
{
    assert(down@ =~= moved@ + removed@);
    assert(online@ =~= moved@ + stopped@ + removed@);
}

/// An online disk was opened, then published, then committed: a removed disk
/// rejoins, and every other is completed. A disk that went down keeps its
/// allocation until its window is over.
pub proof fn law_disk_is_committed_last(
    state: MemberDiskState,
    online: Vec<Step>,
    observed_at: EpochMillis,
    window_ms: u64,
    waited: Vec<Step>,
)
    requires
        call_ensures(open_and_serve, (state,), online),
        call_ensures(wait_then_disable, (observed_at, window_ms), waited),
    ensures
        online@.len() == 3,
        online@[0] == Step::OpenDisk,
        online@[1] == Step::PublishUp,
        state is Removed ==> online@[2] == Step::Commit(MemberDiskUpdate::Rejoin),
        !(state is Removed) ==> online@[2] == Step::Commit(MemberDiskUpdate::CompleteOnline),
        waited@.len() == 2,
        waited@[0] matches Step::WaitUntil { deadline_ms } && deadline_ms <= observed_at@ + window_ms
            && (deadline_ms < u64::MAX ==> deadline_ms == observed_at@ + window_ms),
        waited@[1] == Step::Commit(MemberDiskUpdate::DisableAllocation),
{
}

/// An operation stands before a change of the metadata exactly when its next step
/// is a commit. It begins with all its steps, moves on by one when a step is done,
/// and stays where it is otherwise.
pub proof fn law_operation_moves_step_by_step(
    disk: DiskUuid,
    steps: Vec<Step>,
    fresh: Operation,
    standing: Operation,
    commits: bool,
    operation: &mut Operation,
    outcome: StepOutcome,
    service: &mut MemberDiskService,
    result: Result<StepFlow, MemberDiskServiceError>,
)
    requires
        call_ensures(Operation::new, (disk, steps), fresh),
        call_ensures(Operation::commits_next, (&standing,), commits),
        call_ensures(Operation::resume, (operation, outcome, service), result),
    ensures
        fresh.disk() == disk,
        fresh.rest() == steps@,
        commits <==> standing.rest().len() > 0 && standing.rest()[0] is Commit,
        final(operation).disk() == old(operation).disk(),
        (result matches Ok(StepFlow::Next)) ==> final(operation).rest() == old(operation).rest().skip(1),
        !(result matches Ok(StepFlow::Next)) ==> final(operation).rest() == old(operation).rest(),
        result == flow_after(old(operation).rest()[0], outcome),
{
}

} // verus!
