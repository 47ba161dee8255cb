//! The workflows of the MemberDisk service: admission of events, convergence of
//! an object and observed allocation.
use super::directory::{MemberDiskService, MemberDiskServiceView};
use super::error::MemberDiskServiceError;
use super::reconcile::{
    phase_of, transition, ReconcileResult, ReconcileState, Reconciliation, ReconciliationView,
};
use crate::member_disk::allocation::{AllocateBlks, AllocateBlksView, Allocation};
use crate::member_disk::event::{EventKind, MemberDiskEvent, PhysicalState};
use crate::member_disk::model::DiskUuid;
use crate::runtime::hub::{HubView, ObservationHub};
use crate::runtime::ids::{number_after, IdCounter};
use crate::runtime::object_task::{
    offers_fit, shows, ConflictDecision, CoordinatorView, ObjectActivity, ObjectActivityView,
    ObjectAdmission, ObjectLease, ObjectLeaseView, Offer, PendingView, SlotView,
};
use crate::runtime::observation::RuntimeEventKindView;
use crate::runtime::service::RequestContext;
use crate::runtime::task::{
    TaskAttempt, TaskAttemptView, TaskMeta, TaskMetaView, TaskOutcome, TaskOutcomeView,
};
use crate::outside::{answered, channel_made, descends_from};
use crate::text::{decimal, decimal_text};
use tokio_util::sync::CancellationToken;
use vstd::prelude::*;
use vstd::string::StringExecFns;

verus! {

/// The name of what an event asks for.
pub open spec fn kind_text(kind: EventKind) -> Seq<char> {
    match kind {
        EventKind::Offline => "offline"@,
        EventKind::Online => "online"@,
        EventKind::Shrink => "shrink"@,
    }
}

/// The name of what an event asks for.
pub fn event_kind(event: &MemberDiskEvent) -> (name: &'static str)
    ensures
        name@ == kind_text(event.asks()),
{
    match event.kind() {
        EventKind::Offline => "offline",
        EventKind::Online => "online",
        EventKind::Shrink => "shrink",
    }
}

/// Why an active event is cancelled for a newer one.
pub open spec fn replacement_text(active: EventKind, incoming: EventKind) -> Seq<char> {
    kind_text(active) + " replaced by a newer "@ + kind_text(incoming) + " event"@
}

/// Whether `decision` is what becomes of an event on an occupied disk: it joins
/// when the latest event asks for the same, and replaces the active one
/// otherwise.
pub open spec fn resolves(
    activity: ObjectActivityView<MemberDiskEvent>,
    incoming: MemberDiskEvent,
    decision: ConflictDecision,
) -> bool {
    if activity.latest().asks() == incoming.asks() {
        decision is Join
    } else {
        decision matches ConflictDecision::QueueAndCancel { cause } && cause@ == replacement_text(
            activity.active.asks(),
            incoming.asks(),
        )
    }
}

/// Judges an event on an occupied disk.
pub fn resolve_conflict(
    activity: ObjectActivity<'_, MemberDiskEvent>,
    incoming: &MemberDiskEvent,
) -> (decision: ConflictDecision)
    ensures
        resolves(activity@, *incoming, decision),
{
    if activity.latest().same_kind(incoming) {
        return ConflictDecision::Join;
    }
    let mut cause = event_kind(activity.active()).to_owned();
    cause.append(" replaced by a newer ");
    cause.append(event_kind(incoming));
    cause.append(" event");
    ConflictDecision::QueueAndCancel { cause }
}

/// The event that came last on an occupied disk.
pub open spec fn latest_event(slot: SlotView<MemberDiskEvent>) -> MemberDiskEvent {
    if slot.pending.len() == 0 {
        slot.active
    } else {
        slot.pending.last().input
    }
}

/// A text with the identity of a disk behind it.
pub open spec fn disk_scope(disk: Seq<char>) -> Seq<char> {
    "disk/"@ + disk
}

/// Writes the scope of a disk.
pub fn write_disk_scope(disk: &DiskUuid) -> (text: String)
    ensures
        text@ == disk_scope(disk@),
{
    let mut text = "disk/".to_owned();
    text.append(disk.as_str());
    text
}

impl MemberDiskService {
    /// Takes an event in. An event on an unknown disk is refused; one on a free
    /// disk becomes active; one on an occupied disk joins what asks for the
    /// same, or waits behind the active event and asks it to cancel.
    pub fn handle_event(
        &mut self,
        event: MemberDiskEvent,
        cancellation: &CancellationToken,
        hub: &mut ObservationHub,
        now: u64,
    ) -> (result: Result<ObjectAdmission<DiskUuid, MemberDiskEvent>, MemberDiskServiceError>)
        requires
            old(self).wf(),
            old(self)@.tasks.has_room(event.subject()@),
            old(hub).wf(),
            old(hub)@.has_room(1),
        ensures
            final(self).wf(),
            final(hub).wf(),
            result is Ok <==> old(self)@.disks.contains_key(event.subject()@),
            result is Ok ==> ask_alike(
                events_on(final(self)@.tasks.slots[event.subject()@]).last(),
                event,
            ),
            result is Ok && old(self)@.tasks.slots.contains_key(event.subject()@) ==> ((result
                matches Ok(ObjectAdmission::Joined)) <==> ask_alike(
                events_on(old(self)@.tasks.slots[event.subject()@]).last(),
                event,
            )),
            ({
                let uuid = event.subject()@;
                let tasks = old(self)@.tasks;
                let slot = tasks.slots[uuid];
                let ready = old(self).coordinator().ready();
                let ready_after = final(self).coordinator().ready();
                if !old(self)@.disks.contains_key(uuid) {
                    &&& result matches Err(error)
                    &&& error == MemberDiskServiceError::UnknownDisk(event.subject())
                    &&& *final(self) == *old(self)
                    &&& final(hub)@ == old(hub)@
                } else if !tasks.slots.contains_key(uuid) {
                    &&& result matches Ok(ObjectAdmission::Active(lease))
                    &&& lease@ == ObjectLeaseView {
                        key: uuid,
                        generation: tasks.next_generation,
                        input: event,
                        cancellation: lease@.cancellation,
                    }
                    &&& descends_from(lease@.cancellation, *cancellation)
                    &&& final(self)@ == (MemberDiskServiceView {
                        tasks: tasks.activated(uuid, event, lease@.cancellation),
                        ..old(self)@
                    })
                    &&& ready_after == ready.insert(uuid, Seq::empty())
                    &&& final(hub)@ == old(hub)@
                } else if latest_event(slot).asks() == event.asks() {
                    &&& result matches Ok(ObjectAdmission::Joined)
                    &&& final(self)@ == old(self)@
                    &&& ready_after == ready
                    &&& final(hub)@ == old(hub)@
                } else {
                    &&& result matches Ok(ObjectAdmission::Pending(pending))
                    &&& channel_made(ready_after[uuid].last(), pending.receiver)
                    &&& ready_after == ready.insert(
                        uuid,
                        ready[uuid].push(ready_after[uuid].last()),
                    )
                    &&& tasks.active_cancelled(uuid, old(hub)@)
                    &&& final(self)@ == (MemberDiskServiceView {
                        tasks: tasks.decided(uuid, event, *cancellation, ConflictDecision::Queue),
                        ..old(self)@
                    })
                    &&& final(hub)@ == match slot.task {
                        Some(task) => old(hub)@.cancel_requested(
                            task,
                            replacement_text(slot.active.asks(), event.asks()),
                            now,
                        ),
                        None => old(hub)@,
                    }
                }
            }),
    {
        let ghost before = self@;
        let ghost first = *self;
        let ghost subject = event.subject();
        let ghost hub_before = hub@;
        if let Err(error) = self.get_member(event.disk()) {
            return Err(error);
        }
        let disk = event.disk().clone();
        let tasks = self.object_tasks();
        let admission = tasks.admit_intent(disk, event, cancellation, resolve_conflict, hub, now);
        proof {
            let slot = before.tasks.slots[subject@];
            if before.tasks.slots.contains_key(subject@) {
                let (activity, decision) = choose|
                    activity: ObjectActivity<'_, MemberDiskEvent>,
                    decision: ConflictDecision,
                |
                    {
                        &&& shows(activity, slot)
                        &&& #[trigger] resolve_conflict.ensures((activity, &event), decision)
                        &&& tasks@ == before.tasks.decided(
                            subject@,
                            event,
                            *cancellation,
                            decision,
                        )
                        &&& hub@ == before.tasks.hub_decided(subject@, decision, hub_before, now)
                        &&& first.coordinator().carried_out(
                            tasks.ready(),
                            subject@,
                            decision,
                            hub_before,
                            admission,
                        )
                    };
                assert(resolves(activity@, event, decision));
                if slot.pending.len() > 0 {
                    assert(activity@.pending.last() == slot.pending.last().input);
                }
                assert(activity@.latest() == latest_event(slot));
                lemma_last_event(slot);
                law_kind_is_what_an_event_asks_for(latest_event(slot), event);
                law_admitted_event_is_the_last_word(
                    before.tasks,
                    subject@,
                    activity,
                    event,
                    *cancellation,
                    decision,
                );
            } else {
                law_kind_is_what_an_event_asks_for(event, event);
            }
        }
        Ok(admission)
    }
}

/// What a workflow of a disk holds.
pub struct ObjectWorkflowView {
    pub lease: ObjectLeaseView<Seq<char>, MemberDiskEvent>,
    pub task: TaskAttemptView,
}

/// The workflow that carries an event on a disk to its goal.
pub struct ObjectWorkflow {
    lease: ObjectLease<DiskUuid, MemberDiskEvent>,
    task: TaskAttempt,
}

impl View for ObjectWorkflow {
    type V = ObjectWorkflowView;

    closed spec fn view(&self) -> ObjectWorkflowView {
        ObjectWorkflowView { lease: self.lease@, task: self.task@ }
    }
}

/// How a round of a workflow ended.
pub enum RoundEnd {
    /// The disk made a transition; another round follows.
    Again,
    /// The workflow is over.
    Over(Result<(), MemberDiskServiceError>),
    /// The workflow broke off: neither its task nor its lease has a result.
    BrokenOff(MemberDiskServiceError),
}

/// How the task of the workflow of an event is described.
pub open spec fn workflow_meta(event: MemberDiskEvent) -> TaskMetaView {
    TaskMetaView {
        key: disk_scope(event.subject()@),
        kind: kind_text(event.asks()),
        summary: "reconcile member disk "@ + event.subject()@,
        cancellable: true,
    }
}

/// How a result is reported as the outcome of a task.
pub open spec fn outcome_of(result: Result<(), MemberDiskServiceError>) -> TaskOutcomeView {
    match result {
        Ok(_) => TaskOutcomeView::Completed,
        Err(MemberDiskServiceError::Cancelled) => TaskOutcomeView::Cancelled,
        Err(error) => TaskOutcomeView::Failed(error.message()),
    }
}

impl HubView {
    /// The hub after a transition of a disk was reported.
    pub open spec fn disk_transitioned(
        self,
        task: TaskAttemptView,
        event: MemberDiskEvent,
        from: ReconcileState,
        action: Seq<char>,
        to: ReconcileState,
        now: u64,
    ) -> HubView {
        self.task_waits(task.id, None, now).recorded(
            RuntimeEventKindView::StateTransition {
                task: task.id,
                operation: task.operation,
                object: disk_scope(event.subject()@),
                event: kind_text(event.asks()),
                from: from.text(),
                action,
                to: to.text(),
            },
            now,
        ).task_reached(task.id, "member disk reached "@ + to.text(), now)
    }
}

impl ObjectWorkflow {
    /// Starts the workflow of an event: a task observes it, and a conflicting
    /// event cancels that task.
    pub fn start(
        lease: ObjectLease<DiskUuid, MemberDiskEvent>,
        context: &RequestContext,
        service: &mut MemberDiskService,
        hub: &mut ObservationHub,
        counter: &mut IdCounter,
        now: u64,
    ) -> (workflow: Self)
        requires
            old(service).wf(),
            old(hub).wf(),
            old(hub)@.has_room(1),
        ensures
            final(service).wf(),
            final(hub).wf(),
            workflow@.lease == lease@,
            workflow@.task.id@ == old(counter)@,
            final(counter)@ == number_after(old(counter)@),
            workflow@.task.operation == context@.operation.id,
            workflow@.task.cancellation == lease@.cancellation,
            final(service)@ == (MemberDiskServiceView {
                tasks: old(service)@.tasks.bound(
                    lease@.key,
                    lease@.generation,
                    workflow@.task.id,
                ),
                ..old(service)@
            }),
            final(service).coordinator().ready() == old(service).coordinator().ready(),
            ({
                let meta = workflow_meta(lease@.input);
                ||| answered(lease@.cancellation, false) && final(hub)@ == old(hub)@.task_started(
                    meta.started(context@.operation, workflow@.task.id, false, now),
                    lease@.cancellation,
                    now,
                )
                ||| answered(lease@.cancellation, true) && final(hub)@ == old(hub)@.task_started(
                    meta.started(context@.operation, workflow@.task.id, true, now),
                    lease@.cancellation,
                    now,
                )
            }),
    {
        let disk = lease.input().disk();
        let key = write_disk_scope(disk);
        let mut summary = "reconcile member disk ".to_owned();
        summary.append(disk.as_str());
        let meta = TaskMeta::new(key.as_str(), event_kind(lease.input()), summary.as_str());
        let task = context.start_task(hub, counter, meta, lease.cancellation().clone(), now);
        lease.bind_task(service.object_tasks(), task.control());
        ObjectWorkflow { lease, task }
    }

    /// The token that cancels the workflow.
    pub fn cancellation(&self) -> (token: &CancellationToken)
        ensures
            *token == self@.task.cancellation,
    {
        self.task.cancellation()
    }

    /// The event of the workflow.
    pub fn event(&self) -> (event: &MemberDiskEvent)
        ensures
            *event == self@.lease.input,
    {
        self.lease.input()
    }

    /// Begins a round: the task waits for the next transition.
    pub fn begin_round(
        &self,
        service: &MemberDiskService,
        hub: &mut ObservationHub,
        now: u64,
    ) -> (result: Result<Reconciliation, MemberDiskServiceError>)
        requires
            service.wf(),
            old(hub).wf(),
            old(hub)@.has_room(1),
        ensures
            final(hub).wf(),
            match result {
                Ok(round) => {
                    let event = self@.lease.input;
                    &&& round.wf()
                    &&& service@.state_of(event.subject()) == Ok::<
                        ReconcileState,
                        MemberDiskServiceError,
                    >(round@.start)
                    &&& round@ == ReconciliationView {
                        disk: event.subject(),
                        event,
                        start: round@.start,
                        phase: phase_of(
                            transition(round@.start, event, service@.recovery_window_ms),
                        ),
                    }
                    &&& final(hub)@ == old(hub)@.task_waits(
                        self@.task.id,
                        Some("next MemberDisk state transition"@),
                        now,
                    )
                },
                Err(error) => {
                    &&& service@.state_of(self@.lease.input.subject()) == Err::<ReconcileState, _>(
                        error,
                    )
                    &&& final(hub)@ == old(hub)@
                },
            },
    {
        match Reconciliation::reconcile_once(self.lease.input(), service) {
            Ok(round) => {
                self.task.blocked_on(hub, "next MemberDisk state transition", now);
                Ok(round)
            },
            Err(error) => Err(error),
        }
    }

    /// Ends a round that began in state `before`: a transition is reported, and
    /// everything else ends the workflow.
    pub fn end_round(
        &self,
        before: ReconcileState,
        result: Result<ReconcileResult, MemberDiskServiceError>,
        service: &MemberDiskService,
        hub: &mut ObservationHub,
        now: u64,
    ) -> (end: RoundEnd)
        requires
            service.wf(),
            old(hub).wf(),
            old(hub)@.has_room(3),
        ensures
            final(hub).wf(),
            match result {
                Ok(ReconcileResult::Transitioned { action }) => match service@.state_of(
                    self@.lease.input.subject(),
                ) {
                    Ok(after) => {
                        &&& end is Again
                        &&& final(hub)@ == old(hub)@.disk_transitioned(
                            self@.task,
                            self@.lease.input,
                            before,
                            action@,
                            after,
                            now,
                        )
                    },
                    Err(error) => {
                        &&& end == RoundEnd::BrokenOff(error)
                        &&& final(hub)@ == old(hub)@.task_waits(self@.task.id, None, now)
                    },
                },
                Ok(ReconcileResult::Stable) => {
                    &&& end == RoundEnd::Over(Ok(()))
                    &&& final(hub)@ == old(hub)@.task_waits(self@.task.id, None, now)
                },
                Err(error) => {
                    &&& end == RoundEnd::Over(Err(error))
                    &&& final(hub)@ == old(hub)@.task_waits(self@.task.id, None, now)
                },
            },
    {
        self.task.unblocked(hub, now);
        match result {
            Ok(ReconcileResult::Transitioned { action }) => {
                let event = self.lease.input();
                let after = match service.reconcile_state(event.disk()) {
                    Ok(after) => after,
                    Err(error) => {
                        return RoundEnd::BrokenOff(error);
                    },
                };
                let object = write_disk_scope(event.disk());
                let from = before.to_string();
                let to = after.to_string();
                self.task.transition(
                    hub,
                    object.as_str(),
                    event_kind(event),
                    from.as_str(),
                    action,
                    to.as_str(),
                    now,
                );
                let mut message = "member disk reached ".to_owned();
                message.append(to.as_str());
                self.task.milestone(hub, message.as_str(), now);
                RoundEnd::Again
            },
            Ok(ReconcileResult::Stable) => RoundEnd::Over(Ok(())),
            Err(error) => RoundEnd::Over(Err(error)),
        }
    }

    /// Ends the workflow: the task gets its outcome, and the disk is given back
    /// with the result.
    pub fn finish(
        self,
        result: Result<(), MemberDiskServiceError>,
        service: &mut MemberDiskService,
        hub: &mut ObservationHub,
        now: u64,
    ) -> (offers: Vec<Offer>)
        requires
            old(service).wf(),
            old(service)@.tasks.has_room(self@.lease.key),
            old(hub).wf(),
            old(hub)@.has_room(1),
        ensures
            final(service).wf(),
            final(hub).wf(),
            final(hub)@ == old(hub)@.task_ended(self@.task.id@, outcome_of(result), now),
            final(service)@ == (MemberDiskServiceView {
                tasks: old(service)@.tasks.released(
                    self@.lease.key,
                    self@.lease.generation,
                    result,
                    offers@,
                ),
                ..old(service)@
            }),
            old(service).coordinator().release_told(
                final(service).coordinator().ready(),
                self@.lease.key,
                self@.lease.generation,
                result,
                offers@,
            ),
            old(service)@.tasks.holds(self@.lease.key, self@.lease.generation) ==> offers_fit(
                old(service)@.tasks.slots[self@.lease.key].pending,
                old(service)@.tasks.next_generation,
                offers@,
            ),
    {
        let outcome = match &result {
            Ok(_) => TaskOutcome::Completed,
            Err(error) => match error {
                MemberDiskServiceError::Cancelled => TaskOutcome::Cancelled,
                error => TaskOutcome::Failed(error.to_string()),
            },
        };
        self.task.finish(hub, outcome, now);
        self.lease.finish(service.object_tasks(), result)
    }

    /// Gives the workflow up without a result: its task counts as aborted and
    /// its event as cancelled.
    pub fn abandon(
        self,
        service: &mut MemberDiskService,
        hub: &mut ObservationHub,
        now: u64,
    ) -> (offers: Vec<Offer>)
        requires
            old(service).wf(),
            old(service)@.tasks.has_room(self@.lease.key),
            old(hub).wf(),
            old(hub)@.has_room(1),
        ensures
            final(service).wf(),
            final(hub).wf(),
            final(hub)@ == old(hub)@.task_ended(self@.task.id@, TaskOutcomeView::Aborted, now),
            final(service)@ == (MemberDiskServiceView {
                tasks: old(service)@.tasks.released(
                    self@.lease.key,
                    self@.lease.generation,
                    Err(old(service)@.tasks.dropped_error),
                    offers@,
                ),
                ..old(service)@
            }),
            old(service).coordinator().release_told(
                final(service).coordinator().ready(),
                self@.lease.key,
                self@.lease.generation,
                Err(old(service)@.tasks.dropped_error),
                offers@,
            ),
            old(service)@.tasks.holds(self@.lease.key, self@.lease.generation) ==> offers_fit(
                old(service)@.tasks.slots[self@.lease.key].pending,
                old(service)@.tasks.next_generation,
                offers@,
            ),
    {
        self.task.abandon(hub, now);
        self.lease.abandon(service.object_tasks())
    }
}

/// How the task of an allocation is described.
pub open spec fn allocation_meta(request: AllocateBlksView) -> TaskMetaView {
    TaskMetaView {
        key: "tier/"@ + request.tier,
        kind: "allocate_blks"@,
        summary: "allocate "@ + decimal_text(request.count as nat) + " BLKs"@,
        cancellable: false,
    }
}

/// Writes the scope of a Tier.
pub fn write_tier_scope(tier: &str) -> (text: String)
    ensures
        text@ == "tier/"@ + tier@,
{
    let mut text = "tier/".to_owned();
    text.append(tier);
    text
}

/// Starts the task of an allocation. It cannot be cancelled and waits for SDB.
pub fn begin_allocation(
    request: &AllocateBlks,
    context: &RequestContext,
    hub: &mut ObservationHub,
    counter: &mut IdCounter,
    now: u64,
) -> (task: TaskAttempt)
    requires
        old(hub).wf(),
        old(hub)@.has_room(2),
    ensures
        final(hub).wf(),
        task@.id@ == old(counter)@,
        final(counter)@ == number_after(old(counter)@),
        task@.operation == context@.operation.id,
        task@.cancellation == context@.cancellation,
        ({
            let meta = allocation_meta(request@);
            let waits = Some("SDB MemberDisk allocation commit"@);
            ||| answered(context@.cancellation, false) && final(hub)@ == old(hub)@.task_started(
                meta.started(context@.operation, task@.id, false, now),
                context@.cancellation,
                now,
            ).task_waits(task@.id, waits, now)
            ||| answered(context@.cancellation, true) && final(hub)@ == old(hub)@.task_started(
                meta.started(context@.operation, task@.id, true, now),
                context@.cancellation,
                now,
            ).task_waits(task@.id, waits, now)
        }),
{
    let key = write_tier_scope(request.tier());
    let mut summary = "allocate ".to_owned();
    summary.append(decimal(request.count() as u64).as_str());
    summary.append(" BLKs");
    let meta = TaskMeta::new(key.as_str(), "allocate_blks", summary.as_str()).non_cancellable();
    let task = context.start_task(hub, counter, meta, context.cancellation().clone(), now);
    task.blocked_on(hub, "SDB MemberDisk allocation commit", now);
    task
}

/// Ends the task of an allocation. A successful one is complete.
pub fn end_allocation(
    task: TaskAttempt,
    result: &Result<Allocation, MemberDiskServiceError>,
    hub: &mut ObservationHub,
    now: u64,
)
    requires
        old(hub).wf(),
        old(hub)@.has_room(3),
    ensures
        final(hub).wf(),
        final(hub)@ == (match *result {
            Ok(_) => old(hub)@.task_waits(task@.id, None, now).task_progressed(
                task@.id,
                100,
                now,
            ).task_ended(task@.id@, TaskOutcomeView::Completed, now),
            Err(error) => old(hub)@.task_waits(task@.id, None, now).task_ended(
                task@.id@,
                TaskOutcomeView::Failed(error.message()),
                now,
            ),
        }),
{
    task.unblocked(hub, now);
    match result {
        Ok(_) => {
            task.progress(hub, 100, now);
            task.finish(hub, TaskOutcome::Completed, now);
        },
        Err(error) => {
            task.finish(hub, TaskOutcome::Failed(error.to_string()), now);
        },
    }
}

/// Whether two events ask for the same: both report the same physical state, or
/// both ask to shrink. Their disks and their times do not matter.
pub open spec fn ask_alike(one: MemberDiskEvent, other: MemberDiskEvent) -> bool {
    match (one, other) {
        (MemberDiskEvent::Shrink { .. }, MemberDiskEvent::Shrink { .. }) => true,
        (
            MemberDiskEvent::PhysicalChanged { state, .. },
            MemberDiskEvent::PhysicalChanged { state: other_state, .. },
        ) => state == other_state,
        _ => false,
    }
}

/// The events on an occupied disk in the order in which they came: the active
/// one and all that wait behind it.
pub open spec fn events_on(slot: SlotView<MemberDiskEvent>) -> Seq<MemberDiskEvent> {
    seq![slot.active] + slot.pending.map_values(|queued: PendingView<MemberDiskEvent>| queued.input)
}

/// The name under which an event is reported.
pub open spec fn reported_as(event: MemberDiskEvent, name: Seq<char>) -> bool {
    match event {
        MemberDiskEvent::PhysicalChanged { state: PhysicalState::Up, .. } => name == "online"@,
        MemberDiskEvent::PhysicalChanged { state: PhysicalState::Down, .. } => name == "offline"@,
        MemberDiskEvent::Shrink { .. } => name == "shrink"@,
    }
}

proof fn lemma_last_event(slot: SlotView<MemberDiskEvent>)
    ensures
        latest_event(slot) == events_on(slot).last(),
{
    let queued = slot.pending.map_values(|queued: PendingView<MemberDiskEvent>| queued.input);
    assert(events_on(slot).len() == 1 + queued.len());
    if slot.pending.len() > 0 {
        assert(events_on(slot).last() == queued.last());
    } else {
        assert(events_on(slot).last() == events_on(slot)[0]);
    }
}

/// Events ask for the same exactly when they report the same physical state or
/// both ask to shrink, and each is named after what it asks for.
pub proof fn law_kind_is_what_an_event_asks_for(one: MemberDiskEvent, other: MemberDiskEvent)
    ensures
        one.asks() == other.asks() <==> ask_alike(one, other),
        reported_as(one, kind_text(one.asks())),
        one matches MemberDiskEvent::Shrink { disk } ==> one.subject() == disk,
        one matches MemberDiskEvent::PhysicalChanged { disk, .. } ==> one.subject() == disk,
{
}

/// On an occupied disk an event joins exactly when the last of the active event
/// followed by all queued ones asks for the same. Every other event is queued,
/// and the active one is asked to give way to it, in words that name both.
pub proof fn law_event_joins_only_the_last(
    activity: ObjectActivityView<MemberDiskEvent>,
    incoming: MemberDiskEvent,
    decision: ConflictDecision,
    active_name: Seq<char>,
    incoming_name: Seq<char>,
)
    requires
        resolves(activity, incoming, decision),
        reported_as(activity.active, active_name),
        reported_as(incoming, incoming_name),
    ensures
        decision is Join <==> ask_alike((seq![activity.active] + activity.pending).last(), incoming),
        !(decision is Join) ==> {
            &&& decision matches ConflictDecision::QueueAndCancel { cause }
            &&& cause@ == active_name + " replaced by a newer "@ + incoming_name + " event"@
        },
{
    let order = seq![activity.active] + activity.pending;
    assert(order.len() == 1 + activity.pending.len());
    if activity.pending.len() > 0 {
        assert(order.last() == activity.pending.last());
    } else {
        assert(order.last() == order[0]);
    }
    law_kind_is_what_an_event_asks_for(order.last(), incoming);
    law_kind_is_what_an_event_asks_for(activity.active, incoming);
}

/// Whatever becomes of an event, the last of the events on its disk asks for
/// what it asks for, the active event stays active, and no event that waited is
/// lost or overtaken.
pub proof fn law_admitted_event_is_the_last_word(
    tasks: CoordinatorView<Seq<char>, MemberDiskEvent, MemberDiskServiceError>,
    key: Seq<char>,
    activity: ObjectActivity<'_, MemberDiskEvent>,
    incoming: MemberDiskEvent,
    cancellation: CancellationToken,
    decision: ConflictDecision,
)
    requires
        tasks.slots.contains_key(key),
        shows(activity, tasks.slots[key]),
        resolves(activity@, incoming, decision),
    ensures
        ({
            let before = events_on(tasks.slots[key]);
            let after = tasks.decided(key, incoming, cancellation, decision);
            let events = events_on(after.slots[key]);
            &&& after.slots.contains_key(key)
            &&& ask_alike(events.last(), incoming)
            &&& before.is_prefix_of(events)
            &&& events == before || events == before.push(incoming)
        }),
        ({
            let after = tasks.activated(key, incoming, cancellation);
            &&& after.slots.contains_key(key)
            &&& events_on(after.slots[key]) == seq![incoming]
        }),
{
    let slot = tasks.slots[key];
    lemma_last_event(slot);
    if slot.pending.len() > 0 {
        assert(activity@.pending.last() == slot.pending.last().input);
    }
    assert(activity@.latest() == latest_event(slot));
    law_kind_is_what_an_event_asks_for(latest_event(slot), incoming);
    law_kind_is_what_an_event_asks_for(incoming, incoming);
    let after = tasks.decided(key, incoming, cancellation, decision);
    let before = events_on(slot);
    let events = events_on(after.slots[key]);
    if !(decision is Join) {
        assert(events =~= before.push(incoming));
        assert(before =~= events.subrange(0, before.len() as int));
    } else {
        assert(before =~= events.subrange(0, before.len() as int));
    }
    assert(events_on(tasks.activated(key, incoming, cancellation).slots[key]) =~= seq![incoming]);
}

/// The outcome of a task tells how its workflow ended: completed exactly when
/// it succeeded, cancelled exactly when it was cancelled, and otherwise failed
/// with the message of the error.
pub proof fn law_outcome_tells_the_result(result: Result<(), MemberDiskServiceError>)
    ensures
        outcome_of(result) is Completed <==> result is Ok,
        outcome_of(result) is Cancelled <==> (result matches Err(MemberDiskServiceError::Cancelled)),
        !(outcome_of(result) is Aborted),
        result matches Err(error) ==> !(error is Cancelled) ==> outcome_of(result)
            == TaskOutcomeView::Failed(error.message()),
{
}

/// A workflow on a disk can be cancelled and an allocation cannot. Each is
/// observed under the object that it works on.
pub proof fn law_only_allocations_are_not_cancellable(
    event: MemberDiskEvent,
    request: AllocateBlksView,
)
    ensures
        workflow_meta(event).cancellable,
        !allocation_meta(request).cancellable,
        workflow_meta(event).key == "disk/"@ + event.subject()@,
        allocation_meta(request).key == "tier/"@ + request.tier,
        reported_as(event, workflow_meta(event).kind),
        allocation_meta(request).kind == "allocate_blks"@,
        workflow_meta(event).summary == "reconcile member disk "@ + event.subject()@,
        allocation_meta(request).summary == "allocate "@ + decimal_text(request.count as nat)
            + " BLKs"@,
{
}

/// A round that made a transition is followed by another, and every other round
/// ends the workflow: with success where the disk is stable, and with the error
/// otherwise. The task waits for nothing after a round.
pub proof fn law_workflow_goes_on_while_it_transitions(
    workflow: ObjectWorkflow,
    before: ReconcileState,
    result: Result<ReconcileResult, MemberDiskServiceError>,
    service: MemberDiskService,
    hub: &mut ObservationHub,
    now: u64,
    end: RoundEnd,
)
    requires
        call_ensures(
            ObjectWorkflow::end_round,
            (&workflow, before, result, &service, hub, now),
            end,
        ),
    ensures
        end is Again <==> (result matches Ok(ReconcileResult::Transitioned { .. }))
            && service@.disks.contains_key(workflow@.lease.input.subject()@),
        (result matches Ok(ReconcileResult::Stable)) ==> end == RoundEnd::Over(Ok(())),
        result matches Err(error) ==> end == RoundEnd::Over(Err(error)),
        end is BrokenOff ==> !service@.disks.contains_key(workflow@.lease.input.subject()@),
{
}

/// A workflow that ended reports the outcome of its task and gives its disk back
/// with the same result: completed exactly when it succeeded, cancelled exactly
/// when it was cancelled. One that is given up counts as aborted.
pub proof fn law_workflow_reports_its_result(
    workflow: ObjectWorkflow,
    result: Result<(), MemberDiskServiceError>,
    service: &mut MemberDiskService,
    hub: &mut ObservationHub,
    now: u64,
    offers: Vec<Offer>,
)
    requires
        old(hub)@.valid(),
        old(hub)@.has_room(1),
        old(hub)@.tasks.contains_key(workflow@.task.id@),
        call_ensures(ObjectWorkflow::finish, (workflow, result, service, hub, now), offers),
    ensures
        ({
            let told = final(hub)@.outbox.last().kind;
            &&& final(hub)@.outbox.len() == old(hub)@.outbox.len() + 1
            &&& told matches RuntimeEventKindView::TaskFinished { outcome, .. }
            &&& outcome is Completed <==> result is Ok
            &&& outcome is Cancelled <==> (result matches Err(MemberDiskServiceError::Cancelled))
            &&& !(outcome is Aborted)
        }),
        !final(hub)@.tasks.contains_key(workflow@.task.id@),
        final(service)@.tasks == old(service)@.tasks.released(
            workflow@.lease.key,
            workflow@.lease.generation,
            result,
            offers@,
        ),
{
}

/// The task of an allocation completes with full progress exactly when the
/// allocation succeeded, and fails otherwise.
pub proof fn law_allocation_reports_its_result(
    task: TaskAttempt,
    result: &Result<Allocation, MemberDiskServiceError>,
    hub: &mut ObservationHub,
    now: u64,
    done: (),
)
    requires
        old(hub)@.valid(),
        old(hub)@.has_room(3),
        old(hub)@.tasks.contains_key(task@.id@),
        call_ensures(end_allocation, (task, result, hub, now), done),
    ensures
        ({
            let told = final(hub)@.outbox.last().kind;
            &&& told matches RuntimeEventKindView::TaskFinished { outcome, .. }
            &&& outcome is Completed <==> *result is Ok
            &&& outcome is Failed <==> *result is Err
        }),
        !final(hub)@.tasks.contains_key(task@.id@),
{
}

/// A transition is reported with the disk, the event, the states before and after
/// and what was done, and the milestone of the task names the state reached.
pub proof fn law_transition_is_reported_with_its_states(
    hub: HubView,
    task: TaskAttemptView,
    event: MemberDiskEvent,
    from: ReconcileState,
    action: Seq<char>,
    to: ReconcileState,
    now: u64,
)
    ensures
        ({
            let after = hub.disk_transitioned(task, event, from, action, to, now);
            let told = after.outbox[hub.outbox.len() as int + 1].kind;
            &&& after.outbox.len() == hub.outbox.len() + 3
            &&& told matches RuntimeEventKindView::StateTransition {
                task: reported,
                operation,
                object,
                event: name,
                from: left,
                action: done,
                to: reached,
            }
            &&& reported == task.id
            &&& operation == task.operation
            &&& object == "disk/"@ + event.subject()@
            &&& reported_as(event, name)
            &&& left == from.text()
            &&& done == action
            &&& reached == to.text()
        }),
{
}

/// A judged event joins exactly when the last of the active event followed by all
/// queued ones asks for the same; otherwise it is queued and the active one is
/// asked to give way.
pub proof fn law_judgement_looks_at_the_last_event(
    activity: ObjectActivity<'_, MemberDiskEvent>,
    incoming: MemberDiskEvent,
    decision: ConflictDecision,
    one: MemberDiskEvent,
    other: MemberDiskEvent,
    same: bool,
    name: &'static str,
)
    requires
        call_ensures(resolve_conflict, (activity, &incoming), decision),
        call_ensures(MemberDiskEvent::same_kind, (&one, &other), same),
        call_ensures(event_kind, (&one,), name),
    ensures
        decision is Join <==> ask_alike(
            (seq![activity@.active] + activity@.pending).last(),
            incoming,
        ),
        decision is QueueAndCancel <==> !(decision is Join),
        same <==> ask_alike(one, other),
        reported_as(one, name@),
{
    law_kind_is_what_an_event_asks_for(one, other);
    law_kind_is_what_an_event_asks_for(activity@.active, activity@.active);
    law_kind_is_what_an_event_asks_for(incoming, incoming);
    law_event_joins_only_the_last(
        activity@,
        incoming,
        decision,
        kind_text(activity@.active.asks()),
        kind_text(incoming.asks()),
    );
}

/// An event on a known disk is taken in, and the last of the events on the disk
/// asks for what it asks for then: it is active on a free disk, joins what asks
/// for the same, and waits otherwise, while the active one stays. An event on an
/// unknown disk changes nothing.
pub proof fn law_event_is_taken_in_or_joins(
    service: &mut MemberDiskService,
    event: MemberDiskEvent,
    cancellation: &CancellationToken,
    hub: &mut ObservationHub,
    now: u64,
    result: Result<ObjectAdmission<DiskUuid, MemberDiskEvent>, MemberDiskServiceError>,
)
    requires
        call_ensures(
            MemberDiskService::handle_event,
            (service, event, cancellation, hub, now),
            result,
        ),
    ensures
        ({
            let uuid = event.subject()@;
            let before = old(service)@;
            let after = final(service)@;
            let occupied = before.tasks.slots.contains_key(uuid);
            let events = events_on(before.tasks.slots[uuid]);
            &&& result is Ok <==> before.disks.contains_key(uuid)
            &&& result is Err ==> after == before && final(hub)@ == old(hub)@
            &&& after.disks == before.disks
            &&& result is Ok ==> {
                &&& ask_alike(events_on(after.tasks.slots[uuid]).last(), event)
                &&& (result matches Ok(ObjectAdmission::Active(_))) <==> !occupied
                &&& (result matches Ok(ObjectAdmission::Joined)) <==> occupied && ask_alike(
                    events.last(),
                    event,
                )
                &&& occupied ==> after.tasks.slots[uuid].active == before.tasks.slots[uuid].active
                &&& (result matches Ok(ObjectAdmission::Pending(_))) ==> events_on(
                    after.tasks.slots[uuid],
                ) == events.push(event)
            }
        }),
{
    let uuid = event.subject()@;
    let before = old(service)@.tasks.slots[uuid];
    lemma_last_event(before);
    law_kind_is_what_an_event_asks_for(latest_event(before), event);
    if result matches Ok(ObjectAdmission::Pending(_)) {
        assert(events_on(final(service)@.tasks.slots[uuid]) =~= events_on(before).push(event));
    }
}

/// A round of a workflow begins in the committed state of the disk of its event,
/// and the task is seen to wait for the transition. Without the disk there is no
/// round, and nothing is told.
pub proof fn law_workflow_begins_its_rounds(
    workflow: ObjectWorkflow,
    service: MemberDiskService,
    hub: &mut ObservationHub,
    now: u64,
    result: Result<Reconciliation, MemberDiskServiceError>,
)
    requires
        call_ensures(ObjectWorkflow::begin_round, (&workflow, &service, hub, now), result),
    ensures
        result is Ok <==> service@.disks.contains_key(workflow@.lease.input.subject()@),
        result is Err ==> final(hub)@ == old(hub)@,
        result matches Ok(round) ==> {
            &&& round@.event == workflow@.lease.input
            &&& round@.disk == workflow@.lease.input.subject()
            &&& super::reconcile::is_in(
                service@.disks[workflow@.lease.input.subject()@],
                round@.start,
            )
            &&& round@.phase == phase_of(
                transition(round@.start, round@.event, service@.recovery_window_ms),
            )
            &&& final(hub)@.outbox.len() == old(hub)@.outbox.len() + 1
        },
{
    if let Ok(round) = result {
        super::reconcile::law_state_is_read_off_the_disk(
            service@,
            workflow@.lease.input.subject(),
            round@.start,
        );
    }
}

/// The workflow of a lease runs as a task of its own: it is active under the next
/// identity, is named after the disk, can be cancelled by the token of the lease,
/// and is bound to the disk while the lease holds it. The disks do not change.
pub proof fn law_workflow_runs_as_a_task_of_its_disk(
    lease: ObjectLease<DiskUuid, MemberDiskEvent>,
    context: &RequestContext,
    service: &mut MemberDiskService,
    hub: &mut ObservationHub,
    counter: &mut IdCounter,
    now: u64,
    workflow: ObjectWorkflow,
)
    requires
        old(hub)@.valid(),
        call_ensures(
            ObjectWorkflow::start,
            (lease, context, service, hub, counter, now),
            workflow,
        ),
    ensures
        workflow@.lease == lease@,
        workflow@.task.id@ == old(counter)@,
        workflow@.task.operation == context@.operation.id,
        final(service)@.disks == old(service)@.disks,
        ({
            let held = old(service)@.tasks.slots.contains_key(lease@.key)
                && old(service)@.tasks.slots[lease@.key].generation == lease@.generation;
            &&& held ==> final(service)@.tasks.slots[lease@.key].task == Some(workflow@.task.id)
            &&& !held ==> final(service)@.tasks == old(service)@.tasks
        }),
        final(hub)@.tasks.contains_key(workflow@.task.id@),
        ({
            let task = final(hub)@.tasks[workflow@.task.id@];
            &&& task.cancellation == lease@.cancellation
            &&& task.snapshot.cancellable
            &&& task.snapshot.key == "disk/"@ + lease@.input.subject()@
            &&& task.snapshot.operation_id == context@.operation.id
            &&& task.snapshot.started_at_ms == now
        }),
        final(hub)@.outbox.len() == old(hub)@.outbox.len() + 1,
{
}

/// A workflow that is given up ends its task as aborted and frees its disk, where
/// nobody waits for it, with the error for dropped work. The disks do not change.
pub proof fn law_abandoned_workflow_frees_its_disk(
    workflow: ObjectWorkflow,
    service: &mut MemberDiskService,
    hub: &mut ObservationHub,
    now: u64,
    offers: Vec<Offer>,
)
    requires
        old(hub)@.valid(),
        call_ensures(ObjectWorkflow::abandon, (workflow, service, hub, now), offers),
    ensures
        ({
            let key = workflow@.lease.key;
            let before = old(service)@;
            let after = final(service)@;
            let held = before.tasks.slots.contains_key(key) && before.tasks.slots[key].generation
                == workflow@.lease.generation;
            &&& after.disks == before.disks
            &&& !held ==> after.tasks == before.tasks
            &&& held && before.tasks.slots[key].pending.len() == 0 ==> {
                &&& !after.tasks.slots.contains_key(key)
                &&& after.tasks.last_results[key] == Err::<(), _>(before.tasks.dropped_error)
            }
        }),
        !final(hub)@.tasks.contains_key(workflow@.task.id@),
        old(hub)@.tasks.contains_key(workflow@.task.id@) ==> (
        final(hub)@.outbox[old(hub)@.outbox.len() as int].kind matches
            RuntimeEventKindView::TaskFinished { outcome, .. } && outcome is Aborted),
{
}

/// An allocation runs as a task that is named after its tier, cannot be cancelled
/// and is seen to wait for the commit.
pub proof fn law_allocation_runs_as_a_task_of_its_tier(
    request: &AllocateBlks,
    context: &RequestContext,
    hub: &mut ObservationHub,
    counter: &mut IdCounter,
    now: u64,
    task: TaskAttempt,
)
    requires
        old(hub)@.valid(),
        call_ensures(begin_allocation, (request, context, hub, counter, now), task),
    ensures
        task@.id@ == old(counter)@,
        task@.operation == context@.operation.id,
        final(hub)@.tasks.contains_key(task@.id@),
        ({
            let shown = final(hub)@.tasks[task@.id@].snapshot;
            &&& !shown.cancellable
            &&& shown.key == "tier/"@ + request@.tier
            &&& shown.operation_id == context@.operation.id
            &&& shown.blocked_on == Some("SDB MemberDisk allocation commit"@)
            &&& shown.started_at_ms == now
        }),
        final(hub)@.outbox.len() == old(hub)@.outbox.len() + 2,
{
}

} // verus!
