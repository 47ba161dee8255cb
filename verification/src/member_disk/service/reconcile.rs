//! Convergence of a MemberDisk towards what an event asks for.
//!
//! Every round reads the committed state, selects one transition, carries it out
//! and verifies that the disk reached the declared state.
use super::directory::{MemberDiskService, MemberDiskServiceView};
use super::error::MemberDiskServiceError;
use super::operations::{
    changes_nothing, disable_allocation, down_steps, flow_after, next_step, online_steps, open_and_serve,
    outcome_fits, recovery_steps, remove, request_shrink, service_after, set_disk_down, steps_left,
    wait_then_disable, NextStep, Operation, Step, StepAction, StepFlow, StepOutcome,
};
use crate::member_disk::event::{EpochMillis, EventKind, MemberDiskEvent, PhysicalState};
use crate::member_disk::model::{
    AllocationState, DiskIoState, DiskUuid, MemberDiskState, MemberDiskUpdate, MemberDiskView,
    MembershipState,
};
use crate::member_disk::ports::VirtualDiskError;
use crate::text::{decimal, decimal_text, quote, quoted_text};
use vstd::prelude::*;
use vstd::string::StringExecFns;

verus! {

/// Whether a transition completed, or the event has already reached a stable
/// state.
#[derive(Debug, Clone, Copy, PartialEq, Eq)]
pub enum ReconcileResult {
    Transitioned { action: &'static str },
    Stable,
}

/// The complete read-only state that selects a transition.
///
/// Both fields come from MemberDisk metadata. Cross-domain conditions such as BG
/// references are read only by transitions that need them, so an unrelated
/// outage cannot block the mandatory DOWN transition.
#[derive(Debug, Clone, Copy, PartialEq, Eq, Structural)]
pub struct ReconcileState {
    pub member: MemberDiskState,
    pub shrinking: bool,
}

impl ReconcileState {
    /// The state of a disk.
    pub open spec fn of(disk: MemberDiskView) -> ReconcileState {
        ReconcileState { member: disk.state(), shrinking: disk.shrink_requested }
    }

    /// The state as text.
    pub open spec fn text(self) -> Seq<char> {
        "ReconcileState { member: "@ + self.member.name_text() + ", shrinking: "@ + (
        if self.shrinking {
            "true"@
        } else {
            "false"@
        }) + " }"@
    }

    /// Writes the state as text.
    pub fn to_string(&self) -> (text: String)
        ensures
            text@ == self.text(),
    {
        let mut text = "ReconcileState { member: ".to_owned();
        text.append(self.member.name());
        text.append(", shrinking: ");
        text.append(
            if self.shrinking {
                "true"
            } else {
                "false"
            },
        );
        text.append(" }");
        text
    }
}

/// An event as text.
pub open spec fn event_text(event: MemberDiskEvent) -> Seq<char> {
    match event {
        MemberDiskEvent::PhysicalChanged { disk, state, observed_at } => {
            "PhysicalChanged { disk: DiskUuid("@ + quoted_text(disk@) + "), state: "@ + (
            match state {
                PhysicalState::Up => "Up"@,
                PhysicalState::Down => "Down"@,
            }) + ", observed_at: EpochMillis("@ + decimal_text(observed_at@ as nat) + ") }"@
        },
        MemberDiskEvent::Shrink { disk } => "Shrink { disk: DiskUuid("@ + quoted_text(disk@)
            + ") }"@,
    }
}

/// Writes an event as text.
fn describe_event(event: &MemberDiskEvent) -> (text: String)
    ensures
        text@ == event_text(*event),
{
    match event {
        MemberDiskEvent::PhysicalChanged { disk, state, observed_at } => {
            let mut text = "PhysicalChanged { disk: DiskUuid(".to_owned();
            text.append(quote(disk.as_str()).as_str());
            text.append("), state: ");
            text.append(
                match state {
                    PhysicalState::Up => "Up",
                    PhysicalState::Down => "Down",
                },
            );
            text.append(", observed_at: EpochMillis(");
            text.append(decimal(observed_at.get()).as_str());
            text.append(") }");
            text
        },
        MemberDiskEvent::Shrink { disk } => {
            let mut text = "Shrink { disk: DiskUuid(".to_owned();
            text.append(quote(disk.as_str()).as_str());
            text.append(") }");
            text
        },
    }
}

/// What is done in a state on behalf of an event.
pub enum ChoiceView {
    /// Nothing: the state is stable.
    Stable,
    /// An operation with a declared finish state.
    Run { steps: Seq<Step>, action: &'static str, finish: ReconcileState },
    /// The BG references of the disk decide.
    AskReferences { while_up: bool },
    /// The BGs leave the disk.
    Evacuate,
}

/// What is done in a state on behalf of an event.
pub enum Choice {
    Stable,
    Run { steps: Vec<Step>, action: &'static str, finish: ReconcileState },
    AskReferences { while_up: bool },
    Evacuate,
}

impl View for Choice {
    type V = ChoiceView;

    open spec fn view(&self) -> ChoiceView {
        match *self {
            Choice::Stable => ChoiceView::Stable,
            Choice::Run { steps, action, finish } => ChoiceView::Run {
                steps: steps@,
                action,
                finish,
            },
            Choice::AskReferences { while_up } => ChoiceView::AskReferences { while_up },
            Choice::Evacuate => ChoiceView::Evacuate,
        }
    }
}

/// The time at which an event was observed.
pub open spec fn observed_time(event: MemberDiskEvent) -> u64 {
    match event {
        MemberDiskEvent::PhysicalChanged { observed_at, .. } => observed_at@,
        MemberDiskEvent::Shrink { .. } => 0,
    }
}

/// The state table: what is done in each state on behalf of each event.
pub open spec fn transition(
    start: ReconcileState,
    event: MemberDiskEvent,
    window_ms: u64,
) -> ChoiceView {
    let kind = event.asks();
    let is_up = start.member == MemberDiskState::UpActive || start.member
        == MemberDiskState::UpInactive;
    if start.member == MemberDiskState::Removed {
        if kind == EventKind::Online {
            ChoiceView::Run {
                steps: online_steps(start.member),
                action: "rejoin, open and publish disk UP",
                finish: ReconcileState { member: MemberDiskState::UpActive, shrinking: false },
            }
        } else {
            ChoiceView::Stable
        }
    } else if is_up && kind == EventKind::Offline {
        ChoiceView::Run {
            steps: down_steps(),
            action: "set disk DOWN",
            finish: ReconcileState {
                member: if start.member == MemberDiskState::UpActive {
                    MemberDiskState::DownActive
                } else {
                    MemberDiskState::DownInactive
                },
                ..start
            },
        }
    } else if start.shrinking {
        match start.member {
            MemberDiskState::UpActive => ChoiceView::Run {
                steps: seq![Step::Commit(MemberDiskUpdate::DisableAllocation)],
                action: "disable allocation",
                finish: ReconcileState { member: MemberDiskState::UpInactive, ..start },
            },
            MemberDiskState::DownActive => ChoiceView::Run {
                steps: seq![Step::Commit(MemberDiskUpdate::DisableAllocation)],
                action: "disable allocation",
                finish: ReconcileState { member: MemberDiskState::DownInactive, ..start },
            },
            MemberDiskState::UpInactive => ChoiceView::AskReferences { while_up: true },
            _ => ChoiceView::AskReferences { while_up: false },
        }
    } else {
        match kind {
            EventKind::Shrink => ChoiceView::Run {
                steps: seq![Step::Commit(MemberDiskUpdate::RequestShrink)],
                action: "record Shrink intent",
                finish: ReconcileState { shrinking: true, ..start },
            },
            EventKind::Online => if start.member == MemberDiskState::UpActive {
                ChoiceView::Stable
            } else {
                ChoiceView::Run {
                    steps: online_steps(start.member),
                    action: "open and publish disk UP",
                    finish: ReconcileState { member: MemberDiskState::UpActive, ..start },
                }
            },
            EventKind::Offline => if start.member == MemberDiskState::DownActive {
                ChoiceView::Run {
                    steps: recovery_steps(observed_time(event), window_ms),
                    action: "wait recovery window and disable allocation",
                    finish: ReconcileState { member: MemberDiskState::DownInactive, ..start },
                }
            } else {
                ChoiceView::AskReferences { while_up: false }
            },
        }
    }
}

/// What is done once the BG references of a disk are known: with references the
/// disk is evacuated, without a disk that is up goes down and one that is down
/// leaves the Pool.
pub open spec fn transition_by_references(
    start: ReconcileState,
    while_up: bool,
    has_references: bool,
) -> ChoiceView {
    if has_references {
        ChoiceView::Evacuate
    } else if while_up {
        ChoiceView::Run {
            steps: down_steps(),
            action: "set disk DOWN",
            finish: ReconcileState { member: MemberDiskState::DownInactive, ..start },
        }
    } else {
        ChoiceView::Run {
            steps: seq![Step::Commit(MemberDiskUpdate::Remove)],
            action: "remove MemberDisk",
            finish: ReconcileState { member: MemberDiskState::Removed, ..start },
        }
    }
}

/// Selects the transition of a disk that is up and active.
pub fn reconcile_up_active(event: &MemberDiskEvent, start: ReconcileState) -> (choice: Choice)
    requires
        start.member == MemberDiskState::UpActive,
    ensures
        forall|window_ms: u64| choice@ == #[trigger] transition(start, *event, window_ms),
{
    if start.shrinking {
        match event.kind() {
            // DOWN is a mandatory safety transition during Shrink.
            EventKind::Offline => Choice::Run {
                steps: set_disk_down(),
                action: "set disk DOWN",
                finish: ReconcileState {
                    member: MemberDiskState::DownActive,
                    shrinking: start.shrinking,
                },
            },
            EventKind::Online | EventKind::Shrink => Choice::Run {
                steps: disable_allocation(),
                action: "disable allocation",
                finish: ReconcileState {
                    member: MemberDiskState::UpInactive,
                    shrinking: start.shrinking,
                },
            },
        }
    } else {
        match event.kind() {
            EventKind::Offline => Choice::Run {
                steps: set_disk_down(),
                action: "set disk DOWN",
                finish: ReconcileState {
                    member: MemberDiskState::DownActive,
                    shrinking: start.shrinking,
                },
            },
            EventKind::Online => Choice::Stable,
            EventKind::Shrink => Choice::Run {
                steps: request_shrink(),
                action: "record Shrink intent",
                finish: ReconcileState { member: start.member, shrinking: true },
            },
        }
    }
}

/// Selects the transition of a disk that is up and inactive.
pub fn reconcile_up_inactive(event: &MemberDiskEvent, start: ReconcileState) -> (choice: Choice)
    requires
        start.member == MemberDiskState::UpInactive,
    ensures
        forall|window_ms: u64| choice@ == #[trigger] transition(start, *event, window_ms),
{
    match event.kind() {
        EventKind::Offline => Choice::Run {
            steps: set_disk_down(),
            action: "set disk DOWN",
            finish: ReconcileState {
                member: MemberDiskState::DownInactive,
                shrinking: start.shrinking,
            },
        },
        kind => {
            if start.shrinking {
                Choice::AskReferences { while_up: true }
            } else if kind == EventKind::Online {
                Choice::Run {
                    steps: open_and_serve(start.member),
                    action: "open and publish disk UP",
                    finish: ReconcileState {
                        member: MemberDiskState::UpActive,
                        shrinking: start.shrinking,
                    },
                }
            } else {
                Choice::Run {
                    steps: request_shrink(),
                    action: "record Shrink intent",
                    finish: ReconcileState { member: start.member, shrinking: true },
                }
            }
        },
    }
}

/// Continues the removal of a disk that is still up.
pub fn continue_shrink_while_up(start: ReconcileState, has_references: bool) -> (choice: Choice)
    ensures
        choice@ == transition_by_references(start, true, has_references),
{
    if has_references {
        return Choice::Evacuate;
    }
    Choice::Run {
        steps: set_disk_down(),
        action: "set disk DOWN",
        finish: ReconcileState {
            member: MemberDiskState::DownInactive,
            shrinking: start.shrinking,
        },
    }
}

/// Selects the transition of a disk that is down and active.
pub fn reconcile_down_active(
    event: &MemberDiskEvent,
    start: ReconcileState,
    window_ms: u64,
) -> (choice: Choice)
    requires
        start.member == MemberDiskState::DownActive,
    ensures
        choice@ == transition(start, *event, window_ms),
{
    if start.shrinking {
        return Choice::Run {
            steps: disable_allocation(),
            action: "disable allocation",
            finish: ReconcileState {
                member: MemberDiskState::DownInactive,
                shrinking: start.shrinking,
            },
        };
    }
    match event {
        MemberDiskEvent::PhysicalChanged { state: PhysicalState::Down, observed_at, .. } => {
            Choice::Run {
                steps: wait_then_disable(*observed_at, window_ms),
                action: "wait recovery window and disable allocation",
                finish: ReconcileState {
                    member: MemberDiskState::DownInactive,
                    shrinking: start.shrinking,
                },
            }
        },
        MemberDiskEvent::PhysicalChanged { state: PhysicalState::Up, .. } => Choice::Run {
            steps: open_and_serve(start.member),
            action: "open and publish disk UP",
            finish: ReconcileState {
                member: MemberDiskState::UpActive,
                shrinking: start.shrinking,
            },
        },
        MemberDiskEvent::Shrink { .. } => Choice::Run {
            steps: request_shrink(),
            action: "record Shrink intent",
            finish: ReconcileState { member: start.member, shrinking: true },
        },
    }
}

/// Selects the transition of a disk that is down and inactive.
pub fn reconcile_down_inactive(event: &MemberDiskEvent, start: ReconcileState) -> (choice: Choice)
    requires
        start.member == MemberDiskState::DownInactive,
    ensures
        forall|window_ms: u64| choice@ == #[trigger] transition(start, *event, window_ms),
{
    if start.shrinking {
        return Choice::AskReferences { while_up: false };
    }
    match event.kind() {
        EventKind::Offline => Choice::AskReferences { while_up: false },
        EventKind::Online => Choice::Run {
            steps: open_and_serve(start.member),
            action: "open and publish disk UP",
            finish: ReconcileState {
                member: MemberDiskState::UpActive,
                shrinking: start.shrinking,
            },
        },
        EventKind::Shrink => Choice::Run {
            steps: request_shrink(),
            action: "record Shrink intent",
            finish: ReconcileState { member: start.member, shrinking: true },
        },
    }
}

/// Continues the removal of a disk that is down.
pub fn continue_removal_while_down(start: ReconcileState, has_references: bool) -> (choice: Choice)
    ensures
        choice@ == transition_by_references(start, false, has_references),
{
    if has_references {
        return Choice::Evacuate;
    }
    Choice::Run {
        steps: remove(),
        action: "remove MemberDisk",
        finish: ReconcileState { member: MemberDiskState::Removed, shrinking: start.shrinking },
    }
}

/// Selects the transition of a disk that left its Pool.
pub fn reconcile_removed(event: &MemberDiskEvent, start: ReconcileState) -> (choice: Choice)
    requires
        start.member == MemberDiskState::Removed,
    ensures
        forall|window_ms: u64| choice@ == #[trigger] transition(start, *event, window_ms),
{
    match event.kind() {
        EventKind::Offline | EventKind::Shrink => Choice::Stable,
        EventKind::Online => Choice::Run {
            steps: open_and_serve(start.member),
            action: "rejoin, open and publish disk UP",
            finish: ReconcileState { member: MemberDiskState::UpActive, shrinking: false },
        },
    }
}

/// Selects the one transition of a state on behalf of an event.
pub fn reconcile_choice(
    event: &MemberDiskEvent,
    start: ReconcileState,
    window_ms: u64,
) -> (choice: Choice)
    ensures
        choice@ == transition(start, *event, window_ms),
{
    match start.member {
        MemberDiskState::UpActive => reconcile_up_active(event, start),
        MemberDiskState::UpInactive => reconcile_up_inactive(event, start),
        MemberDiskState::DownActive => reconcile_down_active(event, start, window_ms),
        MemberDiskState::DownInactive => reconcile_down_inactive(event, start),
        MemberDiskState::Removed => reconcile_removed(event, start),
    }
}

/// What is said when a transition did not reach its finish state.
pub open spec fn incomplete_text(
    disk: Seq<char>,
    start: ReconcileState,
    event: MemberDiskEvent,
    action: Seq<char>,
    finish: ReconcileState,
    actual: ReconcileState,
) -> Seq<char> {
    "MemberDisk "@ + disk + ": "@ + start.text() + " --"@ + event_text(event) + " / "@ + action
        + "--> expected "@ + finish.text() + ", got "@ + actual.text()
}

/// What is said when an evacuation did not reach its finish state.
pub open spec fn unevacuated_text(
    disk: Seq<char>,
    start: ReconcileState,
    event: MemberDiskEvent,
    actual: ReconcileState,
    has_references: bool,
) -> Seq<char> {
    "MemberDisk "@ + disk + ": "@ + start.text() + " --"@ + event_text(event)
        + " / evacuate BG references--> expected "@ + start.text()
        + " with no VDM references, got "@ + actual.text() + " with has_bg_references="@ + (
    if has_references {
        "true"@
    } else {
        "false"@
    })
}

/// Whether a result is the error that a transition is incomplete, with this
/// text.
pub open spec fn is_incomplete(
    result: Result<ReconcileResult, MemberDiskServiceError>,
    text: Seq<char>,
) -> bool {
    result matches Err(MemberDiskServiceError::TransitionIncomplete(said)) && said@ == text
}

/// Verifies the declared finish state of a transition.
pub fn finish_transition(
    disk: &DiskUuid,
    start: ReconcileState,
    event: &MemberDiskEvent,
    action_name: &'static str,
    finish: ReconcileState,
    actual: ReconcileState,
) -> (result: Result<ReconcileResult, MemberDiskServiceError>)
    ensures
        if actual == finish {
            result == Ok::<ReconcileResult, MemberDiskServiceError>(
                ReconcileResult::Transitioned { action: action_name },
            )
        } else {
            is_incomplete(
                result,
                incomplete_text(disk@, start, *event, action_name@, finish, actual),
            )
        },
{
    if actual == finish {
        return Ok(ReconcileResult::Transitioned { action: action_name });
    }
    let mut text = "MemberDisk ".to_owned();
    text.append(disk.as_str());
    text.append(": ");
    text.append(start.to_string().as_str());
    text.append(" --");
    text.append(describe_event(event).as_str());
    text.append(" / ");
    text.append(action_name);
    text.append("--> expected ");
    text.append(finish.to_string().as_str());
    text.append(", got ");
    text.append(actual.to_string().as_str());
    Err(MemberDiskServiceError::TransitionIncomplete(text))
}

/// Verifies the finish state of an evacuation: the disk is as it was, and no BG
/// refers to it any more.
pub fn finish_evacuation_transition(
    disk: &DiskUuid,
    start: ReconcileState,
    event: &MemberDiskEvent,
    actual: ReconcileState,
    has_references: bool,
) -> (result: Result<ReconcileResult, MemberDiskServiceError>)
    ensures
        if actual == start && !has_references {
            result == Ok::<ReconcileResult, MemberDiskServiceError>(
                ReconcileResult::Transitioned { action: "evacuate BG references" },
            )
        } else {
            is_incomplete(
                result,
                unevacuated_text(disk@, start, *event, actual, has_references),
            )
        },
{
    if actual == start && !has_references {
        return Ok(ReconcileResult::Transitioned { action: "evacuate BG references" });
    }
    let mut text = "MemberDisk ".to_owned();
    text.append(disk.as_str());
    text.append(": ");
    text.append(start.to_string().as_str());
    text.append(" --");
    text.append(describe_event(event).as_str());
    text.append(" / evacuate BG references--> expected ");
    text.append(start.to_string().as_str());
    text.append(" with no VDM references, got ");
    text.append(actual.to_string().as_str());
    text.append(" with has_bg_references=");
    text.append(
        if has_references {
            "true"
        } else {
            "false"
        },
    );
    Err(MemberDiskServiceError::TransitionIncomplete(text))
}

impl MemberDiskService {
    /// Reads the committed state of a disk.
    pub fn reconcile_state(&self, disk: &DiskUuid) -> (result: Result<
        ReconcileState,
        MemberDiskServiceError,
    >)
        requires
            self.wf(),
        ensures
            result == self@.state_of(*disk),
    {
        match self.get_member(disk) {
            Ok(member) => Ok(
                ReconcileState { member: member.state(), shrinking: member.shrink_requested() },
            ),
            Err(error) => Err(error),
        }
    }
}

impl MemberDiskServiceView {
    /// The committed state of a disk.
    pub open spec fn state_of(self, disk: DiskUuid) -> Result<
        ReconcileState,
        MemberDiskServiceError,
    > {
        if self.disks.contains_key(disk@) {
            Ok(ReconcileState::of(self.disks[disk@]))
        } else {
            Err(MemberDiskServiceError::UnknownDisk(disk))
        }
    }
}

/// Where a round of convergence stands.
pub enum PhaseView {
    Stable,
    Operating { rest: Seq<Step>, action: &'static str, finish: ReconcileState },
    Asking { while_up: bool },
    Evacuating,
    Verifying,
    Verified { has_references: bool },
}

enum Phase {
    Stable,
    Operating { operation: Operation, action: &'static str, finish: ReconcileState },
    Asking { while_up: bool },
    Evacuating,
    Verifying,
    Verified { has_references: bool },
}

impl View for Phase {
    type V = PhaseView;

    closed spec fn view(&self) -> PhaseView {
        match *self {
            Phase::Stable => PhaseView::Stable,
            Phase::Operating { operation, action, finish } => PhaseView::Operating {
                rest: operation.rest(),
                action,
                finish,
            },
            Phase::Asking { while_up } => PhaseView::Asking { while_up },
            Phase::Evacuating => PhaseView::Evacuating,
            Phase::Verifying => PhaseView::Verifying,
            Phase::Verified { has_references } => PhaseView::Verified { has_references },
        }
    }
}

/// The phase that begins with a choice.
pub open spec fn phase_of(choice: ChoiceView) -> PhaseView {
    match choice {
        ChoiceView::Stable => PhaseView::Stable,
        ChoiceView::Run { steps, action, finish } => PhaseView::Operating {
            rest: steps,
            action,
            finish,
        },
        ChoiceView::AskReferences { while_up } => PhaseView::Asking { while_up },
        ChoiceView::Evacuate => PhaseView::Evacuating,
    }
}

/// A round of convergence of a disk.
pub struct ReconciliationView {
    pub disk: DiskUuid,
    pub event: MemberDiskEvent,
    pub start: ReconcileState,
    pub phase: PhaseView,
}

/// A round of convergence of a disk: exactly one transition.
pub struct Reconciliation {
    disk: DiskUuid,
    event: MemberDiskEvent,
    start: ReconcileState,
    phase: Phase,
}

impl View for Reconciliation {
    type V = ReconciliationView;

    closed spec fn view(&self) -> ReconciliationView {
        ReconciliationView {
            disk: self.disk,
            event: self.event,
            start: self.start,
            phase: self.phase@,
        }
    }
}

/// The outside work that a round asks for.
pub enum ReconcileAction {
    /// A step of the operation.
    Step(StepAction),
    /// Ask the virtual disks for BG references.
    QueryReferences,
    /// Have the virtual disks evacuate the disk.
    Evacuate,
    /// Nothing: the round is over.
    Done(Result<ReconcileResult, MemberDiskServiceError>),
}

/// What came of the outside work.
pub enum ReconcileOutcome {
    Step(StepOutcome),
    References(Result<bool, VirtualDiskError>),
    Evacuated(Result<(), VirtualDiskError>),
}

/// The error of the service that an error of the virtual disks becomes.
pub open spec fn of_virtual_disk(error: VirtualDiskError) -> MemberDiskServiceError {
    match error {
        VirtualDiskError::Cancelled => MemberDiskServiceError::Cancelled,
        _ => MemberDiskServiceError::VirtualDisk(error),
    }
}

impl ReconciliationView {
    /// Whether `action` is what the round asks for next.
    pub open spec fn asks(
        self,
        action: ReconcileAction,
        service: MemberDiskServiceView,
        now: u64,
    ) -> bool {
        match self.phase {
            PhaseView::Stable => action == ReconcileAction::Done(Ok(ReconcileResult::Stable)),
            PhaseView::Asking { .. } | PhaseView::Verifying => action
                == ReconcileAction::QueryReferences,
            PhaseView::Evacuating => action == ReconcileAction::Evacuate,
            PhaseView::Verified { has_references } => match service.state_of(self.disk) {
                Err(error) => action == ReconcileAction::Done(Err(error)),
                Ok(actual) => if actual == self.start && !has_references {
                    action == ReconcileAction::Done(
                        Ok(ReconcileResult::Transitioned { action: "evacuate BG references" }),
                    )
                } else {
                    action matches ReconcileAction::Done(result) && is_incomplete(
                        result,
                        unevacuated_text(
                            self.disk@,
                            self.start,
                            self.event,
                            actual,
                            has_references,
                        ),
                    )
                },
            },
            PhaseView::Operating { rest, action: name, finish } => match next_step(
                rest,
                self.disk,
                service,
                now,
            ) {
                NextStep::Act(step) => action == ReconcileAction::Step(step),
                NextStep::Fail(error) => action == ReconcileAction::Done(Err(error)),
                NextStep::Complete => {
                    let actual = ReconcileState::of(service.disks[self.disk@]);
                    if actual == finish {
                        action == ReconcileAction::Done(
                            Ok(ReconcileResult::Transitioned { action: name }),
                        )
                    } else {
                        action matches ReconcileAction::Done(result) && is_incomplete(
                            result,
                            incomplete_text(
                                self.disk@,
                                self.start,
                                self.event,
                                name@,
                                finish,
                                actual,
                            ),
                        )
                    }
                },
            },
        }
    }

    /// The round after commits that change nothing were passed over.
    pub open spec fn passed_over(self, service: MemberDiskServiceView) -> ReconciliationView {
        match self.phase {
            PhaseView::Operating { rest, action, finish } => ReconciliationView {
                phase: PhaseView::Operating {
                    rest: steps_left(rest, self.disk, service),
                    action,
                    finish,
                },
                ..self
            },
            _ => self,
        }
    }

    /// Whether an outcome belongs to what the round asked for.
    pub open spec fn fits(self, outcome: ReconcileOutcome, service: MemberDiskServiceView) -> bool {
        match self.phase {
            PhaseView::Operating { rest, .. } => {
                &&& rest.len() > 0
                &&& outcome matches ReconcileOutcome::Step(step)
                &&& outcome_fits(rest[0], step)
                &&& rest[0] matches Step::Commit(update) ==> service.change(self.disk, update)
                    == Ok::<bool, MemberDiskServiceError>(true)
            },
            PhaseView::Asking { .. } | PhaseView::Verifying => outcome is References,
            PhaseView::Evacuating => outcome is Evacuated,
            PhaseView::Stable | PhaseView::Verified { .. } => false,
        }
    }

    /// How the round goes on after an outcome.
    pub open spec fn flow(self, outcome: ReconcileOutcome) -> Result<
        StepFlow,
        MemberDiskServiceError,
    > {
        match (self.phase, outcome) {
            (PhaseView::Operating { rest, .. }, ReconcileOutcome::Step(step)) => flow_after(
                rest[0],
                step,
            ),
            (_, ReconcileOutcome::References(Err(error))) => Err(of_virtual_disk(error)),
            (_, ReconcileOutcome::Evacuated(Err(error))) => Err(of_virtual_disk(error)),
            _ => Ok(StepFlow::Next),
        }
    }

    /// The round after an outcome.
    pub open spec fn resumed(self, outcome: ReconcileOutcome) -> ReconciliationView {
        if self.flow(outcome) != Ok::<StepFlow, MemberDiskServiceError>(StepFlow::Next) {
            self
        } else {
            ReconciliationView {
                phase: match (self.phase, outcome) {
                    (PhaseView::Operating { rest, action, finish }, _) => PhaseView::Operating {
                        rest: rest.skip(1),
                        action,
                        finish,
                    },
                    (PhaseView::Asking { while_up }, ReconcileOutcome::References(Ok(found))) => {
                        phase_of(transition_by_references(self.start, while_up, found))
                    },
                    (PhaseView::Evacuating, _) => PhaseView::Verifying,
                    (PhaseView::Verifying, ReconcileOutcome::References(Ok(found))) => {
                        PhaseView::Verified { has_references: found }
                    },
                    _ => self.phase,
                },
                ..self
            }
        }
    }

    /// The service after an outcome.
    pub open spec fn service_resumed(
        self,
        outcome: ReconcileOutcome,
        service: MemberDiskServiceView,
    ) -> MemberDiskServiceView {
        match (self.phase, outcome) {
            (PhaseView::Operating { rest, .. }, ReconcileOutcome::Step(step)) => service_after(
                service,
                self.disk@,
                rest[0],
                step,
            ),
            _ => service,
        }
    }
}

impl Reconciliation {
    /// The operation of the round stands at one of its steps and is about the
    /// disk of the round.
    pub closed spec fn wf(&self) -> bool {
        match self.phase {
            Phase::Operating { operation, .. } => operation.wf() && operation.disk() == self.disk,
            _ => true,
        }
    }

    fn phase_for(disk: &DiskUuid, choice: Choice) -> (phase: Phase)
        ensures
            phase@ == phase_of(choice@),
            match phase {
                Phase::Operating { operation, .. } => operation.wf() && operation.disk() == *disk,
                _ => true,
            },
    {
        match choice {
            Choice::Stable => Phase::Stable,
            Choice::Run { steps, action, finish } => Phase::Operating {
                operation: Operation::new(disk.clone(), steps),
                action,
                finish,
            },
            Choice::AskReferences { while_up } => Phase::Asking { while_up },
            Choice::Evacuate => Phase::Evacuating,
        }
    }

    /// Begins a round: reads the committed state of the disk and selects the
    /// transition.
    pub fn reconcile_once(event: &MemberDiskEvent, service: &MemberDiskService) -> (result: Result<
        Reconciliation,
        MemberDiskServiceError,
    >)
        requires
            service.wf(),
        ensures
            match result {
                Ok(round) => {
                    &&& round.wf()
                    &&& service@.state_of(event.subject()) == Ok::<
                        ReconcileState,
                        MemberDiskServiceError,
                    >(round@.start)
                    &&& round@ == ReconciliationView {
                        disk: event.subject(),
                        event: *event,
                        start: round@.start,
                        phase: phase_of(
                            transition(round@.start, *event, service@.recovery_window_ms),
                        ),
                    }
                },
                Err(error) => service@.state_of(event.subject()) == Err::<ReconcileState, _>(error),
            },
    {
        let disk = event.disk().clone();
        match service.reconcile_state(&disk) {
            Err(error) => Err(error),
            Ok(start) => {
                let choice = reconcile_choice(event, start, service.recovery_window_ms());
                let phase = Self::phase_for(&disk, choice);
                Ok(Reconciliation { disk, event: event.clone(), start, phase })
            },
        }
    }

    /// Whether the round is about to change the MemberDisk metadata. Such a
    /// change is exclusive of every other until its outcome is known.
    pub fn commits_next(&self) -> (result: bool)
        requires
            self.wf(),
        ensures
            result == (self@.phase matches PhaseView::Operating { rest, .. } && rest.len() > 0
                && rest[0] is Commit),
    {
        match &self.phase {
            Phase::Operating { operation, .. } => operation.commits_next(),
            _ => false,
        }
    }

    /// Tells what to do next.
    pub fn next(&mut self, service: &MemberDiskService, now: u64) -> (action: ReconcileAction)
        requires
            old(self).wf(),
            service.wf(),
        ensures
            final(self).wf(),
            final(self)@ == old(self)@.passed_over(service@),
            old(self)@.asks(action, service@, now),
    {
        match &mut self.phase {
            Phase::Stable => ReconcileAction::Done(Ok(ReconcileResult::Stable)),
            Phase::Asking { .. } | Phase::Verifying => ReconcileAction::QueryReferences,
            Phase::Evacuating => ReconcileAction::Evacuate,
            Phase::Verified { has_references } => match service.reconcile_state(&self.disk) {
                Err(error) => ReconcileAction::Done(Err(error)),
                Ok(actual) => ReconcileAction::Done(
                    finish_evacuation_transition(
                        &self.disk,
                        self.start,
                        &self.event,
                        actual,
                        *has_references,
                    ),
                ),
            },
            Phase::Operating { operation, action, finish } => match operation.next(service, now) {
                NextStep::Act(step) => ReconcileAction::Step(step),
                NextStep::Fail(error) => ReconcileAction::Done(Err(error)),
                NextStep::Complete => match service.reconcile_state(&self.disk) {
                    Err(error) => ReconcileAction::Done(Err(error)),
                    Ok(actual) => ReconcileAction::Done(
                        finish_transition(
                            &self.disk,
                            self.start,
                            &self.event,
                            *action,
                            *finish,
                            actual,
                        ),
                    ),
                },
            },
        }
    }

    /// Goes on with the outcome of what the round asked for.
    pub fn resume(&mut self, outcome: ReconcileOutcome, service: &mut MemberDiskService) -> (result:
        Result<StepFlow, MemberDiskServiceError>)
        requires
            old(self).wf(),
            old(service).wf(),
            old(self)@.fits(outcome, old(service)@),
        ensures
            final(self).wf(),
            final(service).wf(),
            result == old(self)@.flow(outcome),
            final(self)@ == old(self)@.resumed(outcome),
            final(service)@ == old(self)@.service_resumed(outcome, old(service)@),
            final(service).coordinator() == old(service).coordinator(),
    {
        match outcome {
            ReconcileOutcome::Step(step) => match &mut self.phase {
                Phase::Operating { operation, .. } => operation.resume(step, service),
                _ => Ok(StepFlow::Next),
            },
            ReconcileOutcome::References(Err(error)) => Err(MemberDiskServiceError::from(error)),
            ReconcileOutcome::Evacuated(Err(error)) => Err(MemberDiskServiceError::from(error)),
            ReconcileOutcome::References(Ok(found)) => {
                let asked = match &self.phase {
                    Phase::Asking { while_up } => Some(*while_up),
                    _ => None,
                };
                self.phase = match asked {
                    Some(true) => Self::phase_for(
                        &self.disk,
                        continue_shrink_while_up(self.start, found),
                    ),
                    Some(false) => Self::phase_for(
                        &self.disk,
                        continue_removal_while_down(self.start, found),
                    ),
                    None => Phase::Verified { has_references: found },
                };
                Ok(StepFlow::Next)
            },
            ReconcileOutcome::Evacuated(Ok(_)) => {
                self.phase = Phase::Verifying;
                Ok(StepFlow::Next)
            },
        }
    }
}

/// What is left to do in a state on behalf of an event, counted in transitions
/// other than evacuations.
pub open spec fn distance(state: ReconcileState, kind: EventKind) -> nat {
    match kind {
        EventKind::Online => match (state.member, state.shrinking) {
            (MemberDiskState::Removed, _) => 1,
            (MemberDiskState::UpActive, false) => 0,
            (_, false) => 1,
            (MemberDiskState::DownInactive, true) => 2,
            (MemberDiskState::UpActive, true) => 4,
            (_, true) => 3,
        },
        _ => {
            let recorded: nat = if kind == EventKind::Shrink && !state.shrinking {
                1
            } else {
                0
            };
            match state.member {
                MemberDiskState::Removed => 0,
                MemberDiskState::DownInactive => 1 + recorded,
                MemberDiskState::UpActive => 3 + recorded,
                _ => 2 + recorded,
            }
        },
    }
}

/// Every event is driven to its goal: a state is stable exactly when nothing is
/// left to do, and every transition that reaches its finish state leaves less
/// to do. Where the BG references decide, an evacuation leaves none of them, and
/// the transition without references leaves less to do.
pub proof fn law_every_transition_gets_closer(
    start: ReconcileState,
    event: MemberDiskEvent,
    window_ms: u64,
)
    ensures
        transition(start, event, window_ms) is Stable <==> distance(start, event.asks()) == 0,
        transition(start, event, window_ms) matches ChoiceView::Run { finish, .. } ==> distance(
            finish,
            event.asks(),
        ) < distance(start, event.asks()),
        transition(start, event, window_ms) matches ChoiceView::AskReferences { while_up } ==> {
            &&& transition_by_references(start, while_up, true) is Evacuate
            &&& transition_by_references(start, while_up, false) matches ChoiceView::Run {
                finish,
                ..
            }
            &&& distance(finish, event.asks()) < distance(start, event.asks())
        },
        !(transition(start, event, window_ms) is Evacuate),
{
}

/// Nothing is left to do exactly in the goal of an event: a disk that went down
/// or is shrunk is removed, one that came up serves IO and allocation without
/// an intent to shrink.
pub proof fn law_goals_of_events(state: ReconcileState, kind: EventKind)
    ensures
        kind == EventKind::Online ==> (distance(state, kind) == 0 <==> state == ReconcileState {
            member: MemberDiskState::UpActive,
            shrinking: false,
        }),
        kind != EventKind::Online ==> (distance(state, kind) == 0 <==> state.member
            == MemberDiskState::Removed),
{
}

/// The disk after the commits among some steps went through.
pub open spec fn committed(disk: MemberDiskView, steps: Seq<Step>) -> MemberDiskView
    decreases steps.len(),
{
    if steps.len() == 0 {
        disk
    } else {
        let before = committed(disk, steps.drop_last());
        match steps.last() {
            Step::Commit(update) => before.submitted(update),
            _ => before,
        }
    }
}

/// The steps of a transition lead to its declared finish state, unless the disk
/// refuses the change.
pub proof fn law_steps_reach_the_finish_state(
    disk: MemberDiskView,
    event: MemberDiskEvent,
    window_ms: u64,
    has_references: bool,
)
    requires
        disk.valid(),
    ensures
        ({
            let start = ReconcileState::of(disk);
            let choice = match transition(start, event, window_ms) {
                ChoiceView::AskReferences { while_up } => transition_by_references(
                    start,
                    while_up,
                    has_references,
                ),
                choice => choice,
            };
            choice matches ChoiceView::Run { steps, finish, .. } ==> ReconcileState::of(
                committed(disk, steps),
            ) == finish || (steps.last() == Step::Commit(MemberDiskUpdate::Remove) && disk.check(
                MemberDiskUpdate::Remove,
            ) is Err)
        }),
{
    let start = ReconcileState::of(disk);
    let choice = match transition(start, event, window_ms) {
        ChoiceView::AskReferences { while_up } => transition_by_references(
            start,
            while_up,
            has_references,
        ),
        choice => choice,
    };
    if let ChoiceView::Run { steps, finish, .. } = choice {
        reveal_with_fuel(committed, 4);
        let shorter = steps.drop_last();
        if steps.len() > 1 {
            assert(shorter.last() == steps[steps.len() - 2]);
            if steps.len() > 2 {
                assert(shorter.drop_last().last() == steps[steps.len() - 3]);
            }
        }
    }
}

/// The Shrink intent is kept: apart from a rejoin of a removed disk, no
/// transition drops it.
pub proof fn law_shrink_intent_is_kept(
    start: ReconcileState,
    event: MemberDiskEvent,
    window_ms: u64,
    has_references: bool,
)
    requires
        start.shrinking,
        start.member != MemberDiskState::Removed,
    ensures
        transition(start, event, window_ms) matches ChoiceView::Run { finish, .. }
            ==> finish.shrinking,
        transition(start, event, window_ms) matches ChoiceView::AskReferences { while_up } ==> (
        transition_by_references(start, while_up, has_references) matches ChoiceView::Run {
            finish,
            ..
        } ==> finish.shrinking),
{
}

/// A disk that is up and observed to be down is taken down first, whatever else
/// is under way and whatever the virtual disks say.
pub proof fn law_down_comes_first(start: ReconcileState, event: MemberDiskEvent, window_ms: u64)
    requires
        start.member == MemberDiskState::UpActive || start.member == MemberDiskState::UpInactive,
        event.asks() == EventKind::Offline,
    ensures
        transition(start, event, window_ms) matches ChoiceView::Run { steps, .. } && steps
            == down_steps(),
{
}

/// Whether the disk was opened and then published as UP before the step at `at`.
pub open spec fn opened_before(steps: Seq<Step>, at: int) -> bool {
    exists|opened: int, published: int|
        0 <= opened < published < at && #[trigger] steps[opened] == Step::OpenDisk
            && #[trigger] steps[published] == Step::PublishUp
}

/// Whether disk IO was stopped on the Pool nodes before the step at `at`.
pub open spec fn stopped_before(steps: Seq<Step>, at: int) -> bool {
    exists|stopped: int| 0 <= stopped < at && #[trigger] steps[stopped] == Step::BroadcastDown
}

/// Whether a choice opens and publishes a disk before it commits that the disk
/// serves again, and stops the IO of a disk before it commits that the disk is
/// down.
pub open spec fn nodes_come_first(choice: ChoiceView) -> bool {
    choice matches ChoiceView::Run { steps, .. } ==> forall|at: int|
        0 <= at < steps.len() ==> {
            &&& #[trigger] steps[at] == Step::Commit(MemberDiskUpdate::CompleteOnline)
                || steps[at] == Step::Commit(MemberDiskUpdate::Rejoin) ==> opened_before(steps, at)
            &&& steps[at] == Step::Commit(MemberDiskUpdate::ApplyDown) ==> stopped_before(steps, at)
        }
}

/// Whether a choice that leads from a disk that serves no IO to one that does
/// opens and publishes the disk before one of its commits, and whether one that
/// takes a member from UP to DOWN stops its IO before one of its commits.
pub open spec fn nodes_follow(choice: ChoiceView, disk: MemberDiskView) -> bool {
    choice matches ChoiceView::Run { steps, .. } ==> {
        let after = committed(disk, steps);
        let served = disk.io_state == DiskIoState::Up && disk.membership_state
            == MembershipState::Member;
        let serves = after.io_state == DiskIoState::Up && after.membership_state
            == MembershipState::Member;
        &&& !served && serves ==> exists|at: int|
            0 <= at < steps.len() && #[trigger] steps[at] is Commit && opened_before(steps, at)
        &&& served && !serves && after.membership_state == MembershipState::Member
            ==> exists|at: int|
            0 <= at < steps.len() && #[trigger] steps[at] is Commit && stopped_before(steps, at)
    }
}

proof fn lemma_online_steps_open_first(state: MemberDiskState)
    ensures
        opened_before(online_steps(state), 2),
{
    let steps = online_steps(state);
    assert(steps[0] == Step::OpenDisk);
    assert(steps[1] == Step::PublishUp);
}

proof fn lemma_down_steps_stop_first()
    ensures
        stopped_before(down_steps(), 1),
{
    assert(down_steps()[0] == Step::BroadcastDown);
}

proof fn lemma_nodes_follow(choice: ChoiceView, disk: MemberDiskView)
    requires
        nodes_come_first(choice),
        choice matches ChoiceView::Run { steps, .. } ==> {
            &&& 0 < steps.len() <= 3
            &&& steps.last() is Commit
            &&& forall|at: int|
                0 <= at < steps.len() - 1 ==> !(#[trigger] steps[at] is Commit)
        },
    ensures
        nodes_follow(choice, disk),
{
    if let ChoiceView::Run { steps, .. } = choice {
        let last = steps.len() - 1;
        assert(steps[last] == steps.last());
        reveal_with_fuel(committed, 4);
        let shorter = steps.drop_last();
        if steps.len() > 1 {
            assert(shorter.last() == steps[last - 1]);
            if steps.len() > 2 {
                assert(shorter.drop_last().last() == steps[last - 2]);
            }
        }
    }
}

/// A disk is opened on the Pool nodes and then published as UP before it is
/// committed to serve: whatever the state and the event, each commit of
/// `CompleteOnline` or `Rejoin` stands behind both, and steps that lead from a
/// disk that serves no IO to one that does hold both before a commit. In the
/// same way no disk is committed to be DOWN before its IO was stopped.
pub proof fn law_disk_is_opened_before_it_serves(
    start: ReconcileState,
    event: MemberDiskEvent,
    window_ms: u64,
    while_up: bool,
    has_references: bool,
    disk: MemberDiskView,
)
    ensures
        nodes_come_first(transition(start, event, window_ms)),
        nodes_come_first(transition_by_references(start, while_up, has_references)),
        nodes_follow(transition(start, event, window_ms), disk),
        nodes_follow(transition_by_references(start, while_up, has_references), disk),
{
    lemma_online_steps_open_first(start.member);
    lemma_down_steps_stop_first();
    assert(nodes_come_first(transition(start, event, window_ms)));
    assert(nodes_come_first(transition_by_references(start, while_up, has_references)));
    lemma_nodes_follow(transition(start, event, window_ms), disk);
    lemma_nodes_follow(transition_by_references(start, while_up, has_references), disk);
}

/// Whether a choice changes the metadata by exactly one commit, which is its
/// last step, and leaves the evacuation of BGs to a round of its own.
pub open spec fn commits_once(choice: ChoiceView) -> bool {
    choice matches ChoiceView::Run { steps, .. } ==> {
        &&& steps.len() > 0
        &&& forall|at: int|
            0 <= at < steps.len() ==> (#[trigger] steps[at] is Commit <==> at == steps.len() - 1)
        &&& forall|at: int| 0 <= at < steps.len() ==> !(#[trigger] steps[at] is Evacuate)
    }
}

/// Every transition makes one change to the metadata, after all its outside
/// work.
pub proof fn law_transition_commits_once(
    start: ReconcileState,
    event: MemberDiskEvent,
    window_ms: u64,
    while_up: bool,
    has_references: bool,
)
    ensures
        commits_once(transition(start, event, window_ms)),
        commits_once(transition_by_references(start, while_up, has_references)),
{
}

/// A disk that is observed down loses its IO first and keeps its allocation
/// state and its intent to shrink. A member that is down already keeps its
/// allocation for the recovery window, counted from the observation, unless it
/// shrinks; after that its BG references decide. A removed disk stays removed.
pub proof fn law_observed_down(
    start: ReconcileState,
    disk: DiskUuid,
    observed_at: EpochMillis,
    window_ms: u64,
)
    ensures
        ({
            let event = MemberDiskEvent::PhysicalChanged {
                disk,
                state: PhysicalState::Down,
                observed_at,
            };
            let choice = transition(start, event, window_ms);
            &&& start.member is Removed <==> choice is Stable
            &&& start.member is UpActive || start.member is UpInactive ==> {
                &&& choice matches ChoiceView::Run { steps, finish, .. }
                &&& steps.len() == 2
                &&& steps[0] == Step::BroadcastDown
                &&& steps[1] == Step::Commit(MemberDiskUpdate::ApplyDown)
                &&& finish.shrinking == start.shrinking
                &&& start.member is UpActive ==> finish.member is DownActive
                &&& start.member is UpInactive ==> finish.member is DownInactive
            }
            &&& start.member is DownActive ==> {
                &&& choice matches ChoiceView::Run { steps, finish, .. }
                &&& steps.last() == Step::Commit(MemberDiskUpdate::DisableAllocation)
                &&& finish.member is DownInactive
                &&& finish.shrinking == start.shrinking
                &&& start.shrinking ==> steps.len() == 1
                &&& !start.shrinking ==> {
                    &&& steps.len() == 2
                    &&& steps[0] matches Step::WaitUntil { deadline_ms }
                    &&& deadline_ms <= observed_at@ + window_ms
                    &&& deadline_ms < u64::MAX ==> deadline_ms == observed_at@ + window_ms
                }
            }
            &&& start.member is DownInactive ==> choice == (ChoiceView::AskReferences {
                while_up: false,
            })
        }),
{
}

/// A disk that is observed up comes back as an active member without an intent
/// to shrink: a removed one rejoins, one that is not up and active is completed,
/// and one that is stays as it is. While a member shrinks, the observation does
/// exactly what the request to shrink does.
pub proof fn law_observed_up(
    start: ReconcileState,
    disk: DiskUuid,
    observed_at: EpochMillis,
    window_ms: u64,
)
    ensures
        ({
            let event = MemberDiskEvent::PhysicalChanged {
                disk,
                state: PhysicalState::Up,
                observed_at,
            };
            let choice = transition(start, event, window_ms);
            &&& choice is Stable <==> start.member is UpActive && !start.shrinking
            &&& start.member is Removed || (!start.shrinking && !(start.member is UpActive)) ==> {
                &&& choice matches ChoiceView::Run { steps, finish, .. }
                &&& finish.member is UpActive
                &&& !finish.shrinking
                &&& start.member is Removed ==> steps.last() == Step::Commit(
                    MemberDiskUpdate::Rejoin,
                )
                &&& !(start.member is Removed) ==> steps.last() == Step::Commit(
                    MemberDiskUpdate::CompleteOnline,
                )
                &&& steps.len() == 3
                &&& steps[0] == Step::OpenDisk
                &&& steps[1] == Step::PublishUp
            }
            &&& start.shrinking && !(start.member is Removed) ==> choice == transition(
                start,
                MemberDiskEvent::Shrink { disk },
                window_ms,
            )
        }),
{
}

/// A request to shrink is recorded before anything else and changes nothing but
/// the intent. After that allocation stops, whatever the IO state, and once it
/// has stopped the BG references decide. A removed disk has nothing to shrink.
pub proof fn law_shrink_is_recorded_first(start: ReconcileState, disk: DiskUuid, window_ms: u64)
    ensures
        ({
            let choice = transition(start, MemberDiskEvent::Shrink { disk }, window_ms);
            &&& start.member is Removed <==> choice is Stable
            &&& !(start.member is Removed) && !start.shrinking ==> {
                &&& choice matches ChoiceView::Run { steps, finish, .. }
                &&& steps.len() == 1
                &&& steps[0] == Step::Commit(MemberDiskUpdate::RequestShrink)
                &&& finish.member == start.member
                &&& finish.shrinking
            }
            &&& start.shrinking && (start.member is UpActive || start.member is DownActive) ==> {
                &&& choice matches ChoiceView::Run { steps, finish, .. }
                &&& steps.len() == 1
                &&& steps[0] == Step::Commit(MemberDiskUpdate::DisableAllocation)
                &&& finish.shrinking
                &&& start.member is UpActive ==> finish.member is UpInactive
                &&& start.member is DownActive ==> finish.member is DownInactive
            }
            &&& start.shrinking && start.member is UpInactive ==> choice == (
            ChoiceView::AskReferences { while_up: true })
            &&& start.shrinking && start.member is DownInactive ==> choice == (
            ChoiceView::AskReferences { while_up: false })
        }),
{
}

/// BGs on a disk are moved off it, whatever its state. Without any, a disk that
/// is up goes down and one that is down leaves the Pool; neither drops the
/// intent to shrink.
pub proof fn law_references_are_moved_first(
    start: ReconcileState,
    while_up: bool,
    has_references: bool,
)
    ensures
        ({
            let choice = transition_by_references(start, while_up, has_references);
            &&& has_references <==> choice is Evacuate
            &&& !has_references ==> {
                &&& choice matches ChoiceView::Run { steps, finish, .. }
                &&& finish.shrinking == start.shrinking
                &&& while_up ==> {
                    &&& steps.len() == 2
                    &&& steps[0] == Step::BroadcastDown
                    &&& steps[1] == Step::Commit(MemberDiskUpdate::ApplyDown)
                    &&& finish.member is DownInactive
                }
                &&& !while_up ==> {
                    &&& steps.len() == 1
                    &&& steps[0] == Step::Commit(MemberDiskUpdate::Remove)
                    &&& finish.member is Removed
                }
            }
        }),
{
}

/// Only the recovery window of a member that is down and active rests on the
/// time of the observation and on the length of the window. Everything else is
/// the same for every disk, time and window.
pub proof fn law_only_recovery_rests_on_time(
    start: ReconcileState,
    state: PhysicalState,
    disk: DiskUuid,
    other: DiskUuid,
    observed_at: EpochMillis,
    later: EpochMillis,
    window_ms: u64,
    other_ms: u64,
)
    ensures
        transition(start, MemberDiskEvent::Shrink { disk }, window_ms) == transition(
            start,
            MemberDiskEvent::Shrink { disk: other },
            other_ms,
        ),
        !(start.member is DownActive && !start.shrinking && state is Down) ==> transition(
            start,
            (MemberDiskEvent::PhysicalChanged { disk, state, observed_at }),
            window_ms,
        ) == transition(
            start,
            (MemberDiskEvent::PhysicalChanged { disk: other, state, observed_at: later }),
            other_ms,
        ),
        observed_at@ + window_ms == later@ + other_ms ==> transition(
            start,
            (MemberDiskEvent::PhysicalChanged { disk, state, observed_at }),
            window_ms,
        ) == transition(
            start,
            (MemberDiskEvent::PhysicalChanged { disk: other, state, observed_at: later }),
            other_ms,
        ),
{
}

/// Whether a choice carries the name of the change that it commits.
pub open spec fn named_after_its_change(choice: ChoiceView) -> bool {
    choice matches ChoiceView::Run { steps, action, .. } ==> match steps.last() {
        Step::Commit(MemberDiskUpdate::RequestShrink) => action@ == "record Shrink intent"@,
        Step::Commit(MemberDiskUpdate::ApplyDown) => action@ == "set disk DOWN"@,
        Step::Commit(MemberDiskUpdate::CompleteOnline) => action@ == "open and publish disk UP"@,
        Step::Commit(MemberDiskUpdate::DisableAllocation) => action@ == if steps.len() == 1 {
            "disable allocation"@
        } else {
            "wait recovery window and disable allocation"@
        },
        Step::Commit(MemberDiskUpdate::Remove) => action@ == "remove MemberDisk"@,
        Step::Commit(MemberDiskUpdate::Rejoin) => action@ == "rejoin, open and publish disk UP"@,
        _ => false,
    }
}

/// A transition is reported under the name of the change that it commits.
pub proof fn law_transition_is_named_after_its_change(
    start: ReconcileState,
    event: MemberDiskEvent,
    window_ms: u64,
    while_up: bool,
    has_references: bool,
)
    ensures
        named_after_its_change(transition(start, event, window_ms)),
        named_after_its_change(transition_by_references(start, while_up, has_references)),
{
}

/// Whether a disk is in a state, read off its IO state, its allocation state,
/// its membership and its intent to shrink.
pub open spec fn is_in(disk: MemberDiskView, state: ReconcileState) -> bool {
    &&& disk.shrink_requested == state.shrinking
    &&& state.member is Removed <==> disk.membership_state == MembershipState::Removed
    &&& state.member is UpActive || state.member is UpInactive ==> disk.io_state == DiskIoState::Up
    &&& state.member is DownActive || state.member is DownInactive ==> disk.io_state
        == DiskIoState::Down
    &&& state.member is UpActive || state.member is DownActive ==> disk.allocation_state
        == AllocationState::Active
    &&& state.member is UpInactive || state.member is DownInactive ==> disk.allocation_state
        == AllocationState::Inactive
}

/// The committed state of a disk is read off the disk itself, and only a disk
/// that the service does not know has none.
pub proof fn law_state_is_read_off_the_disk(
    service: MemberDiskServiceView,
    disk: DiskUuid,
    state: ReconcileState,
)
    ensures
        service.state_of(disk) == Ok::<ReconcileState, MemberDiskServiceError>(state) <==> (
        service.disks.contains_key(disk@) && is_in(service.disks[disk@], state)),
        service.state_of(disk) is Err <==> !service.disks.contains_key(disk@),
        !service.disks.contains_key(disk@) ==> service.state_of(disk) == Err::<ReconcileState, _>(
            MemberDiskServiceError::UnknownDisk(disk),
        ),
        forall|member: MemberDiskView| #[trigger]
            is_in(member, state) <==> ReconcileState::of(member) == state,
{
}

/// A round reports a transition only when the disk is in the declared state: an
/// operation that has nothing left to do has reached its finish state, and an
/// evacuation has left the disk as it was and without BG references. It reports
/// a stable state only where nothing was to be done.
pub proof fn law_round_reports_what_was_reached(
    round: ReconciliationView,
    action: ReconcileAction,
    service: MemberDiskServiceView,
    now: u64,
)
    requires
        round.asks(action, service, now),
    ensures
        action == ReconcileAction::Done(Ok(ReconcileResult::Stable)) <==> round.phase is Stable,
        action matches ReconcileAction::Done(Ok(ReconcileResult::Transitioned { action: name }))
            ==> {
            &&& service.disks.contains_key(round.disk@)
            &&& match round.phase {
                PhaseView::Operating { rest, action: declared, finish } => {
                    &&& name == declared
                    &&& is_in(service.disks[round.disk@], finish)
                    &&& forall|at: int|
                        0 <= at < rest.len() ==> changes_nothing(
                            #[trigger] rest[at],
                            service.disks[round.disk@],
                        )
                },
                PhaseView::Verified { has_references } => {
                    &&& name@ == "evacuate BG references"@
                    &&& is_in(service.disks[round.disk@], round.start)
                    &&& !has_references
                },
                _ => false,
            }
        },
{
    law_state_is_read_off_the_disk(service, round.disk, round.start);
    if let PhaseView::Operating { rest, finish, .. } = round.phase {
        law_state_is_read_off_the_disk(service, round.disk, finish);
        if service.disks.contains_key(round.disk@) {
            let disk = service.disks[round.disk@];
            assert(ReconcileState::of(disk) == finish <==> is_in(disk, finish));
            super::operations::law_only_idle_commits_are_passed_over(rest, disk);
        }
    }
}

/// A transition that was carried out is reported as such, and one that left the
/// disk in another state than the declared one is reported as incomplete. A disk
/// that the service does not know ends the round.
pub proof fn law_round_ends_once_nothing_is_left(
    round: ReconciliationView,
    action: ReconcileAction,
    service: MemberDiskServiceView,
    now: u64,
)
    requires
        round.asks(action, service, now),
    ensures
        match round.phase {
            PhaseView::Operating { rest, action: declared, finish } => {
                &&& !service.disks.contains_key(round.disk@) ==> action == ReconcileAction::Done(
                    Err(MemberDiskServiceError::UnknownDisk(round.disk)),
                )
                &&& service.disks.contains_key(round.disk@) && (forall|at: int|
                    0 <= at < rest.len() ==> changes_nothing(
                        #[trigger] rest[at],
                        service.disks[round.disk@],
                    )) ==> if is_in(service.disks[round.disk@], finish) {
                    action == ReconcileAction::Done(
                        Ok(ReconcileResult::Transitioned { action: declared }),
                    )
                } else {
                    action matches ReconcileAction::Done(
                        Err(MemberDiskServiceError::TransitionIncomplete(_)),
                    )
                }
            },
            PhaseView::Verified { has_references } => {
                &&& !service.disks.contains_key(round.disk@) ==> action == ReconcileAction::Done(
                    Err(MemberDiskServiceError::UnknownDisk(round.disk)),
                )
                &&& service.disks.contains_key(round.disk@) ==> if is_in(
                    service.disks[round.disk@],
                    round.start,
                ) && !has_references {
                    action matches ReconcileAction::Done(Ok(ReconcileResult::Transitioned { .. }))
                } else {
                    action matches ReconcileAction::Done(
                        Err(MemberDiskServiceError::TransitionIncomplete(_)),
                    )
                }
            },
            PhaseView::Stable => action == ReconcileAction::Done(Ok(ReconcileResult::Stable)),
            PhaseView::Asking { .. } | PhaseView::Verifying => action is QueryReferences,
            PhaseView::Evacuating => action is Evacuate,
        },
{
    law_state_is_read_off_the_disk(service, round.disk, round.start);
    if let PhaseView::Operating { rest, finish, .. } = round.phase {
        law_state_is_read_off_the_disk(service, round.disk, finish);
        super::operations::law_operation_goes_on_with_the_first_step_that_counts(
            rest,
            round.disk,
            service,
            now,
            0,
        );
        if service.disks.contains_key(round.disk@) {
            let disk = service.disks[round.disk@];
            assert(ReconcileState::of(disk) == finish <==> is_in(disk, finish));
        }
    }
}

/// An evacuation counts only once the virtual disks were asked again: its
/// success leads to a question for BG references, whose answer is what the round
/// is judged by. Where the references decide, any of them leads to an
/// evacuation; without any, a disk that is up goes down and one that is down is
/// removed.
pub proof fn law_evacuation_is_verified(round: ReconciliationView, found: bool)
    ensures
        round.phase is Evacuating ==> round.resumed(ReconcileOutcome::Evacuated(Ok(()))).phase
            is Verifying,
        round.phase is Verifying ==> round.resumed(ReconcileOutcome::References(Ok(found))).phase
            == (PhaseView::Verified { has_references: found }),
        round.phase matches PhaseView::Asking { while_up } ==> {
            let after = round.resumed(ReconcileOutcome::References(Ok(found))).phase;
            &&& found <==> after is Evacuating
            &&& !found ==> {
                &&& after matches PhaseView::Operating { rest, finish, .. }
                &&& rest.last() == Step::Commit(
                    if while_up {
                        MemberDiskUpdate::ApplyDown
                    } else {
                        MemberDiskUpdate::Remove
                    },
                )
                &&& while_up ==> rest.len() == 2 && rest[0] == Step::BroadcastDown
                    && finish.member is DownInactive
                &&& !while_up ==> rest.len() == 1 && finish.member is Removed
                &&& finish.shrinking == round.start.shrinking
            }
        },
{
}

/// Whatever came of its work, a round stays with its disk, its event and the
/// state that it began in. An operation moves on by one step when the step is
/// done and stands still otherwise; a question or an evacuation that failed
/// leaves the round as it was and ends it with the error.
pub proof fn law_round_moves_on_step_by_step(
    round: ReconciliationView,
    outcome: ReconcileOutcome,
    service: MemberDiskServiceView,
    error: VirtualDiskError,
)
    requires
        round.fits(outcome, service),
    ensures
        ({
            let after = round.resumed(outcome);
            let flow = round.flow(outcome);
            &&& after.disk == round.disk
            &&& after.event == round.event
            &&& after.start == round.start
            &&& !(flow matches Ok(StepFlow::Next)) ==> after == round
            &&& round.phase matches PhaseView::Operating { rest, action, finish } ==> {
                &&& outcome matches ReconcileOutcome::Step(step)
                &&& flow == flow_after(rest[0], step)
                &&& flow matches Ok(StepFlow::Next) ==> after.phase == (PhaseView::Operating {
                    rest: rest.skip(1),
                    action,
                    finish,
                })
                &&& round.service_resumed(outcome, service) == service_after(
                    service,
                    round.disk@,
                    rest[0],
                    step,
                )
            }
            &&& !(round.phase is Operating) ==> round.service_resumed(outcome, service) == service
            &&& outcome == ReconcileOutcome::References(Err(error)) || outcome
                == ReconcileOutcome::Evacuated(Err(error)) ==> flow == Err::<StepFlow, _>(
                if error is Cancelled {
                    MemberDiskServiceError::Cancelled
                } else {
                    MemberDiskServiceError::VirtualDisk(error)
                },
            )
            &&& (outcome matches ReconcileOutcome::References(Ok(_))) ==> (flow matches Ok(StepFlow::Next))
            &&& (outcome matches ReconcileOutcome::Evacuated(Ok(_))) ==> (flow matches Ok(StepFlow::Next))
        }),
{
}

/// A round takes the outcome of what it asked for and no other.
pub proof fn law_outcomes_belong_to_their_round(
    round: ReconciliationView,
    action: ReconcileAction,
    outcome: ReconcileOutcome,
    service: MemberDiskServiceView,
    now: u64,
)
    requires
        round.asks(action, service, now),
        round.passed_over(service).fits(outcome, service),
    ensures
        match action {
            ReconcileAction::Step(StepAction::Broadcast { .. }) => outcome matches
                ReconcileOutcome::Step(StepOutcome::Broadcast(_)),
            ReconcileAction::Step(StepAction::Sleep { .. }) => outcome matches
                ReconcileOutcome::Step(step) && (step is Slept || step is Interrupted),
            ReconcileAction::Step(StepAction::Evacuate) => outcome matches ReconcileOutcome::Step(
                StepOutcome::Evacuated(_),
            ),
            ReconcileAction::Step(StepAction::CommitMetadata { .. }) => outcome matches
                ReconcileOutcome::Step(StepOutcome::Committed(_)),
            ReconcileAction::QueryReferences => outcome is References,
            ReconcileAction::Evacuate => outcome is Evacuated,
            ReconcileAction::Done(result) => result is Err,
        },
{
}

/// A round begins with its choice as it is: an operation with all its steps, a
/// question about references, an evacuation, or nothing. Commits that change
/// nothing are passed over and nothing else is.
pub proof fn law_round_begins_with_its_choice(
    choice: ChoiceView,
    round: ReconciliationView,
    service: MemberDiskServiceView,
)
    ensures
        match choice {
            ChoiceView::Stable => phase_of(choice) is Stable,
            ChoiceView::Run { steps, action, finish } => {
                &&& phase_of(choice) matches PhaseView::Operating {
                    rest,
                    action: named,
                    finish: declared,
                }
                &&& rest == steps
                &&& named == action
                &&& declared == finish
            },
            ChoiceView::AskReferences { while_up } => {
                &&& phase_of(choice) matches PhaseView::Asking { while_up: asked }
                &&& asked == while_up
            },
            ChoiceView::Evacuate => phase_of(choice) is Evacuating,
        },
        !(round.phase is Operating) ==> round.passed_over(service) == round,
        round.phase matches PhaseView::Operating { rest, action, finish } ==> {
            &&& round.passed_over(service).phase matches PhaseView::Operating {
                rest: left,
                action: named,
                finish: declared,
            }
            &&& left == steps_left(rest, round.disk, service)
            &&& named == action
            &&& declared == finish
        },
        round.passed_over(service).disk == round.disk,
        round.passed_over(service).event == round.event,
        round.passed_over(service).start == round.start,
{
}

/// A disk that is down and inactive and is observed up is opened, then published
/// as UP, then committed, unless it shrinks; a round that finds such a disk
/// selects this and nothing shorter. In every state a round selects what the
/// state table says.
pub proof fn law_round_selects_by_the_table(
    event: MemberDiskEvent,
    start: ReconcileState,
    window_ms: u64,
    choice: Choice,
    observed_at: EpochMillis,
    disk: DiskUuid,
)
    requires
        call_ensures(reconcile_choice, (&event, start, window_ms), choice),
    ensures
        choice@ == transition(start, event, window_ms),
        start.member is DownInactive && !start.shrinking && event
            == (MemberDiskEvent::PhysicalChanged { disk, state: PhysicalState::Up, observed_at })
            ==> {
            &&& choice matches Choice::Run { steps, finish, .. }
            &&& steps@ == seq![
                Step::OpenDisk,
                Step::PublishUp,
                Step::Commit(MemberDiskUpdate::CompleteOnline),
            ]
            &&& finish.member is UpActive
        },
{
}

/// Once the BG references are known, a disk with any is evacuated, a disk without
/// goes down where it is up and is removed where it is down.
pub proof fn law_round_continues_by_the_references(
    start: ReconcileState,
    has_references: bool,
    up: Choice,
    down: Choice,
)
    requires
        call_ensures(continue_shrink_while_up, (start, has_references), up),
        call_ensures(continue_removal_while_down, (start, has_references), down),
    ensures
        up is Evacuate <==> has_references,
        down is Evacuate <==> has_references,
        up matches Choice::Run { steps, finish, .. } ==> steps@ == seq![
            Step::BroadcastDown,
            Step::Commit(MemberDiskUpdate::ApplyDown),
        ] && finish.member is DownInactive,
        down matches Choice::Run { steps, finish, .. } ==> steps@ == seq![
            Step::Commit(MemberDiskUpdate::Remove),
        ] && finish.member is Removed,
{
}

/// A transition is done exactly when the disk is in the declared state, and an
/// evacuation exactly when the disk is as it was and no BG refers to it.
pub proof fn law_transition_is_done_in_its_finish_state(
    disk: DiskUuid,
    start: ReconcileState,
    event: MemberDiskEvent,
    action_name: &'static str,
    finish: ReconcileState,
    actual: ReconcileState,
    result: Result<ReconcileResult, MemberDiskServiceError>,
    has_references: bool,
    evacuated: Result<ReconcileResult, MemberDiskServiceError>,
)
    requires
        call_ensures(
            finish_transition,
            (&disk, start, &event, action_name, finish, actual),
            result,
        ),
        call_ensures(
            finish_evacuation_transition,
            (&disk, start, &event, actual, has_references),
            evacuated,
        ),
    ensures
        result is Ok <==> actual == finish,
        result matches Ok(done) ==> done == (ReconcileResult::Transitioned { action: action_name }),
        result matches Err(error) ==> error is TransitionIncomplete,
        evacuated is Ok <==> actual == start && !has_references,
        evacuated matches Ok(done) ==> done is Transitioned,
        evacuated matches Err(error) ==> error is TransitionIncomplete,
{
}

/// A state, an event and an incomplete transition are written out with all their
/// parts: the declared state before the one that was found.
pub proof fn law_incomplete_transition_is_written_out(
    disk: Seq<char>,
    start: ReconcileState,
    event: MemberDiskEvent,
    action: Seq<char>,
    finish: ReconcileState,
    actual: ReconcileState,
    has_references: bool,
)
    ensures
        start.shrinking ==> start.text() == "ReconcileState { member: "@ + start.member.name_text()
            + ", shrinking: "@ + "true"@ + " }"@,
        !start.shrinking ==> start.text() == "ReconcileState { member: "@ + start.member.name_text()
            + ", shrinking: "@ + "false"@ + " }"@,
        event matches MemberDiskEvent::Shrink { disk: subject } ==> event_text(event)
            == "Shrink { disk: DiskUuid("@ + quoted_text(subject@) + ") }"@,
        event matches MemberDiskEvent::PhysicalChanged { disk: subject, state, observed_at }
            ==> event_text(event) == "PhysicalChanged { disk: DiskUuid("@ + quoted_text(subject@)
            + "), state: "@ + (if state is Up {
            "Up"@
        } else {
            "Down"@
        }) + ", observed_at: EpochMillis("@ + decimal_text(observed_at@ as nat) + ") }"@,
        incomplete_text(disk, start, event, action, finish, actual) == "MemberDisk "@ + disk + ": "@
            + start.text() + " --"@ + event_text(event) + " / "@ + action + "--> expected "@
            + finish.text() + ", got "@ + actual.text(),
        has_references ==> unevacuated_text(disk, start, event, actual, has_references)
            == "MemberDisk "@ + disk + ": "@ + start.text() + " --"@ + event_text(event)
            + " / evacuate BG references--> expected "@ + start.text()
            + " with no VDM references, got "@ + actual.text() + " with has_bg_references="@
            + "true"@,
        !has_references ==> unevacuated_text(disk, start, event, actual, has_references)
            == "MemberDisk "@ + disk + ": "@ + start.text() + " --"@ + event_text(event)
            + " / evacuate BG references--> expected "@ + start.text()
            + " with no VDM references, got "@ + actual.text() + " with has_bg_references="@
            + "false"@,
{
}

/// A round begins on the disk of its event, in the state that is committed, with
/// what the state table selects there. A disk that the service does not know has
/// no round.
pub proof fn law_round_begins_in_the_committed_state(
    event: MemberDiskEvent,
    service: MemberDiskService,
    result: Result<Reconciliation, MemberDiskServiceError>,
)
    requires
        call_ensures(Reconciliation::reconcile_once, (&event, &service), result),
    ensures
        result is Ok <==> service@.disks.contains_key(event.subject()@),
        result matches Err(error) ==> error == MemberDiskServiceError::UnknownDisk(event.subject()),
        result matches Ok(round) ==> {
            &&& round@.disk == event.subject()
            &&& round@.event == event
            &&& is_in(service@.disks[event.subject()@], round@.start)
            &&& round@.phase == phase_of(
                transition(round@.start, event, service@.recovery_window_ms),
            )
        },
{
    if let Ok(round) = result {
        law_state_is_read_off_the_disk(service@, event.subject(), round@.start);
    }
}

/// A round asks for what its phase says, takes the outcome of it, and changes the
/// service only by a change that SDB committed on its own disk.
pub proof fn law_round_changes_only_its_disk(
    asking: &mut Reconciliation,
    service: MemberDiskService,
    now: u64,
    action: ReconcileAction,
    resuming: &mut Reconciliation,
    outcome: ReconcileOutcome,
    changing: &mut MemberDiskService,
    result: Result<StepFlow, MemberDiskServiceError>,
    other: Seq<char>,
)
    requires
        call_ensures(Reconciliation::next, (asking, &service, now), action),
        old(resuming)@.fits(outcome, old(changing)@),
        call_ensures(Reconciliation::resume, (resuming, outcome, changing), result),
    ensures
        old(asking)@.asks(action, service@, now),
        final(asking)@ == old(asking)@.passed_over(service@),
        result == old(resuming)@.flow(outcome),
        final(resuming)@ == old(resuming)@.resumed(outcome),
        final(changing)@.tasks == old(changing)@.tasks,
        other != old(resuming)@.disk@ && old(changing)@.disks.contains_key(other) ==> final(changing)@.disks[other] == old(changing)@.disks[other],
        !(outcome matches ReconcileOutcome::Step(StepOutcome::Committed(Ok(_)))) ==> final(changing)@ == old(changing)@,
{
}

/// In each state the selection is that of the state table, for every event.
pub proof fn law_every_state_selects_by_the_table(
    event: MemberDiskEvent,
    shrinking: bool,
    window_ms: u64,
    up_active: Choice,
    up_inactive: Choice,
    down_active: Choice,
    down_inactive: Choice,
    removed: Choice,
)
    requires
        call_ensures(
            reconcile_up_active,
            (&event, (ReconcileState { member: MemberDiskState::UpActive, shrinking })),
            up_active,
        ),
        call_ensures(
            reconcile_up_inactive,
            (&event, (ReconcileState { member: MemberDiskState::UpInactive, shrinking })),
            up_inactive,
        ),
        call_ensures(
            reconcile_down_active,
            (
                &event,
                (ReconcileState { member: MemberDiskState::DownActive, shrinking }),
                window_ms,
            ),
            down_active,
        ),
        call_ensures(
            reconcile_down_inactive,
            (&event, (ReconcileState { member: MemberDiskState::DownInactive, shrinking })),
            down_inactive,
        ),
        call_ensures(
            reconcile_removed,
            (&event, (ReconcileState { member: MemberDiskState::Removed, shrinking })),
            removed,
        ),
    ensures
        up_active@ == transition(
            (ReconcileState { member: MemberDiskState::UpActive, shrinking }),
            event,
            window_ms,
        ),
        up_inactive@ == transition(
            (ReconcileState { member: MemberDiskState::UpInactive, shrinking }),
            event,
            window_ms,
        ),
        down_active@ == transition(
            (ReconcileState { member: MemberDiskState::DownActive, shrinking }),
            event,
            window_ms,
        ),
        down_inactive@ == transition(
            (ReconcileState { member: MemberDiskState::DownInactive, shrinking }),
            event,
            window_ms,
        ),
        removed@ == transition(
            (ReconcileState { member: MemberDiskState::Removed, shrinking }),
            event,
            window_ms,
        ),
{
}

/// A disk is found in its committed state exactly when the service knows it, and a
/// round waits for SDB exactly while its next step is a commit.
pub proof fn law_committed_state_is_reported(
    service: MemberDiskService,
    disk: DiskUuid,
    result: Result<ReconcileState, MemberDiskServiceError>,
    round: Reconciliation,
    commits: bool,
)
    requires
        call_ensures(MemberDiskService::reconcile_state, (&service, &disk), result),
        call_ensures(Reconciliation::commits_next, (&round,), commits),
    ensures
        result is Ok <==> service@.disks.contains_key(disk@),
        result matches Ok(state) ==> is_in(service@.disks[disk@], state),
        result matches Err(error) ==> error == MemberDiskServiceError::UnknownDisk(disk),
        commits <==> (round@.phase matches PhaseView::Operating { rest, .. } && rest.len() > 0
            && rest.first() is Commit),
{
    if let Ok(state) = result {
        law_state_is_read_off_the_disk(service@, disk, state);
    }
}

} // verus!
