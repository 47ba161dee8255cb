//! What the demo services do with their messages.
use super::protocol::{
    BgId, BgSnapshot, BgWorkflowFinished, CancelBgRebuild, DemoError, DiskId, DiskOfflineRequest,
    DoBgRebuild, OfflineDispatched, QueryBg, RebuildResult, RebuildStatus, TaskOutcome,
};
use super::state::{BgBackend, BgHistoryView};
use crate::outside::delivered_as;
use crate::protocol::{CancelReason, RuntimeError, TaskKey};
use crate::task::context::{TaskMeta, TaskMetaView, TaskVisibility};
use crate::text::joined;
use tokio::sync::oneshot;
use vstd::prelude::*;

verus! {

/// The key of the task that dispatches an offline disk.
pub open spec fn offline_key(disk: Seq<char>) -> Seq<char> {
    "dispatch/disk-offline/"@ + disk
}

/// The key of the task that dispatches an offline disk.
pub fn disk_offline_key(disk: &DiskId) -> (key: TaskKey)
    ensures
        key@ == offline_key(disk@),
{
    TaskKey::new(joined("dispatch/disk-offline/", disk.as_str()).as_str())
}

/// A reply that was given: what it says, and whether it arrived.
pub struct Answer<T> {
    pub value: T,
    pub delivered: bool,
}

/// Gives a reply and hands out a copy of it.
fn answer<T>(reply: oneshot::Sender<T>, value: T, copy: T) -> (answer: Answer<T>)
    ensures
        delivered_as(reply, value, answer.delivered),
        answer.value == copy,
{
    let delivered = match reply.send(value) {
        Ok(_) => true,
        Err(_) => false,
    };
    Answer { value: copy, delivered }
}

/// Work to be done in the background for a disk.
pub struct DispatchStart {
    pub meta: TaskMeta,
    pub disk: DiskId,
    pub completed: oneshot::Sender<RebuildResult>,
}

/// What became of a disk that went offline.
pub enum OfflineHandling {
    /// It is being dispatched already.
    Refused(Answer<RebuildResult>),
    /// A task dispatches it.
    Start(DispatchStart),
}

/// Handles a disk that went offline, given whether it is being dispatched
/// already: that is answered at once, otherwise a task dispatches it.
pub fn handle_disk_offline(request: DiskOfflineRequest, running: bool) -> (handling:
    OfflineHandling)
    ensures
        match handling {
            OfflineHandling::Refused(answer) => {
                &&& running
                &&& answer.value == Err::<RebuildStatus, _>(
                    DemoError::AlreadyRebuilding(request.disk),
                )
                &&& delivered_as(request.completed, answer.value, answer.delivered)
            },
            OfflineHandling::Start(start) => {
                &&& !running
                &&& start.disk == request.disk
                &&& start.completed == request.completed
                &&& start.meta@ == TaskMetaView {
                    key: offline_key(request.disk@),
                    label: "dispatch disk offline: "@ + request.disk@,
                    visibility: TaskVisibility::Internal,
                }
            },
        },
{
    if running {
        let value = Err(DemoError::AlreadyRebuilding(request.disk.clone()));
        let copy = Err(DemoError::AlreadyRebuilding(request.disk));
        return OfflineHandling::Refused(answer(request.completed, value, copy));
    }
    let label = joined("dispatch disk offline: ", request.disk.as_str());
    let meta = TaskMeta::new(disk_offline_key(&request.disk), label.as_str());
    OfflineHandling::Start(
        DispatchStart { meta, disk: request.disk, completed: request.completed },
    )
}

/// Whether `result` is what the end of a dispatch comes to.
pub open spec fn dispatch_result(
    outcome: TaskOutcome<RebuildResult>,
    result: RebuildResult,
) -> bool {
    match outcome {
        TaskOutcome::Completed(reply) => result == reply,
        TaskOutcome::Failed(error) => result matches Err(failed) && failed.is_runtime(
            error.message(),
        ),
        TaskOutcome::Cancelled(_) => result matches Err(DemoError::Cancelled),
    }
}

/// Tells what the end of a dispatch comes to.
pub fn resolve_dispatch(outcome: TaskOutcome<RebuildResult>) -> (result: RebuildResult)
    ensures
        dispatch_result(outcome, result),
{
    match outcome {
        TaskOutcome::Completed(result) => result,
        TaskOutcome::Failed(error) => Err(DemoError::Runtime(error.to_string())),
        TaskOutcome::Cancelled(_) => Err(DemoError::Cancelled),
    }
}

/// Copies a result.
fn copy_result<T: Copy>(result: &Result<T, DemoError>) -> (copy: Result<T, DemoError>)
    ensures
        copy == *result,
{
    match result {
        Ok(value) => Ok(*value),
        Err(error) => Err(error.clone()),
    }
}

/// Handles the end of a dispatch: whoever reported the disk learns the result.
pub fn handle_offline_dispatched(event: OfflineDispatched) -> (answered: Answer<RebuildResult>)
    ensures
        dispatch_result(event.outcome, answered.value),
        delivered_as(event.completed, answered.value, answered.delivered),
{
    let value = resolve_dispatch(event.outcome);
    let copy = copy_result(&value);
    answer(event.completed, value, copy)
}

/// What the completion of a dispatched rebuild brought: the result, or that the
/// rebuild service is gone.
pub fn dispatch_start(received: Result<RebuildResult, oneshot::error::RecvError>) -> (result: Result<
    RebuildResult,
    RuntimeError,
>)
    ensures
        match received {
            Ok(reply) => result == Ok::<RebuildResult, RuntimeError>(reply),
            Err(_) => result matches Err(RuntimeError::ChannelClosed(name)) && name@
                == "rebuild completion"@,
        },
{
    match received {
        Ok(reply) => Ok(reply),
        Err(_) => Err(RuntimeError::ChannelClosed("rebuild completion".to_owned())),
    }
}

/// The key of the task that rebuilds a block group.
pub open spec fn bg_task_key(bg: Seq<char>) -> Seq<char> {
    "bg-workflow/"@ + bg
}

/// The key of the task that rebuilds a block group.
pub fn bg_key(bg: &BgId) -> (key: TaskKey)
    ensures
        key@ == bg_task_key(bg@),
{
    TaskKey::new(joined("bg-workflow/", bg.as_str()).as_str())
}

/// Work to be done in the background for a block group.
pub struct BgStart {
    pub meta: TaskMeta,
    pub bg: BgId,
    pub completed: oneshot::Sender<Result<(), DemoError>>,
}

/// What became of a request to rebuild a block group.
pub enum RebuildHandling {
    /// It is being rebuilt already.
    Refused(Answer<Result<(), DemoError>>),
    /// A task rebuilds it.
    Start(BgStart),
}

/// Handles a request to rebuild a block group, given whether that goes on
/// already: that is answered at once, otherwise a task rebuilds it.
pub fn handle_rebuild(request: DoBgRebuild, running: bool) -> (handling: RebuildHandling)
    ensures
        match handling {
            RebuildHandling::Refused(answer) => {
                &&& running
                &&& answer.value matches Err(error)
                &&& error.is_runtime("BG already rebuilding: "@ + request.bg@)
                &&& delivered_as(request.completed, answer.value, answer.delivered)
            },
            RebuildHandling::Start(start) => {
                &&& !running
                &&& start.bg == request.bg
                &&& start.completed == request.completed
                &&& start.meta@ == TaskMetaView {
                    key: bg_task_key(request.bg@),
                    label: "rebuild BG: "@ + request.bg@,
                    visibility: TaskVisibility::Internal,
                }
            },
        },
{
    if running {
        let text = joined("BG already rebuilding: ", request.bg.as_str());
        let value = Err(DemoError::Runtime(text));
        let copy = copy_result(&value);
        return RebuildHandling::Refused(answer(request.completed, value, copy));
    }
    let label = joined("rebuild BG: ", request.bg.as_str());
    let meta = TaskMeta::new(bg_key(&request.bg), label.as_str());
    RebuildHandling::Start(BgStart { meta, bg: request.bg, completed: request.completed })
}

/// A task to be cancelled.
pub struct BgCancel {
    pub key: TaskKey,
    pub reason: CancelReason,
    /// Whether the task is aborted by force where it runs.
    pub force: bool,
}

/// Handles a request to give up a block group: its task is cancelled by force,
/// because it is no longer needed.
pub fn handle_cancel(request: CancelBgRebuild) -> (cancel: BgCancel)
    ensures
        cancel.key@ == bg_task_key(request.bg@),
        cancel.reason is NoLongerNeeded,
        cancel.force,
{
    BgCancel { key: bg_key(&request.bg), reason: CancelReason::NoLongerNeeded, force: true }
}

/// Handles the end of the work on a block group: a cancelled one is recorded, and
/// whoever asked for it learns the result.
pub fn handle_finished(event: BgWorkflowFinished, backend: &mut BgBackend) -> (answered: Answer<
    Result<(), DemoError>,
>)
    ensures
        final(backend).delay() == old(backend).delay(),
        final(backend)@ == (match event.outcome {
            TaskOutcome::Cancelled(_) => BgHistoryView {
                cancelled: old(backend)@.cancelled.push(event.bg),
                ..old(backend)@
            },
            _ => old(backend)@,
        }),
        match event.outcome {
            TaskOutcome::Completed(_) => answered.value is Ok,
            TaskOutcome::Failed(error) => answered.value matches Err(failed) && failed.is_runtime(
                error.message(),
            ),
            TaskOutcome::Cancelled(_) => answered.value matches Err(DemoError::Cancelled),
        },
        delivered_as(event.completed, answered.value, answered.delivered),
{
    let value = match event.outcome {
        TaskOutcome::Completed(_) => Ok(()),
        TaskOutcome::Failed(error) => Err(DemoError::Runtime(error.to_string())),
        TaskOutcome::Cancelled(_) => {
            backend.record_cancelled(event.bg);
            Err(DemoError::Cancelled)
        },
    };
    let copy = copy_result(&value);
    answer(event.completed, value, copy)
}

/// Handles the question what was done with block groups.
pub fn handle_query(query: QueryBg, backend: &BgBackend) -> (answered: Answer<BgSnapshot>)
    ensures
        answered.value@ == backend@,
        exists|shown: BgSnapshot| #[trigger]
            delivered_as(query.completed, shown, answered.delivered) && shown@ == backend@,
{
    answer(query.completed, backend.snapshot(), backend.snapshot())
}

/// The end of a dispatch comes to what the rebuild replied exactly when the
/// dispatch completed; one that failed comes to the error of the runtime, and one
/// that was cancelled to that.
pub proof fn law_dispatch_passes_the_reply_on(
    outcome: TaskOutcome<RebuildResult>,
    result: RebuildResult,
)
    requires
        dispatch_result(outcome, result),
    ensures
        outcome matches TaskOutcome::Completed(reply) ==> result == reply,
        outcome matches TaskOutcome::Failed(error) ==> (result matches Err(DemoError::Runtime(text))
            && text@ == error.message()),
        outcome is Cancelled ==> (result matches Err(DemoError::Cancelled)),
{
}

/// A disk is dispatched exactly when it is not being dispatched already, and
/// whoever reported a second time learns so at once.
pub proof fn law_disk_is_dispatched_once(
    request: DiskOfflineRequest,
    running: bool,
    handling: OfflineHandling,
)
    requires
        call_ensures(handle_disk_offline, (request, running), handling),
    ensures
        handling is Refused <==> running,
        handling matches OfflineHandling::Refused(answer) ==> (answer.value matches Err(
            DemoError::AlreadyRebuilding(disk),
        ) && disk == request.disk),
        handling matches OfflineHandling::Start(start) ==> {
            &&& start.disk == request.disk
            &&& start.completed == request.completed
            &&& start.meta@.key == "dispatch/disk-offline/"@ + request.disk@
            &&& start.meta@.label == "dispatch disk offline: "@ + request.disk@
            &&& start.meta@.visibility is Internal
        },
{
}

/// A block group is rebuilt exactly when it is not being rebuilt already, and
/// giving one up cancels the task that rebuilds it, by force and as no longer
/// needed.
pub proof fn law_block_group_is_rebuilt_once(
    request: DoBgRebuild,
    running: bool,
    handling: RebuildHandling,
    given_up: CancelBgRebuild,
    cancel: BgCancel,
)
    requires
        call_ensures(handle_rebuild, (request, running), handling),
        call_ensures(handle_cancel, (given_up,), cancel),
    ensures
        handling is Refused <==> running,
        handling matches RebuildHandling::Refused(answer) ==> (answer.value matches Err(
            DemoError::Runtime(text),
        ) && text@ == "BG already rebuilding: "@ + request.bg@),
        handling matches RebuildHandling::Start(start) ==> {
            &&& start.bg == request.bg
            &&& start.completed == request.completed
            &&& given_up.bg == request.bg ==> start.meta@.key == cancel.key@
            &&& start.meta@.key == "bg-workflow/"@ + request.bg@
            &&& start.meta@.label == "rebuild BG: "@ + request.bg@
            &&& start.meta@.visibility is Internal
        },
        cancel.force,
        cancel.reason is NoLongerNeeded,
{
}

/// Whoever asked for the work on a block group learns of success exactly when it
/// completed, and exactly a cancelled one is recorded as cancelled.
pub proof fn law_end_of_work_is_passed_on(
    event: BgWorkflowFinished,
    backend: &mut BgBackend,
    answered: Answer<Result<(), DemoError>>,
)
    requires
        call_ensures(handle_finished, (event, backend), answered),
    ensures
        answered.value is Ok <==> event.outcome is Completed,
        event.outcome is Cancelled <==> (answered.value matches Err(DemoError::Cancelled)),
        event.outcome is Cancelled ==> final(backend)@.cancelled == old(backend)@.cancelled.push(
            event.bg,
        ),
        !(event.outcome is Cancelled) ==> final(backend)@ == old(backend)@,
        final(backend)@.started == old(backend)@.started,
        final(backend)@.completed == old(backend)@.completed,
        delivered_as(event.completed, answered.value, answered.delivered),
{
}

/// A dispatched rebuild brings its result, and is lost with its service.
pub proof fn law_dispatched_rebuild_brings_its_result(
    received: Result<RebuildResult, oneshot::error::RecvError>,
    result: Result<RebuildResult, RuntimeError>,
)
    requires
        call_ensures(dispatch_start, (received,), result),
    ensures
        received matches Ok(reply) ==> result == Ok::<RebuildResult, RuntimeError>(reply),
        received is Err ==> (result matches Err(RuntimeError::ChannelClosed(_))),
{
}

/// The end of a dispatch is passed on as it was to whoever reported the disk, and
/// a question about block groups is answered with what was done.
pub proof fn law_reports_are_answered(
    event: OfflineDispatched,
    answered: Answer<RebuildResult>,
    query: QueryBg,
    backend: BgBackend,
    shown: Answer<BgSnapshot>,
)
    requires
        call_ensures(handle_offline_dispatched, (event,), answered),
        call_ensures(handle_query, (query, &backend), shown),
    ensures
        event.outcome matches TaskOutcome::Completed(reply) ==> answered.value == reply,
        event.outcome is Cancelled ==> (answered.value matches Err(DemoError::Cancelled)),
        event.outcome is Failed ==> (answered.value matches Err(DemoError::Runtime(_))),
        delivered_as(event.completed, answered.value, answered.delivered),
        shown.value@ == backend@,
{
}

} // verus!
