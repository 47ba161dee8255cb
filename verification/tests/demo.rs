use pool_control_plane::demo::backend::BgBackend as DiskBackend;
use pool_control_plane::demo::disk_service::{
    rebuild_task, DiskResponse, DiskService, DiskState, RebuildResponse, RebuildService,
};
use pool_control_plane::demo::handlers::{
    bg_key, dispatch_start, handle_cancel, handle_disk_offline, handle_finished,
    handle_offline_dispatched, handle_query, handle_rebuild, OfflineHandling, RebuildHandling,
};
use pool_control_plane::demo::protocol::{
    BgId, BgWorkflowFinished, CancelBgRebuild, DemoError, DemoMessage, DemoMessageKind, DiskId,
    DiskOfflineRequest, DoBgRebuild, OfflineDispatched, QueryBg, RebuildStatus, TaskOutcome,
};
use pool_control_plane::demo::state::{BgBackend, DemoCatalog};
use pool_control_plane::protocol::{CancelReason, RuntimeError};
use pool_control_plane::runtime::ids::IdCounter;
use pool_control_plane::service::client::root_request;
use pool_control_plane::task::context::{RequestContext, TaskState};
use pool_control_plane::task::manager::{Acquisition, HandlerOutcome};
use std::time::Duration;
use tokio::sync::oneshot;

fn disk() -> DiskId {
    DiskId::new("disk-1")
}

fn bg() -> BgId {
    BgId::new("bg-1")
}

#[test]
fn identities_and_errors_have_texts() {
    assert_eq!(disk().as_str(), "disk-1");
    assert_eq!(
        DemoError::AlreadyRebuilding(DiskId::new("a\nb")).to_string(),
        "AlreadyRebuilding(DiskId(\"a\\nb\"))"
    );
    assert_eq!(DemoError::NotRebuilding(disk()).to_string(), "NotRebuilding(DiskId(\"disk-1\"))");
    assert_eq!(DemoError::Cancelled.to_string(), "Cancelled");
    assert_eq!(DemoError::Runtime("late".to_string()).to_string(), "Runtime(\"late\")");
}

#[test]
fn a_disk_that_is_dispatched_already_is_refused() {
    let (completed, mut reply) = oneshot::channel();
    match handle_disk_offline(DiskOfflineRequest { disk: disk(), completed }, true) {
        OfflineHandling::Refused(answer) => assert!(answer.delivered),
        OfflineHandling::Start(_) => panic!("the disk is being dispatched"),
    }
    assert_eq!(reply.try_recv().unwrap(), Err(DemoError::AlreadyRebuilding(disk())));

    let (completed, mut reply) = oneshot::channel();
    let start = match handle_disk_offline(DiskOfflineRequest { disk: disk(), completed }, false) {
        OfflineHandling::Start(start) => start,
        OfflineHandling::Refused(_) => panic!("the disk is not being dispatched"),
    };
    assert_eq!(start.meta.key.as_str(), "dispatch/disk-offline/disk-1");
    assert_eq!(start.meta.label, "dispatch disk offline: disk-1");
    let event = OfflineDispatched {
        disk: start.disk,
        completed: start.completed,
        outcome: TaskOutcome::Completed(Ok(RebuildStatus::Completed)),
    };
    let answer = handle_offline_dispatched(event);
    assert_eq!(answer.value, Ok(RebuildStatus::Completed));
    assert_eq!(reply.try_recv().unwrap(), Ok(RebuildStatus::Completed));
}

#[test]
fn the_end_of_a_dispatch_is_told_to_whoever_reported_the_disk() {
    let outcomes = [
        (
            TaskOutcome::Failed(RuntimeError::ResponseDropped),
            DemoError::Runtime("response was dropped".to_string()),
        ),
        (TaskOutcome::Cancelled(CancelReason::NoLongerNeeded), DemoError::Cancelled),
    ];
    for (outcome, error) in outcomes {
        let (completed, reply) = oneshot::channel();
        drop(reply);
        let answer =
            handle_offline_dispatched(OfflineDispatched { disk: disk(), completed, outcome });
        assert_eq!(answer.value, Err(error));
        assert!(!answer.delivered);
    }
    assert_eq!(
        dispatch_start(Ok(Err(DemoError::Cancelled))),
        Ok(Err(DemoError::Cancelled))
    );
    let (sender, receiver) = oneshot::channel();
    drop(sender);
    let lost = tokio::runtime::Builder::new_current_thread().build().unwrap().block_on(receiver);
    assert_eq!(
        dispatch_start(lost).err().unwrap().to_string(),
        "channel closed: rebuild completion"
    );
}

#[test]
fn the_work_on_a_block_group_is_recorded() {
    let mut backend = BgBackend::new(Duration::from_millis(5));
    assert_eq!(backend.step_delay(), Duration::from_millis(5));
    let (completed, mut reply) = oneshot::channel();
    let start = match handle_rebuild(DoBgRebuild { bg: bg(), completed }, false) {
        RebuildHandling::Start(start) => start,
        RebuildHandling::Refused(_) => panic!("the block group is free"),
    };
    assert_eq!(start.meta.key.as_str(), "bg-workflow/bg-1");
    assert_eq!(start.meta.label, "rebuild BG: bg-1");
    backend.begin_rebuild(&start.bg);
    let cancel = handle_cancel(CancelBgRebuild { bg: bg() });
    assert_eq!(cancel.key, bg_key(&bg()));
    assert!(cancel.force);
    let event = BgWorkflowFinished {
        bg: start.bg,
        completed: start.completed,
        outcome: TaskOutcome::Cancelled(cancel.reason),
    };
    handle_finished(event, &mut backend);
    assert_eq!(reply.try_recv().unwrap(), Err(DemoError::Cancelled));

    let (completed, mut reply) = oneshot::channel();
    backend.begin_rebuild(&BgId::new("bg-2"));
    backend.end_rebuild(BgId::new("bg-2"));
    let event = BgWorkflowFinished {
        bg: BgId::new("bg-2"),
        completed,
        outcome: TaskOutcome::Completed(()),
    };
    handle_finished(event, &mut backend);
    assert_eq!(reply.try_recv().unwrap(), Ok(()));

    let (completed, mut reply) = oneshot::channel();
    handle_query(QueryBg { completed }, &backend);
    let snapshot = reply.try_recv().unwrap();
    assert_eq!(snapshot.started, [bg(), BgId::new("bg-2")]);
    assert_eq!(snapshot.completed, [BgId::new("bg-2")]);
    assert_eq!(snapshot.cancelled, [bg()]);
}

#[test]
fn a_block_group_that_is_rebuilt_already_is_refused() {
    let (completed, mut reply) = oneshot::channel();
    assert!(matches!(
        handle_rebuild(DoBgRebuild { bg: bg(), completed }, true),
        RebuildHandling::Refused(_)
    ));
    assert_eq!(
        reply.try_recv().unwrap(),
        Err(DemoError::Runtime("BG already rebuilding: bg-1".to_string()))
    );
}

#[test]
fn a_backend_tells_completion_from_cancellation() {
    let mut backend = DiskBackend::new(Duration::from_secs(5), Duration::from_millis(60));
    assert_eq!(backend.begin_rebuild(&disk()), Duration::from_secs(5));
    assert_eq!(backend.begin_cancel(&disk()), Duration::from_millis(60));
    assert_eq!(backend.rebuild(disk(), true), Err(DemoError::Cancelled));
    assert_eq!(backend.rebuild(DiskId::new("disk-2"), false), Ok(()));
    let snapshot = backend.snapshot();
    assert_eq!(snapshot.started, [disk()]);
    assert_eq!(snapshot.cancel_requested, [disk()]);
    assert_eq!(snapshot.cancelled, [disk()]);
    assert_eq!(snapshot.completed, [DiskId::new("disk-2")]);
}

#[test]
fn a_catalog_knows_the_block_groups_of_its_disks() {
    let catalog = DemoCatalog::new(
        vec![(disk(), vec![BgId::new("old")]), (disk(), vec![bg(), BgId::new("bg-2")])],
        Duration::from_millis(3),
    );
    assert_eq!(catalog.lookup_time(), Duration::from_millis(3));
    assert_eq!(catalog.resolve(&disk()), [bg(), BgId::new("bg-2")]);
    assert!(catalog.resolve(&DiskId::new("disk-9")).is_empty());
}

#[test]
fn a_message_tells_its_kind() {
    let cancel = DemoMessage::CancelBgRebuild(CancelBgRebuild { bg: bg() });
    assert_eq!(cancel.kind(), DemoMessageKind::CancelBgRebuild);
    let (completed, _reply) = oneshot::channel();
    let query = DemoMessage::QueryBg(QueryBg { completed });
    assert_eq!(query.kind(), DemoMessageKind::QueryBg);
}

struct Requests {
    operations: IdCounter,
    requests: IdCounter,
    tasks: IdCounter,
}

fn requests() -> Requests {
    Requests {
        operations: IdCounter::new(),
        requests: IdCounter::new(),
        tasks: IdCounter::new(),
    }
}

impl Requests {
    fn next(&mut self) -> RequestContext {
        root_request(&mut self.operations, &mut self.requests)
    }
}

fn state_of(service: &DiskService) -> DiskState {
    match service.query(&disk()) {
        DiskResponse::Snapshot(Some(snapshot)) => snapshot.state,
        _ => panic!("the disk is known"),
    }
}

#[test]
fn query_is_an_immediate_reply_and_never_creates_a_task() {
    let mut service = DiskService::new(vec![disk()]);
    assert!(matches!(service.query(&disk()), DiskResponse::Snapshot(Some(_))));
    assert!(matches!(service.query(&DiskId::new("disk-9")), DiskResponse::Snapshot(None)));
    assert!(service.task_manager().take_events().is_empty());
    assert!(service.task_manager().snapshots().is_empty());
}

#[test]
fn a_disk_goes_offline_when_its_rebuild_succeeds_and_back_online_otherwise() {
    let mut ids = requests();
    let mut service = DiskService::new(vec![disk()]);
    let request = ids.next();
    let task = service.offline_workflow(&disk(), &request, &mut ids.tasks).ok().unwrap();
    assert_eq!(state_of(&service), DiskState::Offlining);
    assert_eq!(task.key().as_str(), "disk/disk-1");
    assert_eq!(
        service.offline_workflow(&disk(), &ids.next(), &mut ids.tasks).err().unwrap(),
        DemoError::Runtime("task already running: disk/disk-1".to_string())
    );
    assert_eq!(
        service.end_offline(&disk(), Err(DemoError::Cancelled)),
        Err(DemoError::Cancelled)
    );
    assert_eq!(state_of(&service), DiskState::Online);
    service.task_manager().finish_request(request.request_id, HandlerOutcome::Failed);

    let request = ids.next();
    assert!(service.offline_workflow(&disk(), &request, &mut ids.tasks).is_ok());
    assert_eq!(service.end_offline(&disk(), Ok(())), Ok(DiskResponse::OfflineCompleted));
    assert_eq!(state_of(&service), DiskState::Offline);
    assert_eq!(
        service.offline_workflow(&DiskId::new("disk-9"), &ids.next(), &mut ids.tasks).err().unwrap(),
        DemoError::Runtime("unknown disk disk-9".to_string())
    );
}

#[test]
fn a_fault_waits_for_the_task_that_it_preempts() {
    let mut ids = requests();
    let mut service = DiskService::new(vec![disk()]);
    let offline = ids.next();
    let task = service.offline_workflow(&disk(), &offline, &mut ids.tasks).ok().unwrap();
    let fault = ids.next();
    let mut waiting = match service.fault_workflow(&disk(), &fault, &mut ids.tasks) {
        Ok(Acquisition::Waiting(receiver)) => receiver,
        _ => panic!("the disk is taken"),
    };
    assert!(task.is_cancelled());
    assert!(matches!(
        task.cancellation_reason(),
        Some(CancelReason::Preempted { by }) if by.as_str() == "disk/disk-1"
    ));
    assert!(fault.reason.get().is_none());
    let states: Vec<TaskState> =
        service.task_manager().snapshots().iter().map(|task| task.state).collect();
    assert_eq!(states, [TaskState::Cancelling, TaskState::Queued]);
    assert_eq!(state_of(&service), DiskState::Offlining);

    assert!(service.end_offline(&disk(), Err(DemoError::Cancelled)).is_err());
    service.task_manager().finish_request(offline.request_id, HandlerOutcome::Failed);
    let acquired = Acquisition::acquired(Ok(waiting.try_recv().unwrap()));
    assert_eq!(service.fault(&disk(), acquired), Ok(DiskResponse::Faulted));
    assert_eq!(state_of(&service), DiskState::Faulted);
    assert_eq!(
        service.fault(&disk(), Err(RuntimeError::ResponseDropped)),
        Err(DemoError::Runtime("response was dropped".to_string()))
    );
}

#[test]
fn a_rebuild_service_knows_the_disks_that_it_works_on() {
    let mut service = RebuildService::new();
    service.begin(&disk());
    assert!(service.is_active(&disk()));
    assert_eq!(service.finish(&disk(), Ok(())), Ok(RebuildResponse::Completed));
    assert!(!service.is_active(&disk()));
    assert_eq!(
        service.finish(&disk(), Err(DemoError::Cancelled)),
        Err(DemoError::Cancelled)
    );
    let meta = rebuild_task(&disk());
    assert_eq!(meta.key.as_str(), "rebuild/disk-1");
    assert_eq!(meta.label, "rebuild disk disk-1");
}
