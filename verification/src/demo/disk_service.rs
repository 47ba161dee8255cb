//! Disks that go offline or fail, and their rebuild.
use super::protocol::{DemoError, DiskId, ServiceKind};
use crate::ordered_map::OrderedMap;
use crate::outside::channel_made;
use crate::protocol::{CancelReason, CancelReasonView, RuntimeError, TaskKey};
use crate::runtime::ids::{number_after, IdCounter};
use crate::task::context::{
    ConflictPolicy, RequestContext, TaskContext, TaskMeta, TaskMetaView, TaskRecord,
    TaskVisibility,
};
use crate::task::manager::{
    creation_result, is_new_record, Acquisition, ManagerView, ReadySender, ServiceTaskManager,
};
use crate::text::joined;
use vstd::prelude::*;

verus! {

/// The state of a disk.
#[derive(Debug, Clone, Copy, PartialEq, Eq, Structural)]
pub enum DiskState {
    Online,
    Offlining,
    Offline,
    Faulted,
}

/// A disk as others see it.
#[derive(Debug, PartialEq, Eq)]
pub struct DiskSnapshot {
    pub disk: DiskId,
    pub state: DiskState,
}

/// What the disk service answers.
#[derive(Debug, PartialEq, Eq)]
pub enum DiskResponse {
    Snapshot(Option<DiskSnapshot>),
    OfflineCompleted,
    Faulted,
}

/// What the disk service is asked.
#[derive(Debug, PartialEq, Eq)]
pub enum DiskRequest {
    Query(DiskId),
    Offline(DiskId),
    Fault(DiskId),
}

/// A disk service with its disks.
pub struct DiskService {
    disks: OrderedMap<DiskId, DiskState>,
    tasks: ServiceTaskManager<ServiceKind>,
}

impl View for DiskService {
    type V = Map<Seq<char>, DiskState>;

    closed spec fn view(&self) -> Map<Seq<char>, DiskState> {
        self.disks@
    }
}

/// The key of the tasks of a disk.
pub open spec fn disk_task_key(disk: Seq<char>) -> Seq<char> {
    "disk/"@ + disk
}

/// How the task that takes a disk offline is described.
pub open spec fn offline_meta(disk: Seq<char>) -> TaskMetaView {
    TaskMetaView {
        key: disk_task_key(disk),
        label: "offline disk "@ + disk,
        visibility: TaskVisibility::Public,
    }
}

/// How the task that marks a disk as faulted is described.
pub open spec fn fault_meta(disk: Seq<char>) -> TaskMetaView {
    TaskMetaView {
        key: disk_task_key(disk),
        label: "fault disk "@ + disk,
        visibility: TaskVisibility::Public,
    }
}

/// Whether a task goes before any other that works on a disk.
pub open spec fn preempts(conflict: ConflictPolicy, disk: Seq<char>) -> bool {
    conflict matches ConflictPolicy::Replace(reason) && reason@ == (CancelReasonView::Preempted {
        by: disk_task_key(disk),
    })
}

/// The disks after the rebuild of one of them.
pub open spec fn after_rebuild(
    disks: Map<Seq<char>, DiskState>,
    disk: Seq<char>,
    rebuilt: Result<(), DemoError>,
) -> Map<Seq<char>, DiskState> {
    disks.insert(
        disk,
        match rebuilt {
            Ok(_) => DiskState::Offline,
            Err(_) => DiskState::Online,
        },
    )
}

/// How the task that takes a disk offline is described. It is refused when
/// another task works on the disk.
pub fn offline_task(disk: &DiskId) -> (task: (TaskMeta, ConflictPolicy))
    ensures
        task.0@ == offline_meta(disk@),
        task.1 is Reject,
{
    let key = TaskKey::new(joined("disk/", disk.as_str()).as_str());
    let label = joined("offline disk ", disk.as_str());
    (TaskMeta::new(key, label.as_str()).public(), ConflictPolicy::Reject)
}

/// How the task that marks a disk as faulted is described. It replaces any other
/// task that works on the disk.
pub fn fault_task(disk: &DiskId) -> (task: (TaskMeta, ConflictPolicy))
    ensures
        task.0@ == fault_meta(disk@),
        preempts(task.1, disk@),
{
    let key = TaskKey::new(joined("disk/", disk.as_str()).as_str());
    let label = joined("fault disk ", disk.as_str());
    let conflict = ConflictPolicy::Replace(CancelReason::Preempted { by: key.clone() });
    (TaskMeta::new(key, label.as_str()).public(), conflict)
}

/// How the task that rebuilds a disk is described.
pub fn rebuild_task(disk: &DiskId) -> (meta: TaskMeta)
    ensures
        meta@ == (TaskMetaView {
            key: "rebuild/"@ + disk@,
            label: "rebuild disk "@ + disk@,
            visibility: TaskVisibility::Internal,
        }),
{
    let key = TaskKey::new(joined("rebuild/", disk.as_str()).as_str());
    let label = joined("rebuild disk ", disk.as_str());
    TaskMeta::new(key, label.as_str())
}

/// All of some disks, online.
pub open spec fn all_online(disks: Seq<DiskId>) -> Map<Seq<char>, DiskState>
    decreases disks.len(),
{
    if disks.len() == 0 {
        Map::empty()
    } else {
        all_online(disks.drop_last()).insert(disks.last()@, DiskState::Online)
    }
}

/// Whether a result says that a disk is unknown.
pub open spec fn is_unknown<T>(result: Result<T, DemoError>, disk: Seq<char>) -> bool {
    result matches Err(error) && error.is_runtime("unknown disk "@ + disk)
}

/// Whether a result says that another task works on a disk.
pub open spec fn is_taken<T>(result: Result<T, DemoError>, disk: Seq<char>) -> bool {
    result matches Err(error) && error.is_runtime(
        "task already running: "@ + disk_task_key(disk),
    )
}

impl DiskService {
    /// The disks are in order, and the tasks are sound.
    pub closed spec fn wf(&self) -> bool {
        self.disks.wf() && self.tasks.wf()
    }

    /// What manages the tasks.
    pub closed spec fn manager(&self) -> ServiceTaskManager<ServiceKind> {
        self.tasks
    }

    /// The managed tasks.
    pub open spec fn managed(&self) -> ManagerView {
        self.manager()@
    }

    /// A service with these disks, all online.
    pub fn new(disks: Vec<DiskId>) -> (service: Self)
        ensures
            service.wf(),
            service@ == all_online(disks@),
            service.managed() == ManagerView::vacant(),
            service.manager().name() == ServiceKind::Disk,
            service.manager().waiting() == Map::<Seq<char>, ReadySender>::empty(),
    {
        let mut states: OrderedMap<DiskId, DiskState> = OrderedMap::new();
        let mut at: usize = 0;
        assert(disks@.take(0) =~= Seq::empty());
        while at < disks.len()
            invariant
                at <= disks@.len(),
                states.wf(),
                states@ == all_online(disks@.take(at as int)),
            decreases disks@.len() - at,
        {
            proof {
                let longer = disks@.take(at + 1);
                assert(longer.drop_last() =~= disks@.take(at as int));
                assert(longer.last() == disks@[at as int]);
            }
            states.insert(disks[at].clone(), DiskState::Online);
            at = at + 1;
        }
        assert(disks@.take(at as int) =~= disks@);
        DiskService { disks: states, tasks: ServiceTaskManager::new(ServiceKind::Disk) }
    }

    /// Answers a question at once, without a task.
    pub fn query(&self, disk: &DiskId) -> (response: DiskResponse)
        requires
            self.wf(),
        ensures
            response == DiskResponse::Snapshot(
                if self@.contains_key(disk@) {
                    Some(DiskSnapshot { disk: *disk, state: self@[disk@] })
                } else {
                    None
                },
            ),
    {
        match self.disks.get(disk) {
            Some(state) => DiskResponse::Snapshot(
                Some(DiskSnapshot { disk: disk.clone(), state: *state }),
            ),
            None => DiskResponse::Snapshot(None),
        }
    }

    fn set(&mut self, disk: &DiskId, state: DiskState) -> (result: Result<(), DemoError>)
        requires
            old(self).wf(),
        ensures
            final(self).wf(),
            final(self).manager() == old(self).manager(),
            if old(self)@.contains_key(disk@) {
                result is Ok && final(self)@ == old(self)@.insert(disk@, state)
            } else {
                is_unknown(result, disk@) && final(self)@ == old(self)@
            },
    {
        if self.disks.contains_key(disk) {
            self.disks.insert(disk.clone(), state);
            Ok(())
        } else {
            Err(DemoError::Runtime(joined("unknown disk ", disk.as_str())))
        }
    }

    /// The managed tasks.
    pub fn task_manager(&mut self) -> (tasks: &mut ServiceTaskManager<ServiceKind>)
        requires
            old(self).wf(),
        ensures
            tasks.wf(),
            *tasks == old(self).manager(),
            final(tasks).wf() ==> final(self).wf(),
            final(self)@ == old(self)@,
            final(self).manager() == *final(tasks),
    {
        &mut self.tasks
    }

    /// Begins to take a disk offline: a task of its own takes the disk, unless
    /// another has it, and the disk is offlining until its rebuild ended.
    pub fn offline_workflow(
        &mut self,
        disk: &DiskId,
        context: &RequestContext,
        counter: &mut IdCounter,
    ) -> (result: Result<TaskContext, DemoError>)
        requires
            old(self).wf(),
            old(self).managed().is_free(old(counter)@),
        ensures
            final(self).wf(),
            final(counter)@ == number_after(old(counter)@),
            exists|record: TaskRecord| #[trigger]
                is_new_record(record, old(counter)@, record.meta, *context) && {
                    let taken = old(self).managed().by_key.contains_key(disk_task_key(disk@));
                    &&& record.meta@ == offline_meta(disk@)
                    &&& final(self).managed() == old(self).managed().created(
                        record,
                        ConflictPolicy::Reject,
                    )
                    &&& if taken {
                        is_taken(result, disk@) && final(self)@ == old(self)@
                    } else if !old(self)@.contains_key(disk@) {
                        is_unknown(result, disk@) && final(self)@ == old(self)@
                    } else {
                        &&& creation_result(
                            record,
                            ConflictPolicy::Reject,
                            false,
                            Ok(Acquisition::Ready(result->Ok_0)),
                        )
                        &&& result is Ok
                        &&& final(self)@ == old(self)@.insert(disk@, DiskState::Offlining)
                    }
                },
            final(self).manager().waiting() == old(self).manager().waiting(),
            final(self).manager().name() == old(self).manager().name(),
    {
        let (meta, conflict) = offline_task(disk);
        let created = self.tasks.create_new_task(context, meta, conflict, counter);
        match created {
            Err(error) => Err(DemoError::Runtime(error.to_string())),
            Ok(acquisition) => match acquisition {
                Acquisition::Ready(task) => match self.set(disk, DiskState::Offlining) {
                    Ok(_) => Ok(task),
                    Err(error) => Err(error),
                },
                Acquisition::Waiting(_) => Err(DemoError::Cancelled),
            },
        }
    }

    /// Ends taking a disk offline: it is offline after a successful rebuild, and
    /// online again after any other.
    pub fn end_offline(&mut self, disk: &DiskId, rebuilt: Result<(), DemoError>) -> (result: Result<
        DiskResponse,
        DemoError,
    >)
        requires
            old(self).wf(),
        ensures
            final(self).wf(),
            final(self).manager() == old(self).manager(),
            if !old(self)@.contains_key(disk@) {
                is_unknown(result, disk@) && final(self)@ == old(self)@
            } else {
                &&& final(self)@ == after_rebuild(old(self)@, disk@, rebuilt)
                &&& result == (match rebuilt {
                    Ok(_) => Ok(DiskResponse::OfflineCompleted),
                    Err(error) => Err(error),
                })
            },
    {
        let state = match &rebuilt {
            Ok(_) => DiskState::Offline,
            Err(_) => DiskState::Online,
        };
        match self.set(disk, state) {
            Err(error) => Err(error),
            Ok(_) => match rebuilt {
                Ok(_) => Ok(DiskResponse::OfflineCompleted),
                Err(error) => Err(error),
            },
        }
    }

    /// Begins to mark a disk as faulted: a task of its own takes the disk, at once
    /// or after the one that has it.
    pub fn fault_workflow(
        &mut self,
        disk: &DiskId,
        context: &RequestContext,
        counter: &mut IdCounter,
    ) -> (result: Result<Acquisition, RuntimeError>)
        requires
            old(self).wf(),
            old(self).managed().is_free(old(counter)@),
        ensures
            final(self).wf(),
            final(self)@ == old(self)@,
            final(counter)@ == number_after(old(counter)@),
            exists|record: TaskRecord, conflict: ConflictPolicy| #[trigger]
                is_new_record(record, old(counter)@, record.meta, *context) && #[trigger] preempts(
                    conflict,
                    disk@,
                ) && {
                    &&& record.meta@ == fault_meta(disk@)
                    &&& final(self).managed() == old(self).managed().created(record, conflict)
                    &&& creation_result(
                        record,
                        conflict,
                        old(self).managed().by_key.contains_key(disk_task_key(disk@)),
                        result,
                    )
                },
            ({
                let key = disk_task_key(disk@);
                let before = old(self).manager();
                let after = final(self).manager();
                if old(self).managed().by_key.contains_key(key) {
                    &&& result matches Ok(Acquisition::Waiting(receiver))
                    &&& channel_made(after.waiting()[key], receiver)
                    &&& after.waiting() == before.waiting().insert(key, after.waiting()[key])
                    &&& exists|reason: CancelReason|
                        {
                            &&& reason@ == (CancelReasonView::Preempted { by: key })
                            &&& #[trigger] before.displaced(key, reason)
                        }
                } else {
                    after.waiting() == before.waiting()
                }
            }),
            final(self).manager().name() == old(self).manager().name(),
    {
        let (meta, conflict) = fault_task(disk);
        let ghost key = meta.key@;
        let ghost reason = conflict->Replace_0;
        let result = self.tasks.create_new_task(context, meta, conflict, counter);
        proof {
            if old(self).managed().by_key.contains_key(key) {
                assert(old(self).manager().displaced(key, reason));
            }
        }
        result
    }

    /// Marks a disk as faulted once its task runs. The error of a task that never
    /// ran is handed on.
    pub fn fault(&mut self, disk: &DiskId, task: Result<TaskContext, RuntimeError>) -> (result:
        Result<DiskResponse, DemoError>)
        requires
            old(self).wf(),
        ensures
            final(self).wf(),
            final(self).manager() == old(self).manager(),
            match task {
                Err(error) => {
                    &&& result matches Err(failed)
                    &&& failed.is_runtime(error.message())
                    &&& final(self)@ == old(self)@
                },
                Ok(_) => if old(self)@.contains_key(disk@) {
                    &&& result == Ok::<DiskResponse, DemoError>(DiskResponse::Faulted)
                    &&& final(self)@ == old(self)@.insert(disk@, DiskState::Faulted)
                } else {
                    is_unknown(result, disk@) && final(self)@ == old(self)@
                },
            },
    {
        match task {
            Err(error) => Err(DemoError::Runtime(error.to_string())),
            Ok(_) => match self.set(disk, DiskState::Faulted) {
                Ok(_) => Ok(DiskResponse::Faulted),
                Err(error) => Err(error),
            },
        }
    }
}

/// A disk that a task was taken offline for is offline or online again when the
/// work ended, and no other disk is touched.
pub proof fn law_offline_ends_offline_or_online(
    disks: Map<Seq<char>, DiskState>,
    disk: Seq<char>,
    other: Seq<char>,
    rebuilt: Result<(), DemoError>,
)
    requires
        disks.contains_key(disk),
        other != disk,
    ensures
        ({
            let after = after_rebuild(disks.insert(disk, DiskState::Offlining), disk, rebuilt);
            &&& after[disk] == DiskState::Offline || after[disk] == DiskState::Online
            &&& after[disk] == DiskState::Offline <==> rebuilt is Ok
            &&& after.dom() == disks.dom()
            &&& after.contains_key(other) ==> after[other] == disks[other]
        }),
{
    let after = after_rebuild(disks.insert(disk, DiskState::Offlining), disk, rebuilt);
    assert(after.dom() =~= disks.dom());
}

/// What the rebuild service is asked.
#[derive(Debug, PartialEq, Eq)]
pub enum RebuildRequest {
    Start(DiskId),
}

/// What the rebuild service answers.
#[derive(Debug, Clone, Copy, PartialEq, Eq, Structural)]
pub enum RebuildResponse {
    Completed,
}

/// A rebuild service with the disks that it works on.
pub struct RebuildService {
    active: OrderedMap<DiskId, ()>,
}

impl View for RebuildService {
    type V = Set<Seq<char>>;

    closed spec fn view(&self) -> Set<Seq<char>> {
        self.active@.dom()
    }
}

impl RebuildService {
    /// The disks are in order.
    pub closed spec fn wf(&self) -> bool {
        self.active.wf()
    }

    /// A service that works on no disk.
    pub fn new() -> (service: Self)
        ensures
            service.wf(),
            service@ == Set::<Seq<char>>::empty(),
    {
        let service = RebuildService { active: OrderedMap::new() };
        assert(service@ =~= Set::<Seq<char>>::empty());
        service
    }

    /// Begins to work on a disk.
    pub fn begin(&mut self, disk: &DiskId)
        requires
            old(self).wf(),
        ensures
            final(self).wf(),
            final(self)@ == old(self)@.insert(disk@),
    {
        self.active.insert(disk.clone(), ());
        assert(self@ =~= old(self)@.insert(disk@));
    }

    /// Ends the work on a disk, whatever came of it.
    pub fn finish(&mut self, disk: &DiskId, result: Result<(), DemoError>) -> (response: Result<
        RebuildResponse,
        DemoError,
    >)
        requires
            old(self).wf(),
        ensures
            final(self).wf(),
            final(self)@ == old(self)@.remove(disk@),
            response == (match result {
                Ok(_) => Ok(RebuildResponse::Completed),
                Err(error) => Err(error),
            }),
    {
        let _ = self.active.remove(disk);
        assert(self@ =~= old(self)@.remove(disk@));
        match result {
            Ok(_) => Ok(RebuildResponse::Completed),
            Err(error) => Err(error),
        }
    }

    /// Whether the service works on a disk.
    pub fn is_active(&self, disk: &DiskId) -> (result: bool)
        requires
            self.wf(),
        ensures
            result == self@.contains(disk@),
    {
        self.active.contains_key(disk)
    }
}

/// A rebuild decides alone what becomes of a disk that was taken offline: it is
/// offline exactly after a success and online after a failure, which is handed on.
/// A disk that the service does not know is neither changed nor added.
pub proof fn law_rebuild_decides_the_disk(
    service: &mut DiskService,
    disk: &DiskId,
    rebuilt: Result<(), DemoError>,
    result: Result<DiskResponse, DemoError>,
    other: Seq<char>,
)
    requires
        call_ensures(DiskService::end_offline, (service, disk, rebuilt), result),
    ensures
        ({
            let before = old(service)@;
            let after = final(service)@;
            &&& result is Ok <==> before.contains_key(disk@) && rebuilt is Ok
            &&& before.contains_key(disk@) ==> {
                &&& after[disk@] is Offline <==> rebuilt is Ok
                &&& after[disk@] is Online <==> rebuilt is Err
                &&& rebuilt is Ok ==> result == Ok::<DiskResponse, DemoError>(
                    DiskResponse::OfflineCompleted,
                )
                &&& rebuilt matches Err(error) ==> result == Err::<DiskResponse, _>(error)
            }
            &&& after.contains_key(other) <==> before.contains_key(other)
            &&& other != disk@ && before.contains_key(other) ==> after[other] == before[other]
        }),
{
}

/// A disk is faulted exactly when its task runs and the disk is known, and no
/// other disk is touched. A task that never ran leaves every disk as it was.
pub proof fn law_fault_needs_its_task(
    service: &mut DiskService,
    disk: &DiskId,
    task: Result<TaskContext, RuntimeError>,
    result: Result<DiskResponse, DemoError>,
    other: Seq<char>,
)
    requires
        call_ensures(DiskService::fault, (service, disk, task), result),
    ensures
        ({
            let before = old(service)@;
            let after = final(service)@;
            &&& result is Ok <==> task is Ok && before.contains_key(disk@)
            &&& result matches Ok(response) ==> response is Faulted && after[disk@] is Faulted
            &&& result is Err ==> after == before
            &&& task matches Err(error) ==> (result matches Err(DemoError::Runtime(text)) && text@
                == error.message())
            &&& after.contains_key(other) <==> before.contains_key(other)
            &&& other != disk@ && before.contains_key(other) ==> after[other] == before[other]
        }),
{
}

/// A disk begins to go offline exactly when it is known and no task works on it,
/// and it is offlining then. Every other disk stays as it was.
pub proof fn law_disk_goes_offline_when_free(
    service: &mut DiskService,
    disk: &DiskId,
    context: &RequestContext,
    counter: &mut IdCounter,
    result: Result<TaskContext, DemoError>,
    other: Seq<char>,
)
    requires
        call_ensures(DiskService::offline_workflow, (service, disk, context, counter), result),
    ensures
        ({
            let before = old(service)@;
            let after = final(service)@;
            let taken = old(service).managed().by_key.contains_key("disk/"@ + disk@);
            &&& result is Ok <==> before.contains_key(disk@) && !taken
            &&& result matches Ok(task) ==> {
                &&& after[disk@] is Offlining
                &&& task.task_id@ == old(counter)@
                &&& task.key@ == "disk/"@ + disk@
                &&& final(service).managed().by_key.contains_key("disk/"@ + disk@)
            }
            &&& result is Err ==> after == before
            &&& taken ==> final(service).managed() == old(service).managed()
            &&& after.contains_key(other) <==> before.contains_key(other)
            &&& other != disk@ && before.contains_key(other) ==> after[other] == before[other]
        }),
{
}

/// A fault is never refused: its task runs at once on a disk that no task works
/// on, and otherwise waits, while the task that works on the disk is asked to
/// cancel. No disk changes before the task runs.
pub proof fn law_fault_goes_before_other_work(
    service: &mut DiskService,
    disk: &DiskId,
    context: &RequestContext,
    counter: &mut IdCounter,
    result: Result<Acquisition, RuntimeError>,
)
    requires
        old(service).managed().valid(),
        old(service).managed().is_free(old(counter)@),
        call_ensures(DiskService::fault_workflow, (service, disk, context, counter), result),
    ensures
        ({
            let key = "disk/"@ + disk@;
            let before = old(service).managed();
            let after = final(service).managed();
            &&& result is Ok
            &&& (result matches Ok(Acquisition::Ready(_))) <==> !before.by_key.contains_key(key)
            &&& !before.by_key.contains_key(key) ==> after.by_key.contains_key(key)
            &&& before.by_key.contains_key(key) ==> {
                &&& after.by_key == before.by_key
                &&& after.pending.contains_key(key)
                &&& after.pending[key].id@ == old(counter)@
                &&& after.running[before.by_key[key]@].state
                    == crate::task::context::TaskState::Cancelling
            }
            &&& final(service)@ == old(service)@
        }),
{
    let key = "disk/"@ + disk@;
    let before = old(service).managed();
    let (record, conflict) = choose|record: TaskRecord, conflict: ConflictPolicy| #[trigger]
        is_new_record(record, old(counter)@, record.meta, *context) && #[trigger] preempts(
            conflict,
            disk@,
        ) && {
            &&& record.meta@ == fault_meta(disk@)
            &&& final(service).managed() == old(service).managed().created(record, conflict)
            &&& creation_result(
                record,
                conflict,
                old(service).managed().by_key.contains_key(disk_task_key(disk@)),
                result,
            )
        };
    assert(record.meta.key@ == key);
    if before.by_key.contains_key(key) {
        crate::task::manager::law_taken_key_is_refused_or_replaced(
            before,
            record,
            conflict->Replace_0,
        );
        crate::task::manager::law_replacement_waits_for_the_running_task(
            before,
            record,
            conflict->Replace_0,
        );
    }
}

/// A question about a disk is answered with its state, and with nothing where the
/// disk is unknown.
pub proof fn law_query_shows_the_disk(
    service: DiskService,
    disk: DiskId,
    response: DiskResponse,
)
    requires
        call_ensures(DiskService::query, (&service, &disk), response),
    ensures
        response matches DiskResponse::Snapshot(shown) && {
            &&& shown is Some <==> service@.contains_key(disk@)
            &&& shown matches Some(snapshot) ==> snapshot.disk == disk && snapshot.state
                == service@[disk@]
        },
{
}

/// A service begins with exactly the disks that it was given, all online.
pub proof fn law_disks_begin_online(disks: Seq<DiskId>, disk: Seq<char>)
    ensures
        all_online(disks).contains_key(disk) <==> exists|i: int|
            0 <= i < disks.len() && (#[trigger] disks[i])@ == disk,
        all_online(disks).contains_key(disk) ==> all_online(disks)[disk] is Online,
    decreases disks.len(),
{
    if disks.len() > 0 {
        let shorter = disks.drop_last();
        law_disks_begin_online(shorter, disk);
        assert(disks[disks.len() - 1] == disks.last());
        if exists|i: int| 0 <= i < shorter.len() && (#[trigger] shorter[i])@ == disk {
            let i = choose|i: int| 0 <= i < shorter.len() && (#[trigger] shorter[i])@ == disk;
            assert(disks[i]@ == disk);
        }
        if exists|i: int| 0 <= i < disks.len() && (#[trigger] disks[i])@ == disk {
            let i = choose|i: int| 0 <= i < disks.len() && (#[trigger] disks[i])@ == disk;
            if i < shorter.len() {
                assert(shorter[i]@ == disk);
            }
        }
    }
}

/// Taking a disk offline is refused where another task works on the disk, and a
/// fault replaces such a task. Both work under the key of the disk and are for
/// everyone to see; a rebuild works under a key of its own and is internal. Each
/// is labelled with what it does to the disk.
pub proof fn law_fault_replaces_and_offline_does_not(
    disk: &DiskId,
    offline: (TaskMeta, ConflictPolicy),
    faulted: (TaskMeta, ConflictPolicy),
    rebuild: TaskMeta,
)
    requires
        call_ensures(offline_task, (disk,), offline),
        call_ensures(fault_task, (disk,), faulted),
        call_ensures(rebuild_task, (disk,), rebuild),
    ensures
        offline.1 is Reject,
        faulted.1 matches ConflictPolicy::Replace(reason) && reason@
            == (CancelReasonView::Preempted { by: "disk/"@ + disk@ }),
        offline.0@.key == "disk/"@ + disk@,
        faulted.0@.key == offline.0@.key,
        offline.0@.visibility is Public,
        faulted.0@.visibility is Public,
        rebuild@.key == "rebuild/"@ + disk@,
        rebuild@.visibility is Internal,
        offline.0@.label == "offline disk "@ + disk@,
        faulted.0@.label == "fault disk "@ + disk@,
        rebuild@.label == "rebuild disk "@ + disk@,
{
}

/// A rebuild service works on a disk from its beginning to its end, whatever came
/// of the work, and hands the result on.
pub proof fn law_rebuild_lasts_from_begin_to_finish(
    service: &mut RebuildService,
    disk: &DiskId,
    begun: (),
    other: &mut RebuildService,
    result: Result<(), DemoError>,
    response: Result<RebuildResponse, DemoError>,
    uuid: Seq<char>,
)
    requires
        call_ensures(RebuildService::begin, (service, disk), begun),
        call_ensures(RebuildService::finish, (other, disk, result), response),
    ensures
        final(service)@.contains(disk@),
        uuid != disk@ ==> (final(service)@.contains(uuid) <==> old(service)@.contains(uuid)),
        !final(other)@.contains(disk@),
        uuid != disk@ ==> (final(other)@.contains(uuid) <==> old(other)@.contains(uuid)),
        response is Ok <==> result is Ok,
        result matches Err(error) ==> response == Err::<RebuildResponse, _>(error),
{
}

/// A disk that is unknown, or that another task works on, is refused by its name.
pub proof fn law_refusals_name_the_disk<T>(result: Result<T, DemoError>, disk: Seq<char>)
    ensures
        is_unknown(result, disk) <==> (result matches Err(DemoError::Runtime(text)) && text@
            == "unknown disk "@ + disk),
        is_taken(result, disk) <==> (result matches Err(DemoError::Runtime(text)) && text@
            == "task already running: "@ + ("disk/"@ + disk)),
{
}

} // verus!
