//! What is kept of tasks that run and of tasks that wait.
use super::context::{shows_task, TaskRecord, TaskSnapshot, TaskSnapshotView, TaskState};
use crate::ordered_map::{ordered_keys, OrderedMap};
use crate::protocol::{reason_view, CancelReason, CancelReasonView, TaskKey};
use crate::runtime::ids::TaskId;
use vstd::pervasive::cloned;
use vstd::prelude::*;

verus! {

/// A running task.
pub struct RunningView {
    pub record: TaskRecord,
    pub state: TaskState,
    pub reason: Option<CancelReasonView>,
}

/// A running task.
pub struct RunningTask {
    pub record: TaskRecord,
    pub state: TaskState,
    /// Why its cancellation was first requested.
    pub reason: Option<CancelReason>,
}

impl View for RunningTask {
    type V = RunningView;

    open spec fn view(&self) -> RunningView {
        RunningView { record: self.record, state: self.state, reason: reason_view(self.reason) }
    }
}

/// A task that waits for its key, with what is held for it meanwhile.
pub struct PendingTask<H> {
    pub record: TaskRecord,
    pub held: H,
}

/// What running tasks look like.
pub open spec fn running_views(running: Map<u64, RunningTask>) -> Map<u64, RunningView> {
    running.map_values(|task: RunningTask| task@)
}

/// The records of waiting tasks.
pub open spec fn pending_records<H>(pending: Map<Seq<char>, PendingTask<H>>) -> Map<
    Seq<char>,
    TaskRecord,
> {
    pending.map_values(|task: PendingTask<H>| task.record)
}

/// What is held for waiting tasks.
pub open spec fn pending_held<H>(pending: Map<Seq<char>, PendingTask<H>>) -> Map<Seq<char>, H> {
    pending.map_values(|task: PendingTask<H>| task.held)
}

/// Whether a task waits for a key.
pub open spec fn task_waits_for(
    pending: Map<Seq<char>, TaskRecord>,
    id: u64,
    key: Seq<char>,
) -> bool {
    pending.contains_key(key) && pending[key].id@ == id
}

/// Whether a task waits for some key.
pub open spec fn task_waits(pending: Map<Seq<char>, TaskRecord>, id: u64) -> bool {
    exists|key: Seq<char>| task_waits_for(pending, id, key)
}

/// Every task as others see it, by its identity.
pub open spec fn shown_tasks(
    running: Map<u64, RunningView>,
    pending: Map<Seq<char>, TaskRecord>,
) -> Map<u64, TaskSnapshotView> {
    Map::new(
        |id: u64| running.contains_key(id) || task_waits(pending, id),
        |id: u64|
            if running.contains_key(id) {
                running[id].record.shown(running[id].state)
            } else {
                pending[choose|key: Seq<char>| task_waits_for(pending, id, key)].shown(
                    TaskState::Queued,
                )
            },
    )
}

/// Whether no identity is used twice.
pub open spec fn identities_differ(
    running: Map<u64, RunningView>,
    pending: Map<Seq<char>, TaskRecord>,
) -> bool {
    &&& forall|key: Seq<char>| #[trigger]
        pending.contains_key(key) ==> !running.contains_key(pending[key].id@)
    &&& forall|a: Seq<char>, b: Seq<char>|
        (#[trigger] pending.contains_key(a)) && (#[trigger] pending.contains_key(b)) && a != b
            ==> pending[a].id@ != pending[b].id@
}

/// The key that a task waits for.
pub fn find_waiting<H>(pending: &OrderedMap<TaskKey, PendingTask<H>>, task: TaskId) -> (key: Option<
    TaskKey,
>)
    requires
        pending.wf(),
    ensures
        match key {
            Some(key) => task_waits_for(pending_records(pending@), task@, key@),
            None => !task_waits(pending_records(pending@), task@),
        },
{
    let mut at: usize = 0;
    let count = pending.len();
    proof {
        pending.lemma_listing();
    }
    while at < count
        invariant
            pending.wf(),
            count == pending.keys().len(),
            count == pending.values().len(),
            at <= count,
            forall|i: int| 0 <= i < at ==> (#[trigger] pending.values()[i]).record.id@ != task@,
        decreases count - at,
    {
        let entry = pending.value_at(at);
        if entry.record.id.get() == task.get() {
            proof {
                pending.lemma_listing();
                assert(pending@.contains_key(pending.keys()[at as int]));
            }
            let key = pending.key_at(at).clone();
            return Some(key);
        }
        at = at + 1;
    }
    proof {
        let records = pending_records(pending@);
        assert forall|key: Seq<char>| !task_waits_for(records, task@, key) by {
            if task_waits_for(records, task@, key) {
                assert(pending@.contains_key(key));
                pending.lemma_listing();
                let i = choose|i: int|
                    0 <= i < pending.keys().len() && #[trigger] pending.keys()[i] == key;
                assert(pending@[pending.keys()[i]] == pending.values()[i]);
            }
        }
    }
    None
}

/// Lists every task as others see it, in the order of identities.
pub fn list_tasks<K: Clone, H>(
    service: &K,
    running: &OrderedMap<TaskId, RunningTask>,
    pending: &OrderedMap<TaskKey, PendingTask<H>>,
) -> (snapshots: Vec<TaskSnapshot<K>>)
    requires
        running.wf(),
        pending.wf(),
        identities_differ(running_views(running@), pending_records(pending@)),
    ensures
        ({
            let shown = shown_tasks(running_views(running@), pending_records(pending@));
            snapshots@.map_values(|task: TaskSnapshot<K>| task@) == ordered_keys::<TaskId>(
                shown.dom(),
            ).map_values(|id: u64| shown[id])
        }),
        forall|i: int|
            0 <= i < snapshots@.len() ==> cloned(*service, (#[trigger] snapshots@[i]).service),
{
    let ghost views = running_views(running@);
    let ghost records = pending_records(pending@);
    let ghost shown = shown_tasks(views, records);
    let mut all: OrderedMap<TaskId, TaskSnapshot<K>> = OrderedMap::new();
    let mut at: usize = 0;
    let count = running.len();
    proof {
        running.lemma_listing();
        pending.lemma_listing();
    }
    while at < count
        invariant
            running.wf(),
            all.wf(),
            views == running_views(running@),
            shown == shown_tasks(views, records),
            count == running.keys().len(),
            count == running.values().len(),
            at <= count,
            forall|id: u64| #[trigger]
                all@.contains_key(id) ==> views.contains_key(id) && all@[id]@ == shown[id]
                    && cloned(*service, all@[id].service),
            forall|i: int| 0 <= i < at ==> all@.contains_key(#[trigger] running.keys()[i]),
        decreases count - at,
    {
        let task = running.value_at(at);
        let id = *running.key_at(at);
        proof {
            running.lemma_listing();
            assert(running@.contains_key(running.keys()[at as int]));
            assert(views.contains_key(id@));
            assert(views[id@] == task@);
            assert(shown.contains_key(id@));
        }
        all.insert(id, task.record.snapshot(service, task.state));
        at = at + 1;
    }
    let mut place: usize = 0;
    let waiting = pending.len();
    while place < waiting
        invariant
            pending.wf(),
            all.wf(),
            records == pending_records(pending@),
            shown == shown_tasks(views, records),
            identities_differ(views, records),
            count == running.keys().len(),
            waiting == pending.keys().len(),
            waiting == pending.values().len(),
            place <= waiting,
            forall|id: u64| #[trigger]
                all@.contains_key(id) ==> (views.contains_key(id) || task_waits(records, id))
                    && all@[id]@ == shown[id] && cloned(*service, all@[id].service),
            forall|i: int| 0 <= i < count ==> all@.contains_key(#[trigger] running.keys()[i]),
            forall|i: int|
                0 <= i < place ==> all@.contains_key((#[trigger] pending.values()[i]).record.id@),
        decreases waiting - place,
    {
        let task = pending.value_at(place);
        let id = task.record.id;
        proof {
            let key = pending.keys()[place as int];
            pending.lemma_listing();
            assert(pending@.contains_key(pending.keys()[place as int]));
            assert(records.contains_key(key));
            assert(records[key] == task.record);
            assert(task_waits_for(records, id@, key));
            assert(task_waits(records, id@));
            assert(!views.contains_key(id@));
            let chosen = choose|key: Seq<char>| task_waits_for(records, id@, key);
            assert(task_waits_for(records, id@, chosen));
            assert(records.contains_key(chosen));
            assert(chosen == key);
            assert(shown.contains_key(id@));
        }
        all.insert(id, task.record.snapshot(service, TaskState::Queued));
        place = place + 1;
    }
    proof {
        all.lemma_listing();
        assert(all@.dom() =~= shown.dom()) by {
            assert forall|id: u64| all@.dom().contains(id) <==> shown.dom().contains(id) by {
                if shown.dom().contains(id) {
                    if views.contains_key(id) {
                        running.lemma_listing();
                        assert(running@.contains_key(id));
                        let i = choose|i: int|
                            0 <= i < running.keys().len() && #[trigger] running.keys()[i] == id;
                        assert(all@.contains_key(running.keys()[i]));
                    } else {
                        let key = choose|key: Seq<char>| task_waits_for(records, id, key);
                        assert(task_waits_for(records, id, key));
                        pending.lemma_listing();
                        assert(pending@.contains_key(key));
                        let i = choose|i: int|
                            0 <= i < pending.keys().len() && #[trigger] pending.keys()[i] == key;
                        assert(pending@[pending.keys()[i]] == pending.values()[i]);
                        assert(all@.contains_key(pending.values()[i].record.id@));
                    }
                }
                if all@.contains_key(id) {
                    assert(views.contains_key(id) || task_waits(records, id));
                }
            }
        }
    }
    let ghost keys = all.keys();
    let ghost listed = all@;
    let ghost values = all.values();
    let snapshots = all.into_values();
    proof {
        let order = ordered_keys::<TaskId>(shown.dom());
        assert(order == keys);
        let expected = order.map_values(|id: u64| shown[id]);
        let given = snapshots@.map_values(|task: TaskSnapshot<K>| task@);
        assert forall|i: int| 0 <= i < given.len() implies given[i] == expected[i] by {
            assert(listed.contains_key(keys[i]));
            assert(listed[keys[i]] == values[i]);
        }
        assert(given =~= expected);
        assert forall|i: int| 0 <= i < snapshots@.len() implies cloned(
            *service,
            (#[trigger] snapshots@[i]).service,
        ) by {
            assert(listed.contains_key(keys[i]));
            assert(listed[keys[i]] == values[i]);
        }
    }
    snapshots
}

/// Every task that runs is shown in its state and every task that waits as
/// queued, and no others are.
pub proof fn law_every_task_is_shown(
    running: Map<u64, RunningView>,
    pending: Map<Seq<char>, TaskRecord>,
    id: u64,
    key: Seq<char>,
)
    requires
        identities_differ(running, pending),
    ensures
        shown_tasks(running, pending).contains_key(id) <==> running.contains_key(id) || exists|
            key: Seq<char>,
        | #[trigger]
            pending.contains_key(key) && pending[key].id@ == id,
        running.contains_key(id) ==> shows_task(
            shown_tasks(running, pending)[id],
            running[id].record,
            running[id].state,
        ),
        pending.contains_key(key) ==> shows_task(
            shown_tasks(running, pending)[pending[key].id@],
            pending[key],
            TaskState::Queued,
        ),
{
    if exists|key: Seq<char>| #[trigger] pending.contains_key(key) && pending[key].id@ == id {
        let other = choose|key: Seq<char>| #[trigger]
            pending.contains_key(key) && pending[key].id@ == id;
        assert(task_waits_for(pending, id, other));
    }
    if task_waits(pending, id) {
        let other = choose|key: Seq<char>| task_waits_for(pending, id, key);
        assert(pending.contains_key(other));
    }
    if pending.contains_key(key) {
        let waiting = pending[key].id@;
        assert(task_waits_for(pending, waiting, key));
        let other = choose|key: Seq<char>| task_waits_for(pending, waiting, key);
        assert(pending.contains_key(other));
        assert(other == key);
    }
}

} // verus!
