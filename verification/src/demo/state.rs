//! The state of the demo services.
use super::protocol::{BgId, BgSnapshot, DiskId};
use crate::ordered_map::OrderedMap;
use std::time::Duration;
use vstd::prelude::*;

verus! {

/// The block groups of some disks. Of several entries of a disk the last counts.
pub open spec fn catalog_of(entries: Seq<(DiskId, Vec<BgId>)>) -> Map<Seq<char>, Seq<BgId>>
    decreases entries.len(),
{
    if entries.len() == 0 {
        Map::empty()
    } else {
        catalog_of(entries.drop_last()).insert(entries.last().0@, entries.last().1@)
    }
}

/// Which block groups lie on which disk.
pub struct DemoCatalog {
    disk_bgs: OrderedMap<DiskId, Vec<BgId>>,
    delay: Duration,
}

impl View for DemoCatalog {
    type V = Map<Seq<char>, Seq<BgId>>;

    closed spec fn view(&self) -> Map<Seq<char>, Seq<BgId>> {
        self.disk_bgs@.map_values(|bgs: Vec<BgId>| bgs@)
    }
}

impl DemoCatalog {
    /// The entries are in order.
    pub closed spec fn wf(&self) -> bool {
        self.disk_bgs.wf()
    }

    /// How long a lookup takes.
    pub closed spec fn delay(&self) -> Duration {
        self.delay
    }

    /// A catalog with these entries, whose lookups take `delay`.
    pub fn new(disk_bgs: Vec<(DiskId, Vec<BgId>)>, delay: Duration) -> (catalog: Self)
        ensures
            catalog.wf(),
            catalog@ == catalog_of(disk_bgs@),
            catalog.delay() == delay,
    {
        let mut entries: OrderedMap<DiskId, Vec<BgId>> = OrderedMap::new();
        let mut at: usize = 0;
        proof {
            assert(disk_bgs@.take(0) =~= Seq::empty());
            assert(entries@.map_values(|bgs: Vec<BgId>| bgs@) =~= catalog_of(disk_bgs@.take(0)));
        }
        while at < disk_bgs.len()
            invariant
                at <= disk_bgs@.len(),
                entries.wf(),
                entries@.map_values(|bgs: Vec<BgId>| bgs@) == catalog_of(
                    disk_bgs@.take(at as int),
                ),
            decreases disk_bgs@.len() - at,
        {
            let bgs = disk_bgs[at].1.clone();
            assert(bgs@ =~= disk_bgs@[at as int].1@);
            let ghost before = entries@;
            entries.insert(disk_bgs[at].0.clone(), bgs);
            proof {
                let longer = disk_bgs@.take(at + 1);
                assert(longer.drop_last() =~= disk_bgs@.take(at as int));
                assert(longer.last() == disk_bgs@[at as int]);
                assert(entries@.map_values(|bgs: Vec<BgId>| bgs@) =~= catalog_of(longer));
            }
            at = at + 1;
        }
        assert(disk_bgs@.take(at as int) =~= disk_bgs@);
        DemoCatalog { disk_bgs: entries, delay }
    }

    /// How long a lookup takes.
    pub fn lookup_time(&self) -> (time: Duration)
        ensures
            time == self.delay(),
    {
        self.delay
    }

    /// The block groups of a disk; none when the disk is unknown.
    pub fn resolve(&self, disk: &DiskId) -> (bgs: Vec<BgId>)
        requires
            self.wf(),
        ensures
            bgs@ == (if self@.contains_key(disk@) {
                self@[disk@]
            } else {
                Seq::empty()
            }),
    {
        match self.disk_bgs.get(disk) {
            Some(bgs) => {
                let copy = bgs.clone();
                assert(copy@ =~= bgs@);
                copy
            },
            None => {
                let none: Vec<BgId> = Vec::new();
                assert(none@ =~= Seq::empty());
                none
            },
        }
    }
}

/// What was done with block groups, oldest first.
pub struct BgHistoryView {
    pub started: Seq<BgId>,
    pub completed: Seq<BgId>,
    pub cancelled: Seq<BgId>,
}

impl View for BgSnapshot {
    type V = BgHistoryView;

    open spec fn view(&self) -> BgHistoryView {
        BgHistoryView {
            started: self.started@,
            completed: self.completed@,
            cancelled: self.cancelled@,
        }
    }
}

impl Clone for BgSnapshot {
    fn clone(&self) -> (copy: Self)
        ensures
            copy@ == self@,
    {
        let copy = BgSnapshot {
            started: self.started.clone(),
            completed: self.completed.clone(),
            cancelled: self.cancelled.clone(),
        };
        proof {
            assert(copy.started@ =~= self.started@);
            assert(copy.completed@ =~= self.completed@);
            assert(copy.cancelled@ =~= self.cancelled@);
        }
        copy
    }
}

/// A backend that rebuilds block groups in three stages and records what it did.
pub struct BgBackend {
    step_delay: Duration,
    history: BgSnapshot,
}

impl View for BgBackend {
    type V = BgHistoryView;

    closed spec fn view(&self) -> BgHistoryView {
        self.history@
    }
}

/// The stages of a rebuild: remap, node rebuild, metadata commit.
pub const REBUILD_STAGES: usize = 3;

impl BgBackend {
    /// How long a stage takes.
    pub closed spec fn delay(&self) -> Duration {
        self.step_delay
    }

    /// A backend that has done nothing.
    pub fn new(step_delay: Duration) -> (backend: Self)
        ensures
            backend.delay() == step_delay,
            backend@ == (BgHistoryView {
                started: Seq::empty(),
                completed: Seq::empty(),
                cancelled: Seq::empty(),
            }),
    {
        let backend = BgBackend {
            step_delay,
            history: BgSnapshot {
                started: Vec::new(),
                completed: Vec::new(),
                cancelled: Vec::new(),
            },
        };
        proof {
            assert(backend.history.started@ =~= Seq::empty());
            assert(backend.history.completed@ =~= Seq::empty());
            assert(backend.history.cancelled@ =~= Seq::empty());
        }
        backend
    }

    /// What was done so far.
    pub fn snapshot(&self) -> (snapshot: BgSnapshot)
        ensures
            snapshot@ == self@,
    {
        self.history.clone()
    }

    /// How long a stage takes.
    pub fn step_delay(&self) -> (time: Duration)
        ensures
            time == self.delay(),
    {
        self.step_delay
    }

    /// Begins the rebuild of a block group.
    pub fn begin_rebuild(&mut self, bg: &BgId)
        ensures
            final(self).delay() == old(self).delay(),
            final(self)@ == (BgHistoryView {
                started: old(self)@.started.push(*bg),
                ..old(self)@
            }),
    {
        self.history.started.push(bg.clone());
    }

    /// Ends the rebuild of a block group after its last stage.
    pub fn end_rebuild(&mut self, bg: BgId)
        ensures
            final(self).delay() == old(self).delay(),
            final(self)@ == (BgHistoryView {
                completed: old(self)@.completed.push(bg),
                ..old(self)@
            }),
    {
        self.history.completed.push(bg);
    }

    /// Records that the rebuild of a block group was given up.
    pub fn record_cancelled(&mut self, bg: BgId)
        ensures
            final(self).delay() == old(self).delay(),
            final(self)@ == (BgHistoryView {
                cancelled: old(self)@.cancelled.push(bg),
                ..old(self)@
            }),
    {
        self.history.cancelled.push(bg);
    }
}

/// A catalog knows exactly the disks of its entries, and of several entries of a
/// disk the last counts.
pub proof fn law_last_entry_counts(entries: Seq<(DiskId, Vec<BgId>)>, disk: Seq<char>, at: int)
    ensures
        catalog_of(entries).contains_key(disk) <==> exists|i: int|
            0 <= i < entries.len() && (#[trigger] entries[i]).0@ == disk,
        0 <= at < entries.len() && entries[at].0@ == disk && (forall|later: int|
            at < later < entries.len() ==> (#[trigger] entries[later]).0@ != disk)
            ==> catalog_of(entries)[disk] == entries[at].1@,
    decreases entries.len(),
{
    if entries.len() > 0 {
        let shorter = entries.drop_last();
        law_last_entry_counts(shorter, disk, at);
        assert(entries[entries.len() - 1] == entries.last());
        if exists|i: int| 0 <= i < shorter.len() && (#[trigger] shorter[i]).0@ == disk {
            let i = choose|i: int| 0 <= i < shorter.len() && (#[trigger] shorter[i]).0@ == disk;
            assert(entries[i].0@ == disk);
        }
        if exists|i: int| 0 <= i < entries.len() && (#[trigger] entries[i]).0@ == disk {
            let i = choose|i: int| 0 <= i < entries.len() && (#[trigger] entries[i]).0@ == disk;
            if i < shorter.len() {
                assert(shorter[i].0@ == disk);
            }
        }
        if 0 <= at < entries.len() - 1 && (forall|later: int|
            at < later < entries.len() ==> (#[trigger] entries[later]).0@ != disk) {
            assert forall|later: int| at < later < shorter.len() implies (
            #[trigger] shorter[later]).0@ != disk by {
                assert(entries[later].0@ != disk);
            }
            assert(entries[entries.len() - 1].0@ != disk);
        }
    }
}

/// A disk resolves to its block groups, and an unknown one to none.
pub proof fn law_disk_resolves_to_its_groups(
    catalog: DemoCatalog,
    disk: DiskId,
    bgs: Vec<BgId>,
)
    requires
        call_ensures(DemoCatalog::resolve, (&catalog, &disk), bgs),
    ensures
        catalog@.contains_key(disk@) ==> bgs@ == catalog@[disk@],
        !catalog@.contains_key(disk@) ==> bgs@.len() == 0,
{
}

/// A backend records the beginning, the end and the giving up of a rebuild apart,
/// each behind what it recorded before.
pub proof fn law_rebuilds_are_recorded_apart(
    one: &mut BgBackend,
    two: &mut BgBackend,
    three: &mut BgBackend,
    bg: BgId,
    begun: (),
    ended: (),
    given_up: (),
)
    requires
        call_ensures(BgBackend::begin_rebuild, (one, &bg), begun),
        call_ensures(BgBackend::end_rebuild, (two, bg), ended),
        call_ensures(BgBackend::record_cancelled, (three, bg), given_up),
    ensures
        final(one)@.started == old(one)@.started.push(bg),
        final(one)@.completed == old(one)@.completed,
        final(one)@.cancelled == old(one)@.cancelled,
        final(two)@.completed == old(two)@.completed.push(bg),
        final(two)@.started == old(two)@.started,
        final(two)@.cancelled == old(two)@.cancelled,
        final(three)@.cancelled == old(three)@.cancelled.push(bg),
        final(three)@.started == old(three)@.started,
        final(three)@.completed == old(three)@.completed,
{
}

} // verus!
