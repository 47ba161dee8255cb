//! The committed in-memory state of the MemberDisk service.
use super::error::MemberDiskServiceError;
use crate::member_disk::event::MemberDiskEvent;
use crate::member_disk::allocation::BlkId;
use crate::member_disk::model::{
    DiskUuid, MemberDisk, MemberDiskUpdate, MemberDiskView, MembershipState,
};
use crate::member_disk::ports::MetadataError;
use crate::ordered_map::{ordered_keys, OrderedMap};
use crate::runtime::object_task::{CoordinatorView, ObjectTaskCoordinator};
use vstd::prelude::*;

verus! {

/// Everything that the service holds.
#[verifier::ext_equal]
pub struct MemberDiskServiceView {
    pub disks: Map<Seq<char>, MemberDiskView>,
    pub recovery_window_ms: u64,
    pub tasks: CoordinatorView<Seq<char>, MemberDiskEvent, MemberDiskServiceError>,
}

/// The identities of disks in ascending order.
pub open spec fn disk_order(disks: Map<Seq<char>, MemberDiskView>) -> Seq<Seq<char>> {
    ordered_keys::<DiskUuid>(disks.dom())
}

/// The disks by their identities. Of several disks with one identity the last
/// counts.
pub open spec fn by_uuid(disks: Seq<MemberDisk>) -> Map<Seq<char>, MemberDiskView>
    decreases disks.len(),
{
    if disks.len() == 0 {
        Map::empty()
    } else {
        by_uuid(disks.drop_last()).insert(disks.last()@.uuid, disks.last()@)
    }
}

impl MemberDiskServiceView {
    /// Every disk is valid and stands under its own identity.
    pub open spec fn valid(self) -> bool {
        &&& forall|uuid: Seq<char>| #[trigger]
            self.disks.contains_key(uuid) ==> self.disks[uuid].valid() && self.disks[uuid].uuid
                == uuid
        &&& self.disks.dom().finite()
        &&& self.tasks.valid()
    }

    /// The service after a disk was replaced.
    pub open spec fn with_disk(self, uuid: Seq<char>, disk: MemberDiskView) -> Self {
        MemberDiskServiceView { disks: self.disks.insert(uuid, disk), ..self }
    }

    /// What a change of a disk would come to: whether there is anything to
    /// commit, or why it is refused.
    pub open spec fn change(self, disk: DiskUuid, change: MemberDiskUpdate) -> Result<
        bool,
        MemberDiskServiceError,
    > {
        if !self.disks.contains_key(disk@) {
            Err(MemberDiskServiceError::UnknownDisk(disk))
        } else {
            match self.disks[disk@].check(change) {
                Ok(changed) => Ok(changed),
                Err(error) => Err(MemberDiskServiceError::InvalidState(error)),
            }
        }
    }

    /// The service after a committed change.
    pub open spec fn changed(self, uuid: Seq<char>, change: MemberDiskUpdate) -> Self {
        self.with_disk(uuid, self.disks[uuid].updated(change))
    }
}

/// MemberDisk domain service.
///
/// The service owns the committed in-memory object directory. External events
/// update object facts or intent first; reconciliation then reads the object
/// and executes one matching business operation.
pub struct MemberDiskService {
    disks: OrderedMap<DiskUuid, MemberDisk>,
    recovery_window_ms: u64,
    object_tasks: ObjectTaskCoordinator<
        DiskUuid,
        MemberDiskEvent,
        MemberDiskServiceError,
    >,
}

impl View for MemberDiskService {
    type V = MemberDiskServiceView;

    closed spec fn view(&self) -> MemberDiskServiceView {
        MemberDiskServiceView {
            disks: self.disks@.map_values(|disk: MemberDisk| disk@),
            recovery_window_ms: self.recovery_window_ms,
            tasks: self.object_tasks@,
        }
    }
}

impl MemberDiskService {
    /// Every disk is well-formed and stands under its own identity.
    pub closed spec fn wf(&self) -> bool {
        &&& self.disks.wf()
        &&& forall|uuid: Seq<char>| #[trigger]
            self.disks@.contains_key(uuid) ==> self.disks@[uuid].wf() && self.disks@[uuid]@.uuid
                == uuid
        &&& self.object_tasks.wf()
    }

    /// What coordinates the intents on the disks.
    pub closed spec fn coordinator(&self) -> ObjectTaskCoordinator<
        DiskUuid,
        MemberDiskEvent,
        MemberDiskServiceError,
    > {
        self.object_tasks
    }

    /// A well-formed service is valid.
    pub proof fn lemma_valid(&self)
        requires
            self.wf(),
        ensures
            self@.valid(),
    {
        self.object_tasks.lemma_valid();
        self.disks.lemma_listing();
        assert(self@.disks.dom() =~= self.disks@.dom());
        assert forall|uuid: Seq<char>| #[trigger] self@.disks.contains_key(
            uuid,
        ) implies self@.disks[uuid].valid() && self@.disks[uuid].uuid == uuid by {
            assert(self.disks@.contains_key(uuid));
            self.disks@[uuid].lemma_valid();
        }
    }

    /// A service with these disks. A disk that went down is given the recovery
    /// window before its allocation stops.
    pub fn new(disks: Vec<MemberDisk>, recovery_window_millis: u128) -> (service: Self)
        requires
            forall|i: int| 0 <= i < disks@.len() ==> (#[trigger] disks@[i]).wf(),
        ensures
            service.wf(),
            service@.disks == by_uuid(disks@),
            service@.recovery_window_ms == (if recovery_window_millis > u64::MAX {
                u64::MAX
            } else {
                recovery_window_millis as u64
            }),
            service@.tasks.next_generation == 1,
            service@.tasks.slots.dom() == Set::<Seq<char>>::empty(),
            service@.tasks.waiters.dom() == Set::<Seq<char>>::empty(),
            service@.tasks.last_results.dom() == Set::<Seq<char>>::empty(),
            service@.tasks.dropped_error == MemberDiskServiceError::Cancelled,
            service.coordinator().ready().dom() == Set::<Seq<char>>::empty(),
    {
        let mut directory: OrderedMap<DiskUuid, MemberDisk> = OrderedMap::new();
        let mut at: usize = 0;
        assert(disks@.take(0) =~= Seq::empty());
        proof {
            assert(directory@.map_values(|disk: MemberDisk| disk@) =~= by_uuid(disks@.take(0)));
        }
        while at < disks.len()
            invariant
                at <= disks@.len(),
                forall|i: int| 0 <= i < disks@.len() ==> (#[trigger] disks@[i]).wf(),
                directory.wf(),
                forall|uuid: Seq<char>| #[trigger]
                    directory@.contains_key(uuid) ==> directory@[uuid].wf()
                        && directory@[uuid]@.uuid == uuid,
                directory@.map_values(|disk: MemberDisk| disk@) == by_uuid(
                    disks@.take(at as int),
                ),
            decreases disks@.len() - at,
        {
            let ghost before = directory@;
            let disk = disks[at].clone();
            directory.insert(disk.uuid().clone(), disk);
            proof {
                let longer = disks@.take(at + 1);
                assert(longer.drop_last() =~= disks@.take(at as int));
                assert(longer.last() == disks@[at as int]);
                assert(directory@.map_values(|disk: MemberDisk| disk@) =~= by_uuid(longer));
            }
            at = at + 1;
        }
        assert(disks@.take(at as int) =~= disks@);
        let recovery_window_ms = if recovery_window_millis > u64::MAX as u128 {
            u64::MAX
        } else {
            recovery_window_millis as u64
        };
        let service = MemberDiskService {
            disks: directory,
            recovery_window_ms,
            object_tasks: ObjectTaskCoordinator::new(MemberDiskServiceError::Cancelled),
        };
        proof {
            assert(service@.tasks.slots.dom() =~= Set::<Seq<char>>::empty());
            assert(service.coordinator().ready().dom() =~= Set::<Seq<char>>::empty());
            assert(service@.tasks.waiters.dom() =~= Set::<Seq<char>>::empty());
            assert(service@.tasks.last_results.dom() =~= Set::<Seq<char>>::empty());
        }
        service
    }

    /// A copy of a disk as it is committed.
    pub fn get_member(&self, disk: &DiskUuid) -> (result: Result<MemberDisk, MemberDiskServiceError>)
        requires
            self.wf(),
        ensures
            match result {
                Ok(member) => {
                    &&& self@.disks.contains_key(disk@)
                    &&& member.wf()
                    &&& member@ == self@.disks[disk@]
                },
                Err(error) => {
                    &&& !self@.disks.contains_key(disk@)
                    &&& error == MemberDiskServiceError::UnknownDisk(*disk)
                },
            },
    {
        match self.disks.get(disk) {
            Some(member) => {
                proof {
                    assert(self.disks@.contains_key(disk@));
                }
                Ok(member.clone())
            },
            None => Err(MemberDiskServiceError::UnknownDisk(disk.clone())),
        }
    }

    /// Checks a change of a disk before it is committed to SDB.
    pub fn check_change(&self, disk: &DiskUuid, change: MemberDiskUpdate) -> (result: Result<
        bool,
        MemberDiskServiceError,
    >)
        requires
            self.wf(),
        ensures
            result == self@.change(*disk, change),
    {
        match self.disks.get(disk) {
            Some(member) => {
                proof {
                    assert(self.disks@.contains_key(disk@));
                }
                match member.validate_update(&change) {
                    Ok(changed) => Ok(changed),
                    Err(error) => Err(MemberDiskServiceError::from(error)),
                }
            },
            None => Err(MemberDiskServiceError::UnknownDisk(disk.clone())),
        }
    }

    /// Publishes a change in memory once SDB has answered. A change that SDB
    /// did not commit is not published.
    pub fn finish_change(
        &mut self,
        disk: &DiskUuid,
        change: MemberDiskUpdate,
        committed: Result<(), MetadataError>,
    ) -> (result: Result<(), MemberDiskServiceError>)
        requires
            old(self).wf(),
            old(self)@.change(*disk, change) == Ok::<bool, MemberDiskServiceError>(true),
        ensures
            final(self).wf(),
            match committed {
                Ok(_) => {
                    &&& result is Ok
                    &&& final(self)@ == old(self)@.changed(disk@, change)
                },
                Err(error) => {
                    &&& result == Err::<(), _>(MemberDiskServiceError::Metadata(error))
                    &&& final(self)@ == old(self)@
                },
            },
            final(self).coordinator() == old(self).coordinator(),
    {
        match committed {
            Err(error) => Err(MemberDiskServiceError::from(error)),
            Ok(_) => {
                let ghost before = *self;
                if let Some(member) = self.disks.get_mut(disk) {
                    proof {
                        assert(before.disks@.contains_key(disk@));
                    }
                    member.apply_committed(&change);
                }
                proof {
                    assert(self@.disks =~= before@.changed(disk@, change).disks);
                }
                Ok(())
            },
        }
    }

    /// The number of disks.
    pub fn disk_count(&self) -> (count: usize)
        requires
            self.wf(),
        ensures
            count == disk_order(self@.disks).len(),
            count == self@.disks.dom().len(),
    {
        proof {
            self.disks.lemma_listing();
            assert(self@.disks.dom() =~= self.disks@.dom());
        }
        self.disks.len()
    }

    /// The disk at a place in the order of identities.
    pub fn disk_at(&self, place: usize) -> (disk: &MemberDisk)
        requires
            self.wf(),
            place < disk_order(self@.disks).len(),
        ensures
            disk.wf(),
            self@.disks.contains_key(disk_order(self@.disks)[place as int]),
            disk@ == self@.disks[disk_order(self@.disks)[place as int]],
            disk@.uuid == disk_order(self@.disks)[place as int],
    {
        proof {
            self.disks.lemma_listing();
            assert(self@.disks.dom() =~= self.disks@.dom());
            assert(self.disks@.contains_key(self.disks.keys()[place as int]));
        }
        self.disks.value_at(place)
    }

    /// Whether an intent occupies a disk.
    pub fn is_busy(&self, disk: &DiskUuid) -> (result: bool)
        requires
            self.wf(),
        ensures
            result == self@.tasks.slots.contains_key(disk@),
    {
        self.object_tasks.is_active(disk)
    }

    /// How long a disk that went down may take to recover.
    pub fn recovery_window_ms(&self) -> (millis: u64)
        ensures
            millis == self@.recovery_window_ms,
    {
        self.recovery_window_ms
    }

    /// Marks a free BLK of a member as allocated.
    pub fn allocate_blk(&mut self, disk: &DiskUuid, blk: BlkId)
        requires
            old(self).wf(),
            old(self)@.disks.contains_key(disk@),
            old(self)@.disks[disk@].membership_state == MembershipState::Member,
            blk@ < old(self)@.disks[disk@].total_blks,
            !old(self)@.disks[disk@].allocated.contains(blk@ as int),
        ensures
            final(self).wf(),
            final(self)@ == old(self)@.with_disk(
                disk@,
                MemberDiskView {
                    allocated: old(self)@.disks[disk@].allocated.insert(blk@ as int),
                    ..old(self)@.disks[disk@]
                },
            ),
            final(self).coordinator() == old(self).coordinator(),
    {
        let ghost before = *self;
        if let Some(member) = self.disks.get_mut(disk) {
            proof {
                assert(before.disks@.contains_key(disk@));
            }
            member.apply_committed_allocation(blk);
        }
        proof {
            let changed = MemberDiskView {
                allocated: before@.disks[disk@].allocated.insert(blk@ as int),
                ..before@.disks[disk@]
            };
            assert(self@.disks =~= before@.with_disk(disk@, changed).disks);
        }
    }

    /// The intents on the disks.
    pub fn object_tasks(&mut self) -> (tasks: &mut ObjectTaskCoordinator<
        DiskUuid,
        MemberDiskEvent,
        MemberDiskServiceError,
    >)
        requires
            old(self).wf(),
        ensures
            tasks.wf(),
            tasks@ == old(self)@.tasks,
            *tasks == old(self).coordinator(),
            final(tasks).wf() ==> final(self).wf(),
            final(self)@ == (MemberDiskServiceView { tasks: final(tasks)@, ..old(self)@ }),
            final(self).coordinator() == *final(tasks),
    {
        &mut self.object_tasks
    }
}

/// A service knows exactly the disks that it was given, and of several disks with
/// one identity the last. A recovery window beyond the range of times is the
/// longest there is.
pub proof fn law_last_disk_of_an_identity_counts(disks: Seq<MemberDisk>, uuid: Seq<char>, at: int)
    ensures
        by_uuid(disks).contains_key(uuid) <==> exists|i: int|
            0 <= i < disks.len() && (#[trigger] disks[i])@.uuid == uuid,
        0 <= at < disks.len() && disks[at]@.uuid == uuid && (forall|later: int|
            at < later < disks.len() ==> (#[trigger] disks[later])@.uuid != uuid) ==> by_uuid(
            disks,
        )[uuid] == disks[at]@,
    decreases disks.len(),
{
    if disks.len() > 0 {
        let shorter = disks.drop_last();
        law_last_disk_of_an_identity_counts(shorter, uuid, at);
        assert(disks[disks.len() - 1] == disks.last());
        if exists|i: int| 0 <= i < shorter.len() && (#[trigger] shorter[i])@.uuid == uuid {
            let i = choose|i: int| 0 <= i < shorter.len() && (#[trigger] shorter[i])@.uuid == uuid;
            assert(disks[i]@.uuid == uuid);
        }
        if exists|i: int| 0 <= i < disks.len() && (#[trigger] disks[i])@.uuid == uuid {
            let i = choose|i: int| 0 <= i < disks.len() && (#[trigger] disks[i])@.uuid == uuid;
            if i < shorter.len() {
                assert(shorter[i]@.uuid == uuid);
            }
        }
        if 0 <= at < disks.len() - 1 && (forall|later: int|
            at < later < disks.len() ==> (#[trigger] disks[later])@.uuid != uuid) {
            assert forall|later: int| at < later < shorter.len() implies (
            #[trigger] shorter[later])@.uuid != uuid by {
                assert(disks[later]@.uuid != uuid);
            }
            assert(disks[disks.len() - 1]@.uuid != uuid);
        }
    }
}

/// A service begins with the window that it was given, held at the longest there
/// is, and without any intent on a disk.
pub proof fn law_service_begins_without_intents(
    disks: Vec<MemberDisk>,
    recovery_window_millis: u128,
    service: MemberDiskService,
    uuid: Seq<char>,
)
    requires
        call_ensures(MemberDiskService::new, (disks, recovery_window_millis), service),
    ensures
        recovery_window_millis <= u64::MAX ==> service@.recovery_window_ms == recovery_window_millis,
        recovery_window_millis > u64::MAX ==> service@.recovery_window_ms == u64::MAX,
        !service@.tasks.slots.contains_key(uuid),
        !service@.tasks.last_results.contains_key(uuid),
        service@.disks.contains_key(uuid) <==> exists|i: int|
            0 <= i < disks@.len() && (#[trigger] disks@[i])@.uuid == uuid,
{
    law_last_disk_of_an_identity_counts(disks@, uuid, 0);
    assert(!service@.tasks.slots.dom().contains(uuid));
    assert(!service@.tasks.last_results.dom().contains(uuid));
}

/// A change is looked up, checked and published on the disk that it names. A disk
/// that the service does not know is refused as such, a change that the disk
/// refuses with its reason; a change that SDB refused is not published.
pub proof fn law_change_stays_on_its_disk(
    service: &mut MemberDiskService,
    disk: &DiskUuid,
    change: MemberDiskUpdate,
    committed: Result<(), MetadataError>,
    result: Result<(), MemberDiskServiceError>,
    checked: Result<bool, MemberDiskServiceError>,
    other: Seq<char>,
)
    requires
        call_ensures(MemberDiskService::check_change, (&*old(service), disk, change), checked),
        call_ensures(
            MemberDiskService::finish_change,
            (service, disk, change, committed),
            result,
        ),
    ensures
        ({
            let before = old(service)@;
            let after = final(service)@;
            &&& !before.disks.contains_key(disk@) ==> checked == Err::<bool, _>(
                MemberDiskServiceError::UnknownDisk(*disk),
            )
            &&& before.disks.contains_key(disk@) ==> match before.disks[disk@].check(change) {
                Ok(changes) => checked == Ok::<bool, MemberDiskServiceError>(changes),
                Err(error) => checked == Err::<bool, _>(
                    MemberDiskServiceError::InvalidState(error),
                ),
            }
            &&& result is Ok <==> committed is Ok
            &&& committed is Ok ==> after.disks[disk@] == before.disks[disk@].updated(change)
            &&& committed matches Err(error) ==> after == before && result == Err::<(), _>(
                MemberDiskServiceError::Metadata(error),
            )
            &&& other != disk@ && before.disks.contains_key(other) ==> after.disks[other]
                == before.disks[other]
            &&& after.recovery_window_ms == before.recovery_window_ms
            &&& after.tasks == before.tasks
        }),
{
}

/// A disk is found exactly when the service knows it, as it is committed.
pub proof fn law_member_is_found_as_committed(
    service: MemberDiskService,
    disk: DiskUuid,
    result: Result<MemberDisk, MemberDiskServiceError>,
    busy: bool,
)
    requires
        call_ensures(MemberDiskService::get_member, (&service, &disk), result),
        call_ensures(MemberDiskService::is_busy, (&service, &disk), busy),
    ensures
        result is Ok <==> service@.disks.contains_key(disk@),
        result matches Ok(member) ==> member@ == service@.disks[disk@],
        result matches Err(error) ==> error == MemberDiskServiceError::UnknownDisk(disk),
        busy <==> service@.tasks.slots.contains_key(disk@),
{
}

/// A committed BLK is allocated on its disk and on no other, and nothing else of
/// the disk changes.
pub proof fn law_committed_blk_is_allocated_on_its_disk(
    service: &mut MemberDiskService,
    disk: &DiskUuid,
    blk: BlkId,
    allocated: (),
    other: Seq<char>,
)
    requires
        old(service)@.disks.contains_key(disk@),
        call_ensures(MemberDiskService::allocate_blk, (service, disk, blk), allocated),
    ensures
        ({
            let before = old(service)@.disks[disk@];
            let after = final(service)@.disks[disk@];
            &&& forall|index: int| #[trigger]
                after.allocated.contains(index) <==> before.allocated.contains(index) || index
                    == blk@
            &&& after.state() == before.state()
            &&& after.shrink_requested == before.shrink_requested
            &&& after.uuid == before.uuid
            &&& after.total_blks == before.total_blks
        }),
        other != disk@ && old(service)@.disks.contains_key(other) ==> final(service)@.disks[other]
            == old(service)@.disks[other],
        final(service)@.disks.dom() == old(service)@.disks.dom(),
        final(service)@.tasks == old(service)@.tasks,
{
    assert(final(service)@.disks.dom() =~= old(service)@.disks.dom());
}

/// Every disk has one place, in the order of the identities.
pub proof fn law_every_disk_has_its_place(
    service: MemberDiskService,
    count: usize,
    place: usize,
    disk: &MemberDisk,
    window: u64,
)
    requires
        call_ensures(MemberDiskService::disk_count, (&service,), count),
        call_ensures(MemberDiskService::disk_at, (&service, place), disk),
        call_ensures(MemberDiskService::recovery_window_ms, (&service,), window),
    ensures
        count == service@.disks.dom().len(),
        service@.disks.contains_key(disk@.uuid),
        disk@ == service@.disks[disk@.uuid],
        disk@.uuid == disk_order(service@.disks)[place as int],
        window == service@.recovery_window_ms,
{
}

} // verus!
