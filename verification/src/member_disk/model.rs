//! The MemberDisk business object.
use super::allocation::{all_allocated, lowest_free, AllocationBitmap, BlkId, BlkSize};
use crate::ordered_map::MapKey;
use crate::text::{decimal, decimal_text, text_before};
use vstd::prelude::*;
use vstd::std_specs::cmp::PartialEqSpec;
use vstd::string::StringExecFns;

verus! {

/// The one stable disk identity used by DiskMap, Pool and BG entries.
#[derive(Debug, Eq, Hash)]
pub struct DiskUuid(String);

impl PartialEq for DiskUuid {
    fn eq(&self, other: &Self) -> (result: bool) {
        self.0 == other.0
    }
}

impl vstd::std_specs::cmp::PartialEqSpecImpl for DiskUuid {
    open spec fn obeys_eq_spec() -> bool {
        true
    }

    open spec fn eq_spec(&self, other: &Self) -> bool {
        self@ == other@
    }
}

impl View for DiskUuid {
    type V = Seq<char>;

    closed spec fn view(&self) -> Seq<char> {
        self.0@
    }
}

impl Clone for DiskUuid {
    fn clone(&self) -> (copy: Self)
        ensures
            copy == *self,
    {
        DiskUuid(self.0.clone())
    }
}

impl DiskUuid {
    /// The identity written as `value`.
    pub fn new(value: &str) -> (uuid: Self)
        ensures
            uuid@ == value@,
    {
        DiskUuid(value.to_owned())
    }

    /// The identity as text.
    pub fn as_str(&self) -> (text: &str)
        ensures
            text@ == self@,
    {
        self.0.as_str()
    }

    /// The identity written out.
    pub fn to_string(&self) -> (text: String)
        ensures
            text@ == self@,
    {
        self.0.clone()
    }

    /// Whether two identities are the same.
    pub fn same(&self, other: &DiskUuid) -> (result: bool)
        ensures
            result == (self@ == other@),
    {
        self.0 == other.0
    }
}

/// A disk identity is its text: two are equal exactly when their texts are, so one
/// that was written out and read back is the same.
pub proof fn law_disk_identity_is_its_text(a: DiskUuid, b: DiskUuid)
    ensures
        a.eq_spec(&b) == (a@ == b@),
{
}

impl MapKey for DiskUuid {
    open spec fn before(a: Seq<char>, b: Seq<char>) -> bool {
        text_before(a, b)
    }

    proof fn order_laws(a: Seq<char>, b: Seq<char>, c: Seq<char>) {
        crate::text::lemma_text_order(a, b, c);
    }

    fn precedes(&self, other: &Self) -> (result: bool) {
        crate::text::precedes(self.as_str(), other.as_str())
    }

    fn duplicate(&self) -> (copy: Self) {
        self.clone()
    }
}

/// One place of a disk in the failure topology, such as its rack.
#[derive(Debug, PartialEq, Eq)]
pub struct FailureDomain {
    pub kind: String,
    pub id: String,
}

impl Clone for FailureDomain {
    fn clone(&self) -> (copy: Self)
        ensures
            copy == *self,
    {
        FailureDomain { kind: self.kind.clone(), id: self.id.clone() }
    }
}

impl FailureDomain {
    /// Domain `id` of kind `kind`.
    pub fn new(kind: &str, id: &str) -> (domain: Self)
        ensures
            domain.kind@ == kind@,
            domain.id@ == id@,
    {
        FailureDomain { kind: kind.to_owned(), id: id.to_owned() }
    }
}

/// Effective IO state of one disk.
#[derive(Debug, Clone, Copy, PartialEq, Eq, Structural)]
pub enum DiskIoState {
    Up,
    Down,
}

/// A field-level, durable change to one MemberDisk.
///
/// Workflows submit this intent to the metadata service instead of passing a
/// cloned MemberDisk snapshot across the persistence boundary.
#[derive(Debug, Clone, Copy, PartialEq, Eq, Structural)]
pub enum MemberDiskUpdate {
    RequestShrink,
    ApplyDown,
    CompleteOnline,
    DisableAllocation,
    Remove,
    Rejoin,
}

/// Whether new BLKs may be allocated.
#[derive(Debug, Clone, Copy, PartialEq, Eq, Structural)]
pub enum AllocationState {
    Active,
    Inactive,
}

/// Whether the disk belongs to the Pool.
#[derive(Debug, Clone, Copy, PartialEq, Eq, Structural)]
pub enum MembershipState {
    Member,
    Removed,
}

/// Read-only projection of the three authoritative state dimensions.
#[derive(Debug, Clone, Copy, PartialEq, Eq, Structural)]
pub enum MemberDiskState {
    UpActive,
    DownActive,
    DownInactive,
    UpInactive,
    Removed,
}

impl MemberDiskState {
    /// The state with the given dimensions.
    pub open spec fn projection(
        io: DiskIoState,
        allocation: AllocationState,
        membership: MembershipState,
    ) -> MemberDiskState {
        match (membership, io, allocation) {
            (MembershipState::Removed, _, _) => MemberDiskState::Removed,
            (_, DiskIoState::Up, AllocationState::Active) => MemberDiskState::UpActive,
            (_, DiskIoState::Down, AllocationState::Active) => MemberDiskState::DownActive,
            (_, DiskIoState::Down, AllocationState::Inactive) => MemberDiskState::DownInactive,
            (_, DiskIoState::Up, AllocationState::Inactive) => MemberDiskState::UpInactive,
        }
    }

    /// The name of the state.
    pub open spec fn name_text(self) -> Seq<char> {
        match self {
            MemberDiskState::UpActive => "UpActive"@,
            MemberDiskState::DownActive => "DownActive"@,
            MemberDiskState::DownInactive => "DownInactive"@,
            MemberDiskState::UpInactive => "UpInactive"@,
            MemberDiskState::Removed => "Removed"@,
        }
    }

    /// Derives the state from its dimensions.
    pub fn project(
        io: DiskIoState,
        allocation: AllocationState,
        membership: MembershipState,
    ) -> (state: Self)
        ensures
            state == Self::projection(io, allocation, membership),
    {
        match membership {
            MembershipState::Removed => MemberDiskState::Removed,
            MembershipState::Member => match (io, allocation) {
                (DiskIoState::Up, AllocationState::Active) => MemberDiskState::UpActive,
                (DiskIoState::Down, AllocationState::Active) => MemberDiskState::DownActive,
                (DiskIoState::Down, AllocationState::Inactive) => MemberDiskState::DownInactive,
                (DiskIoState::Up, AllocationState::Inactive) => MemberDiskState::UpInactive,
            },
        }
    }

    /// The name of the state.
    pub fn name(self) -> (name: &'static str)
        ensures
            name@ == self.name_text(),
    {
        match self {
            MemberDiskState::UpActive => "UpActive",
            MemberDiskState::DownActive => "DownActive",
            MemberDiskState::DownInactive => "DownInactive",
            MemberDiskState::UpInactive => "UpInactive",
            MemberDiskState::Removed => "Removed",
        }
    }
}

/// Why a MemberDisk refuses a change.
#[derive(Debug, Clone, Copy, PartialEq, Eq, Structural)]
pub enum MemberDiskError {
    CapacityTooSmall { capacity_bytes: u64, minimum_bytes: u64 },
    NotAllocatable { state: MemberDiskState },
    NoFreeBlk,
    BlkOutOfRange { blk: BlkId, total_blks: u64 },
    BlkNotAllocated { blk: BlkId },
    BlkAlreadyAllocated { blk: BlkId },
    AllocationStillActive,
    BlksStillAllocated { allocated_blks: u64 },
    AlreadyRemoved,
}

impl MemberDiskError {
    /// The message for operators.
    pub open spec fn message(self) -> Seq<char> {
        match self {
            MemberDiskError::CapacityTooSmall { capacity_bytes, minimum_bytes } => {
                "member disk capacity "@ + decimal_text(capacity_bytes as nat)
                    + " is smaller than one BLK ("@ + decimal_text(minimum_bytes as nat) + ")"@
            },
            MemberDiskError::NotAllocatable { state } => {
                "member disk is not allocatable in state "@ + state.name_text()
            },
            MemberDiskError::NoFreeBlk => "member disk has no free BLK"@,
            MemberDiskError::BlkOutOfRange { blk, total_blks } => {
                "BLK "@ + decimal_text(blk@ as nat) + " is outside member disk range 0.."@
                    + decimal_text(total_blks as nat)
            },
            MemberDiskError::BlkNotAllocated { blk } => {
                "BLK "@ + decimal_text(blk@ as nat) + " is not allocated"@
            },
            MemberDiskError::BlkAlreadyAllocated { blk } => {
                "BLK "@ + decimal_text(blk@ as nat) + " is already allocated"@
            },
            MemberDiskError::AllocationStillActive => {
                "allocation must be disabled before removing member disk"@
            },
            MemberDiskError::BlksStillAllocated { allocated_blks } => {
                "member disk still owns "@ + decimal_text(allocated_blks as nat) + " allocated BLKs"@
            },
            MemberDiskError::AlreadyRemoved => "member disk has already been removed"@,
        }
    }

    /// Writes the message for operators.
    pub fn to_string(&self) -> (text: String)
        ensures
            text@ == self.message(),
    {
        match self {
            MemberDiskError::CapacityTooSmall { capacity_bytes, minimum_bytes } => {
                let mut text = "member disk capacity ".to_owned();
                text.append(decimal(*capacity_bytes).as_str());
                text.append(" is smaller than one BLK (");
                text.append(decimal(*minimum_bytes).as_str());
                text.append(")");
                text
            },
            MemberDiskError::NotAllocatable { state } => {
                let mut text = "member disk is not allocatable in state ".to_owned();
                text.append(state.name());
                text
            },
            MemberDiskError::NoFreeBlk => "member disk has no free BLK".to_owned(),
            MemberDiskError::BlkOutOfRange { blk, total_blks } => {
                let mut text = "BLK ".to_owned();
                text.append(decimal(blk.index()).as_str());
                text.append(" is outside member disk range 0..");
                text.append(decimal(*total_blks).as_str());
                text
            },
            MemberDiskError::BlkNotAllocated { blk } => {
                let mut text = "BLK ".to_owned();
                text.append(decimal(blk.index()).as_str());
                text.append(" is not allocated");
                text
            },
            MemberDiskError::BlkAlreadyAllocated { blk } => {
                let mut text = "BLK ".to_owned();
                text.append(decimal(blk.index()).as_str());
                text.append(" is already allocated");
                text
            },
            MemberDiskError::AllocationStillActive => {
                "allocation must be disabled before removing member disk".to_owned()
            },
            MemberDiskError::BlksStillAllocated { allocated_blks } => {
                let mut text = "member disk still owns ".to_owned();
                text.append(decimal(*allocated_blks).as_str());
                text.append(" allocated BLKs");
                text
            },
            MemberDiskError::AlreadyRemoved => "member disk has already been removed".to_owned(),
        }
    }
}

/// Everything that is known of one MemberDisk.
pub struct MemberDiskView {
    pub uuid: Seq<char>,
    pub pool_id: Seq<char>,
    pub tier_id: Seq<char>,
    pub media_class: Seq<char>,
    pub capacity_bytes: u64,
    pub failure_domains: Seq<FailureDomain>,
    pub shrink_requested: bool,
    pub io_state: DiskIoState,
    pub allocation_state: AllocationState,
    pub membership_state: MembershipState,
    pub total_blks: u64,
    pub allocated: Set<int>,
}

impl MemberDiskView {
    /// The derived operational state.
    pub open spec fn state(self) -> MemberDiskState {
        MemberDiskState::projection(self.io_state, self.allocation_state, self.membership_state)
    }

    /// Whether user IO reaches the disk.
    pub open spec fn can_serve_io(self) -> bool {
        self.io_state == DiskIoState::Up && self.membership_state == MembershipState::Member
    }

    /// Whether a BLK may be allocated: the disk is an active member that is up.
    pub open spec fn can_allocate(self) -> bool {
        self.can_serve_io() && self.allocation_state == AllocationState::Active
    }

    /// What every MemberDisk keeps: its BLKs fill its capacity, only they are
    /// allocated, and a removed disk is down, inactive and empty.
    pub open spec fn valid(self) -> bool {
        &&& self.total_blks == self.capacity_bytes / BlkSize::of_capacity(self.capacity_bytes).size()
        &&& self.total_blks > 0
        &&& self.allocated.finite()
        &&& self.allocated.len() <= self.total_blks
        &&& forall|index: int| #[trigger]
            self.allocated.contains(index) ==> 0 <= index < self.total_blks
        &&& self.membership_state == MembershipState::Removed ==> {
            &&& self.io_state == DiskIoState::Down
            &&& self.allocation_state == AllocationState::Inactive
            &&& self.allocated == Set::<int>::empty()
        }
    }

    /// The outcome of checking `update`: whether it changes the disk, or why
    /// it is refused.
    pub open spec fn check(self, update: MemberDiskUpdate) -> Result<bool, MemberDiskError> {
        if self.membership_state == MembershipState::Removed {
            match update {
                MemberDiskUpdate::Rejoin => Ok(true),
                MemberDiskUpdate::RequestShrink => Ok(false),
                _ => Err(MemberDiskError::AlreadyRemoved),
            }
        } else {
            match update {
                MemberDiskUpdate::RequestShrink => Ok(!self.shrink_requested),
                MemberDiskUpdate::ApplyDown => Ok(self.io_state == DiskIoState::Up),
                MemberDiskUpdate::CompleteOnline => Ok(
                    self.io_state == DiskIoState::Down || self.allocation_state
                        == AllocationState::Inactive,
                ),
                MemberDiskUpdate::DisableAllocation => Ok(
                    self.allocation_state == AllocationState::Active,
                ),
                MemberDiskUpdate::Remove => if self.allocation_state == AllocationState::Active {
                    Err(MemberDiskError::AllocationStillActive)
                } else if self.allocated.len() != 0 {
                    Err(
                        MemberDiskError::BlksStillAllocated {
                            allocated_blks: self.allocated.len() as u64,
                        },
                    )
                } else {
                    Ok(true)
                },
                MemberDiskUpdate::Rejoin => Ok(false),
            }
        }
    }

    /// The disk after `update`.
    pub open spec fn updated(self, update: MemberDiskUpdate) -> MemberDiskView {
        match update {
            MemberDiskUpdate::RequestShrink => MemberDiskView { shrink_requested: true, ..self },
            MemberDiskUpdate::ApplyDown => MemberDiskView { io_state: DiskIoState::Down, ..self },
            MemberDiskUpdate::CompleteOnline => MemberDiskView {
                io_state: DiskIoState::Up,
                allocation_state: AllocationState::Active,
                ..self
            },
            MemberDiskUpdate::DisableAllocation => MemberDiskView {
                allocation_state: AllocationState::Inactive,
                ..self
            },
            MemberDiskUpdate::Remove => MemberDiskView {
                io_state: DiskIoState::Down,
                membership_state: MembershipState::Removed,
                ..self
            },
            MemberDiskUpdate::Rejoin => MemberDiskView {
                io_state: DiskIoState::Up,
                allocation_state: AllocationState::Active,
                membership_state: MembershipState::Member,
                shrink_requested: false,
                ..self
            },
        }
    }

    /// The disk after `update` went through its check: changed where the check
    /// says so, the same otherwise.
    pub open spec fn submitted(self, update: MemberDiskUpdate) -> MemberDiskView {
        if self.check(update) == Ok::<bool, MemberDiskError>(true) {
            self.updated(update)
        } else {
            self
        }
    }
}

/// A physical disk after it joins one Pool.
///
/// This is the only MemberDisk business object. Runtime tasks, workflows and
/// state-machine execution data must not be stored here.
#[derive(Debug, PartialEq, Eq)]
pub struct MemberDisk {
    uuid: DiskUuid,
    pool_id: String,
    tier_id: String,
    media_class: String,
    capacity_bytes: u64,
    failure_domains: Vec<FailureDomain>,
    // Durable management intent produced by a Shrink request. Physical UP or
    // DOWN facts do not erase it while removal is in progress.
    shrink_requested: bool,
    // Effective IO state used by Pool decisions.
    io_state: DiskIoState,
    // Pool decisions persisted by the MemberDisk domain.
    allocation_state: AllocationState,
    membership_state: MembershipState,
    allocation_bitmap: AllocationBitmap,
}

impl View for MemberDisk {
    type V = MemberDiskView;

    closed spec fn view(&self) -> MemberDiskView {
        MemberDiskView {
            uuid: self.uuid@,
            pool_id: self.pool_id@,
            tier_id: self.tier_id@,
            media_class: self.media_class@,
            capacity_bytes: self.capacity_bytes,
            failure_domains: self.failure_domains@,
            shrink_requested: self.shrink_requested,
            io_state: self.io_state,
            allocation_state: self.allocation_state,
            membership_state: self.membership_state,
            total_blks: self.allocation_bitmap.total(),
            allocated: self.allocation_bitmap.allocated(),
        }
    }
}

impl Clone for MemberDisk {
    fn clone(&self) -> (copy: Self)
        ensures
            copy@ == self@,
            self.wf() ==> copy.wf(),
    {
        let failure_domains = self.failure_domains.clone();
        assert(failure_domains@ =~= self.failure_domains@);
        MemberDisk {
            uuid: self.uuid.clone(),
            pool_id: self.pool_id.clone(),
            tier_id: self.tier_id.clone(),
            media_class: self.media_class.clone(),
            capacity_bytes: self.capacity_bytes,
            failure_domains,
            shrink_requested: self.shrink_requested,
            io_state: self.io_state,
            allocation_state: self.allocation_state,
            membership_state: self.membership_state,
            allocation_bitmap: self.allocation_bitmap.clone(),
        }
    }
}

impl MemberDisk {
    /// The disk is valid and its bitmap has one bit for each BLK.
    pub closed spec fn wf(&self) -> bool {
        self.allocation_bitmap.wf() && self@.valid()
    }

    /// A well-formed disk is valid.
    pub proof fn lemma_valid(&self)
        requires
            self.wf(),
        ensures
            self@.valid(),
    {
    }

    /// Creates a new Pool member in Down state with all BLKs free.
    pub fn new(
        uuid: DiskUuid,
        pool_id: &str,
        tier_id: &str,
        media_class: &str,
        capacity_bytes: u64,
        failure_domains: Vec<FailureDomain>,
    ) -> (result: Result<Self, MemberDiskError>)
        ensures
            ({
                let size = BlkSize::of_capacity(capacity_bytes).size();
                match result {
                    Ok(disk) => {
                        &&& capacity_bytes >= size
                        &&& disk.wf()
                        &&& disk@ == MemberDiskView {
                            uuid: uuid@,
                            pool_id: pool_id@,
                            tier_id: tier_id@,
                            media_class: media_class@,
                            capacity_bytes,
                            failure_domains: failure_domains@,
                            shrink_requested: false,
                            io_state: DiskIoState::Down,
                            allocation_state: AllocationState::Active,
                            membership_state: MembershipState::Member,
                            total_blks: capacity_bytes / size,
                            allocated: Set::<int>::empty(),
                        }
                    },
                    Err(error) => {
                        &&& capacity_bytes < size
                        &&& error == MemberDiskError::CapacityTooSmall {
                            capacity_bytes,
                            minimum_bytes: size,
                        }
                    },
                }
            }),
    {
        let blk_size = BlkSize::for_capacity(capacity_bytes);
        let bytes: u64 = blk_size.bytes();
        let total_blks: u64 = capacity_bytes / bytes;
        proof {
            assert(capacity_bytes < bytes ==> total_blks == 0) by (nonlinear_arith)
                requires
                    total_blks == capacity_bytes / bytes,
                    bytes > 0,
            ;
            assert(capacity_bytes >= bytes ==> total_blks >= 1) by (nonlinear_arith)
                requires
                    total_blks == capacity_bytes / bytes,
                    bytes > 0,
            ;
            assert(total_blks <= 0x4_0000_0000u64) by (nonlinear_arith)
                requires
                    total_blks == capacity_bytes / bytes,
                    bytes >= 0x4000_0000u64,
                    capacity_bytes <= u64::MAX,
            ;
        }
        if total_blks == 0 {
            return Err(MemberDiskError::CapacityTooSmall { capacity_bytes, minimum_bytes: bytes });
        }
        let disk = MemberDisk {
            uuid,
            pool_id: pool_id.to_owned(),
            tier_id: tier_id.to_owned(),
            media_class: media_class.to_owned(),
            capacity_bytes,
            failure_domains,
            shrink_requested: false,
            io_state: DiskIoState::Down,
            allocation_state: AllocationState::Active,
            membership_state: MembershipState::Member,
            allocation_bitmap: AllocationBitmap::empty(total_blks),
        };
        Ok(disk)
    }

    /// The identity of the disk.
    pub fn uuid(&self) -> (uuid: &DiskUuid)
        ensures
            uuid@ == self@.uuid,
    {
        &self.uuid
    }

    /// The Pool that the disk joined.
    pub fn pool_id(&self) -> (id: &str)
        ensures
            id@ == self@.pool_id,
    {
        self.pool_id.as_str()
    }

    /// The Tier of the disk.
    pub fn tier_id(&self) -> (id: &str)
        ensures
            id@ == self@.tier_id,
    {
        self.tier_id.as_str()
    }

    /// Whether the disk belongs to `tier`.
    pub fn in_tier(&self, tier: &String) -> (result: bool)
        ensures
            result == (self@.tier_id == tier@),
    {
        self.tier_id == *tier
    }

    /// The medium of the disk.
    pub fn media_class(&self) -> (class: &str)
        ensures
            class@ == self@.media_class,
    {
        self.media_class.as_str()
    }

    /// The capacity of the disk.
    pub fn capacity_bytes(&self) -> (bytes: u64)
        ensures
            bytes == self@.capacity_bytes,
    {
        self.capacity_bytes
    }

    /// The places of the disk in the failure topology.
    pub fn failure_domains(&self) -> (domains: &[FailureDomain])
        ensures
            domains@ == self@.failure_domains,
    {
        self.failure_domains.as_slice()
    }

    /// The effective IO state.
    pub fn io_state(&self) -> (state: DiskIoState)
        ensures
            state == self@.io_state,
    {
        self.io_state
    }

    /// Whether a planned removal was requested.
    pub fn shrink_requested(&self) -> (requested: bool)
        ensures
            requested == self@.shrink_requested,
    {
        self.shrink_requested
    }

    /// Whether new BLKs may be allocated.
    pub fn allocation_state(&self) -> (state: AllocationState)
        ensures
            state == self@.allocation_state,
    {
        self.allocation_state
    }

    /// Whether the disk belongs to its Pool.
    pub fn membership_state(&self) -> (state: MembershipState)
        ensures
            state == self@.membership_state,
    {
        self.membership_state
    }

    /// The allocated BLKs.
    pub fn allocation_bitmap(&self) -> (bitmap: &AllocationBitmap)
        ensures
            self.wf() ==> bitmap.wf(),
            bitmap.total() == self@.total_blks,
            bitmap.allocated() == self@.allocated,
    {
        &self.allocation_bitmap
    }

    /// The size of the BLKs.
    pub fn blk_size(&self) -> (size: BlkSize)
        ensures
            size == BlkSize::of_capacity(self@.capacity_bytes),
    {
        BlkSize::for_capacity(self.capacity_bytes)
    }

    /// Derived operational state. It is never stored as another source of
    /// truth.
    pub fn state(&self) -> (state: MemberDiskState)
        ensures
            state == self@.state(),
    {
        MemberDiskState::project(self.io_state, self.allocation_state, self.membership_state)
    }

    /// Whether user IO reaches the disk.
    pub fn can_serve_io(&self) -> (result: bool)
        ensures
            result == self@.can_serve_io(),
    {
        self.io_state == DiskIoState::Up && self.membership_state == MembershipState::Member
    }

    /// Whether a BLK may be allocated.
    pub fn can_allocate(&self) -> (result: bool)
        ensures
            result == self@.can_allocate(),
    {
        self.can_serve_io() && self.allocation_state == AllocationState::Active
    }

    /// Commits the result of the completed two-stage user_dp online workflow.
    pub fn mark_io_up(&mut self) -> (result: Result<bool, MemberDiskError>)
        requires
            old(self).wf(),
        ensures
            final(self).wf(),
            result == (if old(self)@.membership_state == MembershipState::Removed {
                Err(MemberDiskError::AlreadyRemoved)
            } else {
                Ok(old(self)@.io_state == DiskIoState::Down)
            }),
            final(self)@ == (if result is Ok {
                MemberDiskView { io_state: DiskIoState::Up, ..old(self)@ }
            } else {
                old(self)@
            }),
    {
        match self.ensure_member() {
            Err(error) => Err(error),
            Ok(()) => {
                if self.io_state == DiskIoState::Up {
                    return Ok(false);
                }
                self.io_state = DiskIoState::Up;
                Ok(true)
            },
        }
    }

    /// Commits a completed online workflow as one object transition.
    ///
    /// Opening the disk and publishing UP to user_dp happen before this call.
    pub fn complete_online(&mut self) -> (result: Result<bool, MemberDiskError>)
        requires
            old(self).wf(),
        ensures
            final(self).wf(),
            result == old(self)@.check(MemberDiskUpdate::CompleteOnline),
            final(self)@ == old(self)@.submitted(MemberDiskUpdate::CompleteOnline),
    {
        self.apply_locally(MemberDiskUpdate::CompleteOnline)
    }

    /// Prevents new BLK allocation while preserving existing BLKs.
    pub fn disable_allocation(&mut self) -> (result: Result<bool, MemberDiskError>)
        requires
            old(self).wf(),
        ensures
            final(self).wf(),
            result == old(self)@.check(MemberDiskUpdate::DisableAllocation),
            final(self)@ == old(self)@.submitted(MemberDiskUpdate::DisableAllocation),
    {
        self.apply_locally(MemberDiskUpdate::DisableAllocation)
    }

    /// Allows allocation again. While IO is Down this produces `DownActive`,
    /// but allocation remains impossible until the online workflow completes.
    pub fn enable_allocation(&mut self) -> (result: Result<bool, MemberDiskError>)
        requires
            old(self).wf(),
        ensures
            final(self).wf(),
            result == (if old(self)@.membership_state == MembershipState::Removed {
                Err(MemberDiskError::AlreadyRemoved)
            } else {
                Ok(old(self)@.allocation_state == AllocationState::Inactive)
            }),
            final(self)@ == (if result is Ok {
                MemberDiskView { allocation_state: AllocationState::Active, ..old(self)@ }
            } else {
                old(self)@
            }),
    {
        match self.ensure_member() {
            Err(error) => Err(error),
            Ok(()) => {
                if self.allocation_state == AllocationState::Active {
                    return Ok(false);
                }
                self.allocation_state = AllocationState::Active;
                Ok(true)
            },
        }
    }

    /// Allocates the free BLK with the lowest number.
    pub fn allocate_blk(&mut self) -> (result: Result<BlkId, MemberDiskError>)
        requires
            old(self).wf(),
        ensures
            final(self).wf(),
            match result {
                Ok(blk) => {
                    &&& old(self)@.can_allocate()
                    &&& lowest_free(old(self)@.allocated, old(self)@.total_blks, blk@)
                    &&& final(self)@ == MemberDiskView {
                        allocated: old(self)@.allocated.insert(blk@ as int),
                        ..old(self)@
                    }
                },
                Err(error) => {
                    &&& error == (if !old(self)@.can_allocate() {
                        MemberDiskError::NotAllocatable { state: old(self)@.state() }
                    } else {
                        MemberDiskError::NoFreeBlk
                    })
                    &&& old(self)@.can_allocate() ==> all_allocated(
                        old(self)@.allocated,
                        old(self)@.total_blks,
                    )
                    &&& final(self)@ == old(self)@
                },
            },
    {
        if !self.can_allocate() {
            return Err(MemberDiskError::NotAllocatable { state: self.state() });
        }
        let result = self.allocation_bitmap.allocate_one();
        proof {
            self.allocation_bitmap.lemma_allocated_bounds();
        }
        result
    }

    /// The BLK that an allocation would take. Nothing changes.
    pub fn plan_blk_allocation(&self) -> (result: Result<BlkId, MemberDiskError>)
        requires
            self.wf(),
        ensures
            match result {
                Ok(blk) => {
                    &&& self@.can_allocate()
                    &&& lowest_free(self@.allocated, self@.total_blks, blk@)
                },
                Err(error) => {
                    &&& error == (if !self@.can_allocate() {
                        MemberDiskError::NotAllocatable { state: self@.state() }
                    } else {
                        MemberDiskError::NoFreeBlk
                    })
                    &&& self@.can_allocate() ==> all_allocated(self@.allocated, self@.total_blks)
                },
            },
    {
        if !self.can_allocate() {
            return Err(MemberDiskError::NotAllocatable { state: self.state() });
        }
        match self.allocation_bitmap.next_free() {
            Some(blk) => Ok(blk),
            None => Err(MemberDiskError::NoFreeBlk),
        }
    }

    /// Applies an allocation that the metadata service has already committed.
    pub fn apply_committed_allocation(&mut self, blk: BlkId)
        requires
            old(self).wf(),
            old(self)@.membership_state == MembershipState::Member,
            blk@ < old(self)@.total_blks,
            !old(self)@.allocated.contains(blk@ as int),
        ensures
            final(self).wf(),
            final(self)@ == (MemberDiskView {
                allocated: old(self)@.allocated.insert(blk@ as int),
                ..old(self)@
            }),
    {
        let result = self.allocation_bitmap.mark_allocated(blk);
        proof {
            assert(result is Ok);
            self.allocation_bitmap.lemma_allocated_bounds();
        }
    }

    /// Releases an existing BLK even while the disk is Down or Inactive.
    pub fn release_blk(&mut self, blk: BlkId) -> (result: Result<(), MemberDiskError>)
        requires
            old(self).wf(),
        ensures
            final(self).wf(),
            result == (if old(self)@.membership_state == MembershipState::Removed {
                Err(MemberDiskError::AlreadyRemoved)
            } else if blk@ >= old(self)@.total_blks {
                Err(MemberDiskError::BlkOutOfRange { blk, total_blks: old(self)@.total_blks })
            } else if !old(self)@.allocated.contains(blk@ as int) {
                Err(MemberDiskError::BlkNotAllocated { blk })
            } else {
                Ok(())
            }),
            final(self)@ == (if result is Ok {
                MemberDiskView { allocated: old(self)@.allocated.remove(blk@ as int), ..old(self)@ }
            } else {
                old(self)@
            }),
    {
        match self.ensure_member() {
            Err(error) => Err(error),
            Ok(()) => {
                let result = self.allocation_bitmap.release(blk);
                proof {
                    self.allocation_bitmap.lemma_allocated_bounds();
                }
                result
            },
        }
    }

    /// Removes the disk after allocation has stopped and every BLK was returned.
    pub fn remove(&mut self) -> (result: Result<(), MemberDiskError>)
        requires
            old(self).wf(),
        ensures
            final(self).wf(),
            result == (match old(self)@.check(MemberDiskUpdate::Remove) {
                Ok(_) => Ok::<(), MemberDiskError>(()),
                Err(error) => Err(error),
            }),
            final(self)@ == old(self)@.submitted(MemberDiskUpdate::Remove),
    {
        match self.apply_locally(MemberDiskUpdate::Remove) {
            Ok(_) => Ok(()),
            Err(error) => Err(error),
        }
    }

    /// Restores a previously removed member as an online allocatable disk.
    /// Opening the disk and publishing UP happen before this transition.
    pub fn rejoin(&mut self) -> (result: Result<bool, MemberDiskError>)
        requires
            old(self).wf(),
        ensures
            final(self).wf(),
            result == old(self)@.check(MemberDiskUpdate::Rejoin),
            final(self)@ == old(self)@.submitted(MemberDiskUpdate::Rejoin),
    {
        self.apply_locally(MemberDiskUpdate::Rejoin)
    }

    /// Checks one durable update without changing the in-memory object.
    ///
    /// The service calls this before submitting the same update to the metadata
    /// service, so that the durable copy can be committed before memory
    /// changes.
    pub fn validate_update(&self, update: &MemberDiskUpdate) -> (result: Result<bool, MemberDiskError>)
        requires
            self.wf(),
        ensures
            result == self@.check(*update),
    {
        if *update == MemberDiskUpdate::Rejoin {
            return Ok(self.membership_state == MembershipState::Removed);
        }
        if *update == MemberDiskUpdate::RequestShrink && self.membership_state
            == MembershipState::Removed {
            return Ok(false);
        }
        match self.ensure_member() {
            Err(error) => {
                return Err(error);
            },
            Ok(()) => {},
        }
        match update {
            MemberDiskUpdate::RequestShrink => Ok(!self.shrink_requested),
            MemberDiskUpdate::ApplyDown => Ok(self.io_state != DiskIoState::Down),
            MemberDiskUpdate::CompleteOnline => Ok(
                self.io_state != DiskIoState::Up || self.allocation_state != AllocationState::Active,
            ),
            MemberDiskUpdate::DisableAllocation => Ok(
                self.allocation_state != AllocationState::Inactive,
            ),
            MemberDiskUpdate::Remove => {
                if self.allocation_state == AllocationState::Active {
                    return Err(MemberDiskError::AllocationStillActive);
                }
                let allocated_blks = self.allocation_bitmap.allocated_blks();
                if allocated_blks != 0 {
                    return Err(MemberDiskError::BlksStillAllocated { allocated_blks });
                }
                Ok(true)
            },
            MemberDiskUpdate::Rejoin => Ok(false),
        }
    }

    /// Applies an update that the metadata service has already committed.
    ///
    /// Every domain check happened in `validate_update` before the durable
    /// write, so this cannot fail.
    pub fn apply_committed(&mut self, update: &MemberDiskUpdate)
        requires
            old(self).wf(),
            old(self)@.check(*update) is Ok,
        ensures
            final(self).wf(),
            final(self)@ == old(self)@.updated(*update),
    {
        match update {
            MemberDiskUpdate::RequestShrink => {
                self.shrink_requested = true;
            },
            MemberDiskUpdate::ApplyDown => {
                self.io_state = DiskIoState::Down;
            },
            MemberDiskUpdate::CompleteOnline => {
                self.io_state = DiskIoState::Up;
                self.allocation_state = AllocationState::Active;
            },
            MemberDiskUpdate::DisableAllocation => {
                self.allocation_state = AllocationState::Inactive;
            },
            MemberDiskUpdate::Remove => {
                self.io_state = DiskIoState::Down;
                self.membership_state = MembershipState::Removed;
                proof {
                    vstd::set_lib::lemma_set_empty_equivalency_len(self@.allocated);
                    assert(self@.allocated =~= Set::<int>::empty());
                }
            },
            MemberDiskUpdate::Rejoin => {
                self.io_state = DiskIoState::Up;
                self.allocation_state = AllocationState::Active;
                self.membership_state = MembershipState::Member;
                self.shrink_requested = false;
            },
        }
    }

    fn apply_locally(&mut self, update: MemberDiskUpdate) -> (result: Result<bool, MemberDiskError>)
        requires
            old(self).wf(),
        ensures
            final(self).wf(),
            result == old(self)@.check(update),
            final(self)@ == old(self)@.submitted(update),
    {
        match self.validate_update(&update) {
            Ok(changed) => {
                if changed {
                    self.apply_committed(&update);
                }
                Ok(changed)
            },
            Err(error) => Err(error),
        }
    }

    fn ensure_member(&self) -> (result: Result<(), MemberDiskError>)
        ensures
            result == (if self@.membership_state == MembershipState::Removed {
                Err(MemberDiskError::AlreadyRemoved)
            } else {
                Ok(())
            }),
    {
        if self.membership_state == MembershipState::Removed {
            Err(MemberDiskError::AlreadyRemoved)
        } else {
            Ok(())
        }
    }
}

/// Law: an accepted update keeps a disk valid and, submitted again, changes
/// nothing more.
pub proof fn law_update_settles(disk: MemberDiskView, update: MemberDiskUpdate)
    requires
        disk.valid(),
        disk.check(update) is Ok,
    ensures
        disk.submitted(update).valid(),
        disk.submitted(update).check(update) != Ok::<bool, MemberDiskError>(true),
        disk.submitted(update).submitted(update) == disk.submitted(update),
{
    if update == MemberDiskUpdate::Remove {
        vstd::set_lib::lemma_set_empty_equivalency_len(disk.allocated);
        assert(disk.allocated =~= Set::<int>::empty());
    }
}

/// Law: the Shrink intent survives every update except a rejoin.
pub proof fn law_only_rejoin_clears_shrink(disk: MemberDiskView, update: MemberDiskUpdate)
    requires
        disk.shrink_requested,
        update != MemberDiskUpdate::Rejoin,
    ensures
        disk.submitted(update).shrink_requested,
{
}

/// Law: no update touches the identity, the capacity or the BLKs of a disk.
pub proof fn law_updates_keep_identity_and_blks(disk: MemberDiskView, update: MemberDiskUpdate)
    ensures
        disk.submitted(update).uuid == disk.uuid,
        disk.submitted(update).pool_id == disk.pool_id,
        disk.submitted(update).tier_id == disk.tier_id,
        disk.submitted(update).media_class == disk.media_class,
        disk.submitted(update).capacity_bytes == disk.capacity_bytes,
        disk.submitted(update).failure_domains == disk.failure_domains,
        disk.submitted(update).total_blks == disk.total_blks,
        disk.submitted(update).allocated == disk.allocated,
{
}

/// Law: a disk leaves its Pool only after allocation stopped and every BLK
/// was returned, and it is down from then on.
pub proof fn law_removal_needs_inactive_empty_disk(disk: MemberDiskView, update: MemberDiskUpdate)
    requires
        disk.valid(),
        disk.membership_state == MembershipState::Member,
        disk.submitted(update).membership_state == MembershipState::Removed,
    ensures
        disk.allocation_state == AllocationState::Inactive,
        disk.allocated == Set::<int>::empty(),
        !disk.submitted(update).can_serve_io(),
        !disk.submitted(update).can_allocate(),
{
    vstd::set_lib::lemma_set_empty_equivalency_len(disk.allocated);
    assert(disk.allocated =~= Set::<int>::empty());
}

/// Law: a removed disk comes back as an online allocatable member without
/// Shrink intent, and only a rejoin brings it back.
pub proof fn law_rejoin_restores_up_active(disk: MemberDiskView, update: MemberDiskUpdate)
    requires
        disk.valid(),
        disk.state() == MemberDiskState::Removed,
    ensures
        disk.submitted(MemberDiskUpdate::Rejoin).state() == MemberDiskState::UpActive,
        disk.submitted(MemberDiskUpdate::Rejoin).can_allocate(),
        !disk.submitted(MemberDiskUpdate::Rejoin).shrink_requested,
        update != MemberDiskUpdate::Rejoin ==> disk.submitted(update) == disk,
{
}

/// Law: allocation is possible in exactly one operational state.
pub proof fn law_allocation_requires_up_active(disk: MemberDiskView)
    ensures
        disk.can_allocate() <==> disk.state() == MemberDiskState::UpActive,
        disk.can_serve_io() <==> disk.state() == MemberDiskState::UpActive || disk.state()
            == MemberDiskState::UpInactive,
{
}

/// Law: returning a BLK undoes its allocation.
pub proof fn law_release_undoes_allocation(disk: MemberDiskView, blk: u64)
    requires
        disk.valid(),
        lowest_free(disk.allocated, disk.total_blks, blk),
    ensures
        disk.allocated.insert(blk as int).remove(blk as int) == disk.allocated,
        disk.allocated.insert(blk as int).len() == disk.allocated.len() + 1,
{
    assert(disk.allocated.insert(blk as int).remove(blk as int) =~= disk.allocated);
}

/// Law: the operational state is read off the three dimensions. A removed disk
/// is `Removed` whatever else is known of it; of a member the state names its IO
/// and its allocation.
pub proof fn law_state_names_the_dimensions(
    io: DiskIoState,
    allocation: AllocationState,
    membership: MembershipState,
)
    ensures
        ({
            let state = MemberDiskState::projection(io, allocation, membership);
            &&& state is Removed <==> membership is Removed
            &&& membership is Member ==> {
                &&& io is Up <==> state is UpActive || state is UpInactive
                &&& io is Down <==> state is DownActive || state is DownInactive
                &&& allocation is Active <==> state is UpActive || state is DownActive
                &&& allocation is Inactive <==> state is UpInactive || state is DownInactive
            }
        }),
{
}

/// Law: user IO reaches exactly the members that are up, and BLKs are given out
/// only by those of them that are active.
pub proof fn law_only_members_serve(disk: MemberDiskView)
    ensures
        disk.can_serve_io() <==> disk.io_state is Up && disk.membership_state is Member,
        disk.can_allocate() <==> disk.io_state is Up && disk.membership_state is Member
            && disk.allocation_state is Active,
        disk.state() == MemberDiskState::projection(
            disk.io_state,
            disk.allocation_state,
            disk.membership_state,
        ),
{
}

/// Law: an update that is not refused reaches its goal. Each touches its own
/// dimensions and no others: a request to shrink only the intent, DOWN only the
/// IO, completion the IO and the allocation, a stop of allocation only the
/// allocation, a removal the membership and the IO. A rejoin brings back a
/// removed disk and leaves a member alone.
pub proof fn law_update_reaches_its_goal(disk: MemberDiskView, update: MemberDiskUpdate)
    requires
        disk.valid(),
        disk.check(update) is Ok,
    ensures
        ({
            let after = disk.submitted(update);
            match update {
                MemberDiskUpdate::RequestShrink => {
                    &&& after.io_state == disk.io_state
                    &&& after.allocation_state == disk.allocation_state
                    &&& after.membership_state == disk.membership_state
                    &&& disk.membership_state is Member ==> after.shrink_requested
                    &&& disk.membership_state is Removed ==> after.shrink_requested
                        == disk.shrink_requested
                },
                MemberDiskUpdate::ApplyDown => {
                    &&& after.io_state is Down
                    &&& after.allocation_state == disk.allocation_state
                    &&& after.membership_state is Member
                    &&& after.shrink_requested == disk.shrink_requested
                },
                MemberDiskUpdate::CompleteOnline => {
                    &&& after.io_state is Up
                    &&& after.allocation_state is Active
                    &&& after.membership_state is Member
                    &&& after.shrink_requested == disk.shrink_requested
                },
                MemberDiskUpdate::DisableAllocation => {
                    &&& after.io_state == disk.io_state
                    &&& after.allocation_state is Inactive
                    &&& after.membership_state is Member
                    &&& after.shrink_requested == disk.shrink_requested
                },
                MemberDiskUpdate::Remove => {
                    &&& after.io_state is Down
                    &&& after.allocation_state is Inactive
                    &&& after.membership_state is Removed
                    &&& after.shrink_requested == disk.shrink_requested
                },
                MemberDiskUpdate::Rejoin => {
                    &&& after.membership_state is Member
                    &&& disk.membership_state is Removed ==> {
                        &&& after.io_state is Up
                        &&& after.allocation_state is Active
                        &&& !after.shrink_requested
                    }
                    &&& disk.membership_state is Member ==> after == disk
                },
            }
        }),
{
}

/// Law: a check says whether there is anything to change. It allows a change
/// exactly where the update makes one, and what is committed is then the
/// change that was checked.
pub proof fn law_check_foretells_the_change(disk: MemberDiskView, update: MemberDiskUpdate)
    requires
        disk.valid(),
    ensures
        disk.check(update) == Ok::<bool, MemberDiskError>(true) ==> {
            &&& disk.submitted(update) == disk.updated(update)
            &&& disk.updated(update).io_state != disk.io_state
                || disk.updated(update).allocation_state != disk.allocation_state
                || disk.updated(update).membership_state != disk.membership_state
                || disk.updated(update).shrink_requested != disk.shrink_requested
        },
        disk.check(update) != Ok::<bool, MemberDiskError>(true) ==> disk.submitted(update) == disk,
        disk.membership_state is Member && disk.check(update) == Ok::<bool, MemberDiskError>(false)
            && !(update is Rejoin) ==> disk.updated(update) == disk,
{
}

/// Law: updates are refused for three reasons only. A removed disk takes back
/// nothing but a rejoin, and a request to shrink finds nothing to do on it; an
/// active disk is not removed; one with allocated BLKs is not removed, and the
/// refusal counts them.
pub proof fn law_refusals_of_updates(disk: MemberDiskView, update: MemberDiskUpdate)
    requires
        disk.valid(),
    ensures
        disk.membership_state is Removed ==> {
            &&& update is Rejoin ==> disk.check(update) == Ok::<bool, MemberDiskError>(true)
            &&& update is RequestShrink ==> disk.check(update) == Ok::<bool, MemberDiskError>(false)
            &&& !(update is Rejoin || update is RequestShrink) ==> disk.check(update) == Err::<
                bool,
                _,
            >(MemberDiskError::AlreadyRemoved)
        },
        disk.membership_state is Member && !(update is Remove) ==> disk.check(update) is Ok,
        disk.membership_state is Member && update is Remove ==> {
            &&& disk.allocation_state is Active ==> disk.check(update) == Err::<bool, _>(
                MemberDiskError::AllocationStillActive,
            )
            &&& disk.allocation_state is Inactive && disk.allocated.len() > 0 ==> (disk.check(update)
                matches Err(MemberDiskError::BlksStillAllocated { allocated_blks })
                && allocated_blks == disk.allocated.len())
            &&& disk.allocation_state is Inactive && disk.allocated.len() == 0 ==> disk.check(update)
                == Ok::<bool, MemberDiskError>(true)
        },
{
}

/// Law: the BLKs of a disk fill its capacity up to less than one BLK. They are
/// two GiB large on disks above eight TiB and one GiB on all others, so a larger
/// disk never has smaller BLKs.
pub proof fn law_blks_fill_the_capacity(disk: MemberDiskView, larger: u64)
    requires
        disk.valid(),
        disk.capacity_bytes <= larger,
    ensures
        ({
            let size = BlkSize::of_capacity(disk.capacity_bytes).size();
            &&& disk.capacity_bytes > 0x800_0000_0000 ==> size == 0x8000_0000
            &&& disk.capacity_bytes <= 0x800_0000_0000 ==> size == 0x4000_0000
            &&& disk.total_blks * size <= disk.capacity_bytes
            &&& disk.capacity_bytes < (disk.total_blks + 1) * size
            &&& size <= BlkSize::of_capacity(larger).size()
        }),
{
    let size = BlkSize::of_capacity(disk.capacity_bytes).size();
    let blks = disk.capacity_bytes / size;
    let capacity = disk.capacity_bytes;
    assert(blks * size <= capacity && capacity < (blks + 1) * size) by (nonlinear_arith)
        requires
            size > 0,
            blks == capacity / size,
    ;
}

/// Law: bringing the IO of a member up, or allowing its allocation again, touches
/// nothing else and says whether anything changed. A removed disk refuses both and
/// stays as it is.
pub proof fn law_single_dimensions_change_alone(
    raised: &mut MemberDisk,
    raised_result: Result<bool, MemberDiskError>,
    enabled: &mut MemberDisk,
    enabled_result: Result<bool, MemberDiskError>,
)
    requires
        call_ensures(MemberDisk::mark_io_up, (raised,), raised_result),
        call_ensures(MemberDisk::enable_allocation, (enabled,), enabled_result),
    ensures
        ({
            let before = old(raised)@;
            let after = final(raised)@;
            &&& before.membership_state is Removed ==> after == before && raised_result == Err::<
                bool,
                _,
            >(MemberDiskError::AlreadyRemoved)
            &&& before.membership_state is Member ==> {
                &&& raised_result == Ok::<bool, MemberDiskError>(before.io_state is Down)
                &&& after.io_state is Up
                &&& after.allocation_state == before.allocation_state
                &&& after.membership_state == before.membership_state
                &&& after.shrink_requested == before.shrink_requested
                &&& after.allocated == before.allocated
            }
        }),
        ({
            let before = old(enabled)@;
            let after = final(enabled)@;
            &&& before.membership_state is Removed ==> after == before && enabled_result == Err::<
                bool,
                _,
            >(MemberDiskError::AlreadyRemoved)
            &&& before.membership_state is Member ==> {
                &&& enabled_result == Ok::<bool, MemberDiskError>(
                    before.allocation_state is Inactive,
                )
                &&& after.allocation_state is Active
                &&& after.io_state == before.io_state
                &&& after.membership_state == before.membership_state
                &&& after.shrink_requested == before.shrink_requested
                &&& after.allocated == before.allocated
            }
        }),
{
}

/// Law: a BLK is given out exactly when the disk is an active member that is up
/// and has a free one. It is the free BLK with the lowest number, it is allocated
/// from then on, and nothing else changes. A refusal names the state of the disk,
/// or says that no BLK is free, and changes nothing.
pub proof fn law_allocation_takes_the_lowest_free_blk(
    disk: &mut MemberDisk,
    result: Result<BlkId, MemberDiskError>,
)
    requires
        call_ensures(MemberDisk::allocate_blk, (disk,), result),
    ensures
        ({
            let before = old(disk)@;
            let after = final(disk)@;
            let serves = before.io_state is Up && before.membership_state is Member
                && before.allocation_state is Active;
            &&& !serves ==> (result matches Err(MemberDiskError::NotAllocatable { state }) && state
                == before.state())
            &&& serves && result is Err ==> {
                &&& result == Err::<BlkId, _>(MemberDiskError::NoFreeBlk)
                &&& forall|blk: int|
                    0 <= blk < before.total_blks ==> #[trigger] before.allocated.contains(blk)
            }
            &&& result is Err ==> after == before
            &&& result matches Ok(blk) ==> {
                &&& blk@ < before.total_blks
                &&& !before.allocated.contains(blk@ as int)
                &&& forall|lower: int|
                    0 <= lower < blk@ ==> #[trigger] before.allocated.contains(lower)
                &&& after.allocated == before.allocated.insert(blk@ as int)
                &&& after.io_state == before.io_state
                &&& after.allocation_state == before.allocation_state
                &&& after.membership_state == before.membership_state
                &&& after.shrink_requested == before.shrink_requested
                &&& after.total_blks == before.total_blks
            }
        }),
{
}

/// Law: planning an allocation names the BLK that an allocation would give out,
/// and refuses where that would be refused, for the same reason.
pub proof fn law_plan_foretells_the_allocation(
    disk: &mut MemberDisk,
    given: Result<BlkId, MemberDiskError>,
    planned: Result<BlkId, MemberDiskError>,
)
    requires
        call_ensures(MemberDisk::plan_blk_allocation, (&*old(disk),), planned),
        call_ensures(MemberDisk::allocate_blk, (disk,), given),
    ensures
        planned is Ok <==> given is Ok,
        planned matches Ok(blk) ==> given matches Ok(other) && other@ == blk@,
        planned matches Err(error) ==> given == Err::<BlkId, _>(error),
{
    let before = old(disk)@;
    if let Ok(blk) = planned {
        if let Ok(other) = given {
            if blk@ < other@ {
                assert(before.allocated.contains(blk@ as int));
            } else if other@ < blk@ {
                assert(before.allocated.contains(other@ as int));
            }
        } else {
            assert(before.allocated.contains(blk@ as int));
        }
    } else if let Ok(other) = given {
        assert(before.allocated.contains(other@ as int));
    }
}

/// Law: a member takes back exactly the BLKs that it has given out, also while it
/// is down or inactive, and a BLK that was taken back is free. Everything else is
/// refused and changes nothing.
pub proof fn law_only_allocated_blks_are_returned(
    disk: &mut MemberDisk,
    blk: BlkId,
    result: Result<(), MemberDiskError>,
)
    requires
        call_ensures(MemberDisk::release_blk, (disk, blk), result),
    ensures
        ({
            let before = old(disk)@;
            let after = final(disk)@;
            &&& result is Ok <==> before.membership_state is Member && blk@ < before.total_blks
                && before.allocated.contains(blk@ as int)
            &&& result is Err ==> after == before
            &&& result is Ok ==> {
                &&& after.allocated == before.allocated.remove(blk@ as int)
                &&& after.io_state == before.io_state
                &&& after.allocation_state == before.allocation_state
                &&& after.membership_state == before.membership_state
                &&& after.shrink_requested == before.shrink_requested
                &&& after.total_blks == before.total_blks
            }
            &&& before.membership_state is Removed ==> result == Err::<(), _>(
                MemberDiskError::AlreadyRemoved,
            )
            &&& before.membership_state is Member && blk@ >= before.total_blks ==> result == Err::<
                (),
                _,
            >(MemberDiskError::BlkOutOfRange { blk, total_blks: before.total_blks })
            &&& before.membership_state is Member && blk@ < before.total_blks
                && !before.allocated.contains(blk@ as int) ==> result == Err::<(), _>(
                MemberDiskError::BlkNotAllocated { blk },
            )
        }),
{
}

/// Law: a disk joins its Pool exactly when it holds at least one BLK. It joins as
/// a member that is down and active, without an intent to shrink and with every
/// BLK free.
pub proof fn law_disk_joins_down_and_empty(
    uuid: DiskUuid,
    pool_id: &str,
    tier_id: &str,
    media_class: &str,
    capacity_bytes: u64,
    failure_domains: Vec<FailureDomain>,
    result: Result<MemberDisk, MemberDiskError>,
)
    requires
        call_ensures(
            MemberDisk::new,
            (uuid, pool_id, tier_id, media_class, capacity_bytes, failure_domains),
            result,
        ),
    ensures
        result is Ok <==> capacity_bytes >= 0x4000_0000,
        result matches Err(error) ==> error == (MemberDiskError::CapacityTooSmall {
            capacity_bytes,
            minimum_bytes: 0x4000_0000,
        }),
        result matches Ok(disk) ==> {
            &&& disk@.uuid == uuid@
            &&& disk@.pool_id == pool_id@
            &&& disk@.tier_id == tier_id@
            &&& disk@.media_class == media_class@
            &&& disk@.capacity_bytes == capacity_bytes
            &&& disk@.failure_domains == failure_domains@
            &&& disk@.io_state is Down
            &&& disk@.allocation_state is Active
            &&& disk@.membership_state is Member
            &&& !disk@.shrink_requested
            &&& forall|blk: int| !#[trigger] disk@.allocated.contains(blk)
        },
{
}

/// Law: each change of a disk is the update of its name, checked before and
/// carried out where the check allows it.
pub proof fn law_changes_are_updates(
    online: &mut MemberDisk,
    online_result: Result<bool, MemberDiskError>,
    disabled: &mut MemberDisk,
    disabled_result: Result<bool, MemberDiskError>,
    removed: &mut MemberDisk,
    removed_result: Result<(), MemberDiskError>,
    rejoined: &mut MemberDisk,
    rejoined_result: Result<bool, MemberDiskError>,
)
    requires
        old(online)@.valid(),
        old(disabled)@.valid(),
        old(removed)@.valid(),
        old(rejoined)@.valid(),
        call_ensures(MemberDisk::complete_online, (online,), online_result),
        call_ensures(MemberDisk::disable_allocation, (disabled,), disabled_result),
        call_ensures(MemberDisk::remove, (removed,), removed_result),
        call_ensures(MemberDisk::rejoin, (rejoined,), rejoined_result),
    ensures
        old(online)@.membership_state is Member ==> final(online)@.io_state is Up
            && final(online)@.allocation_state is Active,
        old(online)@.membership_state is Removed ==> online_result is Err && final(online)@ == old(online)@,
        old(disabled)@.membership_state is Member ==> final(disabled)@.allocation_state is Inactive
            && final(disabled)@.io_state == old(disabled)@.io_state,
        old(disabled)@.membership_state is Removed ==> disabled_result is Err && final(disabled)@
            == old(disabled)@,
        removed_result is Ok <==> old(removed)@.membership_state is Member && old(removed)@.allocation_state is Inactive && old(removed)@.allocated.len() == 0,
        removed_result is Ok ==> final(removed)@.membership_state is Removed && final(removed)@.io_state is Down,
        removed_result is Err ==> final(removed)@ == old(removed)@,
        rejoined_result == Ok::<bool, MemberDiskError>(old(rejoined)@.membership_state is Removed),
        final(rejoined)@.membership_state is Member,
        old(rejoined)@.membership_state is Removed ==> final(rejoined)@.io_state is Up && final(rejoined)@.allocation_state is Active && !final(rejoined)@.shrink_requested,
        old(rejoined)@.membership_state is Member ==> final(rejoined)@ == old(rejoined)@,
{
}

/// Law: each update is checked and carried out as such, and the state of a disk is
/// told from its dimensions.
pub proof fn law_updates_are_checked_and_applied(
    disk: &mut MemberDisk,
    update: MemberDiskUpdate,
    applied: (),
    checked: Result<bool, MemberDiskError>,
    state: MemberDiskState,
)
    requires
        old(disk)@.valid(),
        call_ensures(MemberDisk::validate_update, (&*old(disk), &update), checked),
        call_ensures(MemberDisk::apply_committed, (disk, &update), applied),
        call_ensures(MemberDisk::state, (&*old(disk),), state),
    ensures
        checked == old(disk)@.check(update),
        checked == Ok::<bool, MemberDiskError>(true) ==> final(disk)@ == old(disk)@.submitted(
            update,
        ),
        old(disk)@.membership_state is Removed <==> state is Removed,
        old(disk)@.membership_state is Member ==> (old(disk)@.io_state is Up <==> state is UpActive
            || state is UpInactive) && (old(disk)@.allocation_state is Active <==> state is UpActive
            || state is DownActive),
{
}

/// Law: the message of a refusal says what was refused and names its numbers: the
/// capacity before the least one, the BLK before the range, and what is still
/// allocated.
pub proof fn law_refusals_name_their_numbers(
    capacity_bytes: u64,
    minimum_bytes: u64,
    state: MemberDiskState,
    blk: BlkId,
    total_blks: u64,
)
    ensures
        (MemberDiskError::CapacityTooSmall { capacity_bytes, minimum_bytes }).message()
            == "member disk capacity "@ + decimal_text(capacity_bytes as nat)
            + " is smaller than one BLK ("@ + decimal_text(minimum_bytes as nat) + ")"@,
        (MemberDiskError::NotAllocatable { state }).message()
            == "member disk is not allocatable in state "@ + state.name_text(),
        MemberDiskError::NoFreeBlk.message() == "member disk has no free BLK"@,
        (MemberDiskError::BlkOutOfRange { blk, total_blks }).message() == "BLK "@ + decimal_text(
            blk@ as nat,
        ) + " is outside member disk range 0.."@ + decimal_text(total_blks as nat),
        (MemberDiskError::BlkNotAllocated { blk }).message() == "BLK "@ + decimal_text(blk@ as nat)
            + " is not allocated"@,
        (MemberDiskError::BlkAlreadyAllocated { blk }).message() == "BLK "@ + decimal_text(
            blk@ as nat,
        ) + " is already allocated"@,
        MemberDiskError::AllocationStillActive.message()
            == "allocation must be disabled before removing member disk"@,
        (MemberDiskError::BlksStillAllocated { allocated_blks: total_blks }).message()
            == "member disk still owns "@ + decimal_text(total_blks as nat) + " allocated BLKs"@,
        MemberDiskError::AlreadyRemoved.message() == "member disk has already been removed"@,
        state is UpActive ==> state.name_text() == "UpActive"@,
        state is DownActive ==> state.name_text() == "DownActive"@,
        state is DownInactive ==> state.name_text() == "DownInactive"@,
        state is UpInactive ==> state.name_text() == "UpInactive"@,
        state is Removed ==> state.name_text() == "Removed"@,
{
}

/// A disk shows what it was made with, serves IO exactly as an up member, and
/// gives out BLKs exactly as an up and active one.
pub proof fn law_disk_shows_what_it_is(
    uuid: DiskUuid,
    pool: &str,
    tier: &str,
    media: &str,
    capacity: u64,
    domains: Vec<FailureDomain>,
    made: Result<MemberDisk, MemberDiskError>,
    disk: MemberDisk,
    pool_id: &str,
    tier_id: &str,
    media_class: &str,
    bytes: u64,
    asked: String,
    in_tier: bool,
    serves: bool,
    allocates: bool,
)
    requires
        call_ensures(MemberDisk::new, (uuid, pool, tier, media, capacity, domains), made),
        made == Ok::<MemberDisk, MemberDiskError>(disk),
        call_ensures(MemberDisk::pool_id, (&disk,), pool_id),
        call_ensures(MemberDisk::tier_id, (&disk,), tier_id),
        call_ensures(MemberDisk::media_class, (&disk,), media_class),
        call_ensures(MemberDisk::capacity_bytes, (&disk,), bytes),
        call_ensures(MemberDisk::in_tier, (&disk, &asked), in_tier),
        call_ensures(MemberDisk::can_serve_io, (&disk,), serves),
        call_ensures(MemberDisk::can_allocate, (&disk,), allocates),
    ensures
        disk@.uuid == uuid@,
        pool_id@ == pool@,
        tier_id@ == tier@,
        media_class@ == media@,
        bytes == capacity,
        disk@.failure_domains == domains@,
        in_tier <==> asked@ == tier@,
        serves <==> disk@.io_state is Up && disk@.membership_state is Member,
        allocates <==> serves && disk@.allocation_state is Active,
{
}

} // verus!
