//! BLKs, allocation requests and the allocation bitmap of one MemberDisk.
use super::model::{DiskUuid, MemberDiskError};
use vstd::prelude::*;

verus! {

pub const GIB: u64 = 1024 * 1024 * 1024;

pub const TIB: u64 = 1024 * GIB;

/// Disks above this capacity use large BLKs.
pub const LARGE_DISK_THRESHOLD: u64 = 8 * TIB;

/// The size of every BLK of one disk.
#[derive(Debug, Clone, Copy, PartialEq, Eq, Structural)]
pub enum BlkSize {
    GiB1,
    GiB2,
}

impl BlkSize {
    /// The BLK size of a disk with `capacity_bytes`.
    pub open spec fn of_capacity(capacity_bytes: u64) -> BlkSize {
        if capacity_bytes > LARGE_DISK_THRESHOLD {
            BlkSize::GiB2
        } else {
            BlkSize::GiB1
        }
    }

    /// The number of bytes of one BLK.
    pub open spec fn size(self) -> u64 {
        match self {
            BlkSize::GiB1 => GIB,
            BlkSize::GiB2 => (2 * GIB) as u64,
        }
    }

    /// Chooses the BLK size for a disk: large disks use large BLKs.
    pub fn for_capacity(capacity_bytes: u64) -> (size: Self)
        ensures
            size == Self::of_capacity(capacity_bytes),
    {
        if capacity_bytes > LARGE_DISK_THRESHOLD {
            BlkSize::GiB2
        } else {
            BlkSize::GiB1
        }
    }

    /// The number of bytes of one BLK.
    pub fn bytes(self) -> (bytes: u64)
        ensures
            bytes == self.size(),
            bytes >= GIB,
    {
        match self {
            BlkSize::GiB1 => GIB,
            BlkSize::GiB2 => 2 * GIB,
        }
    }
}

/// The number of one BLK on its disk.
#[derive(Debug, Clone, Copy, PartialEq, Eq, Structural, Hash)]
pub struct BlkId(u64);

impl View for BlkId {
    type V = u64;

    closed spec fn view(&self) -> u64 {
        self.0
    }
}

impl BlkId {
    /// The BLK with number `index`.
    pub fn new(index: u64) -> (blk: Self)
        ensures
            blk@ == index,
    {
        BlkId(index)
    }

    /// The number of the BLK.
    pub fn index(self) -> (index: u64)
        ensures
            index == self@,
    {
        self.0
    }
}

/// One BLK selected from one Pool MemberDisk.
#[derive(Debug, PartialEq, Eq)]
pub struct BlkRef {
    disk: DiskUuid,
    blk: BlkId,
}

impl View for BlkRef {
    type V = (Seq<char>, u64);

    closed spec fn view(&self) -> (Seq<char>, u64) {
        (self.disk@, self.blk@)
    }
}

impl Clone for BlkRef {
    fn clone(&self) -> (copy: Self)
        ensures
            copy == *self,
    {
        BlkRef { disk: self.disk.clone(), blk: self.blk }
    }
}

impl BlkRef {
    /// BLK `blk` of `disk`.
    pub fn new(disk: DiskUuid, blk: BlkId) -> (selected: Self)
        ensures
            selected@ == (disk@, blk@),
    {
        BlkRef { disk, blk }
    }

    /// The disk that the BLK lies on.
    pub fn disk(&self) -> (disk: &DiskUuid)
        ensures
            disk@ == self@.0,
    {
        &self.disk
    }

    /// The BLK.
    pub fn blk(&self) -> (blk: BlkId)
        ensures
            blk@ == self@.1,
    {
        self.blk
    }
}

/// What an [`AllocateBlks`] asks for.
pub struct AllocateBlksView {
    pub tier: Seq<char>,
    pub count: usize,
    pub fault_domain: Option<Seq<char>>,
}

/// Requests BLKs from distinct MemberDisks in one Tier.
///
/// `fault_domain` names a domain kind such as `rack`; selected disks must have
/// distinct values for that kind.
#[derive(Debug, PartialEq, Eq)]
pub struct AllocateBlks {
    tier: String,
    count: usize,
    fault_domain: Option<String>,
}

impl View for AllocateBlks {
    type V = AllocateBlksView;

    closed spec fn view(&self) -> AllocateBlksView {
        AllocateBlksView {
            tier: self.tier@,
            count: self.count,
            fault_domain: match self.fault_domain {
                Some(kind) => Some(kind@),
                None => None,
            },
        }
    }
}

impl Clone for AllocateBlks {
    fn clone(&self) -> (copy: Self)
        ensures
            copy == *self,
    {
        AllocateBlks {
            tier: self.tier.clone(),
            count: self.count,
            fault_domain: self.fault_domain.clone(),
        }
    }
}

impl AllocateBlks {
    /// Asks for `count` BLKs from `tier`.
    pub fn new(tier: &str, count: usize) -> (request: Self)
        ensures
            request@ == (AllocateBlksView { tier: tier@, count, fault_domain: None }),
    {
        AllocateBlks { tier: tier.to_owned(), count, fault_domain: None }
    }

    /// Demands that the selected disks differ in their domain of `kind`.
    pub fn distinct_by(self, kind: &str) -> (request: Self)
        ensures
            request@ == (AllocateBlksView { fault_domain: Some(kind@), ..self@ }),
    {
        AllocateBlks { tier: self.tier, count: self.count, fault_domain: Some(kind.to_owned()) }
    }

    /// The Tier to allocate from.
    pub fn tier(&self) -> (tier: &str)
        ensures
            tier@ == self@.tier,
    {
        self.tier.as_str()
    }

    /// The number of BLKs.
    pub fn count(&self) -> (count: usize)
        ensures
            count == self@.count,
    {
        self.count
    }

    /// The domain kind in which the disks must differ.
    pub fn fault_domain(&self) -> (kind: Option<&str>)
        ensures
            match kind {
                Some(text) => self@.fault_domain == Some(text@),
                None => self@.fault_domain is None,
            },
    {
        match &self.fault_domain {
            Some(kind) => Some(kind.as_str()),
            None => None,
        }
    }
}

/// The BLKs that one request was given.
#[derive(Debug, PartialEq, Eq)]
pub struct Allocation {
    blks: Vec<BlkRef>,
}

impl View for Allocation {
    type V = Seq<BlkRef>;

    closed spec fn view(&self) -> Seq<BlkRef> {
        self.blks@
    }
}

impl Clone for Allocation {
    fn clone(&self) -> (copy: Self)
        ensures
            copy@ == self@,
    {
        let blks = self.blks.clone();
        assert(blks@ =~= self.blks@);
        Allocation { blks }
    }
}

impl Allocation {
    /// The allocation of `blks`.
    pub fn new(blks: Vec<BlkRef>) -> (allocation: Self)
        ensures
            allocation@ == blks@,
    {
        Allocation { blks }
    }

    /// The BLKs, in the order of their selection.
    pub fn blks(&self) -> (blks: &[BlkRef])
        ensures
            blks@ == self@,
    {
        self.blks.as_slice()
    }

    /// Hands the BLKs over.
    pub fn into_blks(self) -> (blks: Vec<BlkRef>)
        ensures
            blks@ == self@,
    {
        self.blks
    }
}

spec fn bit_set(word: u64, bit: u64) -> bool {
    word & (1u64 << bit) != 0
}

spec fn word_bit(words: Seq<u64>, index: int) -> bool {
    bit_set(words[index / 64], (index % 64) as u64)
}

proof fn lemma_set_bit(word: u64, bit: u64, other: u64)
    requires
        bit < 64,
        other < 64,
    ensures
        bit_set(word | (1u64 << bit), other) == (other == bit || bit_set(word, other)),
{
    assert((word | (1u64 << bit)) & (1u64 << other) != 0 <==> (other == bit || word & (1u64 << other) != 0))
        by (bit_vector)
        requires
            bit < 64,
            other < 64,
    ;
}

proof fn lemma_clear_bit(word: u64, bit: u64, other: u64)
    requires
        bit < 64,
        other < 64,
    ensures
        bit_set(word & !(1u64 << bit), other) == (other != bit && bit_set(word, other)),
{
    assert((word & !(1u64 << bit)) & (1u64 << other) != 0 <==> (other != bit && word & (1u64 << other) != 0))
        by (bit_vector)
        requires
            bit < 64,
            other < 64,
    ;
}

proof fn lemma_same_place(a: int, b: int)
    requires
        0 <= a,
        0 <= b,
        a / 64 == b / 64,
        a % 64 == b % 64,
    ensures
        a == b,
{
}

/// Semantic BLK allocation state owned by MemberDisk.
///
/// Its persistent layout is deliberately not represented by this type.
#[derive(Debug, PartialEq, Eq)]
pub struct AllocationBitmap {
    total_blks: u64,
    words: Vec<u64>,
}

impl Clone for AllocationBitmap {
    fn clone(&self) -> (copy: Self)
        ensures
            self.wf() ==> copy.wf(),
            copy.total() == self.total(),
            copy.allocated() == self.allocated(),
    {
        let copy = AllocationBitmap { total_blks: self.total_blks, words: self.words.clone() };
        assert(copy.words@ =~= self.words@);
        assert(copy.allocated() =~= self.allocated());
        copy
    }
}

impl AllocationBitmap {
    /// The number of BLKs, allocated or free.
    pub closed spec fn total(&self) -> u64 {
        self.total_blks
    }

    /// The numbers of the allocated BLKs.
    pub closed spec fn allocated(&self) -> Set<int> {
        Set::new(|index: int| 0 <= index < self.total_blks && word_bit(self.words@, index))
    }

    /// There is one bit for each BLK.
    pub closed spec fn wf(&self) -> bool {
        self.words@.len() * 64 >= self.total_blks
    }

    /// The allocated BLKs lie in the range of the disk and can be counted.
    pub proof fn lemma_allocated_bounds(&self)
        ensures
            self.allocated().finite(),
            self.allocated().len() <= self.total(),
            forall|index: int| #[trigger]
                self.allocated().contains(index) ==> 0 <= index < self.total(),
    {
        let range = vstd::set_lib::set_int_range(0, self.total_blks as int);
        vstd::set_lib::lemma_int_range(0, self.total_blks as int);
        assert(self.allocated().subset_of(range));
        vstd::set_lib::lemma_len_subset(self.allocated(), range);
    }

    /// A bitmap of `total_blks` free BLKs.
    pub fn empty(total_blks: u64) -> (bitmap: Self)
        requires
            total_blks / 64 < usize::MAX,
        ensures
            bitmap.wf(),
            bitmap.total() == total_blks,
            bitmap.allocated() == Set::<int>::empty(),
    {
        let mut count: usize = (total_blks / 64) as usize;
        if total_blks % 64 != 0 {
            count = count + 1;
        }
        let bitmap = AllocationBitmap { total_blks, words: vec![0u64; count] };
        proof {
            assert forall|index: int| !bitmap.allocated().contains(index) by {
                if 0 <= index < total_blks {
                    let bit = (index % 64) as u64;
                    assert(bitmap.words@[index / 64] == 0);
                    assert(0u64 & (1u64 << bit) == 0) by (bit_vector);
                }
            }
            assert(bitmap.allocated() =~= Set::<int>::empty());
        }
        bitmap
    }

    /// The number of BLKs, allocated or free.
    pub fn total_blks(&self) -> (total: u64)
        ensures
            total == self.total(),
    {
        self.total_blks
    }

    /// The number of allocated BLKs.
    pub fn allocated_blks(&self) -> (count: u64)
        requires
            self.wf(),
        ensures
            count == self.allocated().len(),
    {
        let mut count: u64 = 0;
        let mut index: u64 = 0;
        let ghost mut counted: Set<int> = Set::empty();
        while index < self.total_blks
            invariant
                self.wf(),
                index <= self.total_blks,
                count <= index,
                counted == self.allocated().intersect(Set::new(|i: int| i < index)),
                counted.finite(),
                counted.len() == count,
            decreases self.total_blks - index,
        {
            if self.is_allocated(BlkId(index)) {
                count = count + 1;
                proof {
                    counted = counted.insert(index as int);
                }
            }
            index = index + 1;
            assert(counted =~= self.allocated().intersect(Set::new(|i: int| i < index)));
        }
        assert(counted =~= self.allocated());
        count
    }

    /// Whether `blk` is allocated. A BLK outside the disk is not.
    pub fn is_allocated(&self, blk: BlkId) -> (result: bool)
        requires
            self.wf(),
        ensures
            result == self.allocated().contains(blk@ as int),
    {
        let index = blk.index();
        if index >= self.total_blks {
            return false;
        }
        assert(index / 64 < self.words.len());
        let word = (index / 64) as usize;
        let bit = index % 64;
        assert(word_bit(self.words@, index as int) == bit_set(self.words@[word as int], bit));
        self.words[word] & (1u64 << bit) != 0
    }

    /// Allocates the free BLK with the lowest number.
    pub fn allocate_one(&mut self) -> (result: Result<BlkId, MemberDiskError>)
        requires
            old(self).wf(),
        ensures
            final(self).wf(),
            final(self).total() == old(self).total(),
            match result {
                Ok(blk) => {
                    &&& lowest_free(old(self).allocated(), old(self).total(), blk@)
                    &&& final(self).allocated() == old(self).allocated().insert(blk@ as int)
                },
                Err(error) => {
                    &&& error == MemberDiskError::NoFreeBlk
                    &&& all_allocated(old(self).allocated(), old(self).total())
                    &&& *final(self) == *old(self)
                },
            },
    {
        match self.next_free() {
            Some(blk) => {
                match self.mark_allocated(blk) {
                    Ok(()) => Ok(blk),
                    Err(error) => Err(error),
                }
            },
            None => Err(MemberDiskError::NoFreeBlk),
        }
    }

    /// The free BLK with the lowest number.
    pub fn next_free(&self) -> (result: Option<BlkId>)
        requires
            self.wf(),
        ensures
            match result {
                Some(blk) => lowest_free(self.allocated(), self.total(), blk@),
                None => all_allocated(self.allocated(), self.total()),
            },
    {
        let mut index: u64 = 0;
        while index < self.total_blks
            invariant
                self.wf(),
                index <= self.total_blks,
                forall|i: int| 0 <= i < index ==> #[trigger] self.allocated().contains(i),
            decreases self.total_blks - index,
        {
            if !self.is_allocated(BlkId::new(index)) {
                return Some(BlkId::new(index));
            }
            index = index + 1;
        }
        None
    }

    /// Allocates `blk`.
    pub fn mark_allocated(&mut self, blk: BlkId) -> (result: Result<(), MemberDiskError>)
        requires
            old(self).wf(),
        ensures
            final(self).wf(),
            final(self).total() == old(self).total(),
            result == (if blk@ >= old(self).total() {
                Err(MemberDiskError::BlkOutOfRange { blk, total_blks: old(self).total() })
            } else if old(self).allocated().contains(blk@ as int) {
                Err(MemberDiskError::BlkAlreadyAllocated { blk })
            } else {
                Ok(())
            }),
            result is Ok ==> final(self).allocated() == old(self).allocated().insert(blk@ as int),
            result is Err ==> *final(self) == *old(self),
    {
        let index = blk.index();
        if index >= self.total_blks {
            return Err(MemberDiskError::BlkOutOfRange { blk, total_blks: self.total_blks });
        }
        if self.is_allocated(blk) {
            return Err(MemberDiskError::BlkAlreadyAllocated { blk });
        }
        assert(index / 64 < self.words.len());
        let word = (index / 64) as usize;
        let bit = index % 64;
        let ghost before = *self;
        let marked = self.words[word] | (1u64 << bit);
        self.words.set(word, marked);
        proof {
            assert forall|i: int| self.allocated().contains(i) == before.allocated().insert(
                index as int,
            ).contains(i) by {
                if 0 <= i < self.total_blks && i / 64 == word {
                    lemma_set_bit(before.words@[word as int], bit, (i % 64) as u64);
                    if i % 64 == bit {
                        lemma_same_place(i, index as int);
                    }
                }
            }
            assert(self.allocated() =~= before.allocated().insert(index as int));
        }
        Ok(())
    }

    /// Frees `blk`.
    pub fn release(&mut self, blk: BlkId) -> (result: Result<(), MemberDiskError>)
        requires
            old(self).wf(),
        ensures
            final(self).wf(),
            final(self).total() == old(self).total(),
            result == (if blk@ >= old(self).total() {
                Err(MemberDiskError::BlkOutOfRange { blk, total_blks: old(self).total() })
            } else if !old(self).allocated().contains(blk@ as int) {
                Err(MemberDiskError::BlkNotAllocated { blk })
            } else {
                Ok(())
            }),
            result is Ok ==> final(self).allocated() == old(self).allocated().remove(blk@ as int),
            result is Err ==> *final(self) == *old(self),
    {
        let index = blk.index();
        if index >= self.total_blks {
            return Err(MemberDiskError::BlkOutOfRange { blk, total_blks: self.total_blks });
        }
        if !self.is_allocated(blk) {
            return Err(MemberDiskError::BlkNotAllocated { blk });
        }
        assert(index / 64 < self.words.len());
        let word = (index / 64) as usize;
        let bit = index % 64;
        let ghost before = *self;
        let cleared = self.words[word] & !(1u64 << bit);
        self.words.set(word, cleared);
        proof {
            assert forall|i: int| self.allocated().contains(i) == before.allocated().remove(
                index as int,
            ).contains(i) by {
                if 0 <= i < self.total_blks && i / 64 == word {
                    lemma_clear_bit(before.words@[word as int], bit, (i % 64) as u64);
                    if i % 64 == bit {
                        lemma_same_place(i, index as int);
                    }
                }
            }
            assert(self.allocated() =~= before.allocated().remove(index as int));
        }
        Ok(())
    }
}

/// `index` is the lowest number below `total` outside `allocated`.
pub open spec fn lowest_free(allocated: Set<int>, total: u64, index: u64) -> bool {
    &&& index < total
    &&& !allocated.contains(index as int)
    &&& forall|i: int| 0 <= i < index ==> #[trigger] allocated.contains(i)
}

/// Every number below `total` is in `allocated`.
pub open spec fn all_allocated(allocated: Set<int>, total: u64) -> bool {
    forall|i: int| 0 <= i < total ==> #[trigger] allocated.contains(i)
}

/// The lowest free BLK is free, and every BLK before it is allocated. There is
/// at most one, and none exactly when all BLKs are allocated.
pub proof fn law_lowest_free_blk_is_one(allocated: Set<int>, total: u64, blk: u64, other: u64)
    ensures
        lowest_free(allocated, total, blk) <==> {
            &&& blk < total
            &&& !allocated.contains(blk as int)
            &&& forall|lower: int| 0 <= lower < blk ==> #[trigger] allocated.contains(lower)
        },
        lowest_free(allocated, total, blk) && lowest_free(allocated, total, other) ==> blk == other,
        lowest_free(allocated, total, blk) ==> !all_allocated(allocated, total),
        all_allocated(allocated, total) && other < total ==> allocated.contains(other as int),
        !all_allocated(allocated, total) ==> exists|free: int|
            0 <= free < total && !#[trigger] allocated.contains(free),
{
    if lowest_free(allocated, total, blk) && lowest_free(allocated, total, other) {
        if blk < other {
            assert(allocated.contains(blk as int));
        } else if other < blk {
            assert(allocated.contains(other as int));
        }
    }
    if all_allocated(allocated, total) {
        assert(other < total ==> allocated.contains(other as int));
        assert(blk < total ==> allocated.contains(blk as int));
    }
}

/// A bitmap marks a BLK exactly when it lies in range and is free, and frees one
/// exactly when it lies in range and is marked; what it refuses changes nothing.
/// The next free BLK is the lowest there is.
pub proof fn law_bitmap_marks_and_frees_single_blks(
    marking: &mut AllocationBitmap,
    blk: BlkId,
    marked: Result<(), MemberDiskError>,
    freeing: &mut AllocationBitmap,
    freed: Result<(), MemberDiskError>,
    bitmap: AllocationBitmap,
    next: Option<BlkId>,
    held: bool,
)
    requires
        call_ensures(AllocationBitmap::mark_allocated, (marking, blk), marked),
        call_ensures(AllocationBitmap::release, (freeing, blk), freed),
        call_ensures(AllocationBitmap::next_free, (&bitmap,), next),
        call_ensures(AllocationBitmap::is_allocated, (&bitmap, blk), held),
    ensures
        marked is Ok <==> blk@ < old(marking).total() && !old(marking).allocated().contains(
            blk@ as int,
        ),
        marked is Ok ==> final(marking).allocated() == old(marking).allocated().insert(blk@ as int),
        marked is Err ==> *final(marking) == *old(marking),
        freed is Ok <==> blk@ < old(freeing).total() && old(freeing).allocated().contains(
            blk@ as int,
        ),
        freed is Ok ==> final(freeing).allocated() == old(freeing).allocated().remove(blk@ as int),
        freed is Err ==> *final(freeing) == *old(freeing),
        next matches Some(free) ==> {
            &&& free@ < bitmap.total()
            &&& !bitmap.allocated().contains(free@ as int)
            &&& forall|lower: int|
                0 <= lower < free@ ==> #[trigger] bitmap.allocated().contains(lower)
        },
        next is None ==> forall|index: int|
            0 <= index < bitmap.total() ==> #[trigger] bitmap.allocated().contains(index),
        held <==> bitmap.allocated().contains(blk@ as int),
{
}

/// BLKs are two GiB large on disks above eight TiB and one GiB on all others, and
/// a request is for disks of any domain until it asks for distinct ones.
pub proof fn law_requests_and_sizes(
    capacity_bytes: u64,
    size: BlkSize,
    bytes: u64,
    tier: &str,
    count: usize,
    request: AllocateBlks,
    kind: &str,
    distinct: AllocateBlks,
)
    requires
        call_ensures(BlkSize::for_capacity, (capacity_bytes,), size),
        call_ensures(BlkSize::bytes, (size,), bytes),
        call_ensures(AllocateBlks::new, (tier, count), request),
        call_ensures(AllocateBlks::distinct_by, (request, kind), distinct),
    ensures
        capacity_bytes > 0x800_0000_0000 ==> bytes == 0x8000_0000,
        capacity_bytes <= 0x800_0000_0000 ==> bytes == 0x4000_0000,
        request@.tier == tier@,
        request@.count == count,
        request@.fault_domain is None,
        distinct@.tier == tier@,
        distinct@.count == count,
        distinct@.fault_domain == Some(kind@),
{
}

} // verus!
