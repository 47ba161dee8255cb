//! Allocation of BLKs across the disks of a Tier.
use super::directory::{disk_order, MemberDiskService, MemberDiskServiceView};
use super::error::MemberDiskServiceError;
use crate::member_disk::allocation::{
    lowest_free, AllocateBlks, AllocateBlksView, Allocation, BlkRef,
};
use crate::member_disk::model::{
    AllocationState, DiskIoState, DiskUuid, FailureDomain, MemberDisk, MemberDiskView,
    MembershipState,
};
use crate::member_disk::ports::MetadataError;
use crate::ordered_map::{lemma_every_key_is_listed, lemma_order_length};
use vstd::prelude::*;

verus! {

/// One BLK that a plan takes.
pub struct PickView {
    pub disk: Seq<char>,
    pub blk: u64,
    pub domain: Option<Seq<char>>,
}

/// The first domain of a kind.
pub open spec fn domain_of(domains: Seq<FailureDomain>, kind: Seq<char>) -> Option<Seq<char>>
    decreases domains.len(),
{
    if domains.len() == 0 {
        None
    } else if domains[0].kind@ == kind {
        Some(domains[0].id@)
    } else {
        domain_of(domains.skip(1), kind)
    }
}

/// Whether one of the picks lies in a domain.
pub open spec fn domain_taken(picks: Seq<PickView>, domain: Seq<char>) -> bool {
    exists|i: int| 0 <= i < picks.len() && (#[trigger] picks[i]).domain == Some(domain)
}

/// The free BLK with the lowest number.
pub open spec fn first_free_blk(disk: MemberDiskView) -> u64 {
    choose|blk: u64| lowest_free(disk.allocated, disk.total_blks, blk)
}

/// Whether a disk has a free BLK.
pub open spec fn has_free_blk(disk: MemberDiskView) -> bool {
    exists|blk: u64| lowest_free(disk.allocated, disk.total_blks, blk)
}

impl MemberDiskServiceView {
    /// Whether a disk can take part in an allocation: it belongs to the Tier,
    /// is up and active, and no intent occupies it.
    pub open spec fn is_candidate(self, request: AllocateBlksView, uuid: Seq<char>) -> bool {
        &&& self.disks[uuid].tier_id == request.tier
        &&& self.disks[uuid].can_allocate()
        &&& !self.tasks.slots.contains_key(uuid)
    }

    /// Whether a disk is picked next to the picks before it.
    pub open spec fn is_picked(
        self,
        request: AllocateBlksView,
        uuid: Seq<char>,
        before: Seq<PickView>,
    ) -> bool {
        &&& self.is_candidate(request, uuid)
        &&& has_free_blk(self.disks[uuid])
        &&& match request.fault_domain {
            Some(kind) => match domain_of(self.disks[uuid].failure_domains, kind) {
                Some(domain) => !domain_taken(before, domain),
                None => false,
            },
            None => true,
        }
    }

    /// The pick from a disk.
    pub open spec fn pick(self, request: AllocateBlksView, uuid: Seq<char>) -> PickView {
        PickView {
            disk: uuid,
            blk: first_free_blk(self.disks[uuid]),
            domain: match request.fault_domain {
                Some(kind) => domain_of(self.disks[uuid].failure_domains, kind),
                None => None,
            },
        }
    }

    /// What is picked from the given disks, one after another, until enough is
    /// picked.
    pub open spec fn picks(self, request: AllocateBlksView, uuids: Seq<Seq<char>>) -> Seq<PickView>
        decreases uuids.len(),
    {
        if uuids.len() == 0 {
            Seq::empty()
        } else {
            let before = self.picks(request, uuids.drop_last());
            if before.len() < request.count && self.is_picked(request, uuids.last(), before) {
                before.push(self.pick(request, uuids.last()))
            } else {
                before
            }
        }
    }

    /// What is picked from all disks, in the order of their identities.
    pub open spec fn all_picks(self, request: AllocateBlksView) -> Seq<PickView> {
        self.picks(request, disk_order(self.disks))
    }

    /// The service after the BLKs of a plan were allocated, one after another.
    pub open spec fn allocated(self, plan: Seq<BlkRef>) -> Self
        decreases plan.len(),
    {
        if plan.len() == 0 {
            self
        } else {
            let before = self.allocated(plan.drop_last());
            let uuid = plan.last()@.0;
            before.with_disk(
                uuid,
                MemberDiskView {
                    allocated: before.disks[uuid].allocated.insert(plan.last()@.1 as int),
                    ..before.disks[uuid]
                },
            )
        }
    }

    /// Whether every BLK of a plan is a free BLK of a member, on a disk of its
    /// own.
    pub open spec fn plan_fits(self, plan: Seq<BlkRef>) -> bool {
        &&& forall|i: int|
            0 <= i < plan.len() ==> {
                let disk = self.disks[(#[trigger] plan[i])@.0];
                &&& self.disks.contains_key(plan[i]@.0)
                &&& disk.membership_state == MembershipState::Member
                &&& plan[i]@.1 < disk.total_blks
                &&& !disk.allocated.contains(plan[i]@.1 as int)
            }
        &&& forall|i: int, j: int|
            0 <= i < j < plan.len() ==> (#[trigger] plan[i])@.0 != (#[trigger] plan[j])@.0
    }
}

/// Whether a plan says what was picked.
pub open spec fn plan_shows(plan: Seq<BlkRef>, picks: Seq<PickView>) -> bool {
    &&& plan.len() == picks.len()
    &&& forall|i: int|
        0 <= i < plan.len() ==> (#[trigger] plan[i])@ == (picks[i].disk, picks[i].blk)
}

proof fn lemma_lowest_free_is_one(disk: MemberDiskView, blk: u64)
    requires
        lowest_free(disk.allocated, disk.total_blks, blk),
    ensures
        has_free_blk(disk),
        first_free_blk(disk) == blk,
{
    let other = first_free_blk(disk);
    assert(lowest_free(disk.allocated, disk.total_blks, other));
    if other < blk {
        assert(disk.allocated.contains(other as int));
    } else if blk < other {
        assert(disk.allocated.contains(blk as int));
    }
}

/// Looks up the domain of a kind.
fn find_domain(disk: &MemberDisk, kind: &str) -> (result: Option<String>)
    ensures
        match result {
            Some(id) => {
                &&& domain_of(disk@.failure_domains, kind@) == Some(id@)
                &&& exists|at: int| #[trigger]
                    first_of_kind(disk@.failure_domains, kind@, at) && id@
                        == disk@.failure_domains[at].id@
            },
            None => {
                &&& domain_of(disk@.failure_domains, kind@) is None
                &&& forall|i: int|
                    0 <= i < disk@.failure_domains.len() ==> (
                    #[trigger] disk@.failure_domains[i]).kind@ != kind@
            },
        },
{
    let domains = disk.failure_domains();
    let wanted = kind.to_owned();
    let mut at: usize = 0;
    while at < domains.len()
        invariant
            at <= domains@.len(),
            wanted@ == kind@,
            domains@ == disk@.failure_domains,
            forall|i: int| 0 <= i < at ==> (#[trigger] domains@[i]).kind@ != kind@,
        decreases domains@.len() - at,
    {
        if domains[at].kind == wanted {
            proof {
                assert(first_of_kind(disk@.failure_domains, kind@, at as int));
                law_domain_is_the_first_of_its_kind(disk@.failure_domains, kind@, at as int);
            }
            return Some(domains[at].id.clone());
        }
        at = at + 1;
    }
    proof {
        law_domain_is_the_first_of_its_kind(disk@.failure_domains, kind@, 0);
    }
    None
}

/// Whether a text is in a list.
fn contains_text(texts: &Vec<String>, text: &String) -> (result: bool)
    ensures
        result == exists|i: int| 0 <= i < texts@.len() && (#[trigger] texts@[i])@ == text@,
{
    let mut at: usize = 0;
    while at < texts.len()
        invariant
            at <= texts@.len(),
            forall|i: int| 0 <= i < at ==> (#[trigger] texts@[i])@ != text@,
        decreases texts@.len() - at,
    {
        if texts[at] == *text {
            return true;
        }
        at = at + 1;
    }
    false
}

impl MemberDiskService {
    /// Plans an allocation: one BLK from each selected disk of the Tier, disks
    /// taken in the order of their identities, where requested from failure
    /// domains that are all distinct. Nothing changes.
    pub fn plan_allocation(&self, request: &AllocateBlks) -> (result: Result<
        Vec<BlkRef>,
        MemberDiskServiceError,
    >)
        requires
            self.wf(),
        ensures
            match result {
                Ok(plan) => {
                    &&& request@.count > 0
                    &&& self@.all_picks(request@).len() == request@.count
                    &&& plan_shows(plan@, self@.all_picks(request@))
                    &&& self@.plan_fits(plan@)
                },
                Err(error) => if request@.count == 0 {
                    error == MemberDiskServiceError::EmptyAllocation
                } else {
                    &&& self@.all_picks(request@).len() != request@.count
                    &&& error matches MemberDiskServiceError::InsufficientAllocationCandidates {
                        tier,
                        requested,
                        available,
                    }
                    &&& tier@ == request@.tier
                    &&& requested == request@.count
                    &&& available == self@.all_picks(request@).len()
                },
            },
    {
        let count = request.count();
        if count == 0 {
            return Err(MemberDiskServiceError::EmptyAllocation);
        }
        let tier = request.tier().to_owned();
        let ghost view = self@;
        let ghost wanted = request@;
        let ghost order = disk_order(view.disks);
        let mut plan: Vec<BlkRef> = Vec::new();
        let mut domains: Vec<String> = Vec::new();
        let mut at: usize = 0;
        let total = self.disk_count();
        proof {
            self.lemma_valid();
            lemma_order_length::<DiskUuid>(view.disks.dom());
            assert(order.take(0) =~= Seq::empty());
        }
        while at < total
            invariant
                self.wf(),
                view == self@,
                wanted == request@,
                count == wanted.count,
                count > 0,
                tier@ == wanted.tier,
                order == disk_order(view.disks),
                order.no_duplicates(),
                total == order.len(),
                at <= total,
                plan@.len() <= count,
                plan_shows(plan@, view.picks(wanted, order.take(at as int))),
                view.picks(wanted, order.take(at as int)).len() == plan@.len(),
                forall|i: int| 0 <= i < plan@.len() ==> picked_from(view, order, at as int, #[trigger] plan@[i]),
                view.plan_fits(plan@),
                wanted.fault_domain is Some ==> domains_show(
                    domains@,
                    view.picks(wanted, order.take(at as int)),
                ),
            decreases total - at,
        {
            let ghost before = view.picks(wanted, order.take(at as int));
            let ghost uuid = order[at as int];
            let ghost earlier = plan@;
            proof {
                let longer = order.take(at + 1);
                assert(longer.drop_last() =~= order.take(at as int));
                assert(longer.last() == uuid);
            }
            let disk = self.disk_at(at);
            at = at + 1;
            if plan.len() < count && disk.in_tier(&tier) && disk.can_allocate()
                && !self.is_busy(disk.uuid()) {
                let domain = match request.fault_domain() {
                    None => None,
                    Some(kind) => find_domain(disk, kind),
                };
                let allowed = match &domain {
                    None => request.fault_domain().is_none(),
                    Some(domain) => {
                        proof {
                            lemma_domains(domains@, before, domain@);
                        }
                        !contains_text(&domains, domain)
                    },
                };
                assert(allowed == match wanted.fault_domain {
                    Some(kind) => match domain_of(view.disks[uuid].failure_domains, kind) {
                        Some(domain) => !domain_taken(before, domain),
                        None => false,
                    },
                    None => true,
                });
                if allowed {
                    if let Ok(blk) = disk.plan_blk_allocation() {
                        proof {
                            lemma_lowest_free_is_one(view.disks[uuid], blk@);
                        }
                        if let Some(domain) = domain {
                            domains.push(domain);
                        }
                        plan.push(BlkRef::new(disk.uuid().clone(), blk));
                        proof {
                            assert(plan@.drop_last() =~= earlier);
                            view.lemma_planned(wanted, order, at - 1, earlier, plan@, blk@);
                        }
                    } else {
                        proof {
                            lemma_no_free_blk(view.disks[uuid]);
                        }
                    }
                }
            }
            proof {
                assert forall|i: int| 0 <= i < plan@.len() implies picked_from(
                    view,
                    order,
                    at as int,
                    #[trigger] plan@[i],
                ) by {
                    if i < earlier.len() {
                        assert(plan@[i] == earlier[i]);
                        assert(picked_from(view, order, at - 1, earlier[i]));
                    }
                }
            }
        }
        assert(order.take(at as int) =~= order);
        if plan.len() != count {
            return Err(
                MemberDiskServiceError::InsufficientAllocationCandidates {
                    tier,
                    requested: count,
                    available: plan.len(),
                },
            );
        }
        Ok(plan)
    }
}

/// Whether a BLK of a plan comes from one of the first `count` disks.
pub open spec fn picked_from(
    view: MemberDiskServiceView,
    order: Seq<Seq<char>>,
    count: int,
    blk: BlkRef,
) -> bool {
    exists|k: int| 0 <= k < count && #[trigger] order[k] == blk@.0
}

spec fn domains_show(domains: Seq<String>, picks: Seq<PickView>) -> bool {
    &&& domains.len() == picks.len()
    &&& forall|i: int|
        0 <= i < domains.len() ==> picks[i].domain == Some((#[trigger] domains[i])@)
}

proof fn lemma_domains(domains: Seq<String>, picks: Seq<PickView>, domain: Seq<char>)
    requires
        domains_show(domains, picks),
    ensures
        domain_taken(picks, domain) <==> exists|i: int|
            0 <= i < domains.len() && (#[trigger] domains[i])@ == domain,
{
    if domain_taken(picks, domain) {
        let i = choose|i: int| 0 <= i < picks.len() && (#[trigger] picks[i]).domain == Some(domain);
        assert(domains[i]@ == domain);
    }
    if exists|i: int| 0 <= i < domains.len() && (#[trigger] domains[i])@ == domain {
        let i = choose|i: int| 0 <= i < domains.len() && (#[trigger] domains[i])@ == domain;
        assert(picks[i].domain == Some(domain));
    }
}

proof fn lemma_no_free_blk(disk: MemberDiskView)
    requires
        crate::member_disk::allocation::all_allocated(disk.allocated, disk.total_blks),
    ensures
        !has_free_blk(disk),
{
    if has_free_blk(disk) {
        let blk = first_free_blk(disk);
        assert(lowest_free(disk.allocated, disk.total_blks, blk));
        assert(disk.allocated.contains(blk as int));
    }
}

impl MemberDiskServiceView {
    proof fn lemma_planned(
        self,
        request: AllocateBlksView,
        order: Seq<Seq<char>>,
        at: int,
        earlier: Seq<BlkRef>,
        plan: Seq<BlkRef>,
        blk: u64,
    )
        requires
            0 <= at < order.len(),
            order.no_duplicates(),
            self.plan_fits(earlier),
            self.disks.contains_key(order[at]),
            self.disks[order[at]].can_allocate(),
            lowest_free(self.disks[order[at]].allocated, self.disks[order[at]].total_blks, blk),
            plan.len() == earlier.len() + 1,
            plan.drop_last() == earlier,
            plan.last()@ == (order[at], blk),
            forall|i: int|
                0 <= i < earlier.len() ==> picked_from(self, order, at, #[trigger] earlier[i]),
        ensures
            self.plan_fits(plan),
    {
        assert forall|i: int| 0 <= i < plan.len() implies {
            let disk = self.disks[(#[trigger] plan[i])@.0];
            &&& self.disks.contains_key(plan[i]@.0)
            &&& disk.membership_state == MembershipState::Member
            &&& plan[i]@.1 < disk.total_blks
            &&& !disk.allocated.contains(plan[i]@.1 as int)
        } by {
            if i < earlier.len() {
                assert(plan[i] == earlier[i]);
            }
        }
        assert forall|i: int, j: int| 0 <= i < j < plan.len() implies (#[trigger] plan[i])@.0 != (
        #[trigger] plan[j])@.0 by {
            assert(plan[i] == earlier[i]);
            if j < earlier.len() {
                assert(plan[j] == earlier[j]);
            } else {
                assert(picked_from(self, order, at, earlier[i]));
                let k = choose|k: int| 0 <= k < at && #[trigger] order[k] == earlier[i]@.0;
                assert(order[k] != order[at]);
            }
        }
    }
}

impl MemberDiskService {
    /// Publishes a planned allocation in memory once SDB has answered. What SDB
    /// did not commit is not allocated.
    pub fn finish_allocation(
        &mut self,
        plan: Vec<BlkRef>,
        committed: Result<(), MetadataError>,
    ) -> (result: Result<Allocation, MemberDiskServiceError>)
        requires
            old(self).wf(),
            old(self)@.plan_fits(plan@),
        ensures
            final(self).wf(),
            match committed {
                Ok(_) => {
                    &&& result matches Ok(allocation)
                    &&& allocation@ == plan@
                    &&& final(self)@ == old(self)@.allocated(plan@)
                },
                Err(error) => {
                    &&& result matches Err(refused)
                    &&& refused == MemberDiskServiceError::Metadata(error)
                    &&& final(self)@ == old(self)@
                },
            },
            final(self).coordinator() == old(self).coordinator(),
    {
        if let Err(error) = committed {
            return Err(MemberDiskServiceError::from(error));
        }
        let ghost before = self@;
        let ghost coordinator = self.coordinator();
        let mut at: usize = 0;
        assert(plan@.take(0) =~= Seq::empty());
        while at < plan.len()
            invariant
                self.wf(),
                self.coordinator() == coordinator,
                at <= plan@.len(),
                before.plan_fits(plan@),
                self@ == before.allocated(plan@.take(at as int)),
                forall|i: int|
                    at <= i < plan@.len() ==> self@.disks[(#[trigger] plan@[i])@.0]
                        == before.disks[plan@[i]@.0] && self@.disks.contains_key(plan@[i]@.0),
            decreases plan@.len() - at,
        {
            proof {
                let longer = plan@.take(at + 1);
                assert(longer.drop_last() =~= plan@.take(at as int));
                assert(longer.last() == plan@[at as int]);
            }
            let ghost earlier = self@;
            self.allocate_blk(plan[at].disk(), plan[at].blk());
            proof {
                assert forall|i: int| at + 1 <= i < plan@.len() implies self@.disks[(
                #[trigger] plan@[i])@.0] == before.disks[plan@[i]@.0] && self@.disks.contains_key(
                    plan@[i]@.0,
                ) by {
                    assert(earlier.disks[plan@[i]@.0] == before.disks[plan@[i]@.0]);
                    assert(plan@[at as int]@.0 != plan@[i]@.0);
                }
            }
            at = at + 1;
        }
        assert(plan@.take(at as int) =~= plan@);
        Ok(Allocation::new(plan))
    }
}

/// A plan takes at most one BLK of a disk. Every disk that it takes from belongs
/// to the Tier, is up and active, is not occupied by an intent and has the BLK
/// free; where distinct failure domains are asked for, no two BLKs share one.
pub proof fn law_picks_are_sound(service: MemberDiskServiceView, request: AllocateBlksView)
    requires
        service.valid(),
    ensures
        ({
            let picks = service.all_picks(request);
            &&& picks.len() <= request.count
            &&& forall|i: int|
                0 <= i < picks.len() ==> {
                    &&& service.disks.contains_key((#[trigger] picks[i]).disk)
                    &&& service.is_candidate(request, picks[i].disk)
                    &&& lowest_free(
                        service.disks[picks[i].disk].allocated,
                        service.disks[picks[i].disk].total_blks,
                        picks[i].blk,
                    )
                    &&& request.fault_domain matches Some(kind) ==> domain_of(
                        service.disks[picks[i].disk].failure_domains,
                        kind,
                    ) == picks[i].domain && picks[i].domain is Some
                }
            &&& forall|i: int, j: int|
                0 <= i < j < picks.len() ==> {
                    &&& (#[trigger] picks[i]).disk != (#[trigger] picks[j]).disk
                    &&& request.fault_domain is Some ==> picks[i].domain != picks[j].domain
                }
        }),
{
    let order = disk_order(service.disks);
    crate::ordered_map::lemma_every_key_is_listed::<DiskUuid>(service.disks.dom());
    lemma_order_length::<DiskUuid>(service.disks.dom());
    lemma_picks(service, request, order);
    let picks = service.all_picks(request);
    assert forall|i: int| 0 <= i < picks.len() implies service.disks.contains_key(
        (#[trigger] picks[i]).disk,
    ) by {
        assert(order.contains(picks[i].disk));
        let k = choose|k: int| 0 <= k < order.len() && order[k] == picks[i].disk;
        assert(service.disks.dom().contains(order[k]));
    }
}

proof fn lemma_picks(
    service: MemberDiskServiceView,
    request: AllocateBlksView,
    uuids: Seq<Seq<char>>,
)
    requires
        uuids.no_duplicates(),
    ensures
        ({
            let picks = service.picks(request, uuids);
            &&& picks.len() <= request.count
            &&& forall|i: int|
                0 <= i < picks.len() ==> {
                    &&& uuids.contains((#[trigger] picks[i]).disk)
                    &&& service.is_candidate(request, picks[i].disk)
                    &&& lowest_free(
                        service.disks[picks[i].disk].allocated,
                        service.disks[picks[i].disk].total_blks,
                        picks[i].blk,
                    )
                    &&& request.fault_domain matches Some(kind) ==> domain_of(
                        service.disks[picks[i].disk].failure_domains,
                        kind,
                    ) == picks[i].domain && picks[i].domain is Some
                }
            &&& forall|i: int, j: int|
                0 <= i < j < picks.len() ==> {
                    &&& (#[trigger] picks[i]).disk != (#[trigger] picks[j]).disk
                    &&& request.fault_domain is Some ==> picks[i].domain != picks[j].domain
                }
        }),
    decreases uuids.len(),
{
    if uuids.len() > 0 {
        let shorter = uuids.drop_last();
        let last = uuids.last();
        lemma_picks(service, request, shorter);
        let before = service.picks(request, shorter);
        let picks = service.picks(request, uuids);
        assert forall|i: int| 0 <= i < picks.len() implies uuids.contains(
            (#[trigger] picks[i]).disk,
        ) by {
            if i < before.len() {
                assert(picks[i] == before[i]);
                let k = choose|k: int| 0 <= k < shorter.len() && shorter[k] == before[i].disk;
                assert(uuids[k] == picks[i].disk);
            } else {
                assert(uuids[uuids.len() - 1] == last);
            }
        }
        if picks.len() > before.len() {
            assert(lowest_free(
                service.disks[last].allocated,
                service.disks[last].total_blks,
                first_free_blk(service.disks[last]),
            ));
            assert forall|i: int, j: int| 0 <= i < j < picks.len() implies {
                &&& (#[trigger] picks[i]).disk != (#[trigger] picks[j]).disk
                &&& request.fault_domain is Some ==> picks[i].domain != picks[j].domain
            } by {
                assert(picks[i] == before[i]);
                if j < before.len() {
                    assert(picks[j] == before[j]);
                } else {
                    let k = choose|k: int| 0 <= k < shorter.len() && shorter[k] == before[i].disk;
                    assert(uuids[k] != uuids[uuids.len() - 1]);
                }
            }
        }
    }
}

impl MemberDiskServiceView {
    /// Whether a disk could be selected if it were the only one.
    pub open spec fn is_eligible(self, request: AllocateBlksView, uuid: Seq<char>) -> bool {
        &&& self.disks.contains_key(uuid)
        &&& self.is_candidate(request, uuid)
        &&& has_free_blk(self.disks[uuid])
        &&& request.fault_domain is Some ==> self.pick(request, uuid).domain is Some
    }

    /// Whether some disks could be selected together for a request: they are all
    /// different and eligible, and where requested their failure domains are all
    /// different too.
    pub open spec fn selectable(self, request: AllocateBlksView, chosen: Seq<Seq<char>>) -> bool {
        &&& forall|i: int| 0 <= i < chosen.len() ==> self.is_eligible(request, #[trigger] chosen[i])
        &&& forall|i: int, j: int|
            0 <= i < j < chosen.len() ==> {
                &&& (#[trigger] chosen[i]) != (#[trigger] chosen[j])
                &&& request.fault_domain is Some ==> self.pick(request, chosen[i]).domain
                    != self.pick(request, chosen[j]).domain
            }
    }
}

/// Whether a disk was picked, or where requested one of its failure domain.
spec fn is_covered(
    service: MemberDiskServiceView,
    request: AllocateBlksView,
    picks: Seq<PickView>,
    uuid: Seq<char>,
) -> bool {
    exists|i: int|
        0 <= i < picks.len() && if request.fault_domain is Some {
            (#[trigger] picks[i]).domain == service.pick(request, uuid).domain
        } else {
            picks[i].disk == uuid
        }
}

proof fn lemma_eligible_is_covered(
    service: MemberDiskServiceView,
    request: AllocateBlksView,
    uuids: Seq<Seq<char>>,
    place: int,
)
    requires
        service.picks(request, uuids).len() < request.count,
        0 <= place < uuids.len(),
        service.is_eligible(request, uuids[place]),
    ensures
        is_covered(service, request, service.picks(request, uuids), uuids[place]),
    decreases uuids.len(),
{
    let before = service.picks(request, uuids.drop_last());
    let picks = service.picks(request, uuids);
    let uuid = uuids[place];
    assert forall|i: int| 0 <= i < before.len() implies picks[i] == before[i] by {}
    if place < uuids.len() - 1 {
        lemma_eligible_is_covered(service, request, uuids.drop_last(), place);
        let i = choose|i: int|
            0 <= i < before.len() && if request.fault_domain is Some {
                (#[trigger] before[i]).domain == service.pick(request, uuid).domain
            } else {
                before[i].disk == uuid
            };
        assert(picks[i] == before[i]);
    } else if service.is_picked(request, uuid, before) {
        assert(picks.last() == service.pick(request, uuid));
        assert(picks[picks.len() - 1] == service.pick(request, uuid));
    } else {
        let domain = service.pick(request, uuid).domain->0;
        assert(domain_taken(before, domain));
        let i = choose|i: int| 0 <= i < before.len() && (#[trigger] before[i]).domain == Some(domain);
        assert(picks[i] == before[i]);
    }
}

/// A plan picks as many disks as can be selected together, up to the number that
/// was asked for: what it picks could be selected, and where it falls short no
/// selection is larger. So a refused request is told the largest number.
pub proof fn law_largest_selection_is_picked(
    service: MemberDiskServiceView,
    request: AllocateBlksView,
    chosen: Seq<Seq<char>>,
)
    requires
        service.valid(),
        service.selectable(request, chosen),
    ensures
        ({
            let picks = service.all_picks(request);
            &&& service.selectable(request, picks.map_values(|pick: PickView| pick.disk))
            &&& picks.len() == request.count || picks.len() >= chosen.len()
        }),
{
    let picks = service.all_picks(request);
    let order = disk_order(service.disks);
    law_picks_are_sound(service, request);
    let disks = picks.map_values(|pick: PickView| pick.disk);
    assert(service.selectable(request, disks)) by {
        assert forall|i: int| 0 <= i < disks.len() implies service.is_eligible(
            request,
            #[trigger] disks[i],
        ) by {
            assert(disks[i] == picks[i].disk);
        }
        assert forall|i: int, j: int| 0 <= i < j < disks.len() implies {
            &&& (#[trigger] disks[i]) != (#[trigger] disks[j])
            &&& request.fault_domain is Some ==> service.pick(request, disks[i]).domain
                != service.pick(request, disks[j]).domain
        } by {
            assert(picks[i].disk != picks[j].disk);
        }
    }
    if picks.len() < request.count {
        lemma_every_key_is_listed::<DiskUuid>(service.disks.dom());
        let by_domain = request.fault_domain is Some;
        let wanted = Seq::new(
            chosen.len(),
            |i: int|
                if by_domain {
                    service.pick(request, chosen[i]).domain
                } else {
                    Some(chosen[i])
                },
        );
        let given = Seq::new(
            picks.len(),
            |i: int|
                if by_domain {
                    picks[i].domain
                } else {
                    Some(picks[i].disk)
                },
        );
        assert(wanted.no_duplicates()) by {
            assert forall|i: int, j: int|
                0 <= i < wanted.len() && 0 <= j < wanted.len() && i != j implies wanted[i]
                != wanted[j] by {
                let (first, second) = if i < j {
                    (i, j)
                } else {
                    (j, i)
                };
                assert(chosen[first] != chosen[second]);
            }
        }
        assert forall|value: Option<Seq<char>>| #[trigger] wanted.to_set().contains(
            value,
        ) implies given.to_set().contains(value) by {
            let at = choose|at: int| 0 <= at < wanted.len() && wanted[at] == value;
            assert(service.is_eligible(request, chosen[at]));
            assert(order.contains(chosen[at]));
            let place = choose|place: int|
                0 <= place < order.len() && order[place] == chosen[at];
            lemma_eligible_is_covered(service, request, order, place);
            let i = choose|i: int|
                0 <= i < picks.len() && if request.fault_domain is Some {
                    (#[trigger] picks[i]).domain == service.pick(request, chosen[at]).domain
                } else {
                    picks[i].disk == chosen[at]
                };
            assert(given[i] == value);
        }
        assert(wanted.to_set().subset_of(given.to_set()));
        wanted.unique_seq_to_set();
        given.lemma_cardinality_of_set();
        vstd::seq_lib::seq_to_set_is_finite(given);
        vstd::set_lib::lemma_len_subset(wanted.to_set(), given.to_set());
    }
}

/// An allocation marks exactly the planned BLKs: each is allocated afterwards,
/// every other BLK stays as it was, and nothing else of any disk changes.
pub proof fn law_allocation_marks_exactly_the_plan(
    service: MemberDiskServiceView,
    plan: Seq<BlkRef>,
    uuid: Seq<char>,
    blk: int,
)
    requires
        service.disks.contains_key(uuid),
        service.plan_fits(plan),
    ensures
        ({
            let before = service.disks[uuid];
            let after = service.allocated(plan);
            &&& after.disks.dom() == service.disks.dom()
            &&& after.tasks == service.tasks
            &&& after.disks[uuid] == MemberDiskView {
                allocated: after.disks[uuid].allocated,
                ..before
            }
            &&& after.disks[uuid].allocated.contains(blk) <==> before.allocated.contains(blk) || (
            exists|i: int|
                0 <= i < plan.len() && (#[trigger] plan[i])@.0 == uuid && plan[i]@.1 == blk)
        }),
    decreases plan.len(),
{
    if plan.len() > 0 {
        let shorter = plan.drop_last();
        let last = plan.last();
        assert(service.plan_fits(shorter)) by {
            assert forall|i: int| 0 <= i < shorter.len() implies {
                let disk = service.disks[(#[trigger] shorter[i])@.0];
                &&& service.disks.contains_key(shorter[i]@.0)
                &&& disk.membership_state == MembershipState::Member
                &&& shorter[i]@.1 < disk.total_blks
                &&& !disk.allocated.contains(shorter[i]@.1 as int)
            } by {
                assert(shorter[i] == plan[i]);
            }
            assert forall|i: int, j: int| 0 <= i < j < shorter.len() implies (
            #[trigger] shorter[i])@.0 != (#[trigger] shorter[j])@.0 by {
                assert(plan[i]@.0 != plan[j]@.0);
            }
        }
        law_allocation_marks_exactly_the_plan(service, shorter, uuid, blk);
        let after = service.allocated(plan);
        assert(service.disks.contains_key(plan[plan.len() - 1]@.0));
        assert(after.disks.dom() =~= service.disks.dom());
        let in_plan = exists|i: int|
            0 <= i < plan.len() && (#[trigger] plan[i])@.0 == uuid && plan[i]@.1 == blk;
        let in_shorter = exists|i: int|
            0 <= i < shorter.len() && (#[trigger] shorter[i])@.0 == uuid && shorter[i]@.1 == blk;
        if in_shorter {
            let i = choose|i: int|
                0 <= i < shorter.len() && (#[trigger] shorter[i])@.0 == uuid && shorter[i]@.1 == blk;
            assert(plan[i]@.0 == uuid && plan[i]@.1 == blk);
        }
        if in_plan && !in_shorter {
            let i = choose|i: int|
                0 <= i < plan.len() && (#[trigger] plan[i])@.0 == uuid && plan[i]@.1 == blk;
            if i < shorter.len() {
                assert(shorter[i]@.0 == uuid);
            }
            assert(i == plan.len() - 1);
        }
        if last@.0 == uuid && last@.1 == blk {
            assert(plan[plan.len() - 1]@.0 == uuid);
        }
    }
}

/// Whether the domain at `at` is the first of a kind.
pub open spec fn first_of_kind(domains: Seq<FailureDomain>, kind: Seq<char>, at: int) -> bool {
    &&& 0 <= at < domains.len()
    &&& domains[at].kind@ == kind
    &&& forall|earlier: int| 0 <= earlier < at ==> (#[trigger] domains[earlier]).kind@ != kind
}

/// Whether a disk has BLKs to give for a request: it is a member of the Tier, up
/// and active, no intent occupies it, and not all its BLKs are allocated.
pub open spec fn can_give(
    service: MemberDiskServiceView,
    request: AllocateBlksView,
    uuid: Seq<char>,
) -> bool {
    let disk = service.disks[uuid];
    &&& disk.tier_id == request.tier
    &&& disk.io_state == DiskIoState::Up
    &&& disk.allocation_state == AllocationState::Active
    &&& disk.membership_state == MembershipState::Member
    &&& !service.tasks.slots.contains_key(uuid)
    &&& exists|blk: u64| blk < disk.total_blks && !#[trigger] disk.allocated.contains(blk as int)
}

/// A disk has no domain of a kind exactly when none of its failure domains is of
/// that kind. Otherwise its domain is the first of them that is, wherever it
/// stands in the list.
pub proof fn law_domain_is_the_first_of_its_kind(
    domains: Seq<FailureDomain>,
    kind: Seq<char>,
    at: int,
)
    ensures
        domain_of(domains, kind) is None <==> forall|i: int|
            0 <= i < domains.len() ==> (#[trigger] domains[i]).kind@ != kind,
        first_of_kind(domains, kind, at) ==> domain_of(domains, kind) == Some(domains[at].id@),
        domain_of(domains, kind) is Some ==> exists|i: int| #[trigger]
            first_of_kind(domains, kind, i) && domain_of(domains, kind) == Some(domains[i].id@),
    decreases domains.len(),
{
    if domains.len() > 0 && domains[0].kind@ != kind {
        let rest = domains.skip(1);
        law_domain_is_the_first_of_its_kind(rest, kind, at - 1);
        assert forall|i: int| 1 <= i < domains.len() implies domains[i] == #[trigger] rest[i
            - 1] by {}
        if domain_of(rest, kind) is None {
            assert forall|i: int| 0 <= i < domains.len() implies (#[trigger] domains[i]).kind@
                != kind by {
                if i > 0 {
                    assert(rest[i - 1].kind@ != kind);
                }
            }
        } else {
            let i = choose|i: int| #[trigger]
                first_of_kind(rest, kind, i) && domain_of(rest, kind) == Some(rest[i].id@);
            assert(domains[i + 1].kind@ == kind);
            assert forall|earlier: int| 0 <= earlier < i + 1 implies (
            #[trigger] domains[earlier]).kind@ != kind by {
                if earlier > 0 {
                    assert(rest[earlier - 1].kind@ != kind);
                }
            }
            assert(first_of_kind(domains, kind, i + 1));
        }
        if first_of_kind(domains, kind, at) {
            assert(at > 0);
            assert(rest[at - 1] == domains[at]);
            assert forall|earlier: int| 0 <= earlier < at - 1 implies (
            #[trigger] rest[earlier]).kind@ != kind by {
                assert(domains[earlier + 1].kind@ != kind);
            }
            assert(first_of_kind(rest, kind, at - 1));
        }
    } else if domains.len() > 0 {
        assert(first_of_kind(domains, kind, 0));
        if first_of_kind(domains, kind, at) && at > 0 {
            assert(domains[0].kind@ != kind);
        }
    }
}

/// A disk takes part in an allocation exactly when it has a BLK to give and,
/// where distinct failure domains are asked for, lies in a domain of the kind
/// that no earlier pick lies in. What is picked is its free BLK with the lowest
/// number.
pub proof fn law_disk_is_picked_for_what_it_has(
    service: MemberDiskServiceView,
    request: AllocateBlksView,
    uuid: Seq<char>,
    before: Seq<PickView>,
    at: int,
)
    ensures
        request.fault_domain is None ==> (service.is_picked(request, uuid, before) <==> can_give(
            service,
            request,
            uuid,
        )),
        request.fault_domain matches Some(kind) ==> {
            let domains = service.disks[uuid].failure_domains;
            &&& (forall|i: int| 0 <= i < domains.len() ==> (#[trigger] domains[i]).kind@ != kind)
                ==> !service.is_picked(request, uuid, before)
            &&& first_of_kind(domains, kind, at) ==> (service.is_picked(request, uuid, before)
                <==> can_give(service, request, uuid) && forall|i: int|
                0 <= i < before.len() ==> (#[trigger] before[i]).domain != Some(domains[at].id@))
            &&& first_of_kind(domains, kind, at) ==> service.pick(request, uuid).domain == Some(
                domains[at].id@,
            )
        },
        service.pick(request, uuid).disk == uuid,
        service.is_picked(request, uuid, before) ==> {
            let disk = service.disks[uuid];
            let blk = service.pick(request, uuid).blk;
            &&& blk < disk.total_blks
            &&& !disk.allocated.contains(blk as int)
            &&& forall|lower: int| 0 <= lower < blk ==> #[trigger] disk.allocated.contains(lower)
        },
{
    let disk = service.disks[uuid];
    if let Some(kind) = request.fault_domain {
        law_domain_is_the_first_of_its_kind(disk.failure_domains, kind, at);
    }
    if exists|blk: u64| blk < disk.total_blks && !#[trigger] disk.allocated.contains(blk as int) {
        let blk = choose|blk: u64|
            blk < disk.total_blks && !#[trigger] disk.allocated.contains(blk as int);
        lemma_some_blk_is_lowest(disk, blk);
    }
    if has_free_blk(disk) {
        let blk = choose|blk: u64| lowest_free(disk.allocated, disk.total_blks, blk);
        assert(blk < disk.total_blks && !disk.allocated.contains(blk as int));
        lemma_lowest_free_is_one(disk, blk);
    }
}

proof fn lemma_some_blk_is_lowest(disk: MemberDiskView, blk: u64)
    requires
        blk < disk.total_blks,
        !disk.allocated.contains(blk as int),
    ensures
        has_free_blk(disk),
    decreases blk,
{
    if exists|lower: u64| lower < blk && !#[trigger] disk.allocated.contains(lower as int) {
        let lower = choose|lower: u64|
            lower < blk && !#[trigger] disk.allocated.contains(lower as int);
        lemma_some_blk_is_lowest(disk, lower);
    } else {
        assert forall|lower: int| 0 <= lower < blk implies #[trigger] disk.allocated.contains(
            lower,
        ) by {
            assert(disk.allocated.contains((lower as u64) as int));
        }
        assert(lowest_free(disk.allocated, disk.total_blks, blk));
    }
}

/// Whether a disk could be picked on its own: it has a BLK to give and, where
/// distinct failure domains are asked for, lies in a domain of the kind.
pub open spec fn could_be_picked(
    service: MemberDiskServiceView,
    request: AllocateBlksView,
    uuid: Seq<char>,
) -> bool {
    &&& can_give(service, request, uuid)
    &&& request.fault_domain matches Some(kind) ==> exists|at: int| #[trigger]
        first_of_kind(service.disks[uuid].failure_domains, kind, at)
}

/// Whether a domain is the one that a disk lies in.
pub open spec fn lies_in(
    service: MemberDiskServiceView,
    kind: Seq<char>,
    uuid: Seq<char>,
    domain: Seq<char>,
) -> bool {
    exists|at: int| #[trigger]
        first_of_kind(service.disks[uuid].failure_domains, kind, at)
            && service.disks[uuid].failure_domains[at].id@ == domain
}

proof fn lemma_picks_of_earlier_disks(
    service: MemberDiskServiceView,
    request: AllocateBlksView,
    uuids: Seq<Seq<char>>,
    place: int,
)
    requires
        0 <= place <= uuids.len(),
    ensures
        ({
            let earlier = service.picks(request, uuids.take(place));
            let picks = service.picks(request, uuids);
            &&& earlier.len() <= picks.len()
            &&& forall|i: int| 0 <= i < earlier.len() ==> picks[i] == #[trigger] earlier[i]
            &&& forall|i: int|
                0 <= i < earlier.len() ==> exists|k: int|
                    0 <= k < place && #[trigger] uuids[k] == (#[trigger] earlier[i]).disk
        }),
    decreases uuids.len(),
{
    if uuids.len() == 0 {
        assert(uuids.take(place) =~= uuids);
    } else {
        let shorter = uuids.drop_last();
        if place < uuids.len() {
            lemma_picks_of_earlier_disks(service, request, shorter, place);
            assert(shorter.take(place) =~= uuids.take(place));
            let earlier = service.picks(request, uuids.take(place));
            assert forall|i: int| 0 <= i < earlier.len() implies exists|k: int|
                0 <= k < place && #[trigger] uuids[k] == (#[trigger] earlier[i]).disk by {
                let k = choose|k: int|
                    0 <= k < place && #[trigger] shorter[k] == earlier[i].disk;
                assert(uuids[k] == earlier[i].disk);
            }
        } else {
            assert(uuids.take(place) =~= uuids);
            lemma_picks_of_earlier_disks(service, request, shorter, shorter.len() as int);
            assert(shorter.take(shorter.len() as int) =~= shorter);
            let before = service.picks(request, shorter);
            let picks = service.picks(request, uuids);
            assert forall|i: int| 0 <= i < picks.len() implies exists|k: int|
                0 <= k < place && #[trigger] uuids[k] == (#[trigger] picks[i]).disk by {
                if i < before.len() {
                    let k = choose|k: int|
                        0 <= k < shorter.len() && #[trigger] shorter[k] == before[i].disk;
                    assert(uuids[k] == picks[i].disk);
                } else {
                    assert(uuids[uuids.len() - 1] == picks[i].disk);
                }
            }
        }
    }
}

/// Disks are taken in the order of their identities, each as soon as it fits: a
/// disk that could be picked on its own is picked, unless the disks before it
/// already gave enough or, where distinct failure domains are asked for, one of
/// them was picked from the same domain.
pub proof fn law_disks_are_taken_in_order(
    service: MemberDiskServiceView,
    request: AllocateBlksView,
    place: int,
)
    requires
        service.valid(),
        0 <= place < disk_order(service.disks).len(),
        could_be_picked(service, request, disk_order(service.disks)[place]),
    ensures
        ({
            let order = disk_order(service.disks);
            let picks = service.all_picks(request);
            ||| exists|i: int| 0 <= i < picks.len() && (#[trigger] picks[i]).disk == order[place]
            ||| picks.len() == request.count && forall|i: int|
                0 <= i < picks.len() ==> exists|k: int|
                    0 <= k < place && #[trigger] order[k] == (#[trigger] picks[i]).disk
            ||| {
                &&& request.fault_domain matches Some(kind)
                &&& exists|i: int, k: int|
                    {
                        &&& 0 <= i < picks.len()
                        &&& 0 <= k < place
                        &&& (#[trigger] order[k]) == (#[trigger] picks[i]).disk
                        &&& picks[i].domain matches Some(domain)
                        &&& lies_in(service, kind, order[place], domain)
                    }
            }
        }),
{
    let order = disk_order(service.disks);
    let picks = service.all_picks(request);
    let uuid = order[place];
    let earlier = service.picks(request, order.take(place));
    lemma_order_length::<DiskUuid>(service.disks.dom());
    lemma_picks(service, request, order);
    lemma_picks_of_earlier_disks(service, request, order, place);
    lemma_picks_of_earlier_disks(service, request, order, place + 1);
    let longer = order.take(place + 1);
    assert(longer.drop_last() =~= order.take(place));
    assert(longer.last() == uuid);
    let next = service.picks(request, longer);
    let at = match request.fault_domain {
        Some(kind) => choose|at: int| #[trigger]
            first_of_kind(service.disks[uuid].failure_domains, kind, at),
        None => 0,
    };
    law_disk_is_picked_for_what_it_has(service, request, uuid, earlier, at);
    if earlier.len() < request.count && service.is_picked(request, uuid, earlier) {
        assert(next == earlier.push(service.pick(request, uuid)));
        assert(next[next.len() - 1].disk == uuid);
        assert(picks[next.len() - 1].disk == uuid);
    } else if earlier.len() < request.count {
        let domain = service.disks[uuid].failure_domains[at].id@;
        let i = choose|i: int|
            0 <= i < earlier.len() && (#[trigger] earlier[i]).domain == Some(domain);
        assert(picks[i] == earlier[i]);
        let k = choose|k: int| 0 <= k < place && #[trigger] order[k] == earlier[i].disk;
        assert(order[k] == picks[i].disk);
        assert(lies_in(service, request.fault_domain->0, order[place], domain));
    } else {
        assert(picks.len() == earlier.len());
        assert(picks =~= earlier);
    }
}

/// Every pick comes from a disk that has the BLK to give, in the order of the
/// identities of the disks; where distinct failure domains are asked for, each
/// lies in the domain that it is counted for.
pub proof fn law_every_pick_can_be_given(
    service: MemberDiskServiceView,
    request: AllocateBlksView,
    at: int,
)
    requires
        service.valid(),
        0 <= at < service.all_picks(request).len(),
    ensures
        ({
            let pick = service.all_picks(request)[at];
            let disk = service.disks[pick.disk];
            &&& service.disks.contains_key(pick.disk)
            &&& can_give(service, request, pick.disk)
            &&& pick.blk < disk.total_blks
            &&& !disk.allocated.contains(pick.blk as int)
            &&& forall|lower: int|
                0 <= lower < pick.blk ==> #[trigger] disk.allocated.contains(lower)
            &&& request.fault_domain matches Some(kind) ==> {
                &&& pick.domain matches Some(domain)
                &&& lies_in(service, kind, pick.disk, domain)
            }
        }),
{
    law_picks_are_sound(service, request);
    let pick = service.all_picks(request)[at];
    let disk = service.disks[pick.disk];
    assert(lowest_free(disk.allocated, disk.total_blks, pick.blk));
    assert(pick.blk < disk.total_blks && !disk.allocated.contains(pick.blk as int));
    if let Some(kind) = request.fault_domain {
        law_domain_is_the_first_of_its_kind(disk.failure_domains, kind, 0);
        let i = choose|i: int| #[trigger]
            first_of_kind(disk.failure_domains, kind, i) && domain_of(disk.failure_domains, kind)
                == Some(disk.failure_domains[i].id@);
        assert(first_of_kind(disk.failure_domains, kind, i));
    }
}

/// A plan names the picked disks and BLKs one for one.
pub proof fn law_plan_names_the_picks(plan: Seq<BlkRef>, picks: Seq<PickView>, at: int)
    requires
        plan_shows(plan, picks),
        0 <= at < picks.len(),
    ensures
        plan.len() == picks.len(),
        plan[at]@.0 == picks[at].disk,
        plan[at]@.1 == picks[at].blk,
{
    assert(plan[at]@ == (picks[at].disk, picks[at].blk));
}

/// A request is granted exactly when as many disks as it asks for can give a BLK,
/// and then with one BLK of each. A request for none is refused as empty, and one
/// that cannot be granted is told how much there is.
pub proof fn law_request_is_granted_in_full_or_refused(
    service: MemberDiskService,
    request: AllocateBlks,
    result: Result<Vec<BlkRef>, MemberDiskServiceError>,
    at: int,
    other: int,
)
    requires
        service@.valid(),
        call_ensures(MemberDiskService::plan_allocation, (&service, &request), result),
    ensures
        request@.count == 0 ==> result == Err::<Vec<BlkRef>, _>(
            MemberDiskServiceError::EmptyAllocation,
        ),
        result matches Ok(plan) ==> {
            &&& plan@.len() == request@.count
            &&& plan@.len() > 0
            &&& 0 <= at < plan@.len() ==> {
                &&& service@.disks.contains_key(plan@[at]@.0)
                &&& can_give(service@, request@, plan@[at]@.0)
                &&& plan@[at]@.1 < service@.disks[plan@[at]@.0].total_blks
                &&& !service@.disks[plan@[at]@.0].allocated.contains(plan@[at]@.1 as int)
            }
            &&& 0 <= at < other < plan@.len() ==> plan@[at]@.0 != plan@[other]@.0
            &&& 0 <= at < other < plan@.len() ==> (request@.fault_domain matches Some(kind)
                ==> forall|one: Seq<char>, two: Seq<char>|
                lies_in(service@, kind, plan@[at]@.0, one) && lies_in(
                    service@,
                    kind,
                    plan@[other]@.0,
                    two,
                ) ==> one != two)
        },
        result matches Err(error) ==> request@.count > 0 ==> (error
            matches MemberDiskServiceError::InsufficientAllocationCandidates {
            tier,
            requested,
            available,
        } && tier@ == request@.tier && requested == request@.count && available < requested
            && available == service@.all_picks(request@).len()),
{
    law_picks_are_sound(service@, request@);
    let picks = service@.all_picks(request@);
    if let Ok(plan) = result {
        if 0 <= at < plan@.len() {
            law_every_pick_can_be_given(service@, request@, at);
            law_plan_names_the_picks(plan@, picks, at);
        }
        if 0 <= at < other < plan@.len() {
            law_every_pick_can_be_given(service@, request@, other);
            law_plan_names_the_picks(plan@, picks, other);
            assert(picks[at].disk != picks[other].disk);
            if let Some(kind) = request@.fault_domain {
                assert forall|one: Seq<char>, two: Seq<char>|
                    lies_in(service@, kind, plan@[at]@.0, one) && lies_in(
                        service@,
                        kind,
                        plan@[other]@.0,
                        two,
                    ) implies one != two by {
                    lemma_one_domain(service@, kind, plan@[at]@.0, one);
                    lemma_one_domain(service@, kind, plan@[other]@.0, two);
                    assert(picks[at].domain != picks[other].domain);
                }
            }
        }
    }
}

proof fn lemma_one_domain(
    service: MemberDiskServiceView,
    kind: Seq<char>,
    uuid: Seq<char>,
    domain: Seq<char>,
)
    requires
        lies_in(service, kind, uuid, domain),
    ensures
        domain_of(service.disks[uuid].failure_domains, kind) == Some(domain),
{
    let domains = service.disks[uuid].failure_domains;
    let at = choose|at: int| #[trigger]
        first_of_kind(domains, kind, at) && domains[at].id@ == domain;
    law_domain_is_the_first_of_its_kind(domains, kind, at);
}

/// BLKs are allocated exactly when SDB committed them, and then the whole plan.
/// What SDB refused is not allocated, and the refusal is handed on.
pub proof fn law_only_committed_blks_are_allocated(
    service: &mut MemberDiskService,
    plan: Vec<BlkRef>,
    committed: Result<(), MetadataError>,
    result: Result<Allocation, MemberDiskServiceError>,
    at: int,
)
    requires
        old(service)@.plan_fits(plan@),
        call_ensures(
            MemberDiskService::finish_allocation,
            (service, plan, committed),
            result,
        ),
    ensures
        result is Ok <==> committed is Ok,
        result matches Ok(allocation) ==> {
            &&& allocation@ == plan@
            &&& 0 <= at < plan@.len() ==> final(service)@.disks[plan@[at]@.0].allocated.contains(
                plan@[at]@.1 as int,
            )
        },
        committed matches Err(error) ==> {
            &&& result == Err::<Allocation, _>(MemberDiskServiceError::Metadata(error))
            &&& final(service)@ == old(service)@
        },
{
    if 0 <= at < plan@.len() {
        assert(old(service)@.disks.contains_key(plan@[at]@.0));
        law_allocation_marks_exactly_the_plan(
            old(service)@,
            plan@,
            plan@[at]@.0,
            plan@[at]@.1 as int,
        );
    }
}

/// Disks are taken in the order of a dictionary of their identities, as bytes.
pub proof fn law_disks_stand_in_dictionary_order(service: MemberDiskServiceView, i: int, j: int)
    requires
        service.valid(),
        0 <= i < j < disk_order(service.disks).len(),
    ensures
        exists|at: int|
            crate::text::parts_at(
                vstd::utf8::encode_utf8(disk_order(service.disks)[i]),
                vstd::utf8::encode_utf8(disk_order(service.disks)[j]),
                at,
            ),
{
    let order = disk_order(service.disks);
    lemma_every_key_is_listed::<DiskUuid>(service.disks.dom());
    assert(<DiskUuid as crate::ordered_map::MapKey>::before(order[i], order[j]));
    crate::text::law_order_is_that_of_a_dictionary(
        vstd::utf8::encode_utf8(order[i]),
        vstd::utf8::encode_utf8(order[j]),
    );
}

} // verus!
