//! Coordination of competing intents on the same object.
//!
//! At most one intent per key is active. What happens to a later intent on an
//! occupied key is decided by the domain: it joins, it queues, or it queues and
//! asks the active intent to cancel.
use super::hub::{HubView, ObservationHub};
use super::ids::TaskId;
use super::task::TaskControl;
use crate::ordered_map::{MapKey, OrderedMap};
use crate::outside::{
    answered, cancel_requested, channel_made, child_token, delivered_as, descends_from, sent,
};
use std::collections::VecDeque;
use tokio::sync::oneshot;
use tokio_util::sync::CancellationToken;
use vstd::pervasive::cloned;
use vstd::prelude::*;

verus! {

/// What becomes of an intent whose object is occupied.
#[derive(Debug, PartialEq, Eq)]
pub enum ConflictDecision {
    Join,
    Queue,
    QueueAndCancel { cause: String },
}

impl Clone for ConflictDecision {
    fn clone(&self) -> (copy: Self)
        ensures
            copy == *self,
    {
        match self {
            ConflictDecision::Join => ConflictDecision::Join,
            ConflictDecision::Queue => ConflictDecision::Queue,
            ConflictDecision::QueueAndCancel { cause } => ConflictDecision::QueueAndCancel {
                cause: cause.clone(),
            },
        }
    }
}

/// What a conflict decision may look at.
pub struct ObjectActivityView<I> {
    pub active: I,
    pub pending: Seq<I>,
    pub cancelling: bool,
}

impl<I> ObjectActivityView<I> {
    /// The intent that came last.
    pub open spec fn latest(self) -> I {
        if self.pending.len() == 0 {
            self.active
        } else {
            self.pending.last()
        }
    }
}

/// The intents that occupy an object.
pub struct ObjectActivity<'a, I> {
    active: &'a I,
    pending: Vec<&'a I>,
    cancelling: bool,
}

impl<'a, I> View for ObjectActivity<'a, I> {
    type V = ObjectActivityView<I>;

    closed spec fn view(&self) -> ObjectActivityView<I> {
        ObjectActivityView {
            active: *self.active,
            pending: self.pending@.map_values(|input: &I| *input),
            cancelling: self.cancelling,
        }
    }
}

impl<'a, I> ObjectActivity<'a, I> {
    /// Shows an active intent, the queue behind it and whether the active one
    /// is being cancelled.
    pub fn new(active: &'a I, pending: Vec<&'a I>, cancelling: bool) -> (activity: Self)
        ensures
            activity@ == (ObjectActivityView {
                active: *active,
                pending: pending@.map_values(|input: &I| *input),
                cancelling,
            }),
    {
        ObjectActivity { active, pending, cancelling }
    }

    /// The active intent.
    pub fn active(&self) -> (input: &'a I)
        ensures
            *input == self@.active,
    {
        self.active
    }

    /// The intent that came last.
    pub fn latest(&self) -> (input: &'a I)
        ensures
            *input == self@.latest(),
    {
        if self.pending.len() == 0 {
            self.active
        } else {
            self.pending[self.pending.len() - 1]
        }
    }

    /// The queued intents, oldest first.
    pub fn pending(&self) -> (inputs: &[&'a I])
        ensures
            inputs@.map_values(|input: &I| *input) == self@.pending,
    {
        self.pending.as_slice()
    }

    /// Whether the active intent is being cancelled.
    pub fn is_cancelling(&self) -> (result: bool)
        ensures
            result == self@.cancelling,
    {
        self.cancelling
    }
}

/// What a lease stands for.
pub struct ObjectLeaseView<KV, I> {
    pub key: KV,
    pub generation: u64,
    pub input: I,
    pub cancellation: CancellationToken,
}

/// The right to work on an object. It has to be given back with
/// [`ObjectLease::finish`] or [`ObjectLease::abandon`].
pub struct ObjectLease<K: MapKey, I> {
    key: K,
    generation: u64,
    input: I,
    cancellation: CancellationToken,
}

impl<K: MapKey, I> View for ObjectLease<K, I> {
    type V = ObjectLeaseView<K::V, I>;

    closed spec fn view(&self) -> ObjectLeaseView<K::V, I> {
        ObjectLeaseView {
            key: self.key@,
            generation: self.generation,
            input: self.input,
            cancellation: self.cancellation,
        }
    }
}

/// A queued intent.
pub struct PendingView<I> {
    pub input: I,
    pub service_cancellation: CancellationToken,
}

#[verifier::reject_recursive_types(K)]
#[verifier::reject_recursive_types(I)]
struct PendingEntry<K: MapKey, I> {
    input: I,
    service_cancellation: CancellationToken,
    ready: oneshot::Sender<Option<ObjectLease<K, I>>>,
}

impl<K: MapKey, I> View for PendingEntry<K, I> {
    type V = PendingView<I>;

    closed spec fn view(&self) -> PendingView<I> {
        PendingView { input: self.input, service_cancellation: self.service_cancellation }
    }
}

/// An occupied object: the active intent and the queue behind it.
pub struct SlotView<I> {
    pub generation: u64,
    pub active: I,
    pub cancellation: CancellationToken,
    pub task: Option<TaskId>,
    pub pending: Seq<PendingView<I>>,
}

#[verifier::reject_recursive_types(K)]
#[verifier::reject_recursive_types(I)]
struct ObjectSlot<K: MapKey, I> {
    generation: u64,
    active: I,
    cancellation: CancellationToken,
    task: Option<TaskControl>,
    pending: VecDeque<PendingEntry<K, I>>,
}

impl<K: MapKey, I> ObjectSlot<K, I> {
    spec fn ready(&self) -> Seq<oneshot::Sender<Option<ObjectLease<K, I>>>> {
        self.pending@.map_values(|entry: PendingEntry<K, I>| entry.ready)
    }
}

impl<K: MapKey, I> View for ObjectSlot<K, I> {
    type V = SlotView<I>;

    closed spec fn view(&self) -> SlotView<I> {
        SlotView {
            generation: self.generation,
            active: self.active,
            cancellation: self.cancellation,
            task: match self.task {
                Some(control) => Some(control@),
                None => None,
            },
            pending: self.pending@.map_values(|entry: PendingEntry<K, I>| entry@),
        }
    }
}

/// What became of a queued intent when the object was released.
pub enum Offer {
    /// Its service was being cancelled, so it was discarded.
    Cancelled,
    /// Nobody waited for it any more.
    Abandoned,
    /// It became the active intent.
    Delivered { generation: u64, cancellation: CancellationToken },
}

/// Whether a lease promotes a queued intent on an object: it carries a copy of the
/// intent and is cancelled with the service that the intent came from.
pub open spec fn lease_fits<K: MapKey, I: Clone>(
    key: K::V,
    queued: PendingView<I>,
    lease: ObjectLease<K, I>,
) -> bool {
    &&& lease@.key == key
    &&& cloned(queued.input, lease@.input)
    &&& descends_from(lease@.cancellation, queued.service_cancellation)
}

/// Whether an offer was made to whoever waits for a queued intent: the service that
/// the intent came from was asked if it is cancelled, and accordingly nothing was
/// given out or the lease was sent.
pub open spec fn offered<K: MapKey, I: Clone>(
    key: K::V,
    queued: PendingView<I>,
    ready: oneshot::Sender<Option<ObjectLease<K, I>>>,
    offer: Offer,
) -> bool {
    &&& answered(queued.service_cancellation, offer is Cancelled)
    &&& match offer {
        Offer::Cancelled => sent(ready, None),
        Offer::Abandoned => exists|lease: ObjectLease<K, I>| #[trigger]
            delivered_as(ready, Some(lease), false) && lease_fits(key, queued, lease),
        Offer::Delivered { generation, cancellation } => exists|lease: ObjectLease<K, I>|
            {
                &&& #[trigger] delivered_as(ready, Some(lease), true)
                &&& lease_fits(key, queued, lease)
                &&& lease@.generation == generation
                &&& lease@.cancellation == cancellation
            },
    }
}

/// The number of offers for which a lease was made out.
pub open spec fn leases_made(offers: Seq<Offer>) -> nat
    decreases offers.len(),
{
    if offers.len() == 0 {
        0
    } else if offers.last() is Cancelled {
        leases_made(offers.drop_last())
    } else {
        leases_made(offers.drop_last()) + 1
    }
}

/// Whether the last offer promoted a queued intent.
pub open spec fn promotes(offers: Seq<Offer>) -> bool {
    offers.len() > 0 && offers.last() is Delivered
}

/// Whether `offers` can have been made to a queue: one intent after another was
/// tried, oldest first, up to the first that took the lease. `first` is the
/// generation of the first lease.
pub open spec fn offers_fit<I>(queue: Seq<PendingView<I>>, first: u64, offers: Seq<Offer>) -> bool {
    &&& offers.len() <= queue.len()
    &&& forall|i: int| 0 <= i < offers.len() - 1 ==> !((#[trigger] offers[i]) is Delivered)
    &&& promotes(offers) || offers.len() == queue.len()
    &&& match offers.last() {
        Offer::Delivered { generation, cancellation } => offers.len() > 0 ==> {
            &&& generation == first + leases_made(offers) - 1
            &&& descends_from(cancellation, queue[offers.len() - 1].service_cancellation)
        },
        _ => true,
    }
}

/// Everything that a coordinator holds.
#[verifier::ext_equal]
#[verifier::reject_recursive_types(KV)]
#[verifier::reject_recursive_types(E)]
pub struct CoordinatorView<KV, I, E> {
    pub next_generation: u64,
    pub slots: Map<KV, SlotView<I>>,
    pub waiters: Map<KV, Seq<oneshot::Sender<Result<(), E>>>>,
    pub last_results: Map<KV, Result<(), E>>,
    pub dropped_error: E,
}

impl<KV, I, E> CoordinatorView<KV, I, E> {
    /// What every coordinator keeps: generations are below the next one and
    /// belong to one object each, only occupied objects are waited for, and
    /// only free ones have a last result.
    pub open spec fn valid(self) -> bool {
        &&& forall|key: KV| #[trigger]
            self.slots.contains_key(key) ==> self.slots[key].generation < self.next_generation
        &&& forall|a: KV, b: KV|
            (#[trigger] self.slots.contains_key(a)) && (#[trigger] self.slots.contains_key(b)) && a
                != b ==> self.slots[a].generation != self.slots[b].generation
        &&& forall|key: KV| #[trigger]
            self.waiters.contains_key(key) ==> self.slots.contains_key(key)
        &&& forall|key: KV| #[trigger]
            self.last_results.contains_key(key) ==> !self.slots.contains_key(key)
    }

    /// Whether a lease of this generation is the one that occupies the object.
    pub open spec fn holds(self, key: KV, generation: u64) -> bool {
        self.slots.contains_key(key) && self.slots[key].generation == generation
    }

    /// The coordinator after an intent occupied a free object.
    pub open spec fn activated(self, key: KV, active: I, cancellation: CancellationToken) -> Self {
        CoordinatorView {
            next_generation: (self.next_generation + 1) as u64,
            slots: self.slots.insert(
                key,
                SlotView {
                    generation: self.next_generation,
                    active,
                    cancellation,
                    task: None,
                    pending: Seq::empty(),
                },
            ),
            last_results: self.last_results.remove(key),
            ..self
        }
    }

    /// The coordinator after a decision on an intent whose object is occupied.
    pub open spec fn decided(
        self,
        key: KV,
        input: I,
        service_cancellation: CancellationToken,
        decision: ConflictDecision,
    ) -> Self {
        if decision is Join {
            self
        } else {
            let slot = self.slots[key];
            CoordinatorView {
                slots: self.slots.insert(
                    key,
                    SlotView {
                        pending: slot.pending.push(PendingView { input, service_cancellation }),
                        ..slot
                    },
                ),
                ..self
            }
        }
    }

    /// The observation hub after a decision: where the decision asks for
    /// cancellation and the active intent has a task, that task is cancelled.
    pub open spec fn hub_decided(
        self,
        key: KV,
        decision: ConflictDecision,
        hub: HubView,
        now: u64,
    ) -> HubView {
        match (decision, self.slots[key].task) {
            (ConflictDecision::QueueAndCancel { cause }, Some(task)) => hub.cancel_requested(
                task,
                cause@,
                now,
            ),
            _ => hub,
        }
    }

    /// Whether the intent that holds an object was cancelled: through its task
    /// where it has one that can be cancelled, and by its own token otherwise.
    pub open spec fn active_cancelled(self, key: KV, hub: HubView) -> bool {
        match self.slots[key].task {
            Some(task) => hub.cancel_refusal(task) is None ==> cancel_requested(
                hub.tasks[task@].cancellation,
            ),
            None => cancel_requested(self.slots[key].cancellation),
        }
    }

    /// The coordinator after a task was tied to a lease.
    pub open spec fn bound(self, key: KV, generation: u64, task: TaskId) -> Self {
        if self.holds(key, generation) {
            CoordinatorView {
                slots: self.slots.insert(
                    key,
                    SlotView { task: Some(task), ..self.slots[key] },
                ),
                ..self
            }
        } else {
            self
        }
    }

    /// The coordinator after a lease was given back with `result`, where
    /// `offers` became of the queued intents.
    pub open spec fn released(
        self,
        key: KV,
        generation: u64,
        result: Result<(), E>,
        offers: Seq<Offer>,
    ) -> Self {
        if !self.holds(key, generation) {
            self
        } else {
            let queue = self.slots[key].pending;
            let next_generation = (self.next_generation + leases_made(offers)) as u64;
            if promotes(offers) {
                CoordinatorView {
                    next_generation,
                    slots: self.slots.insert(
                        key,
                        SlotView {
                            generation: offers.last()->generation,
                            active: queue[offers.len() - 1].input,
                            cancellation: offers.last()->cancellation,
                            task: None,
                            pending: queue.skip(offers.len() as int),
                        },
                    ),
                    last_results: self.last_results.remove(key),
                    ..self
                }
            } else {
                CoordinatorView {
                    next_generation,
                    slots: self.slots.remove(key),
                    waiters: self.waiters.remove(key),
                    last_results: self.last_results.insert(key, result),
                    ..self
                }
            }
        }
    }

    proof fn lemma_slot_replaced(self, key: KV, slot: SlotView<I>)
        requires
            self.valid(),
            self.slots.contains_key(key),
            slot.generation == self.slots[key].generation,
        ensures
            (CoordinatorView { slots: self.slots.insert(key, slot), ..self }).valid(),
    {
        let slots = self.slots.insert(key, slot);
        assert forall|a: KV, b: KV|
            (#[trigger] slots.contains_key(a)) && (#[trigger] slots.contains_key(b)) && a
                != b implies slots[a].generation != slots[b].generation by {
            assert(self.slots.contains_key(a));
            assert(self.slots.contains_key(b));
        }
        assert forall|other: KV| #[trigger] self.waiters.contains_key(other) implies slots.contains_key(
            other,
        ) by {
            assert(self.slots.contains_key(other));
        }
        assert forall|other: KV| #[trigger]
            self.last_results.contains_key(other) implies !slots.contains_key(other) by {
            assert(!self.slots.contains_key(other));
        }
    }

    proof fn lemma_slot_promoted(self, key: KV, slot: SlotView<I>, next_generation: u64)
        requires
            self.valid(),
            self.slots.contains_key(key),
            self.next_generation <= slot.generation < next_generation,
        ensures
            (CoordinatorView {
                next_generation,
                slots: self.slots.insert(key, slot),
                last_results: self.last_results.remove(key),
                ..self
            }).valid(),
    {
        let slots = self.slots.insert(key, slot);
        let last_results = self.last_results.remove(key);
        assert forall|other: KV| #[trigger] slots.contains_key(other) implies slots[other].generation
            < next_generation by {
            assert(self.slots.contains_key(other));
        }
        assert forall|a: KV, b: KV|
            (#[trigger] slots.contains_key(a)) && (#[trigger] slots.contains_key(b)) && a
                != b implies slots[a].generation != slots[b].generation by {
            assert(self.slots.contains_key(a));
            assert(self.slots.contains_key(b));
        }
        assert forall|other: KV| #[trigger] self.waiters.contains_key(other) implies slots.contains_key(
            other,
        ) by {
            assert(self.slots.contains_key(other));
        }
        assert forall|other: KV| #[trigger] last_results.contains_key(other) implies !slots.contains_key(
            other,
        ) by {
            assert(self.last_results.contains_key(other));
            assert(!self.slots.contains_key(other));
        }
    }

    proof fn lemma_slot_freed(self, key: KV, result: Result<(), E>, next_generation: u64)
        requires
            self.valid(),
            self.next_generation <= next_generation,
        ensures
            (CoordinatorView {
                next_generation,
                slots: self.slots.remove(key),
                waiters: self.waiters.remove(key),
                last_results: self.last_results.insert(key, result),
                ..self
            }).valid(),
    {
        let slots = self.slots.remove(key);
        let waiters = self.waiters.remove(key);
        let last_results = self.last_results.insert(key, result);
        assert forall|other: KV| #[trigger] slots.contains_key(other) implies slots[other].generation
            < next_generation by {
            assert(self.slots.contains_key(other));
        }
        assert forall|a: KV, b: KV|
            (#[trigger] slots.contains_key(a)) && (#[trigger] slots.contains_key(b)) && a
                != b implies slots[a].generation != slots[b].generation by {
            assert(self.slots.contains_key(a));
            assert(self.slots.contains_key(b));
        }
        assert forall|other: KV| #[trigger] waiters.contains_key(other) implies slots.contains_key(
            other,
        ) by {
            assert(self.waiters.contains_key(other));
            assert(self.slots.contains_key(other));
        }
        assert forall|other: KV| #[trigger] last_results.contains_key(other) implies !slots.contains_key(
            other,
        ) by {
            if other != key {
                assert(self.last_results.contains_key(other));
            }
        }
    }

    /// No generation overflows when the lease of an object is given back or an
    /// object is occupied.
    pub open spec fn has_room(self, key: KV) -> bool {
        self.next_generation + 1 + (if self.slots.contains_key(key) {
            self.slots[key].pending.len()
        } else {
            0
        }) <= u64::MAX
    }
}

/// How an intent entered the coordinator.
#[verifier::reject_recursive_types(K)]
#[verifier::reject_recursive_types(I)]
pub enum ObjectAdmission<K: MapKey, I> {
    Joined,
    Active(ObjectLease<K, I>),
    Pending(ObjectPending<K, I>),
}

/// A queued intent as its submitter sees it.
#[verifier::reject_recursive_types(K)]
#[verifier::reject_recursive_types(I)]
pub struct ObjectPending<K: MapKey, I> {
    pub receiver: oneshot::Receiver<Option<ObjectLease<K, I>>>,
}

impl<K: MapKey, I> ObjectPending<K, I> {
    /// What the receiver brought: the lease, or nothing when the intent was
    /// discarded or the coordinator is gone.
    pub fn activate(
        received: Result<Option<ObjectLease<K, I>>, oneshot::error::RecvError>,
    ) -> (lease: Option<ObjectLease<K, I>>)
        ensures
            lease == (match received {
                Ok(lease) => lease,
                Err(_) => None,
            }),
    {
        match received {
            Ok(lease) => lease,
            Err(_) => None,
        }
    }
}

/// The answer to the question whether an object is free.
#[verifier::reject_recursive_types(E)]
pub enum IdleWait<E> {
    /// It is free; the result of the last intent on it, or success when there
    /// was none.
    Idle(Result<(), E>),
    /// It is occupied; the receiver gets the result once it is free.
    Waiting(oneshot::Receiver<Result<(), E>>),
}

/// Whether `copy` is a clone of `result`.
pub open spec fn result_cloned<E: Clone>(result: Result<(), E>, copy: Result<(), E>) -> bool {
    match (result, copy) {
        (Ok(_), Ok(_)) => true,
        (Err(error), Err(other)) => cloned(error, other),
        _ => false,
    }
}

/// Whether a clone of a result was sent on a channel.
pub open spec fn result_sent<E: Clone>(
    waiter: oneshot::Sender<Result<(), E>>,
    result: Result<(), E>,
) -> bool {
    exists|copy: Result<(), E>| #[trigger] sent(waiter, copy) && result_cloned(result, copy)
}

fn clone_result<E: Clone>(result: &Result<(), E>) -> (copy: Result<(), E>)
    ensures
        result_cloned(*result, copy),
{
    match result {
        Ok(_) => Ok(()),
        Err(error) => Err(error.clone()),
    }
}

/// An in-process mailbox per object, without a task per object.
#[verifier::reject_recursive_types(K)]
#[verifier::reject_recursive_types(I)]
#[verifier::reject_recursive_types(E)]
pub struct ObjectTaskCoordinator<K: MapKey, I: Clone, E: Clone> {
    next_generation: u64,
    slots: OrderedMap<K, ObjectSlot<K, I>>,
    waiters: OrderedMap<K, Vec<oneshot::Sender<Result<(), E>>>>,
    last_results: OrderedMap<K, Result<(), E>>,
    dropped_error: E,
}

impl<K: MapKey, I: Clone, E: Clone> View for ObjectTaskCoordinator<K, I, E> {
    type V = CoordinatorView<K::V, I, E>;

    closed spec fn view(&self) -> CoordinatorView<K::V, I, E> {
        CoordinatorView {
            next_generation: self.next_generation,
            slots: self.slots@.map_values(|slot: ObjectSlot<K, I>| slot@),
            waiters: self.waiters@.map_values(
                |waiting: Vec<oneshot::Sender<Result<(), E>>>| waiting@,
            ),
            last_results: self.last_results@,
            dropped_error: self.dropped_error,
        }
    }
}

impl<K: MapKey, I: Clone, E: Clone> ObjectTaskCoordinator<K, I, E> {
    /// Where those who wait for the queued intents learn of them, by object and
    /// oldest first.
    pub closed spec fn ready(&self) -> Map<
        K::V,
        Seq<oneshot::Sender<Option<ObjectLease<K, I>>>>,
    > {
        self.slots@.map_values(|slot: ObjectSlot<K, I>| slot.ready())
    }

    /// Whether a decision on an intent was carried out, where `ready` tells who
    /// waits for queued intents then: an intent that does not join is queued with
    /// a channel of its own, and what it displaces is cancelled.
    pub open spec fn carried_out(
        &self,
        ready: Map<K::V, Seq<oneshot::Sender<Option<ObjectLease<K, I>>>>>,
        key: K::V,
        decision: ConflictDecision,
        hub: HubView,
        admission: ObjectAdmission<K, I>,
    ) -> bool {
        if decision is Join {
            admission is Joined && ready == self.ready()
        } else {
            &&& admission matches ObjectAdmission::Pending(pending)
            &&& exists|sender: oneshot::Sender<Option<ObjectLease<K, I>>>| #[trigger]
                channel_made(sender, pending.receiver) && ready == self.ready().insert(
                    key,
                    self.ready()[key].push(sender),
                )
            &&& decision is QueueAndCancel ==> self@.active_cancelled(key, hub)
        }
    }

    /// Whether everyone concerned learned that a lease was given back, where
    /// `ready` tells who waits for queued intents then: the queued intents that
    /// were tried, and, on an object that is free now, those who wait for that.
    pub open spec fn release_told(
        &self,
        ready: Map<K::V, Seq<oneshot::Sender<Option<ObjectLease<K, I>>>>>,
        key: K::V,
        generation: u64,
        result: Result<(), E>,
        offers: Seq<Offer>,
    ) -> bool {
        if self@.holds(key, generation) {
            &&& forall|i: int|
                0 <= i < offers.len() ==> offered(
                    key,
                    self@.slots[key].pending[i],
                    self.ready()[key][i],
                    #[trigger] offers[i],
                )
            &&& if promotes(offers) {
                ready == self.ready().insert(key, self.ready()[key].skip(offers.len() as int))
            } else {
                &&& ready == self.ready().remove(key)
                &&& forall|i: int|
                    0 <= i < self@.waiting(key).len() ==> result_sent(
                        #[trigger] self@.waiting(key)[i],
                        result,
                    )
            }
        } else {
            ready == self.ready()
        }
    }

    /// The coordinator is valid and its maps are in order.
    pub closed spec fn wf(&self) -> bool {
        &&& self.slots.wf()
        &&& self.waiters.wf()
        &&& self.last_results.wf()
        &&& self@.valid()
    }

    /// A well-formed coordinator is valid.
    pub proof fn lemma_valid(&self)
        requires
            self.wf(),
        ensures
            self@.valid(),
    {
    }

    /// A coordinator without intents. A lease that is given up counts as failed
    /// with `dropped_error`.
    pub fn new(dropped_error: E) -> (tasks: Self)
        ensures
            tasks.wf(),
            tasks@.next_generation == 1,
            tasks@.slots == Map::<K::V, SlotView<I>>::empty(),
            tasks@.waiters == Map::<K::V, Seq<oneshot::Sender<Result<(), E>>>>::empty(),
            tasks@.last_results == Map::<K::V, Result<(), E>>::empty(),
            tasks@.dropped_error == dropped_error,
            tasks.ready() == Map::<K::V, Seq<oneshot::Sender<Option<ObjectLease<K, I>>>>>::empty(),
    {
        let tasks = ObjectTaskCoordinator {
            next_generation: 1,
            slots: OrderedMap::new(),
            waiters: OrderedMap::new(),
            last_results: OrderedMap::new(),
            dropped_error,
        };
        proof {
            assert(tasks@.slots =~= Map::<K::V, SlotView<I>>::empty());
            assert(tasks@.waiters =~= Map::<K::V, Seq<oneshot::Sender<Result<(), E>>>>::empty());
            assert(tasks.ready() =~= Map::empty());
        }
        tasks
    }

    /// The number of occupied objects.
    pub fn active_count(&self) -> (count: usize)
        requires
            self.wf(),
        ensures
            count == self@.slots.dom().len(),
    {
        proof {
            self.slots.lemma_listing();
            assert(self@.slots.dom() =~= self.slots@.dom());
        }
        self.slots.len()
    }

    /// Whether the object has an active or queued intent.
    pub fn is_active(&self, key: &K) -> (result: bool)
        requires
            self.wf(),
        ensures
            result == self@.slots.contains_key(key@),
    {
        self.slots.contains_key(key)
    }

    /// Whether no generation overflows when the object is occupied or released.
    pub fn has_room_for(&self, key: &K) -> (result: bool)
        requires
            self.wf(),
        ensures
            result == self@.has_room(key@),
    {
        let queued: usize = match self.slots.get(key) {
            Some(slot) => slot.pending.len(),
            None => 0,
        };
        self.next_generation < u64::MAX && queued as u64 <= u64::MAX - 1 - self.next_generation
    }

    fn activate(&mut self, key: K, input: I, service_cancellation: &CancellationToken) -> (lease:
        ObjectLease<K, I>)
        requires
            old(self).wf(),
            !old(self)@.slots.contains_key(key@),
            old(self)@.next_generation < u64::MAX,
        ensures
            final(self).wf(),
            lease@.key == key@,
            lease@.generation == old(self)@.next_generation,
            lease@.input == input,
            descends_from(lease@.cancellation, *service_cancellation),
            exists|active: I| #[trigger]
                cloned(input, active) && final(self)@ == old(self)@.activated(
                    key@,
                    active,
                    lease@.cancellation,
                ),
            final(self).ready() == old(self).ready().insert(key@, Seq::empty()),
    {
        let ghost before = *self;
        let generation = self.next_generation;
        self.next_generation = generation + 1;
        let cancellation = child_token(service_cancellation);
        let _ = self.last_results.remove(&key);
        let active = input.clone();
        let slot = ObjectSlot {
            generation,
            active,
            cancellation: cancellation.clone(),
            task: None,
            pending: VecDeque::new(),
        };
        self.slots.insert(key.duplicate(), slot);
        proof {
            assert(slot@.pending =~= Seq::empty());
            assert(slot.ready() =~= Seq::empty());
            assert(self.ready() =~= before.ready().insert(key@, Seq::empty()));
            assert(self@.slots =~= before@.slots.insert(key@, slot@));
            assert(self@ =~= before@.activated(key@, active, cancellation));
            assert(cloned(input, active));
        }
        ObjectLease { key, generation, input, cancellation }
    }

    /// Applies a decision on an intent whose object is occupied.
    pub fn apply_decision(
        &mut self,
        key: &K,
        input: I,
        service_cancellation: &CancellationToken,
        decision: ConflictDecision,
        hub: &mut ObservationHub,
        now: u64,
    ) -> (admission: ObjectAdmission<K, I>)
        requires
            old(self).wf(),
            old(self)@.slots.contains_key(key@),
            old(hub).wf(),
            old(hub)@.has_room(1),
        ensures
            final(self).wf(),
            final(hub).wf(),
            final(self)@ == old(self)@.decided(key@, input, *service_cancellation, decision),
            final(hub)@ == old(self)@.hub_decided(key@, decision, old(hub)@, now),
            old(self).carried_out(final(self).ready(), key@, decision, old(hub)@, admission),
    {
        let ghost before = *self;
        match decision {
            ConflictDecision::Join => ObjectAdmission::Joined,
            _ => {
                let (ready, receiver) = oneshot::channel();
                let entry = PendingEntry {
                    input,
                    service_cancellation: service_cancellation.clone(),
                    ready,
                };
                let mut control: Option<TaskControl> = None;
                let mut token: Option<CancellationToken> = None;
                if let Some(slot) = self.slots.get_mut(key) {
                    slot.pending.push_back(entry);
                    control = slot.task;
                    token = Some(slot.cancellation.clone());
                }
                proof {
                    let slot = before@.slots[key@];
                    assert(before@.slots[key@] == before.slots@[key@]@);
                    let longer = slot.pending.push(entry@);
                    assert(self@.slots[key@].pending =~= longer);
                    assert(self@.slots =~= before@.slots.insert(
                        key@,
                        SlotView { pending: longer, ..slot },
                    ));
                    before@.lemma_slot_replaced(key@, self@.slots[key@]);
                    assert(self.slots@[key@].ready() =~= before.ready()[key@].push(ready));
                    assert(self.ready() =~= before.ready().insert(
                        key@,
                        before.ready()[key@].push(ready),
                    ));
                }
                if let ConflictDecision::QueueAndCancel { cause } = decision {
                    match control {
                        Some(task) => {
                            task.request_cancel(hub, cause.as_str(), now);
                            assert(before@.active_cancelled(key@, old(hub)@));
                        },
                        None => {
                            if let Some(token) = token {
                                token.cancel();
                            }
                            assert(before@.active_cancelled(key@, old(hub)@));
                        },
                    }
                }
                let admission = ObjectAdmission::Pending(ObjectPending { receiver });
                assert(channel_made(ready, admission->Pending_0.receiver));
                admission
            },
        }
    }

    /// Admits an intent. It becomes active when its object is free; otherwise
    /// `decide` judges it against the intents that occupy the object.
    pub fn admit_intent<F: FnOnce(ObjectActivity<'_, I>, &I) -> ConflictDecision>(
        &mut self,
        key: K,
        input: I,
        service_cancellation: &CancellationToken,
        decide: F,
        hub: &mut ObservationHub,
        now: u64,
    ) -> (admission: ObjectAdmission<K, I>)
        requires
            old(self).wf(),
            old(self)@.has_room(key@),
            old(hub).wf(),
            old(hub)@.has_room(1),
            forall|activity: ObjectActivity<'_, I>| #[trigger]
                old(self)@.slots.contains_key(key@) && shows(
                    activity,
                    old(self)@.slots[key@],
                ) ==> decide.requires((activity, &input)),
        ensures
            final(self).wf(),
            final(hub).wf(),
            !old(self)@.slots.contains_key(key@) ==> {
                &&& final(hub)@ == old(hub)@
                &&& admission matches ObjectAdmission::Active(lease)
                &&& lease@.key == key@
                &&& lease@.generation == old(self)@.next_generation
                &&& lease@.input == input
                &&& descends_from(lease@.cancellation, *service_cancellation)
                &&& exists|active: I| #[trigger]
                    cloned(input, active) && final(self)@ == old(self)@.activated(
                        key@,
                        active,
                        lease@.cancellation,
                    )
                &&& final(self).ready() == old(self).ready().insert(key@, Seq::empty())
            },
            old(self)@.slots.contains_key(key@) ==> exists|
                activity: ObjectActivity<'_, I>,
                decision: ConflictDecision,
            |
                {
                    &&& shows(activity, old(self)@.slots[key@])
                    &&& #[trigger] decide.ensures((activity, &input), decision)
                    &&& final(self)@ == old(self)@.decided(
                        key@,
                        input,
                        *service_cancellation,
                        decision,
                    )
                    &&& final(hub)@ == old(self)@.hub_decided(key@, decision, old(hub)@, now)
                    &&& old(self).carried_out(
                        final(self).ready(),
                        key@,
                        decision,
                        old(hub)@,
                        admission,
                    )
                },
    {
        let decision = match self.slots.get(&key) {
            None => None,
            Some(slot) => {
                let mut pending: Vec<&I> = Vec::new();
                let mut at: usize = 0;
                while at < slot.pending.len()
                    invariant
                        at <= slot.pending@.len(),
                        pending@.len() == at,
                        forall|i: int|
                            0 <= i < at ==> *(#[trigger] pending@[i]) == slot.pending@[i].input,
                    decreases slot.pending@.len() - at,
                {
                    pending.push(&slot.pending[at].input);
                    at = at + 1;
                }
                let activity = ObjectActivity {
                    active: &slot.active,
                    pending,
                    cancelling: slot.cancellation.is_cancelled(),
                };
                proof {
                    assert(self@.slots[key@] == slot@);
                    assert(activity@.pending =~= slot@.pending.map_values(
                        |entry: PendingView<I>| entry.input,
                    ));
                    assert(shows(activity, self@.slots[key@]));
                }
                Some(decide(activity, &input))
            },
        };
        match decision {
            None => ObjectAdmission::Active(self.activate(key, input, service_cancellation)),
            Some(decision) => self.apply_decision(
                &key,
                input,
                service_cancellation,
                decision,
                hub,
                now,
            ),
        }
    }

    /// Asks whether an object is free. On an occupied object the question
    /// waits.
    pub fn wait_idle(&mut self, key: K) -> (answer: IdleWait<E>)
        requires
            old(self).wf(),
        ensures
            final(self).wf(),
            match answer {
                IdleWait::Idle(result) => {
                    &&& !old(self)@.slots.contains_key(key@)
                    &&& final(self)@ == old(self)@
                    &&& if old(self)@.last_results.contains_key(key@) {
                        result_cloned(old(self)@.last_results[key@], result)
                    } else {
                        result is Ok
                    }
                },
                IdleWait::Waiting(receiver) => {
                    &&& channel_made(final(self)@.waiters[key@].last(), receiver)
                    &&& old(self)@.slots.contains_key(key@)
                    &&& final(self)@.waiters.contains_key(key@)
                    &&& final(self)@.waiters[key@].len() == old(self)@.waiting(key@).len() + 1
                    &&& final(self)@.waiters[key@].drop_last() == old(self)@.waiting(key@)
                    &&& final(self)@ == (CoordinatorView {
                        waiters: old(self)@.waiters.insert(key@, final(self)@.waiters[key@]),
                        ..old(self)@
                    })
                },
            },
            final(self).ready() == old(self).ready(),
    {
        let ghost before = *self;
        if !self.slots.contains_key(&key) {
            return match self.last_results.get(&key) {
                Some(result) => IdleWait::Idle(clone_result(result)),
                None => IdleWait::Idle(Ok(())),
            };
        }
        let (reply, response) = oneshot::channel();
        let mut waiting = match self.waiters.remove(&key) {
            Some(waiting) => waiting,
            None => Vec::new(),
        };
        waiting.push(reply);
        let ghost all = waiting@;
        self.waiters.insert(key, waiting);
        proof {
            assert(all.drop_last() =~= before@.waiting(key@));
            assert(self@.waiters =~= before@.waiters.insert(key@, all));
        }
        IdleWait::Waiting(response)
    }
}

/// Whether an activity shows an occupied object: its intents, and whether the
/// active one is being cancelled.
pub open spec fn shows<I>(activity: ObjectActivity<'_, I>, slot: SlotView<I>) -> bool {
    &&& answered(slot.cancellation, activity@.cancelling)
    &&& activity@.active == slot.active
    &&& activity@.pending == slot.pending.map_values(|entry: PendingView<I>| entry.input)
}

impl<KV, I, E> CoordinatorView<KV, I, E> {
    /// Those that wait for an object to become free.
    pub open spec fn waiting(self, key: KV) -> Seq<oneshot::Sender<Result<(), E>>> {
        if self.waiters.contains_key(key) {
            self.waiters[key]
        } else {
            Seq::empty()
        }
    }
}

impl<K: MapKey, I: Clone, E: Clone> ObjectTaskCoordinator<K, I, E> {
    fn notify(waiting: Vec<oneshot::Sender<Result<(), E>>>, result: &Result<(), E>)
        ensures
            forall|i: int|
                0 <= i < waiting@.len() ==> result_sent(#[trigger] waiting@[i], *result),
    {
        let ghost given = waiting@;
        for waiter in iter: waiting
            invariant
                iter.seq() == given,
                forall|i: int| 0 <= i < iter.index() ==> result_sent(#[trigger] given[i], *result),
        {
            assert(waiter == given[iter.index() as int]);
            let copy = clone_result(result);
            let _ = waiter.send(copy);
            assert(sent(waiter, copy));
        }
    }

    /// The lease that promotes a queued intent: a copy of the intent, cancelled
    /// with the service that it came from.
    fn lease_for(
        key: &K,
        generation: u64,
        input: &I,
        service_cancellation: &CancellationToken,
    ) -> (lease: ObjectLease<K, I>)
        ensures
            lease@.key == key@,
            lease@.generation == generation,
            cloned(*input, lease@.input),
            descends_from(lease@.cancellation, *service_cancellation),
    {
        ObjectLease {
            key: key.duplicate(),
            generation,
            input: input.clone(),
            cancellation: child_token(service_cancellation),
        }
    }

    /// Gives an object back: the oldest queued intent that still wants it takes
    /// over, otherwise the object is free and everyone who waits for that
    /// learns the result. A lease that does not hold the object changes
    /// nothing.
    fn release(&mut self, key: &K, generation: u64, result: Result<(), E>) -> (offers: Vec<Offer>)
        requires
            old(self).wf(),
            old(self)@.has_room(key@),
        ensures
            final(self).wf(),
            final(self)@ == old(self)@.released(key@, generation, result, offers@),
            !old(self)@.holds(key@, generation) ==> offers@.len() == 0,
            old(self)@.holds(key@, generation) ==> offers_fit(
                old(self)@.slots[key@].pending,
                old(self)@.next_generation,
                offers@,
            ),
            old(self).release_told(final(self).ready(), key@, generation, result, offers@),
    {
        let ghost before = *self;
        let mut offers: Vec<Offer> = Vec::new();
        let slot = match self.slots.remove(key) {
            None => {
                proof {
                    assert(self.slots@ =~= before.slots@);
                }
                return offers;
            },
            Some(slot) => slot,
        };
        if slot.generation != generation {
            self.slots.insert(key.duplicate(), slot);
            proof {
                assert(self.slots@ =~= before.slots@);
            }
            return offers;
        }
        let ghost queue = slot@.pending;
        let ghost senders = slot.ready();
        assert(before@.slots[key@] == slot@);
        let mut pending = slot.pending;
        proof {
            assert(queue.skip(0) =~= queue);
            assert(senders.skip(0) =~= senders);
        }
        while pending.len() > 0
            invariant
                self.slots.wf(),
                self.slots@ == before.slots@.remove(key@),
                self.waiters == before.waiters,
                self.last_results == before.last_results,
                self.dropped_error == before.dropped_error,
                before == *old(self),
                before.wf(),
                before@.slots.contains_key(key@),
                before@.slots[key@].pending == queue,
                before@.holds(key@, generation),
                before@.next_generation + 1 + queue.len() <= u64::MAX,
                offers@.len() <= queue.len(),
                forall|i: int| 0 <= i < offers@.len() ==> !((#[trigger] offers@[i]) is Delivered),
                self.next_generation == before.next_generation + leases_made(offers@),
                leases_made(offers@) <= offers@.len(),
                pending@.map_values(|entry: PendingEntry<K, I>| entry@) == queue.skip(
                    offers@.len() as int,
                ),
                before.ready()[key@] == senders,
                senders.len() == queue.len(),
                pending@.map_values(|entry: PendingEntry<K, I>| entry.ready) == senders.skip(
                    offers@.len() as int,
                ),
                forall|i: int|
                    0 <= i < offers@.len() ==> offered(
                        key@,
                        queue[i],
                        senders[i],
                        #[trigger] offers@[i],
                    ),
            decreases pending@.len(),
        {
            let ghost tried = offers@;
            let ghost place = offers@.len() as int;
            let ghost rest = queue.skip(place);
            let ghost waiting = pending@;
            assert(rest.len() == waiting.len());
            assert(rest[0] == queue[place]);
            let next = match pending.pop_front() {
                Some(next) => next,
                None => {
                    return offers;
                },
            };
            proof {
                assert(next@ == rest[0]);
                assert forall|i: int| 0 <= i < pending@.len() implies (#[trigger] pending@[i])@
                    == queue.skip(place + 1)[i] by {
                    assert(pending@[i] == waiting[i + 1]);
                    assert(rest[i + 1] == waiting[i + 1]@);
                }
                assert(pending@.map_values(|entry: PendingEntry<K, I>| entry@) =~= queue.skip(
                    place + 1,
                ));
                let channels = senders.skip(place);
                assert(channels[0] == waiting[0].ready);
                assert(next.ready == senders[place]);
                assert forall|i: int| 0 <= i < pending@.len() implies (#[trigger] pending@[i]).ready
                    == senders.skip(place + 1)[i] by {
                    assert(pending@[i] == waiting[i + 1]);
                    assert(channels[i + 1] == waiting[i + 1].ready);
                }
                assert(pending@.map_values(|entry: PendingEntry<K, I>| entry.ready)
                    =~= senders.skip(place + 1));
            }
            if next.service_cancellation.is_cancelled() {
                let _ = next.ready.send(None);
                offers.push(Offer::Cancelled);
                proof {
                    assert(offers@.drop_last() =~= tried);
                    assert(offered(key@, queue[place], senders[place], Offer::Cancelled));
                }
            } else {
                let fresh = self.next_generation;
                self.next_generation = fresh + 1;
                let input = next.input;
                let lease = Self::lease_for(key, fresh, &input, &next.service_cancellation);
                let cancellation = lease.cancellation.clone();
                let ghost made = lease;
                proof {
                    assert(lease_fits(key@, queue[place], made));
                }
                match next.ready.send(Some(lease)) {
                    Ok(_) => {
                        let _ = self.last_results.remove(key);
                        offers.push(
                            Offer::Delivered {
                                generation: fresh,
                                cancellation: cancellation.clone(),
                            },
                        );
                        let slot = ObjectSlot {
                            generation: fresh,
                            active: input,
                            cancellation,
                            task: None,
                            pending,
                        };
                        self.slots.insert(key.duplicate(), slot);
                        proof {
                            assert(offers@.drop_last() =~= tried);
                            assert(delivered_as(senders[place], Some(made), true));
                            assert(offered(
                                key@,
                                queue[place],
                                senders[place],
                                offers@[place],
                            ));
                            assert(self@.slots =~= before@.slots.insert(key@, slot@));
                            assert(self@.waiters =~= before@.waiters);
                            assert(slot@.pending =~= queue.skip(offers@.len() as int));
                            assert(slot.ready() =~= senders.skip(offers@.len() as int));
                            assert(self.ready() =~= before.ready().insert(
                                key@,
                                senders.skip(offers@.len() as int),
                            ));
                            before@.lemma_slot_promoted(key@, slot@, self@.next_generation);
                        }
                        return offers;
                    },
                    Err(_) => {
                        offers.push(Offer::Abandoned);
                        proof {
                            assert(offers@.drop_last() =~= tried);
                            assert(delivered_as(senders[place], Some(made), false));
                            assert(offered(key@, queue[place], senders[place], Offer::Abandoned));
                        }
                    },
                }
            }
        }
        if let Some(waiting) = self.waiters.remove(key) {
            Self::notify(waiting, &result);
        }
        self.last_results.insert(key.duplicate(), result);
        proof {
            assert(queue.skip(offers@.len() as int).len() == 0);
            assert(self@.slots =~= before@.slots.remove(key@));
            assert(self@.waiters =~= before@.waiters.remove(key@));
            assert(self.ready() =~= before.ready().remove(key@));
            assert(self@.last_results =~= before@.last_results.insert(key@, result));
            before@.lemma_slot_freed(key@, result, self@.next_generation);
        }
        offers
    }

    /// Ties a task to the intent that holds an object, so that a conflicting
    /// intent cancels the task.
    fn bind(&mut self, key: &K, generation: u64, task: TaskControl)
        requires
            old(self).wf(),
        ensures
            final(self).wf(),
            final(self)@ == old(self)@.bound(key@, generation, task@),
            final(self).ready() == old(self).ready(),
    {
        let ghost before = *self;
        if let Some(slot) = self.slots.get_mut(key) {
            if slot.generation == generation {
                slot.task = Some(task);
            }
        }
        proof {
            if before@.holds(key@, generation) {
                let slot = SlotView { task: Some(task@), ..before@.slots[key@] };
                assert(self@.slots[key@].pending =~= slot.pending);
                assert(self@.slots =~= before@.slots.insert(key@, slot));
                before@.lemma_slot_replaced(key@, slot);
                assert(self.ready() =~= before.ready());
            } else {
                assert(self.slots@ =~= before.slots@);
            }
        }
    }
}

impl<K: MapKey, I> ObjectLease<K, I> {
    /// The intent.
    pub fn input(&self) -> (input: &I)
        ensures
            *input == self@.input,
    {
        &self.input
    }

    /// The token that cancels the intent.
    pub fn cancellation(&self) -> (token: &CancellationToken)
        ensures
            *token == self@.cancellation,
    {
        &self.cancellation
    }
}

impl<K: MapKey, I: Clone> ObjectLease<K, I> {
    /// Ties a task to the lease. A lease that does not hold its object changes
    /// nothing.
    pub fn bind_task<E: Clone>(
        &self,
        tasks: &mut ObjectTaskCoordinator<K, I, E>,
        task: TaskControl,
    )
        requires
            old(tasks).wf(),
        ensures
            final(tasks).wf(),
            final(tasks)@ == old(tasks)@.bound(self@.key, self@.generation, task@),
            final(tasks).ready() == old(tasks).ready(),
    {
        tasks.bind(&self.key, self.generation, task);
    }

    /// Gives the object back with the result of the intent. The outcome lists
    /// what became of the queued intents that were tried.
    pub fn finish<E: Clone>(
        self,
        tasks: &mut ObjectTaskCoordinator<K, I, E>,
        result: Result<(), E>,
    ) -> (offers: Vec<Offer>)
        requires
            old(tasks).wf(),
            old(tasks)@.has_room(self@.key),
        ensures
            final(tasks).wf(),
            final(tasks)@ == old(tasks)@.released(
                self@.key,
                self@.generation,
                result,
                offers@,
            ),
            !old(tasks)@.holds(self@.key, self@.generation) ==> offers@.len() == 0,
            old(tasks)@.holds(self@.key, self@.generation) ==> offers_fit(
                old(tasks)@.slots[self@.key].pending,
                old(tasks)@.next_generation,
                offers@,
            ),
            old(tasks).release_told(
                final(tasks).ready(),
                self@.key,
                self@.generation,
                result,
                offers@,
            ),
    {
        tasks.release(&self.key, self.generation, result)
    }

    /// Gives the object back without a result: the intent counts as failed with
    /// the error that the coordinator keeps for this.
    pub fn abandon<E: Clone>(self, tasks: &mut ObjectTaskCoordinator<K, I, E>) -> (offers: Vec<
        Offer,
    >)
        requires
            old(tasks).wf(),
            old(tasks)@.has_room(self@.key),
        ensures
            final(tasks).wf(),
            exists|error: E| #[trigger]
                cloned(old(tasks)@.dropped_error, error) && {
                    &&& final(tasks)@ == old(tasks)@.released(
                        self@.key,
                        self@.generation,
                        Err(error),
                        offers@,
                    )
                    &&& old(tasks).release_told(
                        final(tasks).ready(),
                        self@.key,
                        self@.generation,
                        Err(error),
                        offers@,
                    )
                },
            !old(tasks)@.holds(self@.key, self@.generation) ==> offers@.len() == 0,
            old(tasks)@.holds(self@.key, self@.generation) ==> offers_fit(
                old(tasks)@.slots[self@.key].pending,
                old(tasks)@.next_generation,
                offers@,
            ),
    {
        let error = tasks.dropped_error.clone();
        assert(cloned(old(tasks)@.dropped_error, error));
        tasks.release(&self.key, self.generation, Err(error))
    }
}

/// An intent on a free object never waits: it holds the object under a
/// generation that no object had before, nothing is queued behind it, and no
/// earlier result is remembered.
pub proof fn law_free_object_is_taken_at_once<KV, I, E>(
    tasks: CoordinatorView<KV, I, E>,
    key: KV,
    active: I,
    cancellation: CancellationToken,
)
    requires
        tasks.valid(),
        !tasks.slots.contains_key(key),
        tasks.next_generation < u64::MAX,
    ensures
        ({
            let after = tasks.activated(key, active, cancellation);
            &&& after.valid()
            &&& after.holds(key, tasks.next_generation)
            &&& after.slots[key].active == active
            &&& after.slots[key].pending.len() == 0
            &&& !after.last_results.contains_key(key)
            &&& forall|other: KV| #[trigger]
                tasks.slots.contains_key(other) ==> tasks.slots[other].generation
                    < after.slots[key].generation
        }),
{
    let after = tasks.activated(key, active, cancellation);
    assert forall|other: KV| #[trigger] after.slots.contains_key(other) implies after.slots[other].generation
        < after.next_generation by {
        if other != key {
            assert(tasks.slots.contains_key(other));
        }
    }
    assert forall|a: KV, b: KV|
        (#[trigger] after.slots.contains_key(a)) && (#[trigger] after.slots.contains_key(b)) && a
            != b implies after.slots[a].generation != after.slots[b].generation by {
        if a != key {
            assert(tasks.slots.contains_key(a));
        }
        if b != key {
            assert(tasks.slots.contains_key(b));
        }
    }
    assert forall|other: KV| #[trigger] after.waiters.contains_key(other) implies after.slots.contains_key(
        other,
    ) by {
        assert(tasks.waiters.contains_key(other));
    }
    assert forall|other: KV| #[trigger] after.last_results.contains_key(other) implies !after.slots.contains_key(
        other,
    ) by {
        assert(tasks.last_results.contains_key(other));
    }
}

/// A decision on an occupied object never displaces the active intent: it keeps
/// the object and its generation, and the queue only grows at its end, by at
/// most the new intent.
pub proof fn law_decision_keeps_active_intent<KV, I, E>(
    tasks: CoordinatorView<KV, I, E>,
    key: KV,
    input: I,
    token: CancellationToken,
    decision: ConflictDecision,
)
    requires
        tasks.valid(),
        tasks.slots.contains_key(key),
    ensures
        ({
            let after = tasks.decided(key, input, token, decision);
            let before = tasks.slots[key];
            &&& after.valid()
            &&& after.slots.contains_key(key)
            &&& after.slots[key].generation == before.generation
            &&& after.slots[key].active == before.active
            &&& after.slots[key].cancellation == before.cancellation
            &&& after.slots[key].pending == if decision is Join {
                before.pending
            } else {
                before.pending.push(PendingView { input, service_cancellation: token })
            }
        }),
{
    let after = tasks.decided(key, input, token, decision);
    if !(decision is Join) {
        tasks.lemma_slot_replaced(key, after.slots[key]);
    }
}

/// A lease that does not hold its object any more gives nothing back.
pub proof fn law_stale_release_changes_nothing<KV, I, E>(
    tasks: CoordinatorView<KV, I, E>,
    key: KV,
    generation: u64,
    result: Result<(), E>,
    offers: Seq<Offer>,
)
    requires
        tasks.valid(),
        !tasks.holds(key, generation),
    ensures
        tasks.released(key, generation, result, offers) == tasks,
{
}

/// Queued intents take over in the order in which they came: all intents before
/// the promoted one were discarded, all behind it stay queued in order, the new
/// generation is fresh, and the lease that was given back holds nothing.
pub proof fn law_promotion_is_first_come_first_served<KV, I, E>(
    tasks: CoordinatorView<KV, I, E>,
    key: KV,
    generation: u64,
    result: Result<(), E>,
    offers: Seq<Offer>,
)
    requires
        tasks.valid(),
        tasks.has_room(key),
        tasks.holds(key, generation),
        offers_fit(tasks.slots[key].pending, tasks.next_generation, offers),
        promotes(offers),
    ensures
        ({
            let after = tasks.released(key, generation, result, offers);
            let queue = tasks.slots[key].pending;
            let place = offers.len() - 1;
            &&& after.valid()
            &&& 0 <= place < queue.len()
            &&& forall|i: int| 0 <= i < place ==> !((#[trigger] offers[i]) is Delivered)
            &&& after.slots.contains_key(key)
            &&& after.slots[key].active == queue[place].input
            &&& after.slots[key].pending == queue.skip(place + 1)
            &&& after.slots[key].generation >= tasks.next_generation
            &&& !after.holds(key, generation)
            &&& descends_from(after.slots[key].cancellation, queue[place].service_cancellation)
        }),
{
    lemma_leases_made(offers);
    let after = tasks.released(key, generation, result, offers);
    tasks.lemma_slot_promoted(key, after.slots[key], after.next_generation);
}

/// When no queued intent takes over, the object is free, its result is
/// remembered, and nobody waits for it any more.
pub proof fn law_last_release_frees_object<KV, I, E>(
    tasks: CoordinatorView<KV, I, E>,
    key: KV,
    generation: u64,
    result: Result<(), E>,
    offers: Seq<Offer>,
)
    requires
        tasks.valid(),
        tasks.has_room(key),
        tasks.holds(key, generation),
        offers_fit(tasks.slots[key].pending, tasks.next_generation, offers),
        !promotes(offers),
    ensures
        ({
            let after = tasks.released(key, generation, result, offers);
            &&& after.valid()
            &&& !after.slots.contains_key(key)
            &&& after.last_results.contains_key(key)
            &&& after.last_results[key] == result
            &&& !after.waiters.contains_key(key)
            &&& offers.len() == tasks.slots[key].pending.len()
        }),
{
    lemma_leases_made(offers);
    let after = tasks.released(key, generation, result, offers);
    tasks.lemma_slot_freed(key, result, after.next_generation);
}

/// What happens on one object leaves every other object alone.
pub proof fn law_objects_are_independent<KV, I, E>(
    tasks: CoordinatorView<KV, I, E>,
    key: KV,
    other: KV,
    input: I,
    token: CancellationToken,
    decision: ConflictDecision,
    generation: u64,
    result: Result<(), E>,
    offers: Seq<Offer>,
)
    requires
        key != other,
    ensures
        same_object(tasks, tasks.activated(key, input, token), other),
        same_object(tasks, tasks.decided(key, input, token, decision), other),
        same_object(tasks, tasks.released(key, generation, result, offers), other),
{
}

/// Whether two coordinators agree on an object.
pub open spec fn same_object<KV, I, E>(
    before: CoordinatorView<KV, I, E>,
    after: CoordinatorView<KV, I, E>,
    key: KV,
) -> bool {
    &&& before.slots.contains_key(key) == after.slots.contains_key(key)
    &&& before.slots[key] == after.slots[key]
    &&& before.waiting(key) == after.waiting(key)
    &&& before.last_results.contains_key(key) == after.last_results.contains_key(key)
    &&& before.last_results[key] == after.last_results[key]
}

proof fn lemma_leases_made(offers: Seq<Offer>)
    ensures
        leases_made(offers) <= offers.len(),
        promotes(offers) ==> leases_made(offers) >= 1,
    decreases offers.len(),
{
    if offers.len() > 0 {
        lemma_leases_made(offers.drop_last());
    }
}

/// The latest intent on an object is the last of the active one followed by all
/// queued ones.
pub proof fn law_latest_intent_is_the_last<I>(activity: ObjectActivityView<I>)
    ensures
        activity.latest() == (seq![activity.active] + activity.pending).last(),
{
    let all = seq![activity.active] + activity.pending;
    if activity.pending.len() > 0 {
        assert(all.last() == activity.pending.last());
    } else {
        assert(all.last() == all[0]);
    }
}

/// Whoever judges a conflict sees the active intent and every queued one, oldest
/// first.
pub proof fn law_judge_sees_every_intent<I>(activity: ObjectActivity<'_, I>, slot: SlotView<I>)
    requires
        shows(activity, slot),
    ensures
        activity@.active == slot.active,
        activity@.pending.len() == slot.pending.len(),
        forall|i: int|
            0 <= i < slot.pending.len() ==> #[trigger] activity@.pending[i] == slot.pending[i].input,
        answered(slot.cancellation, activity@.cancelling),
{
}

/// Only a decision that asks for it cancels the active intent. Where that has a
/// task, the cancellation of the task is requested with the cause of the
/// decision, and is refused as any other; where it has none, its token is
/// cancelled.
pub proof fn law_only_a_cancelling_decision_cancels<KV, I, E>(
    tasks: CoordinatorView<KV, I, E>,
    key: KV,
    decision: ConflictDecision,
    hub: HubView,
    now: u64,
)
    ensures
        !(decision is QueueAndCancel) ==> tasks.hub_decided(key, decision, hub, now) == hub,
        tasks.slots[key].task is None ==> tasks.hub_decided(key, decision, hub, now) == hub,
        decision matches ConflictDecision::QueueAndCancel { cause } ==> (tasks.slots[key].task
            matches Some(task) ==> tasks.hub_decided(key, decision, hub, now)
            == hub.cancel_requested(task, cause@, now)),
        tasks.slots[key].task matches Some(task) ==> (tasks.active_cancelled(key, hub) <==> (
        hub.tasks.contains_key(task@) && hub.tasks[task@].snapshot.cancellable ==> cancel_requested(
            hub.tasks[task@].cancellation,
        ))),
        tasks.slots[key].task is None ==> (tasks.active_cancelled(key, hub) <==> cancel_requested(
            tasks.slots[key].cancellation,
        )),
{
}

/// A task is tied to the intent that holds the object, and to it alone: everything
/// else of the object stays as it was, and a lease that holds nothing any more
/// ties nothing.
pub proof fn law_task_is_bound_to_the_holder<KV, I, E>(
    tasks: CoordinatorView<KV, I, E>,
    key: KV,
    generation: u64,
    task: TaskId,
    other: KV,
)
    ensures
        tasks.holds(key, generation) <==> tasks.slots.contains_key(key)
            && tasks.slots[key].generation == generation,
        !(tasks.slots.contains_key(key) && tasks.slots[key].generation == generation)
            ==> tasks.bound(key, generation, task) == tasks,
        tasks.slots.contains_key(key) && tasks.slots[key].generation == generation ==> ({
            let after = tasks.bound(key, generation, task);
            &&& after.slots.contains_key(key)
            &&& after.slots[key].task == Some(task)
            &&& after.slots[key].generation == generation
            &&& after.slots[key].active == tasks.slots[key].active
            &&& after.slots[key].cancellation == tasks.slots[key].cancellation
            &&& after.slots[key].pending == tasks.slots[key].pending
            &&& after.next_generation == tasks.next_generation
            &&& after.waiters == tasks.waiters
            &&& after.last_results == tasks.last_results
        }),
        other != key ==> same_object(tasks, tasks.bound(key, generation, task), other),
{
}

/// An intent that takes a free object does so with the token that it was given and
/// without a task, and uses up one generation.
pub proof fn law_activation_uses_one_generation<KV, I, E>(
    tasks: CoordinatorView<KV, I, E>,
    key: KV,
    active: I,
    cancellation: CancellationToken,
)
    requires
        tasks.next_generation < u64::MAX,
    ensures
        ({
            let after = tasks.activated(key, active, cancellation);
            &&& after.slots.contains_key(key)
            &&& after.slots[key].generation == tasks.next_generation
            &&& after.slots[key].cancellation == cancellation
            &&& after.slots[key].task is None
            &&& after.next_generation == tasks.next_generation + 1
            &&& after.waiters == tasks.waiters
            &&& after.dropped_error == tasks.dropped_error
        }),
{
}

/// A lease was made out for every offer but those that were cancelled.
pub proof fn law_cancelled_offers_take_no_lease(offers: Seq<Offer>)
    ensures
        leases_made(offers) == offers.filter(|offer: Offer| !(offer is Cancelled)).len(),
        promotes(offers) <==> offers.len() > 0 && offers[offers.len() - 1] is Delivered,
    decreases offers.len(),
{
    reveal(Seq::filter);
    if offers.len() > 0 {
        law_cancelled_offers_take_no_lease(offers.drop_last());
    }
}

/// Queued intents are tried oldest first, and no further than to the first that
/// takes the object; where none does, all of them were tried. Every lease that
/// was made out has a generation of its own, counted on from the next one.
pub proof fn law_queue_is_tried_in_order<I>(
    queue: Seq<PendingView<I>>,
    first: u64,
    offers: Seq<Offer>,
    at: int,
)
    requires
        offers_fit(queue, first, offers),
        0 <= at < offers.len(),
    ensures
        offers.len() <= queue.len(),
        offers[at] is Delivered ==> at == offers.len() - 1,
        !(offers[offers.len() - 1] is Delivered) ==> offers.len() == queue.len(),
        offers[offers.len() - 1] matches Offer::Delivered { generation, cancellation } ==> {
            &&& generation == first + offers.filter(
                |offer: Offer| !(offer is Cancelled),
            ).len() - 1
            &&& descends_from(cancellation, queue[offers.len() - 1].service_cancellation)
        },
{
    law_cancelled_offers_take_no_lease(offers);
}

/// A release uses up the generations of the leases that were made out. The intent
/// that takes over holds the object with the token of its lease and without a
/// task; those who wait for the object to be free go on waiting, and no result is
/// remembered meanwhile.
pub proof fn law_takeover_keeps_the_waiters<KV, I, E>(
    tasks: CoordinatorView<KV, I, E>,
    key: KV,
    generation: u64,
    result: Result<(), E>,
    offers: Seq<Offer>,
)
    requires
        tasks.valid(),
        tasks.has_room(key),
        tasks.holds(key, generation),
        offers_fit(tasks.slots[key].pending, tasks.next_generation, offers),
    ensures
        ({
            let after = tasks.released(key, generation, result, offers);
            &&& after.next_generation == tasks.next_generation + offers.filter(
                |offer: Offer| !(offer is Cancelled),
            ).len()
            &&& after.dropped_error == tasks.dropped_error
            &&& offers.len() > 0 ==> (offers[offers.len() - 1] matches Offer::Delivered {
                generation: taken,
                cancellation,
            } ==> {
                &&& after.slots.contains_key(key)
                &&& after.slots[key].generation == taken
                &&& after.slots[key].cancellation == cancellation
                &&& after.slots[key].task is None
                &&& after.waiting(key) == tasks.waiting(key)
                &&& !after.last_results.contains_key(key)
            })
            &&& offers.len() == 0 || !(offers[offers.len() - 1] is Delivered) ==> {
                &&& !after.slots.contains_key(key)
                &&& after.waiting(key).len() == 0
                &&& after.last_results[key] == result
            }
        }),
{
    lemma_leases_made(offers);
    law_cancelled_offers_take_no_lease(offers);
}

/// A free object is answered for at once, with the result of the last intent on
/// it, or with success where there was none. On an occupied one whoever asks waits
/// behind all who wait already.
pub proof fn law_idle_object_is_answered_at_once<K: MapKey, I: Clone, E: Clone>(
    tasks: &mut ObjectTaskCoordinator<K, I, E>,
    key: K,
    answer: IdleWait<E>,
)
    requires
        call_ensures(ObjectTaskCoordinator::<K, I, E>::wait_idle, (tasks, key), answer),
    ensures
        answer is Idle <==> !old(tasks)@.slots.contains_key(key@),
        answer is Idle ==> final(tasks)@ == old(tasks)@,
        answer matches IdleWait::Idle(result) ==> {
            &&& !old(tasks)@.last_results.contains_key(key@) ==> result is Ok
            &&& old(tasks)@.last_results.contains_key(key@) ==> (result is Ok <==> old(tasks)@.last_results[key@] is Ok)
        },
        answer matches IdleWait::Waiting(receiver) ==> {
            &&& final(tasks)@.waiting(key@).len() == old(tasks)@.waiting(key@).len() + 1
            &&& channel_made(final(tasks)@.waiting(key@).last(), receiver)
            &&& final(tasks)@.slots == old(tasks)@.slots
        },
{
}

/// A queued intent gets the lease that was sent to it, and none where it was
/// discarded or the coordinator is gone.
pub proof fn law_queued_intent_gets_its_lease<K: MapKey, I>(
    received: Result<Option<ObjectLease<K, I>>, oneshot::error::RecvError>,
    lease: Option<ObjectLease<K, I>>,
)
    requires
        call_ensures(ObjectPending::<K, I>::activate, (received,), lease),
    ensures
        received matches Ok(sent) ==> lease == sent,
        received is Err ==> lease is None,
{
}

/// An intent that joins changes nothing for those who wait; every other intent is
/// queued with a channel of its own behind them, and only a decision that asks for
/// it has the active intent cancelled.
pub proof fn law_decision_is_carried_out<K: MapKey, I: Clone, E: Clone>(
    tasks: ObjectTaskCoordinator<K, I, E>,
    ready: Map<K::V, Seq<oneshot::Sender<Option<ObjectLease<K, I>>>>>,
    key: K::V,
    decision: ConflictDecision,
    hub: HubView,
    admission: ObjectAdmission<K, I>,
)
    requires
        tasks.ready().contains_key(key),
        tasks.carried_out(ready, key, decision, hub, admission),
    ensures
        admission is Joined <==> decision is Join,
        admission is Pending <==> !(decision is Join),
        decision is Join ==> ready == tasks.ready(),
        admission matches ObjectAdmission::Pending(pending) ==> {
            &&& ready[key].len() == tasks.ready()[key].len() + 1
            &&& ready[key].drop_last() == tasks.ready()[key]
            &&& channel_made(ready[key].last(), pending.receiver)
        },
        decision is QueueAndCancel ==> tasks@.active_cancelled(key, hub),
{
    if let ObjectAdmission::Pending(pending) = admission {
        let sender = choose|sender: oneshot::Sender<Option<ObjectLease<K, I>>>| #[trigger]
            channel_made(sender, pending.receiver) && ready == tasks.ready().insert(
                key,
                tasks.ready()[key].push(sender),
            );
        assert(ready[key] == tasks.ready()[key].push(sender));
        assert(ready[key].drop_last() =~= tasks.ready()[key]);
    }
}

/// An intent whose service is cancelled gets nothing. Every other one is offered a
/// lease of its object, with its own intent and under its own service, and the
/// offer tells whether it was taken.
pub proof fn law_offers_go_to_living_services<K: MapKey, I: Clone>(
    key: K::V,
    queued: PendingView<I>,
    ready: oneshot::Sender<Option<ObjectLease<K, I>>>,
    offer: Offer,
)
    requires
        offered(key, queued, ready, offer),
    ensures
        offer is Cancelled ==> answered(queued.service_cancellation, true) && sent(ready, None),
        !(offer is Cancelled) ==> answered(queued.service_cancellation, false),
        !(offer is Cancelled) ==> exists|lease: ObjectLease<K, I>|
            {
                &&& #[trigger] delivered_as(ready, Some(lease), offer is Delivered)
                &&& lease@.key == key
                &&& cloned(queued.input, lease@.input)
                &&& descends_from(lease@.cancellation, queued.service_cancellation)
            },
{
    match offer {
        Offer::Cancelled => {},
        Offer::Abandoned => {
            let lease = choose|lease: ObjectLease<K, I>| #[trigger]
                delivered_as(ready, Some(lease), false) && lease_fits(key, queued, lease);
            assert(delivered_as(ready, Some(lease), offer is Delivered));
        },
        Offer::Delivered { generation, cancellation } => {
            let lease = choose|lease: ObjectLease<K, I>|
                {
                    &&& #[trigger] delivered_as(ready, Some(lease), true)
                    &&& lease_fits(key, queued, lease)
                    &&& lease@.generation == generation
                    &&& lease@.cancellation == cancellation
                };
            assert(delivered_as(ready, Some(lease), offer is Delivered));
        },
    }
}

/// When a lease is given back, every queued intent that was tried was offered the
/// object in its turn. Where none took it, everyone who waits for the object is
/// told the result, and otherwise those behind the one that took it stay queued.
pub proof fn law_release_is_told<K: MapKey, I: Clone, E: Clone>(
    tasks: ObjectTaskCoordinator<K, I, E>,
    ready: Map<K::V, Seq<oneshot::Sender<Option<ObjectLease<K, I>>>>>,
    key: K::V,
    generation: u64,
    result: Result<(), E>,
    offers: Seq<Offer>,
    at: int,
)
    requires
        tasks@.slots.contains_key(key),
        tasks@.slots[key].generation == generation,
        tasks.release_told(ready, key, generation, result, offers),
    ensures
        0 <= at < offers.len() ==> offered(
            key,
            tasks@.slots[key].pending[at],
            tasks.ready()[key][at],
            offers[at],
        ),
        offers.len() > 0 && offers[offers.len() - 1] is Delivered ==> ready[key]
            == tasks.ready()[key].skip(offers.len() as int),
        !(offers.len() > 0 && offers[offers.len() - 1] is Delivered) ==> {
            &&& !ready.contains_key(key)
            &&& 0 <= at < tasks@.waiting(key).len() ==> exists|copy: Result<(), E>| #[trigger]
                sent(tasks@.waiting(key)[at], copy) && (copy is Ok <==> result is Ok)
        },
{
    if !(offers.len() > 0 && offers[offers.len() - 1] is Delivered) {
        assert(!promotes(offers));
        if 0 <= at < tasks@.waiting(key).len() {
            assert(result_sent(tasks@.waiting(key)[at], result));
            let copy = choose|copy: Result<(), E>| #[trigger]
                sent(tasks@.waiting(key)[at], copy) && result_cloned(result, copy);
            assert(copy is Ok <==> result is Ok);
        }
    }
}

/// A lease binds a task to its object and gives the object back, exactly while it
/// holds it: a lease that was overtaken changes nothing. Where nobody waits for
/// the object, its end frees it and the result is kept.
pub proof fn law_lease_acts_while_it_holds<K: MapKey, I: Clone, E: Clone>(
    lease: ObjectLease<K, I>,
    binding: &mut ObjectTaskCoordinator<K, I, E>,
    task: TaskControl,
    bound: (),
    ending: &mut ObjectTaskCoordinator<K, I, E>,
    result: Result<(), E>,
    offers: Vec<Offer>,
)
    requires
        call_ensures(ObjectLease::<K, I>::bind_task::<E>, (&lease, binding, task), bound),
        call_ensures(ObjectLease::<K, I>::finish::<E>, (lease, ending, result), offers),
    ensures
        ({
            let before = old(binding)@;
            let after = final(binding)@;
            let held = before.slots.contains_key(lease@.key)
                && before.slots[lease@.key].generation == lease@.generation;
            &&& !held ==> after == before
            &&& held ==> after.slots[lease@.key].task == Some(task@)
            &&& held ==> after.slots[lease@.key].active == before.slots[lease@.key].active
            &&& held ==> after.slots[lease@.key].pending == before.slots[lease@.key].pending
            &&& after.slots.dom() =~= before.slots.dom()
        }),
        ({
            let before = old(ending)@;
            let after = final(ending)@;
            let held = before.slots.contains_key(lease@.key)
                && before.slots[lease@.key].generation == lease@.generation;
            &&& !held ==> after == before && offers@.len() == 0
            &&& held && before.slots[lease@.key].pending.len() == 0 ==> {
                &&& !after.slots.contains_key(lease@.key)
                &&& after.last_results.contains_key(lease@.key)
                &&& after.last_results[lease@.key] == result
            }
        }),
{
    law_task_is_bound_to_the_holder(
        old(binding)@,
        lease@.key,
        lease@.generation,
        task@,
        lease@.key,
    );
}

} // verus!
