use pool_control_plane::runtime::object_task::{
    ConflictDecision, IdleWait, ObjectActivity, ObjectAdmission, ObjectLease, ObjectPending,
    ObjectTaskCoordinator, Offer,
};
use pool_control_plane::runtime::{
    IdCounter, ObservationHub, OperationContext, TaskAttempt, TaskMeta,
};
use tokio_util::sync::CancellationToken;

type Objects = ObjectTaskCoordinator<u64, &'static str, &'static str>;

struct World {
    objects: Objects,
    hub: ObservationHub,
    counter: IdCounter,
    service: CancellationToken,
}

fn world() -> World {
    World {
        objects: ObjectTaskCoordinator::new("dropped"),
        hub: ObservationHub::new("objects", "objects", 16),
        counter: IdCounter::new(),
        service: CancellationToken::new(),
    }
}

fn join(_: ObjectActivity<'_, &'static str>, _: &&'static str) -> ConflictDecision {
    ConflictDecision::Join
}

fn queue(_: ObjectActivity<'_, &'static str>, _: &&'static str) -> ConflictDecision {
    ConflictDecision::Queue
}

fn replace(_: ObjectActivity<'_, &'static str>, _: &&'static str) -> ConflictDecision {
    ConflictDecision::QueueAndCancel { cause: "newer".to_string() }
}

impl World {
    fn take(&mut self, key: u64, input: &'static str) -> ObjectLease<u64, &'static str> {
        assert!(self.objects.has_room_for(&key));
        match self.objects.admit_intent(key, input, &self.service, join, &mut self.hub, 1) {
            ObjectAdmission::Active(lease) => lease,
            _ => panic!("a free object is taken at once"),
        }
    }

    fn queue_up(&mut self, key: u64, input: &'static str) -> ObjectPending<u64, &'static str> {
        match self.objects.admit_intent(key, input, &self.service, queue, &mut self.hub, 1) {
            ObjectAdmission::Pending(pending) => pending,
            _ => panic!("the intent waits"),
        }
    }

    fn task(&mut self, token: CancellationToken) -> TaskAttempt {
        let operation = OperationContext::transient(&mut self.counter);
        let meta = TaskMeta::new("object/1", "test", "test");
        TaskAttempt::start(&mut self.hub, &mut self.counter, &operation, meta, token, 1)
    }
}

#[test]
fn an_intent_joins_what_is_under_way() {
    let mut world = world();
    let lease = world.take(1, "first");
    assert_eq!(*lease.input(), "first");
    assert!(matches!(
        world.objects.admit_intent(1, "second", &world.service, join, &mut world.hub, 1),
        ObjectAdmission::Joined
    ));
    assert_eq!(world.objects.active_count(), 1);
    assert!(lease.finish(&mut world.objects, Ok(())).is_empty());
    assert!(!world.objects.is_active(&1));
}

#[test]
fn queued_intents_are_promoted_in_the_order_in_which_they_came() {
    let mut world = world();
    let first = world.take(1, "first");
    let mut second = world.queue_up(1, "second");
    let mut third = world.queue_up(1, "third");
    assert!(second.receiver.try_recv().is_err());
    let offers = first.finish(&mut world.objects, Ok(()));
    assert_eq!(offers.len(), 1);
    assert!(matches!(offers[0], Offer::Delivered { .. }));
    let second = second.receiver.try_recv().unwrap().unwrap();
    assert_eq!(*second.input(), "second");
    assert!(third.receiver.try_recv().is_err());
    second.finish(&mut world.objects, Ok(()));
    let third = ObjectPending::activate(Ok(third.receiver.try_recv().unwrap())).unwrap();
    assert_eq!(*third.input(), "third");
    assert!(world.objects.is_active(&1));
    third.finish(&mut world.objects, Ok(()));
    assert!(!world.objects.is_active(&1));
}

#[test]
fn an_abandoned_waiter_is_passed_over() {
    let mut world = world();
    let first = world.take(1, "first");
    drop(world.queue_up(1, "second"));
    let mut third = world.queue_up(1, "third");
    let offers = first.finish(&mut world.objects, Ok(()));
    assert!(matches!(offers[0], Offer::Abandoned));
    assert!(matches!(offers[1], Offer::Delivered { .. }));
    assert_eq!(*third.receiver.try_recv().unwrap().unwrap().input(), "third");
}

#[test]
fn intents_of_a_cancelled_service_are_not_promoted() {
    let mut world = world();
    let first = world.take(1, "first");
    let mut second = world.queue_up(1, "second");
    world.service.cancel();
    assert!(first.cancellation().is_cancelled());
    let offers = first.finish(&mut world.objects, Ok(()));
    assert!(matches!(offers[..], [Offer::Cancelled]));
    assert!(!matches!(second.receiver.try_recv(), Ok(Some(_))));
    assert!(!world.objects.is_active(&1));
}

#[test]
fn a_conflicting_intent_cancels_the_bound_task() {
    let mut world = world();
    let lease = world.take(1, "first");
    let task = world.task(lease.cancellation().clone());
    lease.bind_task(&mut world.objects, task.control());
    assert!(matches!(
        world.objects.admit_intent(1, "second", &world.service, replace, &mut world.hub, 2),
        ObjectAdmission::Pending(_)
    ));
    assert!(lease.cancellation().is_cancelled());
    assert!(task.cancellation().is_cancelled());
    assert!(!world.service.is_cancelled());
}

#[test]
fn a_conflicting_intent_cancels_an_object_without_a_task() {
    let mut world = world();
    let lease = world.take(1, "first");
    assert!(matches!(
        world.objects.admit_intent(1, "second", &world.service, replace, &mut world.hub, 2),
        ObjectAdmission::Pending(_)
    ));
    assert!(lease.cancellation().is_cancelled());
}

#[test]
fn idle_waiters_learn_the_result_of_the_last_intent() {
    let mut world = world();
    assert!(matches!(world.objects.wait_idle(1), IdleWait::Idle(Ok(()))));
    let first = world.take(1, "first");
    let mut waiter = match world.objects.wait_idle(1) {
        IdleWait::Waiting(receiver) => receiver,
        IdleWait::Idle(_) => panic!("the object is occupied"),
    };
    first.finish(&mut world.objects, Err("refused"));
    assert_eq!(waiter.try_recv().unwrap(), Err("refused"));
    assert!(matches!(world.objects.wait_idle(1), IdleWait::Idle(Err("refused"))));
}

#[test]
fn an_abandoned_lease_leaves_the_dropped_error() {
    let mut world = world();
    let first = world.take(1, "first");
    assert!(first.abandon(&mut world.objects).is_empty());
    assert!(matches!(world.objects.wait_idle(1), IdleWait::Idle(Err("dropped"))));
}

#[test]
fn objects_do_not_wait_for_each_other() {
    let mut world = world();
    let first = world.take(1, "first");
    let second = world.take(2, "second");
    assert_eq!(world.objects.active_count(), 2);
    first.finish(&mut world.objects, Ok(()));
    assert!(!world.objects.is_active(&1));
    assert!(world.objects.is_active(&2));
    second.finish(&mut world.objects, Ok(()));
}

#[test]
fn activity_shows_the_latest_intent() {
    let first = "first";
    let second = "second";
    let alone = ObjectActivity::new(&first, Vec::new(), false);
    assert_eq!(*alone.latest(), "first");
    let busy = ObjectActivity::new(&first, vec![&second], true);
    assert_eq!(*busy.active(), "first");
    assert_eq!(*busy.latest(), "second");
    assert_eq!(busy.pending().len(), 1);
    assert!(busy.is_cancelling());
}
