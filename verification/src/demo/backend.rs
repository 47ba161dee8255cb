//! A backend that records what it did with disks.
use super::protocol::{DemoError, DiskId};
use std::time::Duration;
use vstd::prelude::*;

verus! {

/// What was done with disks, oldest first.
#[derive(Debug, PartialEq, Eq)]
pub struct BackendSnapshot {
    pub started: Vec<DiskId>,
    pub cancel_requested: Vec<DiskId>,
    pub cancelled: Vec<DiskId>,
    pub completed: Vec<DiskId>,
}

/// What was done with disks, oldest first.
pub struct BackendView {
    pub started: Seq<DiskId>,
    pub cancel_requested: Seq<DiskId>,
    pub cancelled: Seq<DiskId>,
    pub completed: Seq<DiskId>,
}

impl View for BackendSnapshot {
    type V = BackendView;

    open spec fn view(&self) -> BackendView {
        BackendView {
            started: self.started@,
            cancel_requested: self.cancel_requested@,
            cancelled: self.cancelled@,
            completed: self.completed@,
        }
    }
}

impl Clone for BackendSnapshot {
    fn clone(&self) -> (copy: Self)
        ensures
            copy@ == self@,
    {
        let copy = BackendSnapshot {
            started: self.started.clone(),
            cancel_requested: self.cancel_requested.clone(),
            cancelled: self.cancelled.clone(),
            completed: self.completed.clone(),
        };
        proof {
            assert(copy.started@ =~= self.started@);
            assert(copy.cancel_requested@ =~= self.cancel_requested@);
            assert(copy.cancelled@ =~= self.cancelled@);
            assert(copy.completed@ =~= self.completed@);
        }
        copy
    }
}

/// A backend that rebuilds disks. Work and cancellation take their time.
pub struct BgBackend {
    work_time: Duration,
    cancel_time: Duration,
    state: BackendSnapshot,
}

impl View for BgBackend {
    type V = BackendView;

    closed spec fn view(&self) -> BackendView {
        self.state@
    }
}

impl BgBackend {
    /// The times of work and of cancellation.
    pub closed spec fn times(&self) -> (Duration, Duration) {
        (self.work_time, self.cancel_time)
    }

    /// A backend that has done nothing.
    pub fn new(work_time: Duration, cancel_time: Duration) -> (backend: Self)
        ensures
            backend.times() == (work_time, cancel_time),
            backend@ == (BackendView {
                started: Seq::empty(),
                cancel_requested: Seq::empty(),
                cancelled: Seq::empty(),
                completed: Seq::empty(),
            }),
    {
        let backend = BgBackend {
            work_time,
            cancel_time,
            state: BackendSnapshot {
                started: Vec::new(),
                cancel_requested: Vec::new(),
                cancelled: Vec::new(),
                completed: Vec::new(),
            },
        };
        proof {
            assert(backend.state.started@ =~= Seq::empty());
            assert(backend.state.cancel_requested@ =~= Seq::empty());
            assert(backend.state.cancelled@ =~= Seq::empty());
            assert(backend.state.completed@ =~= Seq::empty());
        }
        backend
    }

    /// What was done so far.
    pub fn snapshot(&self) -> (snapshot: BackendSnapshot)
        ensures
            snapshot@ == self@,
    {
        self.state.clone()
    }

    /// Begins the rebuild of a disk. The result is the time that it takes.
    pub fn begin_rebuild(&mut self, disk: &DiskId) -> (time: Duration)
        ensures
            time == old(self).times().0,
            final(self).times() == old(self).times(),
            final(self)@ == (BackendView {
                started: old(self)@.started.push(*disk),
                ..old(self)@
            }),
    {
        self.state.started.push(disk.clone());
        self.work_time
    }

    /// Begins to cancel the rebuild of a disk. The result is the time that it
    /// takes.
    pub fn begin_cancel(&mut self, disk: &DiskId) -> (time: Duration)
        ensures
            time == old(self).times().1,
            final(self).times() == old(self).times(),
            final(self)@ == (BackendView {
                cancel_requested: old(self)@.cancel_requested.push(*disk),
                ..old(self)@
            }),
    {
        self.state.cancel_requested.push(disk.clone());
        self.cancel_time
    }

    /// Ends the rebuild of a disk, by cancellation or by completion.
    pub fn rebuild(&mut self, disk: DiskId, cancelled: bool) -> (result: Result<(), DemoError>)
        ensures
            final(self).times() == old(self).times(),
            if cancelled {
                &&& result == Err::<(), _>(DemoError::Cancelled)
                &&& final(self)@ == (BackendView {
                    cancelled: old(self)@.cancelled.push(disk),
                    ..old(self)@
                })
            } else {
                &&& result is Ok
                &&& final(self)@ == (BackendView {
                    completed: old(self)@.completed.push(disk),
                    ..old(self)@
                })
            },
    {
        if cancelled {
            self.state.cancelled.push(disk);
            Err(DemoError::Cancelled)
        } else {
            self.state.completed.push(disk);
            Ok(())
        }
    }
}

/// A rebuild ends as completed or as cancelled, is recorded as the one and not as
/// the other, and fails exactly when it was cancelled. Work and cancellation take
/// the times that were set for them.
pub proof fn law_rebuild_ends_once(
    one: &mut BgBackend,
    two: &mut BgBackend,
    three: &mut BgBackend,
    disk: DiskId,
    cancelled: bool,
    result: Result<(), DemoError>,
    work: Duration,
    cancel: Duration,
)
    requires
        call_ensures(BgBackend::rebuild, (one, disk, cancelled), result),
        call_ensures(BgBackend::begin_rebuild, (two, &disk), work),
        call_ensures(BgBackend::begin_cancel, (three, &disk), cancel),
    ensures
        result is Ok <==> !cancelled,
        result matches Err(error) ==> error is Cancelled,
        cancelled ==> final(one)@.cancelled == old(one)@.cancelled.push(disk)
            && final(one)@.completed == old(one)@.completed,
        !cancelled ==> final(one)@.completed == old(one)@.completed.push(disk)
            && final(one)@.cancelled == old(one)@.cancelled,
        final(one)@.started == old(one)@.started,
        final(one)@.cancel_requested == old(one)@.cancel_requested,
        work == old(two).times().0,
        final(two)@.started == old(two)@.started.push(disk),
        final(two)@.cancel_requested == old(two)@.cancel_requested,
        cancel == old(three).times().1,
        final(three)@.cancel_requested == old(three)@.cancel_requested.push(disk),
        final(three)@.started == old(three)@.started,
{
}

} // verus!
