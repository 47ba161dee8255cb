//! External inputs of the MemberDisk service.
use super::model::DiskUuid;
use vstd::prelude::*;

verus! {

/// Wall-clock time attached to a DiskMap observation. It belongs to the event,
/// not to persisted MemberDisk metadata.
#[derive(Debug, Clone, Copy, PartialEq, Eq, Structural, PartialOrd, Ord)]
pub struct EpochMillis(u64);

impl View for EpochMillis {
    type V = u64;

    closed spec fn view(&self) -> u64 {
        self.0
    }
}

impl EpochMillis {
    /// The time `value` milliseconds after the epoch.
    pub fn new(value: u64) -> (time: Self)
        ensures
            time@ == value,
    {
        EpochMillis(value)
    }

    /// The milliseconds since the epoch.
    pub fn get(self) -> (value: u64)
        ensures
            value == self@,
    {
        self.0
    }
}

/// Physical fact reported by DiskMap. MemberDisk does not persist a copy of
/// this state; the event drives its effective IO state toward convergence.
#[derive(Debug, Clone, Copy, PartialEq, Eq, Structural)]
pub enum PhysicalState {
    Up,
    Down,
}

/// Every external input accepted by the MemberDisk service.
///
/// DiskMap reports physical facts with `PhysicalChanged`; the management plane
/// requests planned removal with `Shrink`. Both enter the same event path.
#[derive(Debug, PartialEq, Eq)]
pub enum MemberDiskEvent {
    PhysicalChanged { disk: DiskUuid, state: PhysicalState, observed_at: EpochMillis },
    Shrink { disk: DiskUuid },
}

/// What an event asks for, whatever its disk and its time.
#[derive(Debug, Clone, Copy, PartialEq, Eq, Structural)]
pub enum EventKind {
    Online,
    Offline,
    Shrink,
}

impl Clone for MemberDiskEvent {
    fn clone(&self) -> (copy: Self)
        ensures
            copy == *self,
    {
        match self {
            MemberDiskEvent::PhysicalChanged { disk, state, observed_at } => {
                MemberDiskEvent::PhysicalChanged {
                    disk: disk.clone(),
                    state: *state,
                    observed_at: *observed_at,
                }
            },
            MemberDiskEvent::Shrink { disk } => MemberDiskEvent::Shrink { disk: disk.clone() },
        }
    }
}

impl MemberDiskEvent {
    /// The disk that the event is about.
    pub open spec fn subject(&self) -> DiskUuid {
        match *self {
            MemberDiskEvent::PhysicalChanged { disk, .. } => disk,
            MemberDiskEvent::Shrink { disk } => disk,
        }
    }

    /// What the event asks for.
    pub open spec fn asks(&self) -> EventKind {
        match *self {
            MemberDiskEvent::PhysicalChanged { state: PhysicalState::Up, .. } => EventKind::Online,
            MemberDiskEvent::PhysicalChanged { state: PhysicalState::Down, .. } => EventKind::Offline,
            MemberDiskEvent::Shrink { .. } => EventKind::Shrink,
        }
    }

    /// The disk that the event is about.
    pub fn disk(&self) -> (disk: &DiskUuid)
        ensures
            *disk == self.subject(),
    {
        match self {
            MemberDiskEvent::PhysicalChanged { disk, .. } => disk,
            MemberDiskEvent::Shrink { disk } => disk,
        }
    }

    /// What the event asks for.
    pub fn kind(&self) -> (kind: EventKind)
        ensures
            kind == self.asks(),
    {
        match self {
            MemberDiskEvent::PhysicalChanged { state, .. } => match state {
                PhysicalState::Up => EventKind::Online,
                PhysicalState::Down => EventKind::Offline,
            },
            MemberDiskEvent::Shrink { .. } => EventKind::Shrink,
        }
    }

    /// Whether two events ask for the same thing. Their times do not matter.
    pub fn same_kind(&self, other: &Self) -> (result: bool)
        ensures
            result == (self.asks() == other.asks()),
    {
        self.kind() == other.kind()
    }
}

} // verus!
