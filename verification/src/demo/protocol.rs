//! The messages of the demo services.
use crate::ordered_map::MapKey;
use crate::protocol::{CancelReason, RuntimeError};
use crate::text::{quote, quoted_text, text_before};
use tokio::sync::oneshot;
use vstd::prelude::*;
use vstd::string::StringExecFns;

verus! {

/// The services of the demo.
#[derive(Debug, Clone, Copy, PartialEq, Eq, Structural)]
pub enum ServiceKind {
    Event,
    Disk,
    Rebuild,
    Bg,
}

/// The identity of a disk.
#[derive(Debug, PartialEq, Eq, Hash)]
pub struct DiskId(String);

impl View for DiskId {
    type V = Seq<char>;

    closed spec fn view(&self) -> Seq<char> {
        self.0@
    }
}

impl Clone for DiskId {
    fn clone(&self) -> (copy: Self)
        ensures
            copy == *self,
    {
        DiskId(self.0.clone())
    }
}

impl DiskId {
    /// The identity written as `value`.
    pub fn new(value: &str) -> (id: Self)
        ensures
            id@ == value@,
    {
        DiskId(value.to_owned())
    }

    /// The identity as text.
    pub fn as_str(&self) -> (text: &str)
        ensures
            text@ == self@,
    {
        self.0.as_str()
    }
}

impl MapKey for DiskId {
    open spec fn before(a: Seq<char>, b: Seq<char>) -> bool {
        text_before(a, b)
    }

    proof fn order_laws(a: Seq<char>, b: Seq<char>, c: Seq<char>) {
        crate::text::lemma_text_order(a, b, c);
    }

    fn precedes(&self, other: &Self) -> (result: bool) {
        crate::text::precedes(self.as_str(), other.as_str())
    }

    fn duplicate(&self) -> (copy: Self) {
        self.clone()
    }
}

/// The identity of a block group.
#[derive(Debug, PartialEq, Eq, Hash)]
pub struct BgId(String);

impl View for BgId {
    type V = Seq<char>;

    closed spec fn view(&self) -> Seq<char> {
        self.0@
    }
}

impl Clone for BgId {
    fn clone(&self) -> (copy: Self)
        ensures
            copy == *self,
    {
        BgId(self.0.clone())
    }
}

impl BgId {
    /// The identity written as `value`.
    pub fn new(value: &str) -> (id: Self)
        ensures
            id@ == value@,
    {
        BgId(value.to_owned())
    }

    /// The identity as text.
    pub fn as_str(&self) -> (text: &str)
        ensures
            text@ == self@,
    {
        self.0.as_str()
    }
}

/// Why a demo service did not do what it was asked.
#[derive(Debug, PartialEq, Eq)]
pub enum DemoError {
    AlreadyRebuilding(DiskId),
    NotRebuilding(DiskId),
    Cancelled,
    Runtime(String),
}

impl Clone for DemoError {
    fn clone(&self) -> (copy: Self)
        ensures
            copy == *self,
    {
        match self {
            DemoError::AlreadyRebuilding(disk) => DemoError::AlreadyRebuilding(disk.clone()),
            DemoError::NotRebuilding(disk) => DemoError::NotRebuilding(disk.clone()),
            DemoError::Cancelled => DemoError::Cancelled,
            DemoError::Runtime(text) => DemoError::Runtime(text.clone()),
        }
    }
}

impl DemoError {
    /// The error as text.
    pub open spec fn message(self) -> Seq<char> {
        match self {
            DemoError::AlreadyRebuilding(disk) => "AlreadyRebuilding(DiskId("@ + quoted_text(disk@)
                + "))"@,
            DemoError::NotRebuilding(disk) => "NotRebuilding(DiskId("@ + quoted_text(disk@)
                + "))"@,
            DemoError::Cancelled => "Cancelled"@,
            DemoError::Runtime(text) => "Runtime("@ + quoted_text(text@) + ")"@,
        }
    }

    /// Whether the error is one of the runtime with this text.
    pub open spec fn is_runtime(self, text: Seq<char>) -> bool {
        self matches DemoError::Runtime(said) && said@ == text
    }

    /// Writes the error as text.
    pub fn to_string(&self) -> (text: String)
        ensures
            text@ == self.message(),
    {
        match self {
            DemoError::AlreadyRebuilding(disk) => {
                let mut text = "AlreadyRebuilding(DiskId(".to_owned();
                text.append(quote(disk.as_str()).as_str());
                text.append("))");
                text
            },
            DemoError::NotRebuilding(disk) => {
                let mut text = "NotRebuilding(DiskId(".to_owned();
                text.append(quote(disk.as_str()).as_str());
                text.append("))");
                text
            },
            DemoError::Cancelled => "Cancelled".to_owned(),
            DemoError::Runtime(said) => {
                let mut text = "Runtime(".to_owned();
                text.append(quote(said.as_str()).as_str());
                text.append(")");
                text
            },
        }
    }
}

/// How far a rebuild got.
#[derive(Debug, Clone, Copy, PartialEq, Eq, Structural)]
pub enum RebuildStatus {
    Completed,
}

/// What a rebuild came to.
pub type RebuildResult = Result<RebuildStatus, DemoError>;

/// How a piece of work in the background ended.
#[derive(Debug, PartialEq, Eq)]
pub enum TaskOutcome<T> {
    Completed(T),
    Failed(RuntimeError),
    Cancelled(CancelReason),
}

/// A disk went offline.
pub struct DiskOfflineRequest {
    pub disk: DiskId,
    pub completed: oneshot::Sender<RebuildResult>,
}

/// The rebuild of an offline disk ended.
pub struct OfflineDispatched {
    pub disk: DiskId,
    pub completed: oneshot::Sender<RebuildResult>,
    pub outcome: TaskOutcome<RebuildResult>,
}

/// Rebuild a disk.
pub struct StartRebuildRequest {
    pub disk: DiskId,
    pub completed: oneshot::Sender<RebuildResult>,
}

/// Suspend all rebuilds.
pub struct SuspendRebuildRequest {
    pub completed: oneshot::Sender<Result<(), DemoError>>,
}

/// Resume all rebuilds.
pub struct ResumeRebuildRequest {
    pub completed: oneshot::Sender<Result<(), DemoError>>,
}

/// Give up the rebuild of a disk.
pub struct CancelRebuildRequest {
    pub disk: DiskId,
    pub completed: oneshot::Sender<Result<(), DemoError>>,
}

/// The block groups of a disk were looked up.
pub struct DiskResolved {
    pub disk: DiskId,
    pub outcome: TaskOutcome<Vec<BgId>>,
}

/// The rebuild of a block group ended.
pub struct BgFinished {
    pub bg: BgId,
    pub outcome: TaskOutcome<()>,
}

/// A campaign of rebuilds ended.
pub struct CampaignFinished {
    pub outcome: TaskOutcome<()>,
}

/// The request to give up a block group was sent.
pub struct CancelBgSent {
    pub bg: BgId,
    pub outcome: TaskOutcome<()>,
}

/// Rebuild a block group.
pub struct DoBgRebuild {
    pub bg: BgId,
    pub completed: oneshot::Sender<Result<(), DemoError>>,
}

/// Give up the rebuild of a block group.
pub struct CancelBgRebuild {
    pub bg: BgId,
}

/// The work on a block group ended.
pub struct BgWorkflowFinished {
    pub bg: BgId,
    pub completed: oneshot::Sender<Result<(), DemoError>>,
    pub outcome: TaskOutcome<()>,
}

/// The state of all rebuilds.
#[derive(Debug, Clone, Copy, PartialEq, Eq, Structural)]
pub struct RebuildSnapshot {
    pub suspended: bool,
    pub resolving_disks: usize,
    pub active_disks: usize,
    pub queued_bgs: usize,
    pub running_bgs: usize,
    pub campaigns_started: usize,
    pub bg_delegations_started: usize,
}

/// Ask for the state of all rebuilds.
pub struct QueryRebuild {
    pub completed: oneshot::Sender<RebuildSnapshot>,
}

/// What was done with block groups, oldest first.
#[derive(Debug, PartialEq, Eq)]
pub struct BgSnapshot {
    pub started: Vec<BgId>,
    pub completed: Vec<BgId>,
    pub cancelled: Vec<BgId>,
}

/// Ask what was done with block groups.
pub struct QueryBg {
    pub completed: oneshot::Sender<BgSnapshot>,
}

/// The messages of the demo services.
pub enum DemoMessage {
    DiskOffline(DiskOfflineRequest),
    OfflineDispatched(OfflineDispatched),
    StartRebuild(StartRebuildRequest),
    SuspendRebuild(SuspendRebuildRequest),
    ResumeRebuild(ResumeRebuildRequest),
    CancelRebuild(CancelRebuildRequest),
    DiskResolved(DiskResolved),
    BgFinished(BgFinished),
    CampaignFinished(CampaignFinished),
    CancelBgSent(CancelBgSent),
    DoBgRebuild(DoBgRebuild),
    CancelBgRebuild(CancelBgRebuild),
    BgWorkflowFinished(BgWorkflowFinished),
    QueryRebuild(QueryRebuild),
    QueryBg(QueryBg),
}

/// What a message is about.
#[derive(Debug, Clone, Copy, PartialEq, Eq, Structural)]
pub enum DemoMessageKind {
    DiskOffline,
    OfflineDispatched,
    StartRebuild,
    SuspendRebuild,
    ResumeRebuild,
    CancelRebuild,
    DiskResolved,
    BgFinished,
    CampaignFinished,
    CancelBgSent,
    DoBgRebuild,
    CancelBgRebuild,
    BgWorkflowFinished,
    QueryRebuild,
    QueryBg,
}

impl DemoMessage {
    /// What the message is about.
    pub open spec fn about(&self) -> DemoMessageKind {
        match *self {
            DemoMessage::DiskOffline(_) => DemoMessageKind::DiskOffline,
            DemoMessage::OfflineDispatched(_) => DemoMessageKind::OfflineDispatched,
            DemoMessage::StartRebuild(_) => DemoMessageKind::StartRebuild,
            DemoMessage::SuspendRebuild(_) => DemoMessageKind::SuspendRebuild,
            DemoMessage::ResumeRebuild(_) => DemoMessageKind::ResumeRebuild,
            DemoMessage::CancelRebuild(_) => DemoMessageKind::CancelRebuild,
            DemoMessage::DiskResolved(_) => DemoMessageKind::DiskResolved,
            DemoMessage::BgFinished(_) => DemoMessageKind::BgFinished,
            DemoMessage::CampaignFinished(_) => DemoMessageKind::CampaignFinished,
            DemoMessage::CancelBgSent(_) => DemoMessageKind::CancelBgSent,
            DemoMessage::DoBgRebuild(_) => DemoMessageKind::DoBgRebuild,
            DemoMessage::CancelBgRebuild(_) => DemoMessageKind::CancelBgRebuild,
            DemoMessage::BgWorkflowFinished(_) => DemoMessageKind::BgWorkflowFinished,
            DemoMessage::QueryRebuild(_) => DemoMessageKind::QueryRebuild,
            DemoMessage::QueryBg(_) => DemoMessageKind::QueryBg,
        }
    }

    /// Tells what the message is about.
    pub fn kind(&self) -> (kind: DemoMessageKind)
        ensures
            kind == self.about(),
    {
        match self {
            DemoMessage::DiskOffline(_) => DemoMessageKind::DiskOffline,
            DemoMessage::OfflineDispatched(_) => DemoMessageKind::OfflineDispatched,
            DemoMessage::StartRebuild(_) => DemoMessageKind::StartRebuild,
            DemoMessage::SuspendRebuild(_) => DemoMessageKind::SuspendRebuild,
            DemoMessage::ResumeRebuild(_) => DemoMessageKind::ResumeRebuild,
            DemoMessage::CancelRebuild(_) => DemoMessageKind::CancelRebuild,
            DemoMessage::DiskResolved(_) => DemoMessageKind::DiskResolved,
            DemoMessage::BgFinished(_) => DemoMessageKind::BgFinished,
            DemoMessage::CampaignFinished(_) => DemoMessageKind::CampaignFinished,
            DemoMessage::CancelBgSent(_) => DemoMessageKind::CancelBgSent,
            DemoMessage::DoBgRebuild(_) => DemoMessageKind::DoBgRebuild,
            DemoMessage::CancelBgRebuild(_) => DemoMessageKind::CancelBgRebuild,
            DemoMessage::BgWorkflowFinished(_) => DemoMessageKind::BgWorkflowFinished,
            DemoMessage::QueryRebuild(_) => DemoMessageKind::QueryRebuild,
            DemoMessage::QueryBg(_) => DemoMessageKind::QueryBg,
        }
    }
}

/// An error of the demo is written out with what it is about, and a message is
/// about what it carries.
pub proof fn law_demo_errors_name_their_subject(error: DemoError, text: Seq<char>)
    ensures
        error matches DemoError::AlreadyRebuilding(disk) ==> error.message()
            == "AlreadyRebuilding(DiskId("@ + quoted_text(disk@) + "))"@,
        error matches DemoError::NotRebuilding(disk) ==> error.message()
            == "NotRebuilding(DiskId("@ + quoted_text(disk@) + "))"@,
        error is Cancelled ==> error.message() == "Cancelled"@,
        error matches DemoError::Runtime(said) ==> error.message() == "Runtime("@ + quoted_text(
            said@,
        ) + ")"@,
        error.is_runtime(text) <==> (error matches DemoError::Runtime(said) && said@ == text),
{
}

/// A message is dispatched by what it carries.
pub proof fn law_message_is_about_what_it_carries(message: DemoMessage)
    ensures
        message is DiskOffline <==> message.about() is DiskOffline,
        message is OfflineDispatched <==> message.about() is OfflineDispatched,
        message is StartRebuild <==> message.about() is StartRebuild,
        message is SuspendRebuild <==> message.about() is SuspendRebuild,
        message is ResumeRebuild <==> message.about() is ResumeRebuild,
        message is CancelRebuild <==> message.about() is CancelRebuild,
        message is DiskResolved <==> message.about() is DiskResolved,
        message is BgFinished <==> message.about() is BgFinished,
        message is CampaignFinished <==> message.about() is CampaignFinished,
        message is CancelBgSent <==> message.about() is CancelBgSent,
        message is DoBgRebuild <==> message.about() is DoBgRebuild,
        message is CancelBgRebuild <==> message.about() is CancelBgRebuild,
        message is BgWorkflowFinished <==> message.about() is BgWorkflowFinished,
        message is QueryRebuild <==> message.about() is QueryRebuild,
        message is QueryBg <==> message.about() is QueryBg,
{
}

} // verus!
