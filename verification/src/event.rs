//! Facts the backend reports to the UI: CLI availability, outcomes of operations,
//! structured errors and the file changes seen in the CLI output.
use vstd::prelude::*;

verus! {

// ---------------------------------------------------------------------------
// The onedrive client
// ---------------------------------------------------------------------------

/// A `major.minor.patch` version of the onedrive CLI.
#[derive(Debug, Clone, Copy, PartialEq, Eq)]
pub struct Version {
    pub major: u64,
    pub minor: u64,
    pub patch: u64,
}

/// Lexicographic order on versions.
pub open spec fn version_le(a: Version, b: Version) -> bool {
    ||| a.major < b.major
    ||| a.major == b.major && a.minor < b.minor
    ||| a.major == b.major && a.minor == b.minor && a.patch <= b.patch
}

/// Whether `v` is at least `min`.
pub fn version_at_least(v: Version, min: Version) -> (r: bool)
    ensures
        r == version_le(min, v),
{
    if v.major != min.major {
        v.major > min.major
    } else if v.minor != min.minor {
        v.minor > min.minor
    } else {
        v.patch >= min.patch
    }
}

/// The oldest onedrive CLI that OneSync drives.
pub fn min_onedrive_version() -> (r: Version)
    ensures
        r == (Version { major: 2, minor: 5, patch: 0 }),
{
    Version { major: 2, minor: 5, patch: 0 }
}

/// Whether the onedrive CLI can be used.
#[derive(Debug, Clone)]
pub enum ClientCheck {
    Unknown,
    Ready(Version),
    Missing(String),
    Unsupported { found: Version, minimum: Version },
}

impl ClientCheck {
    pub fn is_ready(&self) -> (r: bool)
        ensures
            r == (*self is Ready),
    {
        match self {
            ClientCheck::Ready(_) => true,
            _ => false,
        }
    }
}

/// A state in which the CLI stops and asks the user to confirm before going on.
#[derive(Debug, Clone, Copy, PartialEq, Eq)]
pub enum ConfirmationKind {
    ResyncRequired,
    BigDelete,
    DownloadOnlyCleanup,
    UploadOnlyNoRemoteDelete,
}

/// Which long-running onedrive process produced a wait failure.
#[derive(Debug, Clone, Copy, PartialEq, Eq, Hash)]
pub enum ProcPhase {
    Auth,
    Preview,
    Sync,
}

/// A failure reported by the backend, with raw (untranslated) details only.
#[derive(Debug, Clone, PartialEq, Eq)]
pub enum BackendError {
    AuthExpired,
    AuthFailed,
    Network,
    UnsupportedConfig,
    PartialTransfer,
    CliCrashed,
    /// CLI output that could not be classified: its last non-blank line.
    CliOutput(String),
    SpawnFailed(String),
    WaitFailed(ProcPhase, String),
    MonitorInaccessible,
    MonitorPollFailed(String),
    ApplyFailed(String),
    ReconcileFailed(String),
    IdentityLookupFailed(String),
    DuplicateAccountName,
    DuplicateSyncDir,
    ProfileCreateFailed(String),
}

/// A `BackendError` with its details as text.
pub enum BackendErrorView {
    AuthExpired,
    AuthFailed,
    Network,
    UnsupportedConfig,
    PartialTransfer,
    CliCrashed,
    CliOutput(Seq<char>),
    SpawnFailed(Seq<char>),
    WaitFailed(ProcPhase, Seq<char>),
    MonitorInaccessible,
    MonitorPollFailed(Seq<char>),
    ApplyFailed(Seq<char>),
    ReconcileFailed(Seq<char>),
    IdentityLookupFailed(Seq<char>),
    DuplicateAccountName,
    DuplicateSyncDir,
    ProfileCreateFailed(Seq<char>),
}

impl View for BackendError {
    type V = BackendErrorView;

    open spec fn view(&self) -> BackendErrorView {
        match self {
            BackendError::AuthExpired => BackendErrorView::AuthExpired,
            BackendError::AuthFailed => BackendErrorView::AuthFailed,
            BackendError::Network => BackendErrorView::Network,
            BackendError::UnsupportedConfig => BackendErrorView::UnsupportedConfig,
            BackendError::PartialTransfer => BackendErrorView::PartialTransfer,
            BackendError::CliCrashed => BackendErrorView::CliCrashed,
            BackendError::CliOutput(s) => BackendErrorView::CliOutput(s@),
            BackendError::SpawnFailed(s) => BackendErrorView::SpawnFailed(s@),
            BackendError::WaitFailed(p, s) => BackendErrorView::WaitFailed(*p, s@),
            BackendError::MonitorInaccessible => BackendErrorView::MonitorInaccessible,
            BackendError::MonitorPollFailed(s) => BackendErrorView::MonitorPollFailed(s@),
            BackendError::ApplyFailed(s) => BackendErrorView::ApplyFailed(s@),
            BackendError::ReconcileFailed(s) => BackendErrorView::ReconcileFailed(s@),
            BackendError::IdentityLookupFailed(s) => BackendErrorView::IdentityLookupFailed(s@),
            BackendError::DuplicateAccountName => BackendErrorView::DuplicateAccountName,
            BackendError::DuplicateSyncDir => BackendErrorView::DuplicateSyncDir,
            BackendError::ProfileCreateFailed(s) => BackendErrorView::ProfileCreateFailed(s@),
        }
    }
}

/// What the backend threads report to the UI thread.
#[derive(Debug)]
pub enum BackendEvent {
    ClientChecked(ClientCheck),
    AuthUrl { account_id: String, url: String },
    AuthFinished { account_id: String, success: bool, error: Option<BackendError> },
    AccountIdentityFound {
        account_id: String,
        display_name: Option<String>,
        email: Option<String>,
        error: Option<BackendError>,
    },
    SyncFinished { account_id: String, outcome: OperationOutcome },
    TransferEvent { account_id: String, file: FileChange },
    PreviewEvent { account_id: String, change: PreviewChange },
    PreviewFinished { account_id: String, outcome: OperationOutcome },
    PreviewApplyFinished {
        account_id: String,
        change_id: String,
        success: bool,
        error: Option<BackendError>,
    },
    /// `done` of `total` bytes of a previewed change have been moved.
    PreviewApplyProgress { account_id: String, change_id: String, done: u64, total: u64 },
    PreviewReconcileStarted { account_id: String, change_id: String },
    PreviewReconcileFinished {
        account_id: String,
        change_id: String,
        success: bool,
        error: Option<BackendError>,
    },
    ConfirmationRequired { account_id: String, kind: ConfirmationKind },
    MonitorStopped { account_id: String, outcome: OperationOutcome },
}

/// How a sync, preview or monitor run ended.
#[derive(Debug, Clone, PartialEq, Eq)]
pub struct OperationOutcome {
    pub success: bool,
    pub requested_stop: bool,
    pub auth_required: bool,
    pub error: Option<BackendError>,
    pub requires_confirmation: Option<ConfirmationKind>,
}

// ---------------------------------------------------------------------------
// File changes seen in the CLI output
// ---------------------------------------------------------------------------

#[derive(Debug, Clone, Copy, PartialEq, Eq, Hash)]
pub enum ChangeKind {
    Download,
    UploadNew,
    UploadModified,
    DeleteLocal,
    DeleteRemote,
    Move,
    Rename,
}

#[derive(Debug, Clone, Copy, PartialEq, Eq, Hash)]
pub enum ChangeDirection {
    LocalToRemote,
    RemoteToLocal,
    RemoteMetadata,
}

/// One transfer line of a live sync: the file, what happens to it, and how far it is.
///
/// `percent` is the decimal number written before a `%` in the line, if any.
#[derive(Debug, Clone)]
pub struct FileChange {
    pub name: String,
    pub kind: ChangeKind,
    pub direction: ChangeDirection,
    pub failed: bool,
    pub done: bool,
    pub percent: Option<String>,
}

#[derive(Debug, Clone, Copy, PartialEq, Eq, Hash)]
pub enum PreviewState {
    Pending,
    Applying,
    Reconciling,
    Failed,
    ReconcileFailed,
}

/// How a previewed change is carried out when the user applies it.
#[derive(Debug, Clone, Copy, PartialEq, Eq, Hash)]
pub enum PreviewAction {
    UploadLocalToRemote,
    DownloadRemoteToLocal,
    DeleteRemote,
    DeleteLocal,
    MoveRemoteItem,
    RenameRemoteItem,
}

/// What the user did that a previewed change follows from.
#[derive(Debug, Clone, Copy, PartialEq, Eq, Hash)]
pub enum PreviewIntent {
    LocalChangeToRemote,
    RemoteChangeToLocal,
    LocalDeleteToRemote,
    RemoteDeleteToLocal,
    RemoteMetadataChange,
}

/// Where a preview comes from.
#[derive(Debug, Clone, Copy, PartialEq, Eq, Hash)]
pub enum PreviewBasis {
    CliDryRun,
}

/// Whether the preview states the change exactly.
#[derive(Debug, Clone, Copy, PartialEq, Eq, Hash)]
pub enum PreviewConfidence {
    Exact,
    Ambiguous,
}

/// One change a dry run announced.
#[derive(Debug, Clone, PartialEq, Eq)]
pub struct PreviewChange {
    pub id: String,
    pub path: String,
    pub source_path: Option<String>,
    pub kind: ChangeKind,
    pub direction: ChangeDirection,
    pub apply: PreviewAction,
    pub intent: PreviewIntent,
    pub state: PreviewState,
}

impl PreviewChange {
    /// Previews come from `onedrive --dry-run`.
    pub fn basis(&self) -> (r: PreviewBasis)
        ensures
            r == PreviewBasis::CliDryRun,
    {
        PreviewBasis::CliDryRun
    }

    /// Every intent a dry-run line yields names its change exactly.
    pub fn confidence(&self) -> (r: PreviewConfidence)
        ensures
            r == PreviewConfidence::Exact,
    {
        PreviewConfidence::Exact
    }

    /// A change needs an extra confirmation only when its preview is ambiguous,
    /// which no dry-run line makes it.
    pub fn needs_confirmation(&self) -> (r: bool)
        ensures
            !r,
    {
        let c = self.confidence();
        match c {
            PreviewConfidence::Ambiguous => true,
            PreviewConfidence::Exact => false,
        }
    }
}

} // verus!
