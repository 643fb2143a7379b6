//! The UI session: which profile is selected, what runs, which previewed changes wait,
//! and how each backend report changes that.
pub mod board;
pub mod pair_map;
pub mod react;
pub mod start;
pub mod laws;

use vstd::prelude::*;

use crate::event::{BackendError, ClientCheck, FileChange, PreviewChange};
use crate::operation::model::AccountOperation;
use crate::operation::registry::OperationRegistry;
use crate::present::{backend_error_message, backend_error_message_spec, lit};
use crate::profile::store::{find_index, Account, AccountStatusView, AccountStore, AccountView};
use pair_map::{PairKey, PairMap};

verus! {

/// Everything the UI thread decides with, apart from its widgets.
pub struct Session {
    pub store: AccountStore,
    pub selected_index: usize,
    pub client_check: ClientCheck,
    pub operations: OperationRegistry,
    /// Changes a dry run announced, by profile and change id.
    pub previews: PairMap<PreviewChange>,
    /// The previewed changes being applied now.
    pub applying: PairMap<()>,
}

pub struct SessionView {
    pub store: Seq<AccountView>,
    pub selected_index: usize,
    pub client_check: ClientCheck,
    pub operations: Map<Seq<char>, AccountOperation>,
    pub previews: Map<PairKey, PreviewChange>,
    pub applying: Map<PairKey, ()>,
}

impl View for Session {
    type V = SessionView;

    open spec fn view(&self) -> SessionView {
        SessionView {
            store: self.store@,
            selected_index: self.selected_index,
            client_check: self.client_check,
            operations: self.operations@,
            previews: self.previews@,
            applying: self.applying@,
        }
    }
}

/// The session with other operations.
pub open spec fn with_operations(s: SessionView, operations: Map<Seq<char>, AccountOperation>) -> SessionView {
    SessionView { operations, ..s }
}

/// The session with other previewed changes.
pub open spec fn with_previews(s: SessionView, previews: Map<PairKey, PreviewChange>) -> SessionView {
    SessionView { previews, ..s }
}

/// The session with other changes being applied.
pub open spec fn with_applying(s: SessionView, applying: Map<PairKey, ()>) -> SessionView {
    SessionView { applying, ..s }
}

/// The selected profile, if the selection points at one.
pub open spec fn selected_spec(s: SessionView) -> Option<AccountView> {
    if s.selected_index < s.store.len() {
        Some(s.store[s.selected_index as int])
    } else {
        None
    }
}

/// Whether the selected profile has this id.
pub open spec fn is_selected(s: SessionView, id: Seq<char>) -> bool {
    s.selected_index < s.store.len() && s.store[s.selected_index as int].id == id
}

/// The profile with this id, if any.
pub open spec fn account_spec(store: Seq<AccountView>, id: Seq<char>) -> Option<AccountView> {
    match find_index(store, id) {
        Some(i) => Some(store[i]),
        None => None,
    }
}

/// The store with the status of the profile with this id replaced.
pub open spec fn with_status(store: Seq<AccountView>, id: Seq<char>, status: AccountStatusView) -> Seq<
    AccountView,
> {
    match find_index(store, id) {
        Some(i) => store.update(i, AccountView { status, ..store[i] }),
        None => store,
    }
}

/// The message for an error, or `default` when there is none.
pub open spec fn message_or(error: Option<BackendError>, default: Seq<char>) -> Seq<char> {
    match error {
        Some(e) => backend_error_message_spec(e@),
        None => default,
    }
}

pub fn message_or_exec(error: &Option<BackendError>, default: &str) -> (r: String)
    ensures
        r@ == message_or(*error, default@),
{
    match error {
        Some(e) => backend_error_message(e),
        None => lit(default),
    }
}

// ---------------------------------------------------------------------------
// What the UI does about a report
// ---------------------------------------------------------------------------

/// A window the UI opens.
#[derive(Debug)]
pub enum Dialog {
    /// A "需要确认" notice with this message.
    Warning(String),
    /// The question whether to allow a large deletion and sync again with `--force`.
    BigDelete(Account),
    /// The sign-in dialog.
    Auth(Account),
}

/// A change to the row list of transfers and previewed changes.
#[derive(Debug)]
pub enum RowUpdate {
    Transfer(FileChange),
    Preview { account_id: String, change: PreviewChange },
    ApplyProgress { account_id: String, change_id: String, done: u64, total: u64 },
    Reconciling { account_id: String, change_id: String },
    Applied { account_id: String, change_id: String },
    ApplyFailed { account_id: String, change_id: String, message: String },
    ReconcileFailed { account_id: String, change_id: String, message: String },
}

/// A change to the open sign-in panel of a profile.
#[derive(Debug)]
pub enum AuthPanelUpdate {
    UrlReady { account_id: String, url: String },
    Finished { account_id: String, success: bool },
}

/// What the UI does in answer to one backend report.
#[derive(Debug)]
pub struct Reaction {
    pub toast: Option<String>,
    pub dialog: Option<Dialog>,
    /// Ask Graph who owns this profile's drive.
    pub identity_lookup: Option<Account>,
    pub auth_panel: Option<AuthPanelUpdate>,
    pub row: Option<RowUpdate>,
    /// Drop the process handle kept for the profile.
    pub release_handle: bool,
    pub clear_transfers: bool,
    /// The profile list changed: save it and show it again.
    pub store_changed: bool,
    /// Redraw the selected profile's view.
    pub refresh: bool,
}

impl Reaction {
    pub fn none() -> (r: Reaction)
        ensures
            r.toast is None,
            r.dialog is None,
            r.identity_lookup is None,
            r.auth_panel is None,
            r.row is None,
            !r.release_handle,
            !r.clear_transfers,
            !r.store_changed,
            !r.refresh,
    {
        Reaction {
            toast: None,
            dialog: None,
            identity_lookup: None,
            auth_panel: None,
            row: None,
            release_handle: false,
            clear_transfers: false,
            store_changed: false,
            refresh: false,
        }
    }
}

pub open spec fn toast_is(r: &Reaction, text: Seq<char>) -> bool {
    r.toast matches Some(t) && t@ == text
}

pub open spec fn opt_toast_is(r: &Reaction, text: Option<Seq<char>>) -> bool {
    match text {
        Some(t) => toast_is(r, t),
        None => r.toast is None,
    }
}

pub open spec fn dialog_warning_is(r: &Reaction, text: Seq<char>) -> bool {
    r.dialog matches Some(Dialog::Warning(t)) && t@ == text
}

pub open spec fn dialog_big_delete_is(r: &Reaction, a: AccountView) -> bool {
    r.dialog matches Some(Dialog::BigDelete(x)) && x@ == a
}

pub open spec fn dialog_auth_is(r: &Reaction, a: AccountView) -> bool {
    r.dialog matches Some(Dialog::Auth(x)) && x@ == a
}

} // verus!
