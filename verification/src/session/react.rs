//! How the session answers each backend report.
use vstd::prelude::*;


use super::{account_spec, dialog_auth_is, dialog_big_delete_is, dialog_warning_is, is_selected, message_or, message_or_exec, opt_toast_is, selected_spec, toast_is, with_status, AuthPanelUpdate, Dialog, Reaction, RowUpdate, Session, SessionView};
use crate::adapter::onedrive::parse::{preview_change_view};
use crate::event::{BackendError, BackendEvent, ConfirmationKind, OperationOutcome, PreviewChange};
use crate::present::{backend_error_message, client_check_message_spec, confirmation_message_spec, lit, status_label, status_label_spec};
use crate::profile::store::{find_index, identity_update, Account, AccountStatus, AccountStatusView, AccountView};
use crate::text::{concat, str_eq};

verus! {

/// Which long-running operation ended.
#[derive(Debug, Clone, Copy, PartialEq, Eq)]
pub enum FinishedKind {
    Sync,
    Preview,
    Monitor,
}

pub open spec fn opt_string(o: Option<String>) -> Option<Seq<char>> {
    match o {
        Some(s) => Some(s@),
        None => None,
    }
}

/// Everything but the profile list stays as it was.
pub open spec fn only_store_changed(s0: SessionView, s1: SessionView) -> bool {
    &&& s1.selected_index == s0.selected_index
    &&& s1.client_check == s0.client_check
    &&& s1.operations == s0.operations
    &&& s1.previews == s0.previews
    &&& s1.applying == s0.applying
}

/// The dialog for a state the CLI wants confirmed: the large-deletion question for a
/// known profile, a notice otherwise.
pub open spec fn confirmation_dialog_ok(
    store: Seq<AccountView>,
    id: Seq<char>,
    kind: ConfirmationKind,
    r: &Reaction,
) -> bool {
    if kind == ConfirmationKind::BigDelete && account_spec(store, id) is Some {
        dialog_big_delete_is(r, account_spec(store, id).unwrap())
    } else {
        dialog_warning_is(r, confirmation_message_spec(kind))
    }
}

/// A run that found the sign-in expired: the profile needs authentication again,
/// and its sign-in dialog opens.
pub open spec fn auth_required_ok(
    s0: SessionView,
    s1: SessionView,
    id: Seq<char>,
    error: Option<BackendError>,
    r: &Reaction,
) -> bool {
    &&& s1.store == with_status(s0.store, id, AccountStatusView::NeedsAuth)
    &&& r.store_changed == find_index(s0.store, id) is Some
    &&& toast_is(r, message_or(error, "认证已失效，请重新完成登录"@))
    &&& match account_spec(s1.store, id) {
        Some(a) => dialog_auth_is(r, a),
        None => r.dialog is None,
    }
}

pub open spec fn failure_default(kind: FinishedKind) -> Seq<char> {
    match kind {
        FinishedKind::Sync => "同步失败"@,
        FinishedKind::Preview => "预览失败"@,
        FinishedKind::Monitor => "持续同步停止"@,
    }
}

/// The status a finished sync or monitor leaves: authenticated when it succeeded or
/// was stopped, otherwise the error.
pub open spec fn finished_status(kind: FinishedKind, o: OperationOutcome) -> AccountStatusView {
    if o.success || o.requested_stop {
        AccountStatusView::Authenticated
    } else {
        AccountStatusView::Error(message_or(o.error, failure_default(kind)))
    }
}

/// The notice shown when a run ends without asking for confirmation.
pub open spec fn finished_toast(kind: FinishedKind, o: OperationOutcome, s1: SessionView) -> Option<
    Seq<char>,
> {
    if o.requested_stop {
        Some(
            match kind {
                FinishedKind::Sync => "同步已停止"@,
                FinishedKind::Preview => "预览已停止"@,
                FinishedKind::Monitor => "持续同步已停止"@,
            },
        )
    } else if o.success {
        Some(
            match kind {
                FinishedKind::Sync => "同步完成"@,
                FinishedKind::Preview => "预览完成"@,
                FinishedKind::Monitor => "持续同步已结束"@,
            },
        )
    } else {
        match kind {
            FinishedKind::Sync => match selected_spec(s1) {
                Some(a) => Some(status_label_spec(a.status)),
                None => None,
            },
            FinishedKind::Preview => Some(message_or(o.error, "预览失败"@)),
            FinishedKind::Monitor => Some("持续同步异常停止"@),
        }
    }
}

/// A sync, preview or monitor run ended.
pub open spec fn finished_ok(
    kind: FinishedKind,
    s0: SessionView,
    s1: SessionView,
    id: Seq<char>,
    o: OperationOutcome,
    r: &Reaction,
) -> bool {
    &&& r.release_handle
    &&& r.refresh
    &&& s1.operations == s0.operations.remove(id)
    &&& s1.selected_index == s0.selected_index
    &&& s1.client_check == s0.client_check
    &&& s1.previews == s0.previews
    &&& s1.applying == s0.applying
    &&& r.identity_lookup is None
    &&& r.auth_panel is None
    &&& r.row is None
    &&& !r.clear_transfers
    &&& if o.auth_required {
        auth_required_ok(s0, s1, id, o.error, r)
    } else {
        &&& s1.store == (if kind == FinishedKind::Preview {
            s0.store
        } else {
            with_status(s0.store, id, finished_status(kind, o))
        })
        &&& r.store_changed == (kind != FinishedKind::Preview && find_index(s0.store, id) is Some)
        &&& match o.requires_confirmation {
            Some(k) => confirmation_dialog_ok(s1.store, id, k, r) && r.toast is None,
            None => r.dialog is None && opt_toast_is(r, finished_toast(kind, o, s1)),
        }
    }
}

/// Nothing happens but a notice, a redraw or a change of the profile list.
pub open spec fn calm(r: &Reaction) -> bool {
    &&& r.dialog is None
    &&& r.identity_lookup is None
    &&& r.auth_panel is None
    &&& r.row is None
    &&& !r.release_handle
    &&& !r.clear_transfers
}

/// The sign-in of a profile ended.
pub open spec fn auth_finished_ok(
    s0: SessionView,
    s1: SessionView,
    id: Seq<char>,
    success: bool,
    error: Option<BackendError>,
    r: &Reaction,
) -> bool {
    &&& s1.operations == s0.operations.remove(id)
    &&& s1.store == with_status(
        s0.store,
        id,
        if success {
            AccountStatusView::Authenticated
        } else {
            AccountStatusView::Error(message_or(error, "认证失败"@))
        },
    )
    &&& s1.selected_index == s0.selected_index
    &&& s1.client_check == s0.client_check
    &&& s1.previews == s0.previews
    &&& s1.applying == s0.applying
    &&& r.store_changed == find_index(s0.store, id) is Some
    &&& r.clear_transfers
    &&& r.refresh
    &&& !r.release_handle
    &&& r.dialog is None
    &&& r.row is None
    &&& (r.auth_panel matches Some(AuthPanelUpdate::Finished { account_id, success: s }) && account_id@
        == id && s == success)
    &&& if success {
        &&& toast_is(r, "认证完成"@)
        &&& match account_spec(s1.store, id) {
            Some(a) => r.identity_lookup matches Some(x) && x@ == a,
            None => r.identity_lookup is None,
        }
    } else {
        &&& r.identity_lookup is None
        &&& match selected_spec(s1) {
            Some(a) => toast_is(r, status_label_spec(a.status)),
            None => toast_is(r, "认证失败"@),
        }
    }
}

/// Graph reported who owns a profile's drive.
pub open spec fn identity_found_ok(
    s0: SessionView,
    s1: SessionView,
    id: Seq<char>,
    display_name: Option<String>,
    email: Option<String>,
    error: Option<BackendError>,
    r: &Reaction,
) -> bool {
    &&& only_store_changed(s0, s1)
    &&& calm(r)
    &&& match find_index(s0.store, id) {
        Some(i) => {
            let a = identity_update(s0.store[i], opt_string(display_name), opt_string(email));
            s1.store == s0.store.update(i, a) && r.store_changed == (a != s0.store[i])
        },
        None => s1.store == s0.store && !r.store_changed,
    }
    &&& r.refresh == r.store_changed
    &&& match error {
        Some(e) => toast_is(r, crate::present::backend_error_message_spec(e@)),
        None => match email {
            Some(m) => toast_is(r, "账号: "@ + m@),
            None => r.toast is None,
        },
    }
}

/// The rows, dialogs and panels stay as they are.
pub open spec fn row_ids_are(account_id: String, change_id: String, id: Seq<char>, cid: Seq<char>) -> bool {
    account_id@ == id && change_id@ == cid
}

/// What one backend report does to the session, and what the UI does about it.
pub open spec fn reaction_ok(s0: SessionView, s1: SessionView, e: BackendEvent, r: &Reaction) -> bool {
    match e {
        BackendEvent::ClientChecked(check) => {
            &&& s1 == SessionView { client_check: check, ..s0 }
            &&& calm(r)
            &&& !r.store_changed
            &&& r.refresh
            &&& toast_is(r, client_check_message_spec(check))
        },
        BackendEvent::AuthUrl { account_id, url } => {
            &&& s1 == s0
            &&& (r.auth_panel matches Some(AuthPanelUpdate::UrlReady { account_id: a, url: u }) && a@
                == account_id@ && u@ == url@)
            &&& r.dialog is None && r.identity_lookup is None && r.row is None
            &&& !r.release_handle && !r.clear_transfers && !r.store_changed && !r.refresh
            &&& opt_toast_is(
                r,
                if is_selected(s0, account_id@) {
                    Some("认证链接已生成"@)
                } else {
                    None
                },
            )
        },
        BackendEvent::AuthFinished { account_id, success, error } => auth_finished_ok(
            s0,
            s1,
            account_id@,
            success,
            error,
            r,
        ),
        BackendEvent::AccountIdentityFound { account_id, display_name, email, error } =>
            identity_found_ok(s0, s1, account_id@, display_name, email, error, r),
        BackendEvent::SyncFinished { account_id, outcome } => finished_ok(
            FinishedKind::Sync,
            s0,
            s1,
            account_id@,
            outcome,
            r,
        ),
        BackendEvent::PreviewFinished { account_id, outcome } => finished_ok(
            FinishedKind::Preview,
            s0,
            s1,
            account_id@,
            outcome,
            r,
        ),
        BackendEvent::MonitorStopped { account_id, outcome } => finished_ok(
            FinishedKind::Monitor,
            s0,
            s1,
            account_id@,
            outcome,
            r,
        ),
        BackendEvent::TransferEvent { account_id, file } => {
            &&& s1 == s0
            &&& r.toast is None
            &&& r.dialog is None && r.identity_lookup is None && r.auth_panel is None
            &&& !r.release_handle && !r.clear_transfers && !r.store_changed && !r.refresh
            &&& if is_selected(s0, account_id@) {
                r.row matches Some(RowUpdate::Transfer(f)) && f == file
            } else {
                r.row is None
            }
        },
        BackendEvent::PreviewEvent { account_id, change } => {
            &&& r.toast is None
            &&& r.dialog is None && r.identity_lookup is None && r.auth_panel is None
            &&& !r.release_handle && !r.clear_transfers && !r.store_changed && !r.refresh
            &&& if is_selected(s0, account_id@) {
                &&& s1 == SessionView {
                    previews: s0.previews.insert((account_id@, change.id@), change),
                    ..s0
                }
                &&& (r.row matches Some(RowUpdate::Preview { account_id: a, change: c }) && a@
                    == account_id@ && preview_change_view(c) == preview_change_view(change))
            } else {
                s1 == s0 && r.row is None
            }
        },
        BackendEvent::PreviewApplyFinished { account_id, change_id, success, error } => {
            &&& s1 == SessionView {
                applying: s0.applying.remove((account_id@, change_id@)),
                ..s0
            }
            &&& r.dialog is None && r.identity_lookup is None && r.auth_panel is None
            &&& !r.release_handle && !r.clear_transfers && !r.store_changed && !r.refresh
            &&& if success {
                toast_is(r, "云端操作已完成，正在更新同步状态"@) && r.row is None
            } else {
                &&& (r.row matches Some(RowUpdate::ApplyFailed { account_id: a, change_id: c, message: m })
                    && row_ids_are(a, c, account_id@, change_id@) && m@ == message_or(error, "应用失败"@))
                &&& toast_is(r, message_or(error, "应用预览变更失败"@))
            }
        },
        BackendEvent::PreviewApplyProgress { account_id, change_id, done, total } => {
            &&& s1 == s0
            &&& r.toast is None
            &&& r.dialog is None && r.identity_lookup is None && r.auth_panel is None
            &&& !r.release_handle && !r.clear_transfers && !r.store_changed && !r.refresh
            &&& (r.row matches Some(RowUpdate::ApplyProgress { account_id: a, change_id: c, done: d, total: t })
                && row_ids_are(a, c, account_id@, change_id@) && d == done && t == total)
        },
        BackendEvent::PreviewReconcileStarted { account_id, change_id } => {
            &&& s1 == s0
            &&& r.toast is None
            &&& r.dialog is None && r.identity_lookup is None && r.auth_panel is None
            &&& !r.release_handle && !r.clear_transfers && !r.store_changed && !r.refresh
            &&& (r.row matches Some(RowUpdate::Reconciling { account_id: a, change_id: c })
                && row_ids_are(a, c, account_id@, change_id@))
        },
        BackendEvent::PreviewReconcileFinished { account_id, change_id, success, error } => {
            &&& r.dialog is None && r.identity_lookup is None && r.auth_panel is None
            &&& !r.release_handle && !r.clear_transfers && !r.store_changed && !r.refresh
            &&& if success {
                &&& s1 == SessionView {
                    previews: s0.previews.remove((account_id@, change_id@)),
                    ..s0
                }
                &&& (r.row matches Some(RowUpdate::Applied { account_id: a, change_id: c })
                    && row_ids_are(a, c, account_id@, change_id@))
                &&& toast_is(r, "已应用并更新同步状态"@)
            } else {
                &&& s1 == s0
                &&& (r.row matches Some(RowUpdate::ReconcileFailed { account_id: a, change_id: c, message: m })
                    && row_ids_are(a, c, account_id@, change_id@) && m@ == message_or(error, "同步状态更新失败"@))
                &&& toast_is(r, message_or(error, "同步状态更新失败"@))
            }
        },
        BackendEvent::ConfirmationRequired { account_id, kind } => {
            &&& s1 == s0
            &&& r.identity_lookup is None && r.auth_panel is None && r.row is None
            &&& !r.release_handle && !r.clear_transfers && !r.store_changed && !r.refresh
            &&& if kind != ConfirmationKind::BigDelete && is_selected(s0, account_id@) {
                dialog_warning_is(r, confirmation_message_spec(kind)) && r.toast is None
            } else {
                toast_is(r, confirmation_message_spec(kind)) && r.dialog is None
            }
        },
    }
}

impl Session {
    fn account_copy(&self, id: &str) -> (r: Option<Account>)
        ensures
            match r {
                Some(a) => account_spec(self@.store, id@) == Some(a@),
                None => account_spec(self@.store, id@) is None,
            },
    {
        match self.store.position(id) {
            Some(i) => Some(self.store.accounts[i].copy()),
            None => None,
        }
    }

    fn selected_copy(&self) -> (r: Option<Account>)
        ensures
            match r {
                Some(a) => selected_spec(self@) == Some(a@),
                None => selected_spec(self@) is None,
            },
    {
        if self.selected_index < self.store.accounts.len() {
            Some(self.store.accounts[self.selected_index].copy())
        } else {
            None
        }
    }

    /// Whether the selected profile has this id.
    pub fn selected_is(&self, id: &str) -> (r: bool)
        ensures
            r == is_selected(self@, id@),
    {
        self.selected_index < self.store.accounts.len() && str_eq(
            self.store.accounts[self.selected_index].id.as_str(),
            id,
        )
    }

    fn set_status(&mut self, id: &str, status: AccountStatus) -> (changed: bool)
        ensures
            final(self)@.store == with_status(old(self)@.store, id@, status@),
            only_store_changed(old(self)@, final(self)@),
            changed == find_index(old(self)@.store, id@) is Some,
    {
        self.store.update_status(id, status)
    }

    fn confirmation_dialog(&self, id: &str, kind: ConfirmationKind) -> (d: Dialog)
        ensures
            ({
                let r = Reaction {
                    toast: None,
                    dialog: Some(d),
                    identity_lookup: None,
                    auth_panel: None,
                    row: None,
                    release_handle: false,
                    clear_transfers: false,
                    store_changed: false,
                    refresh: false,
                };
                confirmation_dialog_ok(self@.store, id@, kind, &r)
            }),
    {
        let account = self.account_copy(id);
        match (kind, account) {
            (ConfirmationKind::BigDelete, Some(a)) => Dialog::BigDelete(a),
            _ => Dialog::Warning(lit(kind.user_message())),
        }
    }

    fn reauthenticate(&mut self, id: &str, error: &Option<BackendError>, r: &mut Reaction)
        ensures
            auth_required_ok(old(self)@, final(self)@, id@, *error, &*final(r)),
            only_store_changed(old(self)@, final(self)@),
            final(r).identity_lookup == old(r).identity_lookup,
            final(r).auth_panel == old(r).auth_panel,
            final(r).row == old(r).row,
            final(r).release_handle == old(r).release_handle,
            final(r).clear_transfers == old(r).clear_transfers,
            final(r).refresh == old(r).refresh,
    {
        r.store_changed = self.set_status(id, AccountStatus::NeedsAuth);
        r.toast = Some(message_or_exec(error, "认证已失效，请重新完成登录"));
        r.dialog = match self.account_copy(id) {
            Some(a) => Some(Dialog::Auth(a)),
            None => None,
        };
    }

    /// A sync, preview or monitor run ended with this outcome.
    pub fn finish_run(&mut self, kind: FinishedKind, id: &str, outcome: OperationOutcome) -> (r:
        Reaction)
        ensures
            finished_ok(kind, old(self)@, final(self)@, id@, outcome, &r),
    {
        self.operations.finish(id);
        let mut r = Reaction::none();
        r.release_handle = true;
        r.refresh = true;
        if outcome.auth_required {
            self.reauthenticate(id, &outcome.error, &mut r);
            return r;
        }
        match kind {
            FinishedKind::Preview => {},
            _ => {
                let status = if outcome.success || outcome.requested_stop {
                    AccountStatus::Authenticated
                } else {
                    let default = match kind {
                        FinishedKind::Sync => "同步失败",
                        FinishedKind::Preview => "预览失败",
                        FinishedKind::Monitor => "持续同步停止",
                    };
                    AccountStatus::Error(message_or_exec(&outcome.error, default))
                };
                r.store_changed = self.set_status(id, status);
            },
        }
        match outcome.requires_confirmation {
            Some(k) => {
                r.dialog = Some(self.confirmation_dialog(id, k));
            },
            None => {
                r.toast = if outcome.requested_stop {
                    Some(
                        lit(
                            match kind {
                                FinishedKind::Sync => "同步已停止",
                                FinishedKind::Preview => "预览已停止",
                                FinishedKind::Monitor => "持续同步已停止",
                            },
                        ),
                    )
                } else if outcome.success {
                    Some(
                        lit(
                            match kind {
                                FinishedKind::Sync => "同步完成",
                                FinishedKind::Preview => "预览完成",
                                FinishedKind::Monitor => "持续同步已结束",
                            },
                        ),
                    )
                } else {
                    match kind {
                        FinishedKind::Sync => match self.selected_copy() {
                            Some(a) => Some(lit(status_label(&a.status))),
                            None => None,
                        },
                        FinishedKind::Preview => Some(message_or_exec(&outcome.error, "预览失败")),
                        FinishedKind::Monitor => Some(lit("持续同步异常停止")),
                    }
                };
            },
        }
        r
    }
    fn auth_finished(&mut self, id: &str, success: bool, error: &Option<BackendError>) -> (r:
        Reaction)
        ensures
            auth_finished_ok(old(self)@, final(self)@, id@, success, *error, &r),
    {
        self.operations.finish(id);
        let status = if success {
            AccountStatus::Authenticated
        } else {
            AccountStatus::Error(message_or_exec(error, "认证失败"))
        };
        let mut r = Reaction::none();
        r.store_changed = self.set_status(id, status);
        r.clear_transfers = true;
        r.refresh = true;
        r.auth_panel = Some(AuthPanelUpdate::Finished { account_id: lit(id), success });
        if success {
            r.toast = Some(lit("认证完成"));
            r.identity_lookup = self.account_copy(id);
        } else {
            r.toast = match self.selected_copy() {
                Some(a) => Some(lit(status_label(&a.status))),
                None => Some(lit("认证失败")),
            };
        }
        r
    }

    fn identity_found(
        &mut self,
        id: &str,
        display_name: Option<String>,
        email: Option<String>,
        error: Option<BackendError>,
    ) -> (r: Reaction)
        ensures
            identity_found_ok(old(self)@, final(self)@, id@, display_name, email, error, &r),
    {
        let name_ref: Option<&str> = match &display_name {
            Some(d) => Some(d.as_str()),
            None => None,
        };
        let email_ref: Option<&str> = match &email {
            Some(e) => Some(e.as_str()),
            None => None,
        };
        let changed = self.store.update_identity(id, name_ref, email_ref);
        let mut r = Reaction::none();
        r.store_changed = changed;
        r.refresh = changed;
        r.toast = match &error {
            Some(e) => Some(backend_error_message(e)),
            None => match &email {
                Some(m) => Some(concat("账号: ", m.as_str())),
                None => None,
            },
        };
        r
    }

    /// Applies one backend report to the session and says what the UI should do.
    pub fn handle_event(&mut self, event: BackendEvent) -> (r: Reaction)
        ensures
            reaction_ok(old(self)@, final(self)@, event, &r),
    {
        match event {
            BackendEvent::ClientChecked(check) => {
                let message = crate::present::client_check_message(&check);
                self.client_check = check;
                let mut r = Reaction::none();
                r.refresh = true;
                r.toast = Some(message);
                r
            },
            BackendEvent::AuthUrl { account_id, url } => {
                let mut r = Reaction::none();
                if self.selected_is(account_id.as_str()) {
                    r.toast = Some(lit("认证链接已生成"));
                }
                r.auth_panel = Some(AuthPanelUpdate::UrlReady { account_id, url });
                r
            },
            BackendEvent::AuthFinished { account_id, success, error } => {
                self.auth_finished(account_id.as_str(), success, &error)
            },
            BackendEvent::AccountIdentityFound { account_id, display_name, email, error } => {
                self.identity_found(account_id.as_str(), display_name, email, error)
            },
            BackendEvent::SyncFinished { account_id, outcome } => {
                self.finish_run(FinishedKind::Sync, account_id.as_str(), outcome)
            },
            BackendEvent::PreviewFinished { account_id, outcome } => {
                self.finish_run(FinishedKind::Preview, account_id.as_str(), outcome)
            },
            BackendEvent::MonitorStopped { account_id, outcome } => {
                self.finish_run(FinishedKind::Monitor, account_id.as_str(), outcome)
            },
            BackendEvent::TransferEvent { account_id, file } => {
                let mut r = Reaction::none();
                if self.selected_is(account_id.as_str()) {
                    r.row = Some(RowUpdate::Transfer(file));
                }
                r
            },
            BackendEvent::PreviewEvent { account_id, change } => {
                let mut r = Reaction::none();
                if self.selected_is(account_id.as_str()) {
                    let shown = copy_preview_change(&change);
                    let change_id = change.id.clone();
                    self.previews.insert(account_id.as_str(), change_id.as_str(), change);
                    r.row = Some(RowUpdate::Preview { account_id, change: shown });
                }
                r
            },
            BackendEvent::PreviewApplyFinished { account_id, change_id, success, error } => {
                self.applying.remove(account_id.as_str(), change_id.as_str());
                let mut r = Reaction::none();
                if success {
                    r.toast = Some(lit("云端操作已完成，正在更新同步状态"));
                } else {
                    r.toast = Some(message_or_exec(&error, "应用预览变更失败"));
                    let message = message_or_exec(&error, "应用失败");
                    r.row = Some(RowUpdate::ApplyFailed { account_id, change_id, message });
                }
                r
            },
            BackendEvent::PreviewApplyProgress { account_id, change_id, done, total } => {
                let mut r = Reaction::none();
                r.row = Some(RowUpdate::ApplyProgress { account_id, change_id, done, total });
                r
            },
            BackendEvent::PreviewReconcileStarted { account_id, change_id } => {
                let mut r = Reaction::none();
                r.row = Some(RowUpdate::Reconciling { account_id, change_id });
                r
            },
            BackendEvent::PreviewReconcileFinished { account_id, change_id, success, error } => {
                let mut r = Reaction::none();
                if success {
                    self.previews.remove(account_id.as_str(), change_id.as_str());
                    r.toast = Some(lit("已应用并更新同步状态"));
                    r.row = Some(RowUpdate::Applied { account_id, change_id });
                } else {
                    let message = message_or_exec(&error, "同步状态更新失败");
                    r.toast = Some(message_or_exec(&error, "同步状态更新失败"));
                    r.row = Some(RowUpdate::ReconcileFailed { account_id, change_id, message });
                }
                r
            },
            BackendEvent::ConfirmationRequired { account_id, kind } => {
                let mut r = Reaction::none();
                let big_delete = match kind {
                    ConfirmationKind::BigDelete => true,
                    _ => false,
                };
                if !big_delete && self.selected_is(account_id.as_str()) {
                    r.dialog = Some(Dialog::Warning(lit(kind.user_message())));
                } else {
                    r.toast = Some(lit(kind.user_message()));
                }
                r
            },
        }
    }
}

/// A field-by-field copy of a previewed change.
pub fn copy_preview_change(c: &PreviewChange) -> (r: PreviewChange)
    ensures
        preview_change_view(r) == preview_change_view(*c),
{
    PreviewChange {
        id: c.id.clone(),
        path: c.path.clone(),
        source_path: match &c.source_path {
            Some(s) => Some(s.clone()),
            None => None,
        },
        kind: c.kind,
        direction: c.direction,
        apply: c.apply,
        intent: c.intent,
        state: c.state,
    }
}

} // verus!
