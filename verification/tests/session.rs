use onesync::event::{
    BackendError, BackendEvent, ClientCheck, ConfirmationKind, OperationOutcome, Version,
};
use onesync::adapter::onedrive::parse::parse_preview_change_line;
use onesync::operation::controls::CommandRuntime;
use onesync::operation::model::{OperationKind, OperationPhase};
use onesync::operation::registry::OperationRegistry;
use onesync::profile::store::{Account, AccountStatus, AccountStore};
use onesync::session::pair_map::PairMap;
use onesync::session::start::MonitorToggle;
use onesync::session::{AuthPanelUpdate, Dialog, RowUpdate, Session};

fn account(id: &str, status: AccountStatus) -> Account {
    Account {
        id: id.to_string(),
        name: format!("Name {id}"),
        email: String::new(),
        config_dir: format!("/cfg/{id}"),
        sync_dir: format!("~/{id}"),
        status,
    }
}

fn session() -> Session {
    let mut store = AccountStore::default();
    store.accounts.push(account("a", AccountStatus::Authenticated));
    store.accounts.push(account("b", AccountStatus::Authenticated));
    Session {
        store,
        selected_index: 0,
        client_check: ClientCheck::Ready(Version { major: 2, minor: 5, patch: 4 }),
        operations: OperationRegistry::new(),
        previews: PairMap::new(),
        applying: PairMap::new(),
    }
}

fn outcome(success: bool, requested_stop: bool) -> OperationOutcome {
    OperationOutcome {
        success,
        requested_stop,
        auth_required: false,
        error: None,
        requires_confirmation: None,
    }
}

#[test]
fn finished_sync_frees_the_profile_and_reports_success() {
    let mut s = session();
    assert!(s.begin_one_time_sync("a", true).is_ok());
    assert_eq!(s.runtime_of("a"), CommandRuntime::RunningManualSync);
    let r = s.handle_event(BackendEvent::SyncFinished {
        account_id: "a".to_string(),
        outcome: outcome(true, false),
    });
    assert!(r.release_handle);
    assert_eq!(r.toast.as_deref(), Some("同步完成"));
    assert!(!s.operations.contains("a"));
    assert_eq!(s.store.accounts[0].status, AccountStatus::Authenticated);
}

#[test]
fn stopped_sync_says_so() {
    let mut s = session();
    s.begin_one_time_sync("a", true).unwrap();
    assert!(s.request_stop("a", false).is_ok());
    assert_eq!(s.operations.get("a").unwrap().phase, OperationPhase::Stopping);
    let r = s.handle_event(BackendEvent::SyncFinished {
        account_id: "a".to_string(),
        outcome: outcome(false, true),
    });
    assert_eq!(r.toast.as_deref(), Some("同步已停止"));
    assert_eq!(s.store.accounts[0].status, AccountStatus::Authenticated);
}

#[test]
fn failed_sync_records_the_error_and_shows_it() {
    let mut s = session();
    let mut o = outcome(false, false);
    o.error = Some(BackendError::Network);
    let r = s.handle_event(BackendEvent::SyncFinished { account_id: "a".to_string(), outcome: o });
    let message = "网络连接失败，请检查网络或代理后重试";
    assert_eq!(s.store.accounts[0].status, AccountStatus::Error(message.to_string()));
    assert_eq!(r.toast.as_deref(), Some(message));
    assert!(r.store_changed);
}

#[test]
fn expired_sign_in_asks_for_authentication_again() {
    let mut s = session();
    let mut o = outcome(false, false);
    o.auth_required = true;
    o.error = Some(BackendError::AuthExpired);
    let r = s.handle_event(BackendEvent::MonitorStopped { account_id: "b".to_string(), outcome: o });
    assert_eq!(s.store.accounts[1].status, AccountStatus::NeedsAuth);
    assert!(matches!(r.dialog, Some(Dialog::Auth(ref a)) if a.id == "b"));
    assert_eq!(r.toast.as_deref(), Some("认证已过期或缺少 refresh_token，请重新完成登录"));
}

#[test]
fn big_delete_asks_for_confirmation_instead_of_a_notice() {
    let mut s = session();
    let mut o = outcome(false, false);
    o.requires_confirmation = Some(ConfirmationKind::BigDelete);
    let r = s.handle_event(BackendEvent::SyncFinished { account_id: "a".to_string(), outcome: o });
    assert!(matches!(r.dialog, Some(Dialog::BigDelete(ref a)) if a.id == "a"));
    assert!(r.toast.is_none());

    let mut o = outcome(false, false);
    o.requires_confirmation = Some(ConfirmationKind::ResyncRequired);
    let r = s.handle_event(BackendEvent::PreviewFinished { account_id: "a".to_string(), outcome: o });
    assert!(matches!(r.dialog, Some(Dialog::Warning(ref m)) if m.contains("--resync")));
}

#[test]
fn preview_failure_keeps_status_and_shows_message() {
    let mut s = session();
    let r = s.handle_event(BackendEvent::PreviewFinished {
        account_id: "a".to_string(),
        outcome: outcome(false, false),
    });
    assert_eq!(r.toast.as_deref(), Some("预览失败"));
    assert_eq!(s.store.accounts[0].status, AccountStatus::Authenticated);
}

#[test]
fn monitor_failure_is_reported() {
    let mut s = session();
    let r = s.handle_event(BackendEvent::MonitorStopped {
        account_id: "a".to_string(),
        outcome: outcome(false, false),
    });
    assert_eq!(r.toast.as_deref(), Some("持续同步异常停止"));
    assert_eq!(s.store.accounts[0].status, AccountStatus::Error("持续同步停止".to_string()));
}

#[test]
fn sign_in_result_sets_status_and_looks_up_identity() {
    let mut s = session();
    s.store.accounts[0].status = AccountStatus::NeedsAuth;
    let r = s.handle_event(BackendEvent::AuthFinished {
        account_id: "a".to_string(),
        success: true,
        error: None,
    });
    assert_eq!(s.store.accounts[0].status, AccountStatus::Authenticated);
    assert_eq!(r.toast.as_deref(), Some("认证完成"));
    assert!(matches!(r.identity_lookup, Some(ref a) if a.id == "a"));
    assert!(r.clear_transfers);
    assert!(matches!(r.auth_panel, Some(AuthPanelUpdate::Finished { ref account_id, success: true }) if account_id == "a"));

    let r = s.handle_event(BackendEvent::AuthFinished {
        account_id: "b".to_string(),
        success: false,
        error: None,
    });
    assert_eq!(s.store.accounts[1].status, AccountStatus::Error("认证失败".to_string()));
    assert_eq!(r.toast.as_deref(), Some("已认证"));
}

#[test]
fn identity_found_updates_the_profile() {
    let mut s = session();
    s.store.accounts[0].name = "OneDrive".to_string();
    let r = s.handle_event(BackendEvent::AccountIdentityFound {
        account_id: "a".to_string(),
        display_name: Some("Ann".to_string()),
        email: Some("ann@x.com".to_string()),
        error: None,
    });
    assert!(r.store_changed);
    assert_eq!(s.store.accounts[0].name, "Ann");
    assert_eq!(r.toast.as_deref(), Some("账号: ann@x.com"));
    let r = s.handle_event(BackendEvent::AccountIdentityFound {
        account_id: "a".to_string(),
        display_name: None,
        email: None,
        error: Some(BackendError::IdentityLookupFailed("401".to_string())),
    });
    assert!(!r.store_changed);
    assert_eq!(r.toast.as_deref(), Some("无法读取 Microsoft 账号信息: 401"));
}

#[test]
fn client_check_and_auth_url_reports() {
    let mut s = session();
    let r = s.handle_event(BackendEvent::ClientChecked(ClientCheck::Missing("no".to_string())));
    assert_eq!(r.toast.as_deref(), Some("未找到同步工具: no"));
    assert!(!s.client_check.is_ready());
    let r = s.handle_event(BackendEvent::AuthUrl {
        account_id: "a".to_string(),
        url: "https://login".to_string(),
    });
    assert_eq!(r.toast.as_deref(), Some("认证链接已生成"));
    assert!(matches!(r.auth_panel, Some(AuthPanelUpdate::UrlReady { ref url, .. }) if url == "https://login"));
    let r = s.handle_event(BackendEvent::AuthUrl {
        account_id: "b".to_string(),
        url: "https://login".to_string(),
    });
    assert!(r.toast.is_none());
}

#[test]
fn previews_of_the_selected_profile_are_kept_and_applied() {
    let mut s = session();
    let change = parse_preview_change_line("Uploading new file: docs/a.txt ... done").unwrap();
    let id = change.id.clone();
    let r = s.handle_event(BackendEvent::PreviewEvent { account_id: "a".to_string(), change });
    assert!(matches!(r.row, Some(RowUpdate::Preview { .. })));
    assert!(s.previews.contains("a", &id));

    let other = parse_preview_change_line("Uploading new file: docs/b.txt ... done").unwrap();
    let r = s.handle_event(BackendEvent::PreviewEvent { account_id: "b".to_string(), change: other });
    assert!(r.row.is_none());
    assert!(!s.previews.contains("b", "upload-new:docs/b.txt"));

    let (acct, ch) = s.begin_apply("a", &id).unwrap();
    assert_eq!(acct.id, "a");
    assert_eq!(ch.path, "docs/a.txt");
    assert_eq!(s.begin_apply("a", &id).unwrap_err(), "该变更正在应用");
    assert_eq!(s.begin_apply("zz", &id).unwrap_err(), "该账号已不存在");
    assert_eq!(s.begin_apply("b", "nothing").unwrap_err(), "该预览变更已不存在");

    let r = s.handle_event(BackendEvent::PreviewApplyFinished {
        account_id: "a".to_string(),
        change_id: id.clone(),
        success: true,
        error: None,
    });
    assert_eq!(r.toast.as_deref(), Some("云端操作已完成，正在更新同步状态"));
    assert!(!s.applying.contains("a", &id));
    let r = s.handle_event(BackendEvent::PreviewReconcileFinished {
        account_id: "a".to_string(),
        change_id: id.clone(),
        success: true,
        error: None,
    });
    assert!(matches!(r.row, Some(RowUpdate::Applied { .. })));
    assert!(!s.previews.contains("a", &id));
}

#[test]
fn apply_failures_are_shown_on_the_row() {
    let mut s = session();
    let r = s.handle_event(BackendEvent::PreviewApplyFinished {
        account_id: "a".to_string(),
        change_id: "c".to_string(),
        success: false,
        error: Some(BackendError::ApplyFailed("disk full".to_string())),
    });
    assert_eq!(r.toast.as_deref(), Some("应用失败：disk full"));
    assert!(matches!(r.row, Some(RowUpdate::ApplyFailed { ref message, .. }) if message == "应用失败：disk full"));
    let r = s.handle_event(BackendEvent::PreviewReconcileFinished {
        account_id: "a".to_string(),
        change_id: "c".to_string(),
        success: false,
        error: None,
    });
    assert_eq!(r.toast.as_deref(), Some("同步状态更新失败"));
}

#[test]
fn confirmation_notices_depend_on_selection() {
    let mut s = session();
    let r = s.handle_event(BackendEvent::ConfirmationRequired {
        account_id: "a".to_string(),
        kind: ConfirmationKind::DownloadOnlyCleanup,
    });
    assert!(matches!(r.dialog, Some(Dialog::Warning(_))));
    let r = s.handle_event(BackendEvent::ConfirmationRequired {
        account_id: "b".to_string(),
        kind: ConfirmationKind::DownloadOnlyCleanup,
    });
    assert!(r.dialog.is_none());
    assert!(r.toast.is_some());
    let r = s.handle_event(BackendEvent::ConfirmationRequired {
        account_id: "a".to_string(),
        kind: ConfirmationKind::BigDelete,
    });
    assert!(r.dialog.is_none());
}

#[test]
fn start_checks_come_in_order() {
    let mut s = session();
    assert_eq!(s.begin_one_time_sync("a", false).unwrap_err(), "账号尚未完成认证");
    assert!(s.toggle_monitor("a", true).unwrap() == MonitorToggle::Start);
    assert_eq!(s.begin_one_time_sync("a", true).unwrap_err(), "持续同步运行中，不能同时执行一次同步");
    assert_eq!(s.begin_preview("a", true).unwrap_err(), "同步运行中，不能同时预览");
    assert!(s.toggle_monitor("a", true).unwrap() == MonitorToggle::Stop);
    assert!(s.request_stop("a", true).is_ok());
    assert_eq!(s.request_stop("a", false).unwrap_err(), "同步未运行");
    s.abandon("a");
    assert!(s.can_mutate_profile("a"));

    s.client_check = ClientCheck::Unknown;
    assert_eq!(s.begin_preview("b", true).unwrap_err(), "正在检测同步工具");
    s.client_check = ClientCheck::Ready(Version { major: 2, minor: 5, patch: 0 });
    s.operations.begin("b", OperationKind::Authentication);
    assert_eq!(s.begin_preview("b", true).unwrap_err(), "该账户正在执行认证");
    assert!(!s.can_mutate_profile("b"));
}

#[test]
fn dismissing_a_preview_forgets_it() {
    let mut s = session();
    let change = parse_preview_change_line("Deleting local file: x.txt").unwrap();
    let id = change.id.clone();
    s.handle_event(BackendEvent::PreviewEvent { account_id: "a".to_string(), change });
    assert_eq!(s.dismiss_preview("a", &id), "已放弃该变更");
    assert!(!s.previews.contains("a", &id));
}

#[test]
fn selection_is_kept_inside_the_list() {
    let mut s = session();
    s.selected_index = 7;
    s.clamp_selection();
    assert_eq!(s.selected_index, 1);
}

#[test]
fn removing_a_profile_moves_the_selection_up() {
    let mut s = session();
    s.selected_index = 1;
    s.remove_profile("b");
    assert_eq!(s.store.accounts().len(), 1);
    assert_eq!(s.store.accounts()[0].id, "a");
    assert_eq!(s.selected_index, 0);
    s.remove_profile("a");
    assert!(s.store.accounts().is_empty());
    assert_eq!(s.selected_index, 0);
}
