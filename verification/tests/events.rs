use onesync::event::{
    min_onedrive_version, version_at_least, BackendError, ClientCheck, ConfirmationKind,
    OperationOutcome, ProcPhase, Version,
};
use onesync::operation::controls::ControlAction;
use onesync::operation::model::{AccountOperation, OperationKind};
use onesync::present::{
    account_label, backend_error_message, client_check_message, control_action_icon, control_action_label,
    operation_label, proc_phase_label, status_detail, status_label, status_title,
};
use onesync::profile::store::{Account, AccountStatus};

#[test]
fn variants_compare_and_carry_payload() {
    assert_eq!(BackendError::AuthExpired, BackendError::AuthExpired);
    assert_ne!(BackendError::AuthExpired, BackendError::AuthFailed);
    assert_eq!(
        BackendError::CliOutput("x".to_string()),
        BackendError::CliOutput("x".to_string())
    );
    assert_eq!(
        BackendError::WaitFailed(ProcPhase::Auth, "e".to_string()),
        BackendError::WaitFailed(ProcPhase::Auth, "e".to_string())
    );
    assert_ne!(
        BackendError::WaitFailed(ProcPhase::Auth, "e".to_string()),
        BackendError::WaitFailed(ProcPhase::Sync, "e".to_string())
    );
}

#[test]
fn success_outcome_has_no_error_or_confirmation() {
    let outcome = OperationOutcome {
        success: true,
        requested_stop: false,
        auth_required: false,
        error: None,
        requires_confirmation: None,
    };
    assert!(outcome.success);
    assert!(outcome.error.is_none());
    assert!(outcome.requires_confirmation.is_none());
}

#[test]
fn confirmation_outcome_carries_kind() {
    let outcome = OperationOutcome {
        success: false,
        requested_stop: false,
        auth_required: false,
        error: None,
        requires_confirmation: Some(ConfirmationKind::BigDelete),
    };
    assert_eq!(outcome.requires_confirmation, Some(ConfirmationKind::BigDelete));
}

#[test]
fn proc_phase_labels_in_chinese() {
    assert_eq!(proc_phase_label(ProcPhase::Auth), "认证");
    assert_eq!(proc_phase_label(ProcPhase::Preview), "预览");
    assert_eq!(proc_phase_label(ProcPhase::Sync), "同步");
}

#[test]
fn renders_every_error_variant() {
    assert_eq!(
        backend_error_message(&BackendError::AuthExpired),
        "认证已过期或缺少 refresh_token，请重新完成登录"
    );
    assert_eq!(
        backend_error_message(&BackendError::CliOutput(String::new())),
        "onedrive 操作失败"
    );
    assert_eq!(
        backend_error_message(&BackendError::CliOutput("last line".to_string())),
        "last line"
    );
    assert_eq!(
        backend_error_message(&BackendError::WaitFailed(ProcPhase::Preview, "boom".to_string())),
        "等待预览进程失败: boom"
    );
    assert_eq!(backend_error_message(&BackendError::DuplicateSyncDir), "同步目录已存在");
}

#[test]
fn client_check_messages_name_the_versions() {
    let ready = ClientCheck::Ready(Version { major: 2, minor: 5, patch: 4 });
    assert!(ready.is_ready());
    assert_eq!(client_check_message(&ready), "同步工具 2.5.4 可用");
    let old = ClientCheck::Unsupported {
        found: Version { major: 2, minor: 4, patch: 25 },
        minimum: min_onedrive_version(),
    };
    assert!(!old.is_ready());
    assert_eq!(client_check_message(&old), "同步工具版本过低: 当前 2.4.25, 需要 >= 2.5.0");
    assert_eq!(client_check_message(&ClientCheck::Missing("x".to_string())), "未找到同步工具: x");
    assert_eq!(client_check_message(&ClientCheck::Unknown), "正在检测同步工具");
}

#[test]
fn client_check_message_names_the_onedrive_cli() {
    let ready = ClientCheck::Ready(Version { major: 2, minor: 5, patch: 4 });
    assert_eq!(ready.message(), "onedrive CLI 2.5.4 可用");
    let old = ClientCheck::Unsupported {
        found: Version { major: 2, minor: 4, patch: 0 },
        minimum: min_onedrive_version(),
    };
    assert_eq!(old.message(), "onedrive CLI 版本过低: 当前 2.4.0, 需要 >= 2.5.0");
    assert_eq!(ClientCheck::Missing("x".to_string()).message(), "未找到 onedrive CLI: x");
    assert_eq!(ClientCheck::Unknown.message(), "正在检测 onedrive CLI");
}

#[test]
fn versions_compare_in_order() {
    let min = min_onedrive_version();
    assert!(version_at_least(Version { major: 2, minor: 5, patch: 0 }, min));
    assert!(version_at_least(Version { major: 3, minor: 0, patch: 0 }, min));
    assert!(!version_at_least(Version { major: 2, minor: 4, patch: 99 }, min));
}

#[test]
fn confirmation_messages_explain_the_risk() {
    assert_eq!(
        ConfirmationKind::BigDelete.user_message(),
        "onedrive 检测到大量删除，需要授权。请先检查删除列表后再继续。"
    );
}

#[test]
fn status_strings_follow_the_status() {
    let mut account = Account {
        id: "id-1".to_string(),
        name: "Work".to_string(),
        email: "  ".to_string(),
        config_dir: "/cfg/id-1".to_string(),
        sync_dir: "~/Work".to_string(),
        status: AccountStatus::NeedsAuth,
    };
    assert_eq!(status_title(&account.status), "需要认证");
    assert_eq!(status_label(&account.status), "未认证");
    assert_eq!(status_detail(&account), "配置目录: /cfg/id-1");
    assert_eq!(account_label(&account), "id-1");
    account.status = AccountStatus::Error("boom".to_string());
    assert_eq!(status_title(&account.status), "需要处理");
    assert_eq!(status_label(&account.status), "boom");
    assert_eq!(status_detail(&account), "最近错误: boom");
    account.email = "me@x.com".to_string();
    account.status = AccountStatus::Authenticated;
    assert_eq!(status_detail(&account), "同步目录: ~/Work");
    assert_eq!(account_label(&account), "me@x.com");
}

#[test]
fn operation_and_control_labels() {
    assert_eq!(operation_label(AccountOperation::running(OperationKind::OneTimeSync)), "一次同步");
    assert_eq!(operation_label(AccountOperation::stopping(OperationKind::Monitor)), "停止");
    assert_eq!(control_action_label(ControlAction::Stopping), "正在停止");
    assert_eq!(control_action_icon(ControlAction::StartPreview), "view-list-symbolic");
}
