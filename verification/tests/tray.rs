use onesync::operation::model::{OperationKind, OperationPhase};
use onesync::operation::registry::OperationRegistry;
use onesync::profile::store::{Account, AccountStatus};
use onesync::tray::{
    build_account_submenu, build_snapshot, menu, stop_target, tool_tip_description, TrayAccount,
    TrayAccountStatus, TrayAction, TrayMenuItem, TrayOperation, TraySnapshot,
};

fn tray_account(status: TrayAccountStatus, operation: Option<TrayOperation>) -> TrayAccount {
    TrayAccount {
        id: "a".to_string(),
        name: "Work".to_string(),
        status,
        operation,
    }
}

#[test]
fn idle_authenticated_profile_offers_both_commands() {
    let entries = build_account_submenu(&tray_account(TrayAccountStatus::Authenticated, None));
    let labels: Vec<&str> = entries.iter().map(|e| e.label.as_str()).collect();
    assert_eq!(labels, vec!["已认证", "手动同步", "自动同步", "打开同步目录"]);
    assert!(entries[1].enabled);
    assert_eq!(entries[1].action, Some(TrayAction::Sync("a".to_string())));
    assert_eq!(entries[2].action, Some(TrayAction::Monitor("a".to_string())));
}

#[test]
fn running_monitor_turns_its_line_into_stop() {
    let op = TrayOperation {
        kind: OperationKind::Monitor,
        phase: OperationPhase::Running,
    };
    let entries = build_account_submenu(&tray_account(TrayAccountStatus::Authenticated, Some(op)));
    assert_eq!(entries[1].label, "手动同步");
    assert!(!entries[1].enabled);
    assert_eq!(entries[2].label, "停止");
    assert_eq!(entries[2].action, Some(TrayAction::Stop("a".to_string())));

    let stopping = TrayOperation {
        kind: OperationKind::Monitor,
        phase: OperationPhase::Stopping,
    };
    let entries = build_account_submenu(&tray_account(TrayAccountStatus::Authenticated, Some(stopping)));
    assert_eq!(entries[2].label, "正在停止…");
    assert!(!entries[2].enabled);
}

#[test]
fn unauthenticated_profile_offers_sign_in() {
    let entries = build_account_submenu(&tray_account(TrayAccountStatus::Error("x".to_string()), None));
    assert_eq!(entries.len(), 2);
    assert_eq!(entries[0].label, "重新认证");
    assert_eq!(entries[0].action, Some(TrayAction::Auth("a".to_string())));
}

#[test]
fn menu_and_tooltip_follow_the_snapshot() {
    let empty = TraySnapshot { accounts: Vec::new() };
    assert_eq!(tool_tip_description(&empty), "未配置账号");
    assert_eq!(menu(&empty).len(), 3);

    let mut registry = OperationRegistry::new();
    registry.begin("a", OperationKind::OneTimeSync);
    let accounts = vec![Account {
        id: "a".to_string(),
        name: "Work".to_string(),
        email: String::new(),
        config_dir: "/cfg/a".to_string(),
        sync_dir: "~/a".to_string(),
        status: AccountStatus::Authenticated,
    }];
    let snapshot = build_snapshot(&accounts, &registry);
    assert_eq!(snapshot.accounts[0].operation.unwrap().kind, OperationKind::OneTimeSync);
    assert_eq!(tool_tip_description(&snapshot), "1 个账号");
    let items = menu(&snapshot);
    assert_eq!(items.len(), 5);
    assert!(matches!(items[2], TrayMenuItem::SubMenu(ref name, _) if name == "Work"));
    assert!(matches!(items[4], TrayMenuItem::Entry(ref e) if e.action == Some(TrayAction::Quit)));
}

#[test]
fn tray_stop_goes_to_the_running_command() {
    assert_eq!(stop_target(None), None);
}
