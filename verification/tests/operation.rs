use onesync::operation::controls::{controls_for, runtime_for, CommandRuntime, ControlInput};
use onesync::operation::model::{AccountOperation, OperationKind, OperationPhase};
use onesync::operation::registry::OperationRegistry;
use onesync::profile::settings::SyncMode;

fn ready(mode: SyncMode, runtime: CommandRuntime) -> ControlInput {
    ControlInput {
        mode,
        runtime,
        authenticated: true,
        client_ready: true,
    }
}

#[test]
fn automatic_idle_shows_single_start_button_and_no_preview() {
    let controls = controls_for(ready(SyncMode::Automatic, CommandRuntime::Idle));

    assert_eq!(controls.sync.label, "自动同步");
    assert_eq!(controls.sync.icon, "media-playback-start-symbolic");
    assert!(controls.sync.visible);
    assert!(controls.sync.sensitive);
    assert!(!controls.preview.visible);
}

#[test]
fn automatic_monitoring_turns_sync_button_into_stop_button() {
    let controls = controls_for(ready(SyncMode::Automatic, CommandRuntime::RunningMonitor));

    assert_eq!(controls.sync.label, "停止");
    assert_eq!(controls.sync.icon, "media-playback-stop-symbolic");
    assert!(controls.sync.sensitive);
    assert!(!controls.preview.visible);
}

#[test]
fn manual_idle_shows_sync_and_preview_buttons() {
    let controls = controls_for(ready(SyncMode::Manual, CommandRuntime::Idle));

    assert_eq!(controls.sync.label, "同步");
    assert_eq!(controls.preview.label, "预览");
    assert!(controls.sync.visible);
    assert!(controls.preview.visible);
    assert!(controls.sync.sensitive);
    assert!(controls.preview.sensitive);
}

#[test]
fn manual_one_time_syncing_turns_sync_button_into_stop_button() {
    let controls = controls_for(ready(SyncMode::Manual, CommandRuntime::RunningManualSync));

    assert_eq!(controls.sync.label, "停止");
    assert_eq!(controls.sync.icon, "media-playback-stop-symbolic");
    assert!(controls.sync.sensitive);
    assert!(controls.preview.visible);
    assert!(!controls.preview.sensitive);
}

#[test]
fn manual_previewing_turns_preview_button_into_stop_button() {
    let controls = controls_for(ready(SyncMode::Manual, CommandRuntime::RunningPreview));

    assert_eq!(controls.preview.label, "停止");
    assert_eq!(controls.preview.icon, "media-playback-stop-symbolic");
    assert!(controls.preview.sensitive);
    assert!(!controls.sync.sensitive);
}

#[test]
fn unauthenticated_account_cannot_start_any_mode() {
    let controls = controls_for(ControlInput {
        mode: SyncMode::Manual,
        runtime: CommandRuntime::Idle,
        authenticated: false,
        client_ready: true,
    });

    assert!(!controls.sync.sensitive);
    assert!(!controls.preview.sensitive);
}

#[test]
fn controls_sync_mode_maps_to_dropdown_indices() {
    assert_eq!(SyncMode::from_dropdown_index(0), SyncMode::Manual);
    assert_eq!(SyncMode::from_dropdown_index(1), SyncMode::Automatic);
    assert_eq!(SyncMode::from_dropdown_index(99), SyncMode::Manual);
    assert_eq!(SyncMode::Manual.dropdown_index(), 0);
    assert_eq!(SyncMode::Automatic.dropdown_index(), 1);
}

#[test]
fn in_progress_and_blocked_states_disable_starts() {
    let previewing = controls_for(ready(SyncMode::Manual, CommandRuntime::RunningPreview));
    assert_eq!(previewing.preview.label, "停止");
    assert!(!previewing.sync.sensitive);
    assert!(previewing.preview.sensitive);

    let stopping_sync = controls_for(ready(SyncMode::Manual, CommandRuntime::StoppingManualSync));
    assert_eq!(stopping_sync.sync.label, "停止");
    assert_eq!(stopping_sync.sync.icon, "process-stop-symbolic");
    assert!(!stopping_sync.sync.sensitive);
    assert_eq!(stopping_sync.preview.label, "预览");
    assert_eq!(stopping_sync.preview.icon, "view-list-symbolic");
    assert!(!stopping_sync.preview.sensitive);

    let stopping_preview = controls_for(ready(SyncMode::Manual, CommandRuntime::StoppingPreview));
    assert_eq!(stopping_preview.sync.label, "同步");
    assert_eq!(stopping_preview.sync.icon, "view-refresh-symbolic");
    assert!(!stopping_preview.sync.sensitive);
    assert_eq!(stopping_preview.preview.label, "停止");
    assert_eq!(stopping_preview.preview.icon, "process-stop-symbolic");
    assert!(!stopping_preview.preview.sensitive);

    let stopping_monitor = controls_for(ready(SyncMode::Automatic, CommandRuntime::StoppingMonitor));
    assert_eq!(stopping_monitor.sync.label, "正在停止");
    assert_eq!(stopping_monitor.sync.icon, "process-stop-symbolic");
    assert!(!stopping_monitor.sync.sensitive);

    let blocked = controls_for(ready(SyncMode::Manual, CommandRuntime::Blocked));
    assert!(!blocked.sync.sensitive);
    assert!(!blocked.preview.sensitive);
}

#[test]
fn missing_cli_disables_starts() {
    let controls = controls_for(ControlInput {
        mode: SyncMode::Automatic,
        runtime: CommandRuntime::Idle,
        authenticated: true,
        client_ready: false,
    });
    assert!(controls.sync.visible);
    assert!(!controls.sync.sensitive);
}

#[test]
fn sync_mode_setting_values_round_trip() {
    assert_eq!(SyncMode::from_setting_value(SyncMode::Manual.setting_value()), Some(SyncMode::Manual));
    assert_eq!(
        SyncMode::from_setting_value(SyncMode::Automatic.setting_value()),
        Some(SyncMode::Automatic)
    );
    assert_eq!(SyncMode::from_setting_value("sometimes"), None);
}

#[test]
fn runtime_follows_the_operation() {
    assert_eq!(runtime_for(None), CommandRuntime::Idle);
    assert_eq!(
        runtime_for(Some(AccountOperation::running(OperationKind::OneTimeSync))),
        CommandRuntime::RunningManualSync
    );
    assert_eq!(
        runtime_for(Some(AccountOperation::stopping(OperationKind::Preview))),
        CommandRuntime::StoppingPreview
    );
    assert_eq!(
        runtime_for(Some(AccountOperation::running(OperationKind::Authentication))),
        CommandRuntime::Blocked
    );
}

#[test]
fn begin_inserts_running_operation() {
    let mut registry = OperationRegistry::default();
    assert!(registry.begin("a", OperationKind::OneTimeSync));
    let op = registry.get("a").unwrap();
    assert_eq!(op.kind, OperationKind::OneTimeSync);
    assert_eq!(op.phase, OperationPhase::Running);
}

#[test]
fn begin_rejects_duplicate_profile() {
    let mut registry = OperationRegistry::default();
    assert!(registry.begin("a", OperationKind::Monitor));
    assert!(!registry.begin("a", OperationKind::OneTimeSync));
}

#[test]
fn mark_stopping_transitions_phase() {
    let mut registry = OperationRegistry::default();
    registry.begin("a", OperationKind::OneTimeSync);
    registry.mark_stopping("a");
    assert_eq!(registry.get("a").unwrap().phase, OperationPhase::Stopping);
}

#[test]
fn finish_removes_operation() {
    let mut registry = OperationRegistry::default();
    registry.begin("a", OperationKind::OneTimeSync);
    registry.finish("a");
    assert!(registry.get("a").is_none());
    assert!(!registry.contains("a"));
}

#[test]
fn mark_stopping_and_finish_are_noops_for_unknown_profile() {
    let mut registry = OperationRegistry::default();
    registry.mark_stopping("missing");
    registry.finish("missing");
    assert!(registry.get("missing").is_none());
}

#[test]
fn begin_then_finish_leaves_other_profiles_alone() {
    let mut registry = OperationRegistry::new();
    assert!(registry.begin("a", OperationKind::Monitor));
    assert!(registry.begin("b", OperationKind::Preview));
    registry.finish("a");
    assert!(!registry.contains("a"));
    assert_eq!(registry.get("b").unwrap().kind, OperationKind::Preview);
    assert!(registry.get("b").unwrap().phase == OperationPhase::Running);
    assert!(!registry.get("b").unwrap().is_stopping());
}

#[test]
fn mod_sync_mode_maps_to_dropdown_indices() {
    assert_eq!(SyncMode::from_dropdown_index(0), SyncMode::Manual);
    assert_eq!(SyncMode::from_dropdown_index(1), SyncMode::Automatic);
    assert_eq!(SyncMode::from_dropdown_index(99), SyncMode::Manual);
    assert_eq!(SyncMode::Manual.dropdown_index(), 0);
    assert_eq!(SyncMode::Automatic.dropdown_index(), 1);
}
