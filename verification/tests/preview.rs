use onesync::adapter::onedrive::parse::{parse_file_change_line, parse_preview_change_line};
use onesync::event::{
    ChangeDirection, ChangeKind, PreviewAction, PreviewBasis, PreviewConfidence, PreviewIntent,
    PreviewState,
};
use onesync::present::{change_kind_icon, file_display_state};
use onesync::session::board::file_progress;

#[test]
fn parse_preview_upload_new_file_reuses_transfer_parser_without_completion_state() {
    let change = parse_preview_change_line("Uploading new file: ./docs/a.txt ... done")
        .expect("dry-run upload should become a preview change");

    assert_eq!(change.id, "upload-new:./docs/a.txt");
    assert_eq!(change.path, "./docs/a.txt");
    assert_eq!(change.kind, ChangeKind::UploadNew);
    assert_eq!(change.apply, PreviewAction::UploadLocalToRemote);
    assert_eq!(change.intent, PreviewIntent::LocalChangeToRemote);
    assert_eq!(change.state, PreviewState::Pending);
    assert_eq!(change.description(), "将上传到 OneDrive");
}

#[test]
fn parse_preview_download_file_maps_to_graph_download() {
    let change = parse_preview_change_line("Downloading file: docs/remote.txt ... done")
        .expect("dry-run download should become a preview change");

    assert_eq!(change.id, "download:docs/remote.txt");
    assert_eq!(change.kind, ChangeKind::Download);
    assert_eq!(change.apply, PreviewAction::DownloadRemoteToLocal);
    assert_eq!(change.intent, PreviewIntent::RemoteChangeToLocal);
    assert_eq!(change.intent.label(), "远端新增或更新");
    assert_eq!(change.description(), "将下载到本地");
}

#[test]
fn preview_download_exposes_visible_intent_and_description() {
    let change = parse_preview_change_line("Downloading file: docs/remote.txt ... done")
        .expect("dry-run download should become a preview change");

    assert_eq!(change.intent, PreviewIntent::RemoteChangeToLocal);
    assert_eq!(change.intent.label(), "远端新增或更新");
    assert_eq!(change.description(), "将下载到本地");
    assert!(!change.needs_confirmation());
}

#[test]
fn preview_delete_remote_exposes_visible_intent_and_description() {
    let change =
        parse_preview_change_line("Deleting item from Microsoft OneDrive: docs/local-gone.txt")
            .expect("remote delete preview should be parsed");

    assert_eq!(change.intent, PreviewIntent::LocalDeleteToRemote);
    assert_eq!(change.intent.label(), "本地删除");
    assert_eq!(change.description(), "将从 OneDrive 删除");
    assert!(!change.needs_confirmation());
}

#[test]
fn parse_preview_remote_delete_means_local_delete_was_recognized() {
    let change =
        parse_preview_change_line("Deleting item from Microsoft OneDrive: docs/local-gone.txt")
            .expect("remote delete preview should be parsed");

    assert_eq!(change.id, "delete-remote:docs/local-gone.txt");
    assert_eq!(change.kind, ChangeKind::DeleteRemote);
    assert_eq!(change.apply, PreviewAction::DeleteRemote);
    assert_eq!(change.intent, PreviewIntent::LocalDeleteToRemote);
    assert_eq!(change.intent.label(), "本地删除");
}

#[test]
fn parse_preview_local_delete_means_remote_delete_was_recognized() {
    let change = parse_preview_change_line("Deleting local file: docs/remote-gone.txt")
        .expect("local delete preview should be parsed");

    assert_eq!(change.id, "delete-local:docs/remote-gone.txt");
    assert_eq!(change.kind, ChangeKind::DeleteLocal);
    assert_eq!(change.apply, PreviewAction::DeleteLocal);
    assert_eq!(change.intent, PreviewIntent::RemoteDeleteToLocal);
    assert_eq!(change.intent.label(), "远端删除");
}

#[test]
fn parse_preview_ignores_dry_run_housekeeping_lines() {
    assert!(parse_preview_change_line(
        "DRY-RUN Configured. Output below shows what 'would' have occurred."
    )
    .is_none());
    assert!(
        parse_preview_change_line("DRY RUN: Not updating hash files as --dry-run has been used")
            .is_none()
    );
    assert!(parse_preview_change_line("Sync with Microsoft OneDrive is complete").is_none());
}

#[test]
fn parse_preview_move_line_captures_source_and_target_paths() {
    let change = parse_preview_change_line("Moving file: docs/old.txt -> archive/new.txt ... done")
        .expect("move preview should be parsed");

    assert_eq!(change.kind, ChangeKind::Move);
    assert_eq!(change.path, "archive/new.txt");
    assert_eq!(change.source_path.as_deref(), Some("docs/old.txt"));
    assert_eq!(change.apply, PreviewAction::MoveRemoteItem);
}

#[test]
fn parse_ignores_status_and_scan_output() {
    assert!(parse_file_change_line("Configuration file successfully loaded").is_none());
    assert!(parse_file_change_line("Processing: .onesync-parser-test/move-target.txt").is_none());
    assert!(parse_file_change_line("Uploading filesystem metadata cache").is_none());
    assert!(parse_file_change_line("Downloading filesystem metadata cache").is_none());
    assert!(parse_file_change_line("Deleting itemized sync database entry").is_none());
    assert!(parse_file_change_line("The file has been deleted locally").is_none());
    assert!(parse_file_change_line("Sync with Microsoft OneDrive is complete").is_none());
}

#[test]
fn transfer_ignores_status_and_scan_output() {
    assert!(parse_file_change_line("Configuration file successfully loaded").is_none());
    assert!(parse_file_change_line("Processing: .onesync-parser-test/move-target.txt").is_none());
    assert!(parse_file_change_line("Uploading filesystem metadata cache").is_none());
    assert!(parse_file_change_line("Downloading filesystem metadata cache").is_none());
    assert!(parse_file_change_line("Deleting itemized sync database entry").is_none());
    assert!(parse_file_change_line("The file has been deleted locally").is_none());
    assert!(parse_file_change_line("Sync with Microsoft OneDrive is complete").is_none());
}

#[test]
fn parse_live_remote_delete_has_remote_delete_kind() {
    let file = parse_file_change_line("Deleting item from Microsoft OneDrive: docs/a.txt")
        .expect("line should be parsed as a transfer event");

    assert_eq!(file.kind, ChangeKind::DeleteRemote);
    assert_eq!(file.direction, ChangeDirection::LocalToRemote);
    assert_eq!(file_display_state(&file), "删除完成");
}

#[test]
fn parse_live_local_delete_has_local_delete_kind() {
    let file = parse_file_change_line("Deleting local file: docs/a.txt")
        .expect("line should be parsed as a transfer event");

    assert_eq!(file.kind, ChangeKind::DeleteLocal);
    assert_eq!(file.direction, ChangeDirection::RemoteToLocal);
    assert_eq!(file_display_state(&file), "删除完成");
}

#[test]
fn live_lines_name_their_state_and_icon() {
    let file = parse_file_change_line(
        "Uploading: ./.onesync-progress-test/upload-progress.bin ... 37%  |  ETA    00:00:10",
    )
    .unwrap();
    assert_eq!(file.name, "./.onesync-progress-test/upload-progress.bin");
    assert_eq!(file_display_state(&file), "正在上传");
    assert_eq!(change_kind_icon(file.kind), "go-up-symbolic");
    assert_eq!(file.percent.as_deref(), Some("37"));

    let modified =
        parse_file_change_line("Uploading modified file: .onesync-parser-test/move-target.txt ... done")
            .unwrap();
    assert_eq!(file_display_state(&modified), "更新完成");
    assert_eq!(change_kind_icon(modified.kind), "document-save-symbolic");
}

#[test]
fn transfer_preview_upload_new_file_reuses_transfer_parser_without_completion_state() {
    let change = parse_preview_change_line("Uploading new file: ./docs/a.txt ... done")
        .expect("dry-run upload should become a preview change");

    assert_eq!(change.id, "upload-new:./docs/a.txt");
    assert_eq!(change.path, "./docs/a.txt");
    assert_eq!(change.kind, ChangeKind::UploadNew);
    assert_eq!(change.apply, PreviewAction::UploadLocalToRemote);
    assert_eq!(change.intent, PreviewIntent::LocalChangeToRemote);
    assert_eq!(change.state, PreviewState::Pending);
    assert_eq!(change.description(), "将上传到 OneDrive");
}

#[test]
fn transfer_preview_download_file_maps_to_graph_download() {
    let change = parse_preview_change_line("Downloading file: docs/remote.txt ... done")
        .expect("dry-run download should become a preview change");

    assert_eq!(change.id, "download:docs/remote.txt");
    assert_eq!(change.kind, ChangeKind::Download);
    assert_eq!(change.apply, PreviewAction::DownloadRemoteToLocal);
    assert_eq!(change.intent, PreviewIntent::RemoteChangeToLocal);
    assert_eq!(change.intent.label(), "远端新增或更新");
    assert_eq!(change.description(), "将下载到本地");
}

#[test]
fn preview_download_marks_cli_dry_run_basis_and_exact_confidence() {
    let change = parse_preview_change_line("Downloading file: docs/remote.txt ... done")
        .expect("dry-run download should become a preview change");

    assert_eq!(change.basis(), PreviewBasis::CliDryRun);
    assert_eq!(change.confidence(), PreviewConfidence::Exact);
    assert_eq!(change.intent, PreviewIntent::RemoteChangeToLocal);
}

#[test]
fn preview_delete_remote_marks_cli_dry_run_basis_and_exact_confidence() {
    let change =
        parse_preview_change_line("Deleting item from Microsoft OneDrive: docs/local-gone.txt")
            .expect("remote delete preview should be parsed");

    assert_eq!(change.basis(), PreviewBasis::CliDryRun);
    assert_eq!(change.confidence(), PreviewConfidence::Exact);
    assert_eq!(change.intent, PreviewIntent::LocalDeleteToRemote);
}

#[test]
fn transfer_preview_remote_delete_means_local_delete_was_recognized() {
    let change =
        parse_preview_change_line("Deleting item from Microsoft OneDrive: docs/local-gone.txt")
            .expect("remote delete preview should be parsed");

    assert_eq!(change.id, "delete-remote:docs/local-gone.txt");
    assert_eq!(change.kind, ChangeKind::DeleteRemote);
    assert_eq!(change.apply, PreviewAction::DeleteRemote);
    assert_eq!(change.intent, PreviewIntent::LocalDeleteToRemote);
    assert_eq!(change.intent.label(), "本地删除");
}

#[test]
fn transfer_preview_local_delete_means_remote_delete_was_recognized() {
    let change = parse_preview_change_line("Deleting local file: docs/remote-gone.txt")
        .expect("local delete preview should be parsed");

    assert_eq!(change.id, "delete-local:docs/remote-gone.txt");
    assert_eq!(change.kind, ChangeKind::DeleteLocal);
    assert_eq!(change.apply, PreviewAction::DeleteLocal);
    assert_eq!(change.intent, PreviewIntent::RemoteDeleteToLocal);
    assert_eq!(change.intent.label(), "远端删除");
}

#[test]
fn transfer_preview_ignores_dry_run_housekeeping_lines() {
    assert!(parse_preview_change_line(
        "DRY-RUN Configured. Output below shows what 'would' have occurred."
    )
    .is_none());
    assert!(
        parse_preview_change_line("DRY RUN: Not updating hash files as --dry-run has been used")
            .is_none()
    );
    assert!(parse_preview_change_line("Sync with Microsoft OneDrive is complete").is_none());
}

#[test]
fn transfer_preview_move_line_captures_source_and_target_paths() {
    let change = parse_preview_change_line("Moving file: docs/old.txt -> archive/new.txt ... done")
        .expect("move preview should be parsed");

    assert_eq!(change.kind, ChangeKind::Move);
    assert_eq!(change.path, "archive/new.txt");
    assert_eq!(change.source_path.as_deref(), Some("docs/old.txt"));
    assert_eq!(change.apply, PreviewAction::MoveRemoteItem);
}

#[test]
fn live_transfer_lines_report_kind_state_and_percent() {
    let upload = parse_file_change_line("Uploading new file: ./docs/a.txt ... done").unwrap();
    assert_eq!(upload.name, "./docs/a.txt");
    assert_eq!(upload.kind, ChangeKind::UploadNew);
    assert!(upload.done);
    assert!(!upload.failed);
    assert!(upload.is_complete());

    let progress = parse_file_change_line("Uploading new file: big.iso ... 42.5%").unwrap();
    assert_eq!(progress.name, "big.iso");
    assert_eq!(progress.percent.as_deref(), Some("42.5"));
    assert!(!progress.is_complete());

    let failed = parse_file_change_line("Downloading file: x.bin ... failed!").unwrap();
    assert!(failed.failed);
    assert!(!failed.done);

    let removed = parse_file_change_line("Deleting local file: gone.txt").unwrap();
    assert_eq!(removed.kind, ChangeKind::DeleteLocal);
    assert!(removed.done);
}

fn parsed(line: &str) -> onesync::event::FileChange {
    parse_file_change_line(line).expect("line should be parsed as a transfer event")
}

#[test]
fn parse_parses_actual_upload_new_file_output() {
    let file = parsed("Uploading new file: ./.onesync-parser-test/move-source.txt ... done");

    assert_eq!(file.name, "./.onesync-parser-test/move-source.txt");
    assert_eq!(file_display_state(&file), "上传完成");
    assert_eq!(change_kind_icon(file.kind), "go-up-symbolic");
    assert_eq!(file_progress(&file), 1000);
}

#[test]
fn parse_parses_actual_upload_progress_output() {
    let file = parsed("Uploading: ./.onesync-progress-test/upload-progress.bin ... 37%  |  ETA    00:00:10");

    assert_eq!(file.name, "./.onesync-progress-test/upload-progress.bin");
    assert_eq!(file_display_state(&file), "正在上传");
    assert_eq!(change_kind_icon(file.kind), "go-up-symbolic");
    assert_eq!(file_progress(&file), 370);
}

#[test]
fn parse_parses_actual_delete_item_output() {
    let file = parsed("Deleting item from Microsoft OneDrive: .onesync-parser-test/move-source.txt");

    assert_eq!(file.name, ".onesync-parser-test/move-source.txt");
    assert_eq!(file_display_state(&file), "删除完成");
    assert_eq!(change_kind_icon(file.kind), "edit-delete-symbolic");
    assert_eq!(file_progress(&file), 1000);
}

#[test]
fn parse_parses_actual_modified_file_output() {
    let file = parsed("Uploading modified file: .onesync-parser-test/move-target.txt ... done");

    assert_eq!(file.name, ".onesync-parser-test/move-target.txt");
    assert_eq!(file_display_state(&file), "更新完成");
    assert_eq!(change_kind_icon(file.kind), "document-save-symbolic");
    assert_eq!(file_progress(&file), 1000);
}

#[test]
fn parse_parses_decimal_upload_progress_output() {
    let file = parsed("Uploading: ./.onesync-progress-test/upload-progress.bin ... 37.5%  |  ETA    00:00:10");

    assert_eq!(file_display_state(&file), "正在上传");
    assert_eq!(file_progress(&file), 375);
}

#[test]
fn parse_starts_incomplete_transfer_at_zero_without_percent() {
    let file = parsed("Uploading: ./.onesync-progress-test/upload-progress.bin");

    assert_eq!(file_display_state(&file), "正在上传");
    assert_eq!(file_progress(&file), 0);
}

#[test]
fn parse_live_upload_new_file_has_semantic_kind() {
    let file = parsed("Uploading new file: ./docs/a.txt ... done");

    assert_eq!(file.name, "./docs/a.txt");
    assert_eq!(file.kind, ChangeKind::UploadNew);
    assert_eq!(file.direction, ChangeDirection::LocalToRemote);
    assert_eq!(file_display_state(&file), "上传完成");
    assert_eq!(file_progress(&file), 1000);
}

#[test]
fn failed_anywhere_in_the_line_wins_over_done() {
    let file = parsed("Uploading file: a failed! b");
    assert!(file.failed);
    assert_eq!(file_display_state(&file), "上传失败");
    let file = parsed("Uploading file: a failed! b ... done");
    assert!(file.failed);
    assert!(!file.done);
    assert_eq!(file_display_state(&file), "上传失败");
    assert_eq!(file_progress(&file), 0);
}

#[test]
fn done_line_with_a_low_percentage_is_complete() {
    let file = parsed("Uploading: big.bin ... 50% ... done");
    assert!(file.done);
    assert!(file.is_complete());
    assert_eq!(file_display_state(&file), "上传完成");
    assert_eq!(file_progress(&file), 1000);
}
