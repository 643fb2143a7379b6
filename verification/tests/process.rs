use onesync::adapter::onedrive::process::{
    auth_wait_step, AuthSeen, AuthStep, AuthWait, AUTH_URL_POLLS,
    auth_args, auth_result, auth_url_from, build_command, client_check_from_output,
    client_missing, display_reconcile_status, monitor_outcome, read_output_line,
    reconcile_preview_change, reconcile_result, waiter_outcome, AuthExit, LineSplitter,
    MonitorExit, OneDriveCommandKind, OutputMode, WaiterKind,
};
use onesync::event::{BackendError, ClientCheck, ConfirmationKind, ProcPhase, Version};
use onesync::profile::store::{Account, AccountStatus};

fn account() -> Account {
    Account {
        id: "proc".to_string(),
        name: "Proc".to_string(),
        email: String::new(),
        config_dir: "/cfg/proc".to_string(),
        sync_dir: "~/OneDrive".to_string(),
        status: AccountStatus::Authenticated,
    }
}

#[test]
fn forced_sync_arguments_include_force_but_not_resync() {
    let args = build_command(&account(), OneDriveCommandKind::Sync { force: true, resync: false });
    assert_eq!(args, vec!["--confdir", "/cfg/proc", "--sync", "--verbose", "--force"]);
    assert!(!args.iter().any(|a| a == "--resync-auth"));
}

#[test]
fn resync_arguments_include_both_resync_flags() {
    let args = build_command(&account(), OneDriveCommandKind::Sync { force: false, resync: true });
    assert!(args.iter().any(|a| a == "--resync"));
    assert!(args.iter().any(|a| a == "--resync-auth"));
}

#[test]
fn preview_arguments_are_a_local_first_dry_run() {
    let args = build_command(&account(), OneDriveCommandKind::Preview);
    assert_eq!(
        args,
        vec!["--confdir", "/cfg/proc", "--sync", "--verbose", "--local-first", "--dry-run"]
    );
    let monitor = build_command(&account(), OneDriveCommandKind::Monitor);
    assert_eq!(monitor, vec!["--confdir", "/cfg/proc", "--monitor", "--verbose"]);
}

#[test]
fn reconcile_uses_single_directory_parent_scope() {
    let args = reconcile_preview_change(&account(), "docs/a.txt");
    assert_eq!(
        args,
        vec!["--confdir", "/cfg/proc", "--sync", "--verbose", "--single-directory", "docs"]
    );
    let status = display_reconcile_status(&account(), "docs/a.txt");
    assert_eq!(
        status,
        vec!["--confdir", "/cfg/proc", "--display-sync-status", "--single-directory", "docs"]
    );
    let top = reconcile_preview_change(&account(), "a.txt");
    assert_eq!(top, vec!["--confdir", "/cfg/proc", "--sync", "--verbose"]);
}

#[test]
fn reconcile_failure_reports_trimmed_output() {
    assert_eq!(reconcile_result(true, "ok\n".to_string()), Ok("ok\n".to_string()));
    assert_eq!(reconcile_result(false, "  bad\n".to_string()), Err("bad".to_string()));
}

#[test]
fn sign_in_arguments_name_both_files() {
    assert_eq!(
        auth_args(&account()),
        vec!["--confdir", "/cfg/proc", "--auth-files", "/cfg/proc/auth-url:/cfg/proc/auth-response"]
    );
    assert_eq!(auth_url_from("  https://login/x \n"), Some("https://login/x".to_string()));
    assert_eq!(auth_url_from(" \n"), None);
}

#[test]
fn sign_in_exit_counts_a_refresh_token_as_success() {
    assert_eq!(auth_result(AuthExit::Exited(true), false), (true, None));
    assert_eq!(auth_result(AuthExit::Exited(false), true), (true, None));
    assert_eq!(
        auth_result(AuthExit::Exited(false), false),
        (false, Some(BackendError::CliOutput(String::new())))
    );
    assert_eq!(
        auth_result(AuthExit::Stopped, false),
        (false, Some(BackendError::WaitFailed(ProcPhase::Auth, "requested stop".to_string())))
    );
    assert_eq!(
        auth_result(AuthExit::Inaccessible, true),
        (false, Some(BackendError::MonitorInaccessible))
    );
}

#[test]
fn client_version_check() {
    assert!(matches!(
        client_check_from_output(b"onedrive v2.5.4\n", b""),
        ClientCheck::Ready(Version { major: 2, minor: 5, patch: 4 })
    ));
    assert!(matches!(
        client_check_from_output(b"", b"onedrive v2.4.25"),
        ClientCheck::Unsupported { .. }
    ));
    assert!(matches!(
        client_check_from_output(b"garbage", b""),
        ClientCheck::Missing(ref m) if m == "unable to determine onedrive version"
    ));
    assert!(matches!(
        client_missing("onedrive", "not found"),
        ClientCheck::Missing(ref m) if m == "onedrive: not found"
    ));
}

#[test]
fn waiter_outcome_reads_the_output() {
    let o = waiter_outcome(Ok(false), false, "ERROR: Login required", WaiterKind::Sync);
    assert!(o.auth_required);
    assert_eq!(o.error, Some(BackendError::AuthExpired));
    let stopped = waiter_outcome(Ok(false), true, "whatever", WaiterKind::Sync);
    assert!(stopped.requested_stop);
    assert!(stopped.error.is_none());
    let failed = waiter_outcome(Err("lock".to_string()), false, "", WaiterKind::Preview);
    assert_eq!(failed.error, Some(BackendError::WaitFailed(ProcPhase::Preview, "lock".to_string())));
    let confirm = waiter_outcome(Ok(false), false, "ERROR: big delete detected", WaiterKind::Sync);
    assert_eq!(confirm.requires_confirmation, Some(ConfirmationKind::BigDelete));
    assert_eq!(WaiterKind::Sync.phase(), ProcPhase::Sync);
}

#[test]
fn monitor_outcome_classifies_even_after_stop() {
    let o = monitor_outcome(MonitorExit::Exited(false), true, "curl timeout");
    assert_eq!(o.error, Some(BackendError::Network));
    let poll = monitor_outcome(MonitorExit::PollFailed("io".to_string()), false, "");
    assert_eq!(poll.error, Some(BackendError::MonitorPollFailed("io".to_string())));
    let gone = monitor_outcome(MonitorExit::Inaccessible, false, "");
    assert_eq!(gone.error, Some(BackendError::MonitorInaccessible));
}

#[test]
fn output_lines_are_read_by_mode() {
    let live = read_output_line(b"  Uploading new file: a.txt ... done \r", OutputMode::Live).unwrap();
    assert_eq!(live.text, "Uploading new file: a.txt ... done");
    assert!(live.transfer.is_some());
    assert!(live.preview.is_none());
    let preview = read_output_line(b"Deleting local file: b.txt", OutputMode::Preview).unwrap();
    assert!(preview.preview.is_some());
    assert!(preview.transfer.is_none());
    let warn = read_output_line(b"ERROR: big delete detected", OutputMode::Live).unwrap();
    assert_eq!(warn.confirmation, Some(ConfirmationKind::BigDelete));
    assert!(read_output_line(b"   ", OutputMode::Live).is_none());
}

#[test]
fn splitter_cuts_at_line_breaks() {
    let mut s = LineSplitter::new();
    let mut chunks: Vec<Vec<u8>> = Vec::new();
    for b in b"ab\r\ncd" {
        if let Some(c) = s.push_byte(*b) {
            chunks.push(c);
        }
    }
    if let Some(c) = s.finish() {
        chunks.push(c);
    }
    assert_eq!(chunks, vec![b"ab".to_vec(), Vec::new(), b"cd".to_vec()]);
}

#[test]
fn sign_in_wait_looks_for_the_url_then_waits_for_the_process() {
    let (w, step) = auth_wait_step(AuthWait::Url(0), false, AuthSeen::UrlFile(None));
    assert_eq!(w, AuthWait::Url(1));
    assert!(matches!(step, AuthStep::Sleep(200)));
    let (w, step) = auth_wait_step(AuthWait::Url(1), false, AuthSeen::UrlFile(Some("  ".to_string())));
    assert_eq!(w, AuthWait::Url(2));
    assert!(matches!(step, AuthStep::Sleep(200)));
    let (w, step) = auth_wait_step(AuthWait::Url(2), false, AuthSeen::UrlFile(Some(" https://login \n".to_string())));
    assert_eq!(w, AuthWait::Exit);
    assert!(matches!(step, AuthStep::SendUrl(ref u) if u == "https://login"));
    let (w, _) = auth_wait_step(AuthWait::Url(AUTH_URL_POLLS - 1), false, AuthSeen::UrlFile(None));
    assert_eq!(w, AuthWait::Exit);
    let (_, step) = auth_wait_step(AuthWait::Exit, false, AuthSeen::Running);
    assert!(matches!(step, AuthStep::Sleep(500)));
    let (_, step) = auth_wait_step(AuthWait::Exit, false, AuthSeen::Exited(true));
    assert!(matches!(step, AuthStep::Finish(AuthExit::Exited(true))));
    let (_, step) = auth_wait_step(AuthWait::Exit, false, AuthSeen::Inaccessible);
    assert!(matches!(step, AuthStep::Finish(AuthExit::Inaccessible)));
    let (w, step) = auth_wait_step(AuthWait::Url(5), true, AuthSeen::UrlFile(None));
    assert_eq!(w, AuthWait::Url(5));
    assert!(matches!(step, AuthStep::Finish(AuthExit::Stopped)));
}
