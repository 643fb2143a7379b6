//! Driving the onedrive CLI: the arguments of each command, how its output is read
//! line by line, and what its exit means.
use vstd::prelude::*;

use super::output::{auth_required_spec, classify_onedrive_error, classify_spec, combined_output, decode_lossy, is_auth_required, parse_confirmation, parse_confirmation_spec, parse_version, parse_version_spec, utf8_lossy};
use super::parse::{file_change_view, parse_file_change_line, parse_file_change_spec, parse_preview_change_line, parse_preview_change_spec, preview_change_view};
use crate::event::{min_onedrive_version, version_at_least, version_le, BackendError, BackendErrorView, ClientCheck, ConfirmationKind, FileChange, OperationOutcome, PreviewChange, ProcPhase, Version};
use crate::present::lit;
use crate::profile::store::{auth_response_path, auth_url_path, Account};
use crate::text::{chars_of, concat3, string_of, trim, trim_chars, CharClass};
use crate::utils::{join_spec, sync_parent, sync_path};

verus! {

// ---------------------------------------------------------------------------
// Command lines
// ---------------------------------------------------------------------------

/// What a onedrive process is asked to do.
#[derive(Debug, Clone, Copy, PartialEq, Eq)]
pub enum OneDriveCommandKind {
    Sync { force: bool, resync: bool },
    Preview,
    Monitor,
    DisplaySyncStatus,
    ReconcileSync,
}

/// The arguments after `--confdir <dir>` for each kind of command.
pub open spec fn kind_args(kind: OneDriveCommandKind) -> Seq<Seq<char>> {
    match kind {
        OneDriveCommandKind::Sync { force, resync } => seq!["--sync"@, "--verbose"@] + (if force {
            seq!["--force"@]
        } else {
            Seq::empty()
        }) + (if resync {
            seq!["--resync"@, "--resync-auth"@]
        } else {
            Seq::empty()
        }),
        OneDriveCommandKind::Preview => seq!["--sync"@, "--verbose"@, "--local-first"@, "--dry-run"@],
        OneDriveCommandKind::Monitor => seq!["--monitor"@, "--verbose"@],
        OneDriveCommandKind::DisplaySyncStatus => seq!["--display-sync-status"@],
        OneDriveCommandKind::ReconcileSync => seq!["--sync"@, "--verbose"@],
    }
}

/// The full argument list of a command for a profile's configuration directory.
pub open spec fn command_args_spec(config_dir: Seq<char>, kind: OneDriveCommandKind) -> Seq<Seq<char>> {
    seq!["--confdir"@, config_dir] + kind_args(kind)
}

pub open spec fn arg_views(v: Seq<String>) -> Seq<Seq<char>> {
    v.map_values(|s: String| s@)
}

fn push_arg(args: &mut Vec<String>, a: &str)
    ensures
        arg_views(final(args)@) == arg_views(old(args)@).push(a@),
{
    args.push(lit(a));
    assert(arg_views(args@) =~= arg_views(old(args)@).push(a@));
}

/// A sync asks onedrive to override its big-delete safeguard (`--force`) exactly when a
/// forced sync was asked for, and to rebuild its state (`--resync`) exactly when a
/// resync was; the profile's configuration directory always comes first. A forced sync
/// alone is `--confdir <dir> --sync --verbose --force`, a resync alone `--confdir <dir>
/// --sync --verbose --resync --resync-auth`. A preview is a dry run and neither forces
/// nor resyncs.
pub proof fn law_sync_flags_follow_the_request(dir: Seq<char>, force: bool, resync: bool)
    ensures
        ({
            let a = command_args_spec(dir, OneDriveCommandKind::Sync { force, resync });
            &&& a[0] == "--confdir"@ && a[1] == dir
            &&& (exists|i: int| 2 <= i < a.len() && a[i] == "--force"@) <==> force
            &&& (exists|i: int| 2 <= i < a.len() && a[i] == "--resync"@) <==> resync
        }),
        command_args_spec(dir, OneDriveCommandKind::Sync { force: true, resync: false }) == seq![
            "--confdir"@,
            dir,
            "--sync"@,
            "--verbose"@,
            "--force"@,
        ],
        command_args_spec(dir, OneDriveCommandKind::Sync { force: false, resync: true }) == seq![
            "--confdir"@,
            dir,
            "--sync"@,
            "--verbose"@,
            "--resync"@,
            "--resync-auth"@,
        ],
        ({
            let a = command_args_spec(dir, OneDriveCommandKind::Preview);
            &&& exists|i: int| 2 <= i < a.len() && a[i] == "--dry-run"@
            &&& forall|i: int| 2 <= i < a.len() ==> a[i] != "--force"@ && a[i] != "--resync"@
        }),
{
    reveal_strlit("--confdir");
    reveal_strlit("--sync");
    reveal_strlit("--verbose");
    reveal_strlit("--force");
    reveal_strlit("--resync");
    reveal_strlit("--resync-auth");
    reveal_strlit("--local-first");
    reveal_strlit("--dry-run");
    let a = command_args_spec(dir, OneDriveCommandKind::Sync { force, resync });
    let head = seq!["--confdir"@, dir];
    let f: Seq<Seq<char>> = if force { seq!["--force"@] } else { Seq::empty() };
    let r: Seq<Seq<char>> = if resync { seq!["--resync"@, "--resync-auth"@] } else { Seq::empty() };
    assert(a =~= head + seq!["--sync"@, "--verbose"@] + f + r);
    assert(a[0] == "--confdir"@ && a[1] == dir);
    if force {
        assert(a[4] == "--force"@);
    }
    if resync {
        let k: int = 4 + f.len() as int;
        assert(a[k] == "--resync"@);
    }
    assert forall|i: int| 2 <= i < a.len() && a[i] == "--force"@ implies force by {
        if !force {
            assert(a[i] == "--sync"@ || a[i] == "--verbose"@ || a[i] == "--resync"@ || a[i] == "--resync-auth"@);
            assert(a[i].len() != "--force"@.len());
        }
    }
    assert forall|i: int| 2 <= i < a.len() && a[i] == "--resync"@ implies resync by {
        if !resync {
            assert(a[i] == "--sync"@ || a[i] == "--verbose"@ || a[i] == "--force"@);
            assert(a[i].len() != "--resync"@.len());
        }
    }
    assert(command_args_spec(dir, OneDriveCommandKind::Sync { force: true, resync: false }) =~= seq![
        "--confdir"@,
        dir,
        "--sync"@,
        "--verbose"@,
        "--force"@,
    ]);
    assert(command_args_spec(dir, OneDriveCommandKind::Sync { force: false, resync: true }) =~= seq![
        "--confdir"@,
        dir,
        "--sync"@,
        "--verbose"@,
        "--resync"@,
        "--resync-auth"@,
    ]);
    let p = command_args_spec(dir, OneDriveCommandKind::Preview);
    assert(p =~= seq!["--confdir"@, dir, "--sync"@, "--verbose"@, "--local-first"@, "--dry-run"@]);
    assert(p[5] == "--dry-run"@);
    assert forall|i: int| 2 <= i < p.len() implies p[i] != "--force"@ && p[i] != "--resync"@ by {
        assert(p[i].len() != "--force"@.len() && p[i].len() != "--resync"@.len());
    }
}

/// Each flag that changes what onedrive does is asked for by its own kind of command
/// only: `--force` by a forced sync, `--resync` by a resync, `--dry-run` by a preview,
/// `--monitor` by continuous sync, `--display-sync-status` by a status query; every
/// kind but continuous sync and a status query runs `--sync`.
pub proof fn law_each_flag_belongs_to_its_command(kind: OneDriveCommandKind)
    ensures
        kind_args(kind).contains("--force"@) <==> (kind is Sync && kind->force),
        kind_args(kind).contains("--resync"@) <==> (kind is Sync && kind->resync),
        kind_args(kind).contains("--dry-run"@) <==> kind is Preview,
        kind_args(kind).contains("--monitor"@) <==> kind is Monitor,
        kind_args(kind).contains("--display-sync-status"@) <==> kind is DisplaySyncStatus,
        kind_args(kind).contains("--sync"@) <==> !(kind is Monitor || kind is DisplaySyncStatus),
{
    reveal_strlit("--sync");
    reveal_strlit("--verbose");
    reveal_strlit("--force");
    reveal_strlit("--resync");
    reveal_strlit("--resync-auth");
    reveal_strlit("--local-first");
    reveal_strlit("--dry-run");
    reveal_strlit("--monitor");
    reveal_strlit("--display-sync-status");
    let a = kind_args(kind);
    assert(forall|i: int| 0 <= i < a.len() ==> (a[i] == "--sync"@ || a[i] == "--verbose"@ || a[i]
        == "--force"@ || a[i] == "--resync"@ || a[i] == "--resync-auth"@ || a[i] == "--local-first"@
        || a[i] == "--dry-run"@ || a[i] == "--monitor"@ || a[i] == "--display-sync-status"@));
    assert("--verbose"@[2] != "--dry-run"@[2] && "--verbose"@[2] != "--monitor"@[2]
        && "--dry-run"@[2] != "--monitor"@[2]);
    assert("--resync-auth"@[8] != "--local-first"@[8]);
    match kind {
        OneDriveCommandKind::Sync { force, resync } => {
            if force {
                assert(a[2] == "--force"@);
            }
            if resync {
                assert(a[a.len() - 2] == "--resync"@);
            }
            assert(a[0] == "--sync"@);
        },
        OneDriveCommandKind::Preview => {
            assert(a[0] == "--sync"@ && a[3] == "--dry-run"@);
        },
        OneDriveCommandKind::Monitor => {
            assert(a[0] == "--monitor"@);
        },
        OneDriveCommandKind::DisplaySyncStatus => {
            assert(a[0] == "--display-sync-status"@);
        },
        OneDriveCommandKind::ReconcileSync => {
            assert(a[0] == "--sync"@);
        },
    }
}

/// The arguments (after the program name) of a onedrive command for a profile.
pub fn build_command(account: &Account, kind: OneDriveCommandKind) -> (args: Vec<String>)
    ensures
        arg_views(args@) == command_args_spec(account.config_dir@, kind),
{
    let mut args: Vec<String> = Vec::new();
    push_arg(&mut args, "--confdir");
    push_arg(&mut args, account.config_dir.as_str());
    match kind {
        OneDriveCommandKind::Sync { force, resync } => {
            push_arg(&mut args, "--sync");
            push_arg(&mut args, "--verbose");
            if force {
                push_arg(&mut args, "--force");
            }
            if resync {
                push_arg(&mut args, "--resync");
                push_arg(&mut args, "--resync-auth");
            }
        },
        OneDriveCommandKind::Preview => {
            push_arg(&mut args, "--sync");
            push_arg(&mut args, "--verbose");
            push_arg(&mut args, "--local-first");
            push_arg(&mut args, "--dry-run");
        },
        OneDriveCommandKind::Monitor => {
            push_arg(&mut args, "--monitor");
            push_arg(&mut args, "--verbose");
        },
        OneDriveCommandKind::DisplaySyncStatus => {
            push_arg(&mut args, "--display-sync-status");
        },
        OneDriveCommandKind::ReconcileSync => {
            push_arg(&mut args, "--sync");
            push_arg(&mut args, "--verbose");
        },
    }
    assert(arg_views(args@) =~= command_args_spec(account.config_dir@, kind));
    args
}

/// `--single-directory <parent>` for a path inside a folder; nothing for a top-level path.
pub open spec fn scope_args(path: Seq<char>) -> Seq<Seq<char>> {
    match sync_parent(path) {
        Some(p) => seq!["--single-directory"@, p],
        None => Seq::empty(),
    }
}

/// Limits a command to the folder that holds `path`.
pub fn add_single_directory_scope(args: &mut Vec<String>, path: &str)
    ensures
        arg_views(final(args)@) == arg_views(old(args)@) + scope_args(path@),
{
    let parts = sync_path(path);
    match parts.parent {
        Some(parent) => {
            push_arg(args, "--single-directory");
            push_arg(args, parent);
        },
        None => {},
    }
    assert(arg_views(args@) =~= arg_views(old(args)@) + scope_args(path@));
}

/// The arguments that sync the folder of a just-applied preview change, so that the
/// CLI records its new state.
pub fn reconcile_preview_change(account: &Account, path: &str) -> (args: Vec<String>)
    ensures
        arg_views(args@) == command_args_spec(account.config_dir@, OneDriveCommandKind::ReconcileSync)
            + scope_args(path@),
{
    let mut args = build_command(account, OneDriveCommandKind::ReconcileSync);
    add_single_directory_scope(&mut args, path);
    args
}

/// The arguments that ask the CLI for the sync status of a just-applied change's folder.
pub fn display_reconcile_status(account: &Account, path: &str) -> (args: Vec<String>)
    ensures
        arg_views(args@) == command_args_spec(
            account.config_dir@,
            OneDriveCommandKind::DisplaySyncStatus,
        ) + scope_args(path@),
{
    let mut args = build_command(account, OneDriveCommandKind::DisplaySyncStatus);
    add_single_directory_scope(&mut args, path);
    args
}

/// A reconcile command's result: its output when it succeeded, the trimmed output as
/// the error otherwise.
pub fn reconcile_result(success: bool, combined: String) -> (r: Result<String, String>)
    ensures
        success ==> (r matches Ok(o) && o@ == combined@),
        !success ==> (r matches Err(e) && e@ == trim(combined@)),
{
    if success {
        Ok(combined)
    } else {
        Err(string_of(trim_chars(&chars_of(combined.as_str()), CharClass::Whitespace).as_slice()))
    }
}

/// The arguments of the sign-in command: the CLI writes the sign-in URL to one file
/// and reads the redirect URI from the other.
pub fn auth_args(account: &Account) -> (args: Vec<String>)
    ensures
        arg_views(args@) == seq![
            "--confdir"@,
            account.config_dir@,
            "--auth-files"@,
            join_spec(account.config_dir@, "auth-url"@) + ":"@ + join_spec(
                account.config_dir@,
                "auth-response"@,
            ),
        ],
{
    let mut args: Vec<String> = Vec::new();
    push_arg(&mut args, "--confdir");
    push_arg(&mut args, account.config_dir.as_str());
    push_arg(&mut args, "--auth-files");
    let url = auth_url_path(account);
    let response = auth_response_path(account);
    let files = concat3(url.as_str(), ":", response.as_str());
    push_arg(&mut args, files.as_str());
    assert(arg_views(args@) =~= seq![
        "--confdir"@,
        account.config_dir@,
        "--auth-files"@,
        join_spec(account.config_dir@, "auth-url"@) + ":"@ + join_spec(
            account.config_dir@,
            "auth-response"@,
        ),
    ]);
    args
}

// ---------------------------------------------------------------------------
// What an exit means
// ---------------------------------------------------------------------------

/// Reads `onedrive --version`: a version at least the minimum is ready, an older one
/// is unsupported, output without a version means the CLI is missing.
pub fn client_check_from_output(stdout: &[u8], stderr: &[u8]) -> (r: ClientCheck)
    ensures
        match parse_version_spec(utf8_lossy(stdout@) + utf8_lossy(stderr@)) {
            Some(v) => if version_le(Version { major: 2, minor: 5, patch: 0 }, v) {
                r == ClientCheck::Ready(v)
            } else {
                r == (ClientCheck::Unsupported {
                    found: v,
                    minimum: Version { major: 2, minor: 5, patch: 0 },
                })
            },
            None => r matches ClientCheck::Missing(m) && m@ == "unable to determine onedrive version"@,
        },
{
    let combined = combined_output(stdout, stderr);
    let minimum = min_onedrive_version();
    match parse_version(combined.as_str()) {
        Some(v) => if version_at_least(v, minimum) {
            ClientCheck::Ready(v)
        } else {
            ClientCheck::Unsupported { found: v, minimum }
        },
        None => ClientCheck::Missing(lit("unable to determine onedrive version")),
    }
}

/// The CLI could not be run at all.
pub fn client_missing(binary: &str, error: &str) -> (r: ClientCheck)
    ensures
        r matches ClientCheck::Missing(m) && m@ == binary@ + ": "@ + error@,
{
    ClientCheck::Missing(concat3(binary, ": ", error))
}

/// How the sign-in process ended.
#[derive(Debug, Clone, Copy, PartialEq, Eq)]
pub enum AuthExit {
    /// The process exited, successfully or not.
    Exited(bool),
    /// The process could not be polled.
    Inaccessible,
    /// The user closed the sign-in panel.
    Stopped,
}

/// Whether sign-in succeeded, and the error otherwise: a process that exited counts
/// as success when it exited cleanly or left a refresh token behind.
pub fn auth_result(exit: AuthExit, token_present: bool) -> (r: (bool, Option<BackendError>))
    ensures
        match exit {
            AuthExit::Exited(ok) => r.0 == (ok || token_present) && (r.0 ==> r.1 is None) && (!r.0
                ==> (r.1 matches Some(e) && e@ == classify_spec(""@))),
            AuthExit::Inaccessible => !r.0 && r.1 == Some(BackendError::MonitorInaccessible),
            AuthExit::Stopped => !r.0 && (r.1 matches Some(BackendError::WaitFailed(p, d)) && p
                == ProcPhase::Auth && d@ == "requested stop"@),
        },
{
    match exit {
        AuthExit::Exited(ok) => {
            let success = ok || token_present;
            if success {
                (true, None)
            } else {
                (false, Some(classify_onedrive_error("")))
            }
        },
        AuthExit::Inaccessible => (false, Some(BackendError::MonitorInaccessible)),
        AuthExit::Stopped => (false, Some(BackendError::WaitFailed(ProcPhase::Auth, lit("requested stop")))),
    }
}

/// How many times the sign-in wait looks for the URL file before it only waits for the
/// process to end.
pub const AUTH_URL_POLLS: u32 = 300;

/// Where the sign-in wait stands: looking for the URL file (after this many looks), or
/// waiting for the process to end.
#[derive(Debug, Clone, Copy, PartialEq, Eq, Structural)]
pub enum AuthWait {
    Url(u32),
    Exit,
}

/// What the sign-in wait saw: the URL file's text (none when it could not be read), or
/// how the process stands.
#[derive(Debug)]
pub enum AuthSeen {
    UrlFile(Option<String>),
    Exited(bool),
    Running,
    Inaccessible,
}

/// What the sign-in wait does next.
#[derive(Debug)]
pub enum AuthStep {
    /// Report the sign-in URL, then go on at once.
    SendUrl(String),
    /// Sleep this many milliseconds, then go on.
    Sleep(u64),
    /// Report that sign-in ended like this, and stop.
    Finish(AuthExit),
}

/// One turn of the sign-in wait. A stop the user asked for, seen before each look,
/// ends the wait with `AuthExit::Stopped`. While it looks for the URL (`AuthWait::Url`), `seen` is
/// what the URL file held; after that, how the process stands. A non-blank file sends
/// its trimmed text and moves on to waiting for the process; otherwise the wait sleeps
/// 200 ms, and after `AUTH_URL_POLLS` looks stops looking. While waiting for the process,
/// an exit or a process that cannot be polled ends sign-in; a running process means
/// sleeping 500 ms.
pub fn auth_wait_step(w: AuthWait, stop: bool, seen: AuthSeen) -> (r: (AuthWait, AuthStep))
    requires
        w matches AuthWait::Url(n) ==> n < AUTH_URL_POLLS,
    ensures
        r.0 matches AuthWait::Url(n) ==> n < AUTH_URL_POLLS,
        stop ==> r.0 == w && r.1 matches AuthStep::Finish(AuthExit::Stopped),
        !stop ==> match w {
            AuthWait::Url(n) => match seen {
                AuthSeen::UrlFile(Some(text)) => if trim(text@).len() > 0 {
                    r.0 == AuthWait::Exit && (r.1 matches AuthStep::SendUrl(u) && u@ == trim(text@))
                } else {
                    r.0 == (if n + 1 >= AUTH_URL_POLLS { AuthWait::Exit } else { AuthWait::Url((n + 1) as u32) })
                        && r.1 matches AuthStep::Sleep(200)
                },
                _ => r.0 == (if n + 1 >= AUTH_URL_POLLS { AuthWait::Exit } else { AuthWait::Url((n + 1) as u32) })
                    && r.1 matches AuthStep::Sleep(200),
            },
            AuthWait::Exit => r.0 == w && match seen {
                AuthSeen::Exited(ok) => r.1 matches AuthStep::Finish(AuthExit::Exited(x)) && x == ok,
                AuthSeen::Inaccessible => r.1 matches AuthStep::Finish(AuthExit::Inaccessible),
                _ => r.1 matches AuthStep::Sleep(500),
            },
        },
{
    if stop {
        return (w, AuthStep::Finish(AuthExit::Stopped));
    }
    match w {
        AuthWait::Url(n) => {
            let next = if n + 1 >= AUTH_URL_POLLS {
                AuthWait::Exit
            } else {
                AuthWait::Url(n + 1)
            };
            match seen {
                AuthSeen::UrlFile(Some(text)) => match auth_url_from(text.as_str()) {
                    Some(url) => (AuthWait::Exit, AuthStep::SendUrl(url)),
                    None => (next, AuthStep::Sleep(200)),
                },
                _ => (next, AuthStep::Sleep(200)),
            }
        },
        AuthWait::Exit => match seen {
            AuthSeen::Exited(ok) => (w, AuthStep::Finish(AuthExit::Exited(ok))),
            AuthSeen::Inaccessible => (w, AuthStep::Finish(AuthExit::Inaccessible)),
            _ => (w, AuthStep::Sleep(500)),
        },
    }
}

/// The sign-in URL the CLI wrote, once the file holds more than whitespace.
pub fn auth_url_from(content: &str) -> (r: Option<String>)
    ensures
        trim(content@).len() == 0 ==> r is None,
        trim(content@).len() > 0 ==> (r matches Some(u) && u@ == trim(content@)),
{
    let t = trim_chars(&chars_of(content), CharClass::Whitespace);
    if t.len() == 0 {
        None
    } else {
        Some(string_of(t.as_slice()))
    }
}

/// Which waiter reports a one-shot run.
#[derive(Debug, Clone, Copy, PartialEq, Eq)]
pub enum WaiterKind {
    Preview,
    Sync,
}

pub open spec fn waiter_phase(kind: WaiterKind) -> ProcPhase {
    match kind {
        WaiterKind::Preview => ProcPhase::Preview,
        WaiterKind::Sync => ProcPhase::Sync,
    }
}

impl WaiterKind {
    /// The process phase named in a wait failure.
    pub fn phase(self) -> (r: ProcPhase)
        ensures
            r == waiter_phase(self),
    {
        match self {
            WaiterKind::Preview => ProcPhase::Preview,
            WaiterKind::Sync => ProcPhase::Sync,
        }
    }
}

pub open spec fn opt_error_is(e: Option<BackendError>, v: Option<BackendErrorView>) -> bool {
    match (e, v) {
        (Some(x), Some(y)) => x@ == y,
        (None, None) => true,
        _ => false,
    }
}

/// What a finished sync or preview process reports, given its wait result, whether a
/// stop was requested, and its output.
pub open spec fn waiter_outcome_ok(
    wait: Result<bool, String>,
    requested_stop: bool,
    combined: Seq<char>,
    kind: WaiterKind,
    r: OperationOutcome,
) -> bool {
    &&& r.requested_stop == requested_stop
    &&& match wait {
        Ok(success) => {
            &&& r.success == success
            &&& r.auth_required == (!success && auth_required_spec(combined))
            &&& opt_error_is(
                r.error,
                if !success && !requested_stop {
                    Some(classify_spec(combined))
                } else {
                    None
                },
            )
            &&& r.requires_confirmation == parse_confirmation_spec(combined)
        },
        Err(e) => {
            &&& !r.success
            &&& !r.auth_required
            &&& r.requires_confirmation is None
            &&& r.error matches Some(BackendError::WaitFailed(p, d)) && p == waiter_phase(kind) && d@
                == e@
        },
    }
}

/// What a finished sync or preview process reports: its exit, whether the user asked it to
/// stop, and what its output says. A failed wait reports the wait error.
pub fn waiter_outcome(
    wait: Result<bool, String>,
    requested_stop: bool,
    combined: &str,
    kind: WaiterKind,
) -> (r: OperationOutcome)
    ensures
        waiter_outcome_ok(wait, requested_stop, combined@, kind, r),
{
    match wait {
        Ok(success) => OperationOutcome {
            success,
            requested_stop,
            auth_required: !success && is_auth_required(combined),
            error: if !success && !requested_stop {
                Some(classify_onedrive_error(combined))
            } else {
                None
            },
            requires_confirmation: parse_confirmation(combined),
        },
        Err(e) => OperationOutcome {
            success: false,
            requested_stop,
            auth_required: false,
            error: Some(BackendError::WaitFailed(kind.phase(), e)),
            requires_confirmation: None,
        },
    }
}

/// How polling a continuous-sync process ended.
#[derive(Debug, Clone, PartialEq, Eq)]
pub enum MonitorExit {
    Exited(bool),
    Inaccessible,
    PollFailed(String),
}

/// What a stopped continuous sync reports. Unlike a one-shot run, its output is
/// classified whenever it failed, stop requested or not.
pub fn monitor_outcome(exit: MonitorExit, requested_stop: bool, combined: &str) -> (r: OperationOutcome)
    ensures
        r.requested_stop == requested_stop,
        match exit {
            MonitorExit::Exited(success) => {
                &&& r.success == success
                &&& r.auth_required == (!success && auth_required_spec(combined@))
                &&& opt_error_is(
                    r.error,
                    if !success {
                        Some(classify_spec(combined@))
                    } else {
                        None
                    },
                )
                &&& r.requires_confirmation == parse_confirmation_spec(combined@)
            },
            MonitorExit::Inaccessible => !r.success && !r.auth_required && r.requires_confirmation
                is None && r.error == Some(BackendError::MonitorInaccessible),
            MonitorExit::PollFailed(d) => !r.success && !r.auth_required && r.requires_confirmation
                is None && (r.error matches Some(BackendError::MonitorPollFailed(x)) && x@ == d@),
        },
{
    match exit {
        MonitorExit::Exited(success) => OperationOutcome {
            success,
            requested_stop,
            auth_required: !success && is_auth_required(combined),
            error: if !success {
                Some(classify_onedrive_error(combined))
            } else {
                None
            },
            requires_confirmation: parse_confirmation(combined),
        },
        MonitorExit::Inaccessible => OperationOutcome {
            success: false,
            requested_stop,
            auth_required: false,
            error: Some(BackendError::MonitorInaccessible),
            requires_confirmation: None,
        },
        MonitorExit::PollFailed(d) => OperationOutcome {
            success: false,
            requested_stop,
            auth_required: false,
            error: Some(BackendError::MonitorPollFailed(d)),
            requires_confirmation: None,
        },
    }
}

// ---------------------------------------------------------------------------
// Reading the output
// ---------------------------------------------------------------------------

/// Whether output lines are read as live transfers or as a dry run's changes.
#[derive(Debug, Clone, Copy, PartialEq, Eq)]
pub enum OutputMode {
    Live,
    Preview,
}

/// One non-blank line of output and what it says.
#[derive(Debug)]
pub struct OutputLine {
    /// The line, trimmed; it is kept for the error analysis at the end.
    pub text: String,
    pub transfer: Option<FileChange>,
    pub preview: Option<PreviewChange>,
    pub confirmation: Option<ConfirmationKind>,
}

/// What a non-blank line `t` says in this mode.
pub open spec fn output_line_ok(l: OutputLine, t: Seq<char>, mode: OutputMode) -> bool {
    &&& l.text@ == t
    &&& l.confirmation == parse_confirmation_spec(t)
    &&& match mode {
        OutputMode::Live => l.preview is None && match l.transfer {
            Some(f) => parse_file_change_spec(t) == Some(file_change_view(f)),
            None => parse_file_change_spec(t) is None,
        },
        OutputMode::Preview => l.transfer is None && match l.preview {
            Some(c) => parse_preview_change_spec(t) == Some(preview_change_view(c)),
            None => parse_preview_change_spec(t) is None,
        },
    }
}

/// Reads one chunk of output between line breaks: blank chunks say nothing; other
/// lines are read as a transfer (live) or a change (preview), and as a state that
/// needs confirmation.
pub fn read_output_line(chunk: &[u8], mode: OutputMode) -> (r: Option<OutputLine>)
    ensures
        trim(utf8_lossy(chunk@)).len() == 0 ==> r is None,
        trim(utf8_lossy(chunk@)).len() > 0 ==> (r matches Some(l) && output_line_ok(
            l,
            trim(utf8_lossy(chunk@)),
            mode,
        )),
{
    let decoded = decode_lossy(chunk);
    let t = trim_chars(&chars_of(decoded.as_str()), CharClass::Whitespace);
    if t.len() == 0 {
        return None;
    }
    let text = string_of(t.as_slice());
    let (transfer, preview) = match mode {
        OutputMode::Live => (parse_file_change_line(text.as_str()), None),
        OutputMode::Preview => (None, parse_preview_change_line(text.as_str())),
    };
    let confirmation = parse_confirmation(text.as_str());
    Some(OutputLine { text, transfer, preview, confirmation })
}

/// Cuts a byte stream into chunks at every `\n` and `\r`.
pub struct LineSplitter {
    pub buffer: Vec<u8>,
}

impl LineSplitter {
    pub fn new() -> (r: LineSplitter)
        ensures
            r.buffer@ == Seq::<u8>::empty(),
    {
        LineSplitter { buffer: Vec::new() }
    }

    /// Takes one byte: a line break hands out the chunk collected so far (possibly
    /// empty) and starts a new one; any other byte is collected.
    pub fn push_byte(&mut self, byte: u8) -> (r: Option<Vec<u8>>)
        ensures
            (byte == 10 || byte == 13) ==> (r matches Some(c) && c@ == old(self).buffer@)
                && final(self).buffer@ == Seq::<u8>::empty(),
            !(byte == 10 || byte == 13) ==> r is None && final(self).buffer@ == old(
                self,
            ).buffer@.push(byte),
    {
        if byte == 10 || byte == 13 {
            let mut chunk: Vec<u8> = Vec::new();
            std::mem::swap(&mut chunk, &mut self.buffer);
            Some(chunk)
        } else {
            self.buffer.push(byte);
            None
        }
    }

    /// At the end of the stream: the last chunk, if anything was collected.
    pub fn finish(self) -> (r: Option<Vec<u8>>)
        ensures
            self.buffer@.len() == 0 ==> r is None,
            self.buffer@.len() > 0 ==> (r matches Some(c) && c@ == self.buffer@),
    {
        if self.buffer.len() == 0 {
            None
        } else {
            Some(self.buffer)
        }
    }
}

/// A run the user stopped is never reported as failing with an error of its own, and a
/// run that succeeded reports no error.
pub proof fn law_stopped_or_successful_run_has_no_error(
    wait: Result<bool, String>,
    requested_stop: bool,
    combined: Seq<char>,
    kind: WaiterKind,
    r: OperationOutcome,
)
    requires
        waiter_outcome_ok(wait, requested_stop, combined, kind, r),
        wait is Ok,
        requested_stop || wait == Ok::<bool, String>(true),
    ensures
        r.error is None,
{
}

} // verus!
