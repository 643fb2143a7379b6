//! Whether the user may start, stop or apply something now, and what that changes.
use vstd::prelude::*;

use super::pair_map::PairKey;
use super::{account_spec, with_applying, with_operations, with_previews, Session, SessionView};
use crate::adapter::onedrive::parse::preview_change_view;
use crate::event::{PreviewChange};
use crate::operation::controls::{runtime_for, runtime_for_spec, CommandRuntime};
use crate::operation::model::{AccountOperation, OperationKind, OperationPhase};
use crate::present::{client_check_message_spec, lit, operation_label, operation_label_spec};
use crate::profile::store::{without_id, Account};
use crate::session::react::copy_preview_change;
use crate::text::concat;

verus! {

/// The operation with a stop requested.
pub open spec fn stopping_spec(op: AccountOperation) -> AccountOperation {
    AccountOperation { phase: OperationPhase::Stopping, ..op }
}

/// A one-time sync or a preview runs for this profile.
pub open spec fn sync_running(s: SessionView, id: Seq<char>) -> bool {
    s.operations.contains_key(id) && (s.operations[id].kind == OperationKind::OneTimeSync
        || s.operations[id].kind == OperationKind::Preview)
}

/// Continuous sync runs for this profile.
pub open spec fn monitor_running(s: SessionView, id: Seq<char>) -> bool {
    s.operations.contains_key(id) && s.operations[id].kind == OperationKind::Monitor
}

/// The notice for a profile that already runs something.
pub open spec fn busy_message(s: SessionView, id: Seq<char>) -> Seq<char> {
    "该账户正在执行"@ + operation_label_spec(s.operations[id])
}

pub open spec fn client_ready(s: SessionView) -> bool {
    s.client_check is Ready
}

/// The session after `kind` started for this profile.
pub open spec fn with_running(s: SessionView, id: Seq<char>, kind: OperationKind) -> SessionView {
    SessionView {
        operations: s.operations.insert(id, AccountOperation { kind, phase: OperationPhase::Running }),
        ..s
    }
}

/// The checks before a one-time sync, in the order the user is told about them.
pub open spec fn one_time_sync_refusal(s: SessionView, id: Seq<char>, authenticated: bool) -> Option<
    Seq<char>,
> {
    if sync_running(s, id) {
        Some("同步正在运行，请等待完成"@)
    } else if !authenticated {
        Some("账号尚未完成认证"@)
    } else if !client_ready(s) {
        Some(client_check_message_spec(s.client_check))
    } else if monitor_running(s, id) {
        Some("持续同步运行中，不能同时执行一次同步"@)
    } else if s.operations.contains_key(id) {
        Some(busy_message(s, id))
    } else {
        None
    }
}

/// The checks before a preview.
pub open spec fn preview_refusal(s: SessionView, id: Seq<char>, authenticated: bool) -> Option<Seq<char>> {
    if !authenticated {
        Some("账号尚未完成认证"@)
    } else if !client_ready(s) {
        Some(client_check_message_spec(s.client_check))
    } else if sync_running(s, id) || monitor_running(s, id) {
        Some("同步运行中，不能同时预览"@)
    } else if s.operations.contains_key(id) {
        Some(busy_message(s, id))
    } else {
        None
    }
}

/// The checks before continuous sync starts (a running one is stopped instead).
pub open spec fn monitor_refusal(s: SessionView, id: Seq<char>, authenticated: bool) -> Option<Seq<char>> {
    if !authenticated {
        Some("账号尚未完成认证"@)
    } else if !client_ready(s) {
        Some(client_check_message_spec(s.client_check))
    } else if s.operations.contains_key(id) {
        Some(busy_message(s, id))
    } else {
        None
    }
}

/// What the continuous-sync button does.
#[derive(Debug, Clone, Copy, PartialEq, Eq)]
pub enum MonitorToggle {
    Start,
    Stop,
}

fn err_text(t: &str) -> (r: Result<(), String>)
    ensures
        r matches Err(m) && m@ == t@,
{
    Err(lit(t))
}

impl Session {
    fn busy(&self, id: &str) -> (r: Result<(), String>)
        requires
            self@.operations.contains_key(id@),
        ensures
            r matches Err(m) && m@ == busy_message(self@, id@),
    {
        let op = self.operations.get(id).unwrap();
        Err(concat("该账户正在执行", operation_label(op)))
    }

    /// Starts a one-time sync of this profile when nothing stands in the way;
    /// otherwise says why not and changes nothing.
    pub fn begin_one_time_sync(&mut self, id: &str, authenticated: bool) -> (r: Result<(), String>)
        ensures
            match one_time_sync_refusal(old(self)@, id@, authenticated) {
                Some(m) => (r matches Err(e) && e@ == m) && final(self)@ == old(self)@,
                None => r is Ok && final(self)@ == with_running(
                    old(self)@,
                    id@,
                    OperationKind::OneTimeSync,
                ),
            },
    {
        let op = self.operations.get(id);
        let running_kind = match op {
            Some(o) => Some(o.kind),
            None => None,
        };
        if matches!(running_kind, Some(OperationKind::OneTimeSync) | Some(OperationKind::Preview)) {
            return err_text("同步正在运行，请等待完成");
        }
        if !authenticated {
            return err_text("账号尚未完成认证");
        }
        if !self.client_check.is_ready() {
            return Err(crate::present::client_check_message(&self.client_check));
        }
        if matches!(running_kind, Some(OperationKind::Monitor)) {
            return err_text("持续同步运行中，不能同时执行一次同步");
        }
        if op.is_some() {
            return self.busy(id);
        }
        self.operations.begin(id, OperationKind::OneTimeSync);
        Ok(())
    }

    /// Starts a preview of this profile when nothing stands in the way, dropping the
    /// changes an earlier preview announced.
    pub fn begin_preview(&mut self, id: &str, authenticated: bool) -> (r: Result<(), String>)
        ensures
            match preview_refusal(old(self)@, id@, authenticated) {
                Some(m) => (r matches Err(e) && e@ == m) && final(self)@ == old(self)@,
                None => r is Ok && final(self)@ == with_previews(
                    with_running(old(self)@, id@, OperationKind::Preview),
                    old(self)@.previews.restrict(
                        old(self)@.previews.dom().filter(|k: PairKey| k.0 != id@),
                    ),
                ),
            },
    {
        let op = self.operations.get(id);
        if !authenticated {
            return err_text("账号尚未完成认证");
        }
        if !self.client_check.is_ready() {
            return Err(crate::present::client_check_message(&self.client_check));
        }
        let running_kind = match op {
            Some(o) => Some(o.kind),
            None => None,
        };
        if matches!(
            running_kind,
            Some(OperationKind::OneTimeSync) | Some(OperationKind::Preview) | Some(OperationKind::Monitor)
        ) {
            return err_text("同步运行中，不能同时预览");
        }
        if op.is_some() {
            return self.busy(id);
        }
        self.operations.begin(id, OperationKind::Preview);
        self.previews.remove_profile(id);
        Ok(())
    }

    /// Starts sign-in for a profile that runs nothing.
    pub fn begin_authentication(&mut self, id: &str) -> (r: Result<(), String>)
        ensures
            old(self)@.operations.contains_key(id@) ==> (r matches Err(e) && e@ == busy_message(
                old(self)@,
                id@,
            )) && final(self)@ == old(self)@,
            !old(self)@.operations.contains_key(id@) ==> r is Ok && final(self)@ == with_running(
                old(self)@,
                id@,
                OperationKind::Authentication,
            ),
    {
        if self.operations.contains(id) {
            return self.busy(id);
        }
        self.operations.begin(id, OperationKind::Authentication);
        Ok(())
    }

    /// Stops continuous sync when it runs; otherwise starts it when nothing stands in
    /// the way.
    pub fn toggle_monitor(&mut self, id: &str, authenticated: bool) -> (r: Result<MonitorToggle, String>)
        ensures
            monitor_running(old(self)@, id@) ==> r == Ok::<MonitorToggle, String>(MonitorToggle::Stop)
                && final(self)@ == old(self)@,
            !monitor_running(old(self)@, id@) ==> match monitor_refusal(old(self)@, id@, authenticated) {
                Some(m) => (r matches Err(e) && e@ == m) && final(self)@ == old(self)@,
                None => r == Ok::<MonitorToggle, String>(MonitorToggle::Start) && final(self)@
                    == with_running(old(self)@, id@, OperationKind::Monitor),
            },
    {
        let op = self.operations.get(id);
        if matches!(op, Some(AccountOperation { kind: OperationKind::Monitor, .. })) {
            return Ok(MonitorToggle::Stop);
        }
        if !authenticated {
            return Err(lit("账号尚未完成认证"));
        }
        if !self.client_check.is_ready() {
            return Err(crate::present::client_check_message(&self.client_check));
        }
        if op.is_some() {
            let o = op.unwrap();
            return Err(concat("该账户正在执行", operation_label(o)));
        }
        self.operations.begin(id, OperationKind::Monitor);
        Ok(MonitorToggle::Start)
    }

    /// Marks the running one-time sync or preview (`monitor` false) or continuous sync
    /// (`monitor` true) as stopping; says so when there is none.
    pub fn request_stop(&mut self, id: &str, monitor: bool) -> (r: Result<(), String>)
        ensures
            ({
                let running = if monitor {
                    monitor_running(old(self)@, id@)
                } else {
                    sync_running(old(self)@, id@)
                };
                if running {
                    r is Ok && final(self)@ == with_operations(
                        old(self)@,
                        old(self)@.operations.insert(id@, stopping_spec(old(self)@.operations[id@])),
                    )
                } else {
                    (r matches Err(e) && e@ == (if monitor {
                        "持续同步未运行"@
                    } else {
                        "同步未运行"@
                    })) && final(self)@ == old(self)@
                }
            }),
    {
        let op = self.operations.get(id);
        let running = match op {
            Some(o) => if monitor {
                matches!(o.kind, OperationKind::Monitor)
            } else {
                matches!(o.kind, OperationKind::OneTimeSync | OperationKind::Preview)
            },
            None => false,
        };
        if !running {
            return if monitor {
                err_text("持续同步未运行")
            } else {
                err_text("同步未运行")
            };
        }
        self.operations.mark_stopping(id);
        Ok(())
    }

    /// A process could not be started or stopped: the profile runs nothing any more.
    pub fn abandon(&mut self, id: &str)
        ensures
            final(self)@ == with_operations(old(self)@, old(self)@.operations.remove(id@)),
    {
        self.operations.finish(id);
    }

    /// Whether a profile may be edited, signed out or removed: it runs nothing.
    pub fn can_mutate_profile(&self, id: &str) -> (r: bool)
        ensures
            r == !self@.operations.contains_key(id@),
    {
        !self.operations.contains(id)
    }

    /// Marks a previewed change as being applied and hands out what applying needs.
    pub fn begin_apply(&mut self, id: &str, change_id: &str) -> (r: Result<(Account, PreviewChange), String>)
        ensures
            match r {
                Ok((a, c)) => {
                    &&& account_spec(old(self)@.store, id@) == Some(a@)
                    &&& !old(self)@.applying.contains_key((id@, change_id@))
                    &&& old(self)@.previews.contains_key((id@, change_id@))
                    &&& preview_change_view(c) == preview_change_view(old(self)@.previews[(id@, change_id@)])
                    &&& final(self)@ == with_applying(
                        old(self)@,
                        old(self)@.applying.insert((id@, change_id@), ()),
                    )
                },
                Err(m) => {
                    &&& final(self)@ == old(self)@
                    &&& m@ == (if account_spec(old(self)@.store, id@) is None {
                        "该账号已不存在"@
                    } else if old(self)@.applying.contains_key((id@, change_id@)) {
                        "该变更正在应用"@
                    } else {
                        "该预览变更已不存在"@
                    })
                    &&& !(account_spec(old(self)@.store, id@) is Some && !old(self)@.applying.contains_key(
                        (id@, change_id@),
                    ) && old(self)@.previews.contains_key((id@, change_id@)))
                },
            },
    {
        let account = match self.store.position(id) {
            Some(i) => self.store.accounts[i].copy(),
            None => {
                return Err(lit("该账号已不存在"));
            },
        };
        if self.applying.contains(id, change_id) {
            return Err(lit("该变更正在应用"));
        }
        let change = match self.previews.get(id, change_id) {
            Some(c) => copy_preview_change(c),
            None => {
                return Err(lit("该预览变更已不存在"));
            },
        };
        self.applying.insert(id, change_id, ());
        Ok((account, change))
    }

    /// The user dropped a previewed change.
    pub fn dismiss_preview(&mut self, id: &str, change_id: &str) -> (r: String)
        ensures
            final(self)@ == with_previews(old(self)@, old(self)@.previews.remove((id@, change_id@))),
            r@ == "已放弃该变更"@,
    {
        self.previews.remove(id, change_id);
        lit("已放弃该变更")
    }

    /// Removes a profile from the list and moves the selection one up (staying at the
    /// first); the profile's files stay on disk.
    pub fn remove_profile(&mut self, id: &str)
        ensures
            final(self)@ == (SessionView {
                store: without_id(old(self)@.store, id@),
                selected_index: if old(self)@.selected_index > 0 {
                    (old(self)@.selected_index - 1) as usize
                } else {
                    0
                },
                ..old(self)@
            }),
    {
        self.store.remove(id);
        if self.selected_index > 0 {
            self.selected_index = self.selected_index - 1;
        }
    }

    /// Keeps the selection on a profile after the list changed: the last one when it
    /// pointed past the end.
    pub fn clamp_selection(&mut self)
        ensures
            old(self)@.store.len() == 0 ==> final(self)@ == old(self)@,
            old(self)@.store.len() > 0 ==> final(self)@ == (SessionView {
                selected_index: if old(self)@.selected_index < old(self)@.store.len() {
                    old(self)@.selected_index
                } else {
                    (old(self)@.store.len() - 1) as usize
                },
                ..old(self)@
            }),
    {
        let n = self.store.accounts.len();
        if n > 0 && self.selected_index >= n {
            self.selected_index = n - 1;
        }
    }

    /// The runtime the selected profile's buttons show.
    pub fn runtime_of(&self, id: &str) -> (r: CommandRuntime)
        ensures
            r == runtime_for_spec(
                if self@.operations.contains_key(id@) {
                    Some(self@.operations[id@])
                } else {
                    None
                },
            ),
    {
        runtime_for(self.operations.get(id))
    }
}

/// A one-time sync or a preview that was started can be stopped: the profile counts as
/// running it (also with the previews a preview start drops), not as running continuous
/// sync, and stopping keeps its kind and marks it stopping. Continuous sync counts as
/// continuous sync only.
pub proof fn law_started_sync_or_preview_can_be_stopped(
    s: SessionView,
    id: Seq<char>,
    kind: OperationKind,
    previews: Map<PairKey, PreviewChange>,
)
    requires
        kind == OperationKind::OneTimeSync || kind == OperationKind::Preview,
    ensures
        sync_running(with_running(s, id, kind), id),
        sync_running(with_previews(with_running(s, id, kind), previews), id),
        !monitor_running(with_running(s, id, kind), id),
        stopping_spec(with_running(s, id, kind).operations[id]) == (AccountOperation {
            kind,
            phase: OperationPhase::Stopping,
        }),
        monitor_running(with_running(s, id, OperationKind::Monitor), id),
        !sync_running(with_running(s, id, OperationKind::Monitor), id),
{
}

} // verus!
