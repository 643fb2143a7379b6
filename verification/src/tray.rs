//! The system-tray menu: a snapshot of the profiles and what each offers.
use vstd::prelude::*;

use crate::operation::model::{AccountOperation, OperationKind, OperationPhase};
use crate::operation::registry::OperationRegistry;
use crate::present::lit;
use crate::profile::store::{Account, AccountStatus};
use crate::text::{concat, decimal, decimal_string};

verus! {

/// The state of a profile as the tray shows it.
#[derive(Debug, Clone)]
pub enum TrayAccountStatus {
    NeedsAuth,
    Authenticated,
    Error(String),
}

/// The operation a profile runs, as the tray shows it.
#[derive(Debug, Clone, Copy, PartialEq, Eq)]
pub struct TrayOperation {
    pub kind: OperationKind,
    pub phase: OperationPhase,
}

#[derive(Debug, Clone)]
pub struct TrayAccount {
    pub id: String,
    pub name: String,
    pub status: TrayAccountStatus,
    pub operation: Option<TrayOperation>,
}

/// What the tray menu is built from; it is handed to the tray's own thread.
#[derive(Debug, Clone)]
pub struct TraySnapshot {
    pub accounts: Vec<TrayAccount>,
}

/// What a tray menu entry asks the UI thread to do.
#[derive(Debug, Clone, PartialEq, Eq)]
pub enum TrayAction {
    Present,
    Quit,
    Sync(String),
    Monitor(String),
    Stop(String),
    Auth(String),
    OpenDir(String),
}

pub enum TrayActionView {
    Present,
    Quit,
    Sync(Seq<char>),
    Monitor(Seq<char>),
    Stop(Seq<char>),
    Auth(Seq<char>),
    OpenDir(Seq<char>),
}

impl View for TrayAction {
    type V = TrayActionView;

    open spec fn view(&self) -> TrayActionView {
        match self {
            TrayAction::Present => TrayActionView::Present,
            TrayAction::Quit => TrayActionView::Quit,
            TrayAction::Sync(s) => TrayActionView::Sync(s@),
            TrayAction::Monitor(s) => TrayActionView::Monitor(s@),
            TrayAction::Stop(s) => TrayActionView::Stop(s@),
            TrayAction::Auth(s) => TrayActionView::Auth(s@),
            TrayAction::OpenDir(s) => TrayActionView::OpenDir(s@),
        }
    }
}

/// One clickable line of the tray menu.
#[derive(Debug, Clone)]
pub struct MenuEntry {
    pub label: String,
    pub enabled: bool,
    pub action: Option<TrayAction>,
}

pub struct MenuEntryView {
    pub label: Seq<char>,
    pub enabled: bool,
    pub action: Option<TrayActionView>,
}

impl View for MenuEntry {
    type V = MenuEntryView;

    open spec fn view(&self) -> MenuEntryView {
        MenuEntryView {
            label: self.label@,
            enabled: self.enabled,
            action: match self.action {
                Some(a) => Some(a@),
                None => None,
            },
        }
    }
}

/// A top-level item of the tray menu.
#[derive(Debug, Clone)]
pub enum TrayMenuItem {
    Entry(MenuEntry),
    Separator,
    /// A profile's submenu, titled with its name.
    SubMenu(String, Vec<MenuEntry>),
}

pub open spec fn entries_view(v: Seq<MenuEntry>) -> Seq<MenuEntryView> {
    v.map_values(|e: MenuEntry| e@)
}

pub open spec fn entry(label: Seq<char>, enabled: bool, action: Option<TrayActionView>) -> MenuEntryView {
    MenuEntryView { label, enabled, action }
}

/// A line for the sync (or the monitor) command of an authenticated profile: a stop
/// while that command runs, the start otherwise, enabled only when nothing runs.
pub open spec fn command_entry(
    runs_it: bool,
    stopping: bool,
    has_op: bool,
    start_label: Seq<char>,
    start: TrayActionView,
    id: Seq<char>,
) -> MenuEntryView {
    if runs_it && stopping {
        entry("正在停止…"@, false, None)
    } else if runs_it {
        entry("停止"@, true, Some(TrayActionView::Stop(id)))
    } else {
        entry(start_label, !has_op, Some(start))
    }
}

/// The submenu of a profile.
pub open spec fn account_entries_spec(
    id: Seq<char>,
    authenticated: bool,
    op: Option<TrayOperation>,
) -> Seq<MenuEntryView> {
    let is_sync = op matches Some(o) && o.kind == OperationKind::OneTimeSync;
    let is_monitor = op matches Some(o) && o.kind == OperationKind::Monitor;
    let stopping = op matches Some(o) && o.phase == OperationPhase::Stopping;
    let has_op = op is Some;
    (if authenticated {
        seq![
            entry("已认证"@, false, None),
            command_entry(is_sync, stopping, has_op, "手动同步"@, TrayActionView::Sync(id), id),
            command_entry(is_monitor, stopping, has_op, "自动同步"@, TrayActionView::Monitor(id), id),
        ]
    } else {
        seq![entry("重新认证"@, true, Some(TrayActionView::Auth(id)))]
    }) + seq![entry("打开同步目录"@, true, Some(TrayActionView::OpenDir(id)))]
}

fn menu_entry(label: &str, enabled: bool, action: Option<TrayAction>) -> (r: MenuEntry)
    ensures
        r.label@ == label@,
        r.enabled == enabled,
        r.action == action,
{
    MenuEntry { label: lit(label), enabled, action }
}

fn command_line(
    runs_it: bool,
    stopping: bool,
    has_op: bool,
    start_label: &str,
    start: TrayAction,
    id: &String,
) -> (r: MenuEntry)
    ensures
        r@ == command_entry(runs_it, stopping, has_op, start_label@, start@, id@),
{
    if runs_it && stopping {
        menu_entry("正在停止…", false, None)
    } else if runs_it {
        menu_entry("停止", true, Some(TrayAction::Stop(id.clone())))
    } else {
        menu_entry(start_label, !has_op, Some(start))
    }
}

/// The submenu of one profile: sign in again when it needs to, otherwise its sync and
/// monitor commands; and always its sync folder.
pub fn build_account_submenu(account: &TrayAccount) -> (r: Vec<MenuEntry>)
    ensures
        entries_view(r@) == account_entries_spec(
            account.id@,
            account.status is Authenticated,
            account.operation,
        ),
{
    let id = &account.id;
    let mut sub: Vec<MenuEntry> = Vec::new();
    match &account.status {
        TrayAccountStatus::Authenticated => {
            let (is_sync, is_monitor, stopping, has_op) = match account.operation {
                Some(o) => (
                    matches!(o.kind, OperationKind::OneTimeSync),
                    matches!(o.kind, OperationKind::Monitor),
                    matches!(o.phase, OperationPhase::Stopping),
                    true,
                ),
                None => (false, false, false, false),
            };
            sub.push(menu_entry("已认证", false, None));
            sub.push(
                command_line(is_sync, stopping, has_op, "手动同步", TrayAction::Sync(id.clone()), id),
            );
            sub.push(
                command_line(
                    is_monitor,
                    stopping,
                    has_op,
                    "自动同步",
                    TrayAction::Monitor(id.clone()),
                    id,
                ),
            );
        },
        _ => {
            sub.push(menu_entry("重新认证", true, Some(TrayAction::Auth(id.clone()))));
        },
    }
    sub.push(menu_entry("打开同步目录", true, Some(TrayAction::OpenDir(id.clone()))));
    assert(entries_view(sub@) =~= account_entries_spec(
        account.id@,
        account.status is Authenticated,
        account.operation,
    ));
    sub
}

/// The tray tooltip: how many profiles there are.
pub open spec fn tooltip_spec(n: nat) -> Seq<char> {
    if n == 0 {
        "未配置账号"@
    } else {
        decimal(n) + " 个账号"@
    }
}

pub fn tool_tip_description(snapshot: &TraySnapshot) -> (r: String)
    requires
        snapshot.accounts@.len() <= u64::MAX,
    ensures
        r@ == tooltip_spec(snapshot.accounts@.len()),
{
    let n = snapshot.accounts.len();
    if n == 0 {
        lit("未配置账号")
    } else {
        let count = decimal_string(n as u64);
        concat(count.as_str(), " 个账号")
    }
}

/// What a top-level menu item is, with the view of its entries.
pub enum MenuItemView {
    Entry(MenuEntryView),
    Separator,
    SubMenu(Seq<char>, Seq<MenuEntryView>),
}

pub open spec fn menu_item_view(i: TrayMenuItem) -> MenuItemView {
    match i {
        TrayMenuItem::Entry(e) => MenuItemView::Entry(e@),
        TrayMenuItem::Separator => MenuItemView::Separator,
        TrayMenuItem::SubMenu(l, es) => MenuItemView::SubMenu(l@, entries_view(es@)),
    }
}

pub open spec fn account_item_spec(a: TrayAccount) -> MenuItemView {
    MenuItemView::SubMenu(
        a.name@,
        account_entries_spec(a.id@, a.status is Authenticated, a.operation),
    )
}

/// The tray menu: open the window, one submenu per profile (after a separator, when
/// there are any), and quit.
pub open spec fn menu_spec(accounts: Seq<TrayAccount>) -> Seq<MenuItemView> {
    seq![MenuItemView::Entry(entry("打开 OneSync"@, true, Some(TrayActionView::Present)))] + (if accounts.len()
        == 0 {
        Seq::empty()
    } else {
        seq![MenuItemView::Separator] + account_items_spec(accounts)
    }) + seq![
        MenuItemView::Separator,
        MenuItemView::Entry(entry("退出 OneSync"@, true, Some(TrayActionView::Quit))),
    ]
}

pub open spec fn items_view(v: Seq<TrayMenuItem>) -> Seq<MenuItemView> {
    v.map_values(|i: TrayMenuItem| menu_item_view(i))
}

pub open spec fn account_items_spec(accounts: Seq<TrayAccount>) -> Seq<MenuItemView> {
    accounts.map_values(|a: TrayAccount| account_item_spec(a))
}

pub fn menu(snapshot: &TraySnapshot) -> (r: Vec<TrayMenuItem>)
    ensures
        items_view(r@) == menu_spec(snapshot.accounts@),
{
    let mut items: Vec<TrayMenuItem> = Vec::new();
    items.push(TrayMenuItem::Entry(menu_entry("打开 OneSync", true, Some(TrayAction::Present))));
    let ghost head = items_view(items@);
    if snapshot.accounts.len() > 0 {
        items.push(TrayMenuItem::Separator);
        let ghost start = items_view(items@);
        let mut i: usize = 0;
        assert(account_items_spec(snapshot.accounts@.take(0)) =~= Seq::<MenuItemView>::empty());
        assert(items_view(items@) =~= start + account_items_spec(snapshot.accounts@.take(0)));
        while i < snapshot.accounts.len()
            invariant
                i <= snapshot.accounts@.len(),
                items_view(items@) == start + account_items_spec(snapshot.accounts@.take(i as int)),
            decreases snapshot.accounts.len() - i,
        {
            let a = &snapshot.accounts[i];
            let sub = build_account_submenu(a);
            let ghost before = items@;
            items.push(TrayMenuItem::SubMenu(a.name.clone(), sub));
            proof {
                assert(items_view(items@) =~= items_view(before).push(account_item_spec(*a)));
                assert(account_items_spec(snapshot.accounts@.take(i + 1)) =~= account_items_spec(
                    snapshot.accounts@.take(i as int),
                ).push(account_item_spec(snapshot.accounts@[i as int])));
            }
            i += 1;
        }
        assert(snapshot.accounts@.take(snapshot.accounts@.len() as int) =~= snapshot.accounts@);
    }
    let ghost mid = items@;
    items.push(TrayMenuItem::Separator);
    items.push(TrayMenuItem::Entry(menu_entry("退出 OneSync", true, Some(TrayAction::Quit))));
    assert(items_view(items@) =~= items_view(mid) + seq![
        MenuItemView::Separator,
        MenuItemView::Entry(entry("退出 OneSync"@, true, Some(TrayActionView::Quit))),
    ]);
    assert(items_view(items@) =~= menu_spec(snapshot.accounts@));
    items
}

/// The tray's state of a profile.
fn tray_status(s: &AccountStatus) -> (r: TrayAccountStatus)
    ensures
        (r is Authenticated) == (s is Authenticated),
        (r is NeedsAuth) == (s is NeedsAuth),
{
    match s {
        AccountStatus::NeedsAuth => TrayAccountStatus::NeedsAuth,
        AccountStatus::Authenticated => TrayAccountStatus::Authenticated,
        AccountStatus::Error(m) => TrayAccountStatus::Error(m.clone()),
    }
}

/// The snapshot of the profiles and the operations they run.
pub fn build_snapshot(accounts: &[Account], ops: &OperationRegistry) -> (r: TraySnapshot)
    ensures
        r.accounts@.len() == accounts@.len(),
        forall|i: int|
            0 <= i < accounts@.len() ==> {
                let t = #[trigger] r.accounts@[i];
                &&& t.id@ == accounts@[i].id@
                &&& t.name@ == accounts@[i].name@
                &&& (t.status is Authenticated) == (accounts@[i].status is Authenticated)
                &&& (t.status is NeedsAuth) == (accounts@[i].status is NeedsAuth)
                &&& t.operation == (if ops@.contains_key(accounts@[i].id@) {
                    Some(
                        TrayOperation {
                            kind: ops@[accounts@[i].id@].kind,
                            phase: ops@[accounts@[i].id@].phase,
                        },
                    )
                } else {
                    None
                })
            },
{
    let mut out: Vec<TrayAccount> = Vec::new();
    let mut i: usize = 0;
    while i < accounts.len()
        invariant
            i <= accounts@.len(),
            out@.len() == i,
            forall|j: int|
                0 <= j < i ==> {
                    let t = #[trigger] out@[j];
                    &&& t.id@ == accounts@[j].id@
                    &&& t.name@ == accounts@[j].name@
                    &&& (t.status is Authenticated) == (accounts@[j].status is Authenticated)
                    &&& (t.status is NeedsAuth) == (accounts@[j].status is NeedsAuth)
                    &&& t.operation == (if ops@.contains_key(accounts@[j].id@) {
                        Some(
                            TrayOperation {
                                kind: ops@[accounts@[j].id@].kind,
                                phase: ops@[accounts@[j].id@].phase,
                            },
                        )
                    } else {
                        None
                    })
                },
        decreases accounts.len() - i,
    {
        let a = &accounts[i];
        let operation = match ops.get(a.id.as_str()) {
            Some(op) => Some(TrayOperation { kind: op.kind, phase: op.phase }),
            None => None,
        };
        out.push(
            TrayAccount {
                id: a.id.clone(),
                name: a.name.clone(),
                status: tray_status(&a.status),
                operation,
            },
        );
        i += 1;
    }
    TraySnapshot { accounts: out }
}

/// Which stop a tray "停止" asks for: continuous sync (`Some(true)`), a one-time sync or
/// preview (`Some(false)`), or nothing when the profile runs neither.
pub fn stop_target(op: Option<AccountOperation>) -> (r: Option<bool>)
    ensures
        r == (match op {
            Some(o) => match o.kind {
                OperationKind::Monitor => Some(true),
                OperationKind::OneTimeSync => Some(false),
                OperationKind::Preview => Some(false),
                OperationKind::Authentication => None::<bool>,
            },
            None => None,
        }),
{
    match op {
        Some(o) => match o.kind {
            OperationKind::Monitor => Some(true),
            OperationKind::OneTimeSync | OperationKind::Preview => Some(false),
            OperationKind::Authentication => None,
        },
        None => None,
    }
}

/// Whether an entry starts a sync or continuous sync and can be clicked.
pub open spec fn starts_command(e: MenuEntryView) -> bool {
    e.enabled && (e.action matches Some(TrayActionView::Sync(_)) || e.action matches Some(
        TrayActionView::Monitor(_),
    ))
}

/// The tray never offers to start a command for a profile that already runs one; a
/// profile that is not authenticated is offered only signing in and its folder.
pub proof fn law_tray_offers_no_start_while_busy(
    id: Seq<char>,
    authenticated: bool,
    op: Option<TrayOperation>,
)
    ensures
        forall|i: int|
            0 <= i < account_entries_spec(id, authenticated, op).len() && starts_command(
                #[trigger] account_entries_spec(id, authenticated, op)[i],
            ) ==> op is None,
        !authenticated ==> account_entries_spec(id, authenticated, op) == seq![
            entry("重新认证"@, true, Some(TrayActionView::Auth(id))),
            entry("打开同步目录"@, true, Some(TrayActionView::OpenDir(id))),
        ],
{
    let es = account_entries_spec(id, authenticated, op);
    if !authenticated {
        assert(es =~= seq![
            entry("重新认证"@, true, Some(TrayActionView::Auth(id))),
            entry("打开同步目录"@, true, Some(TrayActionView::OpenDir(id))),
        ]);
    }
}

} // verus!
