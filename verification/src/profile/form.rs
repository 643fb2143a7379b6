//! The profile editor: the choices it offers, the summaries it shows, and the edit
//! it builds from what the user entered.
use vstd::prelude::*;

use super::config::{normalize_lines, normalized_lines, strs, ConfigEdit, ConfigEditView};
use super::edit::ProfileEditOutcome;
use super::store::{Account, AccountStatus, AccountStore, AccountView, find_index};
use crate::present::{lit, status_label, status_label_spec};
use crate::text::{chars_of, concat, decimal, decimal_string, push_char, push_str, str_eq, string_of, trim, trim_chars, CharClass};

verus! {

/// Which way a profile syncs.
#[derive(Debug, Clone, Copy, PartialEq, Eq)]
pub enum SyncDirectionChoice {
    Bidirectional,
    DownloadOnly,
    UploadOnly,
}

/// The direction an edit stands for: download-only wins over upload-only.
pub open spec fn direction_of(e: ConfigEditView) -> SyncDirectionChoice {
    if e.download_only {
        SyncDirectionChoice::DownloadOnly
    } else if e.upload_only {
        SyncDirectionChoice::UploadOnly
    } else {
        SyncDirectionChoice::Bidirectional
    }
}

impl SyncDirectionChoice {
    pub fn from_edit(edit: &ConfigEdit) -> (r: Self)
        ensures
            r == direction_of(edit@),
    {
        if edit.download_only {
            SyncDirectionChoice::DownloadOnly
        } else if edit.upload_only {
            SyncDirectionChoice::UploadOnly
        } else {
            SyncDirectionChoice::Bidirectional
        }
    }
}

/// What a profile syncs: everything, everything but some rules, or only a list.
#[derive(Debug, Clone, Copy, PartialEq, Eq)]
pub enum ScopeChoice {
    All,
    Exclude,
    Include,
}

/// The scope an edit stands for: a selective-sync list wins over skip rules.
pub open spec fn scope_of(e: ConfigEditView) -> ScopeChoice {
    if trim(e.sync_list).len() > 0 {
        ScopeChoice::Include
    } else if e.skip_file.len() > 0 || e.skip_dir.len() > 0 {
        ScopeChoice::Exclude
    } else {
        ScopeChoice::All
    }
}

impl ScopeChoice {
    pub fn from_edit(edit: &ConfigEdit) -> (r: Self)
        ensures
            r == scope_of(edit@),
    {
        let t = trim_chars(&chars_of(edit.sync_list.as_str()), CharClass::Whitespace);
        if t.len() > 0 {
            ScopeChoice::Include
        } else if edit.skip_file.len() > 0 || edit.skip_dir.len() > 0 {
            ScopeChoice::Exclude
        } else {
            ScopeChoice::All
        }
    }
}

/// The pages of the profile editor.
#[derive(Debug, Clone, Copy, PartialEq, Eq)]
pub enum EditPage {
    Overview,
    AccountLocation,
    SyncScope,
    SyncDirection,
    Monitor,
    Remove,
}

impl EditPage {
    /// The page shown under a stack name; unknown names are the overview.
    pub fn from_stack_name(name: &str) -> (r: Self)
        ensures
            r == (if name@ == "account-location"@ {
                EditPage::AccountLocation
            } else if name@ == "sync-scope"@ {
                EditPage::SyncScope
            } else if name@ == "sync-direction"@ {
                EditPage::SyncDirection
            } else if name@ == "monitor"@ {
                EditPage::Monitor
            } else if name@ == "remove"@ {
                EditPage::Remove
            } else {
                EditPage::Overview
            }),
    {
        if str_eq(name, "account-location") {
            EditPage::AccountLocation
        } else if str_eq(name, "sync-scope") {
            EditPage::SyncScope
        } else if str_eq(name, "sync-direction") {
            EditPage::SyncDirection
        } else if str_eq(name, "monitor") {
            EditPage::Monitor
        } else if str_eq(name, "remove") {
            EditPage::Remove
        } else {
            EditPage::Overview
        }
    }

    /// Every page but the overview goes back to the overview when closed.
    pub fn is_sub_page(self) -> (r: bool)
        ensures
            r == (self != EditPage::Overview),
    {
        match self {
            EditPage::Overview => false,
            _ => true,
        }
    }
}

// ---------------------------------------------------------------------------
// Summaries on the overview page
// ---------------------------------------------------------------------------

pub open spec fn direction_title_spec(choice: SyncDirectionChoice, no_remote_delete: bool) -> Seq<char> {
    match choice {
        SyncDirectionChoice::Bidirectional => "双向同步"@,
        SyncDirectionChoice::DownloadOnly => "只下载到本机"@,
        SyncDirectionChoice::UploadOnly => if no_remote_delete {
            "只上传到 OneDrive · 保护云端文件"@
        } else {
            "只上传到 OneDrive"@
        },
    }
}

pub fn direction_title(choice: SyncDirectionChoice, no_remote_delete: bool) -> (r: String)
    ensures
        r@ == direction_title_spec(choice, no_remote_delete),
{
    match choice {
        SyncDirectionChoice::Bidirectional => lit("双向同步"),
        SyncDirectionChoice::DownloadOnly => lit("只下载到本机"),
        SyncDirectionChoice::UploadOnly => if no_remote_delete {
            lit("只上传到 OneDrive · 保护云端文件")
        } else {
            lit("只上传到 OneDrive")
        },
    }
}

/// How much of the drive a profile syncs, in words.
pub open spec fn scope_summary_spec(e: ConfigEditView) -> Seq<char> {
    let n = normalized_lines(e.sync_list).len();
    if n > 0 {
        "只同步 "@ + decimal(n) + " 个路径"@
    } else if e.skip_file.len() > 0 || e.skip_dir.len() > 0 {
        "忽略 "@ + decimal(e.skip_file.len()) + " 个文件规则，"@ + decimal(e.skip_dir.len())
            + " 个目录规则"@
    } else {
        "全部内容"@
    }
}

pub fn scope_summary(edit: &ConfigEdit) -> (r: String)
    ensures
        r@ == scope_summary_spec(edit@),
{
    let paths = normalize_lines(edit.sync_list.as_str());
    if paths.len() > 0 {
        assert(strs(paths@).len() == paths@.len());
        let n = decimal_string(paths.len() as u64);
        let mut s = lit("只同步 ");
        push_str(&mut s, n.as_str());
        push_str(&mut s, " 个路径");
        return s;
    }
    assert(strs(paths@).len() == 0);
    if edit.skip_file.len() > 0 || edit.skip_dir.len() > 0 {
        let a = decimal_string(edit.skip_file.len() as u64);
        let b = decimal_string(edit.skip_dir.len() as u64);
        let mut s = lit("忽略 ");
        push_str(&mut s, a.as_str());
        push_str(&mut s, " 个文件规则，");
        push_str(&mut s, b.as_str());
        push_str(&mut s, " 个目录规则");
        return s;
    }
    lit("全部内容")
}

/// The monitor settings, in words; blank values are onedrive's defaults.
pub open spec fn monitor_summary_spec(e: ConfigEditView) -> Seq<char> {
    let i = trim(e.monitor_interval);
    let f = trim(e.monitor_fullscan_frequency);
    if i.len() == 0 && f.len() == 0 {
        "使用 onedrive 默认值"@
    } else if f.len() == 0 {
        "每 "@ + i + " 秒检查"@
    } else if i.len() == 0 {
        "每 "@ + f + " 次检查后完整扫描"@
    } else {
        "每 "@ + i + " 秒检查 · 每 "@ + f + " 次检查后完整扫描"@
    }
}

pub fn monitor_summary(edit: &ConfigEdit) -> (r: String)
    ensures
        r@ == monitor_summary_spec(edit@),
{
    let i = string_of(trim_chars(&chars_of(edit.monitor_interval.as_str()), CharClass::Whitespace).as_slice());
    let f = string_of(
        trim_chars(&chars_of(edit.monitor_fullscan_frequency.as_str()), CharClass::Whitespace).as_slice(),
    );
    let ie = chars_of(i.as_str()).len() == 0;
    let fe = chars_of(f.as_str()).len() == 0;
    if ie && fe {
        lit("使用 onedrive 默认值")
    } else if fe {
        let mut s = concat("每 ", i.as_str());
        push_str(&mut s, " 秒检查");
        s
    } else if ie {
        let mut s = concat("每 ", f.as_str());
        push_str(&mut s, " 次检查后完整扫描");
        s
    } else {
        let mut s = concat("每 ", i.as_str());
        push_str(&mut s, " 秒检查 · 每 ");
        push_str(&mut s, f.as_str());
        push_str(&mut s, " 次检查后完整扫描");
        s
    }
}

/// The profile's name and state, as the overview's first row shows them.
pub fn account_location_summary(account: &Account) -> (r: String)
    ensures
        r@ == account.name@ + "·"@ + status_label_spec(account.status@),
{
    let mut s = concat(account.name.as_str(), "·");
    push_str(&mut s, status_label(&account.status));
    s
}

/// Whether the editor starts with onedrive's monitor defaults (both values blank).
pub fn monitor_uses_default(edit: &ConfigEdit) -> (r: bool)
    ensures
        r == (trim(edit.monitor_interval@).len() == 0 && trim(edit.monitor_fullscan_frequency@).len()
            == 0),
{
    trim_chars(&chars_of(edit.monitor_interval.as_str()), CharClass::Whitespace).len() == 0
        && trim_chars(&chars_of(edit.monitor_fullscan_frequency.as_str()), CharClass::Whitespace).len()
        == 0
}

/// Signing out and removing stay available while nothing runs, and always for a
/// profile that is not signed in.
pub fn danger_actions_available(can_mutate: bool, status: &AccountStatus) -> (r: bool)
    ensures
        r == (can_mutate || !(status is Authenticated)),
{
    can_mutate || !matches!(status, AccountStatus::Authenticated)
}

// ---------------------------------------------------------------------------
// Rules
// ---------------------------------------------------------------------------

/// The rules a rule list holds: trimmed, blank ones and repeats left out, in order.
pub open spec fn rules_spec(vs: Seq<Seq<char>>) -> Seq<Seq<char>>
    decreases vs.len(),
{
    if vs.len() == 0 {
        Seq::empty()
    } else {
        let acc = rules_spec(vs.drop_last());
        let t = trim(vs.last());
        if t.len() > 0 && !acc.contains(t) {
            acc.push(t)
        } else {
            acc
        }
    }
}

fn contains_text(v: &Vec<String>, t: &str) -> (r: bool)
    ensures
        r == strs(v@).contains(t@),
{
    let mut i: usize = 0;
    while i < v.len()
        invariant
            i <= v@.len(),
            forall|j: int| 0 <= j < i ==> #[trigger] v@[j]@ != t@,
        decreases v.len() - i,
    {
        if str_eq(v[i].as_str(), t) {
            assert(strs(v@)[i as int] == t@);
            return true;
        }
        i += 1;
    }
    proof {
        if strs(v@).contains(t@) {
            let k = choose|k: int| 0 <= k < strs(v@).len() && strs(v@)[k] == t@;
            assert(v@[k]@ == t@);
        }
    }
    false
}

/// The rules of a rule list, from the texts of its rows.
pub fn collect_rule_values(rows: &[String]) -> (r: Vec<String>)
    ensures
        strs(r@) == rules_spec(strs(rows@)),
{
    let mut values: Vec<String> = Vec::new();
    let mut i: usize = 0;
    while i < rows.len()
        invariant
            i <= rows@.len(),
            strs(values@) == rules_spec(strs(rows@.take(i as int))),
        decreases rows.len() - i,
    {
        let t = string_of(trim_chars(&chars_of(rows[i].as_str()), CharClass::Whitespace).as_slice());
        let fresh = chars_of(t.as_str()).len() > 0 && !contains_text(&values, t.as_str());
        let ghost before = values@;
        proof {
            assert(strs(rows@.take(i + 1)).drop_last() =~= strs(rows@.take(i as int)));
            assert(strs(rows@.take(i + 1)).last() == rows@[i as int]@);
        }
        if fresh {
            values.push(t);
            assert(strs(values@) =~= strs(before).push(trim(rows@[i as int]@)));
        }
        i += 1;
    }
    assert(rows@.take(rows@.len() as int) =~= rows@);
    values
}

/// The rule an entry adds to a list: its trimmed text, unless blank or already there.
pub fn rule_to_add(entry: &str, rows: &[String]) -> (r: Option<String>)
    ensures
        (trim(entry@).len() == 0 || rules_spec(strs(rows@)).contains(trim(entry@))) ==> r is None,
        !(trim(entry@).len() == 0 || rules_spec(strs(rows@)).contains(trim(entry@))) ==> (r matches Some(
            v,
        ) && v@ == trim(entry@)),
{
    let value = string_of(trim_chars(&chars_of(entry), CharClass::Whitespace).as_slice());
    let current = collect_rule_values(rows);
    if chars_of(value.as_str()).len() == 0 || contains_text(&current, value.as_str()) {
        None
    } else {
        Some(value)
    }
}

// ---------------------------------------------------------------------------
// The edit the form builds
// ---------------------------------------------------------------------------

/// What the profile editor holds when the user saves.
#[derive(Debug, Clone)]
pub struct EditForm {
    pub sync_dir: String,
    pub scope: ScopeChoice,
    /// The row texts of the three rule lists.
    pub skip_file: Vec<String>,
    pub skip_dir: Vec<String>,
    pub sync_list: Vec<String>,
    pub direction: SyncDirectionChoice,
    pub no_remote_delete: bool,
    /// The monitor interval and full-scan frequency, rounded; nothing when
    /// onedrive's defaults are used.
    pub monitor: Option<(i32, i32)>,
}

/// Pieces joined with a line break between them.
pub open spec fn join_lines(pieces: Seq<Seq<char>>) -> Seq<char>
    decreases pieces.len(),
{
    if pieces.len() == 0 {
        Seq::empty()
    } else if pieces.len() == 1 {
        pieces[0]
    } else {
        join_lines(pieces.drop_last()) + seq!['\n'] + pieces.last()
    }
}

pub open spec fn at_least(v: i32, low: int) -> nat {
    if v < low {
        low as nat
    } else {
        v as nat
    }
}

/// The edit a saved form makes of the original settings.
pub open spec fn form_edit_spec(original: ConfigEditView, f: EditForm) -> ConfigEditView {
    let (interval, fullscan) = match f.monitor {
        Some((i, s)) => (decimal(at_least(i, 1)), decimal(at_least(s, 0))),
        None => (Seq::empty(), Seq::empty()),
    };
    let (skip_file, skip_dir, sync_list) = match f.scope {
        ScopeChoice::Exclude => (rules_spec(strs(f.skip_file@)), rules_spec(strs(f.skip_dir@)), Seq::empty()),
        ScopeChoice::Include => (Seq::empty(), Seq::empty(), join_lines(rules_spec(strs(f.sync_list@)))),
        ScopeChoice::All => (Seq::empty(), Seq::empty(), Seq::empty()),
    };
    let (download_only, upload_only, no_remote_delete) = match f.direction {
        SyncDirectionChoice::Bidirectional => (false, false, false),
        SyncDirectionChoice::DownloadOnly => (true, false, false),
        SyncDirectionChoice::UploadOnly => (false, true, f.no_remote_delete),
    };
    ConfigEditView {
        sync_dir: trim(f.sync_dir@),
        skip_file,
        skip_dir,
        sync_list,
        download_only,
        upload_only,
        no_remote_delete,
        monitor_interval: interval,
        monitor_fullscan_frequency: fullscan,
    }
}

fn join_with_newlines(v: &Vec<String>) -> (r: String)
    ensures
        r@ == join_lines(strs(v@)),
{
    let mut s = String::new();
    let mut i: usize = 0;
    while i < v.len()
        invariant
            i <= v@.len(),
            s@ == join_lines(strs(v@).take(i as int)),
        decreases v.len() - i,
    {
        let ghost before = s@;
        if i > 0 {
            push_char(&mut s, '\n');
        }
        push_str(&mut s, v[i].as_str());
        proof {
            let t = strs(v@).take(i + 1);
            assert(t.drop_last() =~= strs(v@).take(i as int));
            assert(t.last() == v@[i as int]@);
            if i == 0 {
                assert(strs(v@).take(0) =~= Seq::<Seq<char>>::empty());
                assert(s@ =~= t[0]);
            } else {
                assert(s@ =~= before + seq!['\n'] + t.last());
            }
        }
        i += 1;
    }
    assert(strs(v@).take(v@.len() as int) =~= strs(v@));
    s
}

fn count_text(v: i32, low: i32) -> (r: String)
    requires
        low >= 0,
    ensures
        r@ == decimal(at_least(v, low as int)),
{
    let n: i32 = if v < low {
        low
    } else {
        v
    };
    decimal_string(n as u64)
}

/// Builds the edit from a saved form; the sync directory must not be blank.
pub fn collect_config_edit(original: &ConfigEdit, form: &EditForm) -> (r: Result<ConfigEdit, String>)
    ensures
        match r {
            Ok(e) => trim(form.sync_dir@).len() > 0 && e@ == form_edit_spec(original@, *form),
            Err(m) => trim(form.sync_dir@).len() == 0 && m@ == "同步目录不能为空"@,
        },
{
    let sync_dir = string_of(trim_chars(&chars_of(form.sync_dir.as_str()), CharClass::Whitespace).as_slice());
    if chars_of(sync_dir.as_str()).len() == 0 {
        return Err(lit("同步目录不能为空"));
    }
    let (monitor_interval, monitor_fullscan_frequency) = match form.monitor {
        Some((i, f)) => (count_text(i, 1), count_text(f, 0)),
        None => (String::new(), String::new()),
    };
    let mut edit = original.copy();
    edit.sync_dir = sync_dir;
    edit.monitor_interval = monitor_interval;
    edit.monitor_fullscan_frequency = monitor_fullscan_frequency;
    match form.scope {
        ScopeChoice::Exclude => {
            edit.skip_file = collect_rule_values(form.skip_file.as_slice());
            edit.skip_dir = collect_rule_values(form.skip_dir.as_slice());
            edit.sync_list = String::new();
        },
        ScopeChoice::Include => {
            edit.skip_file = Vec::new();
            edit.skip_dir = Vec::new();
            let rules = collect_rule_values(form.sync_list.as_slice());
            edit.sync_list = join_with_newlines(&rules);
        },
        ScopeChoice::All => {
            edit.skip_file = Vec::new();
            edit.skip_dir = Vec::new();
            edit.sync_list = String::new();
        },
    }
    match form.direction {
        SyncDirectionChoice::Bidirectional => {
            edit.download_only = false;
            edit.upload_only = false;
            edit.no_remote_delete = false;
        },
        SyncDirectionChoice::DownloadOnly => {
            edit.download_only = true;
            edit.upload_only = false;
            edit.no_remote_delete = false;
        },
        SyncDirectionChoice::UploadOnly => {
            edit.download_only = false;
            edit.upload_only = true;
            edit.no_remote_delete = form.no_remote_delete;
        },
    }
    proof {
        let want = form_edit_spec(original@, *form);
        assert(edit@.sync_dir == want.sync_dir);
        assert(edit@.skip_file =~= want.skip_file);
        assert(edit@.skip_dir =~= want.skip_dir);
        assert(edit@.sync_list =~= want.sync_list);
        assert(edit@.download_only == want.download_only);
        assert(edit@.upload_only == want.upload_only);
        assert(edit@.no_remote_delete == want.no_remote_delete);
        assert(edit@.monitor_interval =~= want.monitor_interval);
        assert(edit@.monitor_fullscan_frequency =~= want.monitor_fullscan_frequency);
    }
    Ok(edit)
}

// ---------------------------------------------------------------------------
// Saving
// ---------------------------------------------------------------------------

/// Whether another profile (a different id) already has exactly this name.
pub open spec fn name_taken(accts: Seq<AccountView>, id: Seq<char>, name: Seq<char>) -> bool {
    exists|i: int| 0 <= i < accts.len() && #[trigger] accts[i].id != id && accts[i].name == name
}

/// The new name of a profile: trimmed, not blank, and not another profile's name.
pub fn check_profile_name(store: &AccountStore, id: &str, text: &str) -> (r: Result<String, String>)
    ensures
        match r {
            Ok(n) => n@ == trim(text@) && trim(text@).len() > 0 && !name_taken(store@, id@, trim(text@)),
            Err(m) => if trim(text@).len() == 0 {
                m@ == "名称不能为空"@
            } else {
                name_taken(store@, id@, trim(text@)) && m@ == "账户名称已存在"@
            },
        },
{
    let next = string_of(trim_chars(&chars_of(text), CharClass::Whitespace).as_slice());
    if chars_of(next.as_str()).len() == 0 {
        return Err(lit("名称不能为空"));
    }
    let mut i: usize = 0;
    while i < store.accounts.len()
        invariant
            i <= store@.len(),
            next@ == trim(text@),
            next@.len() > 0,
            forall|j: int| 0 <= j < i ==> !(#[trigger] store@[j].id != id@ && store@[j].name == next@),
        decreases store.accounts.len() - i,
    {
        let a = &store.accounts[i];
        assert(store@[i as int] == a@);
        if !str_eq(a.id.as_str(), id) && str_eq(a.name.as_str(), next.as_str()) {
            assert(store@[i as int].id != id@ && store@[i as int].name == trim(text@));
            assert(name_taken(store@, id@, trim(text@)));
            return Err(lit("账户名称已存在"));
        }
        i += 1;
    }
    Ok(next)
}

impl AccountStore {
    /// Stores a saved profile edit: the new name, and the new sync directory when the
    /// configuration was edited too.
    pub fn apply_profile_edit(&mut self, id: &str, name: &str, sync_dir: Option<&str>)
        ensures
            match find_index(old(self)@, id@) {
                Some(i) => final(self)@ == old(self)@.update(
                    i,
                    AccountView {
                        name: name@,
                        sync_dir: match sync_dir {
                            Some(d) => d@,
                            None => old(self)@[i].sync_dir,
                        },
                        ..old(self)@[i]
                    },
                ),
                None => final(self)@ == old(self)@,
            },
    {
        match self.position(id) {
            Some(i) => {
                let mut a = self.accounts[i].copy();
                a.name = lit(name);
                match sync_dir {
                    Some(d) => {
                        a.sync_dir = lit(d);
                    },
                    None => {},
                }
                let ghost before = self@;
                let ghost av = a@;
                self.accounts.set(i, a);
                assert(self@ =~= before.update(i as int, av));
            },
            None => {},
        }
    }
}

/// After a save: a moved sync directory or a changed scope asks whether to resync;
/// otherwise the editor just says it saved.
pub fn after_profile_saved(outcome: ProfileEditOutcome) -> (r: Option<String>)
    ensures
        (outcome.sync_dir_changed || outcome.needs_resync) ==> r is None,
        !(outcome.sync_dir_changed || outcome.needs_resync) ==> (r matches Some(t) && t@
            == "Profile 已保存"@),
{
    if outcome.sync_dir_changed || outcome.needs_resync {
        None
    } else {
        Some(lit("Profile 已保存"))
    }
}

// ---------------------------------------------------------------------------
// Laws
// ---------------------------------------------------------------------------

/// Every rule is a trimmed, non-blank text.
proof fn lemma_rules_trimmed(vs: Seq<Seq<char>>)
    ensures
        forall|i: int|
            0 <= i < rules_spec(vs).len() ==> (#[trigger] rules_spec(vs)[i]).len() > 0 && trim(
                rules_spec(vs)[i],
            ) == rules_spec(vs)[i],
    decreases vs.len(),
{
    if vs.len() > 0 {
        let acc = rules_spec(vs.drop_last());
        let t = trim(vs.last());
        lemma_rules_trimmed(vs.drop_last());
        crate::text::lemma_trim_by_idempotent(vs.last(), CharClass::Whitespace);
        let r = rules_spec(vs);
        assert forall|i: int| 0 <= i < r.len() implies (#[trigger] r[i]).len() > 0 && trim(r[i])
            == r[i] by {
            if i < acc.len() {
                assert(r[i] == acc[i]);
            } else {
                assert(r[i] == t);
            }
        }
    }
}

/// A trimmed, non-blank text starts with a character that is not white space.
proof fn lemma_trimmed_starts_solid(t: Seq<char>)
    requires
        t.len() > 0,
        trim(t) == t,
    ensures
        !crate::text::is_ws(t[0]),
{
    crate::text::lemma_lead_len_stops(t, CharClass::Whitespace);
    crate::text::lemma_lead_len_bounded(trim_start_by_ws(t), CharClass::Whitespace);
    crate::text::lemma_trail_len_bounded(trim_start_by_ws(t), CharClass::Whitespace);
    assert(crate::text::lead_len(t, CharClass::Whitespace) == 0);
}

spec fn trim_start_by_ws(t: Seq<char>) -> Seq<char> {
    crate::text::trim_start_by(t, CharClass::Whitespace)
}

/// A text with a character that is not white space stays non-blank when trimmed.
proof fn lemma_solid_char_survives_trim(s: Seq<char>, k: int)
    requires
        0 <= k < s.len(),
        !crate::text::is_ws(s[k]),
    ensures
        trim(s).len() > 0,
{
    let cls = CharClass::Whitespace;
    crate::text::lemma_lead_len_stops(s, cls);
    let lead = crate::text::lead_len(s, cls) as int;
    if lead > k {
        assert(crate::text::in_class(cls, s[k]));
    }
    let a = s.skip(lead);
    crate::text::lemma_trail_len_stops(a, cls);
    let tr = crate::text::trail_len(a, cls) as int;
    assert(a[k - lead] == s[k]);
    if a.len() - tr <= k - lead {
        assert(crate::text::in_class(cls, a[k - lead]));
    }
}

/// A join of non-empty pieces starts with the first piece's first character.
proof fn lemma_join_lines_first(p: Seq<Seq<char>>)
    requires
        p.len() > 0,
        p[0].len() > 0,
    ensures
        join_lines(p).len() > 0,
        join_lines(p)[0] == p[0][0],
    decreases p.len(),
{
    if p.len() > 1 {
        let q = p.drop_last();
        assert(q[0] == p[0]);
        lemma_join_lines_first(q);
    }
}

/// The editor reads back what the user chose: the sync direction always, and the
/// scope whenever the chosen scope has rules to stand on (an include or exclude
/// scope with no rules left is read back as syncing everything).
pub proof fn law_editor_reads_back_its_choices(original: ConfigEditView, f: EditForm)
    requires
        f.scope == ScopeChoice::Include ==> rules_spec(strs(f.sync_list@)).len() > 0,
        f.scope == ScopeChoice::Exclude ==> rules_spec(strs(f.skip_file@)).len() > 0
            || rules_spec(strs(f.skip_dir@)).len() > 0,
    ensures
        direction_of(form_edit_spec(original, f)) == f.direction,
        scope_of(form_edit_spec(original, f)) == f.scope,
{
    let e = form_edit_spec(original, f);
    if f.scope == ScopeChoice::Include {
        let rules = rules_spec(strs(f.sync_list@));
        lemma_rules_trimmed(strs(f.sync_list@));
        assert(rules[0].len() > 0 && trim(rules[0]) == rules[0]);
        lemma_trimmed_starts_solid(rules[0]);
        lemma_join_lines_first(rules);
        lemma_solid_char_survives_trim(join_lines(rules), 0);
    } else {
        assert(trim(Seq::<char>::empty()) =~= Seq::<char>::empty());
    }
}

} // verus!
