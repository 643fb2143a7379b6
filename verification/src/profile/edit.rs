//! Saving a profile edit: the configuration file takes every edited setting but the
//! selective-sync list, which lives in its own file.
use vstd::prelude::*;

use super::config::{
    apply_edit_spec, law_apply_edit_then_to_edit, normalize_edit, parse_spec, render_spec,
    requires_resync_spec, set_single_spec, to_edit_spec, true_text, ConfigEdit, ConfigEditView,
    ConfigLineView, OneDriveConfig,
};
use crate::text::{chars_of, concat, str_eq, trim, trim_chars, CharClass};

verus! {

/// Why saving a profile edit failed, with the I/O error's text.
#[derive(Debug, Clone, PartialEq, Eq)]
pub enum ProfileEditError {
    ConfigRead(String),
    ConfigWrite(String),
    SyncListWrite(String),
}

impl ProfileEditError {
    /// The message shown for the failure.
    pub fn message(&self) -> (r: String)
        ensures
            r@ == (match self {
                ProfileEditError::ConfigRead(e) => "读取 Profile 配置失败: "@ + e@,
                ProfileEditError::ConfigWrite(e) => "保存 Profile 配置失败: "@ + e@,
                ProfileEditError::SyncListWrite(e) => "保存选择性同步列表失败: "@ + e@,
            }),
    {
        match self {
            ProfileEditError::ConfigRead(e) => concat("读取 Profile 配置失败: ", e.as_str()),
            ProfileEditError::ConfigWrite(e) => concat("保存 Profile 配置失败: ", e.as_str()),
            ProfileEditError::SyncListWrite(e) => concat("保存选择性同步列表失败: ", e.as_str()),
        }
    }
}

/// What a saved edit asks of the UI.
#[derive(Debug, Clone, Copy, PartialEq, Eq)]
pub struct ProfileEditOutcome {
    pub sync_dir_changed: bool,
    pub needs_resync: bool,
}

/// The edit as written to the configuration file: the sync list goes elsewhere.
pub open spec fn config_part(e: ConfigEditView) -> ConfigEditView {
    ConfigEditView { sync_list: Seq::empty(), ..e }
}

/// Applies an edit to the profile's configuration, leaving the sync list out of it, and
/// reports whether the sync directory moved and whether the change of scope needs a
/// `--resync`.
pub fn save_profile_edit(config: &mut OneDriveConfig, original: &ConfigEdit, next: &ConfigEdit) -> (r:
    ProfileEditOutcome)
    ensures
        final(config)@ == apply_edit_spec(old(config)@, config_part(next@)),
        r.needs_resync == requires_resync_spec(original@, next@),
        r.sync_dir_changed == (original.sync_dir@ != next.sync_dir@),
{
    let needs_resync = original.requires_resync_from(next);
    let sync_dir_changed = !str_eq(original.sync_dir.as_str(), next.sync_dir.as_str());
    let mut without_sync_list = next.copy();
    without_sync_list.sync_list = String::new();
    assert(without_sync_list@ =~= config_part(next@));
    config.apply_edit(&without_sync_list);
    ProfileEditOutcome { sync_dir_changed, needs_resync }
}

/// The configuration text with `display_transfer_metrics` turned on, which every sync,
/// preview and monitor run makes sure of first.
pub fn ensure_transfer_metrics_enabled(content: &str) -> (r: String)
    ensures
        r@ == render_spec(set_single_spec(parse_spec(content@), "display_transfer_metrics"@, true_text())),
{
    let mut config = OneDriveConfig::parse(content);
    config.enable_transfer_metrics();
    config.render()
}

/// What the `sync_list` file should hold: nothing (the file is removed) when the list is
/// blank, the list as given otherwise.
pub fn sync_list_file_content(content: &str) -> (r: Option<&str>)
    ensures
        trim(content@).len() == 0 ==> r is None,
        trim(content@).len() > 0 ==> r == Some(content),
{
    let t = trim_chars(&chars_of(content), CharClass::Whitespace);
    if t.len() == 0 {
        None
    } else {
        Some(content)
    }
}

/// A saved edit reads back from the configuration as written, except that the
/// selective-sync list never lands in the configuration file.
pub proof fn law_saved_edit_reads_back_without_sync_list(ls: Seq<ConfigLineView>, e: ConfigEditView)
    ensures
        to_edit_spec(apply_edit_spec(ls, config_part(e))) == config_part(normalize_edit(e)),
{
    law_apply_edit_then_to_edit(ls, config_part(e));
    assert(trim(Seq::<char>::empty()) =~= Seq::<char>::empty());
    assert(normalize_edit(config_part(e)) =~= config_part(normalize_edit(e)));
}

} // verus!
