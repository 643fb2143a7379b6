use onesync::profile::config::{normalize_lines, ConfigEdit};
use onesync::profile::edit::ProfileEditOutcome;
use onesync::profile::form::{
    account_location_summary, after_profile_saved, check_profile_name, collect_config_edit,
    collect_rule_values, danger_actions_available, direction_title, monitor_summary,
    monitor_uses_default, rule_to_add, scope_summary, EditForm, EditPage, ScopeChoice,
    SyncDirectionChoice,
};
use onesync::profile::store::{Account, AccountStatus, AccountStore};

fn form(scope: ScopeChoice, direction: SyncDirectionChoice) -> EditForm {
    EditForm {
        sync_dir: "  ~/OneDrive ".to_string(),
        scope,
        skip_file: vec![" *.tmp ".to_string(), "".to_string(), "*.tmp".to_string()],
        skip_dir: vec!["node_modules".to_string()],
        sync_list: vec!["Documents".to_string(), " Pictures".to_string()],
        direction,
        no_remote_delete: true,
        monitor: Some((0, -3)),
    }
}

#[test]
fn editor_builds_exclude_edit_with_clean_rules() {
    let original = ConfigEdit {
        sync_list: "old".to_string(),
        ..ConfigEdit::default()
    };
    let edit = collect_config_edit(&original, &form(ScopeChoice::Exclude, SyncDirectionChoice::UploadOnly))
        .unwrap();
    assert_eq!(edit.sync_dir, "~/OneDrive");
    assert_eq!(edit.skip_file, vec!["*.tmp"]);
    assert_eq!(edit.skip_dir, vec!["node_modules"]);
    assert_eq!(edit.sync_list, "");
    assert!(edit.upload_only && !edit.download_only && edit.no_remote_delete);
    assert_eq!(edit.monitor_interval, "1");
    assert_eq!(edit.monitor_fullscan_frequency, "0");
    assert_eq!(ScopeChoice::from_edit(&edit), ScopeChoice::Exclude);
    assert_eq!(SyncDirectionChoice::from_edit(&edit), SyncDirectionChoice::UploadOnly);
}

#[test]
fn editor_builds_include_edit_as_lines() {
    let mut f = form(ScopeChoice::Include, SyncDirectionChoice::DownloadOnly);
    f.monitor = None;
    let edit = collect_config_edit(&ConfigEdit::default(), &f).unwrap();
    assert_eq!(edit.sync_list, "Documents\nPictures");
    assert!(edit.skip_file.is_empty());
    assert!(edit.download_only && !edit.no_remote_delete);
    assert_eq!(edit.monitor_interval, "");
    assert!(monitor_uses_default(&edit));
    assert_eq!(ScopeChoice::from_edit(&edit), ScopeChoice::Include);
    assert_eq!(scope_summary(&edit), "只同步 2 个路径");
}

#[test]
fn editor_refuses_blank_sync_dir() {
    let mut f = form(ScopeChoice::All, SyncDirectionChoice::Bidirectional);
    f.sync_dir = "   ".to_string();
    assert_eq!(collect_config_edit(&ConfigEdit::default(), &f).unwrap_err(), "同步目录不能为空");
}

#[test]
fn summaries_describe_the_settings() {
    assert_eq!(direction_title(SyncDirectionChoice::Bidirectional, true), "双向同步");
    assert_eq!(
        direction_title(SyncDirectionChoice::UploadOnly, true),
        "只上传到 OneDrive · 保护云端文件"
    );
    let edit = ConfigEdit {
        skip_file: vec!["a".to_string(), "b".to_string()],
        skip_dir: vec!["c".to_string()],
        monitor_interval: " 60 ".to_string(),
        ..ConfigEdit::default()
    };
    assert_eq!(scope_summary(&edit), "忽略 2 个文件规则，1 个目录规则");
    assert_eq!(monitor_summary(&edit), "每 60 秒检查");
    assert_eq!(scope_summary(&ConfigEdit::default()), "全部内容");
    assert_eq!(monitor_summary(&ConfigEdit::default()), "使用 onedrive 默认值");
    let both = ConfigEdit {
        monitor_interval: "60".to_string(),
        monitor_fullscan_frequency: "6".to_string(),
        ..ConfigEdit::default()
    };
    assert_eq!(monitor_summary(&both), "每 60 秒检查 · 每 6 次检查后完整扫描");
}

#[test]
fn rules_are_trimmed_and_unique() {
    let rows = vec![" a ".to_string(), "b".to_string(), "a".to_string(), " ".to_string()];
    assert_eq!(collect_rule_values(&rows), vec!["a", "b"]);
    assert_eq!(rule_to_add(" c ", &rows), Some("c".to_string()));
    assert_eq!(rule_to_add("a", &rows), None);
    assert_eq!(rule_to_add("  ", &rows), None);
    assert_eq!(normalize_lines(" x \n\ny"), vec!["x", "y"]);
}

#[test]
fn editor_pages_and_danger_zone() {
    assert_eq!(EditPage::from_stack_name("sync-scope"), EditPage::SyncScope);
    assert_eq!(EditPage::from_stack_name("edit"), EditPage::Overview);
    assert!(EditPage::Remove.is_sub_page());
    assert!(!EditPage::Overview.is_sub_page());
    assert!(danger_actions_available(false, &AccountStatus::NeedsAuth));
    assert!(!danger_actions_available(false, &AccountStatus::Authenticated));
}

#[test]
fn renaming_checks_blank_and_taken_names() {
    let mut store = AccountStore::default();
    for (id, name) in [("a", "Home"), ("b", "Work")] {
        store.accounts.push(Account {
            id: id.to_string(),
            name: name.to_string(),
            email: String::new(),
            config_dir: format!("/cfg/{id}"),
            sync_dir: format!("~/{id}"),
            status: AccountStatus::Authenticated,
        });
    }
    assert_eq!(check_profile_name(&store, "a", "  ").unwrap_err(), "名称不能为空");
    assert_eq!(check_profile_name(&store, "a", " Work ").unwrap_err(), "账户名称已存在");
    assert_eq!(check_profile_name(&store, "a", " Home ").unwrap(), "Home");
    store.apply_profile_edit("a", "House", Some("~/House"));
    assert_eq!(store.accounts[0].name, "House");
    assert_eq!(store.accounts[0].sync_dir, "~/House");
    assert_eq!(account_location_summary(&store.accounts[0]), "House·已认证");
}

#[test]
fn saving_asks_for_resync_only_when_needed() {
    assert_eq!(
        after_profile_saved(ProfileEditOutcome {
            sync_dir_changed: false,
            needs_resync: false
        }),
        Some("Profile 已保存".to_string())
    );
    assert_eq!(
        after_profile_saved(ProfileEditOutcome {
            sync_dir_changed: true,
            needs_resync: false
        }),
        None
    );
}
