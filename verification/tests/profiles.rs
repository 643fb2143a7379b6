use onesync::profile::settings::{onedrive_command_from, onedrive_command_from_settings, settings_with_profile_mode, stored_sync_mode, sync_mode_from_settings, JsonValue, SyncMode, DEFAULT_ONEDRIVE_COMMAND};
use onesync::profile::store::{
    auth_response_path, auth_url_path, needs_identity_lookup, new_account, refresh_token_path,
    remove_confirmation_matches, sanitize_id, should_replace_profile_name, suggested_account_name,
    suggested_sync_dir, validate_unique, Account, AccountStatus, AccountStore, AccountStoreError,
};
use onesync::event::BackendError;

fn account(id: &str, name: &str, sync_dir: &str) -> Account {
    Account {
        id: id.to_string(),
        name: name.to_string(),
        email: String::new(),
        config_dir: format!("/tmp/{id}"),
        sync_dir: sync_dir.to_string(),
        status: AccountStatus::Authenticated,
    }
}

#[test]
fn store_remove_profile_requires_exact_current_name() {
    assert!(remove_confirmation_matches("Work Drive", "Work Drive"));
    assert!(!remove_confirmation_matches("Work Drive", "work drive"));
    assert!(!remove_confirmation_matches("Work Drive", " Work Drive "));
    assert!(!remove_confirmation_matches("Work Drive", "Personal"));
}

#[test]
fn account_remove_profile_requires_exact_current_name() {
    assert!(remove_confirmation_matches("Work Drive", "Work Drive"));
    assert!(!remove_confirmation_matches("Work Drive", "work drive"));
    assert!(!remove_confirmation_matches("Work Drive", " Work Drive "));
    assert!(!remove_confirmation_matches("Work Drive", "Personal"));
}

#[test]
fn store_rejects_duplicate_account_sync_directory() {
    let existing = Account {
        id: "existing".to_string(),
        name: "Existing".to_string(),
        email: String::new(),
        config_dir: "/tmp/existing".to_string(),
        sync_dir: "~/OneDrive".to_string(),
        status: AccountStatus::Authenticated,
    };

    let error = new_account(&[existing], "/home/user", "/home/user/.config/onesync/profiles", 1, "Imported", "", "~/OneDrive")
        .expect_err("duplicate sync_dir should be rejected");

    assert_eq!(error, AccountStoreError::DuplicateSyncDir);
}

#[test]
fn account_rejects_duplicate_account_sync_directory() {
    let existing = Account {
        id: "existing".to_string(),
        name: "Existing".to_string(),
        email: String::new(),
        config_dir: "/tmp/existing".to_string(),
        sync_dir: "~/OneDrive".to_string(),
        status: AccountStatus::Authenticated,
    };

    let error = new_account(&[existing], "/home/user", "/home/user/.config/onesync/profiles", 1, "Imported", "", "~/OneDrive")
        .expect_err("duplicate sync_dir should be rejected");

    assert_eq!(error, AccountStoreError::DuplicateSyncDir);
}

#[test]
fn rejects_duplicate_account_name() {
    let existing = Account {
        id: "existing".to_string(),
        name: "Existing".to_string(),
        email: String::new(),
        config_dir: "/tmp/existing".to_string(),
        sync_dir: "~/OneDrive-A".to_string(),
        status: AccountStatus::Authenticated,
    };

    let error = new_account(&[existing], "/home/user", "/home/user/.config/onesync/profiles", 1, "Existing", "", "~/OneDrive-B")
        .expect_err("duplicate name should be rejected");

    assert_eq!(error, AccountStoreError::DuplicateAccountName);
}

#[test]
fn duplicate_sync_dir_is_found_through_home_expansion() {
    let existing = [account("a", "A", "~/Drive")];
    assert_eq!(
        validate_unique(&existing, "/home/u", "B", "/home/u/Drive/"),
        Err(AccountStoreError::DuplicateSyncDir)
    );
    assert_eq!(validate_unique(&existing, "/home/u", "B", "/home/u/Other"), Ok(()));
    assert_eq!(
        AccountStoreError::DuplicateSyncDir.backend_error(),
        BackendError::DuplicateSyncDir
    );
}

#[test]
fn new_account_builds_id_and_config_dir() {
    let created = new_account(&[], "/home/u", "/cfg/profiles", 1700000000, "Work Drive!", "w@x.com", "~/Work")
        .unwrap();
    assert_eq!(created.id, "work-drive-1700000000");
    assert_eq!(created.name, "Work Drive!");
    assert_eq!(created.config_dir, "/cfg/profiles/work-drive-1700000000");
    assert_eq!(created.sync_dir, "~/Work");
    assert_eq!(created.status, AccountStatus::NeedsAuth);

    let unnamed = new_account(&[], "/home/u", "/cfg/profiles", 5, "", "", "~/OneDrive").unwrap();
    assert_eq!(unnamed.name, "OneDrive");
    assert_eq!(unnamed.id, "onedrive-5");
}

#[test]
fn sanitizes_ids() {
    assert_eq!(sanitize_id("Work Drive"), "work-drive");
    assert_eq!(sanitize_id("--"), "onedrive");
}

#[test]
fn suggestions_count_existing_profiles() {
    assert_eq!(suggested_account_name(Some(0)), "OneDrive 1");
    assert_eq!(suggested_account_name(Some(2)), "OneDrive 3");
    assert_eq!(suggested_account_name(None), "OneDrive 1");
    assert_eq!(suggested_sync_dir(Some(0)), "~/OneDrive");
    assert_eq!(suggested_sync_dir(Some(1)), "~/OneDrive-2");
}

#[test]
fn profile_files_live_in_the_config_dir() {
    let a = account("p", "P", "~/OneDrive");
    assert_eq!(auth_url_path(&a), "/tmp/p/auth-url");
    assert_eq!(auth_response_path(&a), "/tmp/p/auth-response");
    assert_eq!(refresh_token_path(&a), "/tmp/p/refresh_token");
}

#[test]
fn identity_lookup_replaces_only_default_names() {
    assert!(should_replace_profile_name("OneDrive 2", ""));
    assert!(should_replace_profile_name("  ", ""));
    assert!(should_replace_profile_name("me@x.com", "me@x.com"));
    assert!(!should_replace_profile_name("Work", "me@x.com"));

    let mut store = AccountStore::default();
    store.accounts.push(account("a", "OneDrive", "~/A"));
    store.accounts.push(account("b", "Work", "~/B"));
    assert!(needs_identity_lookup(&store.accounts[0]));
    assert!(store.update_identity("a", Some("Ann"), Some("ann@x.com")));
    assert_eq!(store.accounts[0].name, "Ann");
    assert_eq!(store.accounts[0].email, "ann@x.com");
    assert!(!needs_identity_lookup(&store.accounts[0]));
    assert!(store.update_identity("b", Some("Bob"), Some("bob@x.com")));
    assert_eq!(store.accounts[1].name, "Work");
    assert!(!store.update_identity("b", Some("Bob"), Some("bob@x.com")));
    assert!(!store.update_identity("missing", Some("X"), None));
}

#[test]
fn store_add_update_and_remove() {
    let mut store = AccountStore::default();
    let added = store.add("/home/u", "/cfg", 7, "Home", "", "~/Home").unwrap();
    assert_eq!(store.accounts().len(), 1);
    assert_eq!(store.position(&added.id), Some(0));
    assert!(store.update_status(&added.id, AccountStatus::Error("boom".to_string())));
    assert_eq!(store.accounts()[0].status, AccountStatus::Error("boom".to_string()));
    assert!(!store.update_status("missing", AccountStatus::NeedsAuth));
    assert_eq!(store.add("/home/u", "/cfg", 8, "Home", "", "~/Else").unwrap_err(), AccountStoreError::DuplicateAccountName);
    store.refresh_statuses(&[true]);
    assert_eq!(store.accounts()[0].status, AccountStatus::Authenticated);
    store.remove(&added.id);
    assert!(store.accounts().is_empty());
}

#[test]
fn onedrive_command_setting_defaults_when_blank() {
    assert_eq!(onedrive_command_from(Some("  /opt/onedrive  ")), "/opt/onedrive");
    assert_eq!(onedrive_command_from(Some("   ")), DEFAULT_ONEDRIVE_COMMAND);
    assert_eq!(onedrive_command_from(None), "onedrive");
}

#[test]
fn stored_sync_mode_defaults_to_manual() {
    assert_eq!(stored_sync_mode(Some("automatic")), SyncMode::Automatic);
    assert_eq!(stored_sync_mode(Some("manual")), SyncMode::Manual);
    assert_eq!(stored_sync_mode(Some("Automatic")), SyncMode::Manual);
    assert_eq!(stored_sync_mode(None), SyncMode::Manual);
}

#[test]
fn saved_sync_mode_reads_back() {
    for mode in [SyncMode::Manual, SyncMode::Automatic] {
        assert_eq!(stored_sync_mode(Some(mode.setting_value())), mode);
    }
}

#[test]
fn accounts_mut_changes_the_stored_profiles() {
    let mut store = AccountStore::default();
    store.accounts_mut().push(account("a", "Personal", "~/OneDrive"));
    store.accounts_mut()[0].name = "Work".to_string();
    assert_eq!(store.accounts().len(), 1);
    assert_eq!(store.accounts()[0].name, "Work");
}

#[test]
fn app_remove_profile_requires_exact_current_name() {
    assert!(remove_confirmation_matches("Work Drive", "Work Drive"));
    assert!(!remove_confirmation_matches("Work Drive", "work drive"));
    assert!(!remove_confirmation_matches("Work Drive", " Work Drive "));
    assert!(!remove_confirmation_matches("Work Drive", "Personal"));
}

fn s(text: &str) -> JsonValue {
    JsonValue::Str(text.to_string())
}

fn obj(entries: Vec<(&str, JsonValue)>) -> JsonValue {
    JsonValue::Object(entries.into_iter().map(|(k, v)| (k.to_string(), v)).collect())
}

#[test]
fn settings_name_the_onedrive_command() {
    assert_eq!(onedrive_command_from_settings(&obj(vec![("onedrive_binary", s(" /opt/od "))])), "/opt/od");
    assert_eq!(onedrive_command_from_settings(&obj(vec![("onedrive_binary", s("  "))])), "onedrive");
    assert_eq!(onedrive_command_from_settings(&obj(vec![("onedrive_binary", JsonValue::Bool(true))])), "onedrive");
    assert_eq!(onedrive_command_from_settings(&JsonValue::Null), "onedrive");
}

#[test]
fn settings_give_each_profile_its_mode() {
    let doc = obj(vec![
        ("onedrive_binary", s("onedrive")),
        ("profile_sync_modes", obj(vec![("a", s("automatic")), ("b", s("manual")), ("c", s("weird"))])),
    ]);
    assert_eq!(sync_mode_from_settings(&doc, "a"), SyncMode::Automatic);
    assert_eq!(sync_mode_from_settings(&doc, "b"), SyncMode::Manual);
    assert_eq!(sync_mode_from_settings(&doc, "c"), SyncMode::Manual);
    assert_eq!(sync_mode_from_settings(&doc, "missing"), SyncMode::Manual);
    assert_eq!(sync_mode_from_settings(&obj(vec![("profile_sync_modes", s("x"))]), "a"), SyncMode::Manual);
}

#[test]
fn saving_and_forgetting_a_profile_mode() {
    let doc = obj(vec![("onedrive_binary", s("/usr/bin/onedrive"))]);
    let saved = settings_with_profile_mode(doc, "a", Some(SyncMode::Automatic));
    assert_eq!(sync_mode_from_settings(&saved, "a"), SyncMode::Automatic);
    assert_eq!(onedrive_command_from_settings(&saved), "/usr/bin/onedrive");
    let saved = settings_with_profile_mode(saved, "b", Some(SyncMode::Automatic));
    let saved = settings_with_profile_mode(saved, "a", Some(SyncMode::Manual));
    assert_eq!(sync_mode_from_settings(&saved, "a"), SyncMode::Manual);
    assert_eq!(sync_mode_from_settings(&saved, "b"), SyncMode::Automatic);
    let removed = settings_with_profile_mode(saved, "b", None);
    assert_eq!(sync_mode_from_settings(&removed, "b"), SyncMode::Manual);
    assert_eq!(sync_mode_from_settings(&removed, "a"), SyncMode::Manual);
    let from_null = settings_with_profile_mode(JsonValue::Null, "z", Some(SyncMode::Automatic));
    assert_eq!(sync_mode_from_settings(&from_null, "z"), SyncMode::Automatic);
    assert!(matches!(settings_with_profile_mode(JsonValue::Null, "z", None), JsonValue::Null));
}
