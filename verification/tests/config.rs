use onesync::profile::config::{ConfigEdit, OneDriveConfig};
use onesync::profile::edit::{
    ensure_transfer_metrics_enabled, save_profile_edit, sync_list_file_content, ProfileEditError,
};

#[test]
fn preserves_multiline_skip_values() {
    let config = OneDriveConfig::parse(
        "sync_dir = \"~/OneDrive\"\nskip_file = \"*.tmp\"\n\t\"*.part\"\nskip_dir = \"node_modules\"\n",
    );

    let rendered = config.render();

    assert!(rendered.contains("sync_dir = \"~/OneDrive\""));
    assert!(rendered.contains("skip_file = \"*.tmp\""));
    assert!(rendered.contains("\t\"*.part\""));
    assert!(rendered.contains("skip_dir = \"node_modules\""));
}

#[test]
fn omits_empty_optional_values() {
    let mut config = OneDriveConfig::parse("sync_list = \"old\"\n");
    config.apply_edit(&ConfigEdit::default());

    assert!(!config.render().contains("sync_list"));
}

#[test]
fn round_trips_advanced_sync_options() {
    let mut config = OneDriveConfig::parse(
        "sync_dir = \"~/OneDrive\"\ndownload_only = \"true\"\ndelay_inotify_processing = \"true\"\nrate_limit = \"1024\"\nthreads = \"4\"\nconnect_timeout = \"10\"\ndata_timeout = \"60\"\ndns_timeout = \"15\"\noperation_timeout = \"3600\"\nmonitor_interval = \"300\"\nmonitor_fullscan_frequency = \"10\"\n",
    );

    let edit = ConfigEdit {
        sync_dir: "~/OneDrive".to_string(),
        upload_only: true,
        no_remote_delete: true,
        monitor_interval: "300".to_string(),
        monitor_fullscan_frequency: "10".to_string(),
        ..ConfigEdit::default()
    };
    config.apply_edit(&edit);
    let rendered = config.render();

    assert!(!rendered.contains("download_only"));
    assert!(rendered.contains("delay_inotify_processing"));
    assert!(rendered.contains("rate_limit"));
    assert!(rendered.contains("threads = \"4\""));
    assert!(rendered.contains("connect_timeout = \"10\""));
    assert!(rendered.contains("data_timeout = \"60\""));
    assert!(rendered.contains("dns_timeout = \"15\""));
    assert!(rendered.contains("operation_timeout = \"3600\""));
    assert!(rendered.contains("upload_only = \"true\""));
    assert!(rendered.contains("no_remote_delete = \"true\""));
}

#[test]
fn reads_config_edit_from_existing_config() {
    let config = OneDriveConfig::parse(
        "sync_dir = \"~/WorkDrive\"\n\
skip_file = \"*.tmp\"\n\
\t\"*.bak\"\n\
skip_dir = \"node_modules\"\n\
\t\"target\"\n\
download_only = \"true\"\n\
no_remote_delete = \"true\"\n\
monitor_interval = \"120\"\n\
monitor_fullscan_frequency = \"6\"\n",
    );

    let edit = config.to_edit();

    assert_eq!(edit.sync_dir, "~/WorkDrive");
    assert_eq!(edit.skip_file, vec!["*.tmp", "*.bak"]);
    assert_eq!(edit.skip_dir, vec!["node_modules", "target"]);
    assert!(edit.download_only);
    assert!(!edit.upload_only);
    assert!(edit.no_remote_delete);
    assert_eq!(edit.monitor_interval, "120");
    assert_eq!(edit.monitor_fullscan_frequency, "6");
}

#[test]
fn detects_resync_required_for_scope_changes() {
    let old = ConfigEdit {
        sync_dir: "~/OneDrive".to_string(),
        skip_file: vec!["*.tmp".to_string()],
        skip_dir: vec!["node_modules".to_string()],
        sync_list: "Documents\nPictures".to_string(),
        ..ConfigEdit::default()
    };
    let same = old.clone();
    let changed_direction = ConfigEdit {
        upload_only: true,
        ..old.clone()
    };
    let changed_scope = ConfigEdit {
        skip_dir: vec!["target".to_string()],
        ..old.clone()
    };

    assert!(!old.requires_resync_from(&same));
    assert!(!old.requires_resync_from(&changed_direction));
    assert!(old.requires_resync_from(&changed_scope));
}

#[test]
fn keeps_comments_blank_lines_and_unknown_settings() {
    let mut config =
        OneDriveConfig::parse("# my settings\n\nsync_dir = \"~/OneDrive\"\nthreads = \"8\"\n");
    config.apply_edit(&ConfigEdit {
        sync_dir: "~/Work".to_string(),
        ..ConfigEdit::default()
    });
    let rendered = config.render();
    assert!(rendered.contains("# my settings\n"));
    assert!(rendered.contains("threads = \"8\""));
    assert!(rendered.contains("sync_dir = \"~/Work\""));
    assert!(!rendered.contains("~/OneDrive"));
}

#[test]
fn escapes_quotes_and_backslashes_when_writing() {
    let mut config = OneDriveConfig::new();
    config.apply_edit(&ConfigEdit {
        sync_dir: "C:\\dir \"x\"".to_string(),
        ..ConfigEdit::default()
    });
    assert_eq!(config.render(), "sync_dir = \"C:\\\\dir \\\"x\\\"\"\n");
}

#[test]
fn transfer_metrics_are_switched_on() {
    let mut config = OneDriveConfig::parse("sync_dir = \"~/OneDrive\"\n");
    config.enable_transfer_metrics();
    assert!(config
        .render()
        .contains("display_transfer_metrics = \"true\""));
    let text = ensure_transfer_metrics_enabled("display_transfer_metrics = \"false\"\n");
    assert_eq!(text, "display_transfer_metrics = \"true\"\n");
}

#[test]
fn sync_dir_change_sets_edit_flags() {
    let mut config = OneDriveConfig::parse("sync_dir = \"~/OneDrive\"\nmonitor_interval = \"300\"\n");
    let original = ConfigEdit {
        sync_dir: "~/OneDrive".to_string(),
        ..ConfigEdit::default()
    };
    let next = ConfigEdit {
        sync_dir: "~/Another".to_string(),
        ..ConfigEdit::default()
    };
    let outcome = save_profile_edit(&mut config, &original, &next);
    assert!(outcome.sync_dir_changed);
    assert!(outcome.needs_resync);
    assert_eq!(config.to_edit().sync_dir, "~/Another");
}

#[test]
fn non_resync_field_change_keeps_edit_resync_false() {
    let mut config = OneDriveConfig::parse("sync_dir = \"~/OneDrive\"\nmonitor_interval = \"300\"\n");
    let original = ConfigEdit {
        sync_dir: "~/OneDrive".to_string(),
        monitor_interval: "300".to_string(),
        ..ConfigEdit::default()
    };
    let next = ConfigEdit {
        sync_dir: "~/OneDrive".to_string(),
        monitor_interval: "60".to_string(),
        ..ConfigEdit::default()
    };
    let outcome = save_profile_edit(&mut config, &original, &next);
    assert!(!outcome.sync_dir_changed);
    assert!(!outcome.needs_resync);
    assert_eq!(config.to_edit().monitor_interval, "60");
}

#[test]
fn sync_list_edit_flags_resync_but_stays_out_of_config() {
    let mut config = OneDriveConfig::parse("sync_dir = \"~/OneDrive\"\n");
    let original = ConfigEdit {
        sync_dir: "~/OneDrive".to_string(),
        sync_list: "Folder1/*\n".to_string(),
        ..ConfigEdit::default()
    };
    let next = ConfigEdit {
        sync_dir: "~/OneDrive".to_string(),
        sync_list: "Folder2/*\n".to_string(),
        ..ConfigEdit::default()
    };
    let outcome = save_profile_edit(&mut config, &original, &next);
    assert!(!outcome.sync_dir_changed);
    assert!(outcome.needs_resync);
    assert!(!config.render().contains("sync_list"));
    assert_eq!(sync_list_file_content(&next.sync_list), Some("Folder2/*\n"));
    assert_eq!(sync_list_file_content("  \n"), None);
}

#[test]
fn skip_file_edit_triggers_resync() {
    let mut config = OneDriveConfig::parse("sync_dir = \"~/OneDrive\"\n");
    let original = ConfigEdit {
        sync_dir: "~/OneDrive".to_string(),
        skip_file: vec!["*.tmp".to_string()],
        ..ConfigEdit::default()
    };
    let next = ConfigEdit {
        sync_dir: "~/OneDrive".to_string(),
        skip_file: vec!["*.bak".to_string()],
        ..ConfigEdit::default()
    };
    let outcome = save_profile_edit(&mut config, &original, &next);
    assert!(!outcome.sync_dir_changed);
    assert!(outcome.needs_resync);
}

#[test]
fn profile_edit_errors_name_the_step() {
    assert_eq!(
        ProfileEditError::ConfigRead("missing".to_string()).message(),
        "读取 Profile 配置失败: missing"
    );
    assert_eq!(
        ProfileEditError::ConfigWrite("denied".to_string()).message(),
        "保存 Profile 配置失败: denied"
    );
    assert_eq!(
        ProfileEditError::SyncListWrite("full".to_string()).message(),
        "保存选择性同步列表失败: full"
    );
}

#[test]
fn written_config_reads_back_its_settings() {
    let text = "# OneSync\nsync_dir = \"~/OneDrive\"\nskip_file = \"~*\"\n    \"*.tmp\"\n\nunknown_key = \"kept\"\n  indented comment without equals\nmonitor_interval = \"300\"\n";
    let mut config = OneDriveConfig::parse(text);
    let again = OneDriveConfig::parse(&config.render());
    assert_eq!(again.to_edit(), config.to_edit());

    config.apply_edit(&ConfigEdit {
        sync_dir: " ~/Work ".to_string(),
        skip_file: vec!["a".to_string(), " ".to_string(), "b ".to_string()],
        skip_dir: vec!["node_modules".to_string()],
        sync_list: String::new(),
        download_only: true,
        upload_only: false,
        no_remote_delete: false,
        monitor_interval: "60".to_string(),
        monitor_fullscan_frequency: String::new(),
    });
    config.enable_transfer_metrics();
    let again = OneDriveConfig::parse(&config.render());
    let edit = again.to_edit();
    assert_eq!(edit, config.to_edit());
    assert_eq!(edit.sync_dir, "~/Work");
    assert_eq!(edit.skip_file, vec!["a".to_string(), "b".to_string()]);
    assert_eq!(edit.skip_dir, vec!["node_modules".to_string()]);
    assert!(edit.download_only);
    assert_eq!(edit.monitor_interval, "60");
}
