use onesync::adapter::onedrive::output::{
    classify_onedrive_error, combined_output, is_auth_required, parse_confirmation, parse_version,
};
use onesync::event::{BackendError, ConfirmationKind, Version};

#[test]
fn output_parses_version_from_cli_output() {
    assert_eq!(
        parse_version("onedrive v2.5.4-1+np1").unwrap(),
        Version {
            major: 2,
            minor: 5,
            patch: 4
        }
    );
}

#[test]
fn onedrive_parses_version_from_cli_output() {
    assert_eq!(
        parse_version("onedrive v2.5.4-1+np1").unwrap(),
        Version {
            major: 2,
            minor: 5,
            patch: 4
        }
    );
}

#[test]
fn output_maps_known_error_output_to_actionable_messages() {
    assert_eq!(
        classify_onedrive_error("ERROR: refresh_token is invalid"),
        BackendError::AuthExpired
    );
    assert_eq!(
        classify_onedrive_error("curl timeout while connecting"),
        BackendError::Network
    );
    assert_eq!(
        classify_onedrive_error("unknown config key: verbose"),
        BackendError::UnsupportedConfig
    );
}

#[test]
fn classifies_unrecognized_output_as_cli_output() {
    assert_eq!(
        classify_onedrive_error("some random stderr line\nERROR: something else"),
        BackendError::CliOutput("ERROR: something else".to_string())
    );
    assert_eq!(
        classify_onedrive_error(""),
        BackendError::CliOutput(String::new())
    );
}

#[test]
fn output_detects_login_required_output() {
    assert!(is_auth_required("ERROR: Login required"));
    assert!(is_auth_required("To authorise this application open the URL"));
    assert!(is_auth_required("ERROR: refresh_token is invalid"));
    assert!(is_auth_required(
        "ERROR: You will need to issue a --reauth and re-authorise this client to obtain a fresh auth token."
    ));
    assert!(is_auth_required(
        "AADSTS50173: The provided grant has expired due to it being revoked"
    ));
}

#[test]
fn onedrive_detects_login_required_output() {
    assert!(is_auth_required("ERROR: Login required"));
    assert!(is_auth_required("To authorise this application open the URL"));
    assert!(is_auth_required("ERROR: refresh_token is invalid"));
}

#[test]
fn output_detects_confirmation_required_states() {
    assert!(matches!(
        parse_confirmation("--resync is required to continue"),
        Some(ConfirmationKind::ResyncRequired)
    ));
    assert!(matches!(
        parse_confirmation("Are you sure you wish to proceed with --resync? [Y/N]"),
        Some(ConfirmationKind::ResyncRequired)
    ));
    assert!(matches!(
        parse_confirmation("WARNING: You have asked the client to perform a --resync operation."),
        Some(ConfirmationKind::ResyncRequired)
    ));
    assert!(matches!(
        parse_confirmation("ERROR: big delete detected"),
        Some(ConfirmationKind::BigDelete)
    ));
    assert!(matches!(
        parse_confirmation("ERROR: Big Delete detected; rerun with --force to continue"),
        Some(ConfirmationKind::BigDelete)
    ));
    assert!(matches!(
        parse_confirmation(
            "ERROR: To delete a large volume of data use --force or increase the config value 'classify_as_big_delete' to a larger value"
        ),
        Some(ConfirmationKind::BigDelete)
    ));
    assert!(matches!(
        parse_confirmation("download-only cleanup warning"),
        Some(ConfirmationKind::DownloadOnlyCleanup)
    ));
    assert!(matches!(
        parse_confirmation(
            "Clean up additional local files when using --download-only. This will remove local data"
        ),
        Some(ConfirmationKind::DownloadOnlyCleanup)
    ));
    assert!(matches!(
        parse_confirmation("upload-only cannot be used with no-remote-delete"),
        Some(ConfirmationKind::UploadOnlyNoRemoteDelete)
    ));
}

#[test]
fn onedrive_detects_confirmation_required_states() {
    assert!(matches!(
        parse_confirmation("--resync is required to continue"),
        Some(ConfirmationKind::ResyncRequired)
    ));
    assert!(matches!(
        parse_confirmation("ERROR: big delete detected"),
        Some(ConfirmationKind::BigDelete)
    ));
    assert!(matches!(
        parse_confirmation("download-only cleanup warning"),
        Some(ConfirmationKind::DownloadOnlyCleanup)
    ));
    assert!(matches!(
        parse_confirmation("upload-only cannot be used with no-remote-delete"),
        Some(ConfirmationKind::UploadOnlyNoRemoteDelete)
    ));
}

#[test]
fn avoids_false_big_delete_confirmation_matches() {
    assert!(parse_confirmation("Deleting item from Microsoft OneDrive: /Documents/old.txt").is_none());
    assert!(
        parse_confirmation("delete failed after retry; rerun with --force only if requested")
            .is_none()
    );
    assert!(parse_confirmation("large delete batch finished successfully").is_none());
    assert!(parse_confirmation("classify_as_big_delete = 1000").is_none());
}

#[test]
fn avoids_false_option_combination_confirmation_matches() {
    assert!(parse_confirmation("download-only sync finished; cleanup was not requested").is_none());
    assert!(
        parse_confirmation("upload-only profile has no-remote-delete documented in notes")
            .is_none()
    );
    assert!(parse_confirmation("resync metadata check finished without action").is_none());
}

#[test]
fn version_defaults_missing_parts_to_zero() {
    assert_eq!(
        parse_version("onedrive v2").unwrap(),
        Version {
            major: 2,
            minor: 0,
            patch: 0
        }
    );
    assert!(parse_version("no version here").is_none());
}

#[test]
fn classifies_each_known_failure() {
    assert_eq!(classify_onedrive_error("upload failed for a.txt"), BackendError::PartialTransfer);
    assert_eq!(classify_onedrive_error("Segmentation fault (core dumped)"), BackendError::CliCrashed);
}

#[test]
fn combined_output_decodes_both_streams_and_replaces_bad_bytes() {
    assert_eq!(combined_output(b"out\n", b"err"), "out\nerr");
    assert_eq!(combined_output(&[0x61, 0xff], b""), "a\u{fffd}");
}
