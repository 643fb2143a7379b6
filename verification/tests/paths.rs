use onesync::adapter::graph::{
    account_identity, application_id, children_url, content_range, content_url, drive_item_url,
    graph_client_id, graph_path, item_url, local_path, next_chunk_end, non_empty,
    percent_encode_segment, remote_parent_dirs, upload_session_url, uses_simple_upload,
};
use onesync::utils::{config_root, expand_home, join_path, sync_path, unquote};

#[test]
fn sync_path_splits_nested_path_into_parent_and_name() {
    let s = sync_path("docs/archive/a.txt");
    assert_eq!(s.parent, Some("docs/archive"));
    assert_eq!(s.name, "a.txt");
}

#[test]
fn sync_path_returns_none_parent_for_bare_name() {
    let s = sync_path("a.txt");
    assert_eq!(s.parent, None);
    assert_eq!(s.name, "a.txt");
}

#[test]
fn sync_path_drops_leading_dot_slash_and_outer_slashes() {
    let s = sync_path("././docs/a.txt/");
    assert_eq!(s.parent, Some("docs"));
    assert_eq!(s.name, "a.txt");
}

#[test]
fn ignores_blank_identity_fields() {
    assert_eq!(non_empty(Some("  John Li  ")), Some("John Li".to_string()));
    assert_eq!(non_empty(Some("  ")), None);
    assert_eq!(non_empty(None), None);
}

#[test]
fn parses_quoted_config_values() {
    assert_eq!(unquote(r#" "application-id" "#), "application-id");
    assert_eq!(unquote(" 'application-id' "), "application-id");
}

#[test]
fn graph_path_encodes_spaces_and_hashes_but_keeps_slashes() {
    assert_eq!(graph_path("Folder A/a#b.txt"), "Folder%20A/a%23b.txt");
}

#[test]
fn graph_path_encodes_utf8_bytes_and_drops_dot_slash() {
    assert_eq!(graph_path("./文档/é.txt"), "%E6%96%87%E6%A1%A3/%C3%A9.txt");
    assert_eq!(percent_encode_segment("a-b_c.d~e"), "a-b_c.d~e");
    assert_eq!(percent_encode_segment("50%"), "50%25");
}

#[test]
fn identity_fields_are_trimmed() {
    let identity = account_identity(Some(" Ann "), Some(""));
    assert_eq!(identity.display_name, Some("Ann".to_string()));
    assert_eq!(identity.email, None);
}

#[test]
fn application_id_comes_from_the_first_non_blank_setting() {
    let config = "sync_dir = \"~/OneDrive\"\napplication_id = \"\"\n application_id = 'abc-123' \napplication_id = \"later\"\n";
    assert_eq!(application_id(config), Some("abc-123".to_string()));
    assert_eq!(application_id("sync_dir = \"x\"\n"), None);
    assert_eq!(graph_client_id(Some(config)), "abc-123");
    assert_eq!(graph_client_id(None), "d50ca740-c83f-4d1b-b616-12c519384f0c");
}

#[test]
fn local_path_joins_sync_dir_and_relative_path() {
    assert_eq!(local_path("/home/u", "~/OneDrive", "./docs/a.txt"), "/home/u/OneDrive/docs/a.txt");
    assert_eq!(local_path("/home/u", "/data/od", "a.txt"), "/data/od/a.txt");
}

#[test]
fn drive_urls_address_items_by_path_and_id() {
    assert_eq!(drive_item_url(""), "https://graph.microsoft.com/v1.0/me/drive/root");
    assert_eq!(
        drive_item_url("Folder A/x"),
        "https://graph.microsoft.com/v1.0/me/drive/root:/Folder%20A/x"
    );
    assert_eq!(
        content_url("a b.txt"),
        "https://graph.microsoft.com/v1.0/me/drive/root:/a%20b.txt:/content"
    );
    assert_eq!(
        upload_session_url("big.iso"),
        "https://graph.microsoft.com/v1.0/me/drive/root:/big.iso:/createUploadSession"
    );
    assert_eq!(item_url("ID1"), "https://graph.microsoft.com/v1.0/me/drive/items/ID1");
    assert_eq!(
        children_url(Some("P")),
        "https://graph.microsoft.com/v1.0/me/drive/items/P/children"
    );
    assert_eq!(children_url(None), "https://graph.microsoft.com/v1.0/me/drive/root/children");
}

#[test]
fn large_uploads_go_in_ten_mebibyte_pieces() {
    assert!(uses_simple_upload(250 * 1024 * 1024));
    assert!(!uses_simple_upload(250 * 1024 * 1024 + 1));
    assert_eq!(next_chunk_end(0, 25 * 1024 * 1024), 10 * 1024 * 1024);
    assert_eq!(next_chunk_end(20 * 1024 * 1024, 25 * 1024 * 1024), 25 * 1024 * 1024);
    assert_eq!(content_range(0, 10, 25), "bytes 0-9/25");
}

#[test]
fn remote_parents_are_listed_outermost_first() {
    assert_eq!(remote_parent_dirs("a/b/c.txt"), vec!["a".to_string(), "a/b".to_string()]);
    assert!(remote_parent_dirs("c.txt").is_empty());
    assert_eq!(remote_parent_dirs("./a//b/c.txt"), vec!["a".to_string(), "a/b".to_string()]);
}

#[test]
fn home_and_config_root_expand_like_the_filesystem() {
    assert_eq!(expand_home("/home/u", "~/OneDrive"), "/home/u/OneDrive");
    assert_eq!(expand_home("/home/u", "/abs"), "/abs");
    assert_eq!(config_root(Some("/xdg"), "/home/u"), "/xdg/onesync");
    assert_eq!(config_root(None, "/home/u"), "/home/u/.config/onesync");
    assert_eq!(join_path("/a/", "b"), "/a/b");
    assert_eq!(join_path("/a", "/b"), "/b");
}
