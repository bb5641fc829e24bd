use rho::dropbox::{CurlResult, DropboxListing, Paging, RawEntry, RawListing, RawToken, cache_token, continue_body, create_folder_body, create_folder_result, download_error, dropbox_api_path, dropbox_error_summary, dropbox_listing, dropbox_token, error_message_with, is_success, join_dropbox, list_folder_body, metadata_is_folder, read_curl_output, rpc_result, transfer_body, upload_arg, usable_token};

fn text_field(v: &serde_json::Value, key: &str) -> Option<String> {
    v.get(key).and_then(|t| t.as_str()).map(|t| t.to_string())
}

fn raw_listing(json: &str) -> RawListing {
    let v: serde_json::Value = serde_json::from_str(json).unwrap();
    let entries = v.get("entries").and_then(|e| e.as_array()).cloned().unwrap_or_default();
    RawListing {
        entries: entries
            .iter()
            .map(|e| RawEntry {
                tag: text_field(e, ".tag").unwrap_or_default(),
                name: text_field(e, "name").unwrap_or_default(),
                size: e.get("size").and_then(|s| s.as_u64()),
                server_modified: text_field(e, "server_modified"),
            })
            .collect(),
        cursor: text_field(&v, "cursor"),
        has_more: v.get("has_more").and_then(|b| b.as_bool()).unwrap_or(false),
        error_summary: text_field(&v, "error_summary"),
    }
}

fn parse_dropbox_list(json: &str) -> Result<DropboxListing, String> {
    dropbox_listing(raw_listing(json))
}

fn parse_dropbox_token(json: &str) -> Result<(String, u64), String> {
    let v: serde_json::Value = serde_json::from_str(json).unwrap();
    dropbox_token(RawToken {
        access_token: text_field(&v, "access_token"),
        expires_in: v.get("expires_in").and_then(|n| n.as_u64()),
        error_description: text_field(&v, "error_description"),
        error: text_field(&v, "error"),
    })
}

#[test]
fn dropbox_api_path_maps_root_to_empty() {
    assert_eq!(dropbox_api_path("/"), "");
    assert_eq!(dropbox_api_path("/Photos"), "/Photos");
    assert_eq!(dropbox_api_path("/Photos/a.jpg"), "/Photos/a.jpg");
    // Trailing slash is trimmed.
    assert_eq!(dropbox_api_path("/Photos/"), "/Photos");
}

#[test]
fn parse_dropbox_list_maps_files_and_folders() {
    let json = r#"{
            "entries": [
                {".tag": "folder", "name": "Photos"},
                {".tag": "file", "name": "report.pdf", "size": 1024,
                 "server_modified": "2015-05-12T15:50:38Z"},
                {".tag": "deleted", "name": "gone.txt"}
            ],
            "cursor": "abc",
            "has_more": false
        }"#;
    let listing = parse_dropbox_list(json).unwrap();
    // The `deleted` entry is dropped.
    assert_eq!(listing.entries.len(), 2);
    let folder = &listing.entries[0];
    assert_eq!(folder.name, "Photos");
    assert!(folder.is_dir);
    assert_eq!(folder.size, None);
    let file = &listing.entries[1];
    assert_eq!(file.name, "report.pdf");
    assert!(!file.is_dir);
    assert_eq!(file.size, Some(1024));
    assert!(file.modified.is_some());
    // has_more false → no continuation cursor.
    assert_eq!(listing.cursor, None);
}

#[test]
fn parse_dropbox_list_returns_cursor_when_has_more() {
    let json = r#"{"entries": [], "cursor": "next-page", "has_more": true}"#;
    let listing = parse_dropbox_list(json).unwrap();
    assert_eq!(listing.cursor.as_deref(), Some("next-page"));
}

#[test]
fn parse_dropbox_list_surfaces_api_error() {
    let json = r#"{"error_summary": "path/not_found/", "error": {".tag": "path"}}"#;
    let err = parse_dropbox_list(json).unwrap_err();
    assert!(err.contains("not_found"));
}

#[test]
fn parse_dropbox_token_extracts_token_and_expiry() {
    let json = r#"{"access_token": "sl.abc", "token_type": "bearer", "expires_in": 14400}"#;
    let (token, expires) = parse_dropbox_token(json).unwrap();
    assert_eq!(token, "sl.abc");
    assert_eq!(expires, 14400);
}

#[test]
fn parse_dropbox_token_surfaces_oauth_error() {
    let json = r#"{"error": "invalid_grant", "error_description": "refresh token is invalid"}"#;
    let err = parse_dropbox_token(json).unwrap_err();
    assert_eq!(err, "refresh token is invalid");
}

#[test]
fn dropbox_error_summary_strips_trailing_dot() {
    let json = r#"{"error_summary": "path/not_found/.", "error": {".tag": "path"}}"#;
    assert_eq!(
        dropbox_error_summary(json).as_deref(),
        Some("path/not_found")
    );
    assert_eq!(dropbox_error_summary("not json"), None);
}

#[test]
fn api_paths_join() {
    assert_eq!(join_dropbox("", "a"), "/a");
    assert_eq!(join_dropbox("/x/", "a"), "/x/a");
    assert_eq!(dropbox_api_path("x"), "/x");
}

#[test]
fn bodies_are_json() {
    assert_eq!(list_folder_body("/a\"b"), "{\"path\":\"/a\\\"b\",\"recursive\":false}");
    assert_eq!(continue_body("c"), "{\"cursor\":\"c\"}");
    assert_eq!(create_folder_body("/x"), "{\"autorename\":false,\"path\":\"/x\"}");
    assert_eq!(transfer_body("/a", "/b"), "{\"from_path\":\"/a\",\"to_path\":\"/b\"}");
    assert_eq!(upload_arg("/é"), "{\"mode\":\"overwrite\",\"mute\":true,\"path\":\"/é\"}");
}

#[test]
fn json_strings_escape_what_they_must() {
    assert_eq!(continue_body("a\\b\n\t\r"), "{\"cursor\":\"a\\\\b\\n\\t\\r\"}");
    assert_eq!(continue_body("\u{1}\u{1f}"), "{\"cursor\":\"\\u0001\\u001f\"}");
    assert_eq!(continue_body("\u{8}\u{c}\u{7f}"), "{\"cursor\":\"\\b\\f\u{7f}\"}");
}

#[test]
fn curl_output_is_split() {
    let ok = read_curl_output("line\nbody\n200", "").unwrap();
    assert_eq!((ok.status, ok.body.as_str()), (200, "line\nbody"));
    assert_eq!(read_curl_output("\n000", " no route \n").unwrap_err(), "no route");
    assert_eq!(read_curl_output("", "").unwrap_err(), "curl request failed");
}

#[test]
fn answers_that_are_no_success() {
    let bad = |status: u16, body: &str| rpc_result(CurlResult { status, body: body.to_string() });
    assert_eq!(bad(204, "x"), Ok("x".to_string()));
    assert_eq!(
        bad(409, "{\"error_summary\": \"path/conflict/folder/..\"}"),
        Err("path/conflict/folder".to_string())
    );
    assert_eq!(bad(500, " oops "), Err("Dropbox API error (HTTP 500): oops".to_string()));
    assert_eq!(bad(500, " "), Err("Dropbox API error (HTTP 500)".to_string()));
    assert_eq!(error_message_with(None, "", 404), "Dropbox API error (HTTP 404)");
    assert_eq!(download_error(None, 404), "download failed (HTTP 404)");
    assert_eq!(download_error(Some("{\"error_summary\": \"gone.\"}"), 409), "gone");
}

#[test]
fn folders_that_exist_are_fine() {
    assert_eq!(create_folder_result(Err("path/conflict/folder".to_string())), Ok(()));
    assert_eq!(create_folder_result(Err("no".to_string())), Err("no".to_string()));
    assert_eq!(create_folder_result(Ok("{}".to_string())), Ok(()));
}

#[test]
fn metadata_tells_folders_apart() {
    assert_eq!(metadata_is_folder("{\".tag\": \"folder\"}"), Ok(true));
    assert_eq!(metadata_is_folder("{\".tag\": \"file\"}"), Ok(false));
    assert_eq!(metadata_is_folder("{}"), Ok(false));
    assert!(metadata_is_folder("{").is_err());
}

#[test]
fn pages_are_gathered() {
    let page = |json: &str| parse_dropbox_list(json).unwrap();
    let mut all = Paging::start(page(
        "{\"entries\": [{\".tag\": \"folder\", \"name\": \"a\"}], \"cursor\": \"n\", \"has_more\": true}",
    ));
    assert_eq!(all.next_body().as_deref(), Some("{\"cursor\":\"n\"}"));
    all.absorb(page(
        "{\"entries\": [{\".tag\": \"folder\", \"name\": \"b\"}], \"cursor\": \"m\", \"has_more\": false}",
    ));
    assert_eq!(all.entries.len(), 2);
    assert_eq!(all.next_body(), None);
}

#[test]
fn tokens_are_renewed_a_minute_early() {
    let cached = Some(cache_token("t".to_string(), 100, 1_000));
    assert_eq!(usable_token(&cached, 1_000).as_deref(), Some("t"));
    assert_eq!(usable_token(&cached, 40_999).as_deref(), Some("t"));
    assert_eq!(usable_token(&cached, 41_000), None);
    assert_eq!(usable_token(&None, 0), None);
}

#[test]
fn only_the_two_hundreds_are_successes() {
    assert!(is_success(200) && is_success(299));
    assert!(!is_success(199) && !is_success(300) && !is_success(409));
}
