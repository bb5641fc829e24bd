use std::collections::VecDeque;
use rho::clock::{format_log_timestamp, format_modified};
use rho::config::FtpPerms;
use rho::dialog::{ftp_detail_rows, ftp_log_tag, replace_lines};
use rho::entry::Timestamp;
use rho::ftp::{FTP_LOG_CAP, FtpAction, FtpLogEntry, FtpLogLevel, FtpServerInfo, decide_ftp_action, push_log};

fn ftp_info_for(root: &str) -> FtpServerInfo {
    FtpServerInfo {
        bind: "0.0.0.0".to_string(),
        port: 2121,
        display_host: "192.168.1.10".to_string(),
        root: root.to_string(),
        username: Some("rho".to_string()),
        password: Some("abcDEF123456".to_string()),
        permissions: FtpPerms::ReadOnly,
        started_at: Timestamp { secs: 0, nanos: 0 },
    }
}

#[test]
fn decide_ftp_action_starts_fresh_when_no_server() {
    let act = decide_ftp_action(None, "/tmp");
    assert_eq!(act, FtpAction::StartFresh("/tmp".to_string()));
}

#[test]
fn decide_ftp_action_shows_info_when_same_path() {
    let info = ftp_info_for("/tmp");
    let act = decide_ftp_action(Some(&info), "/tmp");
    assert_eq!(act, FtpAction::ShowInfo);
}

#[test]
fn decide_ftp_action_asks_replace_when_paths_differ() {
    let info = ftp_info_for("/tmp");
    let act = decide_ftp_action(Some(&info), "/var/log");
    assert_eq!(act, FtpAction::AskReplace("/var/log".to_string()));
}

#[test]
fn ftp_server_info_display_addr_combines_host_and_port() {
    let info = ftp_info_for("/tmp");
    assert_eq!(info.display_addr(), "192.168.1.10:2121");
}

#[test]
fn format_log_timestamp_matches_hms() {
    let ts = format_log_timestamp(Timestamp { secs: 0, nanos: 0 }, 0);
    // We don't pin the exact value (an offset may shift midnight),
    // but the shape is always `HH:MM:SS` — eight chars, two colons,
    // each segment two digits.
    assert_eq!(ts.len(), 8);
    let bytes = ts.as_bytes();
    assert_eq!(bytes[2], b':');
    assert_eq!(bytes[5], b':');
    assert!(ts.chars().filter(|c| c.is_ascii_digit()).count() == 6);
}

#[test]
fn times_of_day_follow_the_offset() {
    let t = Timestamp { secs: 3661, nanos: 5 };
    assert_eq!(format_log_timestamp(t, 0), "01:01:01");
    assert_eq!(format_log_timestamp(t, -7200), "23:01:01");
    assert_eq!(format_log_timestamp(Timestamp { secs: 86399, nanos: 0 }, 1), "00:00:00");
}

#[test]
fn dates_are_short() {
    let t = Timestamp { secs: 1431445838, nanos: 0 };
    assert_eq!(format_modified(t, 0), "5/12/15 3:50 PM");
    assert_eq!(format_modified(t, -43200), "5/12/15 3:50 AM");
}

#[test]
fn log_keeps_the_newest_lines() {
    let mut log: VecDeque<FtpLogEntry> = VecDeque::new();
    for i in 0..250 {
        let entry = FtpLogEntry {
            ts: Timestamp { secs: i, nanos: 0 },
            level: FtpLogLevel::Info,
            message: format!("line {}", i),
        };
        push_log(&mut log, entry);
    }
    assert_eq!(log.len(), FTP_LOG_CAP);
    assert_eq!(log[0].message, "line 50");
    assert_eq!(log[199].message, "line 249");
}

#[test]
fn details_of_the_server() {
    let info = ftp_info_for("/srv");
    let rows = ftp_detail_rows(&info);
    let labels: Vec<&str> = rows.iter().map(|r| r.0).collect();
    assert_eq!(labels, vec!["Address", "Root", "Permissions", "Username", "Password"]);
    assert_eq!(rows[0].1, "192.168.1.10:2121");
    assert_eq!(rows[2].1, "read-only");
    let open = FtpServerInfo { username: None, password: None, ..ftp_info_for("/srv") };
    let rows = ftp_detail_rows(&open);
    assert_eq!(rows[3], ("Auth", "anonymous (no credentials)".to_string()));
    assert_eq!(ftp_log_tag(FtpLogLevel::Error), " ✗ ");
}

#[test]
fn replacing_the_server_names_both_folders() {
    let lines = replace_lines(&ftp_info_for("/srv"), "/var/log");
    assert_eq!(lines[0], "An FTP server is already running on 192.168.1.10:2121.");
    assert_eq!(lines[1], "Currently serving: /srv");
    assert_eq!(lines[2], "New root would be:  /var/log");
}
