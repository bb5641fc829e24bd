use std::collections::VecDeque;
use rho::entry::{Side, SortDir};
use rho::ftp::{FtpInfoFocus, FtpReplaceFocus};
use rho::prompt::{DeleteFocus, NewFilesFocus, merge_pending_new_files, wrap_row};

#[test]
fn sort_dir_toggle_round_trips() {
    assert_eq!(SortDir::Asc.toggled(), SortDir::Desc);
    assert_eq!(SortDir::Desc.toggled(), SortDir::Asc);
    assert_eq!(SortDir::Asc.toggled().toggled(), SortDir::Asc);
}

#[test]
fn side_other_flips() {
    assert_eq!(Side::Left.other(), Side::Right);
    assert_eq!(Side::Right.other(), Side::Left);
    assert_eq!(Side::Left.other().other(), Side::Left);
}

#[test]
fn delete_focus_toggle() {
    assert_eq!(DeleteFocus::Cancel.toggle(), DeleteFocus::Confirm);
    assert_eq!(DeleteFocus::Confirm.toggle(), DeleteFocus::Cancel);
}

#[test]
fn merge_pending_new_files_extends_same_folder() {
    let mut pending = VecDeque::new();
    merge_pending_new_files(
        &mut pending,
        "/tmp/downloads".to_string(),
        vec!["a.zip".to_string()],
    );
    merge_pending_new_files(
        &mut pending,
        "/tmp/downloads".to_string(),
        vec!["b.zip".to_string()],
    );
    assert_eq!(pending.len(), 1);
    assert_eq!(pending[0].1, vec!["a.zip".to_string(), "b.zip".to_string()]);
}

#[test]
fn merge_pending_new_files_queues_distinct_folders() {
    let mut pending = VecDeque::new();
    merge_pending_new_files(
        &mut pending,
        "/tmp/downloads".to_string(),
        vec!["a.zip".to_string()],
    );
    merge_pending_new_files(
        &mut pending,
        "/tmp/other".to_string(),
        vec!["c.zip".to_string()],
    );
    assert_eq!(pending.len(), 2);
    assert_eq!(pending[0].0, "/tmp/downloads".to_string());
    assert_eq!(pending[1].0, "/tmp/other".to_string());
}

#[test]
fn ftp_focus_toggles_round_trip() {
    assert_eq!(FtpInfoFocus::Close.toggle(), FtpInfoFocus::Stop);
    assert_eq!(FtpInfoFocus::Stop.toggle(), FtpInfoFocus::Close);
    assert_eq!(FtpReplaceFocus::Cancel.toggle(), FtpReplaceFocus::Replace);
    assert_eq!(FtpReplaceFocus::Replace.toggle(), FtpReplaceFocus::Cancel);
}

#[test]
fn new_files_focus_cycles() {
    assert_eq!(NewFilesFocus::No.next().next().next(), NewFilesFocus::No);
    assert_ne!(NewFilesFocus::No.next(), NewFilesFocus::No);
}

#[test]
fn highlight_wraps_around() {
    assert_eq!(wrap_row(0, -1, 3), 2);
    assert_eq!(wrap_row(2, 1, 3), 0);
    assert_eq!(wrap_row(1, 0, 3), 1);
    assert_eq!(wrap_row(wrap_row(1, 7, 3), -7, 3), 1);
}
