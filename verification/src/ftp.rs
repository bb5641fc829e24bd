//! The built-in FTP server: what is known of a running one, and its log.

use std::collections::VecDeque;
use vstd::prelude::*;
use crate::config::FtpPerms;
use crate::entry::Timestamp;
use crate::path::{paths_equal, same_path};
use crate::text::{concat3, decimal, decimal_text, string_from};

verus! {

/// Connection details of a running server.
#[derive(Debug, PartialEq, Eq)]
pub struct FtpServerInfo {
    /// The address that the server is bound to.
    pub bind: String,
    pub port: u16,
    /// The host that clients are shown.
    pub display_host: String,
    /// The folder that is served.
    pub root: String,
    pub username: Option<String>,
    pub password: Option<String>,
    pub permissions: FtpPerms,
    pub started_at: Timestamp,
}

fn clone_opt(s: &Option<String>) -> (r: Option<String>)
    ensures
        r == *s,
{
    match s {
        Some(t) => Some(t.clone()),
        None => None,
    }
}

impl Clone for FtpServerInfo {
    fn clone(&self) -> (r: Self)
        ensures
            r == *self,
    {
        FtpServerInfo {
            bind: self.bind.clone(),
            port: self.port,
            display_host: self.display_host.clone(),
            root: self.root.clone(),
            username: clone_opt(&self.username),
            password: clone_opt(&self.password),
            permissions: self.permissions,
            started_at: self.started_at,
        }
    }
}

impl FtpServerInfo {
    /// The address that clients are shown, `host:port`.
    pub fn display_addr(&self) -> (r: String)
        ensures
            r@ == self.display_host@ + ":"@ + decimal(self.port as nat),
    {
        let port = decimal_text(self.port as u64);
        concat3(self.display_host.as_str(), ":", port.as_str())
    }
}

/// How serious a line of the log is.
#[derive(Debug, Clone, Copy, PartialEq, Eq, Structural)]
pub enum FtpLogLevel {
    Info,
    Auth,
    Warn,
    Error,
}

/// A line of the log.
#[derive(Debug)]
pub struct FtpLogEntry {
    pub ts: Timestamp,
    pub level: FtpLogLevel,
    pub message: String,
}

/// How many lines of the log are kept.
pub const FTP_LOG_CAP: usize = 200;

/// The log with one line more: where it is full, the oldest line goes.
pub open spec fn log_with(log: Seq<FtpLogEntry>, e: FtpLogEntry) -> Seq<FtpLogEntry> {
    let all = log.push(e);
    if all.len() > FTP_LOG_CAP {
        all.skip(all.len() - FTP_LOG_CAP)
    } else {
        all
    }
}

/// The log never holds more lines than its cap, and the newest is its last.
pub proof fn log_is_capped(log: Seq<FtpLogEntry>, e: FtpLogEntry)
    ensures
        0 < log_with(log, e).len() <= FTP_LOG_CAP,
        log_with(log, e).last() == e,
{
}

/// Adds a line to the log.
pub fn push_log(log: &mut VecDeque<FtpLogEntry>, entry: FtpLogEntry)
    ensures
        final(log)@ == log_with(old(log)@, entry),
{
    let ghost all = log@.push(entry);
    log.push_back(entry);
    assert(log@ =~= all.skip(0));
    let ghost mut dropped: int = 0;
    while log.len() > FTP_LOG_CAP
        invariant
            0 <= dropped <= all.len(),
            log@ == all.skip(dropped),
            dropped == 0 || all.len() - dropped >= FTP_LOG_CAP,
        decreases log.len(),
    {
        let _ = log.pop_front();
        proof {
            assert(all.skip(dropped).subrange(1, all.len() - dropped) =~= all.skip(dropped + 1));
            dropped = dropped + 1;
        }
    }
    assert(all.skip(0) =~= all);
}

#[derive(Debug, Clone, Copy, PartialEq, Eq, Structural)]
pub enum FtpInfoFocus {
    Stop,
    Close,
}

impl FtpInfoFocus {
    /// The other button.
    pub fn toggle(self) -> (r: Self)
        ensures
            r == self.spec_toggle(),
    {
        match self {
            FtpInfoFocus::Stop => FtpInfoFocus::Close,
            FtpInfoFocus::Close => FtpInfoFocus::Stop,
        }
    }

    pub open spec fn spec_toggle(self) -> FtpInfoFocus {
        match self {
            FtpInfoFocus::Stop => FtpInfoFocus::Close,
            FtpInfoFocus::Close => FtpInfoFocus::Stop,
        }
    }
}

#[derive(Debug, Clone, Copy, PartialEq, Eq, Structural)]
pub enum FtpReplaceFocus {
    Cancel,
    Replace,
}

impl FtpReplaceFocus {
    /// The other button.
    pub fn toggle(self) -> (r: Self)
        ensures
            r == self.spec_toggle(),
    {
        match self {
            FtpReplaceFocus::Cancel => FtpReplaceFocus::Replace,
            FtpReplaceFocus::Replace => FtpReplaceFocus::Cancel,
        }
    }

    pub open spec fn spec_toggle(self) -> FtpReplaceFocus {
        match self {
            FtpReplaceFocus::Cancel => FtpReplaceFocus::Replace,
            FtpReplaceFocus::Replace => FtpReplaceFocus::Cancel,
        }
    }
}

/// Two toggles of a dialog's buttons restore the focus.
pub proof fn ftp_focus_toggles_are_involutions(a: FtpInfoFocus, b: FtpReplaceFocus)
    ensures
        a.spec_toggle() != a,
        a.spec_toggle().spec_toggle() == a,
        b.spec_toggle() != b,
        b.spec_toggle().spec_toggle() == b,
{
}

/// What the palette's server action does.
#[derive(Debug, PartialEq, Eq)]
pub enum FtpAction {
    /// Start a server for this folder.
    StartFresh(String),
    /// Show the server that runs for this folder.
    ShowInfo,
    /// Ask whether the running server is to be replaced by one for this folder.
    AskReplace(String),
}

/// What the server action does in a folder, given the server that runs.
pub open spec fn ftp_decided(
    current: Option<&FtpServerInfo>,
    pane_root: Seq<char>,
    r: FtpAction,
) -> bool {
    match current {
        None => r matches FtpAction::StartFresh(p) && p@ == pane_root,
        Some(info) => if same_path(info.root@, pane_root) {
            r is ShowInfo
        } else {
            r matches FtpAction::AskReplace(p) && p@ == pane_root
        },
    }
}

/// Decides what the server action does in a folder, given the server that runs.
pub fn decide_ftp_action(current: Option<&FtpServerInfo>, pane_root: &str) -> (r: FtpAction)
    ensures
        ftp_decided(current, pane_root@, r),
{
    match current {
        None => FtpAction::StartFresh(string_from(pane_root)),
        Some(info) => if paths_equal(info.root.as_str(), pane_root) {
            FtpAction::ShowInfo
        } else {
            FtpAction::AskReplace(string_from(pane_root))
        },
    }
}

/// The log keeps its lines in order, all of them until it is full and then the
/// newest.
pub proof fn log_keeps_the_newest(log: Seq<FtpLogEntry>, e: FtpLogEntry)
    ensures
        log.len() < 200 ==> log_with(log, e) == log.push(e),
        log.len() == 200 ==> log_with(log, e) == log.skip(1).push(e),
{
    if log.len() == 200 {
        assert(log.push(e).skip(1) =~= log.skip(1).push(e));
    }
}

/// A server is started where none runs, one that runs for the same folder is
/// shown, and one for another folder is replaced only after a question.
pub proof fn servers_are_not_replaced_unasked(
    current: Option<&FtpServerInfo>,
    root: Seq<char>,
    r: FtpAction,
)
    requires
        ftp_decided(current, root, r),
    ensures
        r is StartFresh <==> current is None,
        r is ShowInfo <==> (current matches Some(info) && crate::path::components(info.root@)
            == crate::path::components(root)),
        r matches FtpAction::StartFresh(p) ==> p@ == root,
        r matches FtpAction::AskReplace(p) ==> p@ == root,
{
}

} // verus!
