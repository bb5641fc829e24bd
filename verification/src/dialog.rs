//! What the dialogs show.

use vstd::prelude::*;
use crate::actions::FileChoice;
use crate::apps::{filtered_apps, Application, AppsState};
use crate::conduct::finds;
use crate::config::FtpPerms;
use crate::display::{format_size, size_text};
use crate::docker::{container_matches, filtered_containers, DockerContainer, DockerState};
use crate::filtering::{items_of, query_matches};
use crate::ftp::{FtpInfoFocus, FtpLogLevel, FtpReplaceFocus, FtpServerInfo};
use crate::git::{filtered_branches, GitBranch, GitBranchesState};
use crate::location::{show_location, Location};
use crate::palette::{action_enabled, action_label, actions_matching, filtered_actions};
use crate::palette::{filtered_recents, palette_action_enabled, recents_matching, PaletteAction};
use crate::path::{file_name, file_name_of};
use crate::process::{filtered_processes, Process, ProcessesState};
use crate::prompt::{DeleteFocus, NewFilesFocus, Prompt};
use crate::ssh::{filtered_servers, server_matches, SshServer, SshServersState};
use crate::text::{chars_of, concat2, concat3, decimal, decimal_text, string_from, string_of, texts};
use crate::text::{trim_end, trim_end_chars};

verus! {

/// The width of a dialog: lists need more room than questions.
pub fn dialog_width(prompt: &Prompt) -> (r: u16)
    ensures
        r == match prompt {
            Prompt::Docker { .. } => 720u16,
            Prompt::Processes { .. } => 720,
            Prompt::Apps { .. } => 720,
            Prompt::GitBranches { .. } => 720,
            Prompt::SshServers { .. } => 720,
            Prompt::KeyboardShortcuts => 600,
            Prompt::FtpInfo { .. } => 640,
            Prompt::FileActions { .. } => 520,
            _ => 440,
        },
{
    match prompt {
        Prompt::Docker { .. } => 720,
        Prompt::Processes { .. } => 720,
        Prompt::Apps { .. } => 720,
        Prompt::GitBranches { .. } => 720,
        Prompt::SshServers { .. } => 720,
        Prompt::KeyboardShortcuts => 600,
        Prompt::FtpInfo { .. } => 640,
        Prompt::FileActions { .. } => 520,
        _ => 440,
    }
}

/// The file name of a path, or nothing.
pub open spec fn name_or_nothing(p: Seq<char>) -> Seq<char> {
    match file_name(p) {
        Some(n) => n,
        None => seq![],
    }
}

/// The file name of a path, or the path.
pub open spec fn name_or_path(p: Seq<char>) -> Seq<char> {
    match file_name(p) {
        Some(n) => n,
        None => p,
    }
}

/// The title of a dialog.
pub open spec fn title_of(prompt: Prompt) -> Seq<char> {
    match prompt {
        Prompt::Open { .. } => "Go to folder"@,
        Prompt::Copy { .. } => "Copy selected to"@,
        Prompt::Move { .. } => "Move selected to"@,
        Prompt::NewFolder { .. } => "New folder"@,
        Prompt::NewFile { .. } => "New file"@,
        Prompt::Compress { .. } => "Compress selected to"@,
        Prompt::Uncompress { .. } => "Extract selected to"@,
        Prompt::CommandPalette { .. } => "Command Palette"@,
        Prompt::Delete { .. } => "Confirm delete"@,
        Prompt::ConfirmLargeExtract { .. } => "Extract large archive"@,
        Prompt::NewFiles { .. } => "New files detected"@,
        Prompt::Docker { .. } => "Docker containers"@,
        Prompt::Processes { .. } => "Processes"@,
        Prompt::Apps { .. } => "Launch Application"@,
        Prompt::GitBranches { .. } => "Git: branch"@,
        Prompt::SshServers { .. } => "Connect to SSH server"@,
        Prompt::KeyboardShortcuts => "Keyboard shortcuts"@,
        Prompt::FileActions { path, .. } => "Open  "@ + name_or_nothing(path@),
        Prompt::FtpInfo { .. } => "FTP server running"@,
        Prompt::FtpReplace { .. } => "Replace running FTP server?"@,
    }
}

/// The title of a dialog.
pub fn dialog_title(prompt: &Prompt) -> (r: String)
    ensures
        r@ == title_of(*prompt),
{
    match prompt {
        Prompt::FileActions { path, .. } => {
            let name = match file_name_of(path.as_str()) {
                Some(n) => n,
                None => String::new(),
            };
            assert(name@ =~= name_or_nothing(path@));
            concat2("Open  ", name.as_str())
        },
        Prompt::Open { .. } => string_from("Go to folder"),
        Prompt::Copy { .. } => string_from("Copy selected to"),
        Prompt::Move { .. } => string_from("Move selected to"),
        Prompt::NewFolder { .. } => string_from("New folder"),
        Prompt::NewFile { .. } => string_from("New file"),
        Prompt::Compress { .. } => string_from("Compress selected to"),
        Prompt::Uncompress { .. } => string_from("Extract selected to"),
        Prompt::CommandPalette { .. } => string_from("Command Palette"),
        Prompt::Delete { .. } => string_from("Confirm delete"),
        Prompt::ConfirmLargeExtract { .. } => string_from("Extract large archive"),
        Prompt::NewFiles { .. } => string_from("New files detected"),
        Prompt::Docker { .. } => string_from("Docker containers"),
        Prompt::Processes { .. } => string_from("Processes"),
        Prompt::Apps { .. } => string_from("Launch Application"),
        Prompt::GitBranches { .. } => string_from("Git: branch"),
        Prompt::SshServers { .. } => string_from("Connect to SSH server"),
        Prompt::KeyboardShortcuts => string_from("Keyboard shortcuts"),
        Prompt::FtpInfo { .. } => string_from("FTP server running"),
        Prompt::FtpReplace { .. } => string_from("Replace running FTP server?"),
    }
}

/// The line at the foot of a dialog that names its keys.
pub open spec fn hint_of(prompt: Prompt) -> Seq<char> {
    match prompt {
        Prompt::Open { .. } => "↑/↓ or Tab select  ·  Enter open  ·  Esc cancel"@,
        Prompt::Copy { .. } => "Enter to copy  ·  Esc or click outside to cancel"@,
        Prompt::Move { .. } => "Enter to move  ·  Esc or click outside to cancel"@,
        Prompt::NewFolder {
            ..
        } => "Created in the active pane  ·  Enter to create  ·  Esc cancels"@,
        Prompt::NewFile {
            ..
        } => "Created in the active pane, opens in your editor  ·  Enter to create  ·  Esc cancels"@,
        Prompt::Compress {
            ..
        } => "Bundled into one .zip (uses `zip -r`)  ·  Enter to compress  ·  Esc cancels"@,
        Prompt::Uncompress {
            ..
        } => "Each .zip / .tar.gz extracts to the destination directory  ·  Enter  ·  Esc cancels"@,
        Prompt::CommandPalette {
            ..
        } => "Type to filter  ·  ↑/↓ or Tab select  ·  Enter activate  ·  Esc dismiss"@,
        Prompt::Delete { .. } => "Tab or ←/→ switch  ·  Enter activate  ·  Esc cancel"@,
        Prompt::ConfirmLargeExtract {
            ..
        } => "Tab or ←/→ switch  ·  Enter activate  ·  Esc cancel"@,
        Prompt::NewFiles {
            ..
        } => "Tab cycles focus  ·  Enter activates  ·  Esc dismisses"@,
        Prompt::Docker {
            ..
        } => "Type to filter  ·  click a header to sort  ·  click Kill or Shell  ·  Esc dismisses"@,
        Prompt::Processes {
            ..
        } => "Type to filter  ·  click a header to sort  ·  click Kill (SIGTERM)  ·  Esc dismisses"@,
        Prompt::Apps {
            ..
        } => "Type to filter  ·  ↑/↓ select  ·  Enter or click Launch  ·  Esc dismisses"@,
        Prompt::GitBranches {
            ..
        } => "Type to filter  ·  ↑/↓ select  ·  Enter or click Checkout  ·  Esc dismisses"@,
        Prompt::SshServers {
            ..
        } => "Type to filter  ·  ↑/↓ select  ·  Enter / Connect launches terminal  ·  Open lists the host in this pane  ·  Esc dismisses"@,
        Prompt::KeyboardShortcuts => "Esc dismisses"@,
        Prompt::FileActions {
            ..
        } => "↑/↓ select  ·  Tab expand/edit command  ·  Enter or click to open  ·  Esc cancels"@,
        Prompt::FtpInfo {
            ..
        } => "Tab or ←/→ switch  ·  Enter activate  ·  Esc closes (server keeps running)"@,
        Prompt::FtpReplace { .. } => "Tab or ←/→ switch  ·  Enter activate  ·  Esc cancels"@,
    }
}

/// The line at the foot of a dialog that names its keys.
pub fn dialog_hint(prompt: &Prompt) -> (r: &'static str)
    ensures
        r@ == hint_of(*prompt),
{
    match prompt {
        Prompt::Open { .. } => "↑/↓ or Tab select  ·  Enter open  ·  Esc cancel",
        Prompt::Copy { .. } => "Enter to copy  ·  Esc or click outside to cancel",
        Prompt::Move { .. } => "Enter to move  ·  Esc or click outside to cancel",
        Prompt::NewFolder {
            ..
        } => "Created in the active pane  ·  Enter to create  ·  Esc cancels",
        Prompt::NewFile {
            ..
        } => "Created in the active pane, opens in your editor  ·  Enter to create  ·  Esc cancels",
        Prompt::Compress {
            ..
        } => "Bundled into one .zip (uses `zip -r`)  ·  Enter to compress  ·  Esc cancels",
        Prompt::Uncompress {
            ..
        } => "Each .zip / .tar.gz extracts to the destination directory  ·  Enter  ·  Esc cancels",
        Prompt::CommandPalette {
            ..
        } => "Type to filter  ·  ↑/↓ or Tab select  ·  Enter activate  ·  Esc dismiss",
        Prompt::Delete { .. } => "Tab or ←/→ switch  ·  Enter activate  ·  Esc cancel",
        Prompt::ConfirmLargeExtract {
            ..
        } => "Tab or ←/→ switch  ·  Enter activate  ·  Esc cancel",
        Prompt::NewFiles { .. } => "Tab cycles focus  ·  Enter activates  ·  Esc dismisses",
        Prompt::Docker {
            ..
        } => "Type to filter  ·  click a header to sort  ·  click Kill or Shell  ·  Esc dismisses",
        Prompt::Processes {
            ..
        } => "Type to filter  ·  click a header to sort  ·  click Kill (SIGTERM)  ·  Esc dismisses",
        Prompt::Apps {
            ..
        } => "Type to filter  ·  ↑/↓ select  ·  Enter or click Launch  ·  Esc dismisses",
        Prompt::GitBranches {
            ..
        } => "Type to filter  ·  ↑/↓ select  ·  Enter or click Checkout  ·  Esc dismisses",
        Prompt::SshServers {
            ..
        } => "Type to filter  ·  ↑/↓ select  ·  Enter / Connect launches terminal  ·  Open lists the host in this pane  ·  Esc dismisses",
        Prompt::KeyboardShortcuts => "Esc dismisses",
        Prompt::FileActions {
            ..
        } => "↑/↓ select  ·  Tab expand/edit command  ·  Enter or click to open  ·  Esc cancels",
        Prompt::FtpInfo {
            ..
        } => "Tab or ←/→ switch  ·  Enter activate  ·  Esc closes (server keeps running)",
        Prompt::FtpReplace { .. } => "Tab or ←/→ switch  ·  Enter activate  ·  Esc cancels",
    }
}

/// What an empty input of a dialog shows; nothing where it has no input.
pub fn dialog_placeholder(prompt: &Prompt) -> (r: Option<&'static str>)
    ensures
        match prompt {
            Prompt::Open { .. } => r matches Some(s) && s@ == "type a path or filter recents…"@,
            Prompt::Copy { .. } => r matches Some(s) && s@ == "/path/to/destination"@,
            Prompt::Move { .. } => r matches Some(s) && s@ == "/path/to/destination"@,
            Prompt::NewFolder { .. } => r matches Some(s) && s@ == "folder name"@,
            Prompt::NewFile { .. } => r matches Some(s) && s@ == "file name"@,
            Prompt::Compress { .. } => r matches Some(s) && s@ == "/path/to/output.zip"@,
            Prompt::Uncompress { .. } => r matches Some(s) && s@ == "/path/to/destination"@,
            Prompt::CommandPalette { .. } => r matches Some(s) && s@ == "filter actions…"@,
            Prompt::Docker { .. } => r matches Some(s) && s@ == "filter by name or image…"@,
            Prompt::Processes { .. } => r matches Some(s) && s@ == "filter by name…"@,
            Prompt::Apps { .. } => r matches Some(s) && s@ == "filter apps…"@,
            Prompt::GitBranches { .. } => r matches Some(s) && s@ == "filter branches…"@,
            Prompt::SshServers { .. } => r matches Some(s) && s@ == "filter by alias or hostname…"@,
            Prompt::FileActions { edit, .. } => if edit is Some {
                r matches Some(s) && s@ == "command…"@
            } else {
                r is None
            },
            _ => r is None,
        },
{
    match prompt {
        Prompt::Open { .. } => Some("type a path or filter recents…"),
        Prompt::Copy { .. } => Some("/path/to/destination"),
        Prompt::Move { .. } => Some("/path/to/destination"),
        Prompt::NewFolder { .. } => Some("folder name"),
        Prompt::NewFile { .. } => Some("file name"),
        Prompt::Compress { .. } => Some("/path/to/output.zip"),
        Prompt::Uncompress { .. } => Some("/path/to/destination"),
        Prompt::CommandPalette { .. } => Some("filter actions…"),
        Prompt::Docker { .. } => Some("filter by name or image…"),
        Prompt::Processes { .. } => Some("filter by name…"),
        Prompt::Apps { .. } => Some("filter apps…"),
        Prompt::GitBranches { .. } => Some("filter branches…"),
        Prompt::SshServers { .. } => Some("filter by alias or hostname…"),
        Prompt::FileActions { edit, .. } => match edit {
            Some(_) => Some("command…"),
            None => None,
        },
        _ => None,
    }
}

// ---- Questions -------------------------------------------------------------

/// The question before a deletion.
pub open spec fn delete_text(paths: Seq<Location>) -> Seq<char> {
    if paths.len() == 1 {
        "Do you really want to delete \""@ + (match file_name(paths[0]@.path()) {
            Some(n) => n,
            None => show_location(paths[0]@),
        }) + "\"?"@
    } else {
        "Do you really want to delete "@ + decimal(paths.len()) + " files?"@
    }
}

/// The question before a deletion.
pub fn delete_question(paths: &Vec<Location>) -> (r: String)
    ensures
        r@ == delete_text(paths@),
{
    if paths.len() == 1 {
        let name = match file_name_of(paths[0].path()) {
            Some(n) => n,
            None => paths[0].to_text(),
        };
        concat3("Do you really want to delete \"", name.as_str(), "\"?")
    } else {
        let n = decimal_text(paths.len() as u64);
        concat3("Do you really want to delete ", n.as_str(), " files?")
    }
}

/// The question before a large archive is unpacked.
pub fn extract_question(archive: &str, size_bytes: u64) -> (r: String)
    ensures
        r@ == "\""@ + name_or_path(archive@) + "\" is "@ + size_text(size_bytes as nat)
            + ". Extract it to /tmp and browse?"@,
{
    let name = match file_name_of(archive) {
        Some(n) => n,
        None => string_from(archive),
    };
    let size = format_size(size_bytes);
    let mut t = concat3("\"", name.as_str(), "\" is ");
    t.push_str(size.as_str());
    t.push_str(". Extract it to /tmp and browse?");
    t
}

/// The line above a list of new files.
pub fn new_files_header(folder: &str, count: usize) -> (r: String)
    ensures
        r@ == (if count == 1 {
            "New file detected in "@ + folder@ + ":"@
        } else {
            decimal(count as nat) + " new files detected in "@ + folder@ + ":"@
        }),
{
    if count == 1 {
        concat3("New file detected in ", folder, ":")
    } else {
        let n = decimal_text(count as u64);
        let mut t = concat3(n.as_str(), " new files detected in ", folder);
        t.push_str(":");
        t
    }
}

/// How many new files are listed by name.
pub const MAX_LISTED: usize = 8;

/// A line for each name.
pub open spec fn bullet_lines(names: Seq<Seq<char>>) -> Seq<char>
    decreases names.len(),
{
    if names.len() == 0 {
        seq![]
    } else {
        bullet_lines(names.drop_last()) + "  • "@ + names.last() + "\n"@
    }
}

/// The list of new files: the first few by name, and how many more there are.
pub open spec fn listing_text(files: Seq<Seq<char>>) -> Seq<char> {
    if files.len() > MAX_LISTED {
        trim_end(
            bullet_lines(files.take(MAX_LISTED as int)) + "  …and "@ + decimal(
                (files.len() - MAX_LISTED) as nat,
            ) + " more\n"@,
        )
    } else {
        trim_end(bullet_lines(files))
    }
}

/// The list of new files.
pub fn new_files_listing(files: &Vec<String>) -> (r: String)
    ensures
        r@ == listing_text(texts(files@)),
{
    let ghost all = texts(files@);
    let n: usize = files.len();
    let mut t = String::new();
    let mut i: usize = 0;
    assert(all.take(0) =~= seq![]);
    assert(t@ =~= bullet_lines(all.take(0)));
    while i < n && i < MAX_LISTED
        invariant
            n == files@.len(),
            i <= n,
            i <= MAX_LISTED,
            all == texts(files@),
            t@ == bullet_lines(all.take(i as int)),
        decreases n - i,
    {
        t.push_str("  • ");
        t.push_str(files[i].as_str());
        t.push_str("\n");
        proof {
            assert(all.take(i + 1).drop_last() =~= all.take(i as int));
            assert(all.take(i + 1).last() == files@[i as int]@);
            assert(t@ =~= bullet_lines(all.take(i + 1)));
        }
        i += 1;
    }
    assert(n <= MAX_LISTED ==> all.take(i as int) =~= all);
    if n > MAX_LISTED {
        let more = decimal_text((n - MAX_LISTED) as u64);
        t.push_str("  …and ");
        t.push_str(more.as_str());
        t.push_str(" more\n");
    }
    let v = chars_of(t.as_str());
    string_of(trim_end_chars(v.as_slice()))
}

/// The lines of the question whether the FTP server is to move.
pub open spec fn replace_text(current: FtpServerInfo, new_root: Seq<char>) -> Seq<Seq<char>> {
    seq![
        "An FTP server is already running on "@ + current.display_host@ + ":"@ + decimal(
            current.port as nat,
        ) + "."@,
        "Currently serving: "@ + current.root@,
        "New root would be:  "@ + new_root,
        "Stop the running server and restart it on the new folder?"@,
    ]
}

/// The lines of the question whether the FTP server is to move.
pub fn replace_lines(current: &FtpServerInfo, new_root: &str) -> (r: Vec<String>)
    ensures
        texts(r@) == replace_text(*current, new_root@),
{
    let addr = current.display_addr();
    let first = concat3("An FTP server is already running on ", addr.as_str(), ".");
    let v: Vec<String> = vec![
        first,
        concat2("Currently serving: ", current.root.as_str()),
        concat2("New root would be:  ", new_root),
        string_from("Stop the running server and restart it on the new folder?"),
    ];
    assert(first@ =~= replace_text(*current, new_root@)[0]);
    assert(texts(v@) =~= replace_text(*current, new_root@));
    v
}

/// How much a button stands out.
#[derive(Debug, Clone, Copy, PartialEq, Eq, Structural)]
pub enum Tone {
    Subdued,
    Prominent,
    /// Prominent, for what destroys something.
    Danger,
}

/// The tone of a button that has the focus or not.
pub open spec fn tone(focused: bool, danger: bool) -> Tone {
    if !focused {
        Tone::Subdued
    } else if danger {
        Tone::Danger
    } else {
        Tone::Prominent
    }
}

/// A button's text and tone.
pub type Choice = (&'static str, Tone);

/// Buttons as plain values.
pub open spec fn choice_views(v: Seq<Choice>) -> Seq<(Seq<char>, Tone)> {
    Seq::new(v.len(), |i: int| (v[i].0@, v[i].1))
}

/// The buttons of a dialog, from left to right.
pub open spec fn choices_of(prompt: Prompt) -> Seq<(Seq<char>, Tone)> {
    match prompt {
        Prompt::Delete { focus, .. } => seq![
            ("Cancel"@, tone(focus == DeleteFocus::Cancel, false)),
            ("Delete"@, tone(focus == DeleteFocus::Confirm, true)),
        ],
        Prompt::ConfirmLargeExtract { focus, .. } => seq![
            ("Cancel"@, tone(focus == DeleteFocus::Cancel, false)),
            ("Extract"@, tone(focus == DeleteFocus::Confirm, false)),
        ],
        Prompt::NewFiles { focus, .. } => seq![
            ("No"@, tone(focus == NewFilesFocus::No, false)),
            ("Left pane"@, tone(focus == NewFilesFocus::Left, false)),
            ("Right pane"@, tone(focus == NewFilesFocus::Right, false)),
        ],
        Prompt::FtpInfo { focus, .. } => seq![
            ("Stop server"@, tone(focus == FtpInfoFocus::Stop, true)),
            ("Close"@, tone(focus == FtpInfoFocus::Close, false)),
        ],
        Prompt::FtpReplace { focus, .. } => seq![
            ("Cancel"@, tone(focus == FtpReplaceFocus::Cancel, false)),
            ("Stop and restart here"@, tone(focus == FtpReplaceFocus::Replace, true)),
        ],
        _ => seq![],
    }
}

fn tone_of(focused: bool, danger: bool) -> (r: Tone)
    ensures
        r == tone(focused, danger),
{
    if !focused {
        Tone::Subdued
    } else if danger {
        Tone::Danger
    } else {
        Tone::Prominent
    }
}

/// The buttons of a dialog, from left to right.
pub fn dialog_choices(prompt: &Prompt) -> (r: Vec<Choice>)
    ensures
        choice_views(r@) == choices_of(*prompt),
{
    let mut v: Vec<Choice> = Vec::new();
    match prompt {
        Prompt::Delete { focus, .. } => {
            v.push(("Cancel", tone_of(*focus == DeleteFocus::Cancel, false)));
            v.push(("Delete", tone_of(*focus == DeleteFocus::Confirm, true)));
        },
        Prompt::ConfirmLargeExtract { focus, .. } => {
            v.push(("Cancel", tone_of(*focus == DeleteFocus::Cancel, false)));
            v.push(("Extract", tone_of(*focus == DeleteFocus::Confirm, false)));
        },
        Prompt::NewFiles { focus, .. } => {
            v.push(("No", tone_of(*focus == NewFilesFocus::No, false)));
            v.push(("Left pane", tone_of(*focus == NewFilesFocus::Left, false)));
            v.push(("Right pane", tone_of(*focus == NewFilesFocus::Right, false)));
        },
        Prompt::FtpInfo { focus, .. } => {
            v.push(("Stop server", tone_of(*focus == FtpInfoFocus::Stop, true)));
            v.push(("Close", tone_of(*focus == FtpInfoFocus::Close, false)));
        },
        Prompt::FtpReplace { focus, .. } => {
            v.push(("Cancel", tone_of(*focus == FtpReplaceFocus::Cancel, false)));
            v.push(("Stop and restart here", tone_of(*focus == FtpReplaceFocus::Replace, true)));
        },
        _ => {},
    }
    assert(choice_views(v@) =~= choices_of(*prompt));
    v
}

// ---- The FTP server --------------------------------------------------------

/// A label and its value.
pub type Detail = (&'static str, String);

/// Details as plain values.
pub open spec fn detail_views(v: Seq<Detail>) -> Seq<(Seq<char>, Seq<char>)> {
    Seq::new(v.len(), |i: int| (v[i].0@, v[i].1@))
}

/// What is told about a running server.
pub open spec fn ftp_details(info: FtpServerInfo) -> Seq<(Seq<char>, Seq<char>)> {
    let base = seq![
        ("Address"@, info.display_host@ + ":"@ + decimal(info.port as nat)),
        ("Root"@, info.root@),
        (
            "Permissions"@,
            match info.permissions {
                FtpPerms::ReadOnly => "read-only"@,
                FtpPerms::ReadWrite => "read-write"@,
            },
        ),
    ];
    let user = match info.username {
        Some(u) => seq![("Username"@, u@)],
        None => seq![],
    };
    let pass = match info.password {
        Some(p) => seq![("Password"@, p@)],
        None => seq![],
    };
    let anonymous = if info.username is None && info.password is None {
        seq![("Auth"@, "anonymous (no credentials)"@)]
    } else {
        seq![]
    };
    base + user + pass + anonymous
}

/// What is told about a running server.
pub fn ftp_detail_rows(info: &FtpServerInfo) -> (r: Vec<Detail>)
    ensures
        detail_views(r@) == ftp_details(*info),
{
    let mut v: Vec<Detail> = Vec::new();
    v.push(("Address", info.display_addr()));
    v.push(("Root", info.root.clone()));
    v.push(
        (
            "Permissions",
            string_from(
                match info.permissions {
                    FtpPerms::ReadOnly => "read-only",
                    FtpPerms::ReadWrite => "read-write",
                },
            ),
        ),
    );
    let mut anonymous: bool = true;
    if let Some(u) = &info.username {
        v.push(("Username", u.clone()));
        anonymous = false;
    }
    if let Some(p) = &info.password {
        v.push(("Password", p.clone()));
        anonymous = false;
    }
    if anonymous {
        v.push(("Auth", string_from("anonymous (no credentials)")));
    }
    assert(detail_views(v@) =~= ftp_details(*info));
    v
}

/// The sign of a line of the log.
pub fn ftp_log_tag(level: FtpLogLevel) -> (r: &'static str)
    ensures
        r@ == match level {
            FtpLogLevel::Info => " · "@,
            FtpLogLevel::Auth => " ↪ "@,
            FtpLogLevel::Warn => " ! "@,
            FtpLogLevel::Error => " ✗ "@,
        },
{
    match level {
        FtpLogLevel::Info => " · ",
        FtpLogLevel::Auth => " ↪ ",
        FtpLogLevel::Warn => " ! ",
        FtpLogLevel::Error => " ✗ ",
    }
}

// ---- Lists -----------------------------------------------------------------

/// A row of a dialog's list.
#[derive(Debug)]
pub struct ListRow {
    pub cells: Vec<String>,
    pub highlighted: bool,
    pub enabled: bool,
}

/// A row as plain values.
#[verifier::ext_equal]
pub struct ListRowView {
    pub cells: Seq<Seq<char>>,
    pub highlighted: bool,
    pub enabled: bool,
}

impl View for ListRow {
    type V = ListRowView;

    open spec fn view(&self) -> ListRowView {
        ListRowView {
            cells: texts(self.cells@),
            highlighted: self.highlighted,
            enabled: self.enabled,
        }
    }
}

/// What a dialog shows in place of its list, or the list.
#[derive(Debug)]
pub enum ListBody {
    Notice(&'static str),
    Fault(String),
    Rows(Vec<ListRow>),
}

/// The body of a list as plain values.
#[verifier::ext_equal]
pub enum ListView {
    Notice(Seq<char>),
    Fault(Seq<char>),
    Rows(Seq<ListRowView>),
}

impl View for ListBody {
    type V = ListView;

    open spec fn view(&self) -> ListView {
        match self {
            ListBody::Notice(t) => ListView::Notice(t@),
            ListBody::Fault(t) => ListView::Fault(t@),
            ListBody::Rows(v) => ListView::Rows(v@.map_values(|r: ListRow| r@)),
        }
    }
}

/// A row that can be chosen.
pub open spec fn plain_row(cells: Seq<Seq<char>>, highlighted: bool) -> ListRowView {
    ListRowView { cells, highlighted, enabled: true }
}

/// The rows of items, or the notice that there are none.
pub open spec fn rows_or<T>(
    items: Seq<T>,
    cells: spec_fn(T) -> Seq<Seq<char>>,
    selected: int,
    notice: Seq<char>,
) -> ListView {
    if items.len() == 0 {
        ListView::Notice(notice)
    } else {
        ListView::Rows(Seq::new(items.len(), |i: int| plain_row(cells(items[i]), i == selected)))
    }
}

fn push_row(rows: &mut Vec<ListRow>, cells: Vec<String>, highlighted: bool)
    ensures
        final(rows)@.map_values(|r: ListRow| r@) == old(rows)@.map_values(|r: ListRow| r@).push(
            plain_row(texts(cells@), highlighted),
        ),
{
    let ghost before = rows@;
    let ghost row = ListRow { cells, highlighted, enabled: true };
    rows.push(ListRow { cells, highlighted, enabled: true });
    assert(rows@.map_values(|r: ListRow| r@) =~= before.map_values(|r: ListRow| r@).push(row@));
}

/// The cells of a place.
pub open spec fn place_cells(p: String) -> Seq<Seq<char>> {
    seq![p@]
}

/// The cells of a container: one without a name shows its id.
pub open spec fn container_cells(c: DockerContainer) -> Seq<Seq<char>> {
    seq![
        if c.name@.len() == 0 {
            c.id@
        } else {
            c.name@
        },
        c.image@,
        c.status@,
    ]
}

/// A share, aligned to the right.
pub open spec fn share_cell(label: Seq<char>, text: Seq<char>) -> Seq<char> {
    label + (if text.len() < 5 {
        Seq::new((5 - text.len()) as nat, |i: int| ' ')
    } else {
        seq![]
    }) + text + "%"@
}

/// The cells of a process.
pub open spec fn process_cells(p: Process) -> Seq<Seq<char>> {
    seq![
        p.name@,
        "PID "@ + decimal(p.pid as nat),
        share_cell("CPU "@, p.cpu.text@),
        share_cell("MEM "@, p.mem.text@),
    ]
}

/// The cells of an application.
pub open spec fn app_cells(a: Application) -> Seq<Seq<char>> {
    seq![a.name@]
}

/// The cells of a branch.
pub open spec fn branch_cells(b: GitBranch) -> Seq<Seq<char>> {
    seq![b.name@, b.last_commit@]
}

/// The user and the host that an alias stands for, as far as they are set.
pub open spec fn user_host(s: SshServer) -> Seq<char> {
    match (s.user, s.hostname) {
        (Some(u), Some(h)) => u@ + "@"@ + h@,
        (None, Some(h)) => h@,
        (Some(u), None) => u@ + "@?"@,
        (None, None) => seq![],
    }
}

/// The cells of a host.
pub open spec fn server_cells(s: SshServer) -> Seq<Seq<char>> {
    seq![
        s.alias@,
        user_host(s),
        match s.identity_file {
            Some(f) => f@,
            None => seq![],
        },
    ]
}

/// The cells of a way to open a file: its label, and what it runs.
pub open spec fn choice_cells(c: FileChoice) -> Seq<Seq<char>> {
    match c {
        FileChoice::OpenDefault => seq![
            "Open with default application"@,
            "opens in the OS default app"@,
        ],
        FileChoice::Custom { label, command, terminal } => seq![
            if terminal {
                "terminal: "@ + label@
            } else {
                label@
            },
            command@,
        ],
    }
}

fn share_text(label: &str, text: &str) -> (r: String)
    ensures
        r@ == share_cell(label@, text@),
{
    let v = chars_of(text);
    let n: usize = v.len();
    let mut r = string_from(label);
    let mut k: usize = n;
    assert(r@ =~= label@ + Seq::new(0, |i: int| ' '));
    while k < 5
        invariant
            n <= k,
            n <= 5 ==> k <= 5,
            n >= 5 ==> k == n,
            r@ == label@ + Seq::new((k - n) as nat, |i: int| ' '),
        decreases 5 - k,
    {
        r.push(' ');
        assert(r@ =~= label@ + Seq::new((k + 1 - n) as nat, |i: int| ' '));
        k += 1;
    }
    assert(n >= 5 ==> Seq::new((k - n) as nat, |i: int| ' ') =~= seq![]);
    r.push_str(text);
    r.push_str("%");
    r
}

fn list_recents(recents: &Vec<String>, input: &str, selected: usize) -> (r: ListBody)
    ensures
        r@ == rows_or(
            recents_matching(recents@, input@),
            |p: String| place_cells(p),
            selected as int,
            if recents@.len() == 0 {
                "No recent locations yet — type a path and press Enter."@
            } else {
                "No recent locations match — type a path and press Enter."@
            },
        ),
{
    let items = filtered_recents(recents.as_slice(), input);
    let ghost all = recents_matching(recents@, input@);
    assert(items_of(items@).len() == items@.len());
    if items.len() == 0 {
        return if recents.len() == 0 {
            ListBody::Notice("No recent locations yet — type a path and press Enter.")
        } else {
            ListBody::Notice("No recent locations match — type a path and press Enter.")
        };
    }
    let ghost want = Seq::new(
        all.len(),
        |i: int| plain_row(place_cells(all[i]), i == selected as int),
    );
    let mut rows: Vec<ListRow> = Vec::new();
    let mut i: usize = 0;
    assert(rows@.map_values(|r: ListRow| r@) =~= want.take(0));
    while i < items.len()
        invariant
            i <= items@.len(),
            items_of(items@) == all,
            want == Seq::new(
                all.len(),
                |k: int| plain_row(place_cells(all[k]), k == selected as int),
            ),
            rows@.map_values(|r: ListRow| r@) == want.take(i as int),
        decreases items.len() - i,
    {
        let cells: Vec<String> = vec![items[i].clone()];
        assert(all[i as int] == *items@[i as int]);
        assert(texts(cells@) =~= place_cells(all[i as int]));
        push_row(&mut rows, cells, i == selected);
        assert(rows@.map_values(|r: ListRow| r@) =~= want.take(i + 1));
        i += 1;
    }
    assert(want.take(i as int) =~= want);
    ListBody::Rows(rows)
}

/// What is said beside an action that cannot be chosen yet.
pub const CREDENTIALS_HINT: &'static str = "set credentials in ~/.rho.yaml";

/// The cells of an action: its label, and a hint where it cannot be chosen yet.
pub open spec fn action_cells(a: PaletteAction, dropbox_configured: bool) -> Seq<Seq<char>> {
    if action_enabled(a, dropbox_configured) {
        seq![action_label(a)]
    } else {
        seq![action_label(a), CREDENTIALS_HINT@]
    }
}

fn list_actions(prompt: &Prompt) -> (r: ListBody)
    requires
        prompt is CommandPalette,
    ensures
        r@ == list_of(*prompt)->Some_0,
{
    match prompt {
        Prompt::CommandPalette { input, selected, actions, dropbox_configured } => {
            let items = filtered_actions(actions.as_slice(), input.as_str());
            let ghost all = actions_matching(actions@, input@);
            if items.len() == 0 {
                return ListBody::Notice("No actions match.");
            }
            let ghost want = Seq::new(
                all.len(),
                |i: int|
                    ListRowView {
                        cells: action_cells(all[i], *dropbox_configured),
                        highlighted: i == *selected as int,
                        enabled: action_enabled(all[i], *dropbox_configured),
                    },
            );
            let mut rows: Vec<ListRow> = Vec::new();
            let mut i: usize = 0;
            assert(rows@.map_values(|r: ListRow| r@) =~= want.take(0));
            while i < items.len()
                invariant
                    i <= items@.len(),
                    items@ == all,
                    want == Seq::new(
                        all.len(),
                        |k: int|
                            ListRowView {
                                cells: action_cells(all[k], *dropbox_configured),
                                highlighted: k == *selected as int,
                                enabled: action_enabled(all[k], *dropbox_configured),
                            },
                    ),
                    rows@.map_values(|r: ListRow| r@) == want.take(i as int),
                decreases items.len() - i,
            {
                let enabled: bool = palette_action_enabled(items[i], *dropbox_configured);
                let mut cells: Vec<String> = vec![string_from(items[i].label())];
                if !enabled {
                    cells.push(string_from(CREDENTIALS_HINT));
                }
                let row = ListRow { cells, highlighted: i == *selected, enabled };
                assert(texts(row.cells@) =~= action_cells(all[i as int], *dropbox_configured));
                let ghost before = rows@;
                rows.push(row);
                assert(rows@.map_values(|r: ListRow| r@) =~= before.map_values(
                    |r: ListRow| r@,
                ).push(row@));
                assert(rows@.map_values(|r: ListRow| r@) =~= want.take(i + 1));
                i += 1;
            }
            assert(want.take(i as int) =~= want);
            ListBody::Rows(rows)
        },
        _ => ListBody::Notice(""),
    }
}

fn list_containers(items: &Vec<&DockerContainer>, Ghost(all): Ghost<Seq<DockerContainer>>) -> (r:
    ListBody)
    requires
        items_of(items@) == all,
    ensures
        r@ == rows_or(
            all,
            |c: DockerContainer| container_cells(c),
            -1,
            "No containers match."@,
        ),
{
    assert(items_of(items@).len() == items@.len());
    if items.len() == 0 {
        return ListBody::Notice("No containers match.");
    }
    let ghost want = Seq::new(all.len(), |i: int| plain_row(container_cells(all[i]), i == -1));
    let mut rows: Vec<ListRow> = Vec::new();
    let mut i: usize = 0;
    assert(rows@.map_values(|r: ListRow| r@) =~= want.take(0));
    while i < items.len()
        invariant
            i <= items@.len(),
            items_of(items@) == all,
            want == Seq::new(all.len(), |k: int| plain_row(container_cells(all[k]), k == -1)),
            rows@.map_values(|r: ListRow| r@) == want.take(i as int),
        decreases items.len() - i,
    {
        let c = items[i];
        assert(all[i as int] == *c);
        let name = chars_of(c.name.as_str());
        let shown = if name.len() == 0 {
            c.id.clone()
        } else {
            c.name.clone()
        };
        let cells: Vec<String> = vec![shown, c.image.clone(), c.status.clone()];
        assert(texts(cells@) =~= container_cells(all[i as int]));
        push_row(&mut rows, cells, false);
        assert(rows@.map_values(|r: ListRow| r@) =~= want.take(i + 1));
        i += 1;
    }
    assert(want.take(i as int) =~= want);
    ListBody::Rows(rows)
}

fn list_processes(
    items: &Vec<&Process>,
    selected: usize,
    Ghost(all): Ghost<Seq<Process>>,
) -> (r: ListBody)
    requires
        items_of(items@) == all,
    ensures
        r@ == rows_or(
            all,
            |p: Process| process_cells(p),
            selected as int,
            "No processes match."@,
        ),
{
    assert(items_of(items@).len() == items@.len());
    if items.len() == 0 {
        return ListBody::Notice("No processes match.");
    }
    let ghost want = Seq::new(
        all.len(),
        |i: int| plain_row(process_cells(all[i]), i == selected as int),
    );
    let mut rows: Vec<ListRow> = Vec::new();
    let mut i: usize = 0;
    assert(rows@.map_values(|r: ListRow| r@) =~= want.take(0));
    while i < items.len()
        invariant
            i <= items@.len(),
            items_of(items@) == all,
            want == Seq::new(
                all.len(),
                |k: int| plain_row(process_cells(all[k]), k == selected as int),
            ),
            rows@.map_values(|r: ListRow| r@) == want.take(i as int),
        decreases items.len() - i,
    {
        let p = items[i];
        assert(all[i as int] == *p);
        let pid = decimal_text(p.pid as u64);
        let cells: Vec<String> = vec![
            p.name.clone(),
            concat2("PID ", pid.as_str()),
            share_text("CPU ", p.cpu.text.as_str()),
            share_text("MEM ", p.mem.text.as_str()),
        ];
        assert(texts(cells@) =~= process_cells(all[i as int]));
        push_row(&mut rows, cells, i == selected);
        assert(rows@.map_values(|r: ListRow| r@) =~= want.take(i + 1));
        i += 1;
    }
    assert(want.take(i as int) =~= want);
    ListBody::Rows(rows)
}

fn list_apps(apps: &Vec<Application>, input: &str, selected: usize) -> (r: ListBody)
    ensures
        r@ == rows_or(
            apps@.filter(|a: Application| query_matches(a.name@, input@)),
            |a: Application| app_cells(a),
            selected as int,
            "No apps match."@,
        ),
{
    let items = filtered_apps(apps.as_slice(), input);
    let ghost all = apps@.filter(|a: Application| query_matches(a.name@, input@));
    assert(items_of(items@).len() == items@.len());
    if items.len() == 0 {
        return ListBody::Notice("No apps match.");
    }
    let ghost want = Seq::new(
        all.len(),
        |i: int| plain_row(app_cells(all[i]), i == selected as int),
    );
    let mut rows: Vec<ListRow> = Vec::new();
    let mut i: usize = 0;
    assert(rows@.map_values(|r: ListRow| r@) =~= want.take(0));
    while i < items.len()
        invariant
            i <= items@.len(),
            items_of(items@) == all,
            want == Seq::new(
                all.len(),
                |k: int| plain_row(app_cells(all[k]), k == selected as int),
            ),
            rows@.map_values(|r: ListRow| r@) == want.take(i as int),
        decreases items.len() - i,
    {
        assert(all[i as int] == *items@[i as int]);
        let cells: Vec<String> = vec![items[i].name.clone()];
        assert(texts(cells@) =~= app_cells(all[i as int]));
        push_row(&mut rows, cells, i == selected);
        assert(rows@.map_values(|r: ListRow| r@) =~= want.take(i + 1));
        i += 1;
    }
    assert(want.take(i as int) =~= want);
    ListBody::Rows(rows)
}

fn list_branches(branches: &Vec<GitBranch>, input: &str, selected: usize) -> (r: ListBody)
    ensures
        r@ == rows_or(
            branches@.filter(|b: GitBranch| query_matches(b.name@, input@)),
            |b: GitBranch| branch_cells(b),
            selected as int,
            "No branches match."@,
        ),
{
    let items = filtered_branches(branches.as_slice(), input);
    let ghost all = branches@.filter(|b: GitBranch| query_matches(b.name@, input@));
    assert(items_of(items@).len() == items@.len());
    if items.len() == 0 {
        return ListBody::Notice("No branches match.");
    }
    let ghost want = Seq::new(
        all.len(),
        |i: int| plain_row(branch_cells(all[i]), i == selected as int),
    );
    let mut rows: Vec<ListRow> = Vec::new();
    let mut i: usize = 0;
    assert(rows@.map_values(|r: ListRow| r@) =~= want.take(0));
    while i < items.len()
        invariant
            i <= items@.len(),
            items_of(items@) == all,
            want == Seq::new(
                all.len(),
                |k: int| plain_row(branch_cells(all[k]), k == selected as int),
            ),
            rows@.map_values(|r: ListRow| r@) == want.take(i as int),
        decreases items.len() - i,
    {
        assert(all[i as int] == *items@[i as int]);
        let cells: Vec<String> = vec![items[i].name.clone(), items[i].last_commit.clone()];
        assert(texts(cells@) =~= branch_cells(all[i as int]));
        push_row(&mut rows, cells, i == selected);
        assert(rows@.map_values(|r: ListRow| r@) =~= want.take(i + 1));
        i += 1;
    }
    assert(want.take(i as int) =~= want);
    ListBody::Rows(rows)
}

fn user_host_text(s: &SshServer) -> (r: String)
    ensures
        r@ == user_host(*s),
{
    match (&s.user, &s.hostname) {
        (Some(u), Some(h)) => concat3(u.as_str(), "@", h.as_str()),
        (None, Some(h)) => h.clone(),
        (Some(u), None) => concat2(u.as_str(), "@?"),
        (None, None) => {
            let e = String::new();
            assert(e@ =~= seq![]);
            e
        },
    }
}

fn list_servers(servers: &Vec<SshServer>, input: &str, selected: usize) -> (r: ListBody)
    ensures
        r@ == rows_or(
            servers@.filter(|s: SshServer| server_matches(s, input@)),
            |s: SshServer| server_cells(s),
            selected as int,
            "No servers match."@,
        ),
{
    let items = filtered_servers(servers.as_slice(), input);
    let ghost all = servers@.filter(|s: SshServer| server_matches(s, input@));
    assert(items_of(items@).len() == items@.len());
    if items.len() == 0 {
        return ListBody::Notice("No servers match.");
    }
    let ghost want = Seq::new(
        all.len(),
        |i: int| plain_row(server_cells(all[i]), i == selected as int),
    );
    let mut rows: Vec<ListRow> = Vec::new();
    let mut i: usize = 0;
    assert(rows@.map_values(|r: ListRow| r@) =~= want.take(0));
    while i < items.len()
        invariant
            i <= items@.len(),
            items_of(items@) == all,
            want == Seq::new(
                all.len(),
                |k: int| plain_row(server_cells(all[k]), k == selected as int),
            ),
            rows@.map_values(|r: ListRow| r@) == want.take(i as int),
        decreases items.len() - i,
    {
        let s = items[i];
        assert(all[i as int] == *s);
        let identity = match &s.identity_file {
            Some(f) => f.clone(),
            None => String::new(),
        };
        let cells: Vec<String> = vec![s.alias.clone(), user_host_text(s), identity];
        assert(identity@ =~= server_cells(all[i as int])[2]);
        assert(texts(cells@) =~= server_cells(all[i as int]));
        push_row(&mut rows, cells, i == selected);
        assert(rows@.map_values(|r: ListRow| r@) =~= want.take(i + 1));
        i += 1;
    }
    assert(want.take(i as int) =~= want);
    ListBody::Rows(rows)
}

fn list_file_choices(choices: &Vec<FileChoice>, selected: usize) -> (r: ListBody)
    ensures
        r@ == ListView::Rows(
            Seq::new(
                choices@.len(),
                |i: int| plain_row(choice_cells(choices@[i]), i == selected as int),
            ),
        ),
{
    let ghost want = Seq::new(
        choices@.len(),
        |i: int| plain_row(choice_cells(choices@[i]), i == selected as int),
    );
    let mut rows: Vec<ListRow> = Vec::new();
    let mut i: usize = 0;
    assert(rows@.map_values(|r: ListRow| r@) =~= want.take(0));
    while i < choices.len()
        invariant
            i <= choices@.len(),
            want == Seq::new(
                choices@.len(),
                |k: int| plain_row(choice_cells(choices@[k]), k == selected as int),
            ),
            rows@.map_values(|r: ListRow| r@) == want.take(i as int),
        decreases choices.len() - i,
    {
        let cells: Vec<String> = match &choices[i] {
            FileChoice::OpenDefault => vec![
                string_from("Open with default application"),
                string_from("opens in the OS default app"),
            ],
            FileChoice::Custom { label, command, terminal } => {
                let line = if *terminal {
                    concat2("terminal: ", label.as_str())
                } else {
                    label.clone()
                };
                vec![line, command.clone()]
            },
        };
        assert(texts(cells@) =~= choice_cells(choices@[i as int]));
        push_row(&mut rows, cells, i == selected);
        assert(rows@.map_values(|r: ListRow| r@) =~= want.take(i + 1));
        i += 1;
    }
    assert(want.take(i as int) =~= want);
    ListBody::Rows(rows)
}

/// The list of a dialog, if it has one: the items that its input matches, or
/// why there are none.
pub open spec fn list_of(prompt: Prompt) -> Option<ListView> {
    match prompt {
        Prompt::Open { input, recents, selected } => Some(
            rows_or(
                recents_matching(recents@, input@),
                |p: String| place_cells(p),
                selected as int,
                if recents@.len() == 0 {
                    "No recent locations yet — type a path and press Enter."@
                } else {
                    "No recent locations match — type a path and press Enter."@
                },
            ),
        ),
        Prompt::CommandPalette { input, selected, actions, dropbox_configured } => {
            let all = actions_matching(actions@, input@);
            Some(
                if all.len() == 0 {
                    ListView::Notice("No actions match."@)
                } else {
                    ListView::Rows(
                        Seq::new(
                            all.len(),
                            |i: int|
                                ListRowView {
                                    cells: action_cells(all[i], dropbox_configured),
                                    highlighted: i == selected as int,
                                    enabled: action_enabled(all[i], dropbox_configured),
                                },
                        ),
                    )
                },
            )
        },
        Prompt::Docker { state, input, .. } => Some(
            match state {
                DockerState::Loading => ListView::Notice("Loading…"@),
                DockerState::Error(e) => ListView::Fault(e@),
                DockerState::Loaded(v) => if v@.len() == 0 {
                    ListView::Notice("No running containers."@)
                } else {
                    rows_or(
                        v@.filter(|c: DockerContainer| container_matches(c, input@)),
                        |c: DockerContainer| container_cells(c),
                        -1,
                        "No containers match."@,
                    )
                },
            },
        ),
        Prompt::Processes { state, input, selected, .. } => Some(
            match state {
                ProcessesState::Loading => ListView::Notice("Loading…"@),
                ProcessesState::Error(e) => ListView::Fault(e@),
                ProcessesState::Loaded(v) => if v@.len() == 0 {
                    ListView::Notice("No processes."@)
                } else {
                    rows_or(
                        v@.filter(|p: Process| query_matches(p.name@, input@)),
                        |p: Process| process_cells(p),
                        selected as int,
                        "No processes match."@,
                    )
                },
            },
        ),
        Prompt::Apps { state, input, selected } => Some(
            match state {
                AppsState::Loading => ListView::Notice("Loading…"@),
                AppsState::Error(e) => ListView::Fault(e@),
                AppsState::Loaded(v) => rows_or(
                    v@.filter(|a: Application| query_matches(a.name@, input@)),
                    |a: Application| app_cells(a),
                    selected as int,
                    "No apps match."@,
                ),
            },
        ),
        Prompt::GitBranches { state, input, selected, .. } => Some(
            match state {
                GitBranchesState::Loading => ListView::Notice("Loading…"@),
                GitBranchesState::Error(e) => ListView::Fault(e@),
                GitBranchesState::Loaded(v) => rows_or(
                    v@.filter(|b: GitBranch| query_matches(b.name@, input@)),
                    |b: GitBranch| branch_cells(b),
                    selected as int,
                    "No branches match."@,
                ),
            },
        ),
        Prompt::SshServers { state, input, selected } => Some(
            match state {
                SshServersState::Loading => ListView::Notice("Loading…"@),
                SshServersState::Error(e) => ListView::Fault(e@),
                SshServersState::Loaded(v) => rows_or(
                    v@.filter(|s: SshServer| server_matches(s, input@)),
                    |s: SshServer| server_cells(s),
                    selected as int,
                    "No servers match."@,
                ),
            },
        ),
        Prompt::FileActions { choices, selected, .. } => Some(
            ListView::Rows(
                Seq::new(
                    choices@.len(),
                    |i: int| plain_row(choice_cells(choices@[i]), i == selected as int),
                ),
            ),
        ),
        _ => None,
    }
}

/// The list of a dialog, if it has one.
pub fn dialog_list(prompt: &Prompt) -> (r: Option<ListBody>)
    ensures
        match list_of(*prompt) {
            Some(l) => r matches Some(b) && b@ == l,
            None => r is None,
        },
{
    match prompt {
        Prompt::Open { input, recents, selected } => Some(
            list_recents(recents, input.as_str(), *selected),
        ),
        Prompt::CommandPalette { .. } => Some(list_actions(prompt)),
        Prompt::Docker { state, input, .. } => Some(
            match state {
                DockerState::Loading => ListBody::Notice("Loading…"),
                DockerState::Error(e) => ListBody::Fault(e.clone()),
                DockerState::Loaded(v) => if v.len() == 0 {
                    ListBody::Notice("No running containers.")
                } else {
                    let items = filtered_containers(v.as_slice(), input.as_str());
                    list_containers(
                        &items,
                        Ghost(v@.filter(|c: DockerContainer| container_matches(c, input@))),
                    )
                },
            },
        ),
        Prompt::Processes { state, input, selected, .. } => Some(
            match state {
                ProcessesState::Loading => ListBody::Notice("Loading…"),
                ProcessesState::Error(e) => ListBody::Fault(e.clone()),
                ProcessesState::Loaded(v) => if v.len() == 0 {
                    ListBody::Notice("No processes.")
                } else {
                    let items = filtered_processes(v.as_slice(), input.as_str());
                    list_processes(
                        &items,
                        *selected,
                        Ghost(v@.filter(|p: Process| query_matches(p.name@, input@))),
                    )
                },
            },
        ),
        Prompt::Apps { state, input, selected } => Some(
            match state {
                AppsState::Loading => ListBody::Notice("Loading…"),
                AppsState::Error(e) => ListBody::Fault(e.clone()),
                AppsState::Loaded(v) => list_apps(v, input.as_str(), *selected),
            },
        ),
        Prompt::GitBranches { state, input, selected, .. } => Some(
            match state {
                GitBranchesState::Loading => ListBody::Notice("Loading…"),
                GitBranchesState::Error(e) => ListBody::Fault(e.clone()),
                GitBranchesState::Loaded(v) => list_branches(v, input.as_str(), *selected),
            },
        ),
        Prompt::SshServers { state, input, selected } => Some(
            match state {
                SshServersState::Loading => ListBody::Notice("Loading…"),
                SshServersState::Error(e) => ListBody::Fault(e.clone()),
                SshServersState::Loaded(v) => list_servers(v, input.as_str(), *selected),
            },
        ),
        Prompt::FileActions { choices, selected, .. } => Some(
            list_file_choices(choices, *selected),
        ),
        _ => None,
    }
}

/// The highlight of a list is on the row that the dialog has selected, and on
/// no other.
pub proof fn one_row_is_highlighted(prompt: Prompt, rows: Seq<ListRowView>, selected: int)
    requires
        list_of(prompt) == Some(ListView::Rows(rows)),
        match prompt {
            Prompt::Open { selected: s, .. } => s == selected,
            Prompt::CommandPalette { selected: s, .. } => s == selected,
            Prompt::Processes { selected: s, .. } => s == selected,
            Prompt::Apps { selected: s, .. } => s == selected,
            Prompt::GitBranches { selected: s, .. } => s == selected,
            Prompt::SshServers { selected: s, .. } => s == selected,
            Prompt::FileActions { selected: s, .. } => s == selected,
            _ => false,
        },
    ensures
        forall|i: int| 0 <= i < rows.len() ==> ((#[trigger] rows[i]).highlighted <==> i == selected),
{
}

/// Items stand in the rows of a list one by one, each with its own cells.
proof fn lemma_rows_or<T>(
    items: Seq<T>,
    cells: spec_fn(T) -> Seq<Seq<char>>,
    selected: int,
    notice: Seq<char>,
)
    ensures
        items.len() > 0 ==> (rows_or(items, cells, selected, notice) matches ListView::Rows(rows)
            && rows.len() == items.len() && forall|i: int|
            0 <= i < rows.len() ==> (#[trigger] rows[i]).cells == cells(items[i])),
        items.len() == 0 ==> rows_or(items, cells, selected, notice) == ListView::Notice(notice),
{
}

/// The list of a dialog has a row for each item that the text finds, in their
/// order and each under its own name, and no other; where it finds none there is
/// no list.
pub proof fn every_found_item_is_listed(p: Prompt, list: ListView, i: int)
    requires
        list_of(p) == Some(list),
        0 <= i,
    ensures
        p matches Prompt::Processes { state: ProcessesState::Loaded(v), input, .. } ==> {
            let found = v@.filter(|x: Process| finds(x.name@, input@));
            if found.len() > 0 {
                list matches ListView::Rows(rows) && rows.len() == found.len() && (i < rows.len()
                    ==> rows[i].cells[0] == found[i].name@ && rows[i].cells[1] == "PID "@ + decimal(
                    found[i].pid as nat,
                ))
            } else {
                list is Notice
            }
        },
        p matches Prompt::Apps { state: AppsState::Loaded(v), input, .. } ==> {
            let found = v@.filter(|x: Application| finds(x.name@, input@));
            if found.len() > 0 {
                list matches ListView::Rows(rows) && rows.len() == found.len() && (i < rows.len()
                    ==> rows[i].cells[0] == found[i].name@)
            } else {
                list is Notice
            }
        },
        p matches Prompt::GitBranches { state: GitBranchesState::Loaded(v), input, .. } ==> {
            let found = v@.filter(|x: GitBranch| finds(x.name@, input@));
            if found.len() > 0 {
                list matches ListView::Rows(rows) && rows.len() == found.len() && (i < rows.len()
                    ==> rows[i].cells[0] == found[i].name@ && rows[i].cells[1]
                    == found[i].last_commit@)
            } else {
                list is Notice
            }
        },
        p matches Prompt::SshServers { state: SshServersState::Loaded(v), input, .. } ==> {
            let found = v@.filter(
                |x: SshServer|
                    finds(x.alias@, input@) || (x.hostname matches Some(h) && finds(h@, input@)),
            );
            if found.len() > 0 {
                list matches ListView::Rows(rows) && rows.len() == found.len() && (i < rows.len()
                    ==> rows[i].cells[0] == found[i].alias@)
            } else {
                list is Notice
            }
        },
        p matches Prompt::Docker { state: DockerState::Loaded(v), input, .. } ==> {
            let found = v@.filter(
                |x: DockerContainer| finds(x.name@, input@) || finds(x.image@, input@),
            );
            if found.len() > 0 {
                list matches ListView::Rows(rows) && rows.len() == found.len() && (i < rows.len()
                    ==> (found[i].name@.len() > 0 ==> rows[i].cells[0] == found[i].name@)
                    && rows[i].cells[1] == found[i].image@ && rows[i].cells[2] == found[i].status@)
            } else {
                list is Notice
            }
        },
        p matches Prompt::Open { input, recents, .. } ==> {
            let found = recents@.filter(|x: String| finds(x@, input@));
            if found.len() > 0 {
                list matches ListView::Rows(rows) && rows.len() == found.len() && (i < rows.len()
                    ==> rows[i].cells[0] == found[i]@)
            } else {
                list is Notice
            }
        },
        p matches Prompt::CommandPalette { input, actions, .. } ==> {
            let found = actions@.filter(|x: PaletteAction| finds(action_label(x), input@));
            if found.len() > 0 {
                list matches ListView::Rows(rows) && rows.len() == found.len() && (i < rows.len()
                    ==> rows[i].cells[0] == action_label(found[i]))
            } else {
                list is Notice
            }
        },
        p matches Prompt::FileActions { choices, .. } ==> (list matches ListView::Rows(rows)
            && rows.len() == choices@.len()),
{
    reveal(Seq::filter);
    match p {
        Prompt::Processes { state: ProcessesState::Loaded(v), input, selected, .. } => {
            let keep = |x: Process| finds(x.name@, input@);
            assert((|x: Process| query_matches(x.name@, input@)) =~= keep);
            lemma_rows_or(
                v@.filter(keep),
                |p: Process| process_cells(p),
                selected as int,
                "No processes match."@,
            );
        },
        Prompt::Apps { state: AppsState::Loaded(v), input, selected } => {
            let keep = |x: Application| finds(x.name@, input@);
            assert((|x: Application| query_matches(x.name@, input@)) =~= keep);
            lemma_rows_or(
                v@.filter(keep),
                |a: Application| app_cells(a),
                selected as int,
                "No apps match."@,
            );
        },
        Prompt::GitBranches { state: GitBranchesState::Loaded(v), input, selected, .. } => {
            let keep = |x: GitBranch| finds(x.name@, input@);
            assert((|x: GitBranch| query_matches(x.name@, input@)) =~= keep);
            lemma_rows_or(
                v@.filter(keep),
                |b: GitBranch| branch_cells(b),
                selected as int,
                "No branches match."@,
            );
        },
        Prompt::SshServers { state: SshServersState::Loaded(v), input, selected } => {
            let keep = |x: SshServer|
                finds(x.alias@, input@) || (x.hostname matches Some(h) && finds(h@, input@));
            assert((|x: SshServer| server_matches(x, input@)) =~= keep);
            lemma_rows_or(
                v@.filter(keep),
                |s: SshServer| server_cells(s),
                selected as int,
                "No servers match."@,
            );
        },
        Prompt::Docker { state: DockerState::Loaded(v), input, .. } => {
            let keep = |x: DockerContainer| finds(x.name@, input@) || finds(x.image@, input@);
            assert((|x: DockerContainer| container_matches(x, input@)) =~= keep);
            lemma_rows_or(
                v@.filter(keep),
                |c: DockerContainer| container_cells(c),
                -1,
                "No containers match."@,
            );
        },
        Prompt::Open { input, recents, selected } => {
            let keep = |x: String| finds(x@, input@);
            assert((|x: String| query_matches(x@, input@)) =~= keep);
            lemma_rows_or(
                recents@.filter(keep),
                |p: String| place_cells(p),
                selected as int,
                if recents@.len() == 0 {
                    "No recent locations yet — type a path and press Enter."@
                } else {
                    "No recent locations match — type a path and press Enter."@
                },
            );
        },
        Prompt::CommandPalette { input, actions, .. } => {
            let keep = |x: PaletteAction| finds(action_label(x), input@);
            assert((|x: PaletteAction| query_matches(action_label(x), input@)) =~= keep);
        },
        _ => {},
    }
}

/// The question before a deletion names the one file that would go, or tells how
/// many would.
pub proof fn deletions_are_spelled_out(paths: Seq<Location>, name: Seq<char>)
    ensures
        paths.len() == 1 && file_name(paths[0]@.path()) == Some(name) ==> delete_text(paths)
            == "Do you really want to delete \""@ + name + "\"?"@,
        paths.len() > 1 ==> delete_text(paths) == "Do you really want to delete "@ + decimal(
            paths.len(),
        ) + " files?"@,
{
}

/// The button that has the focus stands out, and no other does.
pub proof fn the_focused_button_stands_out(p: Prompt, i: int)
    requires
        0 <= i < choices_of(p).len(),
    ensures
        choices_of(p)[i].1 != Tone::Subdued <==> match p {
            Prompt::Delete { focus, .. } | Prompt::ConfirmLargeExtract { focus, .. } => (i == 1)
                == (focus == DeleteFocus::Confirm),
            Prompt::NewFiles { focus, .. } => match focus {
                NewFilesFocus::No => i == 0,
                NewFilesFocus::Left => i == 1,
                NewFilesFocus::Right => i == 2,
            },
            Prompt::FtpInfo { focus, .. } => (i == 0) == (focus == FtpInfoFocus::Stop),
            Prompt::FtpReplace { focus, .. } => (i == 1) == (focus == FtpReplaceFocus::Replace),
            _ => false,
        },
{
}

} // verus!
