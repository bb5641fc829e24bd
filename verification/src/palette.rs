//! The command palette, archive names and the list of shortcuts.

use vstd::prelude::*;
use vstd::slice::slice_subrange;
use crate::filtering::{lemma_filter_step, query_matches, Query};
use crate::path::{file_name, file_name_of, same_path, paths_equal, stem_of};
use crate::text::{chars_of, concat2, contains_text, has_suffix, lowercase, string_from};
use crate::text::{string_of, texts, ascii_lower, ascii_lower_chars, same_chars};

verus! {

/// The system that the application runs on.
#[derive(Debug, Clone, Copy, PartialEq, Eq, Structural)]
pub enum Platform {
    MacOs,
    Linux,
    Windows,
    Other,
}

/// An action of the command palette.
#[derive(Debug, Clone, Copy, PartialEq, Eq, Structural)]
pub enum PaletteAction {
    Copy,
    Move,
    Delete,
    Compress,
    Uncompress,
    DockerContainers,
    Processes,
    LaunchApplication,
    GitBranch,
    SshConnect,
    OpenDropbox,
    OpenClaudeCode,
    OpenTerminal,
    OpenInEditor,
    FtpServer,
    RevealInFinder,
    NewFile,
    KeyboardShortcuts,
    Exit,
}

/// The actions that a platform offers, in the order that they are listed.
pub open spec fn platform_actions(platform: Platform) -> Seq<PaletteAction> {
    if platform == Platform::MacOs {
        seq![
            PaletteAction::Copy,
            PaletteAction::Move,
            PaletteAction::Delete,
            PaletteAction::Compress,
            PaletteAction::Uncompress,
            PaletteAction::DockerContainers,
            PaletteAction::Processes,
            PaletteAction::LaunchApplication,
            PaletteAction::GitBranch,
            PaletteAction::SshConnect,
            PaletteAction::OpenDropbox,
            PaletteAction::OpenClaudeCode,
            PaletteAction::OpenTerminal,
            PaletteAction::OpenInEditor,
            PaletteAction::FtpServer,
            PaletteAction::RevealInFinder,
            PaletteAction::NewFile,
            PaletteAction::KeyboardShortcuts,
            PaletteAction::Exit,
        ]
    } else {
        seq![
            PaletteAction::Copy,
            PaletteAction::Move,
            PaletteAction::Delete,
            PaletteAction::Compress,
            PaletteAction::Uncompress,
            PaletteAction::DockerContainers,
            PaletteAction::Processes,
            PaletteAction::GitBranch,
            PaletteAction::SshConnect,
            PaletteAction::OpenDropbox,
            PaletteAction::OpenClaudeCode,
            PaletteAction::OpenTerminal,
            PaletteAction::OpenInEditor,
            PaletteAction::FtpServer,
            PaletteAction::NewFile,
            PaletteAction::KeyboardShortcuts,
            PaletteAction::Exit,
        ]
    }
}

/// The text that an action is listed under.
pub open spec fn action_label(a: PaletteAction) -> Seq<char> {
    match a {
        PaletteAction::Copy => "Copy"@,
        PaletteAction::Move => "Move"@,
        PaletteAction::Delete => "Delete"@,
        PaletteAction::Compress => "Compress"@,
        PaletteAction::Uncompress => "Uncompress"@,
        PaletteAction::DockerContainers => "Docker containers"@,
        PaletteAction::Processes => "Processes"@,
        PaletteAction::LaunchApplication => "Launch Application"@,
        PaletteAction::GitBranch => "Git: branch"@,
        PaletteAction::SshConnect => "Connect to SSH server"@,
        PaletteAction::OpenDropbox => "Open Dropbox"@,
        PaletteAction::OpenClaudeCode => "Open coding assistant in this folder"@,
        PaletteAction::OpenTerminal => "Open Terminal in this folder"@,
        PaletteAction::OpenInEditor => "Open folder in editor"@,
        PaletteAction::FtpServer => "FTP server"@,
        PaletteAction::RevealInFinder => "Open folder in Finder"@,
        PaletteAction::NewFile => "New file"@,
        PaletteAction::KeyboardShortcuts => "Keyboard shortcuts"@,
        PaletteAction::Exit => "Exit"@,
    }
}

impl PaletteAction {
    /// The actions that a platform offers.
    pub fn all(platform: Platform) -> (r: Vec<PaletteAction>)
        ensures
            r@ == platform_actions(platform),
    {
        if platform == Platform::MacOs {
            vec![
                PaletteAction::Copy,
                PaletteAction::Move,
                PaletteAction::Delete,
                PaletteAction::Compress,
                PaletteAction::Uncompress,
                PaletteAction::DockerContainers,
                PaletteAction::Processes,
                PaletteAction::LaunchApplication,
                PaletteAction::GitBranch,
                PaletteAction::SshConnect,
                PaletteAction::OpenDropbox,
                PaletteAction::OpenClaudeCode,
                PaletteAction::OpenTerminal,
                PaletteAction::OpenInEditor,
                PaletteAction::FtpServer,
                PaletteAction::RevealInFinder,
                PaletteAction::NewFile,
                PaletteAction::KeyboardShortcuts,
                PaletteAction::Exit,
            ]
        } else {
            vec![
                PaletteAction::Copy,
                PaletteAction::Move,
                PaletteAction::Delete,
                PaletteAction::Compress,
                PaletteAction::Uncompress,
                PaletteAction::DockerContainers,
                PaletteAction::Processes,
                PaletteAction::GitBranch,
                PaletteAction::SshConnect,
                PaletteAction::OpenDropbox,
                PaletteAction::OpenClaudeCode,
                PaletteAction::OpenTerminal,
                PaletteAction::OpenInEditor,
                PaletteAction::FtpServer,
                PaletteAction::NewFile,
                PaletteAction::KeyboardShortcuts,
                PaletteAction::Exit,
            ]
        }
    }

    /// The text that the action is listed under.
    pub fn label(self) -> (r: &'static str)
        ensures
            r@ == action_label(self),
    {
        match self {
            PaletteAction::Copy => "Copy",
            PaletteAction::Move => "Move",
            PaletteAction::Delete => "Delete",
            PaletteAction::Compress => "Compress",
            PaletteAction::Uncompress => "Uncompress",
            PaletteAction::DockerContainers => "Docker containers",
            PaletteAction::Processes => "Processes",
            PaletteAction::LaunchApplication => "Launch Application",
            PaletteAction::GitBranch => "Git: branch",
            PaletteAction::SshConnect => "Connect to SSH server",
            PaletteAction::OpenDropbox => "Open Dropbox",
            PaletteAction::OpenClaudeCode => "Open coding assistant in this folder",
            PaletteAction::OpenTerminal => "Open Terminal in this folder",
            PaletteAction::OpenInEditor => "Open folder in editor",
            PaletteAction::FtpServer => "FTP server",
            PaletteAction::RevealInFinder => "Open folder in Finder",
            PaletteAction::NewFile => "New file",
            PaletteAction::KeyboardShortcuts => "Keyboard shortcuts",
            PaletteAction::Exit => "Exit",
        }
    }
}

/// The actions worth listing: a platform's actions, without the branch list
/// where there is no repository.
pub open spec fn listed_actions(platform: Platform, in_git_repo: bool) -> Seq<PaletteAction> {
    platform_actions(platform).filter(
        |a: PaletteAction| a != PaletteAction::GitBranch || in_git_repo,
    )
}

/// The actions that the palette lists.
pub fn available_palette_actions(platform: Platform, in_git_repo: bool) -> (r: Vec<PaletteAction>)
    ensures
        r@ == listed_actions(platform, in_git_repo),
{
    let all = PaletteAction::all(platform);
    let ghost keep = |a: PaletteAction| a != PaletteAction::GitBranch || in_git_repo;
    let mut r: Vec<PaletteAction> = Vec::new();
    let mut i: usize = 0;
    proof {
        reveal(Seq::filter);
        assert(r@ =~= all@.take(0).filter(keep));
    }
    while i < all.len()
        invariant
            i <= all@.len(),
            keep == (|a: PaletteAction| a != PaletteAction::GitBranch || in_git_repo),
            r@ == all@.take(i as int).filter(keep),
        decreases all.len() - i,
    {
        proof {
            lemma_filter_step(all@, i as int, keep);
        }
        if all[i] != PaletteAction::GitBranch || in_git_repo {
            r.push(all[i]);
        }
        i += 1;
    }
    assert(all@.take(all@.len() as int) =~= all@);
    r
}

/// Whether a listed action can be run: Dropbox needs its credentials.
pub open spec fn action_enabled(action: PaletteAction, dropbox_configured: bool) -> bool {
    action == PaletteAction::OpenDropbox ==> dropbox_configured
}

/// Whether a listed action can be run.
pub fn palette_action_enabled(action: PaletteAction, dropbox_configured: bool) -> (r: bool)
    ensures
        r == action_enabled(action, dropbox_configured),
{
    match action {
        PaletteAction::OpenDropbox => dropbox_configured,
        _ => true,
    }
}

/// The actions whose label a query matches.
pub open spec fn actions_matching(actions: Seq<PaletteAction>, query: Seq<char>) -> Seq<
    PaletteAction,
> {
    actions.filter(|a: PaletteAction| query_matches(action_label(a), query))
}

/// The actions whose label a query matches.
pub fn filtered_actions(actions: &[PaletteAction], input: &str) -> (r: Vec<PaletteAction>)
    ensures
        r@ == actions_matching(actions@, input@),
{
    let q = Query::new(input);
    let ghost keep = |a: PaletteAction| query_matches(action_label(a), input@);
    let mut r: Vec<PaletteAction> = Vec::new();
    let mut i: usize = 0;
    proof {
        reveal(Seq::filter);
        assert(r@ =~= actions@.take(0).filter(keep));
    }
    while i < actions.len()
        invariant
            q.wf(),
            q.text() == input@,
            i <= actions@.len(),
            keep == (|a: PaletteAction| query_matches(action_label(a), input@)),
            r@ == actions@.take(i as int).filter(keep),
        decreases actions.len() - i,
    {
        proof {
            lemma_filter_step(actions@, i as int, keep);
        }
        if q.matches_text(actions[i].label()) {
            r.push(actions[i]);
        }
        i += 1;
    }
    assert(actions@.take(actions@.len() as int) =~= actions@);
    r
}

/// The recent places whose path a query matches.
pub open spec fn recents_matching(recents: Seq<String>, query: Seq<char>) -> Seq<String> {
    recents.filter(|p: String| query_matches(p@, query))
}

/// The recent places whose path a query matches.
pub fn filtered_recents<'a>(recents: &'a [String], input: &str) -> (r: Vec<&'a String>)
    ensures
        crate::filtering::items_of(r@) == recents_matching(recents@, input@),
{
    let q = Query::new(input);
    let mut flags: Vec<bool> = Vec::new();
    let mut i: usize = 0;
    while i < recents.len()
        invariant
            q.wf(),
            q.text() == input@,
            i <= recents@.len(),
            flags@.len() == i,
            forall|k: int| 0 <= k < i ==> #[trigger] flags@[k] == query_matches(recents@[k]@, input@),
        decreases recents.len() - i,
    {
        flags.push(q.matches_text(recents[i].as_str()));
        i += 1;
    }
    crate::filtering::keep_flagged(
        recents,
        &flags,
        Ghost(|p: String| query_matches(p@, input@)),
    )
}

/// The recent places with one put in front: the same path leaves its old place,
/// and at most `cap` places are kept.
pub open spec fn recents_with(recents: Seq<String>, path: String, cap: nat) -> Seq<String> {
    let all = seq![path] + recents.filter(|p: String| !same_path(p@, path@));
    if all.len() > cap {
        all.take(cap as int)
    } else {
        all
    }
}

/// Puts a place in front of the recent ones.
pub fn add_recent(recents: &mut Vec<String>, path: String, cap: usize)
    ensures
        final(recents)@ == recents_with(old(recents)@, path, cap as nat),
{
    let ghost before = recents@;
    let ghost keep = |p: String| !same_path(p@, path@);
    let mut kept: Vec<String> = Vec::new();
    let mut i: usize = 0;
    let copy = path.clone();
    kept.push(path);
    proof {
        reveal(Seq::filter);
        assert(kept@ =~= seq![path] + before.take(0).filter(keep));
    }
    while i < recents.len()
        invariant
            i <= recents@.len(),
            recents@ == before,
            copy == path,
            keep == (|p: String| !same_path(p@, path@)),
            kept@ == seq![path] + before.take(i as int).filter(keep),
        decreases recents.len() - i,
    {
        proof {
            lemma_filter_step(before, i as int, keep);
        }
        if !paths_equal(recents[i].as_str(), copy.as_str()) {
            let ghost done = kept@;
            kept.push(recents[i].clone());
            assert(kept@ =~= seq![path] + before.take(i as int).filter(keep).push(before[i as int]));
        }
        i += 1;
    }
    assert(before.take(before.len() as int) =~= before);
    if kept.len() > cap {
        kept.truncate(cap);
        assert(kept@ =~= recents_with(before, path, cap as nat));
    }
    *recents = kept;
}

/// The place just visited comes first, no other has the same path, and there
/// are never more than the cap; visiting it again changes nothing.
pub proof fn recents_keep_one_of_each(recents: Seq<String>, path: String, cap: nat)
    requires
        cap > 0,
    ensures
        recents_with(recents, path, cap).len() > 0,
        recents_with(recents, path, cap)[0] == path,
        recents_with(recents, path, cap).len() <= cap,
        forall|i: int|
            1 <= i < recents_with(recents, path, cap).len() ==> !same_path(
                (#[trigger] recents_with(recents, path, cap)[i])@,
                path@,
            ),
        recents_with(recents_with(recents, path, cap), path, cap) == recents_with(
            recents,
            path,
            cap,
        ),
{
    let keep = |p: String| !same_path(p@, path@);
    let rest = recents.filter(keep);
    crate::filtering::filter_keeps_matches(recents, keep);
    let r = recents_with(recents, path, cap);
    assert(r =~= seq![path] + rest.take(r.len() - 1));
    let tail = rest.take(r.len() - 1);
    assert forall|i: int| 1 <= i < r.len() implies !same_path((#[trigger] r[i])@, path@) by {
        assert(r[i] == rest[i - 1]);
        assert(keep(rest[i - 1]));
    }
    // Filtering the result drops its head and keeps the rest.
    assert(r.filter(keep) == tail) by {
        lemma_filter_all_kept(tail, keep);
        lemma_filter_head(path, tail, keep);
    }
    assert(recents_with(r, path, cap) =~= r);
}

proof fn lemma_filter_all_kept<T>(s: Seq<T>, keep: spec_fn(T) -> bool)
    requires
        forall|i: int| 0 <= i < s.len() ==> keep(#[trigger] s[i]),
    ensures
        s.filter(keep) == s,
    decreases s.len(),
{
    reveal(Seq::filter);
    if s.len() > 0 {
        lemma_filter_all_kept(s.drop_last(), keep);
        assert(keep(s.last()));
        assert(s.drop_last().push(s.last()) =~= s);
    } else {
        assert(s.filter(keep) =~= s);
    }
}

proof fn lemma_filter_head<T>(x: T, s: Seq<T>, keep: spec_fn(T) -> bool)
    requires
        !keep(x),
    ensures
        (seq![x] + s).filter(keep) == s.filter(keep),
    decreases s.len(),
{
    reveal(Seq::filter);
    let t = seq![x] + s;
    if s.len() > 0 {
        assert(t.drop_last() =~= seq![x] + s.drop_last());
        lemma_filter_head(x, s.drop_last(), keep);
        assert(t.last() == s.last());
    } else {
        assert(t.drop_last() =~= Seq::<T>::empty());
        assert(t.last() == x);
        assert(s =~= Seq::<T>::empty());
    }
}

/// An archive format that can be unpacked.
#[derive(Debug, Clone, Copy, PartialEq, Eq, Structural)]
pub enum ArchiveFormat {
    Zip,
    TarGz,
}

/// The format that a lower-case file name ends in.
pub open spec fn format_of_lower(lower: Seq<char>) -> Option<ArchiveFormat> {
    if ".zip"@.is_suffix_of(lower) {
        Some(ArchiveFormat::Zip)
    } else if ".tar.gz"@.is_suffix_of(lower) || ".tgz"@.is_suffix_of(lower) {
        Some(ArchiveFormat::TarGz)
    } else {
        None
    }
}

fn ends_in(s: &[char], suffix: &str) -> (r: bool)
    ensures
        r == suffix@.is_suffix_of(s@),
{
    let v = chars_of(suffix);
    has_suffix(s, v.as_slice())
}

/// The archive format of a lower-case file name.
pub fn archive_format_of_lower(lower: &str) -> (r: Option<ArchiveFormat>)
    ensures
        r == format_of_lower(lower@),
{
    let v = chars_of(lower);
    if ends_in(v.as_slice(), ".zip") {
        Some(ArchiveFormat::Zip)
    } else if ends_in(v.as_slice(), ".tar.gz") || ends_in(v.as_slice(), ".tgz") {
        Some(ArchiveFormat::TarGz)
    } else {
        None
    }
}

/// The archive format of a file name, whatever its case.
pub fn detect_archive_format(filename: &str) -> (r: Option<ArchiveFormat>)
    ensures
        r == format_of_lower(lowercase(filename@)),
{
    let lower = filename.to_lowercase();
    archive_format_of_lower(lower.as_str())
}

/// Whether the extension of a path is `zip`, whatever its ASCII case.
pub open spec fn has_zip_extension(p: Seq<char>) -> bool {
    match file_name(p) {
        Some(n) => match crate::path::extension_of(n) {
            Some(e) => ascii_lower(e) == "zip"@,
            None => false,
        },
        None => false,
    }
}

/// Whether the extension of a path is `zip`.
pub fn is_zip(path: &str) -> (r: bool)
    ensures
        r == has_zip_extension(path@),
{
    match file_name_of(path) {
        Some(n) => match crate::path::extension_of_name(n.as_str()) {
            Some(e) => {
                let v = chars_of(e.as_str());
                let lower = ascii_lower_chars(v.as_slice());
                let zip = chars_of("zip");
                same_chars(lower.as_slice(), zip.as_slice())
            },
            None => false,
        },
        None => false,
    }
}

/// A name without its extension, of which `.tar.gz` and `.tar.bz2` are taken
/// whole. What the name ends in is read from its lower-case form; a cut that
/// would go beyond the name's start leaves nothing.
pub open spec fn archive_stem(name: Seq<char>, lower: Seq<char>) -> Seq<char> {
    if ".tar.gz"@.is_suffix_of(lower) {
        drop_end(name, 7)
    } else if ".tar.bz2"@.is_suffix_of(lower) {
        drop_end(name, 8)
    } else {
        stem_of(name)
    }
}

/// The text without its last `n` characters.
pub open spec fn drop_end(s: Seq<char>, n: int) -> Seq<char> {
    if s.len() >= n {
        s.take(s.len() - n)
    } else {
        seq![]
    }
}

fn drop_end_chars(s: &[char], n: usize) -> (r: String)
    ensures
        r@ == drop_end(s@, n as int),
{
    if s.len() >= n {
        let head = slice_subrange(s, 0, s.len() - n);
        assert(head@ =~= s@.take(s@.len() - n));
        string_of(head)
    } else {
        let e = String::new();
        assert(e@ =~= seq![]);
        e
    }
}

/// The name without its extension, given its lower-case form.
pub fn archive_stem_of(name: &str, lower: &str) -> (r: String)
    ensures
        r@ == archive_stem(name@, lower@),
{
    let v = chars_of(name);
    let l = chars_of(lower);
    if ends_in(l.as_slice(), ".tar.gz") {
        drop_end_chars(v.as_slice(), 7)
    } else if ends_in(l.as_slice(), ".tar.bz2") {
        drop_end_chars(v.as_slice(), 8)
    } else {
        crate::path::stem_of_name(name)
    }
}

/// The archive name offered for a list of files.
pub open spec fn zip_name(srcs: Seq<Seq<char>>) -> Seq<char> {
    if srcs.len() == 0 {
        "archive.zip"@
    } else {
        let name = match file_name(srcs[0]) {
            Some(n) => n,
            None => "archive"@,
        };
        archive_stem(name, lowercase(name)) + ".zip"@
    }
}

/// The archive name offered for a list of files: the first one's name without
/// its extension, with `.zip`.
pub fn default_zip_filename(srcs: &[String]) -> (r: String)
    ensures
        r@ == zip_name(texts(srcs@)),
{
    if srcs.len() == 0 {
        return string_from("archive.zip");
    }
    let name = match file_name_of(srcs[0].as_str()) {
        Some(n) => n,
        None => string_from("archive"),
    };
    let lower = name.as_str().to_lowercase();
    let stem = archive_stem_of(name.as_str(), lower.as_str());
    concat2(stem.as_str(), ".zip")
}

/// The keyboard shortcuts by section: what is pressed and what it does.
pub fn keyboard_shortcuts() -> (r: Vec<(&'static str, Vec<(&'static str, &'static str)>)>)
    ensures
        r@.len() == 5,
        r@[0].0@ == "Navigation"@,
        r@[0].1@ == seq![
            ("↑ / ↓", "Move the cursor one row"),
            ("⌘↑ / ⌘↓", "Jump to the top / bottom of the list"),
            ("PageUp / PageDown", "Move by one page"),
            ("Shift + arrow / page", "Extend the selection from the anchor"),
            ("Tab", "Switch the active pane"),
            ("← / →", "Switch the active pane (in a modal: flip its focus)"),
            ("Enter", "Open the cursor row (directory: descend; .zip: extract and browse; file: chooser)"),
            ("Backspace", "Go to parent (or delete one char of an active filter)"),
        ],
        r@[1].0@ == "Marking & range selection"@,
        r@[1].1@ == seq![
            ("Shift + ↑ / ↓", "Extend the range one row"),
            ("⌘⇧↑ / ⌘⇧↓", "Extend the range to the top / bottom of the list"),
            ("Shift + PageUp / PageDown", "Extend the range by a page"),
            ("click", "Drop the anchor on the clicked row"),
            ("Shift + click", "Extend the range from the existing anchor"),
        ],
        r@[2].0@ == "File actions"@,
        r@[2].1@ == seq![
            ("F4", "Edit the cursor file in $VISUAL / $EDITOR"),
            ("Space", "Quick Look preview (macOS only)"),
            ("F5", "Open the copy modal"),
            ("F6", "Open the move modal"),
            ("F7", "Create a new folder in the active pane"),
            ("F8 / Delete", "Open the delete-confirm modal"),
            ("F10", "Quit the app immediately"),
        ],
        r@[3].0@ == "Filtering & sorting"@,
        r@[3].1@ == seq![
            ("any printable char", "Append to type-to-filter"),
            ("Backspace (filter active)", "Remove its last character"),
            ("Esc (no modal)", "Clear the active filter"),
            ("click column header", "Sort by that column; click again to flip"),
        ],
        r@[4].0@ == "Modals & global"@,
        r@[4].1@ == seq![
            ("⌘P", "Go to folder (filterable list of recent locations)"),
            ("⌘⇧P", "Command palette"),
            ("⌘,", "Open ~/.rho.yaml in the OS default editor"),
            ("Esc", "Cancel current modal / clear the filter"),
        ],
{
    let navigation: Vec<(&'static str, &'static str)> = vec![
        ("↑ / ↓", "Move the cursor one row"),
        ("⌘↑ / ⌘↓", "Jump to the top / bottom of the list"),
        ("PageUp / PageDown", "Move by one page"),
        ("Shift + arrow / page", "Extend the selection from the anchor"),
        ("Tab", "Switch the active pane"),
        ("← / →", "Switch the active pane (in a modal: flip its focus)"),
        ("Enter", "Open the cursor row (directory: descend; .zip: extract and browse; file: chooser)"),
        ("Backspace", "Go to parent (or delete one char of an active filter)"),
    ];
    let marking: Vec<(&'static str, &'static str)> = vec![
        ("Shift + ↑ / ↓", "Extend the range one row"),
        ("⌘⇧↑ / ⌘⇧↓", "Extend the range to the top / bottom of the list"),
        ("Shift + PageUp / PageDown", "Extend the range by a page"),
        ("click", "Drop the anchor on the clicked row"),
        ("Shift + click", "Extend the range from the existing anchor"),
    ];
    let files: Vec<(&'static str, &'static str)> = vec![
        ("F4", "Edit the cursor file in $VISUAL / $EDITOR"),
        ("Space", "Quick Look preview (macOS only)"),
        ("F5", "Open the copy modal"),
        ("F6", "Open the move modal"),
        ("F7", "Create a new folder in the active pane"),
        ("F8 / Delete", "Open the delete-confirm modal"),
        ("F10", "Quit the app immediately"),
    ];
    let filtering: Vec<(&'static str, &'static str)> = vec![
        ("any printable char", "Append to type-to-filter"),
        ("Backspace (filter active)", "Remove its last character"),
        ("Esc (no modal)", "Clear the active filter"),
        ("click column header", "Sort by that column; click again to flip"),
    ];
    let global: Vec<(&'static str, &'static str)> = vec![
        ("⌘P", "Go to folder (filterable list of recent locations)"),
        ("⌘⇧P", "Command palette"),
        ("⌘,", "Open ~/.rho.yaml in the OS default editor"),
        ("Esc", "Cancel current modal / clear the filter"),
    ];
    vec![
        ("Navigation", navigation),
        ("Marking & range selection", marking),
        ("File actions", files),
        ("Filtering & sorting", filtering),
        ("Modals & global", global),
    ]
}

/// A name that ends in `.zip`, in letters of either case, with something before.
pub open spec fn is_zip_name(name: Seq<char>) -> bool {
    &&& name.len() > 4
    &&& name[name.len() - 4] == '.'
    &&& name[name.len() - 3] == 'z' || name[name.len() - 3] == 'Z'
    &&& name[name.len() - 2] == 'i' || name[name.len() - 2] == 'I'
    &&& name[name.len() - 1] == 'p' || name[name.len() - 1] == 'P'
}

/// A zip archive is known by the end of its name, and by that alone.
pub proof fn zips_are_known_by_their_end(p: Seq<char>)
    ensures
        has_zip_extension(p) <==> (file_name(p) matches Some(name) && is_zip_name(name)),
{
    reveal_strlit("zip");
    if let Some(n) = file_name(p) {
        crate::text::lemma_last_index(n, '.');
        let i = crate::text::last_index(n, '.');
        if let Some(e) = crate::path::extension_of(n) {
            if ascii_lower(e) == "zip"@ {
                assert(ascii_lower(e).len() == 3);
                assert(ascii_lower(e)[0] == 'z' && ascii_lower(e)[1] == 'i' && ascii_lower(e)[2]
                    == 'p');
                assert(e[0] == n[i + 1] && e[1] == n[i + 2] && e[2] == n[i + 3]);
                assert(i == n.len() - 4);
            }
        }
        if is_zip_name(n) {
            crate::text::lemma_last_index_unique(n, '.', n.len() - 4);
            let e = n.skip(n.len() - 3);
            assert(e[0] == n[n.len() - 3] && e[1] == n[n.len() - 2] && e[2] == n[n.len() - 1]);
            assert(ascii_lower(e) =~= "zip"@);
        }
    }
}

/// Every action is offered on macOS, and elsewhere every one but the launcher and
/// the Finder; the branches are listed in a repository only.
pub proof fn every_action_is_listed(a: PaletteAction, platform: Platform, in_git_repo: bool)
    ensures
        listed_actions(platform, in_git_repo).contains(a) <==> (platform == Platform::MacOs || (a
            != PaletteAction::LaunchApplication && a != PaletteAction::RevealInFinder)) && (a
            == PaletteAction::GitBranch ==> in_git_repo),
{
    let all = platform_actions(platform);
    let keep = |a: PaletteAction| a != PaletteAction::GitBranch || in_git_repo;
    crate::filtering::narrowed_lists_are_complete(all, keep, a);
    let offered = platform == Platform::MacOs || (a != PaletteAction::LaunchApplication && a
        != PaletteAction::RevealInFinder);
    if offered {
        let i: int = match a {
            PaletteAction::Copy => 0,
            PaletteAction::Move => 1,
            PaletteAction::Delete => 2,
            PaletteAction::Compress => 3,
            PaletteAction::Uncompress => 4,
            PaletteAction::DockerContainers => 5,
            PaletteAction::Processes => 6,
            PaletteAction::LaunchApplication => 7,
            PaletteAction::GitBranch => 8,
            PaletteAction::SshConnect => 9,
            PaletteAction::OpenDropbox => 10,
            PaletteAction::OpenClaudeCode => 11,
            PaletteAction::OpenTerminal => 12,
            PaletteAction::OpenInEditor => 13,
            PaletteAction::FtpServer => 14,
            PaletteAction::RevealInFinder => 15,
            PaletteAction::NewFile => 16,
            PaletteAction::KeyboardShortcuts => 17,
            PaletteAction::Exit => 18,
        };
        let at: int = if platform == Platform::MacOs || i < 7 {
            i
        } else if i < 15 {
            i - 1
        } else {
            i - 2
        };
        assert(all[at] == a);
    } else if all.contains(a) {
        let k = choose|k: int| 0 <= k < all.len() && all[k] == a;
        assert(all[k] == a);
    }
}

/// A query narrows the actions to those with it anywhere in their label, and the
/// recent places to those with it anywhere in their path.
pub proof fn queries_narrow_actions_and_places(
    actions: Seq<PaletteAction>,
    a: PaletteAction,
    recents: Seq<String>,
    p: String,
    query: Seq<char>,
)
    ensures
        actions_matching(actions, query).contains(a) <==> actions.contains(a) && (query.len() == 0
            || contains_text(lowercase(action_label(a)), lowercase(query))),
        recents_matching(recents, query).contains(p) <==> recents.contains(p) && (query.len() == 0
            || contains_text(lowercase(p@), lowercase(query))),
{
    crate::filtering::narrowed_lists_are_complete(
        actions,
        |a: PaletteAction| query_matches(action_label(a), query),
        a,
    );
    crate::filtering::narrowed_lists_are_complete(
        recents,
        |p: String| query_matches(p@, query),
        p,
    );
}

/// The other recent places stay, in their order, as long as there is room.
pub proof fn visits_keep_the_other_places(recents: Seq<String>, path: String, cap: nat, p: String)
    requires
        recents.len() < cap,
    ensures
        recents.contains(p) && crate::path::components(p@) != crate::path::components(path@)
            ==> recents_with(recents, path, cap).contains(p),
        recents_with(recents, path, cap).skip(1) == recents.filter(
            |q: String| crate::path::components(q@) != crate::path::components(path@),
        ),
{
    let keep = |q: String| !same_path(q@, path@);
    let plain = |q: String| crate::path::components(q@) != crate::path::components(path@);
    assert(keep =~= plain);
    let rest = recents.filter(keep);
    lemma_filter_is_no_longer(recents, keep);
    crate::filtering::narrowed_lists_are_complete(recents, keep, p);
    let r = recents_with(recents, path, cap);
    assert(r == seq![path] + rest);
    assert(r.skip(1) =~= rest);
    if rest.contains(p) {
        let k = choose|k: int| 0 <= k < rest.len() && rest[k] == p;
        assert(r[k + 1] == p);
    }
}

proof fn lemma_filter_is_no_longer<T>(s: Seq<T>, keep: spec_fn(T) -> bool)
    ensures
        s.filter(keep).len() <= s.len(),
    decreases s.len(),
{
    reveal(Seq::filter);
    if s.len() > 0 {
        lemma_filter_is_no_longer(s.drop_last(), keep);
    }
}

/// An archive is known by the end of its name: `.zip`, `.tar.gz` or `.tgz`.
pub proof fn archives_are_known_by_their_end(stem: Seq<char>, lower: Seq<char>)
    ensures
        format_of_lower(stem + ".zip"@) == Some(ArchiveFormat::Zip),
        format_of_lower(stem + ".tar.gz"@) == Some(ArchiveFormat::TarGz),
        format_of_lower(stem + ".tgz"@) == Some(ArchiveFormat::TarGz),
        format_of_lower(lower) is Some ==> (exists|s: Seq<char>|
            lower == #[trigger] (s + ".zip"@)) || (exists|s: Seq<char>|
            lower == #[trigger] (s + ".tar.gz"@)) || (exists|s: Seq<char>|
            lower == #[trigger] (s + ".tgz"@)),
{
    reveal_strlit(".zip");
    reveal_strlit(".tar.gz");
    reveal_strlit(".tgz");
    lemma_ends(stem, ".zip"@);
    lemma_ends(stem, ".tar.gz"@);
    lemma_ends(stem, ".tgz"@);
    let a = stem + ".tar.gz"@;
    assert(a.last() == ".tar.gz"@[6]);
    if ".zip"@.is_suffix_of(a) {
        assert(".zip"@[3] == a.last());
    }
    let b = stem + ".tgz"@;
    assert(b.last() == ".tgz"@[3]);
    if ".zip"@.is_suffix_of(b) {
        assert(".zip"@[3] == b.last());
    }
    if ".zip"@.is_suffix_of(lower) {
        assert(lower =~= lower.take(lower.len() - 4) + ".zip"@);
    } else if ".tar.gz"@.is_suffix_of(lower) {
        assert(lower =~= lower.take(lower.len() - 7) + ".tar.gz"@);
    } else if ".tgz"@.is_suffix_of(lower) {
        assert(lower =~= lower.take(lower.len() - 4) + ".tgz"@);
    }
}

proof fn lemma_ends(stem: Seq<char>, end: Seq<char>)
    ensures
        end.is_suffix_of(stem + end),
{
    let s = stem + end;
    assert(s.subrange(s.len() - end.len(), s.len() as int) =~= end);
}

/// The archive that is offered for files is called after the first of them, with
/// its extension replaced.
pub proof fn archives_are_called_after_the_first(
    first: Seq<char>,
    rest: Seq<Seq<char>>,
    stem: Seq<char>,
    ext: Seq<char>,
)
    requires
        stem.len() > 0,
        !ext.contains('.'),
        file_name(first) == Some(stem + seq!['.'] + ext),
        !".tar.gz"@.is_suffix_of(lowercase(stem + seq!['.'] + ext)),
        !".tar.bz2"@.is_suffix_of(lowercase(stem + seq!['.'] + ext)),
    ensures
        zip_name(seq![first] + rest) == stem + ".zip"@,
{
    crate::path::names_are_stem_and_extension(stem, ext);
}

} // verus!
