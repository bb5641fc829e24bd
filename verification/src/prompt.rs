//! The dialogs: what each one holds, and how keys move through it.

use std::collections::VecDeque;
use vstd::prelude::*;
use crate::actions::FileChoice;
use crate::apps::{filtered_apps, AppsState, Application};
use crate::docker::{DockerSortBy, DockerState};
use crate::entry::SortDir;
use crate::filtering::{items_of, query_matches};
use crate::ftp::{FtpInfoFocus, FtpReplaceFocus, FtpServerInfo};
use crate::git::{filtered_branches, GitBranch, GitBranchesState};
use crate::location::Location;
use crate::palette::{actions_matching, filtered_actions, filtered_recents, recents_matching};
use crate::palette::PaletteAction;
use crate::path::{paths_equal, same_path};
use crate::process::{filtered_processes, Process, ProcessSortBy, ProcessesState};
use crate::ssh::{filtered_servers, server_matches, SshServer, SshServersState};

verus! {

#[derive(Debug, Clone, Copy, PartialEq, Eq, Structural)]
pub enum DeleteFocus {
    Cancel,
    Confirm,
}

impl DeleteFocus {
    /// The other button.
    pub fn toggle(self) -> (r: Self)
        ensures
            r == self.spec_toggle(),
    {
        match self {
            DeleteFocus::Cancel => DeleteFocus::Confirm,
            DeleteFocus::Confirm => DeleteFocus::Cancel,
        }
    }

    pub open spec fn spec_toggle(self) -> DeleteFocus {
        match self {
            DeleteFocus::Cancel => DeleteFocus::Confirm,
            DeleteFocus::Confirm => DeleteFocus::Cancel,
        }
    }
}

#[derive(Debug, Clone, Copy, PartialEq, Eq, Structural)]
pub enum NewFilesFocus {
    No,
    Left,
    Right,
}

impl NewFilesFocus {
    /// The next button; the last one is followed by the first.
    pub fn next(self) -> (r: Self)
        ensures
            r == self.spec_next(),
    {
        match self {
            NewFilesFocus::No => NewFilesFocus::Left,
            NewFilesFocus::Left => NewFilesFocus::Right,
            NewFilesFocus::Right => NewFilesFocus::No,
        }
    }

    pub open spec fn spec_next(self) -> NewFilesFocus {
        match self {
            NewFilesFocus::No => NewFilesFocus::Left,
            NewFilesFocus::Left => NewFilesFocus::Right,
            NewFilesFocus::Right => NewFilesFocus::No,
        }
    }
}

/// Two toggles restore the focus of a two-button dialog; three steps restore
/// that of the new-files dialog, and fewer do not.
pub proof fn focus_cycles(d: DeleteFocus, n: NewFilesFocus)
    ensures
        d.spec_toggle() != d,
        d.spec_toggle().spec_toggle() == d,
        n.spec_next() != n,
        n.spec_next().spec_next() != n,
        n.spec_next().spec_next().spec_next() == n,
{
}

/// A dialog with what it needs to know.
#[derive(Debug)]
#[allow(inconsistent_fields)]
pub enum Prompt {
    /// Go to a folder: a typed path over the recent places that it matches.
    Open { input: String, recents: Vec<String>, selected: usize },
    Copy { input: String },
    Move { input: String },
    NewFolder { input: String },
    NewFile { input: String },
    Compress { input: String },
    Uncompress { input: String },
    Delete { paths: Vec<Location>, focus: DeleteFocus },
    /// Ask before a large archive is unpacked.
    ConfirmLargeExtract { archive_path: String, size_bytes: u64, focus: DeleteFocus },
    /// New files turned up in a watched folder.
    NewFiles { folder: String, files: Vec<String>, focus: NewFilesFocus },
    CommandPalette {
        input: String,
        selected: usize,
        actions: Vec<PaletteAction>,
        dropbox_configured: bool,
    },
    Docker { state: DockerState, input: String, sort_by: DockerSortBy, sort_dir: SortDir },
    Processes {
        state: ProcessesState,
        input: String,
        sort_by: ProcessSortBy,
        sort_dir: SortDir,
        selected: usize,
    },
    Apps { state: AppsState, input: String, selected: usize },
    GitBranches { state: GitBranchesState, input: String, selected: usize, repo_path: String },
    KeyboardShortcuts,
    SshServers { state: SshServersState, input: String, selected: usize },
    /// Choose how a file is opened. `edit` holds the command of the chosen
    /// action while it is being edited.
    FileActions { path: String, choices: Vec<FileChoice>, selected: usize, edit: Option<String> },
    FtpInfo { info: FtpServerInfo, focus: FtpInfoFocus },
    FtpReplace { current: FtpServerInfo, new_root: String, focus: FtpReplaceFocus },
}

/// The index of the first queued folder with this path, or the length.
pub open spec fn queued_at(pending: Seq<(String, Vec<String>)>, folder: Seq<char>) -> int
    decreases pending.len(),
{
    if pending.len() == 0 || same_path(pending[0].0@, folder) {
        0
    } else {
        1 + queued_at(pending.skip(1), folder)
    }
}

/// The queue with a batch of new files added: a folder that is queued already
/// gets the files at the end of its own, another one is queued last.
pub open spec fn merged(
    before: Seq<(String, Vec<String>)>,
    after: Seq<(String, Vec<String>)>,
    folder: String,
    files: Seq<String>,
) -> bool {
    let i = queued_at(before, folder@);
    if i < before.len() {
        &&& after.len() == before.len()
        &&& after[i].0 == before[i].0
        &&& after[i].1@ == before[i].1@ + files
        &&& forall|k: int| 0 <= k < before.len() && k != i ==> #[trigger] after[k] == before[k]
    } else {
        &&& after.len() == before.len() + 1
        &&& after.last().0 == folder
        &&& after.last().1@ == files
        &&& forall|k: int| 0 <= k < before.len() ==> #[trigger] after[k] == before[k]
    }
}

/// No folder is queued twice.
pub open spec fn one_per_folder(pending: Seq<(String, Vec<String>)>) -> bool {
    forall|i: int, j: int|
        0 <= i < j < pending.len() ==> !same_path(
            (#[trigger] pending[i]).0@,
            (#[trigger] pending[j]).0@,
        )
}

proof fn lemma_queued_at(pending: Seq<(String, Vec<String>)>, folder: Seq<char>)
    ensures
        0 <= queued_at(pending, folder) <= pending.len(),
        queued_at(pending, folder) < pending.len() ==> same_path(
            pending[queued_at(pending, folder)].0@,
            folder,
        ),
        forall|k: int|
            0 <= k < queued_at(pending, folder) ==> !same_path((#[trigger] pending[k]).0@, folder),
    decreases pending.len(),
{
    if pending.len() > 0 && !same_path(pending[0].0@, folder) {
        lemma_queued_at(pending.skip(1), folder);
        assert forall|k: int| 0 <= k < queued_at(pending, folder) implies !same_path(
            (#[trigger] pending[k]).0@,
            folder,
        ) by {
            if k > 0 {
                assert(pending.skip(1)[k - 1] == pending[k]);
            }
        }
    }
}

/// Adding a batch keeps one queued dialog for each folder.
pub proof fn merging_keeps_one_per_folder(
    before: Seq<(String, Vec<String>)>,
    after: Seq<(String, Vec<String>)>,
    folder: String,
    files: Seq<String>,
)
    requires
        one_per_folder(before),
        merged(before, after, folder, files),
    ensures
        one_per_folder(after),
        forall|i: int|
            0 <= i < before.len() && same_path((#[trigger] before[i]).0@, folder@) ==> {
                &&& after.len() == before.len()
                &&& after[i].0 == before[i].0
                &&& after[i].1@ == before[i].1@ + files
                &&& forall|k: int| 0 <= k < before.len() && k != i ==> #[trigger] after[k] == before[k]
            },
        (forall|i: int| 0 <= i < before.len() ==> !same_path((#[trigger] before[i]).0@, folder@))
            ==> {
            &&& after.len() == before.len() + 1
            &&& after.last().0 == folder
            &&& after.last().1@ == files
            &&& after.drop_last() == before
        },
{
    lemma_queued_at(before, folder@);
    assert forall|i: int|
        0 <= i < before.len() && same_path((#[trigger] before[i]).0@, folder@) implies i
        == queued_at(before, folder@) by {
        let q = queued_at(before, folder@);
        assert(q < before.len());
        assert(same_path(before[q].0@, folder@));
    }
    if queued_at(before, folder@) == before.len() {
        assert(after.drop_last() =~= before);
    }
    assert forall|i: int, j: int| 0 <= i < j < after.len() implies !same_path(
        (#[trigger] after[i]).0@,
        (#[trigger] after[j]).0@,
    ) by {
        assert(after[i].0 == before[i].0);
        if j < before.len() {
            assert(after[j].0 == before[j].0);
        } else {
            assert(!same_path(before[i].0@, folder@));
        }
    }
}

/// Adds a batch of new files to the queue of dialogs.
pub fn merge_pending_new_files(
    pending: &mut VecDeque<(String, Vec<String>)>,
    folder: String,
    files: Vec<String>,
)
    ensures
        merged(old(pending)@, final(pending)@, folder, files@),
{
    let ghost before = pending@;
    let mut i: usize = 0;
    let n: usize = pending.len();
    assert(before.skip(0) =~= before);
    while i < n && !paths_equal(pending[i].0.as_str(), folder.as_str())
        invariant
            pending@ == before,
            n == before.len(),
            i <= n,
            queued_at(before, folder@) == i + queued_at(before.skip(i as int), folder@),
        decreases n - i,
    {
        assert(before.skip(i as int)[0] == before[i as int]);
        assert(before.skip(i as int).skip(1) =~= before.skip(i + 1));
        i += 1;
    }
    if i < n {
        assert(before.skip(i as int)[0] == before[i as int]);
        match pending.remove(i) {
            Some((f, mut list)) => {
                let mut files = files;
                list.append(&mut files);
                pending.insert(i, (f, list));
            },
            None => {
                assert(false);
            },
        }
    } else {
        assert(before.skip(i as int) =~= seq![]);
        pending.push_back((folder, files));
    }
}

/// How many rows of a dialog can be highlighted; none where it has no list.
pub open spec fn prompt_rows(p: Prompt) -> Option<nat> {
    match p {
        Prompt::Open { input, recents, .. } => Some(recents_matching(recents@, input@).len()),
        Prompt::CommandPalette { input, actions, .. } => Some(
            actions_matching(actions@, input@).len(),
        ),
        Prompt::Processes { state: ProcessesState::Loaded(list), input, .. } => Some(
            list@.filter(|x: Process| query_matches(x.name@, input@)).len(),
        ),
        Prompt::Apps { state: AppsState::Loaded(list), input, .. } => Some(
            list@.filter(|x: Application| query_matches(x.name@, input@)).len(),
        ),
        Prompt::GitBranches { state: GitBranchesState::Loaded(list), input, .. } => Some(
            list@.filter(|x: GitBranch| query_matches(x.name@, input@)).len(),
        ),
        Prompt::SshServers { state: SshServersState::Loaded(list), input, .. } => Some(
            list@.filter(|x: SshServer| server_matches(x, input@)).len(),
        ),
        Prompt::FileActions { choices, .. } => Some(choices@.len()),
        _ => None,
    }
}

/// The highlighted row of a dialog; 0 where it has no list.
pub open spec fn prompt_selected(p: Prompt) -> usize {
    match p {
        Prompt::Open { selected, .. } => selected,
        Prompt::CommandPalette { selected, .. } => selected,
        Prompt::Processes { selected, .. } => selected,
        Prompt::Apps { selected, .. } => selected,
        Prompt::GitBranches { selected, .. } => selected,
        Prompt::SshServers { selected, .. } => selected,
        Prompt::FileActions { selected, .. } => selected,
        _ => 0,
    }
}

/// The dialog with another row highlighted. A command that was being edited is
/// dropped with the row that it belongs to.
pub open spec fn with_selected(p: Prompt, s: usize) -> Prompt {
    match p {
        Prompt::Open { input, recents, .. } => Prompt::Open { input, recents, selected: s },
        Prompt::CommandPalette { input, actions, dropbox_configured, .. } => {
            Prompt::CommandPalette { input, selected: s, actions, dropbox_configured }
        },
        Prompt::Processes { state, input, sort_by, sort_dir, .. } => Prompt::Processes {
            state,
            input,
            sort_by,
            sort_dir,
            selected: s,
        },
        Prompt::Apps { state, input, .. } => Prompt::Apps { state, input, selected: s },
        Prompt::GitBranches { state, input, repo_path, .. } => Prompt::GitBranches {
            state,
            input,
            selected: s,
            repo_path,
        },
        Prompt::SshServers { state, input, .. } => Prompt::SshServers { state, input, selected: s },
        Prompt::FileActions { path, choices, .. } => Prompt::FileActions {
            path,
            choices,
            selected: s,
            edit: None,
        },
        other => other,
    }
}

/// The dialog with another typed text. The file chooser takes text only while
/// a command is being edited.
pub open spec fn with_input(p: Prompt, value: String) -> Prompt {
    match p {
        Prompt::Open { recents, selected, .. } => Prompt::Open { input: value, recents, selected },
        Prompt::Copy { .. } => Prompt::Copy { input: value },
        Prompt::Move { .. } => Prompt::Move { input: value },
        Prompt::NewFolder { .. } => Prompt::NewFolder { input: value },
        Prompt::NewFile { .. } => Prompt::NewFile { input: value },
        Prompt::Compress { .. } => Prompt::Compress { input: value },
        Prompt::Uncompress { .. } => Prompt::Uncompress { input: value },
        Prompt::CommandPalette { selected, actions, dropbox_configured, .. } => {
            Prompt::CommandPalette { input: value, selected, actions, dropbox_configured }
        },
        Prompt::Docker { state, sort_by, sort_dir, .. } => Prompt::Docker {
            state,
            input: value,
            sort_by,
            sort_dir,
        },
        Prompt::Processes { state, sort_by, sort_dir, selected, .. } => Prompt::Processes {
            state,
            input: value,
            sort_by,
            sort_dir,
            selected,
        },
        Prompt::Apps { state, selected, .. } => Prompt::Apps { state, input: value, selected },
        Prompt::GitBranches { state, selected, repo_path, .. } => Prompt::GitBranches {
            state,
            input: value,
            selected,
            repo_path,
        },
        Prompt::SshServers { state, selected, .. } => Prompt::SshServers {
            state,
            input: value,
            selected,
        },
        Prompt::FileActions { path, choices, selected, edit: Some(_) } => Prompt::FileActions {
            path,
            choices,
            selected,
            edit: Some(value),
        },
        other => other,
    }
}

/// A highlight that points at a row of a list of `n`.
pub open spec fn clamped_row(selected: usize, n: nat) -> usize {
    if n == 0 {
        0
    } else if selected < n {
        selected
    } else {
        (n - 1) as usize
    }
}

/// A highlight moved by `delta` rows, around the ends of a list of `n`.
pub open spec fn wrapped_row(selected: usize, delta: int, n: nat) -> int
    recommends
        n > 0,
{
    (selected + delta) % (n as int)
}

/// The dialog after its text was changed: the list below has changed with it,
/// so the highlight is brought back to one of its rows.
pub open spec fn typed_into(p: Prompt, value: String) -> Prompt {
    let q = with_input(p, value);
    match (p, prompt_rows(q)) {
        (Prompt::FileActions { .. }, _) => q,
        (_, Some(n)) => with_selected(q, clamped_row(prompt_selected(q), n)),
        (_, None) => q,
    }
}

/// The dialog after its highlight was moved.
pub open spec fn moved_in(p: Prompt, delta: int) -> Prompt {
    match prompt_rows(p) {
        Some(n) => if n > 0 {
            with_selected(p, wrapped_row(prompt_selected(p), delta, n) as usize)
        } else {
            p
        },
        None => p,
    }
}

/// The dialog with the focus on its next button.
pub open spec fn refocused(p: Prompt) -> Prompt {
    match p {
        Prompt::Delete { paths, focus } => Prompt::Delete { paths, focus: focus.spec_toggle() },
        Prompt::ConfirmLargeExtract { archive_path, size_bytes, focus } => {
            Prompt::ConfirmLargeExtract { archive_path, size_bytes, focus: focus.spec_toggle() }
        },
        Prompt::NewFiles { folder, files, focus } => Prompt::NewFiles {
            folder,
            files,
            focus: focus.spec_next(),
        },
        Prompt::FtpInfo { info, focus } => Prompt::FtpInfo { info, focus: focus.spec_toggle() },
        Prompt::FtpReplace { current, new_root, focus } => Prompt::FtpReplace {
            current,
            new_root,
            focus: focus.spec_toggle(),
        },
        other => other,
    }
}

/// Moving the highlight leaves it on a row of the list, and moving it back
/// restores it.
pub proof fn moving_back_restores_highlight(selected: usize, delta: int, n: nat)
    requires
        selected < n,
        n <= usize::MAX,
    ensures
        0 <= wrapped_row(selected, delta, n) < n,
        wrapped_row(wrapped_row(selected, delta, n) as usize, -delta, n) == selected,
{
    let m = n as int;
    let a = selected + delta;
    vstd::arithmetic::div_mod::lemma_mod_bound(a, m);
    vstd::arithmetic::div_mod::lemma_add_mod_noop(a, -delta, m);
    vstd::arithmetic::div_mod::lemma_add_mod_noop(a % m, -delta, m);
    vstd::arithmetic::div_mod::lemma_mod_twice(a, m);
    vstd::arithmetic::div_mod::lemma_small_mod(selected as nat, n);
    assert((a % m + -delta) % m == (a + -delta) % m);
}

/// A highlight moved by `delta` rows, around the ends of a list of `n`.
pub fn wrap_row(selected: usize, delta: i32, n: usize) -> (r: usize)
    requires
        n > 0,
    ensures
        r == wrapped_row(selected, delta as int, n as nat),
        r < n,
{
    let m: i128 = n as i128;
    let a: i128 = selected as i128 + delta as i128;
    let r: i128 = if a >= 0 {
        a % m
    } else {
        // The distance below zero, counted back from the end of the list.
        let back: i128 = (-a) % m;
        if back == 0 {
            0
        } else {
            m - back
        }
    };
    proof {
        let x = a as int;
        let y = m as int;
        if x < 0 {
            let b = (-x) % y;
            vstd::arithmetic::div_mod::lemma_fundamental_div_mod(-x, y);
            let q = (-x) / y;
            assert(-x == y * q + b);
            if b == 0 {
                assert(x == y * (-q) + 0) by (nonlinear_arith)
                    requires
                        -x == y * q + b,
                        b == 0,
                ;
                vstd::arithmetic::div_mod::lemma_fundamental_div_mod_converse(x, y, -q, 0);
            } else {
                assert(x == y * (-q - 1) + (y - b)) by (nonlinear_arith)
                    requires
                        -x == y * q + b,
                ;
                vstd::arithmetic::div_mod::lemma_fundamental_div_mod_converse(
                    x,
                    y,
                    -q - 1,
                    y - b,
                );
            }
        }
    }
    r as usize
}

impl Prompt {
    /// How many rows of the dialog can be highlighted.
    pub fn rows(&self) -> (r: Option<usize>)
        ensures
            match r {
                Some(n) => prompt_rows(*self) == Some(n as nat),
                None => prompt_rows(*self) is None,
            },
    {
        match self {
            Prompt::Open { input, recents, .. } => {
                let v = filtered_recents(recents.as_slice(), input.as_str());
                assert(items_of(v@).len() == v@.len());
                Some(v.len())
            },
            Prompt::CommandPalette { input, actions, .. } => {
                let v = filtered_actions(actions.as_slice(), input.as_str());
                Some(v.len())
            },
            Prompt::Processes { state: ProcessesState::Loaded(list), input, .. } => {
                let v = filtered_processes(list.as_slice(), input.as_str());
                assert(items_of(v@).len() == v@.len());
                Some(v.len())
            },
            Prompt::Apps { state: AppsState::Loaded(list), input, .. } => {
                let v = filtered_apps(list.as_slice(), input.as_str());
                assert(items_of(v@).len() == v@.len());
                Some(v.len())
            },
            Prompt::GitBranches { state: GitBranchesState::Loaded(list), input, .. } => {
                let v = filtered_branches(list.as_slice(), input.as_str());
                assert(items_of(v@).len() == v@.len());
                Some(v.len())
            },
            Prompt::SshServers { state: SshServersState::Loaded(list), input, .. } => {
                let v = filtered_servers(list.as_slice(), input.as_str());
                assert(items_of(v@).len() == v@.len());
                Some(v.len())
            },
            Prompt::FileActions { choices, .. } => Some(choices.len()),
            _ => None,
        }
    }

    /// The highlighted row of the dialog.
    pub fn selected_row(&self) -> (r: usize)
        ensures
            r == prompt_selected(*self),
    {
        match self {
            Prompt::Open { selected, .. } => *selected,
            Prompt::CommandPalette { selected, .. } => *selected,
            Prompt::Processes { selected, .. } => *selected,
            Prompt::Apps { selected, .. } => *selected,
            Prompt::GitBranches { selected, .. } => *selected,
            Prompt::SshServers { selected, .. } => *selected,
            Prompt::FileActions { selected, .. } => *selected,
            _ => 0,
        }
    }

    fn highlight(self, s: usize) -> (r: Prompt)
        ensures
            r == with_selected(self, s),
    {
        match self {
            Prompt::Open { input, recents, .. } => Prompt::Open { input, recents, selected: s },
            Prompt::CommandPalette { input, actions, dropbox_configured, .. } => {
                Prompt::CommandPalette { input, selected: s, actions, dropbox_configured }
            },
            Prompt::Processes { state, input, sort_by, sort_dir, .. } => Prompt::Processes {
                state,
                input,
                sort_by,
                sort_dir,
                selected: s,
            },
            Prompt::Apps { state, input, .. } => Prompt::Apps { state, input, selected: s },
            Prompt::GitBranches { state, input, repo_path, .. } => Prompt::GitBranches {
                state,
                input,
                selected: s,
                repo_path,
            },
            Prompt::SshServers { state, input, .. } => Prompt::SshServers {
                state,
                input,
                selected: s,
            },
            Prompt::FileActions { path, choices, .. } => Prompt::FileActions {
                path,
                choices,
                selected: s,
                edit: None,
            },
            other => other,
        }
    }

    fn replace_input(self, value: String) -> (r: Prompt)
        ensures
            r == with_input(self, value),
    {
        match self {
            Prompt::Open { recents, selected, .. } => Prompt::Open {
                input: value,
                recents,
                selected,
            },
            Prompt::Copy { .. } => Prompt::Copy { input: value },
            Prompt::Move { .. } => Prompt::Move { input: value },
            Prompt::NewFolder { .. } => Prompt::NewFolder { input: value },
            Prompt::NewFile { .. } => Prompt::NewFile { input: value },
            Prompt::Compress { .. } => Prompt::Compress { input: value },
            Prompt::Uncompress { .. } => Prompt::Uncompress { input: value },
            Prompt::CommandPalette { selected, actions, dropbox_configured, .. } => {
                Prompt::CommandPalette { input: value, selected, actions, dropbox_configured }
            },
            Prompt::Docker { state, sort_by, sort_dir, .. } => Prompt::Docker {
                state,
                input: value,
                sort_by,
                sort_dir,
            },
            Prompt::Processes { state, sort_by, sort_dir, selected, .. } => Prompt::Processes {
                state,
                input: value,
                sort_by,
                sort_dir,
                selected,
            },
            Prompt::Apps { state, selected, .. } => Prompt::Apps { state, input: value, selected },
            Prompt::GitBranches { state, selected, repo_path, .. } => Prompt::GitBranches {
                state,
                input: value,
                selected,
                repo_path,
            },
            Prompt::SshServers { state, selected, .. } => Prompt::SshServers {
                state,
                input: value,
                selected,
            },
            Prompt::FileActions { path, choices, selected, edit: Some(_) } => {
                Prompt::FileActions { path, choices, selected, edit: Some(value) }
            },
            other => other,
        }
    }

    /// The dialog after its text was changed.
    pub fn type_into(self, value: String) -> (r: Prompt)
        ensures
            r == typed_into(self, value),
    {
        let chooser: bool = match &self {
            Prompt::FileActions { .. } => true,
            _ => false,
        };
        let q = self.replace_input(value);
        if chooser {
            return q;
        }
        match q.rows() {
            Some(n) => {
                let s: usize = q.selected_row();
                let to: usize = if n == 0 {
                    0
                } else if s < n {
                    s
                } else {
                    n - 1
                };
                q.highlight(to)
            },
            None => q,
        }
    }

    /// The dialog after its highlight was moved.
    pub fn move_highlight(self, delta: i32) -> (r: Prompt)
        ensures
            r == moved_in(self, delta as int),
    {
        match self.rows() {
            Some(n) => if n > 0 {
                let to: usize = wrap_row(self.selected_row(), delta, n);
                self.highlight(to)
            } else {
                self
            },
            None => self,
        }
    }

    /// The dialog with the focus on its next button.
    pub fn refocus(self) -> (r: Prompt)
        ensures
            r == refocused(self),
    {
        match self {
            Prompt::Delete { paths, focus } => Prompt::Delete { paths, focus: focus.toggle() },
            Prompt::ConfirmLargeExtract { archive_path, size_bytes, focus } => {
                Prompt::ConfirmLargeExtract { archive_path, size_bytes, focus: focus.toggle() }
            },
            Prompt::NewFiles { folder, files, focus } => Prompt::NewFiles {
                folder,
                files,
                focus: focus.next(),
            },
            Prompt::FtpInfo { info, focus } => Prompt::FtpInfo { info, focus: focus.toggle() },
            Prompt::FtpReplace { current, new_root, focus } => Prompt::FtpReplace {
                current,
                new_root,
                focus: focus.toggle(),
            },
            other => other,
        }
    }
}

/// What is typed is the text of the dialog, and the rest of the dialog stays but
/// for the highlight, which stays on its row as far as there are rows.
pub proof fn typed_text_is_taken(p: Prompt, value: String)
    ensures
        match (p, typed_into(p, value)) {
            (Prompt::Copy { .. }, q) => q == (Prompt::Copy { input: value }),
            (Prompt::Move { .. }, q) => q == (Prompt::Move { input: value }),
            (Prompt::NewFolder { .. }, q) => q == (Prompt::NewFolder { input: value }),
            (Prompt::NewFile { .. }, q) => q == (Prompt::NewFile { input: value }),
            (Prompt::Compress { .. }, q) => q == (Prompt::Compress { input: value }),
            (Prompt::Uncompress { .. }, q) => q == (Prompt::Uncompress { input: value }),
            (
                Prompt::Open { recents, .. },
                Prompt::Open { input, recents: r, selected },
            ) => input == value && r == recents && (selected < recents_matching(
                recents@,
                value@,
            ).len() || selected == 0),
            (
                Prompt::CommandPalette { actions, dropbox_configured, .. },
                Prompt::CommandPalette { input, selected, actions: a, dropbox_configured: d },
            ) => input == value && a == actions && d == dropbox_configured && (selected
                < actions_matching(actions@, value@).len() || selected == 0),
            (
                Prompt::Processes { state, sort_by, sort_dir, .. },
                Prompt::Processes { state: s, input, sort_by: b, sort_dir: d, .. },
            ) => input == value && s == state && b == sort_by && d == sort_dir,
            (Prompt::Apps { state, .. }, Prompt::Apps { state: s, input, .. }) => input == value
                && s == state,
            (
                Prompt::GitBranches { state, repo_path, .. },
                Prompt::GitBranches { state: s, input, repo_path: r, .. },
            ) => input == value && s == state && r == repo_path,
            (
                Prompt::SshServers { state, .. },
                Prompt::SshServers { state: s, input, .. },
            ) => input == value && s == state,
            (
                Prompt::Docker { state, sort_by, sort_dir, .. },
                Prompt::Docker { state: s, input, sort_by: b, sort_dir: d },
            ) => input == value && s == state && b == sort_by && d == sort_dir,
            (
                Prompt::FileActions { path, choices, selected, edit },
                Prompt::FileActions { path: q, choices: c, selected: s, edit: e },
            ) => q == path && c == choices && s == selected && e == (if edit is Some {
                Some(value)
            } else {
                None
            }),
            (Prompt::Delete { .. }, q)
            | (Prompt::ConfirmLargeExtract { .. }, q)
            | (Prompt::NewFiles { .. }, q)
            | (Prompt::FtpInfo { .. }, q)
            | (Prompt::FtpReplace { .. }, q)
            | (Prompt::KeyboardShortcuts, q) => q == p,
            _ => false,
        },
        prompt_rows(p) is Some && !(p is FileActions) && prompt_rows(typed_into(p, value))
            == prompt_rows(p) && prompt_selected(p) < prompt_rows(p)->0 ==> prompt_selected(
            typed_into(p, value),
        ) == prompt_selected(p),
{
    let q = with_input(p, value);
    assert(prompt_rows(typed_into(p, value)) == prompt_rows(q));
}

/// The highlight moves by the rows that it is sent, around the ends of the list,
/// and nothing else of the dialog changes but a command that was being edited.
pub proof fn highlights_move_by_rows(p: Prompt, delta: int, n: nat)
    requires
        prompt_rows(p) == Some(n),
        prompt_selected(p) < n,
        n <= usize::MAX,
    ensures
        prompt_rows(moved_in(p, delta)) == Some(n),
        0 <= prompt_selected(p) + delta < n ==> prompt_selected(moved_in(p, delta))
            == prompt_selected(p) + delta,
        prompt_selected(p) + delta == n ==> prompt_selected(moved_in(p, delta)) == 0,
        prompt_selected(p) + delta == -1 ==> prompt_selected(moved_in(p, delta)) == n - 1,
        !(p is FileActions) ==> with_selected(moved_in(p, delta), prompt_selected(p)) == p,
        p matches Prompt::FileActions { path, choices, .. } ==> (moved_in(p, delta) matches
            Prompt::FileActions { path: q, choices: c, edit, .. } && q == path && c == choices
            && edit is None),
{
    let m = n as int;
    let a = prompt_selected(p) + delta;
    vstd::arithmetic::div_mod::lemma_mod_bound(a, m);
    if 0 <= a < m {
        vstd::arithmetic::div_mod::lemma_small_mod(a as nat, n);
    }
    if a == m {
        vstd::arithmetic::div_mod::lemma_mod_self_0(m);
    }
    if a == -1 {
        vstd::arithmetic::div_mod::lemma_mod_add_multiples_vanish(-1, m);
        vstd::arithmetic::div_mod::lemma_small_mod((m - 1) as nat, n);
    }
    assert(prompt_rows(with_selected(p, 0)) == prompt_rows(p));
}

} // verus!
