//! Changes of watched folders, collected until they settle.

use vstd::prelude::*;
use vstd::slice::slice_subrange;
use crate::pane::Pane;
use crate::path::{components, file_name, file_name_of, is_plain_name, join_path, join_then_parent};
use crate::path::{parent_of, parent_path, paths_equal, same_path};
use crate::text::{ascii_lower, ascii_lower_chars, chars_of, find_last, last_index, same_chars};
use crate::text::{same_text, string_from, texts};

verus! {

/// The part of a name after its last dot; nothing where there is no dot.
pub open spec fn last_dot_part(name: Seq<char>) -> Seq<char> {
    let i = last_index(name, '.');
    if i >= 0 {
        name.skip(i + 1)
    } else {
        seq![]
    }
}

/// Hidden files, and files that are still being downloaded.
pub open spec fn is_noise(name: Seq<char>) -> bool {
    let ext = ascii_lower(last_dot_part(name));
    ||| name.len() > 0 && name[0] == '.'
    ||| ext == "crdownload"@
    ||| ext == "part"@
    ||| ext == "download"@
    ||| ext == "tmp"@
}

fn is_word(s: &[char], word: &str) -> (r: bool)
    ensures
        r == (s@ == word@),
{
    let v = chars_of(word);
    same_chars(s, v.as_slice())
}

/// Whether a file of this name is of no interest to a watcher.
pub fn is_ignored_watch_filename(name: &str) -> (r: bool)
    ensures
        r == is_noise(name@),
{
    let v = chars_of(name);
    if v.len() > 0 && v[0] == '.' {
        return true;
    }
    let n: usize = v.len();
    let from: usize = match find_last(v.as_slice(), '.') {
        Some(i) => i + 1,
        None => n,
    };
    let part = slice_subrange(v.as_slice(), from, n);
    assert(part@ =~= last_dot_part(name@));
    let ext = ascii_lower_chars(part);
    let e = ext.as_slice();
    is_word(e, "crdownload") || is_word(e, "part") || is_word(e, "download") || is_word(e, "tmp")
}

/// What a change of a folder is.
#[derive(Debug, Clone, Copy, PartialEq, Eq, Structural)]
pub enum ChangeKind {
    Created,
    Removed,
    Renamed,
    Other,
}

/// A path that an event reports, and whether there is a file there.
#[derive(Debug)]
pub struct ChangedPath {
    pub path: String,
    pub is_file: bool,
}

/// Some folder of the list has this path.
pub open spec fn watches(folders: Seq<String>, p: Seq<char>) -> bool {
    exists|i: int| 0 <= i < folders.len() && same_path((#[trigger] folders[i])@, p)
}

fn is_watched(folders: &Vec<String>, p: &str) -> (r: bool)
    ensures
        r == watches(folders@, p@),
{
    let mut i: usize = 0;
    while i < folders.len()
        invariant
            i <= folders@.len(),
            forall|k: int| 0 <= k < i ==> !same_path((#[trigger] folders@[k])@, p@),
        decreases folders.len() - i,
    {
        if paths_equal(folders[i].as_str(), p) {
            assert(same_path(folders@[i as int]@, p@));
            return true;
        }
        i += 1;
    }
    false
}

/// How long a burst of new files must have ended, in milliseconds.
pub const NEW_FILES_QUIET: u64 = 500;

/// How long a burst of changes in a shown folder must have ended.
pub const PANE_QUIET: u64 = 300;

/// How long changes in a shown folder are held back at most.
pub const PANE_MAX_WAIT: u64 = 1500;

/// New files by folder, as plain values.
pub open spec fn bucket_views(v: Seq<(String, Vec<String>)>) -> Seq<(Seq<char>, Seq<Seq<char>>)> {
    Seq::new(v.len(), |i: int| (v[i].0@, texts(v[i].1@)))
}

/// The index of the folder's files, or the length.
pub open spec fn bucket_at(buckets: Seq<(Seq<char>, Seq<Seq<char>>)>, folder: Seq<char>) -> int
    decreases buckets.len(),
{
    if buckets.len() == 0 || same_path(buckets[0].0, folder) {
        0
    } else {
        1 + bucket_at(buckets.skip(1), folder)
    }
}

/// The files by folder with one more file: listed once, after those before it.
pub open spec fn with_file(
    buckets: Seq<(Seq<char>, Seq<Seq<char>>)>,
    folder: Seq<char>,
    name: Seq<char>,
) -> Seq<(Seq<char>, Seq<Seq<char>>)> {
    let i = bucket_at(buckets, folder);
    if i < buckets.len() {
        if buckets[i].1.contains(name) {
            buckets
        } else {
            buckets.update(i, (buckets[i].0, buckets[i].1.push(name)))
        }
    } else {
        buckets.push((folder, seq![name]))
    }
}

/// The folder and the name under which a reported path counts as a new file:
/// a file directly in a watched folder that is no noise.
pub open spec fn new_file(folders: Seq<String>, c: ChangedPath) -> Option<(Seq<char>, Seq<char>)> {
    match (file_name(c.path@), parent_path(c.path@)) {
        (Some(name), Some(parent)) => if !is_noise(name) && watches(folders, parent) && c.is_file {
            Some((parent, name))
        } else {
            None
        },
        _ => None,
    }
}

/// The files by folder after an event's paths.
pub open spec fn with_paths(
    buckets: Seq<(Seq<char>, Seq<Seq<char>>)>,
    folders: Seq<String>,
    paths: Seq<ChangedPath>,
) -> Seq<(Seq<char>, Seq<Seq<char>>)>
    decreases paths.len(),
{
    if paths.len() == 0 {
        buckets
    } else {
        let before = with_paths(buckets, folders, paths.drop_last());
        match new_file(folders, paths.last()) {
            Some((folder, name)) => with_file(before, folder, name),
            None => before,
        }
    }
}

fn add_file(pending: &mut Vec<(String, Vec<String>)>, folder: String, name: String)
    ensures
        bucket_views(final(pending)@) == with_file(bucket_views(old(pending)@), folder@, name@),
{
    let ghost before = bucket_views(pending@);
    let mut i: usize = 0;
    assert(before.skip(0) =~= before);
    while i < pending.len() && !paths_equal(pending[i].0.as_str(), folder.as_str())
        invariant
            bucket_views(pending@) == before,
            pending@ == old(pending)@,
            i <= pending@.len(),
            bucket_at(before, folder@) == i + bucket_at(before.skip(i as int), folder@),
        decreases pending.len() - i,
    {
        proof {
            assert(before[i as int].0 == pending@[i as int].0@);
            assert(before.skip(i as int)[0] == before[i as int]);
            assert(before.skip(i as int).skip(1) =~= before.skip(i + 1));
        }
        i += 1;
    }
    if i < pending.len() {
        proof {
            assert(before[i as int].0 == pending@[i as int].0@);
            assert(before.skip(i as int)[0] == before[i as int]);
            assert(before[i as int].1 == texts(pending@[i as int].1@));
        }
        let mut k: usize = 0;
        let n: usize = pending[i].1.len();
        while k < n
            invariant
                k <= n,
                i < pending@.len(),
                pending@ == old(pending)@,
                before == bucket_views(pending@),
                bucket_at(before, folder@) == i,
                before[i as int].1 == texts(pending@[i as int].1@),
                n == pending@[i as int].1@.len(),
                forall|j: int| 0 <= j < k ==> (#[trigger] pending@[i as int].1@[j])@ != name@,
            decreases n - k,
        {
            if same_text(pending[i].1[k].as_str(), name.as_str()) {
                assert(texts(pending@[i as int].1@)[k as int] == name@);
                assert(before[i as int].1.contains(name@));
                return;
            }
            k += 1;
        }
        proof {
            let t = texts(pending@[i as int].1@);
            assert(!t.contains(name@)) by {
                if t.contains(name@) {
                    let j = choose|j: int| 0 <= j < t.len() && t[j] == name@;
                    assert(pending@[i as int].1@[j]@ == name@);
                }
            }
        }
        let ghost old_list = pending@[i as int].1@;
        let (f, mut list) = pending.remove(i);
        list.push(name);
        assert(texts(list@) =~= texts(old_list).push(name@));
        pending.insert(i, (f, list));
        assert(bucket_views(pending@) =~= before.update(
            i as int,
            (before[i as int].0, before[i as int].1.push(name@)),
        ));
    } else {
        assert(before.skip(i as int) =~= seq![]);
        let ghost folder_text = folder@;
        let mut list: Vec<String> = Vec::new();
        list.push(name);
        assert(texts(list@) =~= seq![name@]);
        pending.push((folder, list));
        assert(bucket_views(pending@) =~= before.push((folder_text, seq![name@])));
    }
}

/// New files of the watched folders that are not announced yet.
pub struct NewFileWatch {
    pub folders: Vec<String>,
    pub pending: Vec<(String, Vec<String>)>,
    /// When the files are announced, unless more turn up before.
    pub deadline: Option<u64>,
}

impl NewFileWatch {
    pub fn new(folders: Vec<String>) -> (r: NewFileWatch)
        ensures
            r.folders == folders,
            r.pending@.len() == 0,
            r.deadline is None,
    {
        NewFileWatch { folders, pending: Vec::new(), deadline: None }
    }

    /// An event was taken up: only files that were created or renamed count,
    /// and each event puts off the announcement.
    pub open spec fn noted(
        &self,
        o: NewFileWatch,
        kind: ChangeKind,
        paths: Seq<ChangedPath>,
        now: u64,
    ) -> bool {
        &&& self.folders == o.folders
        &&& if kind == ChangeKind::Created || kind == ChangeKind::Renamed {
            &&& bucket_views(self.pending@) == with_paths(
                bucket_views(o.pending@),
                o.folders@,
                paths,
            )
            &&& self.deadline == (if self.pending@.len() > 0 {
                Some((now + NEW_FILES_QUIET) as u64)
            } else {
                o.deadline
            })
        } else {
            *self == o
        }
    }

    /// Takes up an event.
    pub fn note(&mut self, kind: ChangeKind, paths: &Vec<ChangedPath>, now: u64)
        requires
            now <= u64::MAX - NEW_FILES_QUIET,
        ensures
            final(self).noted(*old(self), kind, paths@, now),
    {
        if kind != ChangeKind::Created && kind != ChangeKind::Renamed {
            return;
        }
        let ghost before = bucket_views(self.pending@);
        let ghost all = paths@;
        let mut i: usize = 0;
        assert(all.take(0) =~= seq![]);
        while i < paths.len()
            invariant
                i <= all.len(),
                all == paths@,
                self.folders == old(self).folders,
                self.deadline == old(self).deadline,
                bucket_views(self.pending@) == with_paths(
                    before,
                    self.folders@,
                    all.take(i as int),
                ),
            decreases paths.len() - i,
        {
            proof {
                assert(all.take(i + 1).drop_last() =~= all.take(i as int));
            }
            let c = &paths[i];
            i += 1;
            match (file_name_of(c.path.as_str()), parent_of(c.path.as_str())) {
                (Some(name), Some(parent)) => {
                    if !is_ignored_watch_filename(name.as_str()) && is_watched(
                        &self.folders,
                        parent.as_str(),
                    ) && c.is_file {
                        add_file(&mut self.pending, parent, name);
                    }
                },
                _ => {},
            }
        }
        assert(all.take(all.len() as int) =~= all);
        if self.pending.len() > 0 {
            self.deadline = Some(now + NEW_FILES_QUIET);
        }
    }

    /// How long to wait for the announcement; none while nothing is pending.
    pub fn wait(&self, now: u64) -> (r: Option<u64>)
        ensures
            match self.deadline {
                Some(d) => r == Some(
                    if d > now {
                        (d - now) as u64
                    } else {
                        0u64
                    },
                ),
                None => r is None,
            },
    {
        match self.deadline {
            Some(d) => Some(
                if d > now {
                    d - now
                } else {
                    0
                },
            ),
            None => None,
        }
    }

    /// The files to announce, by folder; none are pending afterwards.
    pub fn flush(&mut self) -> (r: Vec<(String, Vec<String>)>)
        ensures
            r == old(self).pending,
            final(self).folders == old(self).folders,
            final(self).pending@.len() == 0,
            final(self).deadline is None,
    {
        let mut out: Vec<(String, Vec<String>)> = Vec::new();
        std::mem::swap(&mut out, &mut self.pending);
        self.deadline = None;
        out
    }
}

/// The folder that a reported path counts as a change of: a watched one that
/// holds it directly, unless the name is noise.
pub open spec fn changed_folder(folders: Seq<String>, path: Seq<char>) -> Option<Seq<char>> {
    match parent_path(path) {
        Some(parent) => if watches(folders, parent) && !(file_name(path) matches Some(n)
            && is_noise(n)) {
            Some(parent)
        } else {
            None
        },
        None => None,
    }
}

/// The list with a folder added, unless it is listed.
pub open spec fn with_folder(list: Seq<Seq<char>>, folder: Seq<char>) -> Seq<Seq<char>> {
    if exists|i: int| 0 <= i < list.len() && same_path(#[trigger] list[i], folder) {
        list
    } else {
        list.push(folder)
    }
}

/// The changed folders after an event's paths.
pub open spec fn with_changes(
    list: Seq<Seq<char>>,
    folders: Seq<String>,
    paths: Seq<ChangedPath>,
) -> Seq<Seq<char>>
    decreases paths.len(),
{
    if paths.len() == 0 {
        list
    } else {
        let before = with_changes(list, folders, paths.drop_last());
        match changed_folder(folders, paths.last().path@) {
            Some(folder) => with_folder(before, folder),
            None => before,
        }
    }
}

/// What a watch of shown folders has collected, as plain values.
pub struct Collected {
    pub changed: Seq<Seq<char>>,
    pub quiet_deadline: Option<u64>,
    pub hard_deadline: Option<u64>,
}

impl Collected {
    /// Both deadlines are set together, while there is anything to list again.
    pub open spec fn wf(self) -> bool {
        &&& self.quiet_deadline is Some <==> self.changed.len() > 0
        &&& self.hard_deadline is Some <==> self.changed.len() > 0
    }

    /// When the changed folders are listed again.
    pub open spec fn due(self) -> Option<u64> {
        match (self.quiet_deadline, self.hard_deadline) {
            (Some(q), Some(h)) => Some(
                if q < h {
                    q
                } else {
                    h
                },
            ),
            _ => None,
        }
    }

    /// What is collected once an event was taken up: files that come, go or
    /// are renamed change a listing. Each event puts off the refresh, but never
    /// beyond the limit that the first one has set.
    pub open spec fn noted(
        self,
        folders: Seq<String>,
        kind: ChangeKind,
        paths: Seq<ChangedPath>,
        now: u64,
    ) -> Collected {
        let changed = with_changes(self.changed, folders, paths);
        if kind == ChangeKind::Other || changed.len() == 0 {
            self
        } else {
            Collected {
                changed,
                quiet_deadline: Some((now + PANE_QUIET) as u64),
                hard_deadline: match self.hard_deadline {
                    Some(h) => Some(h),
                    None => Some((now + PANE_MAX_WAIT) as u64),
                },
            }
        }
    }

    /// What is collected after several events, given in order with their times.
    pub open spec fn noted_all(
        self,
        folders: Seq<String>,
        events: Seq<(ChangeKind, Seq<ChangedPath>, u64)>,
    ) -> Collected
        decreases events.len(),
    {
        if events.len() == 0 {
            self
        } else {
            let (kind, paths, now) = events.last();
            self.noted_all(folders, events.drop_last()).noted(folders, kind, paths, now)
        }
    }
}

/// Shown folders that have changed and are not listed again yet.
pub struct PaneWatch {
    pub folders: Vec<String>,
    pub changed: Vec<String>,
    /// When they are listed again, unless more changes follow before.
    pub quiet_deadline: Option<u64>,
    /// When they are listed again in any case.
    pub hard_deadline: Option<u64>,
}

impl View for PaneWatch {
    type V = Collected;

    open spec fn view(&self) -> Collected {
        Collected {
            changed: texts(self.changed@),
            quiet_deadline: self.quiet_deadline,
            hard_deadline: self.hard_deadline,
        }
    }
}

impl PaneWatch {
    pub fn new(folders: Vec<String>) -> (r: PaneWatch)
        ensures
            r.folders == folders,
            r.changed@.len() == 0,
            r.quiet_deadline is None,
            r.hard_deadline is None,
            r@.wf(),
    {
        PaneWatch { folders, changed: Vec::new(), quiet_deadline: None, hard_deadline: None }
    }

    /// Takes up an event.
    pub fn note(&mut self, kind: ChangeKind, paths: &Vec<ChangedPath>, now: u64)
        requires
            now <= u64::MAX - PANE_MAX_WAIT,
        ensures
            final(self).folders == old(self).folders,
            final(self)@ == old(self)@.noted(old(self).folders@, kind, paths@, now),
    {
        if kind == ChangeKind::Other {
            return;
        }
        let ghost before = texts(self.changed@);
        let ghost all = paths@;
        let mut i: usize = 0;
        assert(all.take(0) =~= seq![]);
        while i < paths.len()
            invariant
                i <= all.len(),
                all == paths@,
                self.folders == old(self).folders,
                self.quiet_deadline == old(self).quiet_deadline,
                self.hard_deadline == old(self).hard_deadline,
                texts(self.changed@) == with_changes(before, self.folders@, all.take(i as int)),
            decreases paths.len() - i,
        {
            proof {
                assert(all.take(i + 1).drop_last() =~= all.take(i as int));
            }
            let p = paths[i].path.as_str();
            i += 1;
            let noise: bool = match file_name_of(p) {
                Some(n) => is_ignored_watch_filename(n.as_str()),
                None => false,
            };
            match parent_of(p) {
                Some(parent) => {
                    if !noise && is_watched(&self.folders, parent.as_str()) {
                        self.add_folder(parent);
                    }
                },
                None => {},
            }
        }
        assert(all.take(all.len() as int) =~= all);
        proof {
            lemma_changes_grow(before, self.folders@, all);
        }
        if self.changed.len() > 0 {
            self.quiet_deadline = Some(now + PANE_QUIET);
            if self.hard_deadline.is_none() {
                self.hard_deadline = Some(now + PANE_MAX_WAIT);
            }
        }
    }

    fn add_folder(&mut self, folder: String)
        ensures
            texts(final(self).changed@) == with_folder(texts(old(self).changed@), folder@),
            *final(self) == (PaneWatch { changed: final(self).changed, ..*old(self) }),
    {
        let ghost list = texts(self.changed@);
        let listed: bool = is_watched(&self.changed, folder.as_str());
        proof {
            if watches(self.changed@, folder@) {
                let i = choose|i: int|
                    0 <= i < self.changed@.len() && same_path(
                        (#[trigger] self.changed@[i])@,
                        folder@,
                    );
                assert(same_path(list[i], folder@));
            }
            if exists|i: int| 0 <= i < list.len() && same_path(#[trigger] list[i], folder@) {
                let i = choose|i: int| 0 <= i < list.len() && same_path(#[trigger] list[i], folder@);
                assert(same_path(self.changed@[i]@, folder@));
            }
        }
        if !listed {
            self.changed.push(folder);
            assert(texts(self.changed@) =~= list.push(folder@));
        }
    }

    /// How long to wait for the refresh; none while nothing has changed.
    pub fn wait(&self, now: u64) -> (r: Option<u64>)
        ensures
            match self@.due() {
                Some(d) => r == Some(
                    if d > now {
                        (d - now) as u64
                    } else {
                        0u64
                    },
                ),
                None => r is None,
            },
    {
        match (self.quiet_deadline, self.hard_deadline) {
            (Some(q), Some(h)) => {
                let d: u64 = if q < h {
                    q
                } else {
                    h
                };
                Some(
                    if d > now {
                        d - now
                    } else {
                        0
                    },
                )
            },
            _ => None,
        }
    }

    /// The folders to list again; none are pending afterwards.
    pub fn flush(&mut self) -> (r: Vec<String>)
        ensures
            r == old(self).changed,
            final(self).folders == old(self).folders,
            final(self).changed@.len() == 0,
            final(self).quiet_deadline is None,
            final(self).hard_deadline is None,
    {
        let mut out: Vec<String> = Vec::new();
        std::mem::swap(&mut out, &mut self.changed);
        self.quiet_deadline = None;
        self.hard_deadline = None;
        out
    }
}

proof fn lemma_changes_grow(list: Seq<Seq<char>>, folders: Seq<String>, paths: Seq<ChangedPath>)
    ensures
        with_changes(list, folders, paths).len() >= list.len(),
        with_changes(list, folders, paths).len() == 0 ==> with_changes(list, folders, paths)
            =~= list,
    decreases paths.len(),
{
    if paths.len() > 0 {
        lemma_changes_grow(list, folders, paths.drop_last());
    }
}

/// Taking up events keeps both deadlines together.
pub proof fn noting_keeps_deadlines(
    before: Collected,
    folders: Seq<String>,
    kind: ChangeKind,
    paths: Seq<ChangedPath>,
    now: u64,
)
    requires
        before.wf(),
    ensures
        before.noted(folders, kind, paths, now).wf(),
{
}

/// However many changes follow each other, a refresh that is pending is due no
/// later than the limit that the first change has set.
pub proof fn refreshes_are_not_starved(
    before: Collected,
    folders: Seq<String>,
    events: Seq<(ChangeKind, Seq<ChangedPath>, u64)>,
)
    requires
        before.wf(),
        before.changed.len() > 0,
    ensures
        before.noted_all(folders, events).wf(),
        before.noted_all(folders, events).hard_deadline == before.hard_deadline,
        before.noted_all(folders, events).due() matches Some(d) && d
            <= before.hard_deadline->Some_0,
    decreases events.len(),
{
    if events.len() > 0 {
        refreshes_are_not_starved(before, folders, events.drop_last());
        let (kind, paths, now) = events.last();
        lemma_changes_grow(before.noted_all(folders, events.drop_last()).changed, folders, paths);
    }
}

/// The folders that the panes show and that are watched: those of the local
/// panes that exist, the left one first, and each once.
pub open spec fn shown_folders(left: Pane, right: Pane, left_is_dir: bool, right_is_dir: bool) -> Seq<
    Seq<char>,
> {
    let l = left.location@.path();
    let r = right.location@.path();
    let first = if left.location is Local && left_is_dir {
        seq![l]
    } else {
        seq![]
    };
    if right.location is Local && right_is_dir && !(first.len() > 0 && same_path(l, r)) {
        first.push(r)
    } else {
        first
    }
}

/// The folders that the panes show and that are watched.
pub fn watched_panes(left: &Pane, right: &Pane, left_is_dir: bool, right_is_dir: bool) -> (r: Vec<
    String,
>)
    ensures
        texts(r@) == shown_folders(*left, *right, left_is_dir, right_is_dir),
{
    let mut v: Vec<String> = Vec::new();
    let first: bool = left.location.is_local() && left_is_dir;
    if first {
        v.push(string_from(left.path()));
    }
    if right.location.is_local() && right_is_dir && !(first && paths_equal(
        left.path(),
        right.path(),
    )) {
        v.push(string_from(right.path()));
    }
    assert(texts(v@) =~= shown_folders(*left, *right, left_is_dir, right_is_dir));
    v
}

proof fn lemma_joined_name(dir: Seq<char>, name: Seq<char>)
    requires
        is_plain_name(name),
    ensures
        file_name(join_path(dir, name)) == Some(name),
        parent_path(join_path(dir, name)) matches Some(q) && same_path(q, dir),
{
    join_then_parent(dir, name);
}

/// A file counts as new where it lies directly in a watched folder and is
/// neither hidden nor a download that is under way, under its own name and in its
/// own folder. Directories do not, nor does what lies elsewhere.
pub proof fn new_files_are_noticed(
    folders: Seq<String>,
    c: ChangedPath,
    dir: Seq<char>,
    name: Seq<char>,
)
    requires
        is_plain_name(name),
        c.path@ == join_path(dir, name),
    ensures
        ({
            let watched = exists|i: int|
                0 <= i < folders.len() && components((#[trigger] folders[i])@) == components(dir);
            &&& new_file(folders, c) is Some <==> watched && c.is_file && !is_noise(name)
            &&& new_file(folders, c) matches Some((folder, n)) ==> n == name && same_path(
                folder,
                dir,
            )
            &&& changed_folder(folders, c.path@) is Some <==> watched && !is_noise(name)
            &&& changed_folder(folders, c.path@) matches Some(folder) ==> same_path(folder, dir)
        }),
{
    lemma_joined_name(dir, name);
    let q = parent_path(c.path@)->0;
    if exists|i: int|
        0 <= i < folders.len() && components((#[trigger] folders[i])@) == components(dir) {
        let i = choose|i: int|
            0 <= i < folders.len() && components((#[trigger] folders[i])@) == components(dir);
        assert(same_path(folders[i]@, q));
    }
    if watches(folders, q) {
        let i = choose|i: int| 0 <= i < folders.len() && same_path((#[trigger] folders[i])@, q);
        assert(components(folders[i]@) == components(dir));
    }
}

/// Hidden names are noise, and so are names whose last part after a dot is one of
/// the four that browsers give to unfinished downloads; other names are not.
pub proof fn hidden_and_unfinished_files_are_noise(stem: Seq<char>, ext: Seq<char>)
    requires
        stem.len() > 0,
        stem[0] != '.',
        !ext.contains('.'),
    ensures
        is_noise(seq!['.'] + stem),
        is_noise(stem + seq!['.'] + ext) <==> ascii_lower(ext) == "crdownload"@ || ascii_lower(ext)
            == "part"@ || ascii_lower(ext) == "download"@ || ascii_lower(ext) == "tmp"@,
        !stem.contains('.') ==> !is_noise(stem),
{
    assert forall|k: int| 0 <= k < ext.len() implies ext[k] != '.' by {
        assert(ext.contains(ext[k]));
    }
    let a = stem + seq!['.'] + ext;
    assert forall|k: int| stem.len() < k < a.len() implies a[k] != '.' by {
        assert(a[k] == ext[k - stem.len() - 1]);
    }
    crate::text::lemma_last_index_unique(a, '.', stem.len() as int);
    assert(a.skip(stem.len() as int + 1) =~= ext);
    if !stem.contains('.') {
        assert forall|k: int| 0 <= k < stem.len() implies stem[k] != '.' by {
            assert(stem.contains(stem[k]));
        }
        crate::text::lemma_last_index_unique(stem, '.', -1);
        reveal_strlit("crdownload");
        reveal_strlit("part");
        reveal_strlit("download");
        reveal_strlit("tmp");
        assert(ascii_lower(last_dot_part(stem)).len() == 0);
    }
}

/// The files of a folder, as they are collected.
pub open spec fn collected(
    buckets: Seq<(Seq<char>, Seq<Seq<char>>)>,
    folder: Seq<char>,
    name: Seq<char>,
) -> bool {
    exists|i: int|
        0 <= i < buckets.len() && same_path((#[trigger] buckets[i]).0, folder)
            && buckets[i].1.contains(name)
}

proof fn lemma_bucket_at(buckets: Seq<(Seq<char>, Seq<Seq<char>>)>, folder: Seq<char>)
    ensures
        0 <= bucket_at(buckets, folder) <= buckets.len(),
        bucket_at(buckets, folder) < buckets.len() ==> same_path(
            buckets[bucket_at(buckets, folder)].0,
            folder,
        ),
    decreases buckets.len(),
{
    if buckets.len() > 0 && !same_path(buckets[0].0, folder) {
        lemma_bucket_at(buckets.skip(1), folder);
    }
}

/// A new file is collected under its folder, and none that was collected before
/// is lost.
pub proof fn collected_files_are_kept(
    buckets: Seq<(Seq<char>, Seq<Seq<char>>)>,
    folder: Seq<char>,
    name: Seq<char>,
    other: Seq<char>,
    known: Seq<char>,
)
    ensures
        collected(with_file(buckets, folder, name), folder, name),
        collected(buckets, other, known) ==> collected(
            with_file(buckets, folder, name),
            other,
            known,
        ),
{
    lemma_bucket_at(buckets, folder);
    let i = bucket_at(buckets, folder);
    let after = with_file(buckets, folder, name);
    if i < buckets.len() {
        if buckets[i].1.contains(name) {
            assert(after[i].1.contains(name));
        } else {
            assert(after[i].1[buckets[i].1.len() as int] == name);
        }
        assert(same_path(after[i].0, folder));
    } else {
        let last = after[buckets.len() as int];
        assert(last.1[0] == name);
        assert(same_path(last.0, folder));
    }
    if collected(buckets, other, known) {
        let k = choose|k: int|
            0 <= k < buckets.len() && same_path((#[trigger] buckets[k]).0, other)
                && buckets[k].1.contains(known);
        let j = choose|j: int| 0 <= j < buckets[k].1.len() && buckets[k].1[j] == known;
        assert(after[k].0 == buckets[k].0);
        assert(after[k].1[j] == known);
    }
}

/// Every path of an event that is a new file is collected.
pub proof fn every_new_file_is_collected(
    buckets: Seq<(Seq<char>, Seq<Seq<char>>)>,
    folders: Seq<String>,
    paths: Seq<ChangedPath>,
    i: int,
)
    requires
        0 <= i < paths.len(),
        new_file(folders, paths[i]) is Some,
    ensures
        new_file(folders, paths[i]) matches Some((folder, name)) && collected(
            with_paths(buckets, folders, paths),
            folder,
            name,
        ),
    decreases paths.len(),
{
    let (f, n) = new_file(folders, paths[i])->0;
    let before = with_paths(buckets, folders, paths.drop_last());
    if i == paths.len() - 1 {
        collected_files_are_kept(before, f, n, f, n);
    } else {
        every_new_file_is_collected(buckets, folders, paths.drop_last(), i);
        if let Some((g, m)) = new_file(folders, paths.last()) {
            collected_files_are_kept(before, g, m, f, n);
        }
    }
}

/// Every folder that an event changes is listed again, and so is every one that
/// was to be.
pub proof fn every_changed_folder_is_listed_again(
    list: Seq<Seq<char>>,
    folders: Seq<String>,
    paths: Seq<ChangedPath>,
    folder: Seq<char>,
)
    requires
        (exists|k: int| 0 <= k < list.len() && same_path(#[trigger] list[k], folder)) || exists|
            i: int,
        |
            0 <= i < paths.len() && changed_folder(folders, (#[trigger] paths[i]).path@) == Some(
                folder,
            ),
    ensures
        exists|k: int|
            0 <= k < with_changes(list, folders, paths).len() && same_path(
                #[trigger] with_changes(list, folders, paths)[k],
                folder,
            ),
    decreases paths.len(),
{
    if paths.len() > 0 {
        let d = paths.drop_last();
        let before = with_changes(list, folders, d);
        let now = with_changes(list, folders, paths);
        if (exists|k: int| 0 <= k < list.len() && same_path(#[trigger] list[k], folder)) || exists|
            i: int,
        |
            0 <= i < d.len() && changed_folder(folders, (#[trigger] d[i]).path@) == Some(folder) {
            every_changed_folder_is_listed_again(list, folders, d, folder);
            let k = choose|k: int|
                0 <= k < before.len() && same_path(#[trigger] before[k], folder);
            assert(now[k] == before[k]);
            assert(same_path(now[k], folder));
        } else {
            let i = choose|i: int|
                0 <= i < paths.len() && changed_folder(folders, (#[trigger] paths[i]).path@) == Some(
                    folder,
                );
            if i < d.len() {
                assert(d[i] == paths[i]);
            }
            assert(paths.last() == paths[i]);
            assert(now == with_folder(before, folder));
            if exists|k: int| 0 <= k < before.len() && same_path(#[trigger] before[k], folder) {
                let k = choose|k: int|
                    0 <= k < before.len() && same_path(#[trigger] before[k], folder);
                assert(same_path(now[k], folder));
            } else {
                assert(same_path(now[before.len() as int], folder));
            }
        }
    } else {
        let k = choose|k: int| 0 <= k < list.len() && same_path(#[trigger] list[k], folder);
        assert(same_path(with_changes(list, folders, paths)[k], folder));
    }
}

/// A folder is watched exactly where a local pane shows it and it is there.
pub proof fn shown_local_folders_are_watched(
    left: Pane,
    right: Pane,
    left_is_dir: bool,
    right_is_dir: bool,
    folder: Seq<char>,
)
    ensures
        (exists|i: int|
            0 <= i < shown_folders(left, right, left_is_dir, right_is_dir).len() && same_path(
                #[trigger] shown_folders(left, right, left_is_dir, right_is_dir)[i],
                folder,
            )) <==> (left_is_dir && left.location is Local && same_path(
            left.location@.path(),
            folder,
        )) || (right_is_dir && right.location is Local && same_path(
            right.location@.path(),
            folder,
        )),
{
    let s = shown_folders(left, right, left_is_dir, right_is_dir);
    let l = left.location@.path();
    let r = right.location@.path();
    if left_is_dir && left.location is Local {
        assert(s[0] == l);
    }
    if right_is_dir && right.location is Local {
        if left_is_dir && left.location is Local {
            if !same_path(l, r) {
                assert(s[1] == r);
            }
        } else {
            assert(s[0] == r);
        }
    }
}

/// A file that comes into a watched folder, or gets its name there, is announced
/// half a second after the last event.
pub proof fn new_files_are_announced(
    o: NewFileWatch,
    n: NewFileWatch,
    kind: ChangeKind,
    paths: Seq<ChangedPath>,
    now: u64,
    i: int,
)
    requires
        n.noted(o, kind, paths, now),
        now <= u64::MAX - 500,
        kind == ChangeKind::Created || kind == ChangeKind::Renamed,
        0 <= i < paths.len(),
        new_file(o.folders@, paths[i]) is Some,
    ensures
        new_file(o.folders@, paths[i]) matches Some((folder, name)) && collected(
            bucket_views(n.pending@),
            folder,
            name,
        ),
        n.deadline == Some((now + 500) as u64),
{
    every_new_file_is_collected(bucket_views(o.pending@), o.folders@, paths, i);
    if let Some((folder, name)) = new_file(o.folders@, paths[i]) {
        let b = bucket_views(n.pending@);
        let k = choose|k: int|
            0 <= k < b.len() && same_path((#[trigger] b[k]).0, folder) && b[k].1.contains(name);
        assert(b.len() == n.pending@.len());
    }
}

} // verus!
