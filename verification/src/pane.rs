//! A pane: a directory listing with a filtered view, a cursor and marks.

use std::collections::BTreeSet;
use vstd::prelude::*;
use crate::entry::{listing_sorted, sort_entries, Entry, SortBy, SortDir};
use crate::location::{Location, LocationView};
use crate::name_filter::{passes_filter, regex_matches, regex_valid, NameFilter};
use crate::path::{join_path, join_paths};
use crate::text::{ascii_upper, ascii_upper_chars, chars_of, concat2, contains_text, lowercase};
use crate::text::{same_text, string_of, texts};

verus! {

broadcast use vstd::std_specs::btree::group_btree_axioms;

/// What the git probe found for a directory.
#[derive(Debug)]
pub struct GitInfo {
    pub branch: String,
    pub uncommitted: usize,
    pub ahead: usize,
    pub behind: usize,
    /// The names in the directory that have uncommitted changes, or that hold
    /// something that has. No name is listed twice.
    pub modified_names: Vec<String>,
}

/// The file that guides the coding assistant in a directory.
pub open spec fn guide_name(program: Seq<char>) -> Seq<char> {
    ascii_upper(program) + ".md"@
}

/// The folder of the coding assistant in a directory.
pub open spec fn folder_name(program: Seq<char>) -> Seq<char> {
    "."@ + program
}

/// The file that guides the coding assistant in a directory.
pub fn assistant_guide(program: &str) -> (r: String)
    ensures
        r@ == guide_name(program@),
{
    let v = chars_of(program);
    let upper = ascii_upper_chars(v.as_slice());
    let name = string_of(upper.as_slice());
    concat2(name.as_str(), ".md")
}

/// The folder of the coding assistant in a directory.
pub fn assistant_folder(program: &str) -> (r: String)
    ensures
        r@ == folder_name(program@),
{
    concat2(".", program)
}

/// A directory listing as it is shown. Row 0 is the `..` row; row `r` above it
/// shows `entries[visible_indices[r - 1]]`.
#[derive(Debug)]
pub struct Pane {
    pub location: Location,
    pub entries: Vec<Entry>,
    /// The entries that pass the filter, in display order.
    pub visible_indices: Vec<usize>,
    pub filter: String,
    /// The cursor's row.
    pub selected: usize,
    /// The row that a shift-extended range starts from.
    pub anchor: usize,
    /// The marked rows; never the `..` row.
    pub marked: BTreeSet<usize>,
    pub sort_by: SortBy,
    pub sort_dir: SortDir,
    pub loading: bool,
    /// Counts the loads of this pane. Chunks carry the number of the load
    /// that they belong to.
    pub load_generation: u64,
    pub git_info: Option<GitInfo>,
    pub has_claude_md: bool,
    pub has_claude_dir: bool,
    /// The entry that the cursor goes to as soon as it is loaded.
    pub pending_focus: Option<String>,
    /// Whether the view is recentered when that entry is reached.
    pub focus_jump: bool,
}

/// The indices below `n` of the entries that pass the filter.
pub open spec fn shown_indices(entries: Seq<Entry>, filter: Seq<char>, n: int) -> Seq<usize>
    decreases n,
{
    if n <= 0 {
        seq![]
    } else {
        let before = shown_indices(entries, filter, n - 1);
        if passes_filter(filter, entries[n - 1].name@) {
            before.push((n - 1) as usize)
        } else {
            before
        }
    }
}

/// The entry that a row shows.
pub open spec fn row_entry(entries: Seq<Entry>, visible: Seq<usize>, row: int) -> Option<Entry> {
    if 1 <= row <= visible.len() && visible[row - 1] < entries.len() {
        Some(entries[visible[row - 1] as int])
    } else {
        None
    }
}

/// The first row from `row` on that shows an entry of this name, or 0.
pub open spec fn row_named(
    entries: Seq<Entry>,
    visible: Seq<usize>,
    name: Seq<char>,
    row: int,
) -> int
    decreases visible.len() + 1 - row,
{
    if row < 1 || row > visible.len() {
        0
    } else if row_entry(entries, visible, row) matches Some(e) && e.name@ == name {
        row
    } else {
        row_named(entries, visible, name, row + 1)
    }
}

/// Where the cursor goes in a new view: to the entry of the given name or to
/// the top where that is gone; without a name it stays on its row as far as
/// there are rows. While a filter is active it prefers the first match to the
/// `..` row.
pub open spec fn placed_cursor(
    entries: Seq<Entry>,
    visible: Seq<usize>,
    filter: Seq<char>,
    preserve: Option<Seq<char>>,
    selected: int,
) -> int {
    let row = match preserve {
        Some(name) => row_named(entries, visible, name, 1),
        None => if selected <= visible.len() {
            selected
        } else {
            visible.len() as int
        },
    };
    if filter.len() > 0 && row == 0 && visible.len() > 0 {
        1
    } else {
        row
    }
}

/// The set that holds a row, unless it is the `..` row.
pub open spec fn row_set(row: usize) -> Set<usize> {
    if row == 0 {
        Set::empty()
    } else {
        set![row]
    }
}

/// The rows from `lo` to `hi` but the `..` row.
pub open spec fn range_set(lo: usize, hi: usize) -> Set<usize> {
    Set::new(|i: usize| lo <= i <= hi && i != 0)
}

/// The marked rows up to `n`, in ascending order.
pub open spec fn marked_rows(marked: Set<usize>, n: int) -> Seq<int>
    decreases n,
{
    if n <= 0 {
        seq![]
    } else if marked.contains(n as usize) {
        marked_rows(marked, n - 1).push(n)
    } else {
        marked_rows(marked, n - 1)
    }
}

/// A name as text, if there is one.
pub open spec fn opt_text(s: Option<String>) -> Option<Seq<char>> {
    match s {
        Some(t) => Some(t@),
        None => None,
    }
}

pub open spec fn opt_str(s: Option<&str>) -> Option<Seq<char>> {
    match s {
        Some(t) => Some(t@),
        None => None,
    }
}

/// A number kept between 0 and `max`.
pub open spec fn clamped(target: int, max: int) -> int {
    if target < 0 {
        0
    } else if target > max {
        max
    } else {
        target
    }
}

proof fn lemma_shown_indices(entries: Seq<Entry>, filter: Seq<char>, n: int)
    requires
        0 <= n <= entries.len(),
        entries.len() <= usize::MAX,
    ensures
        shown_indices(entries, filter, n).len() <= n,
        forall|i: int|
            0 <= i < shown_indices(entries, filter, n).len() ==> #[trigger] shown_indices(
                entries,
                filter,
                n,
            )[i] < n && passes_filter(
                filter,
                entries[shown_indices(entries, filter, n)[i] as int].name@,
            ),
        forall|i: int, j: int|
            0 <= i < j < shown_indices(entries, filter, n).len() ==> #[trigger] shown_indices(
                entries,
                filter,
                n,
            )[i] < #[trigger] shown_indices(entries, filter, n)[j],
    decreases n,
{
    if n > 0 {
        lemma_shown_indices(entries, filter, n - 1);
    }
}

/// An empty filter shows every entry, in order.
pub proof fn empty_filter_shows_all(entries: Seq<Entry>)
    requires
        entries.len() <= usize::MAX,
    ensures
        shown_indices(entries, seq![], entries.len() as int) == Seq::new(
            entries.len(),
            |i: int| i as usize,
        ),
{
    lemma_empty_filter(entries, entries.len() as int);
}

proof fn lemma_empty_filter(entries: Seq<Entry>, n: int)
    requires
        0 <= n <= entries.len(),
        entries.len() <= usize::MAX,
    ensures
        shown_indices(entries, seq![], n) =~= Seq::new(n as nat, |i: int| i as usize),
    decreases n,
{
    if n > 0 {
        lemma_empty_filter(entries, n - 1);
    }
}

proof fn lemma_row_named(entries: Seq<Entry>, visible: Seq<usize>, name: Seq<char>, row: int)
    requires
        1 <= row,
    ensures
        0 <= row_named(entries, visible, name, row) <= visible.len(),
        row_named(entries, visible, name, row) > 0 ==> (row_entry(
            entries,
            visible,
            row_named(entries, visible, name, row),
        ) matches Some(e) && e.name@ == name),
    decreases visible.len() + 1 - row,
{
    if row <= visible.len() {
        lemma_row_named(entries, visible, name, row + 1);
    }
}

proof fn lemma_row_named_finds(
    entries: Seq<Entry>,
    visible: Seq<usize>,
    name: Seq<char>,
    row: int,
    at: int,
)
    requires
        1 <= row <= at <= visible.len(),
        row_entry(entries, visible, at) matches Some(e) && e.name@ == name,
    ensures
        row <= row_named(entries, visible, name, row) <= at,
    decreases at - row,
{
    if row < at && !(row_entry(entries, visible, row) matches Some(e) && e.name@ == name) {
        lemma_row_named_finds(entries, visible, name, row + 1, at);
    }
}

/// The cursor stays on the entry that it was on, by name, wherever that entry
/// is still shown.
pub proof fn cursor_follows_its_entry(
    entries: Seq<Entry>,
    visible: Seq<usize>,
    filter: Seq<char>,
    name: Seq<char>,
    selected: int,
    at: int,
)
    requires
        row_entry(entries, visible, at) matches Some(e) && e.name@ == name,
    ensures
        row_entry(
            entries,
            visible,
            placed_cursor(entries, visible, filter, Some(name), selected),
        ) matches Some(e) && e.name@ == name,
{
    lemma_row_named(entries, visible, name, 1);
    lemma_row_named_finds(entries, visible, name, 1, at);
}

/// Under an active filter the cursor rests on the `..` row only where nothing
/// matches.
pub proof fn filtered_cursor_is_on_a_match(
    entries: Seq<Entry>,
    visible: Seq<usize>,
    filter: Seq<char>,
    preserve: Option<Seq<char>>,
    selected: int,
)
    requires
        filter.len() > 0,
        selected >= 0,
    ensures
        placed_cursor(entries, visible, filter, preserve, selected) == 0 <==> visible.len() == 0,
{
    if preserve is Some {
        lemma_row_named(entries, visible, preserve->0, 1);
    }
}

impl Pane {
    /// What every pane keeps: the view shows entries of the listing in
    /// ascending order, the cursor and the anchor are rows of the view, and so
    /// is every marked row, of which `..` is none.
    pub open spec fn wf(&self) -> bool {
        &&& forall|i: int|
            0 <= i < self.visible_indices@.len() ==> #[trigger] self.visible_indices@[i]
                < self.entries@.len()
        &&& forall|i: int, j: int|
            0 <= i < j < self.visible_indices@.len() ==> #[trigger] self.visible_indices@[i]
                < #[trigger] self.visible_indices@[j]
        &&& self.selected <= self.visible_indices@.len()
        &&& self.anchor <= self.visible_indices@.len()
        &&& forall|r: usize|
            #[trigger] self.marked@.contains(r) ==> 1 <= r <= self.visible_indices@.len()
    }

    /// The entry that a row shows.
    pub open spec fn spec_entry_at(&self, row: int) -> Option<Entry> {
        row_entry(self.entries@, self.visible_indices@, row)
    }

    /// The name of the entry under the cursor.
    pub open spec fn spec_cursor_name(&self) -> Option<Seq<char>> {
        match self.spec_entry_at(self.selected as int) {
            Some(e) => Some(e.name@),
            None => None,
        }
    }

    /// The marked rows that show an entry, ascending.
    pub open spec fn spec_marked_entries(&self) -> Seq<Entry> {
        let rows = marked_rows(self.marked@, self.visible_indices@.len() as int);
        rows.filter(|r: int| self.spec_entry_at(r) is Some).map_values(
            |r: int| self.spec_entry_at(r)->0,
        )
    }

    /// The pane but for the view and the selection is that of `old`, with the
    /// given rows shown and the cursor placed in them.
    pub open spec fn shows(
        &self,
        old_pane: Pane,
        visible: Seq<usize>,
        preserve: Option<Seq<char>>,
    ) -> bool {
        &&& *self == (Pane {
            visible_indices: self.visible_indices,
            selected: self.selected,
            anchor: self.anchor,
            marked: self.marked,
            ..old_pane
        })
        &&& self.visible_indices@ == visible
        &&& self.selected == placed_cursor(
            old_pane.entries@,
            visible,
            old_pane.filter@,
            preserve,
            old_pane.selected as int,
        )
        &&& self.anchor == self.selected
        &&& self.marked@ == row_set(self.selected)
    }

    /// The pane with its view rebuilt from its entries and filter.
    pub open spec fn recomputed(&self, old_pane: Pane, preserve: Option<Seq<char>>) -> bool {
        self.shows(
            old_pane,
            shown_indices(old_pane.entries@, old_pane.filter@, old_pane.entries@.len() as int),
            preserve,
        )
    }

    /// A pane about to load a location for the first time.
    pub fn empty(location: Location) -> (r: Self)
        ensures
            r.location == location,
            r.entries@.len() == 0,
            r.visible_indices@.len() == 0,
            r.filter@.len() == 0,
            r.selected == 0,
            r.anchor == 0,
            r.marked@ == Set::<usize>::empty(),
            r.sort_by == SortBy::Name,
            r.sort_dir == SortDir::Asc,
            r.loading,
            r.load_generation == 0,
            r.git_info is None,
            !r.has_claude_md,
            !r.has_claude_dir,
            r.pending_focus is None,
            !r.focus_jump,
            r.wf(),
    {
        Pane {
            location,
            entries: Vec::new(),
            visible_indices: Vec::new(),
            filter: String::new(),
            selected: 0,
            anchor: 0,
            marked: BTreeSet::new(),
            sort_by: SortBy::Name,
            sort_dir: SortDir::Asc,
            loading: true,
            load_generation: 0,
            git_info: None,
            has_claude_md: false,
            has_claude_dir: false,
            pending_focus: None,
            focus_jump: false,
        }
    }

    /// The path of the pane's location.
    pub fn path(&self) -> (r: &str)
        ensures
            r@ == self.location@.path(),
    {
        self.location.path()
    }

    /// Whether the directory holds a guide for the coding assistant, or its
    /// folder.
    pub fn has_claude_marker(&self) -> (r: bool)
        ensures
            r == (self.has_claude_md || self.has_claude_dir),
    {
        self.has_claude_md || self.has_claude_dir
    }

    /// The label of the info bar for the markers that are present, where the
    /// coding assistant is this program.
    pub fn claude_marker_label(&self, program: &str) -> (r: String)
        ensures
            r@ == program@ + ": "@ + (if self.has_claude_md && self.has_claude_dir {
                guide_name(program@) + ", "@ + folder_name(program@) + "/"@
            } else if self.has_claude_md {
                guide_name(program@)
            } else if self.has_claude_dir {
                folder_name(program@) + "/"@
            } else {
                seq![]
            }),
    {
        let guide = assistant_guide(program);
        let folder = assistant_folder(program);
        let mut r = concat2(program, ": ");
        if self.has_claude_md {
            r.push_str(guide.as_str());
            if self.has_claude_dir {
                r.push_str(", ");
            }
        }
        if self.has_claude_dir {
            r.push_str(folder.as_str());
            r.push_str("/");
        }
        assert(r@ =~= program@ + ": "@ + (if self.has_claude_md && self.has_claude_dir {
            guide_name(program@) + ", "@ + folder_name(program@) + "/"@
        } else if self.has_claude_md {
            guide_name(program@)
        } else if self.has_claude_dir {
            folder_name(program@) + "/"@
        } else {
            seq![]
        }));
        r
    }

    /// Makes the pane ready to load a location, and returns the number that
    /// the chunks of that load carry.
    pub fn navigate(&mut self, location: Location) -> (generation: u64)
        requires
            old(self).load_generation < u64::MAX,
        ensures
            final(self).navigated(*old(self), location),
            generation == final(self).load_generation,
            final(self).wf(),
    {
        self.location = location;
        self.entries.clear();
        self.visible_indices.clear();
        self.filter = String::new();
        self.selected = 0;
        self.anchor = 0;
        self.marked.clear();
        self.loading = true;
        self.load_generation += 1;
        self.git_info = None;
        self.has_claude_md = false;
        self.has_claude_dir = false;
        self.pending_focus = None;
        self.focus_jump = false;
        self.load_generation
    }

    /// The pane is about to load `location`: it keeps its sort order and
    /// nothing else, and its generation is one higher.
    pub open spec fn navigated(&self, old_pane: Pane, location: Location) -> bool {
        &&& self.location == location
        &&& self.entries@.len() == 0
        &&& self.visible_indices@.len() == 0
        &&& self.filter@.len() == 0
        &&& self.selected == 0
        &&& self.anchor == 0
        &&& self.marked@ == Set::<usize>::empty()
        &&& self.sort_by == old_pane.sort_by
        &&& self.sort_dir == old_pane.sort_dir
        &&& self.loading
        &&& self.load_generation == old_pane.load_generation + 1
        &&& self.git_info is None
        &&& !self.has_claude_md
        &&& !self.has_claude_dir
        &&& self.pending_focus is None
        &&& !self.focus_jump
    }

    /// Makes the pane ready to load its directory again in place: the filter,
    /// the sort order and the markers stay, and the cursor returns to its
    /// entry without a jump once that is loaded.
    pub fn reload(&mut self) -> (generation: u64)
        requires
            old(self).load_generation < u64::MAX,
        ensures
            final(self).reloaded(*old(self)),
            generation == final(self).load_generation,
            final(self).wf(),
    {
        self.pending_focus = self.cursor_name();
        self.focus_jump = false;
        self.entries.clear();
        self.visible_indices.clear();
        self.selected = 0;
        self.anchor = 0;
        self.marked.clear();
        self.loading = true;
        self.load_generation += 1;
        self.git_info = None;
        self.load_generation
    }

    /// The pane is about to load its directory again.
    pub open spec fn reloaded(&self, old_pane: Pane) -> bool {
        &&& self.location == old_pane.location
        &&& self.entries@.len() == 0
        &&& self.visible_indices@.len() == 0
        &&& self.filter == old_pane.filter
        &&& self.selected == 0
        &&& self.anchor == 0
        &&& self.marked@ == Set::<usize>::empty()
        &&& self.sort_by == old_pane.sort_by
        &&& self.sort_dir == old_pane.sort_dir
        &&& self.loading
        &&& self.load_generation == old_pane.load_generation + 1
        &&& self.git_info is None
        &&& self.has_claude_md == old_pane.has_claude_md
        &&& self.has_claude_dir == old_pane.has_claude_dir
        &&& opt_text(self.pending_focus) == old_pane.spec_cursor_name()
        &&& !self.focus_jump
    }

    /// Adds loaded entries at the end of the listing, unsorted, and rebuilds
    /// the view. The cursor goes to the entry that is waited for, once it is
    /// there; otherwise it stays on its entry.
    pub fn append_chunk(&mut self, chunk: Vec<Entry>)
        ensures
            final(self).appended(*old(self), chunk@),
            chunk@.len() > 0 ==> final(self).wf(),
    {
        if chunk.len() == 0 {
            return;
        }
        let ghost old_pane = *self;
        let preserve = match &self.pending_focus {
            Some(name) => Some(name.clone()),
            None => self.cursor_name(),
        };
        let mut chunk = chunk;
        self.entries.append(&mut chunk);
        let ghost mid = *self;
        match &preserve {
            Some(name) => self.recompute_visible(Some(name.as_str())),
            None => self.recompute_visible(None),
        }
        let reached: bool = match &self.pending_focus {
            Some(target) => match self.cursor_name() {
                Some(name) => same_text(name.as_str(), target.as_str()),
                None => false,
            },
            None => false,
        };
        if reached {
            self.pending_focus = None;
        }
    }

    /// The pane after a chunk of entries has arrived.
    pub open spec fn appended(&self, old_pane: Pane, chunk: Seq<Entry>) -> bool {
        if chunk.len() == 0 {
            *self == old_pane
        } else {
            let entries = old_pane.entries@ + chunk;
            let visible = shown_indices(entries, old_pane.filter@, entries.len() as int);
            let preserve = match old_pane.pending_focus {
                Some(name) => Some(name@),
                None => old_pane.spec_cursor_name(),
            };
            &&& *self == (Pane {
                entries: self.entries,
                visible_indices: self.visible_indices,
                selected: self.selected,
                anchor: self.anchor,
                marked: self.marked,
                pending_focus: self.pending_focus,
                ..old_pane
            })
            &&& self.entries@ == entries
            &&& self.visible_indices@ == visible
            &&& self.selected == placed_cursor(
                entries,
                visible,
                old_pane.filter@,
                preserve,
                old_pane.selected as int,
            )
            &&& self.anchor == self.selected
            &&& self.marked@ == row_set(self.selected)
            &&& self.pending_focus == (if old_pane.pending_focus is Some
                && self.spec_cursor_name() == opt_text(old_pane.pending_focus) {
                None::<String>
            } else {
                old_pane.pending_focus
            })
        }
    }

    /// Rebuilds the view from the entries and the filter, and places the
    /// cursor in it.
    pub fn recompute_visible(&mut self, preserve_name: Option<&str>)
        ensures
            final(self).recomputed(*old(self), opt_str(preserve_name)),
            final(self).wf(),
    {
        let names = NameFilter::new(self.filter.as_str());
        let mut visible: Vec<usize> = Vec::new();
        let mut i: usize = 0;
        while i < self.entries.len()
            invariant
                *self == *old(self),
                names.wf(),
                names.filter() == self.filter@,
                i <= self.entries@.len(),
                visible@ == shown_indices(self.entries@, self.filter@, i as int),
            decreases self.entries.len() - i,
        {
            if names.passes(self.entries[i].name.as_str()) {
                visible.push(i);
            }
            i += 1;
        }
        proof {
            lemma_shown_indices(self.entries@, self.filter@, self.entries@.len() as int);
        }
        self.show_rows(visible, preserve_name);
    }

    /// Shows the given entries, and places the cursor in the new view.
    pub fn show_rows(&mut self, visible: Vec<usize>, preserve_name: Option<&str>)
        requires
            forall|i: int| 0 <= i < visible@.len() ==> #[trigger] visible@[i] < old(
                self,
            ).entries@.len(),
            forall|i: int, j: int|
                0 <= i < j < visible@.len() ==> #[trigger] visible@[i] < #[trigger] visible@[j],
        ensures
            final(self).shows(*old(self), visible@, opt_str(preserve_name)),
            final(self).wf(),
    {
        let ghost rows = visible@;
        self.visible_indices = visible;
        let n: usize = self.visible_indices.len();
        let mut row: usize = match preserve_name {
            Some(name) => self.find_row(name),
            None => if self.selected <= n {
                self.selected
            } else {
                n
            },
        };
        proof {
            if preserve_name is Some {
                lemma_row_named(self.entries@, rows, preserve_name->0@, 1);
            }
        }
        if !self.filter.as_str().is_empty() && row == 0 && n > 0 {
            row = 1;
        }
        self.selected = row;
        self.anchor = row;
        self.mark_only(row);
    }

    /// The first row that shows an entry of this name, or 0.
    fn find_row(&self, name: &str) -> (r: usize)
        ensures
            r == row_named(self.entries@, self.visible_indices@, name@, 1),
    {
        let mut i: usize = 0;
        while i < self.visible_indices.len()
            invariant
                i <= self.visible_indices@.len(),
                row_named(self.entries@, self.visible_indices@, name@, 1) == row_named(
                    self.entries@,
                    self.visible_indices@,
                    name@,
                    i + 1,
                ),
            decreases self.visible_indices.len() - i,
        {
            let at: usize = self.visible_indices[i];
            if at < self.entries.len() && same_text(self.entries[at].name.as_str(), name) {
                return i + 1;
            }
            i += 1;
        }
        0
    }

    /// Marks one row and no other; the `..` row is never marked.
    fn mark_only(&mut self, row: usize)
        ensures
            *final(self) == (Pane { marked: final(self).marked, ..*old(self) }),
            final(self).marked@ == row_set(row),
    {
        self.marked.clear();
        if row != 0 {
            self.marked.insert(row);
        }
        assert(self.marked@ =~= row_set(row));
    }

    /// The name of the entry under the cursor; none on the `..` row.
    pub fn cursor_name(&self) -> (r: Option<String>)
        ensures
            opt_text(r) == self.spec_cursor_name(),
    {
        match self.entry_at(self.selected) {
            Some(e) => Some(e.name.clone()),
            None => None,
        }
    }

    /// The entry that a row shows.
    pub fn entry_at(&self, row_index: usize) -> (r: Option<&Entry>)
        ensures
            match r {
                Some(e) => self.spec_entry_at(row_index as int) == Some(*e),
                None => self.spec_entry_at(row_index as int) is None,
            },
    {
        if row_index == 0 || row_index > self.visible_indices.len() {
            return None;
        }
        let i: usize = self.visible_indices[row_index - 1];
        if i < self.entries.len() {
            Some(&self.entries[i])
        } else {
            None
        }
    }

    /// Puts the cursor on a row, or on the nearest one there is. Extending
    /// marks the rows from the anchor to it; otherwise it is marked alone.
    pub fn move_to(&mut self, target: i32, extend: bool)
        ensures
            final(self).moved(*old(self), target as int, extend),
            old(self).wf() ==> final(self).wf(),
    {
        self.move_cursor(target as i128, extend);
    }

    /// The pane after the cursor has been sent to row `target`.
    pub open spec fn moved(&self, old_pane: Pane, target: int, extend: bool) -> bool {
        &&& *self == (Pane {
            selected: self.selected,
            anchor: self.anchor,
            marked: self.marked,
            ..old_pane
        })
        &&& self.selected == clamped(target, old_pane.visible_indices@.len() as int)
        &&& if extend {
            &&& self.anchor == old_pane.anchor
            &&& self.marked@ == (if self.anchor < self.selected {
                range_set(self.anchor, self.selected)
            } else {
                range_set(self.selected, self.anchor)
            })
        } else {
            &&& self.anchor == self.selected
            &&& self.marked@ == row_set(self.selected)
        }
    }

    fn move_cursor(&mut self, target: i128, extend: bool)
        ensures
            final(self).moved(*old(self), target as int, extend),
            old(self).wf() ==> final(self).wf(),
    {
        let max: usize = self.visible_indices.len();
        let next: usize = if target < 0 {
            0
        } else if target > max as i128 {
            max
        } else {
            target as usize
        };
        self.selected = next;
        if extend {
            self.select_range();
        } else {
            self.anchor = next;
            self.mark_only(next);
        }
    }

    /// Moves the cursor by a number of rows.
    pub fn move_by(&mut self, delta: i32, extend: bool)
        ensures
            final(self).moved(*old(self), old(self).selected + delta, extend),
            old(self).wf() ==> final(self).wf(),
    {
        let target: i128 = self.selected as i128 + delta as i128;
        self.move_cursor(target, extend);
    }

    /// Moves the cursor by pages of `page` rows.
    pub fn move_pages(&mut self, dir: i8, page: i32, extend: bool)
        ensures
            final(self).moved(*old(self), old(self).selected + dir * page, extend),
            old(self).wf() ==> final(self).wf(),
    {
        let step: i64 = dir as i64;
        let rows: i64 = page as i64;
        assert(-0x100_0000_0000 <= step * rows <= 0x100_0000_0000) by (nonlinear_arith)
            requires
                -128 <= step <= 127,
                -0x8000_0000 <= rows <= 0x7fff_ffff,
        ;
        let delta: i64 = step * rows;
        self.move_cursor(self.selected as i128 + delta as i128, extend);
    }

    /// Puts the cursor on a row, or on the last one where there is no such row.
    pub fn move_to_row(&mut self, row: usize, extend: bool)
        ensures
            final(self).moved(*old(self), row as int, extend),
            old(self).wf() ==> final(self).wf(),
    {
        self.move_cursor(row as i128, extend);
    }

    /// Marks or unmarks one row without touching the others, and puts the
    /// cursor and the anchor on it. The `..` row is left alone.
    pub fn toggle_mark(&mut self, row: usize)
        ensures
            row == 0 ==> *final(self) == *old(self),
            row != 0 ==> {
                &&& *final(self) == (Pane {
                    selected: row,
                    anchor: row,
                    marked: final(self).marked,
                    ..*old(self)
                })
                &&& final(self).marked@ == (if old(self).marked@.contains(row) {
                    old(self).marked@.remove(row)
                } else {
                    old(self).marked@.insert(row)
                })
            },
            old(self).wf() && row <= old(self).visible_indices@.len() ==> final(self).wf(),
    {
        if row == 0 {
            return;
        }
        if !self.marked.remove(&row) {
            self.marked.insert(row);
        }
        self.selected = row;
        self.anchor = row;
    }

    /// Marks the rows between the anchor and the cursor.
    fn select_range(&mut self)
        ensures
            *final(self) == (Pane { marked: final(self).marked, ..*old(self) }),
            final(self).marked@ == (if old(self).anchor < old(self).selected {
                range_set(old(self).anchor, old(self).selected)
            } else {
                range_set(old(self).selected, old(self).anchor)
            }),
    {
        let (lo, hi) = self.mark_range();
        let mut marked: BTreeSet<usize> = BTreeSet::new();
        let mut i: usize = lo;
        while i < hi
            invariant
                lo <= i <= hi,
                marked@ == Set::new(|r: usize| lo <= r < i && r != 0),
            decreases hi - i,
        {
            if i != 0 {
                marked.insert(i);
            }
            i += 1;
            assert(marked@ =~= Set::new(|r: usize| lo <= r < i && r != 0));
        }
        if hi != 0 {
            marked.insert(hi);
        }
        assert(marked@ =~= range_set(lo, hi));
        self.marked = marked;
    }

    /// The rows from the anchor to the cursor, the lower one first.
    pub fn mark_range(&self) -> (r: (usize, usize))
        ensures
            r == (if self.anchor < self.selected {
                (self.anchor, self.selected)
            } else {
                (self.selected, self.anchor)
            }),
    {
        if self.anchor < self.selected {
            (self.anchor, self.selected)
        } else {
            (self.selected, self.anchor)
        }
    }

    /// Whether a row is marked.
    pub fn is_marked(&self, row_index: usize) -> (r: bool)
        ensures
            r == self.marked@.contains(row_index),
    {
        self.marked.contains(&row_index)
    }

    /// The names of the marked entries, from the top down.
    fn marked_names(&self) -> (r: Vec<String>)
        ensures
            texts(r@) == self.spec_marked_entries().map_values(|e: Entry| e.name@),
    {
        let mut r: Vec<String> = Vec::new();
        let mut row: usize = 0;
        let keep = Ghost(|k: int| self.spec_entry_at(k) is Some);
        let name = Ghost(|k: int| self.spec_entry_at(k)->0.name@);
        proof {
            assert(texts(r@) =~= Seq::<int>::empty().filter(keep@).map_values(name@));
        }
        while row < self.visible_indices.len()
            invariant
                row <= self.visible_indices@.len(),
                keep@ == (|k: int| self.spec_entry_at(k) is Some),
                name@ == (|k: int| self.spec_entry_at(k)->0.name@),
                texts(r@) == marked_rows(self.marked@, row as int).filter(keep@).map_values(name@),
            decreases self.visible_indices.len() - row,
        {
            row += 1;
            let ghost before = marked_rows(self.marked@, row - 1);
            let ghost r0 = r@;
            if self.marked.contains(&row) {
                proof {
                    lemma_filter_push(before, row as int, keep@);
                }
                match self.entry_at(row) {
                    Some(e) => {
                        r.push(e.name.clone());
                        assert(texts(r@) =~= texts(r0).push(e.name@));
                        assert(before.filter(keep@).push(row as int).map_values(name@)
                            =~= before.filter(keep@).map_values(name@).push(e.name@));
                    },
                    None => {},
                }
            }
        }
        proof {
            let rows = marked_rows(self.marked@, self.visible_indices@.len() as int);
            assert(rows.filter(keep@).map_values(name@) =~= self.spec_marked_entries().map_values(
                |e: Entry| e.name@,
            ));
        }
        r
    }

    /// The paths of the marked entries, from the top down.
    pub fn marked_paths(&self) -> (r: Vec<String>)
        ensures
            texts(r@) == self.spec_marked_entries().map_values(
                |e: Entry| join_path(self.location@.path(), e.name@),
            ),
            self.wf() ==> forall|row: usize|
                #[trigger] self.marked@.contains(row) ==> texts(r@).contains(
                    join_path(
                        self.location@.path(),
                        self.entries@[self.visible_indices@[row - 1] as int].name@,
                    ),
                ),
    {
        let names = self.marked_names();
        let ghost marked = self.spec_marked_entries();
        let mut r: Vec<String> = Vec::new();
        let mut i: usize = 0;
        assert(texts(names@).len() == names@.len());
        while i < names.len()
            invariant
                i <= names@.len(),
                names@.len() == marked.len(),
                texts(names@) == marked.map_values(|e: Entry| e.name@),
                r@.len() == i,
                forall|k: int|
                    0 <= k < i ==> (#[trigger] r@[k])@ == join_path(
                        self.location@.path(),
                        marked[k].name@,
                    ),
            decreases names.len() - i,
        {
            r.push(join_paths(self.path(), names[i].as_str()));
            assert(texts(names@)[i as int] == marked[i as int].name@);
            i += 1;
        }
        let ghost path_of = |e: Entry| join_path(self.location@.path(), e.name@);
        assert(texts(r@) =~= marked.map_values(path_of));
        proof {
            if self.wf() {
                assert(self.visible_indices.len() <= usize::MAX);
                marked_rows_are_all_taken(*self);
                assert forall|row: usize| #[trigger] self.marked@.contains(row) implies texts(
                    r@,
                ).contains(
                    join_path(
                        self.location@.path(),
                        self.entries@[self.visible_indices@[row - 1] as int].name@,
                    ),
                ) by {
                    let e = self.entries@[self.visible_indices@[row - 1] as int];
                    let k = choose|k: int| 0 <= k < marked.len() && marked[k] == e;
                    assert(texts(r@)[k] == path_of(e));
                }
            }
        }
        r
    }

    /// The locations of the marked entries, from the top down, on the pane's
    /// backend.
    pub fn marked_locations(&self) -> (r: Vec<Location>)
        ensures
            location_views(r@) == self.spec_marked_entries().map_values(
                |e: Entry|
                    self.location@.with_path(join_path(self.location@.path(), e.name@)),
            ),
            self.wf() ==> forall|row: usize|
                #[trigger] self.marked@.contains(row) ==> location_views(r@).contains(
                    self.location@.with_path(
                        join_path(
                            self.location@.path(),
                            self.entries@[self.visible_indices@[row - 1] as int].name@,
                        ),
                    ),
                ),
    {
        let names = self.marked_names();
        let ghost marked = self.spec_marked_entries();
        let mut r: Vec<Location> = Vec::new();
        let mut i: usize = 0;
        assert(texts(names@).len() == names@.len());
        while i < names.len()
            invariant
                i <= names@.len(),
                names@.len() == marked.len(),
                texts(names@) == marked.map_values(|e: Entry| e.name@),
                r@.len() == i,
                forall|k: int|
                    0 <= k < i ==> (#[trigger] r@[k])@ == self.location@.with_path(
                        join_path(self.location@.path(), marked[k].name@),
                    ),
            decreases names.len() - i,
        {
            r.push(self.location.join(names[i].as_str()));
            assert(texts(names@)[i as int] == marked[i as int].name@);
            i += 1;
        }
        let ghost place_of = |e: Entry|
            self.location@.with_path(join_path(self.location@.path(), e.name@));
        assert(location_views(r@) =~= marked.map_values(place_of));
        proof {
            if self.wf() {
                assert(self.visible_indices.len() <= usize::MAX);
                marked_rows_are_all_taken(*self);
                assert forall|row: usize| #[trigger]
                    self.marked@.contains(row) implies location_views(r@).contains(
                    self.location@.with_path(
                        join_path(
                            self.location@.path(),
                            self.entries@[self.visible_indices@[row - 1] as int].name@,
                        ),
                    ),
                ) by {
                    let e = self.entries@[self.visible_indices@[row - 1] as int];
                    let k = choose|k: int| 0 <= k < marked.len() && marked[k] == e;
                    assert(location_views(r@)[k] == place_of(e));
                }
            }
        }
        r
    }

    /// The pane with another filter, its view rebuilt and the cursor kept on
    /// its entry.
    pub open spec fn refiltered(&self, old_pane: Pane, filter: Seq<char>) -> bool {
        &&& self.filter@ == filter
        &&& self.recomputed(Pane { filter: self.filter, ..old_pane }, old_pane.spec_cursor_name())
    }

    /// Filters by another text.
    pub fn set_filter(&mut self, filter: String)
        ensures
            final(self).refiltered(*old(self), filter@),
            final(self).wf(),
    {
        let prior = self.cursor_name();
        self.filter = filter;
        match &prior {
            Some(name) => self.recompute_visible(Some(name.as_str())),
            None => self.recompute_visible(None),
        }
    }

    /// Sorts by a column: in the other direction where that column is the
    /// current one, ascending otherwise. The cursor stays on its entry.
    pub fn toggle_sort(&mut self, by: SortBy)
        ensures
            final(self).sort_toggled(*old(self), by),
            final(self).wf(),
    {
        let prior = self.cursor_name();
        if self.sort_by == by {
            self.sort_dir = self.sort_dir.toggled();
        } else {
            self.sort_by = by;
            self.sort_dir = SortDir::Asc;
        }
        self.sort_and_show(prior);
    }

    /// Sorts the entries by the pane's column and rebuilds the view.
    pub fn sort_and_show(&mut self, preserve: Option<String>)
        ensures
            final(self).resorted(*old(self), opt_text(preserve)),
            final(self).wf(),
    {
        sort_entries(&mut self.entries, self.sort_by, self.sort_dir);
        match &preserve {
            Some(name) => self.recompute_visible(Some(name.as_str())),
            None => self.recompute_visible(None),
        }
    }

    /// The pane after its entries were sorted and its view rebuilt.
    pub open spec fn resorted(&self, old_pane: Pane, preserve: Option<Seq<char>>) -> bool {
        &&& listing_sorted(old_pane.entries@, self.entries@, old_pane.sort_by, old_pane.sort_dir)
        &&& self.recomputed(Pane { entries: self.entries, ..old_pane }, preserve)
    }

    /// The pane after a click on a column header.
    pub open spec fn sort_toggled(&self, old_pane: Pane, by: SortBy) -> bool {
        let dir = if old_pane.sort_by == by {
            old_pane.sort_dir.spec_toggled()
        } else {
            SortDir::Asc
        };
        self.resorted(
            Pane { sort_by: by, sort_dir: dir, ..old_pane },
            old_pane.spec_cursor_name(),
        )
    }
}

/// The locations of a sequence as plain values.
pub open spec fn location_views(v: Seq<Location>) -> Seq<LocationView> {
    Seq::new(v.len(), |i: int| v[i]@)
}

proof fn lemma_filter_push<T>(s: Seq<T>, x: T, keep: spec_fn(T) -> bool)
    ensures
        s.push(x).filter(keep) == (if keep(x) {
            s.filter(keep).push(x)
        } else {
            s.filter(keep)
        }),
{
    reveal(Seq::filter);
    assert(s.push(x).drop_last() =~= s);
}

// ---- Laws ------------------------------------------------------------------

/// A name is shown under a filter: any name under an empty one; one that the
/// expression matches where the filter is an expression; and otherwise one that
/// holds the filter when case is ignored.
pub open spec fn shown_under(filter: Seq<char>, name: Seq<char>) -> bool {
    if filter.len() == 0 {
        true
    } else if regex_valid(filter) {
        regex_matches(filter, name)
    } else {
        contains_text(lowercase(name), lowercase(filter))
    }
}

proof fn lemma_shown_complete(entries: Seq<Entry>, filter: Seq<char>, n: int)
    requires
        0 <= n <= entries.len(),
        entries.len() <= usize::MAX,
    ensures
        forall|i: usize|
            #[trigger] shown_indices(entries, filter, n).contains(i) <==> i < n && shown_under(
                filter,
                entries[i as int].name@,
            ),
    decreases n,
{
    if n > 0 {
        lemma_shown_complete(entries, filter, n - 1);
        let before = shown_indices(entries, filter, n - 1);
        let now = shown_indices(entries, filter, n);
        assert forall|i: usize| #[trigger] now.contains(i) <==> i < n && shown_under(
            filter,
            entries[i as int].name@,
        ) by {
            assert(before.contains(i) <==> i < n - 1 && shown_under(filter, entries[i as int].name@));
            if now.contains(i) && now != before {
                let k = choose|k: int| 0 <= k < now.len() && now[k] == i;
                if k < before.len() {
                    assert(before[k] == i);
                }
            }
            if before.contains(i) {
                let k = choose|k: int| 0 <= k < before.len() && before[k] == i;
                assert(now[k] == i);
            }
            if i == n - 1 && shown_under(filter, entries[i as int].name@) {
                assert(now[before.len() as int] == i);
            }
        }
    }
}

/// Of the entries of a listing the view shows those, and all of those, whose
/// names are shown under the filter, each once and from the top down in the
/// order of the listing.
pub proof fn views_are_complete(o: Pane, n: Pane, preserve: Option<Seq<char>>)
    requires
        n.recomputed(o, preserve),
        o.entries@.len() <= usize::MAX,
    ensures
        n.entries == o.entries,
        n.filter == o.filter,
        forall|i: usize|
            #[trigger] n.visible_indices@.contains(i) <==> i < n.entries@.len() && shown_under(
                n.filter@,
                n.entries@[i as int].name@,
            ),
        forall|a: int, b: int|
            0 <= a < b < n.visible_indices@.len() ==> #[trigger] n.visible_indices@[a]
                < #[trigger] n.visible_indices@[b],
{
    lemma_shown_complete(o.entries@, o.filter@, o.entries@.len() as int);
    lemma_shown_indices(o.entries@, o.filter@, o.entries@.len() as int);
}

/// Another filter shows exactly the entries whose names are shown under it.
pub proof fn filters_show_all_matches(o: Pane, n: Pane, filter: Seq<char>)
    requires
        n.refiltered(o, filter),
        o.entries@.len() <= usize::MAX,
    ensures
        n.entries == o.entries,
        n.filter@ == filter,
        forall|i: usize|
            #[trigger] n.visible_indices@.contains(i) <==> i < o.entries@.len() && shown_under(
                filter,
                o.entries@[i as int].name@,
            ),
{
    views_are_complete(Pane { filter: n.filter, ..o }, n, o.spec_cursor_name());
}

/// Entries that arrive are put behind those that are there, none is lost, and
/// those whose names are shown under the filter are shown.
pub proof fn arrivals_are_shown(o: Pane, n: Pane, chunk: Seq<Entry>)
    requires
        n.appended(o, chunk),
        chunk.len() > 0,
        o.entries@.len() + chunk.len() <= usize::MAX,
    ensures
        n.entries@ == o.entries@ + chunk,
        n.location == o.location,
        forall|i: usize|
            #[trigger] n.visible_indices@.contains(i) <==> i < n.entries@.len() && shown_under(
                o.filter@,
                n.entries@[i as int].name@,
            ),
{
    let entries = o.entries@ + chunk;
    lemma_shown_complete(entries, o.filter@, entries.len() as int);
}

/// A click on a column header keeps the entries and orders them by that column:
/// the other way round where it was the column already, else upwards.
pub proof fn headers_sort_the_listing(o: Pane, n: Pane, by: SortBy)
    requires
        n.sort_toggled(o, by),
        o.entries@.len() <= usize::MAX,
    ensures
        n.sort_by == by,
        o.sort_by == by ==> n.sort_dir != o.sort_dir,
        o.sort_by != by ==> n.sort_dir == SortDir::Asc,
        listing_sorted(o.entries@, n.entries@, n.sort_by, n.sort_dir),
        n.entries@.to_multiset() == o.entries@.to_multiset(),
        forall|i: usize|
            #[trigger] n.visible_indices@.contains(i) <==> i < n.entries@.len() && shown_under(
                o.filter@,
                n.entries@[i as int].name@,
            ),
{
    let dir = if o.sort_by == by {
        o.sort_dir.spec_toggled()
    } else {
        SortDir::Asc
    };
    let mid = Pane { sort_by: by, sort_dir: dir, ..o };
    let less = |a: Entry, b: Entry| crate::entry::entry_less(a, b, by, dir);
    let order = choose|order: Seq<int>|
        crate::sorting::stable_rearrangement(o.entries@, n.entries@, order, less);
    assert(order.len() == o.entries@.len());
    views_are_complete(Pane { entries: n.entries, ..mid }, n, o.spec_cursor_name());
    crate::sorting::sorted_stably_keeps_items(o.entries@, n.entries@, less);
}

proof fn lemma_marked_rows(marked: Set<usize>, n: int)
    requires
        0 <= n <= usize::MAX,
    ensures
        forall|r: int|
            #[trigger] marked_rows(marked, n).contains(r) <==> 1 <= r <= n && marked.contains(
                r as usize,
            ),
        forall|i: int, j: int|
            0 <= i < j < marked_rows(marked, n).len() ==> #[trigger] marked_rows(marked, n)[i]
                < #[trigger] marked_rows(marked, n)[j],
        forall|i: int|
            0 <= i < marked_rows(marked, n).len() ==> 1 <= #[trigger] marked_rows(marked, n)[i]
                <= n,
    decreases n,
{
    if n > 0 {
        lemma_marked_rows(marked, n - 1);
        let before = marked_rows(marked, n - 1);
        let now = marked_rows(marked, n);
        assert forall|r: int| #[trigger] now.contains(r) <==> 1 <= r <= n && marked.contains(
            r as usize,
        ) by {
            assert(before.contains(r) <==> 1 <= r <= n - 1 && marked.contains(r as usize));
            if now.contains(r) {
                let k = choose|k: int| 0 <= k < now.len() && now[k] == r;
                if k < before.len() {
                    assert(before[k] == r);
                }
            }
            if before.contains(r) {
                let k = choose|k: int| 0 <= k < before.len() && before[k] == r;
                assert(now[k] == r);
            }
            if r == n && marked.contains(r as usize) {
                assert(now[before.len() as int] == r);
            }
        }
    }
}

/// What is marked are the entries of the marked rows: each of them, directory or
/// file, from the top down, and nothing else.
pub proof fn marked_rows_are_all_taken(p: Pane)
    requires
        p.wf(),
        p.visible_indices@.len() <= usize::MAX,
    ensures
        exists|rows: Seq<int>|
            {
                &&& #[trigger] rows.len() == p.spec_marked_entries().len()
                &&& forall|i: int, j: int|
                    0 <= i < j < rows.len() ==> #[trigger] rows[i] < #[trigger] rows[j]
                &&& forall|i: int|
                    0 <= i < rows.len() ==> 1 <= #[trigger] rows[i] <= p.visible_indices@.len()
                        && p.marked@.contains(rows[i] as usize) && p.spec_marked_entries()[i]
                        == p.entries@[p.visible_indices@[rows[i] - 1] as int]
                &&& forall|r: usize| #[trigger] p.marked@.contains(r) ==> rows.contains(r as int)
            },
        forall|r: usize|
            #[trigger] p.marked@.contains(r) ==> p.spec_marked_entries().contains(
                p.entries@[p.visible_indices@[r - 1] as int],
            ),
{
    let n = p.visible_indices@.len() as int;
    let rows = marked_rows(p.marked@, n);
    let keep = |r: int| p.spec_entry_at(r) is Some;
    lemma_marked_rows(p.marked@, n);
    assert forall|i: int| 0 <= i < rows.len() implies keep(#[trigger] rows[i]) by {
        assert(p.visible_indices@[rows[i] - 1] < p.entries@.len());
    }
    lemma_filter_keeps_all(rows, keep);
    let taken = p.spec_marked_entries();
    assert(taken.len() == rows.len());
    assert forall|i: int| 0 <= i < rows.len() implies 1 <= #[trigger] rows[i] <= n
        && p.marked@.contains(rows[i] as usize) && taken[i]
        == p.entries@[p.visible_indices@[rows[i] - 1] as int] by {
        assert(rows.contains(rows[i]));
        assert(p.visible_indices@[rows[i] - 1] < p.entries@.len());
    }
    assert forall|r: usize| #[trigger] p.marked@.contains(r) implies rows.contains(r as int)
        && taken.contains(p.entries@[p.visible_indices@[r - 1] as int]) by {
        assert(rows.contains(r as int));
        let k = choose|k: int| 0 <= k < rows.len() && rows[k] == r as int;
        assert(taken[k] == p.entries@[p.visible_indices@[rows[k] - 1] as int]);
    }
    assert(rows.len() == taken.len());
}

proof fn lemma_filter_keeps_all<T>(s: Seq<T>, keep: spec_fn(T) -> bool)
    requires
        forall|i: int| 0 <= i < s.len() ==> keep(#[trigger] s[i]),
    ensures
        s.filter(keep) == s,
    decreases s.len(),
{
    reveal(Seq::filter);
    if s.len() > 0 {
        assert forall|i: int| 0 <= i < s.drop_last().len() implies keep(
            #[trigger] s.drop_last()[i],
        ) by {
            assert(keep(s[i]));
        }
        lemma_filter_keeps_all(s.drop_last(), keep);
        assert(keep(s[s.len() - 1]));
        assert(s.drop_last().push(s.last()) =~= s);
    }
}

/// The cursor goes to the row that it is sent to, or to the nearest one there
/// is. Extending marks each row between the anchor and the cursor, both of them
/// included; otherwise the row of the cursor is marked alone. `..` is never
/// marked.
pub proof fn moves_mark_what_they_pass(o: Pane, n: Pane, target: int, extend: bool)
    requires
        n.moved(o, target, extend),
    ensures
        n.selected <= o.visible_indices@.len(),
        0 <= target <= o.visible_indices@.len() ==> n.selected == target,
        target < 0 ==> n.selected == 0,
        target > o.visible_indices@.len() ==> n.selected == o.visible_indices@.len(),
        n.anchor == (if extend {
            o.anchor
        } else {
            n.selected
        }),
        forall|r: usize|
            #[trigger] n.marked@.contains(r) <==> r != 0 && (n.anchor <= r <= n.selected
                || n.selected <= r <= n.anchor),
        n.entries == o.entries,
        n.visible_indices == o.visible_indices,
        n.location == o.location,
{
}

/// In a new view the cursor is on the first row of the name that it is to keep;
/// where no row has that name it goes to the top, past `..` under a filter.
pub proof fn cursor_takes_the_first_of_a_name(
    entries: Seq<Entry>,
    visible: Seq<usize>,
    filter: Seq<char>,
    name: Seq<char>,
    selected: int,
)
    ensures
        ({
            let c = placed_cursor(entries, visible, filter, Some(name), selected);
            if exists|r: int| row_shows(entries, visible, r, name) {
                &&& row_shows(entries, visible, c, name)
                &&& forall|r: int| #[trigger] row_shows(entries, visible, r, name) ==> c <= r
            } else {
                c == (if filter.len() > 0 && visible.len() > 0 {
                    1int
                } else {
                    0
                })
            }
        }),
{
    lemma_row_named(entries, visible, name, 1);
    let c = row_named(entries, visible, name, 1);
    assert forall|r: int| #[trigger] row_shows(entries, visible, r, name) implies 1 <= c <= r by {
        lemma_row_named_finds(entries, visible, name, 1, r);
    }
    if c > 0 {
        assert(row_shows(entries, visible, c, name));
    }
}

/// A row shows an entry of this name.
pub open spec fn row_shows(
    entries: Seq<Entry>,
    visible: Seq<usize>,
    r: int,
    name: Seq<char>,
) -> bool {
    &&& 1 <= r <= visible.len()
    &&& visible[r - 1] < entries.len()
    &&& entries[visible[r - 1] as int].name@ == name
}

} // verus!
