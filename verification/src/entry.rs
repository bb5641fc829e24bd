//! Rows of a listing and the order they are shown in.

use vstd::prelude::*;
use crate::sorting::{key_less, sort_items, sorted_stably, stable_rearrangement};
use crate::sorting::{KeyView, SortKey};
use crate::text::{chars_of, lowercase, text_less};

verus! {

/// One of the two panes.
#[derive(Debug, Clone, Copy, PartialEq, Eq, Structural)]
pub enum Side {
    Left,
    Right,
}

impl Side {
    /// The opposite pane.
    pub fn other(self) -> (r: Self)
        ensures
            r == self.spec_other(),
    {
        match self {
            Side::Left => Side::Right,
            Side::Right => Side::Left,
        }
    }

    pub open spec fn spec_other(self) -> Side {
        match self {
            Side::Left => Side::Right,
            Side::Right => Side::Left,
        }
    }
}

/// The opposite of the opposite pane is the pane itself, and never the same.
pub proof fn other_side_is_involution(s: Side)
    ensures
        s.spec_other() != s,
        s.spec_other().spec_other() == s,
{
}

/// The column that a listing is sorted by.
#[derive(Debug, Clone, Copy, PartialEq, Eq, Structural)]
pub enum SortBy {
    Name,
    Size,
    Modified,
}

#[derive(Debug, Clone, Copy, PartialEq, Eq, Structural)]
pub enum SortDir {
    Asc,
    Desc,
}

impl SortDir {
    /// The opposite direction.
    pub fn toggled(self) -> (r: Self)
        ensures
            r == self.spec_toggled(),
    {
        match self {
            SortDir::Asc => SortDir::Desc,
            SortDir::Desc => SortDir::Asc,
        }
    }

    pub open spec fn spec_toggled(self) -> SortDir {
        match self {
            SortDir::Asc => SortDir::Desc,
            SortDir::Desc => SortDir::Asc,
        }
    }
}

/// Two toggles restore the direction.
pub proof fn toggled_is_involution(d: SortDir)
    ensures
        d.spec_toggled() != d,
        d.spec_toggled().spec_toggled() == d,
{
}

/// How a row is painted.
#[derive(Debug, Clone, Copy, PartialEq, Eq, Structural)]
pub enum RowVisual {
    Plain,
    Cursor,
    Marked,
}

/// A point in time: seconds since the Unix epoch and nanoseconds within the
/// second.
#[derive(Debug, Clone, Copy, PartialEq, Eq, Structural)]
pub struct Timestamp {
    pub secs: i64,
    pub nanos: u32,
}

/// One file or directory of a listing.
#[derive(Debug, PartialEq)]
pub struct Entry {
    pub name: String,
    pub is_dir: bool,
    pub size: Option<u64>,
    pub modified: Option<Timestamp>,
}

impl Clone for Entry {
    fn clone(&self) -> (r: Self)
        ensures
            r == *self,
    {
        Entry {
            name: self.name.clone(),
            is_dir: self.is_dir,
            size: self.size,
            modified: self.modified,
        }
    }
}

/// The size that an entry is sorted by.
pub open spec fn size_or_zero(e: Entry) -> u64 {
    match e.size {
        Some(n) => n,
        None => 0,
    }
}

/// The order of modification times; an unknown one comes first.
pub open spec fn modified_less(a: Option<Timestamp>, b: Option<Timestamp>) -> bool {
    match (a, b) {
        (None, Some(_)) => true,
        (Some(x), Some(y)) => x.secs < y.secs || (x.secs == y.secs && x.nanos < y.nanos),
        _ => false,
    }
}

/// The ascending order of two entries by a column.
pub open spec fn column_less(a: Entry, b: Entry, by: SortBy) -> bool {
    match by {
        SortBy::Name => text_less(lowercase(a.name@), lowercase(b.name@)),
        SortBy::Size => size_or_zero(a) < size_or_zero(b),
        SortBy::Modified => modified_less(a.modified, b.modified),
    }
}

/// Whether `a` must be listed before `b`: directories come first in either
/// direction, then the column decides.
pub open spec fn entry_less(a: Entry, b: Entry, by: SortBy, dir: SortDir) -> bool {
    if a.is_dir != b.is_dir {
        a.is_dir
    } else {
        match dir {
            SortDir::Asc => column_less(a, b, by),
            SortDir::Desc => column_less(b, a, by),
        }
    }
}

/// `new_entries` is the listing `old_entries` in its display order.
pub open spec fn listing_sorted(
    old_entries: Seq<Entry>,
    new_entries: Seq<Entry>,
    by: SortBy,
    dir: SortDir,
) -> bool {
    sorted_stably(old_entries, new_entries, |a: Entry, b: Entry| entry_less(a, b, by, dir))
}

/// In a sorted listing every directory stands before every file.
pub proof fn directories_come_first(
    old_entries: Seq<Entry>,
    new_entries: Seq<Entry>,
    by: SortBy,
    dir: SortDir,
)
    requires
        listing_sorted(old_entries, new_entries, by, dir),
    ensures
        forall|i: int, j: int|
            0 <= i < j < new_entries.len() && #[trigger] new_entries[j].is_dir
                ==> #[trigger] new_entries[i].is_dir,
{
    let less = |a: Entry, b: Entry| entry_less(a, b, by, dir);
    let order = choose|order: Seq<int>|
        stable_rearrangement(old_entries, new_entries, order, less);
    assert forall|i: int, j: int|
        0 <= i < j < new_entries.len()
            && #[trigger] new_entries[j].is_dir implies #[trigger] new_entries[i].is_dir by {
        assert(order[i] != order[j]);
    }
}

/// The number that a modification time is sorted by.
spec fn modified_rank(m: Option<Timestamp>) -> int {
    match m {
        None => 0,
        Some(t) => 1 + (t.secs + 0x8000_0000_0000_0000) * 0x1_0000_0000 + t.nanos,
    }
}

/// What an entry is sorted by in a column.
spec fn entry_key(e: Entry, by: SortBy) -> KeyView {
    KeyView {
        group: !e.is_dir,
        number: match by {
            SortBy::Name => 0,
            SortBy::Size => size_or_zero(e) as int,
            SortBy::Modified => modified_rank(e.modified),
        },
        text: if by == SortBy::Name {
            lowercase(e.name@)
        } else {
            seq![]
        },
    }
}

proof fn lemma_entry_key(a: Entry, b: Entry, by: SortBy, dir: SortDir)
    ensures
        key_less(entry_key(a, by), entry_key(b, by), dir == SortDir::Desc) == entry_less(
            a,
            b,
            by,
            dir,
        ),
{
}

fn modified_number(m: Option<Timestamp>) -> (r: u128)
    ensures
        r == modified_rank(m),
{
    match m {
        None => 0,
        Some(t) => {
            let s: i128 = t.secs as i128 + 0x8000_0000_0000_0000i128;
            1 + (s as u128) * 0x1_0000_0000u128 + t.nanos as u128
        },
    }
}

fn key_of_entry(e: &Entry, by: SortBy) -> (r: SortKey)
    ensures
        r@ == entry_key(*e, by),
{
    let number: u128 = match by {
        SortBy::Name => 0,
        SortBy::Size => match e.size {
            Some(n) => n as u128,
            None => 0,
        },
        SortBy::Modified => modified_number(e.modified),
    };
    let text: Vec<char> = match by {
        SortBy::Name => {
            let lower = e.name.as_str().to_lowercase();
            chars_of(lower.as_str())
        },
        _ => Vec::new(),
    };
    SortKey { group: !e.is_dir, number, text }
}

/// Sorts a listing: directories first, then by the column in the direction;
/// entries that compare equal keep their order.
pub fn sort_entries(entries: &mut Vec<Entry>, by: SortBy, dir: SortDir)
    ensures
        listing_sorted(old(entries)@, final(entries)@, by, dir),
{
    let ghost before = entries@;
    let mut keys: Vec<SortKey> = Vec::new();
    let mut i: usize = 0;
    while i < entries.len()
        invariant
            entries@ == before,
            i <= entries@.len(),
            keys@.len() == i,
            forall|k: int| 0 <= k < i ==> (#[trigger] keys@[k])@ == entry_key(before[k], by),
        decreases entries.len() - i,
    {
        keys.push(key_of_entry(&entries[i], by));
        i += 1;
    }
    let desc: bool = match dir {
        SortDir::Asc => false,
        SortDir::Desc => true,
    };
    proof {
        assert forall|i: int, j: int| 0 <= i < keys@.len() && 0 <= j < keys@.len() implies key_less(
            (#[trigger] keys@[i])@,
            (#[trigger] keys@[j])@,
            desc,
        ) == entry_less(before[i], before[j], by, dir) by {
            lemma_entry_key(before[i], before[j], by, dir);
        }
    }
    sort_items(
        entries,
        &keys,
        desc,
        Ghost(|a: Entry, b: Entry| entry_less(a, b, by, dir)),
    );
}

/// Within the directories and within the files of a sorted listing, the column
/// that it is sorted by never runs against its direction: of two entries the
/// lower-case names, the sizes (nothing counts as 0) or the times (none counts
/// as the earliest) are in order. No entry is lost and none is added.
pub proof fn columns_are_in_order(
    old_entries: Seq<Entry>,
    new_entries: Seq<Entry>,
    by: SortBy,
    dir: SortDir,
    i: int,
    j: int,
)
    requires
        listing_sorted(old_entries, new_entries, by, dir),
        0 <= i < j < new_entries.len(),
        new_entries[i].is_dir == new_entries[j].is_dir,
    ensures
        ({
            let (a, b) = match dir {
                SortDir::Asc => (new_entries[i], new_entries[j]),
                SortDir::Desc => (new_entries[j], new_entries[i]),
            };
            match by {
                SortBy::Name => !text_less(lowercase(b.name@), lowercase(a.name@)),
                SortBy::Size => (match a.size {
                    Some(n) => n,
                    None => 0,
                }) <= (match b.size {
                    Some(n) => n,
                    None => 0,
                }),
                SortBy::Modified => match (a.modified, b.modified) {
                    (None, _) => true,
                    (Some(_), None) => false,
                    (Some(x), Some(y)) => x.secs < y.secs || (x.secs == y.secs && x.nanos
                        <= y.nanos),
                },
            }
        }),
        old_entries.to_multiset() == new_entries.to_multiset(),
{
    let less = |a: Entry, b: Entry| entry_less(a, b, by, dir);
    let order = choose|order: Seq<int>|
        stable_rearrangement(old_entries, new_entries, order, less);
    assert(order[i] != order[j]);
    assert(!less(new_entries[j], new_entries[i])) by {
        lemma_entry_key(new_entries[i], new_entries[j], by, dir);
        lemma_entry_key(new_entries[j], new_entries[i], by, dir);
        crate::sorting::lemma_key_less_order(
            entry_key(new_entries[i], by),
            entry_key(new_entries[j], by),
            entry_key(new_entries[i], by),
            dir == SortDir::Desc,
        );
    }
    crate::sorting::sorted_stably_keeps_items(old_entries, new_entries, less);
}

/// Entries that have the same place in the column keep the order that they were
/// read in.
pub proof fn equal_entries_keep_their_order(
    old_entries: Seq<Entry>,
    new_entries: Seq<Entry>,
    by: SortBy,
    dir: SortDir,
)
    requires
        listing_sorted(old_entries, new_entries, by, dir),
    ensures
        exists|order: Seq<int>|
            {
                &&& #[trigger] order.len() == new_entries.len()
                &&& new_entries.len() == old_entries.len()
                &&& forall|i: int|
                    0 <= i < order.len() ==> 0 <= #[trigger] order[i] < old_entries.len()
                        && new_entries[i] == old_entries[order[i]]
                &&& forall|i: int, j: int|
                    0 <= i < j < order.len() && new_entries[i].is_dir == new_entries[j].is_dir && (
                    match by {
                        SortBy::Name => lowercase(new_entries[i].name@) == lowercase(
                            new_entries[j].name@,
                        ),
                        SortBy::Size => new_entries[i].size == new_entries[j].size,
                        SortBy::Modified => new_entries[i].modified == new_entries[j].modified,
                    }) ==> #[trigger] order[i] < #[trigger] order[j]
            },
{
    let less = |a: Entry, b: Entry| entry_less(a, b, by, dir);
    let order = choose|order: Seq<int>|
        stable_rearrangement(old_entries, new_entries, order, less);
    assert(order.len() == new_entries.len());
    assert forall|i: int, j: int|
        0 <= i < j < order.len() && new_entries[i].is_dir == new_entries[j].is_dir && (match by {
            SortBy::Name => lowercase(new_entries[i].name@) == lowercase(new_entries[j].name@),
            SortBy::Size => new_entries[i].size == new_entries[j].size,
            SortBy::Modified => new_entries[i].modified == new_entries[j].modified,
        }) implies #[trigger] order[i] < #[trigger] order[j] by {
        crate::text::lemma_text_less_total(
            lowercase(new_entries[i].name@),
            lowercase(new_entries[j].name@),
        );
        assert(!less(new_entries[i], new_entries[j]));
    }
}

} // verus!
