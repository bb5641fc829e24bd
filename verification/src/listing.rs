//! Listings of remote hosts, as `ls -la --time-style=full-iso` prints them.

use vstd::prelude::*;
use vstd::slice::slice_subrange;
use crate::entry::{Entry, Timestamp};
use crate::filtering::{lemma_mapped_step, mapped_some};
use crate::text::{chars_of, decimal, has_prefix, is_white, is_white_char, lemma_word_len};
use crate::text::{lemma_word_len_unique, lines, numbers_are_read_back, words_end_at_white_space};
use crate::text::{occurs_at, parse_number, parse_number_chars, same_chars, slice_texts, split_lines};
use crate::text::{split_words, string_of, word_end, word_len, words};

verus! {

/// The instant that a text denotes in a `strftime` format of the `chrono`
/// crate, as seconds since the Unix epoch and nanoseconds within the second;
/// none where the text does not fit the format.
pub uninterp spec fn formatted_instant(text: Seq<char>, format: Seq<char>) -> Option<(i64, u32)>;

/// The instant that an RFC 3339 text denotes for the `chrono` crate.
pub uninterp spec fn rfc3339_instant(text: Seq<char>) -> Option<(i64, u32)>;

/// `chrono::DateTime::parse_from_str`, with `timestamp` and
/// `timestamp_subsec_nanos` of what it returns. The text carries its own
/// offset, so the result depends on the text and the format alone.
#[verifier::external_body]
fn parse_formatted(text: &str, format: &str) -> (r: Option<(i64, u32)>)
    ensures
        r == formatted_instant(text@, format@),
{
    match chrono::DateTime::parse_from_str(text, format) {
        Ok(dt) => Some((dt.timestamp(), dt.timestamp_subsec_nanos())),
        Err(_) => None,
    }
}

/// `chrono::DateTime::parse_from_rfc3339`, with `timestamp` and
/// `timestamp_subsec_nanos` of what it returns.
#[verifier::external_body]
fn parse_rfc3339_instant(text: &str) -> (r: Option<(i64, u32)>)
    ensures
        r == rfc3339_instant(text@),
{
    match chrono::DateTime::parse_from_rfc3339(text) {
        Ok(dt) => Some((dt.timestamp(), dt.timestamp_subsec_nanos())),
        Err(_) => None,
    }
}

/// The format of a date, a time and an offset in a listing.
pub const FULL_ISO: &'static str = "%Y-%m-%d %H:%M:%S%.f %z";

/// The modification time that an instant stands for: none before the epoch.
/// Nanoseconds beyond a second, as in a leap second, are carried over.
pub open spec fn time_of(instant: Option<(i64, u32)>) -> Option<Timestamp> {
    match instant {
        Some((secs, nanos)) => if secs < 0 || secs + nanos / 1_000_000_000 > i64::MAX {
            None
        } else {
            Some(
                Timestamp {
                    secs: (secs + nanos / 1_000_000_000) as i64,
                    nanos: nanos % 1_000_000_000,
                },
            )
        },
        None => None,
    }
}

/// The modification time that an instant stands for.
pub fn time_from_instant(instant: Option<(i64, u32)>) -> (r: Option<Timestamp>)
    ensures
        r == time_of(instant),
{
    match instant {
        Some((secs, nanos)) => {
            let carry: i64 = (nanos / 1_000_000_000) as i64;
            if secs < 0 || secs > i64::MAX - carry {
                return None;
            }
            Some(Timestamp { secs: secs + carry, nanos: nanos % 1_000_000_000 })
        },
        None => None,
    }
}

/// The time that an RFC 3339 text denotes; none before the epoch.
pub fn parse_rfc3339(s: &str) -> (r: Option<Timestamp>)
    ensures
        r == time_of(rfc3339_instant(s@)),
{
    time_from_instant(parse_rfc3339_instant(s))
}

/// Where the word after the first `k` words starts, or the length.
pub open spec fn word_start(s: Seq<char>, k: nat) -> int
    decreases s.len(),
{
    if s.len() == 0 {
        0
    } else if is_white(s[0]) {
        1 + word_start(s.skip(1), k)
    } else if k == 0 {
        0
    } else {
        let n = word_len(s);
        if 0 < n <= s.len() {
            n + word_start(s.skip(n), (k - 1) as nat)
        } else {
            0
        }
    }
}

/// The text before the first ` -> `.
pub open spec fn before_arrow(s: Seq<char>) -> Seq<char>
    decreases s.len(),
{
    if s.len() < 4 {
        s
    } else if occurs_at(s, seq![' ', '-', '>', ' '], 0) {
        seq![]
    } else {
        seq![s[0]] + before_arrow(s.skip(1))
    }
}

/// An entry as plain values.
pub struct EntryView {
    pub name: Seq<char>,
    pub is_dir: bool,
    pub size: Option<nat>,
    pub modified: Option<Timestamp>,
}

impl View for Entry {
    type V = EntryView;

    open spec fn view(&self) -> EntryView {
        EntryView {
            name: self.name@,
            is_dir: self.is_dir,
            size: match self.size {
                Some(n) => Some(n as nat),
                None => None,
            },
            modified: self.modified,
        }
    }
}

/// The entries of a sequence as plain values.
pub open spec fn entry_views(v: Seq<Entry>) -> Seq<EntryView> {
    Seq::new(v.len(), |i: int| v[i]@)
}

/// A line that describes an entry has nine fields, and is no total.
pub open spec fn is_entry_line(line: Seq<char>) -> bool {
    !"total "@.is_prefix_of(line) && words(line).len() >= 9
}

/// The date, time and offset of a line.
pub open spec fn line_time(line: Seq<char>) -> Seq<char> {
    let f = words(line);
    f[5] + seq![' '] + f[6] + seq![' '] + f[7]
}

/// The name of a line: all that follows the eight fields before it, but for a
/// link without what it points to.
pub open spec fn line_name(line: Seq<char>) -> Seq<char> {
    let rest = line.skip(word_start(line, 8));
    if words(line)[0][0] == 'l' {
        before_arrow(rest)
    } else {
        rest
    }
}

/// The entry that a line describes, given the instant that its time denotes.
/// Only regular files have a size; `.` and `..` are no entries.
pub open spec fn ls_entry_with(line: Seq<char>, instant: Option<(i64, u32)>) -> Option<EntryView> {
    let f = words(line);
    let kind = f[0][0];
    let name = line_name(line);
    if !is_entry_line(line) || name == seq!['.'] || name == seq!['.', '.'] {
        None
    } else {
        Some(
            EntryView {
                name,
                is_dir: kind == 'd',
                size: if kind == '-' {
                    parse_number(f[4], u64::MAX as nat)
                } else {
                    None
                },
                modified: time_of(instant),
            },
        )
    }
}

/// The entry that a line describes.
pub open spec fn ls_entry(line: Seq<char>) -> Option<EntryView> {
    ls_entry_with(line, formatted_instant(line_time(line), FULL_ISO@))
}

proof fn lemma_word_start(s: Seq<char>, k: nat)
    ensures
        0 <= word_start(s, k) <= s.len(),
    decreases s.len(),
{
    if s.len() > 0 {
        if is_white(s[0]) {
            lemma_word_start(s.skip(1), k);
        } else if k > 0 {
            lemma_word_len(s);
            if 0 < word_len(s) {
                lemma_word_start(s.skip(word_len(s)), (k - 1) as nat);
            }
        }
    }
}

proof fn lemma_words_not_empty(s: Seq<char>)
    ensures
        forall|i: int| 0 <= i < words(s).len() ==> (#[trigger] words(s)[i]).len() > 0,
    decreases s.len(),
{
    if s.len() > 0 {
        if is_white(s[0]) {
            lemma_words_not_empty(s.skip(1));
            assert(words(s) == words(s.skip(1)));
        } else {
            lemma_word_len(s);
            let n = word_len(s);
            assert(n > 0);
            if 0 < n <= s.len() {
                lemma_words_not_empty(s.skip(n));
                assert forall|i: int| 0 <= i < words(s).len() implies (#[trigger] words(s)[i]).len()
                    > 0 by {
                    assert(words(s) == seq![s.take(n)] + words(s.skip(n)));
                    if i > 0 {
                        assert(words(s)[i] == words(s.skip(n))[i - 1]);
                    }
                }
            }
        }
    }
}

fn find_word_start(s: &[char], k: usize) -> (r: usize)
    ensures
        r == word_start(s@, k as nat),
        r <= s@.len(),
{
    let mut pos: usize = 0;
    let mut left: usize = k;
    proof {
        lemma_word_start(s@, k as nat);
        assert(s@.skip(0) =~= s@);
    }
    while pos < s.len()
        invariant
            pos <= s@.len(),
            word_start(s@, k as nat) == pos + word_start(s@.skip(pos as int), left as nat),
        decreases s.len() - pos,
    {
        let ghost sk = s@.skip(pos as int);
        assert(sk[0] == s@[pos as int]);
        if is_white_char(s[pos]) {
            assert(sk.skip(1) =~= s@.skip(pos + 1));
            pos += 1;
        } else if left == 0 {
            return pos;
        } else {
            let n: usize = word_end(s, pos);
            proof {
                lemma_word_len(sk);
                assert(sk.skip(n - pos) =~= s@.skip(n as int));
            }
            pos = n;
            left -= 1;
        }
    }
    pos
}

fn cut_at_arrow(s: &[char]) -> (r: &[char])
    ensures
        r@ == before_arrow(s@),
{
    let ghost arrow = seq![' ', '-', '>', ' '];
    let total: usize = s.len();
    let mut i: usize = 0;
    proof {
        assert(s@.skip(0) =~= s@);
        assert(s@.take(0) + before_arrow(s@) =~= before_arrow(s@));
    }
    while i < total && total - i >= 4
        invariant
            total == s@.len(),
            i <= total,
            arrow == seq![' ', '-', '>', ' '],
            s@.take(i as int) + before_arrow(s@.skip(i as int)) == before_arrow(s@),
        decreases total - i,
    {
        let ghost sk = s@.skip(i as int);
        if s[i] == ' ' && s[i + 1] == '-' && s[i + 2] == '>' && s[i + 3] == ' ' {
            assert(sk.subrange(0, 4) =~= arrow);
            assert(occurs_at(sk, arrow, 0));
            let head = slice_subrange(s, 0, i);
            assert(head@ =~= s@.take(i as int) + Seq::<char>::empty());
            return head;
        }
        proof {
            if occurs_at(sk, arrow, 0) {
                let t = sk.subrange(0, 4);
                assert(t[0] == s@[i as int] && t[1] == s@[i + 1] && t[2] == s@[i + 2] && t[3]
                    == s@[i + 3]);
            }
            assert(sk.skip(1) =~= s@.skip(i + 1));
            assert(s@.take(i + 1) + before_arrow(s@.skip(i + 1)) =~= s@.take(i as int) + (seq![
                sk[0],
            ] + before_arrow(sk.skip(1))));
        }
        i += 1;
    }
    assert(s@.take(i as int) + s@.skip(i as int) =~= s@);
    s
}

/// The date, time and offset of a line, where it describes an entry.
pub fn entry_time_text(line: &[char]) -> (r: Option<String>)
    ensures
        r is Some == is_entry_line(line@),
        r matches Some(t) ==> t@ == line_time(line@),
{
    let total = chars_of("total ");
    if has_prefix(line, total.as_slice()) {
        return None;
    }
    let f = split_words(line);
    proof {
        assert(slice_texts(f@).len() == f@.len());
        assert(forall|k: int| 0 <= k < f@.len() ==> slice_texts(f@)[k] == #[trigger] f@[k]@);
    }
    if f.len() < 9 {
        return None;
    }
    let mut t = string_of(f[5]);
    t.push(' ');
    let time = string_of(f[6]);
    t.push_str(time.as_str());
    t.push(' ');
    let zone = string_of(f[7]);
    t.push_str(zone.as_str());
    assert(t@ =~= line_time(line@));
    Some(t)
}

/// The entry that a line describes, given the instant that its time denotes.
pub fn entry_from_line(line: &[char], instant: Option<(i64, u32)>) -> (r: Option<Entry>)
    ensures
        match r {
            Some(e) => ls_entry_with(line@, instant) == Some(e@),
            None => ls_entry_with(line@, instant) is None,
        },
{
    let total = chars_of("total ");
    if has_prefix(line, total.as_slice()) {
        return None;
    }
    let f = split_words(line);
    proof {
        assert(slice_texts(f@).len() == f@.len());
        assert(forall|k: int| 0 <= k < f@.len() ==> slice_texts(f@)[k] == #[trigger] f@[k]@);
        lemma_words_not_empty(line@);
    }
    if f.len() < 9 {
        return None;
    }
    assert(words(line@)[0] == f@[0]@);
    assert(words(line@)[4] == f@[4]@);
    let kind = f[0][0];
    let start: usize = find_word_start(line, 8);
    let rest = slice_subrange(line, start, line.len());
    assert(rest@ =~= line@.skip(start as int));
    let name = if kind == 'l' {
        cut_at_arrow(rest)
    } else {
        rest
    };
    let dot: Vec<char> = vec!['.'];
    let dots: Vec<char> = vec!['.', '.'];
    assert(dot@ =~= seq!['.']);
    assert(dots@ =~= seq!['.', '.']);
    if same_chars(name, dot.as_slice()) || same_chars(name, dots.as_slice()) {
        return None;
    }
    let size: Option<u64> = if kind == '-' {
        parse_number_chars(f[4], u64::MAX)
    } else {
        None
    };
    Some(
        Entry {
            name: string_of(name),
            is_dir: kind == 'd',
            size,
            modified: time_from_instant(instant),
        },
    )
}

fn parse_ls_la_line(line: &[char]) -> (r: Option<Entry>)
    ensures
        match r {
            Some(e) => ls_entry(line@) == Some(e@),
            None => ls_entry(line@) is None,
        },
{
    match entry_time_text(line) {
        Some(t) => {
            let instant = parse_formatted(t.as_str(), FULL_ISO);
            entry_from_line(line, instant)
        },
        None => None,
    }
}

/// The entries that a listing describes.
pub open spec fn listed_entries(text: Seq<char>) -> Seq<EntryView> {
    mapped_some(lines(text), |l: Seq<char>| ls_entry(l))
}

/// Reads a listing; lines of another form are passed over.
pub fn parse_ls_la(stdout: &str) -> (r: Vec<Entry>)
    ensures
        entry_views(r@) == listed_entries(stdout@),
{
    let v = chars_of(stdout);
    let ls = split_lines(v.as_slice());
    let ghost all = lines(stdout@);
    let ghost f = |l: Seq<char>| ls_entry(l);
    let mut r: Vec<Entry> = Vec::new();
    let mut i: usize = 0;
    assert(slice_texts(ls@).len() == ls@.len());
    assert(entry_views(r@) =~= mapped_some(all.take(0), f));
    while i < ls.len()
        invariant
            i <= ls@.len(),
            ls@.len() == all.len(),
            slice_texts(ls@) == all,
            f == (|l: Seq<char>| ls_entry(l)),
            entry_views(r@) == mapped_some(all.take(i as int), f),
        decreases ls.len() - i,
    {
        proof {
            lemma_mapped_step(all, i as int, f);
            assert(slice_texts(ls@)[i as int] == ls@[i as int]@);
        }
        match parse_ls_la_line(ls[i]) {
            Some(e) => {
                let ghost done = entry_views(r@);
                let ghost ev = e@;
                r.push(e);
                assert(entry_views(r@) =~= done.push(ev));
            },
            None => {},
        }
        i += 1;
    }
    assert(all.take(all.len() as int) =~= all);
    r
}

// ---- Laws ------------------------------------------------------------------

/// Fields, each followed by the white space after it.
pub open spec fn laid_out(fields: Seq<Seq<char>>, gaps: Seq<Seq<char>>) -> Seq<char>
    decreases fields.len(),
{
    if fields.len() == 0 {
        seq![]
    } else {
        fields[0] + gaps[0] + laid_out(fields.skip(1), gaps.skip(1))
    }
}

/// Every field is a word, and there is white space after each.
pub open spec fn are_columns(fields: Seq<Seq<char>>, gaps: Seq<Seq<char>>) -> bool {
    &&& fields.len() == gaps.len()
    &&& forall|k: int| 0 <= k < fields.len() ==> (#[trigger] fields[k]).len() > 0
    &&& forall|k: int, i: int|
        0 <= k < fields.len() && 0 <= i < fields[k].len() ==> !is_white(#[trigger] fields[k][i])
    &&& forall|k: int| 0 <= k < gaps.len() ==> (#[trigger] gaps[k]).len() > 0
    &&& forall|k: int, i: int|
        0 <= k < gaps.len() && 0 <= i < gaps[k].len() ==> is_white(#[trigger] gaps[k][i])
}

proof fn lemma_word_start_skips_gap(gap: Seq<char>, rest: Seq<char>, k: nat)
    requires
        forall|i: int| 0 <= i < gap.len() ==> is_white(#[trigger] gap[i]),
    ensures
        word_start(gap + rest, k) == gap.len() + word_start(rest, k),
    decreases gap.len(),
{
    let s = gap + rest;
    if gap.len() > 0 {
        assert(s[0] == gap[0]);
        assert(s.skip(1) =~= gap.skip(1) + rest);
        assert forall|i: int| 0 <= i < gap.skip(1).len() implies is_white(
            #[trigger] gap.skip(1)[i],
        ) by {
            assert(is_white(gap[i + 1]));
        }
        lemma_word_start_skips_gap(gap.skip(1), rest, k);
    } else {
        assert(s =~= rest);
    }
}

proof fn lemma_columns(fields: Seq<Seq<char>>, gaps: Seq<Seq<char>>, name: Seq<char>)
    requires
        are_columns(fields, gaps),
        name.len() > 0,
        !is_white(name[0]),
    ensures
        words(laid_out(fields, gaps) + name) == fields + words(name),
        words(name).len() > 0,
        word_start(laid_out(fields, gaps) + name, fields.len()) == laid_out(fields, gaps).len(),
    decreases fields.len(),
{
    let head = laid_out(fields, gaps);
    let s = head + name;
    lemma_word_len(name);
    if fields.len() == 0 {
        assert(s =~= name);
        assert(fields + words(name) =~= words(name));
    } else {
        let f = fields.skip(1);
        let g = gaps.skip(1);
        let rest = laid_out(f, g) + name;
        assert forall|k: int, i: int|
            0 <= k < f.len() && 0 <= i < f[k].len() implies !is_white(#[trigger] f[k][i]) by {
            assert(!is_white(fields[k + 1][i]));
        }
        assert forall|k: int, i: int| 0 <= k < g.len() && 0 <= i < g[k].len() implies is_white(
            #[trigger] g[k][i],
        ) by {
            assert(is_white(gaps[k + 1][i]));
        }
        assert forall|k: int| 0 <= k < f.len() implies (#[trigger] f[k]).len() > 0 by {
            assert(fields[k + 1].len() > 0);
        }
        assert forall|k: int| 0 <= k < g.len() implies (#[trigger] g[k]).len() > 0 by {
            assert(gaps[k + 1].len() > 0);
        }
        lemma_columns(f, g, name);
        assert(s =~= fields[0] + gaps[0] + rest);
        assert forall|i: int| 0 <= i < gaps[0].len() implies is_white(#[trigger] gaps[0][i]) by {
        }
        words_end_at_white_space(fields[0], gaps[0], rest);
        assert(fields + words(name) =~= seq![fields[0]] + (f + words(name)));
        assert(s[0] == fields[0][0]);
        assert(s[fields[0].len() as int] == gaps[0][0]);
        lemma_word_len_unique(s, fields[0].len() as int);
        assert(s.skip(fields[0].len() as int) =~= gaps[0] + rest);
        lemma_word_start_skips_gap(gaps[0], rest, (fields.len() - 1) as nat);
    }
}

proof fn lemma_no_total(fields: Seq<Seq<char>>, gaps: Seq<Seq<char>>, name: Seq<char>)
    requires
        are_columns(fields, gaps),
        fields.len() > 0,
        fields[0] != "total"@,
        name.len() > 0,
        !is_white(name[0]),
    ensures
        !"total "@.is_prefix_of(laid_out(fields, gaps) + name),
{
    let s = laid_out(fields, gaps) + name;
    reveal_strlit("total ");
    reveal_strlit("total");
    if "total "@.is_prefix_of(s) {
        assert(s.subrange(0, 6) =~= "total "@);
        assert forall|i: int| 0 <= i < 6 implies s[i] == "total "@[i] by {
            assert(s.subrange(0, 6)[i] == s[i]);
        }
        lemma_word_len_unique(s, 5);
        lemma_columns(fields, gaps, name);
        assert(words(s)[0] == s.take(5));
        assert(words(s)[0] == fields[0]);
        assert(s.take(5) =~= "total"@);
    }
}

/// A line of eight fields and a name yields an entry, whatever the name starts
/// with and whatever it holds, unless the name is exactly `.` or `..`; the entry
/// has that name. It is a directory where the first field starts with `d`; its
/// size is the fifth field where the first one starts with `-`, and only there.
pub proof fn listed_files_are_read(
    fields: Seq<Seq<char>>,
    gaps: Seq<Seq<char>>,
    name: Seq<char>,
    size: nat,
    instant: Option<(i64, u32)>,
)
    requires
        fields.len() == 8,
        are_columns(fields, gaps),
        fields[0] != "total"@,
        fields[0][0] != 'l',
        fields[0][0] == '-' ==> fields[4] == decimal(size),
        name.len() > 0,
        !is_white(name[0]),
    ensures
        ({
            let r = ls_entry_with(laid_out(fields, gaps) + name, instant);
            if name == seq!['.'] || name == seq!['.', '.'] {
                r is None
            } else {
                &&& r matches Some(e)
                &&& e.name == name
                &&& e.is_dir == (fields[0][0] == 'd')
                &&& e.size == (if fields[0][0] == '-' && size <= u64::MAX {
                    Some(size)
                } else {
                    None
                })
                &&& match instant {
                    Some((secs, nanos)) => {
                        &&& secs < 0 ==> e.modified is None
                        &&& secs >= 0 && nanos < 1_000_000_000 ==> e.modified == Some(
                            Timestamp { secs, nanos },
                        )
                    },
                    None => e.modified is None,
                }
            }
        }),
        line_time(laid_out(fields, gaps) + name) == fields[5] + seq![' '] + fields[6] + seq![' ']
            + fields[7],
{
    let head = laid_out(fields, gaps);
    let s = head + name;
    lemma_columns(fields, gaps, name);
    lemma_no_total(fields, gaps, name);
    assert(s.skip(head.len() as int) =~= name);
    assert(words(s)[0] == fields[0]);
    assert(words(s)[4] == fields[4]);
    assert(words(s)[5] == fields[5] && words(s)[6] == fields[6] && words(s)[7] == fields[7]);
    numbers_are_read_back(size, u64::MAX as nat);
}

/// What stands between a link and what it points to.
pub open spec fn arrow() -> Seq<char> {
    seq![' ', '-', '>', ' ']
}

/// A link is listed by its own name, without what it points to, and is neither
/// a directory nor has it a size.
pub proof fn listed_links_are_read(
    fields: Seq<Seq<char>>,
    gaps: Seq<Seq<char>>,
    name: Seq<char>,
    target: Seq<char>,
    instant: Option<(i64, u32)>,
)
    requires
        fields.len() == 8,
        are_columns(fields, gaps),
        fields[0][0] == 'l',
        name.len() > 0,
        !is_white(name[0]),
        name != seq!['.'],
        name != seq!['.', '.'],
        forall|k: int|
            0 <= k < name.len() ==> !#[trigger] occurs_at(name + arrow() + target, arrow(), k),
    ensures
        ls_entry_with(
            laid_out(fields, gaps) + (name + arrow() + target),
            instant,
        ) matches Some(e) && e.name == name && !e.is_dir && e.size is None,
{
    let rest = name + arrow() + target;
    let head = laid_out(fields, gaps);
    let s = head + rest;
    assert(rest[0] == name[0]);
    reveal_strlit("total");
    if fields[0] == "total"@ {
        assert(fields[0][0] == 't');
    }
    lemma_columns(fields, gaps, rest);
    lemma_no_total(fields, gaps, rest);
    assert(s.skip(head.len() as int) =~= rest);
    assert(words(s)[0] == fields[0]);
    lemma_before_arrow(name, target);
}

proof fn lemma_before_arrow(name: Seq<char>, target: Seq<char>)
    requires
        forall|k: int|
            0 <= k < name.len() ==> !#[trigger] occurs_at(name + arrow() + target, arrow(), k),
    ensures
        before_arrow(name + arrow() + target) == name,
    decreases name.len(),
{
    let arrow = arrow();
    let s = name + arrow + target;
    if name.len() == 0 {
        assert(s.subrange(0, 4) =~= arrow);
        assert(occurs_at(s, arrow, 0));
        assert(name =~= seq![]);
    } else {
        assert(!occurs_at(s, arrow, 0));
        let t = name.skip(1) + arrow + target;
        assert(s.skip(1) =~= t);
        assert forall|k: int| 0 <= k < name.skip(1).len() implies !#[trigger] occurs_at(
            t,
            arrow,
            k,
        ) by {
            assert(!occurs_at(s, arrow, k + 1));
            assert(t.subrange(k, k + 4) =~= s.subrange(k + 1, k + 5));
        }
        lemma_before_arrow(name.skip(1), target);
        assert(seq![s[0]] + name.skip(1) =~= name);
    }
}

/// A total and a line with fewer than nine fields describe nothing.
pub proof fn other_lines_are_no_entries(line: Seq<char>, instant: Option<(i64, u32)>)
    requires
        "total "@.is_prefix_of(line) || words(line).len() < 9,
    ensures
        ls_entry_with(line, instant) is None,
{
}

/// A line is read as an entry with the time that stands in it, and for no other
/// reason left out.
pub proof fn lines_are_read_with_their_time(line: Seq<char>)
    ensures
        exists|instant: Option<(i64, u32)>| ls_entry(line) == #[trigger] ls_entry_with(line, instant),
        ls_entry(line) is Some <==> ls_entry_with(line, None) is Some,
        ls_entry(line) matches Some(e) ==> (ls_entry_with(line, None) matches Some(f) && f.name
            == e.name && f.is_dir == e.is_dir && f.size == e.size),
{
}

/// Each line of a listing gives the entry that it describes, if it describes one,
/// and the lines below give theirs.
pub proof fn every_listing_line_counts(line: Seq<char>, rest: Seq<char>)
    requires
        !line.contains('\n'),
        line.len() == 0 || line.last() != '\r',
    ensures
        listed_entries(line + seq!['\n'] + rest) == (match ls_entry(line) {
            Some(x) => seq![x],
            None => seq![],
        }) + listed_entries(rest),
        listed_entries(seq![]) == Seq::<EntryView>::empty(),
{
    let f = |l: Seq<char>| ls_entry(l);
    assert forall|i: int| 0 <= i < line.len() implies #[trigger] line[i] != '\n' by {
        assert(line.contains(line[i]));
    }
    crate::text::lines_end_at_line_feeds(line, rest);
    crate::filtering::every_readable_item_is_read(seq![], line, lines(rest), f);
    assert(Seq::<Seq<char>>::empty() + seq![line] + lines(rest) =~= seq![line] + lines(rest));
    assert(mapped_some(Seq::<Seq<char>>::empty(), f) =~= seq![]);
    assert(listed_entries(line + seq!['\n'] + rest) =~= (match ls_entry(line) {
        Some(x) => seq![x],
        None => seq![],
    }) + listed_entries(rest));
}

} // verus!
