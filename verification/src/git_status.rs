//! What git tells about a directory.

use vstd::prelude::*;
use vstd::slice::slice_subrange;
use crate::pane::GitInfo;
use crate::text::{chars_of, find_first, first_index, has_prefix, lemma_first_index, lines};
use crate::text::{parse_number, parse_number_chars, same_chars, same_text, slice_texts};
use crate::text::{split_lines, split_words, string_from, string_of, texts, trim, trim_text, words};

verus! {

/// A path without the quotes that git puts around unusual ones.
pub open spec fn unquoted(raw: Seq<char>) -> Seq<char> {
    if raw.len() >= 2 && raw[0] == '"' && raw.last() == '"' {
        raw.subrange(1, raw.len() - 1)
    } else {
        raw
    }
}

/// A path that leads out of the directory.
pub open spec fn leads_out(path: Seq<char>) -> bool {
    path == ".."@ || "../"@.is_prefix_of(path)
}

/// The name in the directory that a line of `git status --porcelain` marks:
/// two status characters and a space come before the path, whose first part is
/// the name.
pub open spec fn changed_name(line: Seq<char>) -> Option<Seq<char>> {
    if line.len() < 4 {
        None
    } else {
        let path = unquoted(line.skip(3));
        let name = path.take(first_index(path, '/'));
        if leads_out(path) || name.len() == 0 {
            None
        } else {
            Some(name)
        }
    }
}

/// The names that the lines mark, each once, in the order in which they come.
pub open spec fn changed_names(ls: Seq<Seq<char>>) -> Seq<Seq<char>>
    decreases ls.len(),
{
    if ls.len() == 0 {
        seq![]
    } else {
        let before = changed_names(ls.drop_last());
        match changed_name(ls.last()) {
            Some(n) => if before.contains(n) {
                before
            } else {
                before.push(n)
            },
            None => before,
        }
    }
}

/// How many of the lines are not empty.
pub open spec fn filled_lines(ls: Seq<Seq<char>>) -> nat
    decreases ls.len(),
{
    if ls.len() == 0 {
        0
    } else {
        filled_lines(ls.drop_last()) + (if ls.last().len() > 0 {
            1nat
        } else {
            0nat
        })
    }
}

/// The two counts that `git rev-list --count --left-right` prints; none count
/// where it printed no such pair.
pub open spec fn left_right(out: Option<Seq<char>>) -> (nat, nat) {
    match out {
        Some(s) => {
            let w = words(s);
            if w.len() < 2 {
                (0, 0)
            } else {
                match (
                    parse_number(w[0], usize::MAX as nat),
                    parse_number(w[1], usize::MAX as nat),
                ) {
                    (Some(a), Some(b)) => (a, b),
                    _ => (0, 0),
                }
            }
        },
        None => (0, 0),
    }
}

/// No name is listed twice.
pub proof fn changed_names_are_distinct(ls: Seq<Seq<char>>)
    ensures
        changed_names(ls).no_duplicates(),
    decreases ls.len(),
{
    if ls.len() > 0 {
        changed_names_are_distinct(ls.drop_last());
    }
}


fn name_of_line(line: &[char]) -> (r: Option<String>)
    ensures
        match changed_name(line@) {
            Some(n) => r matches Some(s) && s@ == n,
            None => r is None,
        },
{
    let n: usize = line.len();
    if n < 4 {
        return None;
    }
    let raw = slice_subrange(line, 3, n);
    assert(raw@ =~= line@.skip(3));
    let m: usize = raw.len();
    let path = if m >= 2 && raw[0] == '"' && raw[m - 1] == '"' {
        slice_subrange(raw, 1, m - 1)
    } else {
        raw
    };
    assert(path@ =~= unquoted(line@.skip(3)));
    let up = chars_of("..");
    let out = chars_of("../");
    if same_chars(path, up.as_slice()) || has_prefix(path, out.as_slice()) {
        return None;
    }
    let k: usize = find_first(path, '/');
    proof {
        lemma_first_index(path@, '/');
    }
    if k == 0 {
        return None;
    }
    let name = slice_subrange(path, 0, k);
    assert(name@ =~= path@.take(first_index(path@, '/')));
    Some(string_of(name))
}

/// Whether a name is in the list.
pub fn has_name(names: &Vec<String>, name: &str) -> (r: bool)
    ensures
        r == texts(names@).contains(name@),
{
    let mut i: usize = 0;
    while i < names.len()
        invariant
            i <= names@.len(),
            forall|k: int| 0 <= k < i ==> (#[trigger] names@[k])@ != name@,
        decreases names.len() - i,
    {
        if same_text(names[i].as_str(), name) {
            assert(texts(names@)[i as int] == name@);
            return true;
        }
        i += 1;
    }
    proof {
        let t = texts(names@);
        if t.contains(name@) {
            let k = choose|k: int| 0 <= k < t.len() && t[k] == name@;
            assert(names@[k]@ == name@);
        }
    }
    false
}

fn read_counts(out: Option<&str>) -> (r: (usize, usize))
    ensures
        ({
            let want = left_right(
                match out {
                    Some(s) => Some(s@),
                    None => None,
                },
            );
            r.0 == want.0 && r.1 == want.1
        }),
{
    match out {
        Some(s) => {
            let v = chars_of(s);
            let w = split_words(v.as_slice());
            assert(slice_texts(w@).len() == w@.len());
            if w.len() < 2 {
                return (0, 0);
            }
            assert(slice_texts(w@)[0] == w@[0]@);
            assert(slice_texts(w@)[1] == w@[1]@);
            match (
                parse_number_chars(w[0], usize::MAX as u64),
                parse_number_chars(w[1], usize::MAX as u64),
            ) {
                (Some(a), Some(b)) => (a as usize, b as usize),
                _ => (0, 0),
            }
        },
        None => (0, 0),
    }
}

/// The branch, what is uncommitted and how far the branch is from its upstream,
/// out of what three probes have printed. There is nothing outside
/// repositories, where the first one prints nothing.
pub open spec fn info_gathered(
    branch: Option<&str>,
    status: Option<&str>,
    counts: Option<&str>,
    r: Option<GitInfo>,
) -> bool {
    match branch {
        None => r is None,
        Some(b) => {
            let ls = match status {
                Some(s) => lines(s@),
                None => seq![],
            };
            let far = left_right(
                match counts {
                    Some(s) => Some(s@),
                    None => None,
                },
            );
            &&& r matches Some(info)
            &&& info.branch@ == (if trim(b@).len() == 0 {
                "(detached)"@
            } else {
                trim(b@)
            })
            &&& info.uncommitted == filled_lines(ls)
            &&& texts(info.modified_names@) == changed_names(ls)
            &&& info.ahead == far.0
            &&& info.behind == far.1
        },
    }
}

/// What three probes have printed of a directory.
pub fn gather_git_info(branch: Option<&str>, status: Option<&str>, counts: Option<&str>) -> (r:
    Option<GitInfo>)
    ensures
        info_gathered(branch, status, counts, r),
{
    let b = match branch {
        Some(b) => b,
        None => {
            return None;
        },
    };
    let shown = trim_text(b);
    let v = chars_of(shown.as_str());
    let branch_name = if v.len() == 0 {
        string_from("(detached)")
    } else {
        shown
    };
    let text = match status {
        Some(s) => chars_of(s),
        None => Vec::new(),
    };
    let ghost ls = match status {
        Some(s) => lines(s@),
        None => seq![],
    };
    let found = split_lines(text.as_slice());
    assert(slice_texts(found@) =~= ls);
    let mut uncommitted: usize = 0;
    let mut modified_names: Vec<String> = Vec::new();
    let mut i: usize = 0;
    assert(texts(modified_names@) =~= changed_names(ls.take(0)));
    while i < found.len()
        invariant
            i <= found@.len(),
            slice_texts(found@) == ls,
            uncommitted == filled_lines(ls.take(i as int)),
            uncommitted <= i,
            texts(modified_names@) == changed_names(ls.take(i as int)),
        decreases found.len() - i,
    {
        let line = found[i];
        proof {
            assert(ls[i as int] == line@);
            assert(ls.take(i + 1).drop_last() =~= ls.take(i as int));
        }
        if line.len() > 0 {
            uncommitted += 1;
        }
        match name_of_line(line) {
            Some(n) => {
                if !has_name(&modified_names, n.as_str()) {
                    let ghost before = texts(modified_names@);
                    let ghost t = n@;
                    modified_names.push(n);
                    assert(texts(modified_names@) =~= before.push(t));
                }
            },
            None => {},
        }
        i += 1;
    }
    assert(ls.take(i as int) =~= ls);
    let (ahead, behind) = read_counts(counts);
    Some(GitInfo { branch: branch_name, uncommitted, ahead, behind, modified_names })
}

/// Two characters of status, a blank and a path mark the first name of the path,
/// whatever it is called and whatever it holds; a path that leads out of the
/// directory marks nothing. Quotes around the path are not part of it.
pub proof fn changed_paths_mark_their_first_name(
    x: char,
    y: char,
    name: Seq<char>,
    below: Seq<char>,
)
    requires
        name.len() > 0,
        !name.contains('/'),
        name != seq!['.', '.'],
        name[0] != '"',
    ensures
        changed_name(seq![x, y, ' '] + name) == Some(name),
        changed_name(seq![x, y, ' '] + name + seq!['/'] + below) == Some(name),
        changed_name(seq![x, y, ' ', '"'] + name + seq!['"']) == Some(name),
        changed_name(seq![x, y, ' ', '"'] + name + seq!['/'] + below + seq!['"']) == Some(name),
        changed_name(seq![x, y, ' ', '.', '.', '/'] + below) is None,
        changed_name(seq![x, y, ' ', '.', '.']) is None,
{
    reveal_strlit("..");
    reveal_strlit("../");
    lemma_path_name(name, below);
    let a = seq![x, y, ' '] + name;
    assert(a.skip(3) =~= name);
    let b = seq![x, y, ' '] + name + seq!['/'] + below;
    assert(b.skip(3) =~= name + seq!['/'] + below);
    let c = seq![x, y, ' ', '"'] + name + seq!['"'];
    assert(c.skip(3).last() == '"');
    assert(c.skip(3).subrange(1, c.skip(3).len() - 1) =~= name);
    let d = seq![x, y, ' ', '"'] + name + seq!['/'] + below + seq!['"'];
    assert(d.skip(3).last() == '"');
    assert(d.skip(3).subrange(1, d.skip(3).len() - 1) =~= name + seq!['/'] + below);
    let e = seq![x, y, ' ', '.', '.', '/'] + below;
    assert(e.skip(3) =~= seq!['.', '.', '/'] + below);
    assert("../"@ =~= seq!['.', '.', '/']);
    assert((seq!['.', '.', '/'] + below).take(3) =~= "../"@);
    let f = seq![x, y, ' ', '.', '.'];
    assert(f.skip(3) =~= ".."@);
}

proof fn lemma_path_name(name: Seq<char>, below: Seq<char>)
    requires
        name.len() > 0,
        !name.contains('/'),
        name != seq!['.', '.'],
    ensures
        first_index(name, '/') == name.len(),
        name.take(name.len() as int) == name,
        first_index(name + seq!['/'] + below, '/') == name.len(),
        (name + seq!['/'] + below).take(name.len() as int) == name,
        !leads_out(name),
        !leads_out(name + seq!['/'] + below),
{
    reveal_strlit("..");
    reveal_strlit("../");
    let p = name + seq!['/'] + below;
    assert forall|i: int| 0 <= i < name.len() implies name[i] != '/' by {
        assert(name.contains(name[i]));
    }
    crate::text::lemma_first_index_unique(p, '/', name.len() as int);
    lemma_first_index(name, '/');
    assert(p.take(name.len() as int) =~= name);
    assert(p[name.len() as int] == '/');
    if ".."@ == name {
        assert(name =~= seq!['.', '.']);
    }
    if ".."@ == p {
        assert(p[0] == '.' && p[1] == '.');
    }
    if "../"@.is_prefix_of(name) {
        assert("../"@[2] == name[2]);
    }
    if "../"@.is_prefix_of(p) {
        assert("../"@[0] == p[0] && "../"@[1] == p[1] && "../"@[2] == p[2]);
        assert(name.len() == 2) by {
            if name.len() > 2 {
                assert(p[2] == name[2]);
            }
        }
        assert(name[0] == p[0] && name[1] == p[1]);
        assert(name =~= seq!['.', '.']);
    }
}

/// A name is listed exactly where some line marks it, and each line that is not
/// empty counts once.
pub proof fn every_marked_name_is_listed(ls: Seq<Seq<char>>, name: Seq<char>)
    ensures
        changed_names(ls).contains(name) <==> exists|i: int|
            0 <= i < ls.len() && changed_name(#[trigger] ls[i]) == Some(name),
        filled_lines(ls) == ls.filter(|l: Seq<char>| l.len() > 0).len(),
    decreases ls.len(),
{
    reveal(Seq::filter);
    if ls.len() > 0 {
        let d = ls.drop_last();
        every_marked_name_is_listed(d, name);
        let before = changed_names(d);
        let now = changed_names(ls);
        if before.contains(name) {
            let k = choose|k: int| 0 <= k < before.len() && before[k] == name;
            assert(now[k] == name);
            let i = choose|i: int| 0 <= i < d.len() && changed_name(#[trigger] d[i]) == Some(name);
            assert(ls[i] == d[i]);
        }
        if now.contains(name) && !before.contains(name) {
            let k = choose|k: int| 0 <= k < now.len() && now[k] == name;
            if k < before.len() {
                assert(before[k] == name);
            }
            assert(changed_name(ls[ls.len() - 1]) == Some(name));
        }
        if exists|i: int| 0 <= i < ls.len() && changed_name(#[trigger] ls[i]) == Some(name) {
            let i = choose|i: int| 0 <= i < ls.len() && changed_name(#[trigger] ls[i]) == Some(name);
            if i < d.len() {
                assert(d[i] == ls[i]);
            } else if !before.contains(name) {
                assert(now[before.len() as int] == name);
            }
        }
    }
}

/// Two numbers with white space between them are how far a branch is ahead and
/// behind.
pub proof fn counts_are_read(a: nat, gap: Seq<char>, b: nat)
    requires
        a <= usize::MAX,
        b <= usize::MAX,
        gap.len() > 0,
        forall|i: int| 0 <= i < gap.len() ==> crate::text::is_white(#[trigger] gap[i]),
    ensures
        left_right(Some(crate::text::decimal(a) + gap + crate::text::decimal(b))) == (a, b),
        left_right(None) == (0nat, 0nat),
{
    let x = crate::text::decimal(a);
    let y = crate::text::decimal(b);
    crate::text::decimals_are_digits(a);
    crate::text::decimals_are_digits(b);
    crate::text::numbers_are_read_back(a, usize::MAX as nat);
    crate::text::numbers_are_read_back(b, usize::MAX as nat);
    assert forall|i: int| 0 <= i < x.len() implies !crate::text::is_white(#[trigger] x[i]) by {
        assert(crate::text::is_digit(x[i]));
    }
    assert forall|i: int| 0 <= i < y.len() implies !crate::text::is_white(#[trigger] y[i]) by {
        assert(crate::text::is_digit(y[i]));
    }
    crate::text::words_end_at_white_space(x, gap, y);
    crate::text::words_end_at_white_space(y, gap, seq![]);
}

/// In a repository the branch is told under its name, each changed name of the
/// directory is listed, and every changed path counts.
pub proof fn repositories_are_described(
    branch: &str,
    status: &str,
    counts: Option<&str>,
    r: Option<GitInfo>,
    name: Seq<char>,
)
    requires
        info_gathered(Some(branch), Some(status), counts, r),
    ensures
        r matches Some(info) && {
            &&& trim(branch@).len() > 0 ==> info.branch@ == trim(branch@)
            &&& texts(info.modified_names@).contains(name) <==> exists|i: int|
                0 <= i < lines(status@).len() && changed_name(#[trigger] lines(status@)[i]) == Some(
                    name,
                )
            &&& info.uncommitted == lines(status@).filter(|l: Seq<char>| l.len() > 0).len()
        },
{
    every_marked_name_is_listed(lines(status@), name);
}

} // verus!
