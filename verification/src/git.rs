//! Branches of a repository.

use vstd::prelude::*;
use crate::filtering::{items_of, keep_flagged, lemma_mapped_step, mapped_some, query_matches, Query};
use crate::text::{chars_of, fields_end_at_separators, lines, slice_texts, split_lines, splitn, splitn_chars};
use crate::text::{string_of, trim, trim_chars};

verus! {

/// A local branch and the date of its last commit.
#[derive(Debug, PartialEq, Eq)]
pub struct GitBranch {
    pub name: String,
    pub last_commit: String,
}

/// A branch as plain values.
pub struct BranchView {
    pub name: Seq<char>,
    pub last_commit: Seq<char>,
}

impl View for GitBranch {
    type V = BranchView;

    open spec fn view(&self) -> BranchView {
        BranchView { name: self.name@, last_commit: self.last_commit@ }
    }
}

impl Clone for GitBranch {
    fn clone(&self) -> (r: Self)
        ensures
            r == *self,
    {
        GitBranch { name: self.name.clone(), last_commit: self.last_commit.clone() }
    }
}

/// What the branches dialog shows.
#[derive(Debug)]
pub enum GitBranchesState {
    Loading,
    Loaded(Vec<GitBranch>),
    Error(String),
}

/// The branch that a line `name|date` describes.
pub open spec fn branch_line(line: Seq<char>) -> Option<BranchView> {
    let f = splitn(line, 2, '|');
    if f.len() == 2 && trim(f[0]).len() > 0 {
        Some(BranchView { name: trim(f[0]), last_commit: trim(f[1]) })
    } else {
        None
    }
}

/// The branches of a sequence as plain values.
pub open spec fn branch_views(v: Seq<GitBranch>) -> Seq<BranchView> {
    Seq::new(v.len(), |i: int| v[i]@)
}

/// The branches that a text of such lines describes.
pub open spec fn branches_of(text: Seq<char>) -> Seq<BranchView> {
    mapped_some(lines(text), |l: Seq<char>| branch_line(l))
}

/// Reads the lines `name|date` in their order; other lines are passed over.
pub fn parse_git_branches(stdout: &str) -> (r: Vec<GitBranch>)
    ensures
        branch_views(r@) == branches_of(stdout@),
{
    let v = chars_of(stdout);
    let ls = split_lines(v.as_slice());
    let ghost all = lines(stdout@);
    let ghost f = |l: Seq<char>| branch_line(l);
    let mut r: Vec<GitBranch> = Vec::new();
    let mut i: usize = 0;
    assert(slice_texts(ls@).len() == ls@.len());
    assert(branch_views(r@) =~= mapped_some(all.take(0), f));
    while i < ls.len()
        invariant
            i <= ls@.len(),
            ls@.len() == all.len(),
            slice_texts(ls@) == all,
            f == (|l: Seq<char>| branch_line(l)),
            branch_views(r@) == mapped_some(all.take(i as int), f),
        decreases ls.len() - i,
    {
        let line = ls[i];
        let parts = splitn_chars(line, 2, '|');
        proof {
            lemma_mapped_step(all, i as int, f);
            assert(slice_texts(ls@)[i as int] == line@);
            assert(slice_texts(parts@).len() == parts@.len());
            assert(forall|k: int|
                0 <= k < parts@.len() ==> slice_texts(parts@)[k] == #[trigger] parts@[k]@);
        }
        if parts.len() == 2 {
            let name = trim_chars(parts[0]);
            if name.len() > 0 {
                let b = GitBranch {
                    name: string_of(name),
                    last_commit: string_of(trim_chars(parts[1])),
                };
                let ghost done = branch_views(r@);
                let ghost bv = b@;
                r.push(b);
                assert(branch_views(r@) =~= done.push(bv));
            }
        }
        i += 1;
    }
    assert(all.take(all.len() as int) =~= all);
    r
}

/// The branches whose name a query matches.
pub fn filtered_branches<'a>(branches: &'a [GitBranch], input: &str) -> (r: Vec<&'a GitBranch>)
    ensures
        items_of(r@) == branches@.filter(|b: GitBranch| query_matches(b.name@, input@)),
{
    let q = Query::new(input);
    let mut flags: Vec<bool> = Vec::new();
    let mut i: usize = 0;
    while i < branches.len()
        invariant
            q.wf(),
            q.text() == input@,
            i <= branches@.len(),
            flags@.len() == i,
            forall|k: int|
                0 <= k < i ==> #[trigger] flags@[k] == query_matches(branches@[k].name@, input@),
        decreases branches.len() - i,
    {
        flags.push(q.matches_text(branches[i].name.as_str()));
        i += 1;
    }
    keep_flagged(branches, &flags, Ghost(|b: GitBranch| query_matches(b.name@, input@)))
}

/// A line of a name, a bar and a date is the branch of that name; the date may
/// hold bars. A line without a bar is none.
pub proof fn branch_lines_are_read(name: Seq<char>, date: Seq<char>)
    requires
        !name.contains('|'),
    ensures
        trim(name).len() > 0 ==> branch_line(name + seq!['|'] + date) == Some(
            BranchView { name: trim(name), last_commit: trim(date) },
        ),
        branch_line(name) is None,
{
    fields_end_at_separators(name, date, 2, '|');
    reveal_with_fuel(splitn, 2);
}

/// Each line gives the branch that it describes, if it describes one, and the
/// lines below give theirs.
pub proof fn every_branch_line_counts(line: Seq<char>, rest: Seq<char>)
    requires
        !line.contains('\n'),
        line.len() == 0 || line.last() != '\r',
    ensures
        branches_of(line + seq!['\n'] + rest) == (match branch_line(line) {
            Some(x) => seq![x],
            None => seq![],
        }) + branches_of(rest),
        branches_of(seq![]) == Seq::<BranchView>::empty(),
{
    let f = |l: Seq<char>| branch_line(l);
    assert forall|i: int| 0 <= i < line.len() implies #[trigger] line[i] != '\n' by {
        assert(line.contains(line[i]));
    }
    crate::text::lines_end_at_line_feeds(line, rest);
    crate::filtering::every_readable_item_is_read(seq![], line, lines(rest), f);
    assert(Seq::<Seq<char>>::empty() + seq![line] + lines(rest) =~= seq![line] + lines(rest));
    assert(mapped_some(Seq::<Seq<char>>::empty(), f) =~= seq![]);
    assert(branches_of(line + seq!['\n'] + rest) =~= (match branch_line(line) {
        Some(x) => seq![x],
        None => seq![],
    }) + branches_of(rest));
}

} // verus!
