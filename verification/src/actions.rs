//! User-defined actions on files: name patterns, command templates, previews.

use vstd::prelude::*;
use vstd::slice::slice_subrange;
use crate::entry::Side;
use crate::filtering::{items_of, keep_flagged};
use crate::path::{extension_of, extension_of_name, file_name, file_name_of, parent_of, parent_path};
use crate::path::{stem_of, stem_of_name};
use crate::quoting::{posix_quote, quoted, quoted_is_one_word, shell_word};
use crate::text::{chars_of, concat2, find_first, first_index, join_strings, join_texts, lemma_first_index};
use crate::text::{lowercase, same_chars, string_from, string_of, texts};

verus! {

/// A name matches a pattern: `*` stands for any run of characters, `?` for any
/// one character, every other character for itself, and the whole name must be
/// matched.
pub open spec fn glob(p: Seq<char>, n: Seq<char>) -> bool
    decreases p.len() + n.len(),
{
    if p.len() == 0 {
        n.len() == 0
    } else if p[0] == '*' {
        glob(p.skip(1), n) || (n.len() > 0 && glob(p, n.skip(1)))
    } else {
        n.len() > 0 && (p[0] == '?' || p[0] == n[0]) && glob(p.skip(1), n.skip(1))
    }
}

/// The pattern matches the rest of the name from some index on.
pub open spec fn glob_from(p: Seq<char>, n: Seq<char>, from: int) -> bool {
    exists|k: int| from <= k <= n.len() && #[trigger] glob(p, n.skip(k))
}

proof fn lemma_star(p: Seq<char>, n: Seq<char>, from: int)
    requires
        p.len() > 0,
        p[0] == '*',
        0 <= from <= n.len(),
    ensures
        glob(p, n.skip(from)) == glob_from(p.skip(1), n, from),
    decreases n.len() - from,
{
    let q = p.skip(1);
    if from < n.len() {
        lemma_star(p, n, from + 1);
        assert(n.skip(from).skip(1) =~= n.skip(from + 1));
        if glob(q, n.skip(from)) {
            assert(glob_from(q, n, from));
        }
        if glob_from(q, n, from + 1) {
            let k = choose|k: int| from + 1 <= k <= n.len() && #[trigger] glob(q, n.skip(k));
            assert(glob(q, n.skip(k)));
            assert(glob_from(q, n, from));
        }
        if glob_from(q, n, from) {
            let k = choose|k: int| from <= k <= n.len() && #[trigger] glob(q, n.skip(k));
            if k > from {
                assert(glob_from(q, n, from + 1));
            }
        }
    } else {
        assert(n.skip(from) =~= seq![]);
        if glob(q, n.skip(from)) {
            assert(glob_from(q, n, from));
        }
    }
}

/// A match starts with the characters before the first `*`.
proof fn lemma_literal_prefix(p: Seq<char>, n: Seq<char>, x: int, k: int, a: int)
    requires
        0 <= a,
        0 <= x,
        x + a <= p.len(),
        0 <= k <= n.len(),
        forall|i: int| x <= i < x + a ==> p[i] != '*',
        glob(p.skip(x), n.skip(k)),
    ensures
        k + a <= n.len(),
        glob(p.skip(x + a), n.skip(k + a)),
    decreases a,
{
    if a > 0 {
        assert(p.skip(x)[0] == p[x]);
        assert(n.skip(k).len() > 0);
        assert(p.skip(x).skip(1) =~= p.skip(x + 1));
        assert(n.skip(k).skip(1) =~= n.skip(k + 1));
        lemma_literal_prefix(p, n, x + 1, k + 1, a - 1);
    }
}

/// The last `*` takes over from the one before it: what matters is only
/// whether its rest matches somewhere further on.
proof fn lemma_later_star(p: Seq<char>, n: Seq<char>, s: int, mark: int, pi: int, ni: int)
    requires
        0 <= s < pi < p.len(),
        0 <= mark <= ni <= n.len(),
        pi - (s + 1) == ni - mark,
        p[pi] == '*',
        forall|i: int| s + 1 <= i < pi ==> p[i] != '*',
        glob(p.skip(s + 1), n.skip(mark)) == glob(p.skip(pi), n.skip(ni)),
    ensures
        glob_from(p.skip(s + 1), n, mark) == glob_from(p.skip(pi + 1), n, ni),
{
    let a = pi - (s + 1);
    assert(p.skip(pi)[0] == '*');
    assert(p.skip(pi).skip(1) =~= p.skip(pi + 1));
    lemma_star(p.skip(pi), n, ni);
    if glob_from(p.skip(s + 1), n, mark) {
        let k = choose|k: int| mark <= k <= n.len() && #[trigger] glob(p.skip(s + 1), n.skip(k));
        lemma_literal_prefix(p, n, s + 1, k, a);
        lemma_star(p.skip(pi), n, k + a);
        let m = choose|m: int|
            k + a <= m <= n.len() && #[trigger] glob(p.skip(pi + 1), n.skip(m));
        assert(glob(p.skip(pi + 1), n.skip(m)));
        assert(glob_from(p.skip(pi + 1), n, ni));
    }
    if glob_from(p.skip(pi + 1), n, ni) {
        assert(glob(p.skip(s + 1), n.skip(mark)));
        assert(glob_from(p.skip(s + 1), n, mark));
    }
}

/// A rest of stars matches nothing more, and only stars do.
proof fn lemma_trailing_stars(p: Seq<char>, from: int, to: int)
    requires
        0 <= from <= to <= p.len(),
        forall|i: int| from <= i < to ==> p[i] == '*',
        to < p.len() ==> p[to] != '*',
    ensures
        glob(p.skip(from), seq![]) == (to == p.len()),
    decreases to - from,
{
    if from < to {
        assert(p.skip(from)[0] == '*');
        assert(p.skip(from).skip(1) =~= p.skip(from + 1));
        lemma_trailing_stars(p, from + 1, to);
    } else if to < p.len() {
        assert(p.skip(from)[0] == p[to]);
    }
}

/// Whether a name matches a pattern, character for character.
pub fn glob_chars(p: &[char], n: &[char]) -> (r: bool)
    ensures
        r == glob(p@, n@),
{
    let plen: usize = p.len();
    let nlen: usize = n.len();
    let mut pi: usize = 0;
    let mut ni: usize = 0;
    let mut starred: bool = false;
    let mut star: usize = 0;
    let mut mark: usize = 0;
    proof {
        assert(p@.skip(0) =~= p@);
        assert(n@.skip(0) =~= n@);
    }
    while ni < nlen
        invariant
            plen == p@.len(),
            nlen == n@.len(),
            pi <= plen,
            ni <= nlen,
            !starred ==> glob(p@, n@) == glob(p@.skip(pi as int), n@.skip(ni as int)),
            starred ==> {
                &&& star < pi
                &&& mark <= ni
                &&& pi - (star + 1) == ni - mark
                &&& p@[star as int] == '*'
                &&& forall|i: int| star + 1 <= i < pi ==> p@[i] != '*'
                &&& glob(p@.skip(star + 1), n@.skip(mark as int)) == glob(
                    p@.skip(pi as int),
                    n@.skip(ni as int),
                )
                &&& glob(p@, n@) == glob_from(p@.skip(star + 1), n@, mark as int)
            },
        decreases
                (if starred {
                    nlen - mark
                } else {
                    nlen + 1
                }),
                plen - pi,
    {
        proof {
            if pi < plen {
                assert(p@.skip(pi as int)[0] == p@[pi as int]);
                assert(p@.skip(pi as int).skip(1) =~= p@.skip(pi + 1));
            }
            assert(n@.skip(ni as int)[0] == n@[ni as int]);
            assert(n@.skip(ni as int).skip(1) =~= n@.skip(ni + 1));
        }
        if pi < plen && p[pi] == '*' {
            proof {
                if starred {
                    lemma_later_star(p@, n@, star as int, mark as int, pi as int, ni as int);
                } else {
                    lemma_star(p@.skip(pi as int), n@, ni as int);
                }
            }
            starred = true;
            star = pi;
            mark = ni;
            pi += 1;
        } else if pi < plen && (p[pi] == '?' || p[pi] == n[ni]) {
            pi += 1;
            ni += 1;
        } else if starred {
            proof {
                // No match starts at `mark`, so the star takes one character more.
                assert(!glob(p@.skip(pi as int), n@.skip(ni as int)));
                let q = p@.skip(star + 1);
                if glob_from(q, n@, mark as int) {
                    let k = choose|k: int| mark <= k <= n@.len() && #[trigger] glob(q, n@.skip(k));
                    assert(k != mark);
                    assert(glob_from(q, n@, mark + 1));
                }
                if glob_from(q, n@, mark + 1) {
                    let k = choose|k: int|
                        mark + 1 <= k <= n@.len() && #[trigger] glob(q, n@.skip(k));
                    assert(glob_from(q, n@, mark as int));
                }
            }
            pi = star + 1;
            mark += 1;
            ni = mark;
        } else {
            return false;
        }
    }
    let ghost at = pi as int;
    let ghost was_starred = starred;
    while pi < plen && p[pi] == '*'
        invariant
            plen == p@.len(),
            at <= pi <= plen,
            forall|i: int| at <= i < pi ==> p@[i] == '*',
        decreases plen - pi,
    {
        pi += 1;
    }
    proof {
        lemma_trailing_stars(p@, at, pi as int);
        assert(n@.skip(nlen as int) =~= seq![]);
        if starred {
            let q = p@.skip(star + 1);
            if glob_from(q, n@, mark as int) && !glob(p@.skip(at), seq![]) {
                let k = choose|k: int| mark <= k <= n@.len() && #[trigger] glob(q, n@.skip(k));
                lemma_literal_prefix(p@, n@, star + 1, k, at - (star + 1));
                assert(k == mark);
            }
            if glob(p@.skip(at), seq![]) {
                assert(glob(q, n@.skip(mark as int)));
                assert(glob_from(q, n@, mark as int));
            }
        }
    }
    pi == plen
}

/// Whether a name matches a pattern when case is ignored.
pub open spec fn name_matches(pattern: Seq<char>, name: Seq<char>) -> bool {
    glob(lowercase(pattern), lowercase(name))
}

/// Whether a name matches a pattern when case is ignored.
pub fn glob_match(pattern: &str, name: &str) -> (r: bool)
    ensures
        r == name_matches(pattern@, name@),
{
    let p = pattern.to_lowercase();
    let n = name.to_lowercase();
    let pv = chars_of(p.as_str());
    let nv = chars_of(n.as_str());
    glob_chars(pv.as_slice(), nv.as_slice())
}

/// The pattern `*` matches every name.
pub proof fn star_matches_everything(n: Seq<char>)
    ensures
        glob(seq!['*'], n),
    decreases n.len(),
{
    let star = seq!['*'];
    assert(star.skip(1) =~= seq![]);
    reveal_with_fuel(glob, 2);
    if n.len() > 0 {
        star_matches_everything(n.skip(1));
    }
}

/// A pattern without wildcards matches the name that it spells, and no other.
pub proof fn literal_matches_itself_only(p: Seq<char>, n: Seq<char>)
    requires
        !p.contains('*'),
        !p.contains('?'),
    ensures
        glob(p, n) == (p == n),
    decreases p.len(),
{
    if p.len() == 0 {
        if n.len() == 0 {
            assert(p =~= n);
        }
    } else {
        assert(p.contains(p[0]));
        if n.len() > 0 {
            assert forall|c: char| p.skip(1).contains(c) implies p.contains(c) by {
                let i = choose|i: int| 0 <= i < p.skip(1).len() && p.skip(1)[i] == c;
                assert(p[i + 1] == c);
            }
            literal_matches_itself_only(p.skip(1), n.skip(1));
            assert(seq![p[0]] + p.skip(1) =~= p);
            assert(seq![n[0]] + n.skip(1) =~= n);
        }
    }
}

/// An action that is offered for the files whose name matches a pattern.
#[derive(Debug, PartialEq, Eq)]
pub struct FileAction {
    pub pattern: String,
    pub label: String,
    pub command: String,
    pub terminal: bool,
}

/// One row of the file chooser.
#[derive(Debug, PartialEq, Eq)]
pub enum FileChoice {
    OpenDefault,
    Custom { label: String, command: String, terminal: bool },
}

impl FileChoice {
    /// The text that the row shows.
    pub fn label(&self) -> (r: &str)
        ensures
            r@ == match self {
                FileChoice::OpenDefault => "Open with default application"@,
                FileChoice::Custom { label, .. } => label@,
            },
    {
        match self {
            FileChoice::OpenDefault => "Open with default application",
            FileChoice::Custom { label, .. } => label.as_str(),
        }
    }
}

fn match_flags(actions: &[FileAction], name: &str) -> (flags: Vec<bool>)
    ensures
        flags@.len() == actions@.len(),
        forall|i: int|
            0 <= i < flags@.len() ==> #[trigger] flags@[i] == name_matches(
                actions@[i].pattern@,
                name@,
            ),
{
    let mut flags: Vec<bool> = Vec::new();
    let mut i: usize = 0;
    while i < actions.len()
        invariant
            i <= actions@.len(),
            flags@.len() == i,
            forall|k: int|
                0 <= k < i ==> #[trigger] flags@[k] == name_matches(actions@[k].pattern@, name@),
        decreases actions.len() - i,
    {
        flags.push(glob_match(actions[i].pattern.as_str(), name));
        i += 1;
    }
    flags
}

/// The actions whose pattern a name matches, in order.
pub open spec fn actions_for(actions: Seq<FileAction>, name: Seq<char>) -> Seq<FileAction> {
    actions.filter(|a: FileAction| name_matches(a.pattern@, name))
}

/// The actions whose pattern a name matches, in order.
pub fn matching_file_actions<'a>(actions: &'a [FileAction], name: &str) -> (r: Vec<&'a FileAction>)
    ensures
        items_of(r@) == actions_for(actions@, name@),
{
    let flags = match_flags(actions, name);
    keep_flagged(actions, &flags, Ghost(|a: FileAction| name_matches(a.pattern@, name@)))
}

/// Some action is meant for files of this name.
pub open spec fn any_match(actions: Seq<FileAction>, name: Seq<char>) -> bool {
    exists|i: int|
        0 <= i < actions.len() && name_matches((#[trigger] actions[i]).pattern@, name)
}

/// Whether any action matches a name.
pub fn file_has_custom_action(actions: &[FileAction], name: &str) -> (r: bool)
    ensures
        r == any_match(actions@, name@),
{
    let mut i: usize = 0;
    while i < actions.len()
        invariant
            i <= actions@.len(),
            forall|k: int|
                0 <= k < i ==> !name_matches((#[trigger] actions@[k]).pattern@, name@),
        decreases actions.len() - i,
    {
        if glob_match(actions[i].pattern.as_str(), name) {
            assert(name_matches(actions@[i as int].pattern@, name@));
            return true;
        }
        i += 1;
    }
    false
}

/// A row that offers an action.
pub open spec fn offers(choice: FileChoice, a: FileAction) -> bool {
    choice == (FileChoice::Custom { label: a.label, command: a.command, terminal: a.terminal })
}

/// The rows of the chooser: the default application, then the actions.
pub open spec fn choices_for(
    choices: Seq<FileChoice>,
    actions: Seq<FileAction>,
    name: Seq<char>,
) -> bool {
    let matched = actions_for(actions, name);
    &&& choices.len() == matched.len() + 1
    &&& choices[0] == FileChoice::OpenDefault
    &&& forall|i: int|
        0 <= i < matched.len() ==> offers(#[trigger] choices[i + 1], matched[i])
}

/// The rows of the chooser for a name: the default application first, then
/// every matching action in order.
pub fn build_file_choices(actions: &[FileAction], name: &str) -> (r: Vec<FileChoice>)
    ensures
        choices_for(r@, actions@, name@),
{
    let matched = matching_file_actions(actions, name);
    let ghost want = actions_for(actions@, name@);
    let mut r: Vec<FileChoice> = Vec::new();
    r.push(FileChoice::OpenDefault);
    let mut i: usize = 0;
    assert(items_of(matched@).len() == matched@.len());
    while i < matched.len()
        invariant
            i <= matched@.len(),
            want.len() == matched@.len(),
            items_of(matched@) == want,
            r@.len() == i + 1,
            r@[0] == FileChoice::OpenDefault,
            forall|k: int| 0 <= k < i ==> offers(#[trigger] r@[k + 1], want[k]),
        decreases matched.len() - i,
    {
        let a = matched[i];
        assert(items_of(matched@)[i as int] == *a);
        r.push(
            FileChoice::Custom {
                label: a.label.clone(),
                command: a.command.clone(),
                terminal: a.terminal,
            },
        );
        assert(offers(r@[i + 1], want[i as int]));
        i += 1;
    }
    r
}

/// A preview that is shown for the files whose name matches a pattern. Without
/// a command it shows the file itself.
#[derive(Debug, PartialEq, Eq)]
pub struct QuickViewAction {
    pub pattern: String,
    pub label: String,
    pub command: Option<String>,
}

/// How many bytes of a preview are shown.
pub const PREVIEW_MAX_BYTES: usize = 204_800;

/// How many bytes are shown of a preview that has so many.
pub fn preview_len(total: usize) -> (r: usize)
    ensures
        r == if total > PREVIEW_MAX_BYTES {
            PREVIEW_MAX_BYTES
        } else {
            total
        },
{
    if total > PREVIEW_MAX_BYTES {
        PREVIEW_MAX_BYTES
    } else {
        total
    }
}

/// What is shown of a preview: the text of the bytes that are shown, and a mark
/// where there are more.
pub fn preview_text(shown: &str, total: usize) -> (r: String)
    ensures
        r@ == if total > PREVIEW_MAX_BYTES {
            shown@ + "\n(truncated)"@
        } else {
            shown@
        },
{
    if total > PREVIEW_MAX_BYTES {
        concat2(shown, "\n(truncated)")
    } else {
        string_from(shown)
    }
}

/// The preview shown opposite the pane that holds the file.
#[derive(Debug, PartialEq, Eq)]
pub struct QuickViewState {
    pub request_id: u64,
    pub source_side: Side,
    pub path: String,
    pub label: String,
    pub command: Option<String>,
    pub output: QuickViewOutput,
}

#[derive(Debug, PartialEq, Eq)]
pub enum QuickViewOutput {
    Loading,
    Ready(String),
    Error(String),
}

/// The index of the first preview whose pattern a name matches.
pub open spec fn first_quick_view(actions: Seq<QuickViewAction>, name: Seq<char>, i: int) -> bool {
    &&& 0 <= i < actions.len()
    &&& name_matches(actions[i].pattern@, name)
    &&& forall|k: int| 0 <= k < i ==> !name_matches((#[trigger] actions[k]).pattern@, name)
}

/// The first preview whose pattern a name matches.
pub fn matching_quick_view<'a>(actions: &'a [QuickViewAction], name: &str) -> (r: Option<
    &'a QuickViewAction,
>)
    ensures
        match r {
            Some(a) => exists|i: int|
                first_quick_view(actions@, name@, i) && *a == #[trigger] actions@[i],
            None => forall|i: int|
                0 <= i < actions@.len() ==> !name_matches(
                    (#[trigger] actions@[i]).pattern@,
                    name@,
                ),
        },
{
    let mut i: usize = 0;
    while i < actions.len()
        invariant
            i <= actions@.len(),
            forall|k: int|
                0 <= k < i ==> !name_matches((#[trigger] actions@[k]).pattern@, name@),
        decreases actions.len() - i,
    {
        if glob_match(actions[i].pattern.as_str(), name) {
            assert(first_quick_view(actions@, name@, i as int));
            return Some(&actions[i]);
        }
        i += 1;
    }
    None
}

/// What the placeholders of a command template stand for.
pub struct TokenValues {
    pub file: String,
    pub stem: String,
    pub ext: String,
    pub path: String,
    pub dir: String,
}

/// The values of the placeholders as plain values.
pub struct TokenView {
    pub file: Seq<char>,
    pub stem: Seq<char>,
    pub ext: Seq<char>,
    pub path: Seq<char>,
    pub dir: Seq<char>,
}

impl View for TokenValues {
    type V = TokenView;

    open spec fn view(&self) -> TokenView {
        TokenView {
            file: self.file@,
            stem: self.stem@,
            ext: self.ext@,
            path: self.path@,
            dir: self.dir@,
        }
    }
}

/// The value of a placeholder, if there is one of that name.
pub open spec fn token_value(v: TokenView, token: Seq<char>) -> Option<Seq<char>> {
    if token == "file"@ {
        Some(v.file)
    } else if token == "stem"@ {
        Some(v.stem)
    } else if token == "ext"@ {
        Some(v.ext)
    } else if token == "path"@ {
        Some(v.path)
    } else if token == "dir"@ {
        Some(v.dir)
    } else {
        None
    }
}

/// What stands in the place of `{token}`: its value, or the same again.
pub open spec fn token_text(v: TokenView, token: Seq<char>) -> Seq<char> {
    match token_value(v, token) {
        Some(x) => x,
        None => seq!['{'] + token + seq!['}'],
    }
}

/// A template with its placeholders replaced, in one pass from left to right:
/// what is put in is not read again.
pub open spec fn expanded(t: Seq<char>, v: TokenView) -> Seq<char>
    decreases t.len(),
{
    let o = first_index(t, '{');
    let rest = t.skip(o + 1);
    let c = first_index(rest, '}');
    if 0 <= o < t.len() && 0 <= c < rest.len() {
        t.take(o) + token_text(v, rest.take(c)) + expanded(rest.skip(c + 1), v)
    } else {
        t
    }
}

/// A template without an opening brace is left as it is.
pub proof fn plain_template_is_kept(t: Seq<char>, v: TokenView)
    requires
        !t.contains('{'),
    ensures
        expanded(t, v) == t,
{
    lemma_first_index(t, '{');
    let o = first_index(t, '{');
    if o < t.len() {
        assert(t[o] == '{');
    }
}

fn token_is(token: &[char], name: &str) -> (r: bool)
    ensures
        r == (token@ == name@),
{
    let v = chars_of(name);
    same_chars(token, v.as_slice())
}

fn push_token(out: &mut String, token: &[char], v: &TokenValues)
    ensures
        final(out)@ == old(out)@ + token_text(v@, token@),
{
    if token_is(token, "file") {
        out.push_str(v.file.as_str());
    } else if token_is(token, "stem") {
        out.push_str(v.stem.as_str());
    } else if token_is(token, "ext") {
        out.push_str(v.ext.as_str());
    } else if token_is(token, "path") {
        out.push_str(v.path.as_str());
    } else if token_is(token, "dir") {
        out.push_str(v.dir.as_str());
    } else {
        let ghost before = out@;
        let text = string_of(token);
        out.push('{');
        out.push_str(text.as_str());
        out.push('}');
        assert(out@ =~= before + (seq!['{'] + token@ + seq!['}']));
    }
}

/// A template with its placeholders replaced.
pub fn substitute_tokens(template: &str, values: &TokenValues) -> (r: String)
    ensures
        r@ == expanded(template@, values@),
{
    let t = chars_of(template);
    let ghost v = values@;
    let mut out = String::new();
    let mut pos: usize = 0;
    let n: usize = t.len();
    assert(t@.skip(0) =~= t@);
    assert(out@ + expanded(t@, v) =~= expanded(t@, v));
    loop
        invariant
            n == t@.len(),
            pos <= n,
            t@ == template@,
            v == values@,
            out@ + expanded(t@.skip(pos as int), v) == expanded(template@, v),
        decreases n - pos,
    {
        let rest = slice_subrange(t.as_slice(), pos, n);
        let ghost sk = t@.skip(pos as int);
        assert(rest@ =~= sk);
        let o: usize = find_first(rest, '{');
        if o < rest.len() {
            let after = slice_subrange(rest, o + 1, rest.len());
            assert(after@ =~= sk.skip(o + 1));
            let c: usize = find_first(after, '}');
            if c < after.len() {
                let head = slice_subrange(rest, 0, o);
                let token = slice_subrange(after, 0, c);
                assert(head@ =~= sk.take(o as int));
                assert(token@ =~= after@.take(c as int));
                let text = string_of(head);
                let ghost before = out@;
                out.push_str(text.as_str());
                push_token(&mut out, token, values);
                proof {
                    let next = t@.skip(pos + o + 1 + c + 1);
                    assert(after@.skip(c + 1) =~= next);
                    assert(out@ + expanded(next, v) =~= before + (sk.take(o as int) + token_text(
                        v,
                        token@,
                    ) + expanded(next, v)));
                }
                pos = pos + o + 1 + c + 1;
                continue;
            }
        }
        let text = string_of(rest);
        out.push_str(text.as_str());
        return out;
    }
}

/// A text, or nothing where there is none.
pub open spec fn or_empty(s: Option<Seq<char>>) -> Seq<char> {
    match s {
        Some(t) => t,
        None => seq![],
    }
}

/// The file name without its extension.
pub open spec fn path_stem(p: Seq<char>) -> Seq<char> {
    match file_name(p) {
        Some(n) => stem_of(n),
        None => seq![],
    }
}

/// The extension of the file name.
pub open spec fn path_extension(p: Seq<char>) -> Seq<char> {
    match file_name(p) {
        Some(n) => or_empty(extension_of(n)),
        None => seq![],
    }
}

/// What the placeholders stand for on one file: each value quoted.
pub open spec fn file_tokens(p: Seq<char>) -> TokenView {
    TokenView {
        file: quoted(or_empty(file_name(p))),
        stem: quoted(path_stem(p)),
        ext: quoted(path_extension(p)),
        path: quoted(p),
        dir: quoted(or_empty(parent_path(p))),
    }
}

/// What the placeholders stand for on several files: `{file}` and `{path}` on
/// all of them, the others on the one under the cursor.
pub open spec fn files_tokens(paths: Seq<Seq<char>>, primary: Seq<char>) -> TokenView {
    TokenView {
        file: join_texts(paths.map_values(|p: Seq<char>| quoted(or_empty(file_name(p)))), " "@),
        path: join_texts(paths.map_values(|p: Seq<char>| quoted(p)), " "@),
        ..file_tokens(primary)
    }
}

/// With one file, the form for several is that for one.
pub proof fn one_file_expands_alike(template: Seq<char>, p: Seq<char>)
    ensures
        expanded(template, files_tokens(seq![p], p)) == expanded(template, file_tokens(p)),
{
    let one = seq![p];
    assert(one.map_values(|p: Seq<char>| quoted(or_empty(file_name(p)))) =~= seq![
        quoted(or_empty(file_name(p))),
    ]);
    assert(one.map_values(|p: Seq<char>| quoted(p)) =~= seq![quoted(p)]);
    assert(files_tokens(one, p) == file_tokens(p));
}

/// Whatever a file is called, a shell reads each placeholder's value as one
/// word that is exactly the name, the path or the part that it stands for.
pub proof fn placeholders_are_single_words(p: Seq<char>)
    ensures
        shell_word(file_tokens(p).file, false) == Some(or_empty(file_name(p))),
        shell_word(file_tokens(p).stem, false) == Some(path_stem(p)),
        shell_word(file_tokens(p).ext, false) == Some(path_extension(p)),
        shell_word(file_tokens(p).path, false) == Some(p),
        shell_word(file_tokens(p).dir, false) == Some(or_empty(parent_path(p))),
{
    quoted_is_one_word(or_empty(file_name(p)));
    quoted_is_one_word(path_stem(p));
    quoted_is_one_word(path_extension(p));
    quoted_is_one_word(p);
    quoted_is_one_word(or_empty(parent_path(p)));
}

fn name_or_empty(path: &str) -> (r: String)
    ensures
        r@ == or_empty(file_name(path@)),
{
    match file_name_of(path) {
        Some(n) => n,
        None => {
            let e = String::new();
            assert(e@ =~= seq![]);
            e
        },
    }
}

fn tokens_of(path: &str) -> (r: TokenValues)
    ensures
        r@ == file_tokens(path@),
{
    let name = file_name_of(path);
    let stem = match &name {
        Some(n) => stem_of_name(n.as_str()),
        None => String::new(),
    };
    let ext = match &name {
        Some(n) => match extension_of_name(n.as_str()) {
            Some(e) => e,
            None => String::new(),
        },
        None => String::new(),
    };
    let dir = match parent_of(path) {
        Some(d) => d,
        None => String::new(),
    };
    let file = name_or_empty(path);
    proof {
        assert(stem@ =~= path_stem(path@));
        assert(ext@ =~= path_extension(path@));
        assert(dir@ =~= or_empty(parent_path(path@)));
    }
    TokenValues {
        file: posix_quote(file.as_str()),
        stem: posix_quote(stem.as_str()),
        ext: posix_quote(ext.as_str()),
        path: posix_quote(path),
        dir: posix_quote(dir.as_str()),
    }
}

/// A command template filled in for one file. Each value is quoted for the
/// shell; unknown placeholders stay as they are.
pub fn substitute_command(template: &str, path: &str) -> (r: String)
    ensures
        r@ == expanded(template@, file_tokens(path@)),
{
    let v = tokens_of(path);
    substitute_tokens(template, &v)
}

/// A command template filled in for several files.
pub fn substitute_command_multi(template: &str, paths: &[String], primary: &str) -> (r: String)
    ensures
        r@ == expanded(template@, files_tokens(texts(paths@), primary@)),
{
    let mut names: Vec<String> = Vec::new();
    let mut full: Vec<String> = Vec::new();
    let mut i: usize = 0;
    while i < paths.len()
        invariant
            i <= paths@.len(),
            names@.len() == i,
            full@.len() == i,
            forall|k: int|
                0 <= k < i ==> (#[trigger] names@[k])@ == quoted(or_empty(file_name(paths@[k]@))),
            forall|k: int| 0 <= k < i ==> (#[trigger] full@[k])@ == quoted(paths@[k]@),
        decreases paths.len() - i,
    {
        let p = paths[i].as_str();
        let name = name_or_empty(p);
        names.push(posix_quote(name.as_str()));
        full.push(posix_quote(p));
        i += 1;
    }
    let mut v = tokens_of(primary);
    v.file = join_strings(&names, " ");
    v.path = join_strings(&full, " ");
    proof {
        let t = texts(paths@);
        assert(texts(names@) =~= t.map_values(|p: Seq<char>| quoted(or_empty(file_name(p)))));
        assert(texts(full@) =~= t.map_values(|p: Seq<char>| quoted(p)));
        assert(v@ == files_tokens(t, primary@));
    }
    substitute_tokens(template, &v)
}

proof fn lemma_spelled_out_start(a: Seq<char>, p: Seq<char>, n: Seq<char>)
    requires
        !a.contains('*'),
        !a.contains('?'),
    ensures
        glob(a + p, n) <==> n.len() >= a.len() && n.take(a.len() as int) == a && glob(
            p,
            n.skip(a.len() as int),
        ),
    decreases a.len(),
{
    let all = a + p;
    if a.len() == 0 {
        assert(all =~= p);
        assert(n.skip(0) =~= n);
        assert(n.take(0) =~= a);
    } else {
        let rest = a.skip(1);
        assert(a.contains(a[0]));
        assert forall|c: char| rest.contains(c) implies a.contains(c) by {
            let k = choose|k: int| 0 <= k < rest.len() && rest[k] == c;
            assert(a[k + 1] == c);
        }
        assert(all[0] == a[0]);
        assert(all.skip(1) =~= rest + p);
        if n.len() > 0 {
            lemma_spelled_out_start(rest, p, n.skip(1));
            if n.len() >= a.len() {
                assert(n.skip(1).skip(rest.len() as int) =~= n.skip(a.len() as int));
                if n[0] == a[0] && n.skip(1).take(rest.len() as int) == rest {
                    assert(n.take(a.len() as int) =~= a) by {
                        assert forall|k: int| 0 <= k < a.len() implies n[k] == a[k] by {
                            if k > 0 {
                                assert(n.skip(1).take(rest.len() as int)[k - 1] == rest[k - 1]);
                            }
                        }
                    }
                }
                if n.take(a.len() as int) == a {
                    assert(n.take(a.len() as int)[0] == a[0]);
                    assert(n.skip(1).take(rest.len() as int) =~= rest) by {
                        assert forall|k: int| 0 <= k < rest.len() implies n.skip(1)[k] == rest[k] by {
                            assert(n.take(a.len() as int)[k + 1] == a[k + 1]);
                        }
                    }
                }
            }
        }
    }
}

/// A pattern with one star matches the names that start with what is before the
/// star and end with what is behind it, these and no others; neither part may
/// overlap the other. What is between them does not matter.
pub proof fn stars_stand_for_anything(a: Seq<char>, b: Seq<char>, n: Seq<char>)
    requires
        !a.contains('*'),
        !a.contains('?'),
        !b.contains('*'),
        !b.contains('?'),
    ensures
        glob(a + seq!['*'] + b, n) <==> n.len() >= a.len() + b.len() && n.take(a.len() as int) == a
            && n.skip(n.len() - b.len()) == b,
{
    let p = seq!['*'] + b;
    assert(a + seq!['*'] + b =~= a + p);
    lemma_spelled_out_start(a, p, n);
    if n.len() >= a.len() {
        let m = n.skip(a.len() as int);
        assert(m.skip(0) =~= m);
        lemma_star(p, m, 0);
        assert(p.skip(1) =~= b);
        if glob_from(b, m, 0) {
            let k = choose|k: int| 0 <= k <= m.len() && #[trigger] glob(b, m.skip(k));
            literal_matches_itself_only(b, m.skip(k));
            assert(n.skip(n.len() - b.len()) =~= m.skip(k));
        }
        if n.len() >= a.len() + b.len() && n.skip(n.len() - b.len()) == b {
            let k = m.len() - b.len();
            assert(m.skip(k) =~= b);
            literal_matches_itself_only(b, m.skip(k));
            assert(glob_from(b, m, 0));
        }
    }
}

/// A question mark stands for one character, whichever it is, and a star before
/// a pattern for any number of them.
pub proof fn question_marks_stand_for_one(p: Seq<char>, n: Seq<char>, x: char)
    ensures
        glob(seq!['?'] + p, seq![x] + n) == glob(p, n),
        !glob(seq!['?'] + p, seq![]),
        glob(p, n) ==> glob(seq!['*'] + p, n),
        glob(seq!['*'] + p, n) ==> glob(seq!['*'] + p, seq![x] + n),
        glob(seq![], n) <==> n.len() == 0,
{
    assert((seq!['?'] + p).skip(1) =~= p);
    assert((seq!['*'] + p).skip(1) =~= p);
    assert((seq![x] + n).skip(1) =~= n);
}

/// Case makes no difference to a pattern.
pub proof fn patterns_ignore_case(pattern: Seq<char>, name: Seq<char>, p: Seq<char>, n: Seq<char>)
    requires
        lowercase(p) == lowercase(pattern),
        lowercase(n) == lowercase(name),
    ensures
        name_matches(pattern, name) == glob(lowercase(p), lowercase(n)),
        name_matches(pattern, name) == name_matches(p, n),
{
}

/// The chooser offers the default application and then each action whose pattern
/// the name matches, and no other: as it was set up, and in that order.
pub proof fn matching_actions_are_offered(
    choices: Seq<FileChoice>,
    actions: Seq<FileAction>,
    name: Seq<char>,
    a: FileAction,
)
    requires
        choices_for(choices, actions, name),
    ensures
        choices.len() > 0,
        choices[0] == FileChoice::OpenDefault,
        actions.contains(a) && glob(lowercase(a.pattern@), lowercase(name)) ==> choices.skip(
            1,
        ).contains(
            FileChoice::Custom { label: a.label, command: a.command, terminal: a.terminal },
        ),
        forall|i: int|
            1 <= i < choices.len() ==> exists|b: FileAction| #[trigger]
                actions.contains(b) && glob(lowercase(b.pattern@), lowercase(name))
                    && #[trigger] choices[i] == (FileChoice::Custom {
                    label: b.label,
                    command: b.command,
                    terminal: b.terminal,
                }),
        choices.len() == 1 + actions.filter(
            |b: FileAction| glob(lowercase(b.pattern@), lowercase(name)),
        ).len(),
        any_match(actions, name) <==> choices.len() > 1,
{
    let keep = |b: FileAction| name_matches(b.pattern@, name);
    let plain = |b: FileAction| glob(lowercase(b.pattern@), lowercase(name));
    assert(keep =~= plain);
    let matched = actions_for(actions, name);
    assert(matched == actions.filter(keep));
    crate::filtering::narrowed_lists_are_complete(actions, keep, a);
    if actions.contains(a) && keep(a) {
        let k = choose|k: int| 0 <= k < matched.len() && matched[k] == a;
        assert(offers(choices[k + 1], matched[k]));
        assert(choices.skip(1)[k] == choices[k + 1]);
    }
    assert forall|i: int| 1 <= i < choices.len() implies exists|b: FileAction| #[trigger]
        actions.contains(b) && glob(lowercase(b.pattern@), lowercase(name))
            && #[trigger] choices[i] == (FileChoice::Custom {
            label: b.label,
            command: b.command,
            terminal: b.terminal,
        }) by {
        let b = matched[i - 1];
        assert(matched.contains(b));
        crate::filtering::narrowed_lists_are_complete(actions, keep, b);
        assert(offers(choices[(i - 1) + 1], matched[i - 1]));
        assert(actions.contains(b));
    }
    if any_match(actions, name) {
        let i = choose|i: int|
            0 <= i < actions.len() && name_matches((#[trigger] actions[i]).pattern@, name);
        assert(actions.contains(actions[i]));
        crate::filtering::narrowed_lists_are_complete(actions, keep, actions[i]);
    }
    if choices.len() > 1 {
        assert(matched.contains(matched[0]));
        crate::filtering::narrowed_lists_are_complete(actions, keep, matched[0]);
        let i = choose|i: int| 0 <= i < actions.len() && actions[i] == matched[0];
        assert(name_matches(actions[i].pattern@, name));
    }
}

/// A placeholder in braces becomes the value of its name, what stands before it
/// stays, and what follows is filled in by itself. Other names in braces stay,
/// braces and all; so does a brace that is never closed.
pub proof fn placeholders_are_filled_in(
    pre: Seq<char>,
    token: Seq<char>,
    post: Seq<char>,
    v: TokenView,
)
    requires
        !pre.contains('{'),
        !token.contains('}'),
    ensures
        expanded(pre + seq!['{'] + token + seq!['}'] + post, v) == pre + (if token == "file"@ {
            v.file
        } else if token == "stem"@ {
            v.stem
        } else if token == "ext"@ {
            v.ext
        } else if token == "path"@ {
            v.path
        } else if token == "dir"@ {
            v.dir
        } else {
            seq!['{'] + token + seq!['}']
        }) + expanded(post, v),
        expanded(pre + seq!['{'] + token, v) == pre + seq!['{'] + token,
{
    let t = pre + seq!['{'] + token + seq!['}'] + post;
    assert forall|k: int| 0 <= k < pre.len() implies pre[k] != '{' by {
        assert(pre.contains(pre[k]));
    }
    assert forall|k: int| 0 <= k < token.len() implies token[k] != '}' by {
        assert(token.contains(token[k]));
    }
    let o = pre.len() as int;
    crate::text::lemma_first_index_unique(t, '{', o);
    let rest = t.skip(o + 1);
    assert(rest =~= token + seq!['}'] + post);
    crate::text::lemma_first_index_unique(rest, '}', token.len() as int);
    assert(rest.take(token.len() as int) =~= token);
    assert(rest.skip(token.len() as int + 1) =~= post);
    assert(t.take(o) =~= pre);
    let u = pre + seq!['{'] + token;
    crate::text::lemma_first_index_unique(u, '{', o);
    assert(u.skip(o + 1) =~= token);
    lemma_first_index(token, '}');
}

/// On several files the names and the paths of all are put in, with blanks
/// between them, and the rest is that of the file under the cursor.
pub proof fn several_files_are_listed(paths: Seq<Seq<char>>, p: Seq<char>, primary: Seq<char>)
    ensures
        files_tokens(seq![], primary).path == Seq::<char>::empty(),
        files_tokens(seq![p] + paths, primary).path == quoted(p) + (if paths.len() > 0 {
            " "@ + files_tokens(paths, primary).path
        } else {
            seq![]
        }),
        files_tokens(seq![p] + paths, primary).file == quoted(or_empty(file_name(p))) + (if paths.len()
            > 0 {
            " "@ + files_tokens(paths, primary).file
        } else {
            seq![]
        }),
        files_tokens(paths, primary).dir == quoted(or_empty(parent_path(primary))),
        files_tokens(paths, primary).stem == file_tokens(primary).stem,
        files_tokens(paths, primary).ext == file_tokens(primary).ext,
{
    let f = |p: Seq<char>| quoted(or_empty(file_name(p)));
    let g = |p: Seq<char>| quoted(p);
    let all = seq![p] + paths;
    assert(all.map_values(f) =~= seq![f(p)] + paths.map_values(f));
    assert(all.map_values(g) =~= seq![g(p)] + paths.map_values(g));
    assert(Seq::<Seq<char>>::empty().map_values(g) =~= seq![]);
    crate::text::joined_parts_are_separated(f(p), paths.map_values(f), " "@);
    crate::text::joined_parts_are_separated(g(p), paths.map_values(g), " "@);
}

} // verus!
