//! Lists narrowed by a typed query, and lists read from lines of text.

use vstd::prelude::*;
use crate::name_filter::contains_ignoring_case;
use crate::text::{lowercase, text_contains};

verus! {

/// The items behind a sequence of references.
pub open spec fn items_of<T>(v: Seq<&T>) -> Seq<T> {
    Seq::new(v.len(), |i: int| *v[i])
}

/// A query matches a text: it is empty or occurs in it when case is ignored.
pub open spec fn query_matches(text: Seq<char>, query: Seq<char>) -> bool {
    query.len() == 0 || contains_ignoring_case(text, query)
}

/// The values of `f` on the items that it is defined on, in order.
pub open spec fn mapped_some<A, B>(s: Seq<A>, f: spec_fn(A) -> Option<B>) -> Seq<B>
    decreases s.len(),
{
    if s.len() == 0 {
        seq![]
    } else {
        let before = mapped_some(s.drop_last(), f);
        match f(s.last()) {
            Some(b) => before.push(b),
            None => before,
        }
    }
}

pub proof fn lemma_filter_step<T>(s: Seq<T>, i: int, keep: spec_fn(T) -> bool)
    requires
        0 <= i < s.len(),
    ensures
        s.take(i + 1).filter(keep) == (if keep(s[i]) {
            s.take(i).filter(keep).push(s[i])
        } else {
            s.take(i).filter(keep)
        }),
{
    reveal(Seq::filter);
    assert(s.take(i + 1).drop_last() =~= s.take(i));
}

pub proof fn lemma_mapped_step<A, B>(s: Seq<A>, i: int, f: spec_fn(A) -> Option<B>)
    requires
        0 <= i < s.len(),
    ensures
        mapped_some(s.take(i + 1), f) == (match f(s[i]) {
            Some(b) => mapped_some(s.take(i), f).push(b),
            None => mapped_some(s.take(i), f),
        }),
{
    assert(s.take(i + 1).drop_last() =~= s.take(i));
}

/// Filtering leaves a list of the items that are kept, each in its place
/// relative to the others, and nothing is kept that does not match.
pub proof fn filter_keeps_matches<T>(s: Seq<T>, keep: spec_fn(T) -> bool)
    ensures
        s.filter(keep).len() <= s.len(),
        forall|i: int| 0 <= i < s.filter(keep).len() ==> keep(#[trigger] s.filter(keep)[i]),
        (forall|x: T| #[trigger] keep(x)) ==> s.filter(keep) == s,
    decreases s.len(),
{
    reveal(Seq::filter);
    if s.len() > 0 {
        filter_keeps_matches(s.drop_last(), keep);
        if forall|x: T| #[trigger] keep(x) {
            assert(keep(s.last()));
            assert(s.drop_last().push(s.last()) =~= s);
        }
    } else {
        assert(s.filter(keep) =~= s);
    }
}

/// The flagged items, in order.
pub fn keep_flagged<'a, T>(
    items: &'a [T],
    flags: &Vec<bool>,
    Ghost(keep): Ghost<spec_fn(T) -> bool>,
) -> (r: Vec<&'a T>)
    requires
        flags@.len() == items@.len(),
        forall|i: int| 0 <= i < flags@.len() ==> #[trigger] flags@[i] == keep(items@[i]),
    ensures
        items_of(r@) == items@.filter(keep),
{
    let mut r: Vec<&'a T> = Vec::new();
    let mut i: usize = 0;
    proof {
        reveal(Seq::filter);
        assert(items_of(r@) =~= items@.take(0).filter(keep));
    }
    while i < items.len()
        invariant
            i <= items@.len(),
            flags@.len() == items@.len(),
            forall|i: int| 0 <= i < flags@.len() ==> #[trigger] flags@[i] == keep(items@[i]),
            items_of(r@) == items@.take(i as int).filter(keep),
        decreases items.len() - i,
    {
        proof {
            lemma_filter_step(items@, i as int, keep);
        }
        if flags[i] {
            let ghost done = items_of(r@);
            r.push(&items[i]);
            assert(items_of(r@) =~= done.push(items@[i as int]));
        }
        i += 1;
    }
    assert(items@.take(items@.len() as int) =~= items@);
    r
}

/// A typed query made ready to test many texts.
pub struct Query {
    empty: bool,
    lower: String,
    query: Ghost<Seq<char>>,
}

impl Query {
    pub closed spec fn text(&self) -> Seq<char> {
        self.query@
    }

    pub closed spec fn wf(&self) -> bool {
        &&& self.empty == (self.query@.len() == 0)
        &&& self.lower@ == crate::text::lowercase(self.query@)
    }

    pub fn new(input: &str) -> (r: Query)
        ensures
            r.wf(),
            r.text() == input@,
    {
        Query { empty: input.is_empty(), lower: input.to_lowercase(), query: Ghost(input@) }
    }

    /// Whether the query matches a text.
    pub fn matches_text(&self, text: &str) -> (r: bool)
        requires
            self.wf(),
        ensures
            r == query_matches(text@, self.text()),
    {
        if self.empty {
            return true;
        }
        let lower = text.to_lowercase();
        text_contains(lower.as_str(), self.lower.as_str())
    }
}

/// What is read from lines is read from each line for itself, in order, and no
/// line that can be read is left out.
pub proof fn every_readable_item_is_read<A, B>(a: Seq<A>, x: A, b: Seq<A>, f: spec_fn(A) -> Option<B>)
    ensures
        mapped_some(a + seq![x] + b, f) == mapped_some(a, f) + (match f(x) {
            Some(y) => seq![y],
            None => seq![],
        }) + mapped_some(b, f),
        mapped_some(Seq::<A>::empty(), f) == Seq::<B>::empty(),
    decreases b.len(),
{
    let s = a + seq![x] + b;
    if b.len() == 0 {
        assert(s.drop_last() =~= a);
        assert(s.last() == x);
        assert(mapped_some(s, f) =~= mapped_some(a, f) + (match f(x) {
            Some(y) => seq![y],
            None => seq![],
        }) + mapped_some(b, f));
    } else {
        assert(s.drop_last() =~= a + seq![x] + b.drop_last());
        assert(s.last() == b.last());
        every_readable_item_is_read(a, x, b.drop_last(), f);
        assert(mapped_some(s, f) =~= mapped_some(a, f) + (match f(x) {
            Some(y) => seq![y],
            None => seq![],
        }) + mapped_some(b, f));
    }
}

/// A query matches a text exactly where it is empty, or its lower-case form
/// stands somewhere in the lower-case form of the text.
pub proof fn queries_match_anywhere(text: Seq<char>, query: Seq<char>)
    ensures
        query_matches(text, query) <==> query.len() == 0 || exists|i: int|
            0 <= i <= lowercase(text).len() - lowercase(query).len() && #[trigger] lowercase(
                text,
            ).subrange(i, i + lowercase(query).len()) == lowercase(query),
{
    let t = lowercase(text);
    let q = lowercase(query);
    if exists|i: int| 0 <= i <= t.len() - q.len() && #[trigger] t.subrange(i, i + q.len()) == q {
        let i = choose|i: int|
            0 <= i <= t.len() - q.len() && #[trigger] t.subrange(i, i + q.len()) == q;
        assert(crate::text::occurs_at(t, q, i));
    }
    if contains_ignoring_case(text, query) {
        let i = choose|i: int| crate::text::occurs_at(t, q, i);
        assert(t.subrange(i, i + q.len()) == q);
    }
}

/// A narrowed list holds an item exactly where the list does and the item is
/// kept.
pub proof fn narrowed_lists_are_complete<T>(s: Seq<T>, keep: spec_fn(T) -> bool, x: T)
    ensures
        s.filter(keep).contains(x) <==> s.contains(x) && keep(x),
    decreases s.len(),
{
    reveal(Seq::filter);
    if s.len() > 0 {
        let d = s.drop_last();
        narrowed_lists_are_complete(d, keep, x);
        if d.contains(x) {
            let i = choose|i: int| 0 <= i < d.len() && d[i] == x;
            assert(s[i] == x);
        }
        if s.contains(x) && x != s.last() {
            let i = choose|i: int| 0 <= i < s.len() && s[i] == x;
            assert(d[i] == x);
        }
        if keep(s.last()) {
            let r = d.filter(keep).push(s.last());
            assert(r[d.filter(keep).len() as int] == s.last());
            assert(s[s.len() - 1] == s.last());
            if d.filter(keep).contains(x) {
                let i = choose|i: int| 0 <= i < d.filter(keep).len() && d.filter(keep)[i] == x;
                assert(r[i] == x);
            }
        }
    }
}

} // verus!
