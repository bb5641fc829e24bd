//! Application bundles that can be launched.

use vstd::prelude::*;
use crate::filtering::{items_of, keep_flagged, query_matches, Query};
use crate::sorting::{keeps_order_of, sort_items, sorted_lists_are_in_order, sorted_stably, text_key};
use crate::sorting::SortKey;
use crate::text::{chars_of, lemma_text_less_total, lowercase, text_less};

verus! {

/// An application bundle.
#[derive(Debug, PartialEq, Eq)]
pub struct Application {
    pub path: String,
    pub name: String,
}

impl Clone for Application {
    fn clone(&self) -> (r: Self)
        ensures
            r == *self,
    {
        Application { path: self.path.clone(), name: self.name.clone() }
    }
}

/// What the applications dialog shows.
#[derive(Debug)]
pub enum AppsState {
    Loading,
    Loaded(Vec<Application>),
    Error(String),
}

/// Whether one application must be listed before another.
pub open spec fn app_less(a: Application, b: Application) -> bool {
    text_less(lowercase(a.name@), lowercase(b.name@))
}

/// Sorts applications by name, ignoring case; equal ones keep their order.
pub fn sort_apps(apps: &mut Vec<Application>)
    ensures
        sorted_stably(
            old(apps)@,
            final(apps)@,
            |a: Application, b: Application| app_less(a, b),
        ),
{
    let ghost before = apps@;
    let mut keys: Vec<SortKey> = Vec::new();
    let mut i: usize = 0;
    while i < apps.len()
        invariant
            apps@ == before,
            i <= before.len(),
            keys@.len() == i,
            forall|k: int|
                0 <= k < i ==> (#[trigger] keys@[k])@.text == lowercase(before[k].name@)
                    && keys@[k]@.number == 0 && !keys@[k]@.group,
        decreases apps.len() - i,
    {
        let lower = apps[i].name.as_str().to_lowercase();
        keys.push(text_key(chars_of(lower.as_str())));
        i += 1;
    }
    sort_items(apps, &keys, false, Ghost(|a: Application, b: Application| app_less(a, b)));
}

/// The applications whose name a query matches.
pub fn filtered_apps<'a>(apps: &'a [Application], input: &str) -> (r: Vec<&'a Application>)
    ensures
        items_of(r@) == apps@.filter(|a: Application| query_matches(a.name@, input@)),
{
    let q = Query::new(input);
    let mut flags: Vec<bool> = Vec::new();
    let mut i: usize = 0;
    while i < apps.len()
        invariant
            q.wf(),
            q.text() == input@,
            i <= apps@.len(),
            flags@.len() == i,
            forall|k: int|
                0 <= k < i ==> #[trigger] flags@[k] == query_matches(apps@[k].name@, input@),
        decreases apps.len() - i,
    {
        flags.push(q.matches_text(apps[i].name.as_str()));
        i += 1;
    }
    keep_flagged(apps, &flags, Ghost(|a: Application| query_matches(a.name@, input@)))
}

/// Sorted applications stand in the order of their names in lower case; those of
/// the same name keep their order, and none is lost.
pub proof fn applications_are_in_order(old_list: Seq<Application>, new_list: Seq<Application>)
    requires
        sorted_stably(old_list, new_list, |a: Application, b: Application| app_less(a, b)),
    ensures
        forall|i: int, j: int|
            0 <= i < j < new_list.len() ==> !text_less(
                lowercase((#[trigger] new_list[j]).name@),
                lowercase((#[trigger] new_list[i]).name@),
            ),
        old_list.to_multiset() == new_list.to_multiset(),
        keeps_order_of(
            old_list,
            new_list,
            |a: Application, b: Application| lowercase(a.name@) == lowercase(b.name@),
        ),
{
    let less = |a: Application, b: Application| app_less(a, b);
    let same = |a: Application, b: Application| lowercase(a.name@) == lowercase(b.name@);
    assert forall|a: Application, b: Application| #[trigger] less(a, b) implies !less(b, a)
        && !same(a, b) by {
        lemma_text_less_total(lowercase(a.name@), lowercase(b.name@));
    }
    sorted_lists_are_in_order(old_list, new_list, less, same);
    assert forall|i: int, j: int| 0 <= i < j < new_list.len() implies !text_less(
        lowercase((#[trigger] new_list[j]).name@),
        lowercase((#[trigger] new_list[i]).name@),
    ) by {
        assert(!less(new_list[j], new_list[i]));
    }
}

} // verus!
