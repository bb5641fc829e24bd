//! Running containers, as `docker ps` lists them.

use vstd::prelude::*;
use crate::entry::SortDir;
use crate::filtering::{items_of, keep_flagged, lemma_mapped_step, mapped_some, query_matches, Query};
use crate::sorting::{keeps_order_of, sort_items, sorted_lists_are_in_order, sorted_stably, text_key};
use crate::sorting::{text_order, SortKey};
use crate::text::{contains_text, fields_end_at_separators, lemma_text_less_total, text_less};
use crate::text::{chars_of, lines, lowercase, slice_texts, split_lines, splitn, splitn_chars};
use crate::text::{string_of, trim, trim_chars};

verus! {

/// One running container.
#[derive(Debug, PartialEq, Eq)]
pub struct DockerContainer {
    pub id: String,
    pub name: String,
    pub image: String,
    pub status: String,
}

/// A container as plain values.
pub struct ContainerView {
    pub id: Seq<char>,
    pub name: Seq<char>,
    pub image: Seq<char>,
    pub status: Seq<char>,
}

impl View for DockerContainer {
    type V = ContainerView;

    open spec fn view(&self) -> ContainerView {
        ContainerView {
            id: self.id@,
            name: self.name@,
            image: self.image@,
            status: self.status@,
        }
    }
}

impl Clone for DockerContainer {
    fn clone(&self) -> (r: Self)
        ensures
            r == *self,
    {
        DockerContainer {
            id: self.id.clone(),
            name: self.name.clone(),
            image: self.image.clone(),
            status: self.status.clone(),
        }
    }
}

/// The column that containers are sorted by.
#[derive(Debug, Clone, Copy, PartialEq, Eq, Structural)]
pub enum DockerSortBy {
    Name,
    Image,
    Status,
}

impl DockerSortBy {
    /// The header of the column.
    pub fn label(self) -> (r: &'static str)
        ensures
            r@ == match self {
                DockerSortBy::Name => "Name"@,
                DockerSortBy::Image => "Image"@,
                DockerSortBy::Status => "Status"@,
            },
    {
        match self {
            DockerSortBy::Name => "Name",
            DockerSortBy::Image => "Image",
            DockerSortBy::Status => "Status",
        }
    }

    /// The direction that a newly chosen column is sorted in.
    pub fn initial_dir(self) -> (r: SortDir)
        ensures
            r == SortDir::Asc,
    {
        SortDir::Asc
    }
}

/// What the containers dialog shows.
#[derive(Debug)]
pub enum DockerState {
    Loading,
    Loaded(Vec<DockerContainer>),
    Error(String),
}

/// The text that a container is sorted by.
pub open spec fn container_column(c: DockerContainer, by: DockerSortBy) -> Seq<char> {
    match by {
        DockerSortBy::Name => lowercase(c.name@),
        DockerSortBy::Image => lowercase(c.image@),
        DockerSortBy::Status => lowercase(c.status@),
    }
}

/// Whether one container must be listed before another.
pub open spec fn container_less(
    a: DockerContainer,
    b: DockerContainer,
    by: DockerSortBy,
    dir: SortDir,
) -> bool {
    text_order(container_column(a, by), container_column(b, by), dir == SortDir::Desc)
}

/// `new_list` is `old_list` sorted by a column.
pub open spec fn containers_sorted(
    old_list: Seq<DockerContainer>,
    new_list: Seq<DockerContainer>,
    by: DockerSortBy,
    dir: SortDir,
) -> bool {
    sorted_stably(
        old_list,
        new_list,
        |a: DockerContainer, b: DockerContainer| container_less(a, b, by, dir),
    )
}

/// Sorts containers by a column, ignoring case; equal ones keep their order.
pub fn sort_containers(containers: &mut Vec<DockerContainer>, by: DockerSortBy, dir: SortDir)
    ensures
        containers_sorted(old(containers)@, final(containers)@, by, dir),
{
    let ghost before = containers@;
    let mut keys: Vec<SortKey> = Vec::new();
    let mut i: usize = 0;
    while i < containers.len()
        invariant
            containers@ == before,
            i <= before.len(),
            keys@.len() == i,
            forall|k: int|
                0 <= k < i ==> (#[trigger] keys@[k])@.text == container_column(before[k], by)
                    && keys@[k]@.number == 0 && !keys@[k]@.group,
        decreases containers.len() - i,
    {
        let lower = match by {
            DockerSortBy::Name => containers[i].name.as_str().to_lowercase(),
            DockerSortBy::Image => containers[i].image.as_str().to_lowercase(),
            DockerSortBy::Status => containers[i].status.as_str().to_lowercase(),
        };
        keys.push(text_key(chars_of(lower.as_str())));
        i += 1;
    }
    let desc: bool = match dir {
        SortDir::Asc => false,
        SortDir::Desc => true,
    };
    sort_items(
        containers,
        &keys,
        desc,
        Ghost(|a: DockerContainer, b: DockerContainer| container_less(a, b, by, dir)),
    );
}

/// The container that a line describes: four fields between `|`, the last of
/// which may hold more of them, and an id that is not empty.
pub open spec fn container_line(line: Seq<char>) -> Option<ContainerView> {
    let f = splitn(line, 4, '|');
    if f.len() == 4 && trim(f[0]).len() > 0 {
        Some(
            ContainerView {
                id: trim(f[0]),
                name: trim(f[1]),
                image: trim(f[2]),
                status: trim(f[3]),
            },
        )
    } else {
        None
    }
}

/// The containers of a sequence as plain values.
pub open spec fn container_views(v: Seq<DockerContainer>) -> Seq<ContainerView> {
    Seq::new(v.len(), |i: int| v[i]@)
}

/// The containers that a text of such lines describes.
pub open spec fn containers_of(text: Seq<char>) -> Seq<ContainerView> {
    mapped_some(lines(text), |l: Seq<char>| container_line(l))
}

/// Reads the lines `id|names|image|status`; other lines are passed over.
pub fn parse_docker_ps(stdout: &str) -> (r: Vec<DockerContainer>)
    ensures
        container_views(r@) == containers_of(stdout@),
{
    let v = chars_of(stdout);
    let ls = split_lines(v.as_slice());
    let ghost all = lines(stdout@);
    let ghost f = |l: Seq<char>| container_line(l);
    let mut r: Vec<DockerContainer> = Vec::new();
    let mut i: usize = 0;
    assert(slice_texts(ls@).len() == ls@.len());
    assert(container_views(r@) =~= mapped_some(all.take(0), f));
    while i < ls.len()
        invariant
            i <= ls@.len(),
            ls@.len() == all.len(),
            slice_texts(ls@) == all,
            f == (|l: Seq<char>| container_line(l)),
            container_views(r@) == mapped_some(all.take(i as int), f),
        decreases ls.len() - i,
    {
        let line = ls[i];
        let parts = splitn_chars(line, 4, '|');
        proof {
            lemma_mapped_step(all, i as int, f);
            assert(slice_texts(ls@)[i as int] == line@);
            assert(slice_texts(parts@).len() == parts@.len());
            assert(forall|k: int|
                0 <= k < parts@.len() ==> slice_texts(parts@)[k] == #[trigger] parts@[k]@);
        }
        if parts.len() == 4 {
            let id = trim_chars(parts[0]);
            if id.len() > 0 {
                let c = DockerContainer {
                    id: string_of(id),
                    name: string_of(trim_chars(parts[1])),
                    image: string_of(trim_chars(parts[2])),
                    status: string_of(trim_chars(parts[3])),
                };
                let ghost done = container_views(r@);
                let ghost cv = c@;
                r.push(c);
                assert(container_views(r@) =~= done.push(cv));
            }
        }
        i += 1;
    }
    assert(all.take(all.len() as int) =~= all);
    r
}

/// A query matches a container by its name or its image.
pub open spec fn container_matches(c: DockerContainer, query: Seq<char>) -> bool {
    query_matches(c.name@, query) || query_matches(c.image@, query)
}

/// The containers that a query matches.
pub fn filtered_containers<'a>(containers: &'a [DockerContainer], input: &str) -> (r: Vec<
    &'a DockerContainer,
>)
    ensures
        items_of(r@) == containers@.filter(|c: DockerContainer| container_matches(c, input@)),
{
    let q = Query::new(input);
    let mut flags: Vec<bool> = Vec::new();
    let mut i: usize = 0;
    while i < containers.len()
        invariant
            q.wf(),
            q.text() == input@,
            i <= containers@.len(),
            flags@.len() == i,
            forall|k: int|
                0 <= k < i ==> #[trigger] flags@[k] == container_matches(containers@[k], input@),
        decreases containers.len() - i,
    {
        let c = &containers[i];
        flags.push(q.matches_text(c.name.as_str()) || q.matches_text(c.image.as_str()));
        i += 1;
    }
    keep_flagged(
        containers,
        &flags,
        Ghost(|c: DockerContainer| container_matches(c, input@)),
    )
}

/// Sorted containers stand in the order of the chosen column, their texts taken
/// in lower case; containers of the same text keep their order, and none is lost.
pub proof fn containers_are_in_order(
    old_list: Seq<DockerContainer>,
    new_list: Seq<DockerContainer>,
    by: DockerSortBy,
    dir: SortDir,
)
    requires
        containers_sorted(old_list, new_list, by, dir),
    ensures
        forall|i: int, j: int|
            #![trigger new_list[i], new_list[j]]
            0 <= i < j < new_list.len() ==> {
                let (a, b) = if dir == SortDir::Asc {
                    (new_list[i], new_list[j])
                } else {
                    (new_list[j], new_list[i])
                };
                match by {
                    DockerSortBy::Name => !text_less(lowercase(b.name@), lowercase(a.name@)),
                    DockerSortBy::Image => !text_less(lowercase(b.image@), lowercase(a.image@)),
                    DockerSortBy::Status => !text_less(lowercase(b.status@), lowercase(a.status@)),
                }
            },
        old_list.to_multiset() == new_list.to_multiset(),
        keeps_order_of(
            old_list,
            new_list,
            |a: DockerContainer, b: DockerContainer|
                match by {
                    DockerSortBy::Name => lowercase(a.name@) == lowercase(b.name@),
                    DockerSortBy::Image => lowercase(a.image@) == lowercase(b.image@),
                    DockerSortBy::Status => lowercase(a.status@) == lowercase(b.status@),
                },
        ),
{
    let less = |a: DockerContainer, b: DockerContainer| container_less(a, b, by, dir);
    let same = |a: DockerContainer, b: DockerContainer|
        match by {
            DockerSortBy::Name => lowercase(a.name@) == lowercase(b.name@),
            DockerSortBy::Image => lowercase(a.image@) == lowercase(b.image@),
            DockerSortBy::Status => lowercase(a.status@) == lowercase(b.status@),
        };
    assert forall|a: DockerContainer, b: DockerContainer| #[trigger] less(a, b) implies !less(b, a)
        && !same(a, b) by {
        lemma_text_less_total(container_column(a, by), container_column(b, by));
    }
    sorted_lists_are_in_order(old_list, new_list, less, same);
    assert forall|i: int, j: int| 0 <= i < j < new_list.len() implies !less(
        #[trigger] new_list[j],
        #[trigger] new_list[i],
    ) by {}
}

/// A query finds a container by what stands anywhere in its name or its image.
pub proof fn containers_are_found_by_name_or_image(c: DockerContainer, query: Seq<char>)
    ensures
        container_matches(c, query) <==> query.len() == 0 || contains_text(
            lowercase(c.name@),
            lowercase(query),
        ) || contains_text(lowercase(c.image@), lowercase(query)),
{
}

/// A line of four fields between bars is the container that they describe: its
/// id, names, image and status as they are printed, without the white space
/// around them. The status may hold bars. Lines with fewer fields describe none.
pub proof fn container_lines_are_read(
    id: Seq<char>,
    name: Seq<char>,
    image: Seq<char>,
    status: Seq<char>,
)
    requires
        !id.contains('|'),
        !name.contains('|'),
        !image.contains('|'),
    ensures
        trim(id).len() > 0 ==> container_line(
            id + seq!['|'] + name + seq!['|'] + image + seq!['|'] + status,
        ) == Some(
            ContainerView {
                id: trim(id),
                name: trim(name),
                image: trim(image),
                status: trim(status),
            },
        ),
        container_line(id + seq!['|'] + name + seq!['|'] + image) is None,
        container_line(id) is None,
{
    let c2 = image + seq!['|'] + status;
    let c1 = name + seq!['|'] + c2;
    let c0 = id + seq!['|'] + c1;
    assert(c0 =~= id + seq!['|'] + name + seq!['|'] + image + seq!['|'] + status);
    fields_end_at_separators(id, c1, 4, '|');
    fields_end_at_separators(name, c2, 3, '|');
    fields_end_at_separators(image, status, 2, '|');
    reveal_with_fuel(splitn, 2);
    let d1 = name + seq!['|'] + image;
    assert(id + seq!['|'] + d1 =~= id + seq!['|'] + name + seq!['|'] + image);
    fields_end_at_separators(id, d1, 4, '|');
    fields_end_at_separators(name, image, 3, '|');
    fields_end_at_separators(image, image, 2, '|');
    fields_end_at_separators(id, image, 4, '|');
}

/// Each line gives the container that it describes, if it describes one, and the
/// lines below give theirs.
pub proof fn every_container_line_counts(line: Seq<char>, rest: Seq<char>)
    requires
        !line.contains('\n'),
        line.len() == 0 || line.last() != '\r',
    ensures
        containers_of(line + seq!['\n'] + rest) == (match container_line(line) {
            Some(x) => seq![x],
            None => seq![],
        }) + containers_of(rest),
        containers_of(seq![]) == Seq::<ContainerView>::empty(),
{
    let f = |l: Seq<char>| container_line(l);
    assert forall|i: int| 0 <= i < line.len() implies #[trigger] line[i] != '\n' by {
        assert(line.contains(line[i]));
    }
    crate::text::lines_end_at_line_feeds(line, rest);
    crate::filtering::every_readable_item_is_read(seq![], line, lines(rest), f);
    assert(Seq::<Seq<char>>::empty() + seq![line] + lines(rest) =~= seq![line] + lines(rest));
    assert(mapped_some(Seq::<Seq<char>>::empty(), f) =~= seq![]);
    assert(containers_of(line + seq!['\n'] + rest) =~= (match container_line(line) {
        Some(x) => seq![x],
        None => seq![],
    }) + containers_of(rest));
}

} // verus!
