//! What the keys and the dialogs do, told by what the panes show.

use vstd::prelude::*;
use crate::actions::{expanded, file_tokens, FileChoice};
use crate::app::App;
use crate::app_dialogs::{destination, marked_path_texts, marked_places, palette_done};
use crate::app_update::{confirmed, updated};
use crate::apps::{Application, AppsState};
use crate::docker::{containers_sorted, DockerState};
use crate::entry::{listing_sorted, Entry, Side};
use crate::filtering::query_matches;
use crate::git::{GitBranch, GitBranchesState};
use crate::location::{can_be_host, host_texts_are_remote, other_texts_are_local, show_location};
use crate::location::{Location, LocationView};
use crate::message::{redirected, Effect, Message, Outcome, Surroundings};
use crate::palette::{is_zip_name, zips_are_known_by_their_end, PaletteAction};
use crate::pane::{filters_show_all_matches, location_views, marked_rows_are_all_taken};
use crate::pane::{moves_mark_what_they_pass, shown_under, Pane};
use crate::path::{components, file_name, is_plain_name, join_then_parent};
use crate::path::{only_bare_paths_lack_a_parent, parent_drops_last_component};
use crate::prompt::{DeleteFocus, Prompt};
use crate::process::{processes_sorted, Process, ProcessesState};
use crate::ssh::{server_matches, SshServer, SshServersState};
use crate::text::{contains_text, is_white, lowercase, texts, trimming_takes_white_ends_only};

verus! {

/// Every entry has the name of a file, as in any listing.
pub open spec fn plain_listing(p: Pane) -> bool {
    forall|i: int| 0 <= i < p.entries@.len() ==> is_plain_name((#[trigger] p.entries@[i]).name@)
}

/// The entry under the cursor, where the cursor is on one.
pub open spec fn cursor_on(p: Pane, e: Entry) -> bool {
    &&& 1 <= p.selected <= p.visible_indices@.len()
    &&& p.visible_indices@[p.selected - 1] < p.entries@.len()
    &&& e == p.entries@[p.visible_indices@[p.selected - 1] as int]
}

/// Two places are on the same backend.
pub open spec fn on_one_backend(a: LocationView, b: LocationView) -> bool {
    match (a, b) {
        (LocationView::Local(_), LocationView::Local(_)) => true,
        (
            LocationView::Remote { backend: x, .. },
            LocationView::Remote { backend: y, .. },
        ) => x == y,
        _ => false,
    }
}

/// The place of that name directly in another place.
pub open spec fn is_child(place: LocationView, dir: LocationView, name: Seq<char>) -> bool {
    &&& on_one_backend(place, dir)
    &&& components(place.path()) == components(dir.path()).push(name)
    &&& file_name(place.path()) == Some(name)
}

/// A pane was sent to a place: it is empty and waits for that place's listing,
/// which is asked for; its filter is gone, its order is kept, and the other pane
/// is as it was.
pub open spec fn sent_to(o: App, n: App, fx: Seq<Effect>, side: Side, place: LocationView) -> bool {
    let p = o.pane_of(side);
    let q = n.pane_of(side);
    &&& q.location@ == place
    &&& q.entries@.len() == 0
    &&& q.filter@.len() == 0
    &&& q.loading
    &&& q.load_generation == p.load_generation + 1
    &&& q.sort_by == p.sort_by
    &&& q.sort_dir == p.sort_dir
    &&& side == Side::Left ==> n.right == o.right
    &&& side == Side::Right ==> n.left == o.left
    &&& fx.contains(
        Effect::Load { side, location: q.location, generation: q.load_generation },
    )
}

proof fn lemma_loads(fx: Seq<Effect>, n: Pane, side: Side, active: Side)
    requires
        fx == crate::app::load_effects(n, side, active),
    ensures
        fx.contains(Effect::Load { side, location: n.location, generation: n.load_generation }),
{
    assert(fx[0] == (Effect::Load { side, location: n.location, generation: n.load_generation }));
}

/// Enter on a directory, whatever its name, opens that directory in the same
/// pane.
pub proof fn directories_are_entered(o: App, w: Surroundings, n: App, fx: Seq<Effect>, e: Entry)
    requires
        o.prompt is None,
        cursor_on(o.active_pane(), e),
        e.is_dir,
        is_plain_name(e.name@),
        updated(o, Message::ActivateSelection, w, n, fx),
    ensures
        sent_to(o, n, fx, o.active, n.active_pane().location@),
        is_child(n.active_pane().location@, o.active_pane().location@, e.name@),
        n.active == o.active,
        n.prompt is None,
{
    join_then_parent(o.active_pane().location@.path(), e.name@);
    lemma_loads(fx, n.active_pane(), o.active, o.active);
}

/// Enter on `..`, and Backspace without a filter, lead to the place that holds
/// the one that is shown; at a root they do nothing.
pub proof fn going_up_drops_one_name(o: App, m: Message, w: Surroundings, n: App, fx: Seq<Effect>)
    requires
        o.prompt is None,
        match m {
            Message::ActivateSelection => o.active_pane().selected == 0,
            Message::GoUpActive => o.active_pane().filter@.len() == 0,
            _ => false,
        },
        updated(o, m, w, n, fx),
    ensures
        ({
            let here = o.active_pane().location@;
            let there = n.active_pane().location@;
            let parts = components(here.path());
            if parts.len() == 0 || parts == seq![seq!['/']] {
                n == o && fx.len() == 0
            } else {
                &&& sent_to(o, n, fx, o.active, there)
                &&& on_one_backend(there, here)
                &&& components(there.path()) == parts.drop_last()
                &&& n.active == o.active
            }
        }),
{
    let here = o.active_pane().location@;
    parent_drops_last_component(here.path());
    only_bare_paths_lack_a_parent(here.path());
    if fx.len() > 0 {
        lemma_loads(fx, n.active_pane(), o.active, o.active);
    }
}

/// Enter on a file of a local pane offers what can be done with that file; a zip
/// archive is unpacked instead, a large one after a question that names it. The
/// panes stay as they are.
pub proof fn files_are_offered(o: App, w: Surroundings, n: App, fx: Seq<Effect>, e: Entry)
    requires
        o.prompt is None,
        cursor_on(o.active_pane(), e),
        !e.is_dir,
        is_plain_name(e.name@),
        o.active_pane().location is Local,
        updated(o, Message::ActivateSelection, w, n, fx),
    ensures
        ({
            let here = o.active_pane().location@;
            let large = e.size matches Some(k) && k > 104857600;
            &&& n.left == o.left
            &&& n.right == o.right
            &&& n.active == o.active
            &&& if !is_zip_name(e.name@) {
                &&& fx.len() == 0
                &&& n.prompt matches Some(Prompt::FileActions { path, selected, edit, .. })
                &&& is_child(LocationView::Local(path@), here, e.name@)
                &&& selected == 0
                &&& edit is None
            } else if large {
                &&& fx.len() == 0
                &&& n.prompt matches Some(Prompt::ConfirmLargeExtract { archive_path, focus, .. })
                &&& is_child(LocationView::Local(archive_path@), here, e.name@)
                &&& focus == DeleteFocus::Cancel
            } else {
                &&& n.prompt is None
                &&& fx.len() == 1
                &&& fx[0] matches Effect::ExtractToTemp(path)
                &&& is_child(LocationView::Local(path@), here, e.name@)
            }
        }),
{
    let path = crate::path::join_path(o.active_pane().location@.path(), e.name@);
    join_then_parent(o.active_pane().location@.path(), e.name@);
    zips_are_known_by_their_end(path);
}

/// Typing lengthens the filter of the active pane and Backspace shortens it by
/// one character; the pane then shows the entries whose names are shown under the
/// new filter, all of them and no others.
pub proof fn typing_narrows_the_view(o: App, m: Message, w: Surroundings, n: App, fx: Seq<Effect>)
    requires
        o.prompt is None,
        match m {
            Message::FilterAppend(_) => true,
            Message::GoUpActive => o.active_pane().filter@.len() > 0,
            _ => false,
        },
        o.active_pane().entries@.len() <= usize::MAX,
        updated(o, m, w, n, fx),
    ensures
        n.active == o.active,
        o.active == Side::Left ==> n.right == o.right,
        o.active == Side::Right ==> n.left == o.left,
        m matches Message::FilterAppend(s) ==> n.active_pane().filter@ == o.active_pane().filter@
            + s@,
        m is GoUpActive ==> n.active_pane().filter@ == o.active_pane().filter@.drop_last(),
        n.active_pane().entries == o.active_pane().entries,
        n.active_pane().location == o.active_pane().location,
        forall|i: usize|
            #[trigger] n.active_pane().visible_indices@.contains(i) <==> i
                < o.active_pane().entries@.len() && shown_under(
                n.active_pane().filter@,
                o.active_pane().entries@[i as int].name@,
            ),
{
    filters_show_all_matches(o.active_pane(), n.active_pane(), n.active_pane().filter@);
}

/// A click makes its pane the active one. With the command key it marks or
/// unmarks its row and leaves every other mark; without, it moves the cursor
/// there, and marks that row, or with the shift key all from the anchor to it.
pub proof fn clicks_mark_their_row(
    o: App,
    side: Side,
    row: usize,
    w: Surroundings,
    n: App,
    fx: Seq<Effect>,
)
    requires
        1 <= row <= o.pane_of(side).visible_indices@.len(),
        updated(o, Message::RowClicked(side, row), w, n, fx),
    ensures
        n.active == side,
        n.pane_of(side).selected == row,
        n.pane_of(side).entries == o.pane_of(side).entries,
        side == Side::Left ==> n.right == o.right,
        side == Side::Right ==> n.left == o.left,
        forall|r: usize|
            #[trigger] n.pane_of(side).marked@.contains(r) <==> if o.command_held {
                if r == row {
                    !o.pane_of(side).marked@.contains(r)
                } else {
                    o.pane_of(side).marked@.contains(r)
                }
            } else if o.shift_held {
                r != 0 && (row <= r <= o.pane_of(side).anchor || o.pane_of(side).anchor <= r
                    <= row)
            } else {
                r == row
            },
{
    if !o.command_held {
        moves_mark_what_they_pass(o.pane_of(side), n.pane_of(side), row as int, o.shift_held);
    }
}

/// The arrow keys move the cursor of the active pane by their number of rows, a
/// page by as many rows as are shown, the edges to the first and the last row,
/// as far as there are rows; the other pane stays.
pub proof fn keys_move_the_cursor(o: App, m: Message, w: Surroundings, n: App, fx: Seq<Effect>)
    requires
        o.prompt is None,
        m is MoveSelection || m is PageMove || m is MoveToEdge,
        updated(o, m, w, n, fx),
    ensures
        ({
            let rows = o.active_pane().visible_indices@.len();
            let target = match m {
                Message::MoveSelection(delta, _) => o.active_pane().selected + delta,
                Message::PageMove(dir, _) => o.active_pane().selected + dir * w.page_rows,
                Message::MoveToEdge(top, _) => if top {
                    0
                } else {
                    rows as int
                },
                _ => 0,
            };
            &&& n.active == o.active
            &&& n.active_pane().entries == o.active_pane().entries
            &&& n.active_pane().selected <= rows
            &&& 0 <= target <= rows ==> n.active_pane().selected == target
            &&& target < 0 ==> n.active_pane().selected == 0
            &&& target > rows ==> n.active_pane().selected == rows
        }),
        o.active == Side::Left ==> n.right == o.right,
        o.active == Side::Right ==> n.left == o.left,
{
}

/// The places are those of the marked rows of a pane: each row's own, from the
/// top down, and no other.
pub open spec fn are_the_marked(places: Seq<LocationView>, p: Pane) -> bool {
    exists|rows: Seq<int>|
        {
            &&& #[trigger] rows.len() == places.len()
            &&& forall|i: int, j: int|
                0 <= i < j < rows.len() ==> #[trigger] rows[i] < #[trigger] rows[j]
            &&& forall|i: int|
                0 <= i < rows.len() ==> 1 <= #[trigger] rows[i] <= p.visible_indices@.len()
                    && p.marked@.contains(rows[i] as usize) && is_child(
                    places[i],
                    p.location@,
                    p.entries@[p.visible_indices@[rows[i] - 1] as int].name@,
                )
            &&& forall|r: usize| #[trigger] p.marked@.contains(r) ==> rows.contains(r as int)
        }
}

proof fn lemma_are_the_marked(p: Pane, places: Seq<LocationView>)
    requires
        p.wf(),
        p.visible_indices@.len() <= usize::MAX,
        places.len() == p.spec_marked_entries().len(),
        forall|i: int|
            0 <= i < places.len() ==> is_child(
                #[trigger] places[i],
                p.location@,
                p.spec_marked_entries()[i].name@,
            ),
    ensures
        are_the_marked(places, p),
        p.marked@.is_empty() <==> places.len() == 0,
{
    marked_rows_are_all_taken(p);
    let rows = choose|rows: Seq<int>|
        {
            &&& #[trigger] rows.len() == p.spec_marked_entries().len()
            &&& forall|i: int, j: int|
                0 <= i < j < rows.len() ==> #[trigger] rows[i] < #[trigger] rows[j]
            &&& forall|i: int|
                0 <= i < rows.len() ==> 1 <= #[trigger] rows[i] <= p.visible_indices@.len()
                    && p.marked@.contains(rows[i] as usize) && p.spec_marked_entries()[i]
                    == p.entries@[p.visible_indices@[rows[i] - 1] as int]
            &&& forall|r: usize| #[trigger] p.marked@.contains(r) ==> rows.contains(r as int)
        };
    assert(rows.len() == places.len());
    assert forall|i: int| 0 <= i < rows.len() implies 1 <= #[trigger] rows[i]
        <= p.visible_indices@.len() && p.marked@.contains(rows[i] as usize) && is_child(
        places[i],
        p.location@,
        p.entries@[p.visible_indices@[rows[i] - 1] as int].name@,
    ) by {
        assert(is_child(places[i], p.location@, p.spec_marked_entries()[i].name@));
    }
    if !p.marked@.is_empty() {
        let r = choose|r: usize| p.marked@.contains(r);
        assert(rows.contains(r as int));
    }
    if rows.len() > 0 {
        assert(p.marked@.contains(rows[0] as usize));
    }
}

proof fn lemma_marked_names(p: Pane, i: int)
    requires
        p.wf(),
        plain_listing(p),
        p.visible_indices@.len() <= usize::MAX,
        0 <= i < p.spec_marked_entries().len(),
    ensures
        is_plain_name(p.spec_marked_entries()[i].name@),
{
    marked_rows_are_all_taken(p);
    let rows = choose|rows: Seq<int>|
        {
            &&& #[trigger] rows.len() == p.spec_marked_entries().len()
            &&& forall|i: int, j: int|
                0 <= i < j < rows.len() ==> #[trigger] rows[i] < #[trigger] rows[j]
            &&& forall|i: int|
                0 <= i < rows.len() ==> 1 <= #[trigger] rows[i] <= p.visible_indices@.len()
                    && p.marked@.contains(rows[i] as usize) && p.spec_marked_entries()[i]
                    == p.entries@[p.visible_indices@[rows[i] - 1] as int]
            &&& forall|r: usize| #[trigger] p.marked@.contains(r) ==> rows.contains(r as int)
        };
    let k = p.visible_indices@[rows[i] - 1];
    assert(k < p.entries@.len());
    assert(is_plain_name(p.entries@[k as int].name@));
}

proof fn lemma_marked_places(o: App)
    requires
        o.active_pane().wf(),
        plain_listing(o.active_pane()),
        o.active_pane().visible_indices@.len() <= usize::MAX,
    ensures
        are_the_marked(marked_places(o), o.active_pane()),
        o.active_pane().location is Local ==> are_the_marked(
            marked_path_texts(o).map_values(|t: Seq<char>| LocationView::Local(t)),
            o.active_pane(),
        ),
        o.active_pane().marked@.is_empty() <==> marked_places(o).len() == 0,
        marked_places(o).len() == marked_path_texts(o).len(),
{
    let p = o.active_pane();
    let places = marked_places(o);
    assert forall|i: int| 0 <= i < places.len() implies is_child(
        #[trigger] places[i],
        p.location@,
        p.spec_marked_entries()[i].name@,
    ) by {
        lemma_marked_names(p, i);
        join_then_parent(p.location@.path(), p.spec_marked_entries()[i].name@);
    }
    lemma_are_the_marked(p, places);
    if p.location is Local {
        let paths = marked_path_texts(o).map_values(|t: Seq<char>| LocationView::Local(t));
        assert forall|i: int| 0 <= i < paths.len() implies is_child(
            #[trigger] paths[i],
            p.location@,
            p.spec_marked_entries()[i].name@,
        ) by {
            lemma_marked_names(p, i);
            join_then_parent(p.location@.path(), p.spec_marked_entries()[i].name@);
        }
        lemma_are_the_marked(p, paths);
    }
}

/// A text names a place: an absolute path names itself, a host and a path on it
/// the place there.
pub open spec fn names_place(t: Seq<char>, l: LocationView) -> bool {
    &&& t.len() > 0
    &&& !is_white(t[0])
    &&& !is_white(t.last())
    &&& match l {
        LocationView::Local(p) => t == p && p[0] == '/',
        LocationView::Remote { backend, path } => {
            &&& t == backend + seq![':'] + path
            &&& can_be_host(backend)
            &&& path.len() > 0
            &&& path[0] == '/' || path[0] == '~'
            &&& backend.len() > 1 || path[0] == '~' || !('a' <= backend[0] <= 'z' || 'A'
                <= backend[0] <= 'Z')
        },
    }
}

/// The text of a place is the destination that it names; a name alone is one in
/// the place that is shown, and a path after `~` one below the home directory.
/// White space around it makes no difference, and none is named by white space.
pub proof fn destinations_are_read(o: App, t: Seq<char>, l: LocationView, home: Seq<char>)
    ensures
        names_place(t, l) ==> destination(o, t, home) == Some(l),
        is_plain_name(t) && !t.contains(':') && t[0] != '~' && !is_white(t[0]) && !is_white(
            t.last(),
        ) ==> (destination(o, t, home) matches Some(d) && is_child(
            d,
            o.active_pane().location@,
            t,
        )),
        t.len() > 1 && t[0] == '~' && !is_white(t.last()) && home.len() > 0 && home[0] == '/'
            ==> destination(o, t, home) == Some(LocationView::Local(home + t.skip(1))),
        destination(o, seq![], home) is None,
{
    if t.len() > 0 && !is_white(t[0]) && !is_white(t.last()) {
        assert(t =~= Seq::<char>::empty() + t + Seq::<char>::empty());
        trimming_takes_white_ends_only(seq![], t, seq![]);
    }
    if names_place(t, l) {
        match l {
            LocationView::Local(p) => {
                other_texts_are_local(p);
            },
            LocationView::Remote { backend, path } => {
                host_texts_are_remote(backend, path);
                assert(t[0] == backend[0]);
            },
        }
    }
    if is_plain_name(t) && !t.contains(':') {
        other_texts_are_local(t);
        assert(t.contains(t[0]));
        join_then_parent(o.active_pane().location@.path(), t);
    }
    if t.len() > 1 && t[0] == '~' && home.len() > 0 && home[0] == '/' {
        let p = home + t.skip(1);
        assert(p[0] == '/');
        other_texts_are_local(p);
        assert(!is_white('~'));
    }
}

/// Confirming the copy or the move dialog with an existing directory, or with a
/// place on a backend that a pane shows, copies or moves the marked entries, all
/// of them and nothing else, to that place.
pub proof fn transfers_take_the_marked(
    o: App,
    input: String,
    l: LocationView,
    moving: bool,
    w: Surroundings,
    n: App,
    fx: Seq<Effect>,
)
    requires
        o.prompt == Some(
            if moving {
                Prompt::Move { input }
            } else {
                Prompt::Copy { input }
            },
        ),
        names_place(input@, l),
        match l {
            LocationView::Local(p) => exists|i: int|
                0 <= i < w.dirs@.len() && (#[trigger] w.dirs@[i])@ == p,
            LocationView::Remote { .. } => l == o.left.location@ || l == o.right.location@,
        },
        o.active_pane().wf(),
        plain_listing(o.active_pane()),
        !o.active_pane().marked@.is_empty(),
        o.active_pane().visible_indices@.len() <= usize::MAX,
        updated(o, Message::PromptSubmit, w, n, fx),
    ensures
        fx.len() == 1,
        match fx[0] {
            Effect::Copy { srcs, dest } => !moving && dest@ == l && are_the_marked(
                location_views(srcs@),
                o.active_pane(),
            ),
            Effect::Move { srcs, dest } => moving && dest@ == l && are_the_marked(
                location_views(srcs@),
                o.active_pane(),
            ),
            _ => false,
        },
        n.left == o.left,
        n.right == o.right,
{
    let closed = App { prompt: None, last_error: None, ..o };
    destinations_are_read(closed, input@, l, w.home@);
    lemma_marked_places(closed);
    assert(closed.active_pane() == o.active_pane());
    assert(confirmed(o, n, fx, w));
}

/// With one entry marked, a path that does not exist yet, in a directory that
/// does, is the new path of that entry.
pub proof fn single_sources_take_new_names(
    o: App,
    input: String,
    p: Seq<char>,
    dir: Seq<char>,
    moving: bool,
    w: Surroundings,
    n: App,
    fx: Seq<Effect>,
)
    requires
        o.prompt == Some(
            if moving {
                Prompt::Move { input }
            } else {
                Prompt::Copy { input }
            },
        ),
        names_place(input@, LocationView::Local(p)),
        forall|i: int| 0 <= i < w.dirs@.len() ==> (#[trigger] w.dirs@[i])@ != p,
        forall|i: int| 0 <= i < w.existing@.len() ==> (#[trigger] w.existing@[i])@ != p,
        crate::path::parent_path(p) == Some(dir),
        exists|i: int| 0 <= i < w.dirs@.len() && (#[trigger] w.dirs@[i])@ == dir,
        o.active_pane().wf(),
        plain_listing(o.active_pane()),
        marked_places(o).len() == 1,
        o.active_pane().visible_indices@.len() <= usize::MAX,
        updated(o, Message::PromptSubmit, w, n, fx),
    ensures
        fx.len() == 1,
        match fx[0] {
            Effect::CopyAs { src, dest } => !moving && dest@ == LocationView::Local(p)
                && are_the_marked(seq![src@], o.active_pane()),
            Effect::Rename { src, dest } => moving && dest@ == LocationView::Local(p)
                && are_the_marked(seq![src@], o.active_pane()),
            _ => false,
        },
{
    let closed = App { prompt: None, last_error: None, ..o };
    destinations_are_read(closed, input@, LocationView::Local(p), w.home@);
    lemma_marked_places(closed);
    assert(closed.active_pane() == o.active_pane());
    assert(confirmed(o, n, fx, w));
    let src = match fx[0] {
        Effect::CopyAs { src, .. } => src@,
        Effect::Rename { src, .. } => src@,
        _ => LocationView::Local(p),
    };
    assert(marked_places(closed) =~= seq![src]);
}

/// The delete dialog lists the marked entries, all of them and nothing else, and
/// opens where there is one. Confirming it deletes all that it lists.
pub proof fn the_marked_are_deleted(o: App, w: Surroundings, n: App, fx: Seq<Effect>)
    requires
        o.prompt is None,
        o.active_pane().wf(),
        plain_listing(o.active_pane()),
        o.active_pane().visible_indices@.len() <= usize::MAX,
        updated(o, Message::OpenDeletePrompt, w, n, fx),
    ensures
        fx.len() == 0,
        n.left == o.left,
        n.right == o.right,
        n.prompt is None <==> o.active_pane().marked@.is_empty(),
        n.prompt is Some ==> {
            &&& n.prompt matches Some(Prompt::Delete { paths, .. })
            &&& are_the_marked(location_views(paths@), o.active_pane())
        },
        forall|after: App, done: Seq<Effect>|
            #![trigger updated(n, Message::PromptSubmit, w, after, done)]
            n.prompt is Some && updated(n, Message::PromptSubmit, w, after, done) ==> done.len()
                == 1 && (done[0] matches Effect::Delete(paths) && are_the_marked(
                location_views(paths@),
                o.active_pane(),
            )),
{
    lemma_marked_places(o);
    assert forall|after: App, done: Seq<Effect>|
        #![trigger updated(n, Message::PromptSubmit, w, after, done)]
        n.prompt is Some && updated(n, Message::PromptSubmit, w, after, done) implies done.len() == 1
        && (done[0] matches Effect::Delete(paths) && are_the_marked(
        location_views(paths@),
        o.active_pane(),
    )) by {
        assert(confirmed(n, after, done, w));
        if let Some(Prompt::Delete { paths, .. }) = n.prompt {
            assert(location_views(paths@).len() == paths@.len());
        }
    }
}

/// A new folder or file is made in the place that is shown, under the name that
/// was typed, where nothing has that name; in a local pane only.
pub proof fn new_items_are_made_here(
    o: App,
    input: String,
    folder: bool,
    w: Surroundings,
    n: App,
    fx: Seq<Effect>,
)
    requires
        o.prompt == Some(
            if folder {
                Prompt::NewFolder { input }
            } else {
                Prompt::NewFile { input }
            },
        ),
        is_plain_name(input@),
        !is_white(input@[0]),
        !is_white(input@.last()),
        o.active_pane().location is Local,
        updated(o, Message::PromptSubmit, w, n, fx),
    ensures
        forall|i: int|
            0 <= i < fx.len() ==> ((#[trigger] fx[i]) is MakeDir && folder) || (fx[i] is MakeFile
                && !folder),
        fx.len() == 1 ==> match fx[0] {
            Effect::MakeDir(p) | Effect::MakeFile(p) => is_child(
                LocationView::Local(p@),
                o.active_pane().location@,
                input@,
            ),
            _ => false,
        },
        fx.len() <= 1,
        fx.len() == 0 ==> exists|i: int|
            0 <= i < w.existing@.len() && is_child(
                LocationView::Local((#[trigger] w.existing@[i])@),
                o.active_pane().location@,
                input@,
            ),
{
    let t = input@;
    assert(t =~= Seq::<char>::empty() + t + Seq::<char>::empty());
    trimming_takes_white_ends_only(seq![], t, seq![]);
    join_then_parent(o.active_pane().location@.path(), t);
    assert(confirmed(o, n, fx, w));
}

/// A listing that is complete keeps all of its entries, stands in the order of
/// its column with the directories first, and no longer loads.
pub proof fn complete_listings_are_sorted(
    o: App,
    side: Side,
    generation: u64,
    w: Surroundings,
    n: App,
    fx: Seq<Effect>,
)
    requires
        o.pane_of(side).load_generation == generation,
        updated(o, Message::EntriesDone(side, generation), w, n, fx),
    ensures
        ({
            let p = o.pane_of(side);
            let q = n.pane_of(side);
            &&& !q.loading
            &&& q.sort_by == p.sort_by
            &&& q.sort_dir == p.sort_dir
            &&& q.location == p.location
            &&& q.filter == p.filter
            &&& listing_sorted(p.entries@, q.entries@, p.sort_by, p.sort_dir)
            &&& q.entries@.to_multiset() == p.entries@.to_multiset()
        }),
{
    let p = o.pane_of(side);
    let q = n.pane_of(side);
    let less = |a: Entry, b: Entry| crate::entry::entry_less(a, b, p.sort_by, p.sort_dir);
    crate::sorting::sorted_stably_keeps_items(p.entries@, q.entries@, less);
}

/// The chunks of the load that a pane waits for are added to its listing, in the
/// order in which they come.
pub proof fn chunks_reach_their_pane(
    o: App,
    side: Side,
    generation: u64,
    chunk: Vec<Entry>,
    w: Surroundings,
    n: App,
    fx: Seq<Effect>,
)
    requires
        updated(o, Message::EntriesChunk(side, generation, chunk), w, n, fx),
    ensures
        o.pane_of(side).load_generation == generation ==> n.pane_of(side).entries@ == o.pane_of(
            side,
        ).entries@ + chunk@,
        o.pane_of(side).load_generation != generation ==> n == o,
        side == Side::Left ==> n.right == o.right,
        side == Side::Right ==> n.left == o.left,
{
    if chunk@.len() == 0 {
        assert(o.pane_of(side).entries@ + chunk@ =~= o.pane_of(side).entries@);
    }
}

/// When a file operation has ended, both panes list their places again, and the
/// first failure is told where there is one; nothing is told where there is none.
pub proof fn ended_operations_are_told(
    o: App,
    m: Message,
    results: Vec<Outcome>,
    w: Surroundings,
    n: App,
    fx: Seq<Effect>,
)
    requires
        m == Message::CopyFinished(results) || m == Message::MoveFinished(results) || m
            == Message::DeleteFinished(results) || m == Message::UncompressFinished(results),
        updated(o, m, w, n, fx),
    ensures
        n.left.location == o.left.location,
        n.right.location == o.right.location,
        fx.contains(
            Effect::Load {
                side: Side::Left,
                location: o.left.location,
                generation: n.left.load_generation,
            },
        ),
        fx.contains(
            Effect::Load {
                side: Side::Right,
                location: o.right.location,
                generation: n.right.load_generation,
            },
        ),
        (forall|i: int| 0 <= i < results@.len() ==> (#[trigger] results@[i]).1 is Ok)
            ==> n.last_error == o.last_error,
        forall|k: int|
            #![trigger results@[k]]
            0 <= k < results@.len() && results@[k].1 is Err && (forall|i: int|
                0 <= i < k ==> (#[trigger] results@[i]).1 is Ok) ==> (n.last_error matches Some(t)
                && results@[k].1->Err_0@.is_suffix_of(t@)),
        m is CopyFinished ==> n.copy_in_progress is None,
        m is MoveFinished ==> n.move_in_progress is None,
        m is DeleteFinished ==> n.delete_in_progress is None,
        m is UncompressFinished ==> n.uncompress_in_progress is None,
{
    let a = crate::app::reload_effects(n.left, Side::Left);
    let b = crate::app::reload_effects(n.right, Side::Right);
    assert(fx[0] == a[0]);
    assert(fx[a.len() as int] == b[0]);
    if forall|i: int| 0 <= i < results@.len() ==> (#[trigger] results@[i]).1 is Ok {
        lemma_no_failure(results@);
    }
    assert forall|k: int|
        #![trigger results@[k]]
        0 <= k < results@.len() && results@[k].1 is Err && (forall|i: int|
            0 <= i < k ==> (#[trigger] results@[i]).1 is Ok) implies (n.last_error matches Some(t)
        && results@[k].1->Err_0@.is_suffix_of(t@)) by {
        lemma_first_failure(results@, k);
        let e = results@[k].1->Err_0@;
        let t = n.last_error->0@;
        assert(t.skip(t.len() - e.len()) =~= e);
    }
}

proof fn lemma_no_failure(results: Seq<Outcome>)
    requires
        forall|i: int| 0 <= i < results.len() ==> (#[trigger] results[i]).1 is Ok,
    ensures
        crate::app::first_failure(results) is None,
    decreases results.len(),
{
    if results.len() > 0 {
        assert(results[0].1 is Ok);
        assert forall|i: int| 0 <= i < results.skip(1).len() implies (#[trigger] results.skip(
            1,
        )[i]).1 is Ok by {
            assert(results[i + 1].1 is Ok);
        }
        lemma_no_failure(results.skip(1));
    }
}

proof fn lemma_first_failure(results: Seq<Outcome>, k: int)
    requires
        0 <= k < results.len(),
        results[k].1 is Err,
        forall|i: int| 0 <= i < k ==> (#[trigger] results[i]).1 is Ok,
    ensures
        crate::app::first_failure(results) == Some(results[k].1->Err_0@),
    decreases results.len(),
{
    if k > 0 {
        assert(results[0].1 is Ok);
        let rest = results.skip(1);
        assert forall|i: int| 0 <= i < k - 1 implies (#[trigger] rest[i]).1 is Ok by {
            assert(results[i + 1].1 is Ok);
        }
        assert(rest[k - 1] == results[k]);
        lemma_first_failure(rest, k - 1);
    }
}

/// A query finds a text: it is empty, or stands anywhere in it when case is
/// ignored.
pub open spec fn finds(text: Seq<char>, query: Seq<char>) -> bool {
    query.len() == 0 || contains_text(lowercase(text), lowercase(query))
}

/// Enter in a dialog with a list acts on the highlighted item of those that the
/// query finds.
pub proof fn the_highlighted_is_acted_on(
    o: App,
    w: Surroundings,
    n: App,
    fx: Seq<Effect>,
)
    requires
        updated(o, Message::PromptSubmit, w, n, fx),
    ensures
        o.prompt matches Some(
            Prompt::Processes { state: ProcessesState::Loaded(list), input, selected, .. },
        ) ==> {
            let shown = list@.filter(|x: Process| finds(x.name@, input@));
            selected < shown.len() ==> fx == seq![Effect::KillProcess(shown[selected as int].pid)]
        },
        o.prompt matches Some(Prompt::Apps { state: AppsState::Loaded(list), input, selected })
            ==> {
            let shown = list@.filter(|x: Application| finds(x.name@, input@));
            selected < shown.len() ==> fx == seq![Effect::LaunchApp(shown[selected as int].path)]
        },
        o.prompt matches Some(
            Prompt::GitBranches { state: GitBranchesState::Loaded(list), input, selected, repo_path },
        ) ==> {
            let shown = list@.filter(|x: GitBranch| finds(x.name@, input@));
            selected < shown.len() ==> fx == seq![
                Effect::Checkout { repo: repo_path, branch: shown[selected as int].name },
            ]
        },
        o.prompt matches Some(
            Prompt::SshServers { state: SshServersState::Loaded(list), input, selected },
        ) ==> {
            let shown = list@.filter(
                |x: SshServer|
                    finds(x.alias@, input@) || (x.hostname matches Some(h) && finds(h@, input@)),
            );
            selected < shown.len() ==> fx == seq![Effect::SshConnect(shown[selected as int].alias)]
        },
{
    assert(confirmed(o, n, fx, w));
    match o.prompt {
        Some(Prompt::Processes { state: ProcessesState::Loaded(list), input, .. }) => {
            assert((|x: Process| query_matches(x.name@, input@)) =~= (|x: Process|
                finds(x.name@, input@)));
        },
        Some(Prompt::Apps { state: AppsState::Loaded(list), input, .. }) => {
            assert((|x: Application| query_matches(x.name@, input@)) =~= (|x: Application|
                finds(x.name@, input@)));
        },
        Some(Prompt::GitBranches { state: GitBranchesState::Loaded(list), input, .. }) => {
            assert((|x: GitBranch| query_matches(x.name@, input@)) =~= (|x: GitBranch|
                finds(x.name@, input@)));
        },
        Some(Prompt::SshServers { state: SshServersState::Loaded(list), input, .. }) => {
            assert((|x: SshServer| server_matches(x, input@)) =~= (|x: SshServer|
                finds(x.alias@, input@) || (x.hostname matches Some(h) && finds(h@, input@))));
        },
        _ => {},
    }
}

/// Confirming the dialogs for archives packs or unpacks the marked entries, all of
/// them and nothing else: into the archive that was typed, or into the directory
/// that was typed where it is there.
pub proof fn archives_take_the_marked(
    o: App,
    input: String,
    packing: bool,
    w: Surroundings,
    n: App,
    fx: Seq<Effect>,
)
    requires
        o.prompt == Some(
            if packing {
                Prompt::Compress { input }
            } else {
                Prompt::Uncompress { input }
            },
        ),
        input@.len() > 0,
        input@[0] == '/',
        !is_white(input@.last()),
        o.active_pane().location is Local,
        o.active_pane().wf(),
        plain_listing(o.active_pane()),
        !o.active_pane().marked@.is_empty(),
        o.active_pane().visible_indices@.len() <= usize::MAX,
        !packing ==> exists|i: int|
            0 <= i < w.dirs@.len() && (#[trigger] w.dirs@[i])@ == input@,
        updated(o, Message::PromptSubmit, w, n, fx),
    ensures
        fx.len() == 1,
        match fx[0] {
            Effect::Compress { srcs, output, working_dir } => {
                &&& packing
                &&& output@ == input@
                &&& LocationView::Local(working_dir@) == o.active_pane().location@
                &&& are_the_marked(
                    texts(srcs@).map_values(|t: Seq<char>| LocationView::Local(t)),
                    o.active_pane(),
                )
            },
            Effect::Uncompress { archives, dest } => {
                &&& !packing
                &&& dest@ == input@
                &&& are_the_marked(
                    texts(archives@).map_values(|t: Seq<char>| LocationView::Local(t)),
                    o.active_pane(),
                )
            },
            _ => false,
        },
{
    let t = input@;
    let closed = App { prompt: None, last_error: None, ..o };
    assert(!is_white('/'));
    assert(t =~= Seq::<char>::empty() + t + Seq::<char>::empty());
    trimming_takes_white_ends_only(seq![], t, seq![]);
    lemma_marked_places(closed);
    assert(closed.active_pane() == o.active_pane());
    assert(confirmed(o, n, fx, w));
}

/// The files of a drop are copied to the local pane that they were dropped on, all
/// of them, once no further one follows.
pub proof fn dropped_files_are_copied(
    o: App,
    seq: u64,
    side: Side,
    w: Surroundings,
    n: App,
    fx: Seq<Effect>,
)
    requires
        seq == o.drop_seq,
        o.dropped_files@.len() > 0,
        o.pane_of(side).location is Local,
        updated(o, Message::FlushDrops(seq, side), w, n, fx),
    ensures
        n.dropped_files@.len() == 0,
        fx.len() == 1,
        fx[0] matches Effect::Copy { srcs, dest } && {
            &&& dest == o.pane_of(side).location
            &&& srcs@.len() == o.dropped_files@.len()
            &&& forall|i: int|
                0 <= i < srcs@.len() ==> (#[trigger] srcs@[i])@ == LocationView::Local(
                    o.dropped_files@[i]@,
                )
        },
{
    if let Effect::Copy { srcs, .. } = fx[0] {
        assert(location_views(srcs@).len() == srcs@.len());
        assert forall|i: int| 0 <= i < srcs@.len() implies (#[trigger] srcs@[i])@
            == LocationView::Local(o.dropped_files@[i]@) by {
            assert(location_views(srcs@)[i] == srcs@[i]@);
        }
    }
}

/// A folder that has changed is listed again in each local pane that shows it, in
/// place: its filter and its order stay, and the cursor returns to its entry. A
/// pane that shows another place is left alone.
pub proof fn changed_folders_are_listed_again(
    o: App,
    folder: String,
    w: Surroundings,
    n: App,
    fx: Seq<Effect>,
    side: Side,
)
    requires
        updated(o, Message::WatchedDirChanged(folder), w, n, fx),
    ensures
        ({
            let p = o.pane_of(side);
            let q = n.pane_of(side);
            if p.location is Local && components(p.location@.path()) == components(folder@) {
                &&& q.location == p.location
                &&& q.filter == p.filter
                &&& q.sort_by == p.sort_by
                &&& q.sort_dir == p.sort_dir
                &&& q.loading
                &&& q.entries@.len() == 0
                &&& forall|e: Entry| #[trigger]
                    cursor_on(p, e) ==> (q.pending_focus matches Some(name) && name@ == e.name@)
                &&& fx.contains(
                    Effect::Load { side, location: p.location, generation: q.load_generation },
                )
            } else {
                q == p
            }
        }),
        n.active == o.active,
        n.prompt == o.prompt,
{
    let a = crate::app_update::refresh_effects(o.left, n.left, Side::Left);
    let b = crate::app_update::refresh_effects(o.right, n.right, Side::Right);
    let p = o.pane_of(side);
    let q = n.pane_of(side);
    if p.location is Local && components(p.location@.path()) == components(folder@) {
        if side == Side::Left {
            assert(fx[0] == a[0]);
        } else {
            assert(fx[a.len() as int] == b[0]);
        }
    }
}

/// Picking a side for new files sends that pane to their folder and makes it the
/// active one; the cursor goes to the newest of them.
pub proof fn picked_sides_show_the_new_files(
    o: App,
    folder: String,
    files: Vec<String>,
    focus: crate::prompt::NewFilesFocus,
    side: Side,
    w: Surroundings,
    n: App,
    fx: Seq<Effect>,
)
    requires
        o.prompt == Some(Prompt::NewFiles { folder, files, focus }),
        files@.len() > 0,
        updated(o, Message::NewFilesPickSide(side), w, n, fx),
    ensures
        sent_to(o, n, fx, side, LocationView::Local(folder@)),
        n.active == side,
        n.pane_of(side).pending_focus == Some(files@.last()),
{
    let (m, k) = choose|m: App, k: App|
        #![trigger crate::app::next_shown(k, n), m.pane_of(side)]
        {
            &&& crate::app_panes::navigated_to_view(
                App { prompt: None, ..o },
                m,
                fx.drop_last(),
                side,
                LocationView::Local(folder@),
            )
            &&& fx.len() > 0
            &&& fx.last() == Effect::SaveState
            &&& k == (App {
                active: side,
                ..crate::app::with_pane(
                    m,
                    side,
                    if files@.len() > 0 {
                        Pane {
                            pending_focus: Some(files@.last()),
                            focus_jump: true,
                            ..m.pane_of(side)
                        }
                    } else {
                        m.pane_of(side)
                    },
                )
            })
            &&& crate::app::next_shown(k, n)
        };
    lemma_loads(fx.drop_last(), m.pane_of(side), side, o.active);
    let load = Effect::Load {
        side,
        location: m.pane_of(side).location,
        generation: m.pane_of(side).load_generation,
    };
    let i = choose|i: int| 0 <= i < fx.drop_last().len() && fx.drop_last()[i] == load;
    assert(fx[i] == load);
}

/// Running an action of the chooser runs its command on the file: filled in for
/// that file, or as it was edited, in the file's directory.
pub proof fn chosen_actions_run_on_their_file(
    o: App,
    path: String,
    choices: Vec<FileChoice>,
    selected: usize,
    edit: Option<String>,
    w: Surroundings,
    n: App,
    fx: Seq<Effect>,
)
    requires
        o.prompt == Some(Prompt::FileActions { path, choices, selected, edit }),
        selected < choices@.len(),
        updated(o, Message::PromptSubmit, w, n, fx),
    ensures
        fx.len() == 1,
        match choices@[selected as int] {
            FileChoice::OpenDefault => fx[0] == Effect::OpenDefault(path),
            FileChoice::Custom { command, terminal, .. } => {
                &&& fx[0] matches Effect::RunCommand { command: c, dir, terminal: t }
                &&& t == terminal
                &&& edit matches Some(e) ==> c@ == e@
                &&& edit is None ==> c@ == expanded(command@, file_tokens(path@))
                &&& crate::path::parent_path(path@) matches Some(d) ==> dir@ == d
            },
        },
{
    assert(confirmed(o, n, fx, w));
}

/// The dialog that goes to a folder opens the typed one where it is there, and
/// otherwise the highlighted one of the places that the text finds.
pub proof fn typed_folders_are_opened(
    o: App,
    input: String,
    recents: Vec<String>,
    selected: usize,
    w: Surroundings,
    n: App,
    fx: Seq<Effect>,
)
    requires
        o.prompt == Some(Prompt::Open { input, recents, selected }),
        input@.len() > 0,
        input@[0] != '~',
        !is_white(input@[0]),
        !is_white(input@.last()),
        updated(o, Message::PromptSubmit, w, n, fx),
    ensures
        ({
            let typed = exists|i: int| 0 <= i < w.dirs@.len() && (#[trigger] w.dirs@[i])@ == input@;
            let found = recents@.filter(|p: String| finds(p@, input@));
            let there = selected < found.len() && exists|i: int|
                0 <= i < w.dirs@.len() && (#[trigger] w.dirs@[i])@ == found[selected as int]@;
            &&& typed ==> sent_to(o, n, fx, o.active, LocationView::Local(input@))
            &&& !typed && there ==> sent_to(
                o,
                n,
                fx,
                o.active,
                LocationView::Local(found[selected as int]@),
            )
            &&& !typed && !there ==> fx.len() == 0 && n.left == o.left && n.right == o.right
        }),
{
    let t = input@;
    assert(t =~= Seq::<char>::empty() + t + Seq::<char>::empty());
    trimming_takes_white_ends_only(seq![], t, seq![]);
    assert((|p: String| query_matches(p@, t)) =~= (|p: String| finds(p@, t)));
    assert(confirmed(o, n, fx, w));
    if fx.len() > 0 {
        lemma_loads(fx, n.pane_of(o.active), o.active, o.active);
    }
}

/// What the palette opens, it opens at the place of the active pane where that is
/// local; the dialogs that copy and move offer the place of the other pane.
pub proof fn palette_actions_act_here(
    o: App,
    action: PaletteAction,
    w: Surroundings,
    n: App,
    fx: Seq<Effect>,
)
    requires
        o.prompt is Some,
        action != PaletteAction::OpenDropbox,
        updated(o, Message::PaletteSelect(action), w, n, fx),
    ensures
        n.left == o.left,
        n.right == o.right,
        n.active == o.active,
        o.active_pane().location matches Location::Local(p) ==> {
            &&& action == PaletteAction::OpenTerminal ==> fx == seq![Effect::OpenTerminal(p)]
            &&& action == PaletteAction::OpenInEditor ==> fx == seq![Effect::OpenInEditor(p)]
            &&& action == PaletteAction::RevealInFinder ==> fx == seq![Effect::RevealInFinder(p)]
            &&& action == PaletteAction::OpenClaudeCode ==> fx == seq![Effect::OpenClaudeCode(p)]
            &&& action == PaletteAction::GitBranch ==> {
                &&& fx.contains(Effect::ListBranches(p))
                &&& n.prompt matches Some(Prompt::GitBranches { repo_path, .. })
                &&& repo_path == p
            }
            &&& action == PaletteAction::FtpServer && o.ftp_server is None ==> {
                &&& fx.len() == 1
                &&& fx[0] matches Effect::StartFtp(root)
                &&& root@ == p@
            }
        },
        action == PaletteAction::Exit ==> fx == seq![Effect::Exit],
        action == PaletteAction::Copy ==> (n.prompt matches Some(Prompt::Copy { input })
            && input@ == show_location(o.pane_of(o.active.spec_other()).location@)),
        action == PaletteAction::Move ==> (n.prompt matches Some(Prompt::Move { input })
            && input@ == show_location(o.pane_of(o.active.spec_other()).location@)),
        action == PaletteAction::DockerContainers ==> n.prompt is Some && fx.contains(
            Effect::ListContainers,
        ),
        action == PaletteAction::Processes ==> n.prompt is Some && fx.contains(
            Effect::ListProcesses,
        ),
        action == PaletteAction::LaunchApplication ==> n.prompt is Some && fx.contains(
            Effect::ScanApps,
        ),
        action == PaletteAction::SshConnect ==> n.prompt is Some && fx.contains(
            Effect::ReadSshConfig,
        ),
        action == PaletteAction::KeyboardShortcuts ==> n.prompt == Some(Prompt::KeyboardShortcuts),
{
    if fx.len() > 0 {
        assert(fx.contains(fx[0]));
    }
}

/// The palette runs the highlighted one of the actions with the text in their
/// label.
pub proof fn the_highlighted_action_runs(
    o: App,
    input: String,
    selected: usize,
    actions: Vec<PaletteAction>,
    dropbox_configured: bool,
    w: Surroundings,
    n: App,
    fx: Seq<Effect>,
)
    requires
        o.prompt == Some(
            Prompt::CommandPalette { input, selected, actions, dropbox_configured },
        ),
        updated(o, Message::PromptSubmit, w, n, fx),
    ensures
        ({
            let found = actions@.filter(
                |a: PaletteAction| finds(crate::palette::action_label(a), input@),
            );
            selected < found.len() && (found[selected as int] == PaletteAction::OpenDropbox
                ==> dropbox_configured) ==> palette_done(
                App { prompt: None, last_error: None, ..o },
                n,
                fx,
                found[selected as int],
            )
        }),
{
    assert(confirmed(o, n, fx, w));
    assert((|a: PaletteAction| query_matches(crate::palette::action_label(a), input@)) =~= (|
        a: PaletteAction,
    | finds(crate::palette::action_label(a), input@)));
}

/// The lists that arrive for an open dialog are shown whole, and sorted by the
/// column of the dialog.
pub proof fn arriving_lists_are_shown_whole(o: App, w: Surroundings, n: App, m: Message, fx: Seq<Effect>)
    requires
        updated(o, m, w, n, fx),
    ensures
        m matches Message::DockerListLoaded(Ok(list)) ==> (o.prompt matches Some(
            Prompt::Docker { input, sort_by, sort_dir, .. },
        ) ==> {
            &&& n.prompt matches Some(
                Prompt::Docker { state: DockerState::Loaded(l), input: i, sort_by: b, sort_dir: d },
            )
            &&& l@.to_multiset() == list@.to_multiset()
            &&& containers_sorted(list@, l@, sort_by, sort_dir)
            &&& i == input && b == sort_by && d == sort_dir
        }),
        m matches Message::ProcessesListLoaded(Ok(list)) ==> (o.prompt matches Some(
            Prompt::Processes { input, sort_by, sort_dir, .. },
        ) ==> {
            &&& n.prompt matches Some(
                Prompt::Processes {
                    state: ProcessesState::Loaded(l),
                    input: i,
                    sort_by: b,
                    sort_dir: d,
                    ..
                },
            )
            &&& l@.to_multiset() == list@.to_multiset()
            &&& processes_sorted(list@, l@, sort_by, sort_dir)
            &&& i == input && b == sort_by && d == sort_dir
        }),
        m matches Message::AppsListLoaded(Ok(list)) ==> (o.prompt matches Some(
            Prompt::Apps { input, .. },
        ) ==> {
            &&& n.prompt matches Some(Prompt::Apps { state: AppsState::Loaded(l), input: i, .. })
            &&& l@.to_multiset() == list@.to_multiset()
            &&& i == input
        }),
        m matches Message::GitBranchesLoaded(Ok(list)) ==> (o.prompt matches Some(
            Prompt::GitBranches { .. },
        ) ==> (n.prompt matches Some(
            Prompt::GitBranches { state: GitBranchesState::Loaded(l), .. },
        ) && l == list)),
        m matches Message::SshServersLoaded(Ok(list)) ==> (o.prompt matches Some(
            Prompt::SshServers { .. },
        ) ==> (n.prompt matches Some(
            Prompt::SshServers { state: SshServersState::Loaded(l), .. },
        ) && l == list)),
{
    match (m, o.prompt, n.prompt) {
        (
            Message::DockerListLoaded(Ok(list)),
            Some(Prompt::Docker { sort_by, sort_dir, .. }),
            Some(Prompt::Docker { state: DockerState::Loaded(l), .. }),
        ) => {
            crate::docker::containers_are_in_order(list@, l@, sort_by, sort_dir);
        },
        (
            Message::ProcessesListLoaded(Ok(list)),
            Some(Prompt::Processes { sort_by, sort_dir, .. }),
            Some(Prompt::Processes { state: ProcessesState::Loaded(l), .. }),
        ) => {
            crate::process::processes_are_in_order(list@, l@, sort_by, sort_dir);
        },
        (
            Message::AppsListLoaded(Ok(list)),
            Some(Prompt::Apps { .. }),
            Some(Prompt::Apps { state: AppsState::Loaded(l), .. }),
        ) => {
            crate::apps::applications_are_in_order(list@, l@);
        },
        _ => {},
    }
}

/// In a dialog with a list the keys that move the cursor move the highlight by as
/// many rows, a page by five; Enter in a dialog of buttons presses the one that
/// has the focus.
pub proof fn dialogs_take_the_keys(p: Prompt, delta: i32, extend: bool)
    ensures
        (p is Open || p is CommandPalette || p is Processes || p is Apps || p is GitBranches || p
            is SshServers || p is FileActions) ==> {
            &&& redirected(Some(p), Message::MoveSelection(delta, extend)) == Message::PromptMove(
                delta,
            )
            &&& redirected(Some(p), Message::PageMove(1, extend)) == Message::PromptMove(5)
            &&& redirected(Some(p), Message::PageMove(-1i8, extend)) == Message::PromptMove(-5i32)
        },
        p matches Prompt::Delete { focus: DeleteFocus::Confirm, .. } ==> redirected(
            Some(p),
            Message::ActivateSelection,
        ) == Message::PromptSubmit,
        p matches Prompt::ConfirmLargeExtract { focus: DeleteFocus::Confirm, .. } ==> redirected(
            Some(p),
            Message::ActivateSelection,
        ) == Message::PromptSubmit,
        p is FileActions ==> redirected(Some(p), Message::ActivateSelection)
            == Message::PromptSubmit,
        redirected(None, Message::MoveSelection(delta, extend)) == Message::MoveSelection(
            delta,
            extend,
        ),
{
}

/// Tab makes the other pane the active one, and neither pane changes.
pub proof fn tab_goes_to_the_other_pane(o: App, w: Surroundings, n: App, fx: Seq<Effect>)
    requires
        o.prompt is None,
        updated(o, Message::SwitchSide, w, n, fx),
    ensures
        n.active != o.active,
        n.left == o.left,
        n.right == o.right,
        n.prompt is None,
{
}

/// The key that edits, and the one that previews, take the file under the cursor
/// of a local pane; editing takes no directory.
pub proof fn cursor_files_are_taken(o: App, m: Message, w: Surroundings, n: App, fx: Seq<Effect>, e: Entry)
    requires
        o.prompt is None,
        m is EditFile || m is QuickLook,
        cursor_on(o.active_pane(), e),
        is_plain_name(e.name@),
        o.active_pane().location is Local,
        updated(o, m, w, n, fx),
    ensures
        n == o,
        m is EditFile && e.is_dir ==> fx.len() == 0,
        m is QuickLook || !e.is_dir ==> fx.len() == 1 && match fx[0] {
            Effect::Edit(p) => m is EditFile && is_child(
                LocationView::Local(p@),
                o.active_pane().location@,
                e.name@,
            ),
            Effect::QuickLook(p) => m is QuickLook && is_child(
                LocationView::Local(p@),
                o.active_pane().location@,
                e.name@,
            ),
            _ => false,
        },
{
    join_then_parent(o.active_pane().location@.path(), e.name@);
}

} // verus!
