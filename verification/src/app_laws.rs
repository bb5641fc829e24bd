//! What holds of the application whatever happens to it.

use vstd::prelude::*;
use crate::app::{failure_count, failure_text, first_failure, navigated_to, next_shown, reload_effects};
use crate::app::{restored, App};
use crate::app_dialogs::{palette_done, submitted};
use crate::app_panes::{chunk_taken, load_done};
use crate::app_queries::{asked, asked_by};
use crate::app_update::{refresh_effects, step, updated};
use crate::config::SavedState;
use crate::entry::{Entry, Side};
use crate::location::{Location, LocationView};
use crate::message::{is_pane_message, redirected, Effect, Message, Outcome, Surroundings};
use crate::palette::PaletteAction;
use crate::prompt::Prompt;
use crate::text::decimal;

verus! {

/// A deletion is among the effects.
pub open spec fn deletes(fx: Seq<Effect>) -> bool {
    exists|i: int| 0 <= i < fx.len() && (#[trigger] fx[i]) is Delete
}

/// The chunks of a load that was overtaken by another do not reach the pane,
/// nor does its end.
pub proof fn stale_loads_are_dropped(
    o: App,
    n: App,
    fx: Seq<Effect>,
    side: Side,
    location: Location,
    generation: u64,
    chunk: Seq<Entry>,
    after: App,
    more: Seq<Effect>,
)
    requires
        o.has_room(),
        navigated_to(o, n, fx, side, location),
        generation <= o.pane_of(side).load_generation,
    ensures
        n.pane_of(side).load_generation > o.pane_of(side).load_generation,
        chunk_taken(n, after, more, side, generation, chunk) ==> after == n && more.len() == 0,
        load_done(n, after, side, generation) ==> after == n,
{
}

/// While a dialog is open, the keys of the panes leave both panes, the dialog
/// and everything else as it is, unless the dialog gives them a meaning.
pub proof fn open_dialogs_shield_the_panes(
    o: App,
    m: Message,
    w: Surroundings,
    n: App,
    fx: Seq<Effect>,
)
    requires
        o.prompt is Some,
        is_pane_message(m),
        redirected(o.prompt, m) == m,
        updated(o, m, w, n, fx),
    ensures
        n == o,
        fx.len() == 0,
{
}

/// The application can be left at any time, whatever dialog is open.
pub proof fn exit_always_works(o: App, w: Surroundings, n: App, fx: Seq<Effect>)
    requires
        updated(o, Message::ExitApp, w, n, fx),
    ensures
        n == o,
        fx == seq![Effect::Exit],
{
}

/// Escape leaves a dialog without doing anything else than to show the new
/// files that waited for it; without a dialog it shows the whole listing again.
pub proof fn escape_steps_back(o: App, w: Surroundings, n: App, fx: Seq<Effect>)
    requires
        updated(o, Message::PromptCancel, w, n, fx),
    ensures
        o.prompt is Some ==> {
            &&& fx.len() == 0
            &&& n.left == o.left
            &&& n.right == o.right
            &&& n.prompt is None <==> o.pending_new_files@.len() == 0
        },
        o.prompt is None ==> n.active_pane().filter@.len() == 0,
{
}

/// What a session is left with, the next one starts with, as long as the local
/// directories are still there.
pub proof fn sessions_are_restored(l: Location, is_dir: bool, home: Seq<char>, r: Location)
    requires
        restored(Some(l), is_dir, home, r),
        l is Local ==> is_dir,
    ensures
        r == l,
{
}

proof fn lemma_navigation_deletes_nothing(o: App, n: App, fx: Seq<Effect>, side: Side, l: Location)
    requires
        navigated_to(o, n, fx, side, l),
    ensures
        !deletes(fx),
{
}

proof fn lemma_palette_deletes_nothing(o: App, n: App, fx: Seq<Effect>, action: PaletteAction)
    requires
        palette_done(o, n, fx, action),
    ensures
        !deletes(fx),
{
    if action == PaletteAction::OpenDropbox && o.config.has_dropbox_auth() {
        lemma_navigation_deletes_nothing(o, n, fx, o.active, n.pane_of(o.active).location);
    }
}

proof fn lemma_only_the_delete_dialog_deletes(
    o: App,
    p: Prompt,
    w: Surroundings,
    n: App,
    fx: Seq<Effect>,
)
    requires
        submitted(o, p, w, n, fx),
        deletes(fx),
    ensures
        p matches Prompt::Delete { paths, .. } && fx == seq![Effect::Delete(paths)],
{
    match p {
        Prompt::Open { .. } => {
            if fx.len() > 0 {
                lemma_navigation_deletes_nothing(o, n, fx, o.active, n.pane_of(o.active).location);
            }
        },
        Prompt::CommandPalette { input, selected, actions, dropbox_configured } => {
            let shown = crate::palette::actions_matching(actions@, input@);
            if selected < shown.len() && crate::palette::action_enabled(
                shown[selected as int],
                dropbox_configured,
            ) {
                lemma_palette_deletes_nothing(o, n, fx, shown[selected as int]);
            }
        },
        _ => {},
    }
}

/// Nothing is deleted but what the delete dialog lists, and only by confirming
/// that dialog.
#[verifier::rlimit(60)]
#[verifier::spinoff_prover]
pub proof fn deleting_needs_confirmation(
    o: App,
    m: Message,
    w: Surroundings,
    n: App,
    fx: Seq<Effect>,
)
    requires
        updated(o, m, w, n, fx),
        deletes(fx),
    ensures
        redirected(o.prompt, m) is PromptSubmit,
        o.prompt matches Some(Prompt::Delete { paths, .. }) && fx == seq![Effect::Delete(paths)],
{
    let meant = redirected(o.prompt, m);
    let closed = App { prompt: None, last_error: None, ..o };
    match meant {
        Message::PromptSubmit => {
            if let Some(p) = o.prompt {
                if p is CommandPalette {
                    lemma_only_the_delete_dialog_deletes(closed, p, w, n, fx);
                } else {
                    let k = choose|k: App|
                        #![trigger next_shown(k, n)]
                        submitted(closed, p, w, k, fx) && next_shown(k, n);
                    lemma_only_the_delete_dialog_deletes(closed, p, w, k, fx);
                }
            }
        },
        _ => {
            lemma_other_events_delete_nothing(o, meant, w, n, fx);
        },
    }
}

#[verifier::rlimit(80)]
#[verifier::spinoff_prover]
proof fn lemma_other_events_delete_nothing(
    o: App,
    m: Message,
    w: Surroundings,
    n: App,
    fx: Seq<Effect>,
)
    requires
        step(o, m, w, n, fx),
        !(m is PromptSubmit),
    ensures
        !deletes(fx),
{
    match m {
        Message::CopyFinished(_)
        | Message::MoveFinished(_)
        | Message::DeleteFinished(_)
        | Message::UncompressFinished(_)
        | Message::CompressFinished(_)
        | Message::FileActionFinished(_) => {
            lemma_reload_effects(n, fx);
        },
        Message::ItemMade(r) => {
            if r is Ok {
                lemma_reload_effects(n, fx);
            }
        },
        Message::GitCheckoutFinished(_, r) => {
            if r is Ok {
                lemma_reload_effects(n, fx);
            }
        },
        Message::NewFilesPickSide(side) => {
            if fx.len() > 0 {
                let front = fx.drop_last();
                assert(!deletes(front));
                assert forall|i: int| 0 <= i < fx.len() implies !((#[trigger] fx[i]) is Delete) by {
                    if i < front.len() {
                        assert(fx[i] == front[i]);
                    }
                }
            }
        },
        Message::WatchedDirChanged(_) => {
            let a = refresh_effects(o.left, n.left, Side::Left);
            let b = refresh_effects(o.right, n.right, Side::Right);
            assert forall|i: int| 0 <= i < fx.len() implies !((#[trigger] fx[i]) is Delete) by {
                if i < a.len() {
                    assert(fx[i] == a[i]);
                } else {
                    assert(fx[i] == b[i - a.len()]);
                }
            }
        },
        Message::PaletteSelect(action) => {
            if fx.len() > 0 {
                lemma_palette_deletes_nothing(App { prompt: None, ..o }, n, fx, action);
            }
        },
        _ => {},
    }
}

proof fn lemma_reload_effects(n: App, fx: Seq<Effect>)
    requires
        fx == reload_effects(n.left, Side::Left) + reload_effects(n.right, Side::Right),
    ensures
        !deletes(fx),
{
    let a = reload_effects(n.left, Side::Left);
    let b = reload_effects(n.right, Side::Right);
    assert(a.len() <= 2 && b.len() <= 2);
    assert forall|i: int| 0 <= i < fx.len() implies !((#[trigger] fx[i]) is Delete) by {
        if i < a.len() {
            assert(fx[i] == a[i]);
        } else {
            assert(fx[i] == b[i - a.len()]);
        }
    }
}

/// Two reports of the outside that agree on the paths that were asked about.
pub open spec fn agree_on(paths: Seq<Seq<char>>, v: Surroundings, w: Surroundings) -> bool {
    &&& v.home@ == w.home@
    &&& v.page_rows == w.page_rows
    &&& forall|i: int|
        0 <= i < paths.len() ==> v.spec_is_dir(#[trigger] paths[i]) == w.spec_is_dir(paths[i])
            && v.spec_exists(paths[i]) == w.spec_exists(paths[i])
}

proof fn lemma_submit_asks_no_more(
    o: App,
    p: Prompt,
    v: Surroundings,
    w: Surroundings,
    n: App,
    fx: Seq<Effect>,
)
    requires
        agree_on(asked_by(o, p, v.home@), v, w),
        submitted(o, p, v, n, fx),
    ensures
        submitted(o, p, w, n, fx),
{
    let paths = asked_by(o, p, v.home@);
    match p {
        Prompt::Open { input, recents, selected } => {
            let shown = crate::palette::recents_matching(recents@, input@);
            assert(paths[0] == crate::config::tilde_expanded(
                crate::text::trim(input@),
                v.home@,
            ));
            if selected < shown.len() {
                assert(paths[1] == shown[selected as int]@);
            }
        },
        Prompt::Copy { input } | Prompt::Move { input } => {
            if let Some(LocationView::Local(d)) = crate::app_dialogs::destination(
                o,
                input@,
                v.home@,
            ) {
                assert(paths[0] == d);
                if let Some(q) = crate::path::parent_path(d) {
                    assert(paths[1] == q);
                }
            }
        },
        Prompt::Uncompress { .. } | Prompt::NewFolder { .. } | Prompt::NewFile { .. } => {
            assert(paths.len() == 1);
            assert(v.spec_is_dir(paths[0]) == w.spec_is_dir(paths[0]));
        },
        _ => {},
    }
}

/// What an event does depends on no path but those that it asks about.
#[verifier::rlimit(60)]
#[verifier::spinoff_prover]
pub proof fn events_ask_for_all_they_need(
    o: App,
    m: Message,
    v: Surroundings,
    w: Surroundings,
    n: App,
    fx: Seq<Effect>,
)
    requires
        agree_on(asked(o, m, v.home@), v, w),
        updated(o, m, v, n, fx),
    ensures
        updated(o, m, w, n, fx),
{
    let meant = redirected(o.prompt, m);
    let closed = App { prompt: None, last_error: None, ..o };
    match meant {
        Message::PromptSubmit => {
            if let Some(p) = o.prompt {
                assert(asked_by(closed, p, v.home@) == asked_by(o, p, v.home@));
                if p is CommandPalette {
                    lemma_submit_asks_no_more(closed, p, v, w, n, fx);
                } else {
                    let k = choose|k: App|
                        #![trigger next_shown(k, n)]
                        submitted(closed, p, v, k, fx) && next_shown(k, n);
                    lemma_submit_asks_no_more(closed, p, v, w, k, fx);
                    assert(submitted(closed, p, w, k, fx) && next_shown(k, n));
                }
            }
        },
        Message::OpenRecent(p) => {
            assert(asked(o, m, v.home@)[0] == p@);
        },
        _ => {},
    }
}

/// The status bar is silent exactly where nothing is going on, and a copy, a move
/// or a deletion is told with the number of its files and where they go.
pub proof fn what_goes_on_is_told(a: App)
    ensures
        a.status_spec() is None <==> a.copy_in_progress is None && a.move_in_progress is None
            && a.compress_in_progress is None && a.uncompress_in_progress is None
            && a.extract_in_progress is None && a.delete_in_progress is None
            && a.file_action_in_progress is None && !a.left.loading && !a.right.loading,
        a.copy_in_progress matches Some((n, dest)) ==> a.status_spec() == Some(
            "Copying "@ + decimal(n as nat) + " "@ + (if n == 1 {
                "file"@
            } else {
                "files"@
            }) + " to "@ + dest@ + "…"@,
        ),
        a.copy_in_progress is None ==> (a.move_in_progress matches Some((n, dest))
            ==> a.status_spec() == Some(
            "Moving "@ + decimal(n as nat) + " "@ + (if n == 1 {
                "file"@
            } else {
                "files"@
            }) + " to "@ + dest@ + "…"@,
        )),
{
}

/// What is told of failures is the first of them, and how many there are where
/// there are several.
pub proof fn failures_are_counted(verb: Seq<char>, results: Seq<Outcome>)
    ensures
        failure_count(results) == results.filter(|r: Outcome| r.1 is Err).len(),
        failure_text(verb, results) is None <==> failure_count(results) == 0,
        failure_text(verb, results) matches Some(t) ==> (first_failure(results) matches Some(e) && t
            == (if failure_count(results) == 1 {
            verb + " failed: "@ + e
        } else {
            verb + " failed ("@ + decimal(failure_count(results)) + " errors): "@ + e
        })),
{
    lemma_failure_count(results);
    lemma_first_failure_counts(results);
}

proof fn lemma_failure_count(results: Seq<Outcome>)
    ensures
        failure_count(results) == results.filter(|r: Outcome| r.1 is Err).len(),
    decreases results.len(),
{
    reveal(Seq::filter);
    if results.len() > 0 {
        lemma_failure_count(results.drop_last());
    }
}

proof fn lemma_first_failure_counts(results: Seq<Outcome>)
    ensures
        first_failure(results) is Some <==> failure_count(results) > 0,
    decreases results.len(),
{
    if results.len() > 0 {
        let tail = results.skip(1);
        lemma_first_failure_counts(tail);
        lemma_count_from_front(results);
    }
}

proof fn lemma_count_from_front(results: Seq<Outcome>)
    requires
        results.len() > 0,
    ensures
        failure_count(results) == failure_count(results.skip(1)) + (if results[0].1 is Err {
            1nat
        } else {
            0nat
        }),
    decreases results.len(),
{
    if results.len() > 1 {
        lemma_count_from_front(results.drop_last());
        assert(results.drop_last().skip(1) =~= results.skip(1).drop_last());
        assert(results.skip(1).last() == results.last());
        assert(results.drop_last()[0] == results[0]);
    } else {
        assert(results.skip(1) =~= seq![]);
        assert(results.drop_last() =~= seq![]);
        reveal_with_fuel(failure_count, 2);
    }
}

/// A session starts as the last one was left: both panes at their places, where
/// these are still there, the same pane active, and the same recent places. A
/// place that is gone is replaced by home.
pub proof fn sessions_continue(
    last: App,
    saved: SavedState,
    next: App,
    home: Seq<char>,
    left_is_dir: bool,
    right_is_dir: bool,
)
    requires
        last.leaves(saved),
        next.starts_from(Some(saved), home, left_is_dir, right_is_dir),
    ensures
        left_is_dir || last.left.location is Remote ==> next.left.location == last.left.location,
        right_is_dir || last.right.location is Remote ==> next.right.location
            == last.right.location,
        !left_is_dir && last.left.location is Local ==> next.left.location@ == LocationView::Local(
            home,
        ),
        !right_is_dir && last.right.location is Local ==> next.right.location@
            == LocationView::Local(home),
        next.active == last.active,
        next.recent_locations@ == last.recent_locations@,
{
}

} // verus!
