//! What the application must know before an event, and the preview it shows.

use vstd::prelude::*;
use crate::actions::{expanded, files_tokens, first_quick_view, matching_quick_view, name_matches};
use crate::actions::{or_empty, substitute_command_multi, QuickViewOutput, QuickViewState};
use crate::app::App;
use crate::app_dialogs::destination;
use crate::config::{expand_tilde, tilde_expanded};
use crate::entry::{Entry, Side};
use crate::filtering::items_of;
use crate::location::{Location, LocationView};
use crate::message::{one, redirected, Effect, Message};
use crate::palette::{filtered_recents, recents_matching};
use crate::path::{join_path, join_paths, parent_of, parent_path};
use crate::prompt::Prompt;
use crate::text::{texts, trim, trim_text};

verus! {

/// The paths that confirming a dialog depends on.
pub open spec fn asked_by(o: App, p: Prompt, home: Seq<char>) -> Seq<Seq<char>> {
    match p {
        Prompt::Open { input, recents, selected } => {
            let shown = recents_matching(recents@, input@);
            let typed = tilde_expanded(trim(input@), home);
            if selected < shown.len() {
                seq![typed, shown[selected as int]@]
            } else {
                seq![typed]
            }
        },
        Prompt::Copy { input } | Prompt::Move { input } => match destination(o, input@, home) {
            Some(LocationView::Local(d)) => match parent_path(d) {
                Some(q) => seq![d, q],
                None => seq![d],
            },
            _ => seq![],
        },
        Prompt::Uncompress { input } => seq![tilde_expanded(trim(input@), home)],
        Prompt::NewFolder { input } | Prompt::NewFile { input } => seq![
            join_path(o.active_pane().location@.path(), trim(input@)),
        ],
        _ => seq![],
    }
}

/// The paths that an event depends on.
pub open spec fn asked(o: App, m: Message, home: Seq<char>) -> Seq<Seq<char>> {
    match redirected(o.prompt, m) {
        Message::OpenRecent(p) => seq![p@],
        Message::PromptSubmit => match o.prompt {
            Some(p) => asked_by(o, p, home),
            None => seq![],
        },
        _ => seq![],
    }
}

/// The file that a preview is to be shown of, with the name that it is found
/// by: the file under the cursor of a local pane.
pub open spec fn previewed_file(o: App) -> Option<Entry> {
    let p = o.active_pane();
    match p.spec_entry_at(p.selected as int) {
        Some(e) => if p.location is Local && !e.is_dir {
            Some(e)
        } else {
            None
        },
        None => None,
    }
}

/// There is a preview for this name.
pub open spec fn has_preview(o: App, name: Seq<char>) -> bool {
    exists|i: int|
        0 <= i < o.config.quick_view@.len() && name_matches(
            (#[trigger] o.config.quick_view@[i]).pattern@,
            name,
        )
}

/// The preview follows the cursor: on a file with one, a new request is made
/// and waits for the cursor to settle; anywhere else the preview is closed, and
/// the pane that it was shown in is measured again.
pub open spec fn preview_followed(o: App, n: App, fx: Seq<Effect>) -> bool {
    let wanted = match previewed_file(o) {
        Some(e) => has_preview(o, e.name@),
        None => false,
    };
    if wanted {
        let e = previewed_file(o)->0;
        &&& n == (App {
            quick_view: n.quick_view,
            quick_view_seq: (o.quick_view_seq + 1) as u64,
            ..o
        })
        &&& n.quick_view matches Some(q)
        &&& q.request_id == n.quick_view_seq
        &&& q.source_side == o.active
        &&& q.path@ == join_path(o.active_pane().location@.path(), e.name@)
        &&& q.output is Loading
        &&& exists|i: int| #[trigger]
            first_quick_view(o.config.quick_view@, e.name@, i) && q.label
                == o.config.quick_view@[i].label && q.command == o.config.quick_view@[i].command
        &&& fx == seq![Effect::AwaitQuickView(n.quick_view_seq)]
    } else {
        match o.quick_view {
            Some(q) => n == (App { quick_view: None, ..o }) && fx == seq![
                Effect::Remeasure(q.source_side.spec_other()),
            ],
            None => n == o && fx.len() == 0,
        }
    }
}

/// An answer to an earlier request never reaches the preview: each request has
/// a number of its own.
pub proof fn stale_previews_are_dropped(
    o: App,
    n: App,
    fx: Seq<Effect>,
    id: u64,
    side: Side,
    result: Result<String, String>,
    after: App,
)
    requires
        o.has_room(),
        preview_followed(o, n, fx),
        id <= o.quick_view_seq,
        n.quick_view is Some,
        crate::app_update::quick_view_loaded(n, after, id, side, result),
    ensures
        after == n,
{
}

impl App {
    /// The paths that handling an event depends on: which of them exist, and
    /// which are directories, must be known then.
    pub fn paths_to_probe(&self, m: &Message, home: &str) -> (r: Vec<String>)
        ensures
            texts(r@) == asked(*self, *m, home@),
    {
        let mut r: Vec<String> = Vec::new();
        assert(texts(r@) =~= seq![]);
        match crate::message::is_submit(&self.prompt, m) {
            None => match m {
                Message::OpenRecent(p) => {
                    r.push(p.clone());
                    assert(texts(r@) =~= seq![p@]);
                    r
                },
                _ => r,
            },
            Some(p) => self.probes_of(p, home),
        }
    }

    fn probes_of(&self, p: &Prompt, home: &str) -> (r: Vec<String>)
        ensures
            texts(r@) == asked_by(*self, *p, home@),
    {
        let mut r: Vec<String> = Vec::new();
        assert(texts(r@) =~= seq![]);
        match p {
            Prompt::Open { input, recents, selected } => {
                let t = trim_text(input.as_str());
                r.push(expand_tilde(t.as_str(), home));
                let shown = filtered_recents(recents.as_slice(), input.as_str());
                assert(items_of(shown@).len() == shown@.len());
                if *selected < shown.len() {
                    assert(items_of(shown@)[*selected as int] == *shown@[*selected as int]);
                    r.push(shown[*selected].clone());
                }
                assert(texts(r@) =~= asked_by(*self, *p, home@));
            },
            Prompt::Copy { input } | Prompt::Move { input } => {
                match self.resolve_destination(input.as_str(), home) {
                    Some(Location::Local(d)) => {
                        let parent = parent_of(d.as_str());
                        r.push(d);
                        match parent {
                            Some(q) => {
                                r.push(q);
                            },
                            None => {},
                        }
                    },
                    _ => {},
                }
                assert(texts(r@) =~= asked_by(*self, *p, home@));
            },
            Prompt::Uncompress { input } => {
                let t = trim_text(input.as_str());
                r.push(expand_tilde(t.as_str(), home));
                assert(texts(r@) =~= asked_by(*self, *p, home@));
            },
            Prompt::NewFolder { input } | Prompt::NewFile { input } => {
                let t = trim_text(input.as_str());
                r.push(join_paths(self.pane(self.active).path(), t.as_str()));
                assert(texts(r@) =~= asked_by(*self, *p, home@));
            },
            _ => {},
        }
        r
    }

    /// Lets the preview follow the cursor.
    pub fn refresh_quick_view(&mut self) -> (fx: Vec<Effect>)
        requires
            old(self).has_room(),
        ensures
            preview_followed(*old(self), *final(self), fx@),
            old(self).wf() ==> final(self).wf(),
    {
        let pane = self.pane(self.active);
        let name: Option<String> = match pane.entry_at(pane.selected) {
            Some(e) => if pane.location.is_local() && !e.is_dir {
                Some(e.name.clone())
            } else {
                None
            },
            None => None,
        };
        let found: Option<(String, String, Option<String>)> = match &name {
            Some(n) => match matching_quick_view(self.config.quick_view.as_slice(), n.as_str()) {
                Some(a) => {
                    let command = match &a.command {
                        Some(c) => Some(c.clone()),
                        None => None,
                    };
                    Some((join_paths(pane.path(), n.as_str()), a.label.clone(), command))
                },
                None => None,
            },
            None => None,
        };
        match found {
            Some((path, label, command)) => {
                self.quick_view_seq += 1;
                self.quick_view = Some(
                    QuickViewState {
                        request_id: self.quick_view_seq,
                        source_side: self.active,
                        path,
                        label,
                        command,
                        output: QuickViewOutput::Loading,
                    },
                );
                one(Effect::AwaitQuickView(self.quick_view_seq))
            },
            None => match &self.quick_view {
                Some(q) => {
                    let side = q.source_side.other();
                    self.quick_view = None;
                    one(Effect::Remeasure(side))
                },
                None => Vec::new(),
            },
        }
    }

    /// The shell line of the current preview with the directory that it runs
    /// in; none where the preview shows the file itself. The line is filled in
    /// for all marked files, or for the one under the cursor alone.
    pub open spec fn preview_line(&self, r: Option<(String, String)>) -> bool {
        match self.quick_view {
            Some(q) => match q.command {
                Some(t) => {
                    let marked = self.pane_of(q.source_side).spec_marked_entries().map_values(
                        |e: Entry|
                            join_path(self.pane_of(q.source_side).location@.path(), e.name@),
                    );
                    let files = if marked.len() > 0 {
                        marked
                    } else {
                        seq![q.path@]
                    };
                    &&& r matches Some((line, dir))
                    &&& line@ == expanded(t@, files_tokens(files, q.path@))
                    &&& dir@ == or_empty(parent_path(q.path@))
                },
                None => r is None,
            },
            None => r is None,
        }
    }

    /// The shell line of the current preview with the directory that it runs
    /// in; none where the preview shows the file itself.
    pub fn quick_view_command(&self) -> (r: Option<(String, String)>)
        ensures
            self.preview_line(r),
    {
        match &self.quick_view {
            Some(q) => match &q.command {
                Some(t) => {
                    let mut files = self.pane(q.source_side).marked_paths();
                    assert(texts(files@).len() == files@.len());
                    if files.len() == 0 {
                        files.push(q.path.clone());
                        assert(texts(files@) =~= seq![q.path@]);
                    }
                    let line = substitute_command_multi(
                        t.as_str(),
                        files.as_slice(),
                        q.path.as_str(),
                    );
                    let dir = match parent_of(q.path.as_str()) {
                        Some(d) => d,
                        None => String::new(),
                    };
                    assert(dir@ =~= or_empty(parent_path(q.path@)));
                    Some((line, dir))
                },
                None => None,
            },
            None => None,
        }
    }
}

/// A file under the cursor of a local pane that some preview is meant for is
/// previewed: that file, by the first such preview. Directories are not.
pub proof fn cursor_files_are_previewed(o: App, n: App, fx: Seq<Effect>, e: Entry, i: int)
    requires
        o.active_pane().location is Local,
        o.active_pane().spec_entry_at(o.active_pane().selected as int) == Some(e),
        crate::path::is_plain_name(e.name@),
        preview_followed(o, n, fx),
    ensures
        e.is_dir ==> n.quick_view is None,
        !e.is_dir && 0 <= i < o.config.quick_view@.len() && name_matches(
            o.config.quick_view@[i].pattern@,
            e.name@,
        ) && (forall|k: int|
            0 <= k < i ==> !name_matches((#[trigger] o.config.quick_view@[k]).pattern@, e.name@))
            ==> {
            &&& n.quick_view matches Some(q)
            &&& q.label == o.config.quick_view@[i].label
            &&& q.command == o.config.quick_view@[i].command
            &&& crate::path::components(q.path@) == crate::path::components(
                o.active_pane().location@.path(),
            ).push(e.name@)
            &&& q.source_side == o.active
        },
{
    crate::path::join_then_parent(o.active_pane().location@.path(), e.name@);
    if !e.is_dir && 0 <= i < o.config.quick_view@.len() && name_matches(
        o.config.quick_view@[i].pattern@,
        e.name@,
    ) && (forall|k: int|
        0 <= k < i ==> !name_matches((#[trigger] o.config.quick_view@[k]).pattern@, e.name@)) {
        assert(has_preview(o, e.name@));
        let j = choose|j: int| #[trigger]
            first_quick_view(o.config.quick_view@, e.name@, j) && n.quick_view->Some_0.label
                == o.config.quick_view@[j].label && n.quick_view->Some_0.command
                == o.config.quick_view@[j].command;
        assert(j == i) by {
            if j < i {
                assert(!name_matches(o.config.quick_view@[j].pattern@, e.name@));
            }
            if i < j {
                assert(!name_matches(o.config.quick_view@[i].pattern@, e.name@));
            }
        }
    }
}

/// A preview with a command runs it, filled in for every marked entry, and for the
/// previewed file alone where none is marked, in the directory of that file.
pub proof fn previews_run_on_the_marked(
    a: App,
    q: QuickViewState,
    template: String,
    r: Option<(String, String)>,
)
    requires
        a.quick_view == Some(q),
        q.command == Some(template),
        a.preview_line(r),
    ensures
        r matches Some((line, dir)) && {
            let p = a.pane_of(q.source_side);
            &&& p.spec_marked_entries().len() == 0 ==> line@ == expanded(
                template@,
                files_tokens(seq![q.path@], q.path@),
            )
            &&& p.spec_marked_entries().len() > 0 ==> line@ == expanded(
                template@,
                files_tokens(
                    Seq::new(
                        p.spec_marked_entries().len(),
                        |i: int|
                            join_path(p.location@.path(), p.spec_marked_entries()[i].name@),
                    ),
                    q.path@,
                ),
            )
            &&& parent_path(q.path@) matches Some(d) ==> dir@ == d
        },
{
    let p = a.pane_of(q.source_side);
    let all = p.spec_marked_entries();
    assert(all.map_values(|e: Entry| join_path(p.location@.path(), e.name@)) =~= Seq::new(
        all.len(),
        |i: int| join_path(p.location@.path(), all[i].name@),
    ));
}

} // verus!
