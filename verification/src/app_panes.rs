//! Events that concern the panes: moving, opening, filtering, loading.

use vstd::prelude::*;
use crate::actions::{build_file_choices, choices_for};
use crate::app::{navigated_to, only_pane_changed, only_prompt_changed, with_pane, App};
use crate::app::LARGE_ARCHIVE_THRESHOLD;
use crate::entry::{size_or_zero, Entry, Side};
use crate::location::{location_parent, LocationView};
use crate::message::{one, Effect};
use crate::palette::{has_zip_extension, is_zip};
use crate::pane::Pane;
use crate::path::{join_path, join_paths};
use crate::prompt::{DeleteFocus, Prompt};
use crate::text::without_last;

verus! {

/// A pane was sent to the place with this view.
pub open spec fn navigated_to_view(
    o: App,
    n: App,
    fx: Seq<Effect>,
    side: Side,
    place: LocationView,
) -> bool {
    &&& navigated_to(o, n, fx, side, n.pane_of(side).location)
    &&& n.pane_of(side).location@ == place
}

/// A pane went to its parent, if it has one.
pub open spec fn went_up(o: App, n: App, fx: Seq<Effect>, side: Side) -> bool {
    match location_parent(o.pane_of(side).location@) {
        Some(p) => navigated_to_view(o, n, fx, side, p),
        None => n == o && fx.len() == 0,
    }
}

/// A click on a row: it activates the pane and moves the cursor there, or with
/// the command key held marks or unmarks the row.
pub open spec fn row_clicked(o: App, n: App, fx: Seq<Effect>, side: Side, row: usize) -> bool {
    let p = o.pane_of(side);
    let q = n.pane_of(side);
    &&& n == (App { active: side, ..with_pane(o, side, q) })
    &&& if o.command_held {
        if 1 <= row <= p.visible_indices@.len() {
            &&& q == (Pane { selected: row, anchor: row, marked: q.marked, ..p })
            &&& q.marked@ == (if p.marked@.contains(row) {
                p.marked@.remove(row)
            } else {
                p.marked@.insert(row)
            })
        } else {
            q == p
        }
    } else {
        q.moved(p, row as int, o.shift_held)
    }
    &&& fx == (if o.active != side {
        seq![Effect::SaveState, Effect::EnsureVisible(side)]
    } else {
        seq![Effect::EnsureVisible(side)]
    })
}

/// Backspace: it shortens an active filter, else it goes up.
pub open spec fn backspaced(o: App, n: App, fx: Seq<Effect>) -> bool {
    let side = o.active;
    let p = o.active_pane();
    if p.filter@.len() > 0 {
        &&& only_pane_changed(o, n, side)
        &&& n.pane_of(side).refiltered(p, p.filter@.drop_last())
        &&& fx == seq![Effect::EnsureVisible(side)]
    } else {
        went_up(o, n, fx, side)
    }
}

/// Enter: it goes up from `..`, into a directory, unpacks an archive, asking
/// first about a large one, and offers the choices for any other file. Files
/// of a remote pane are left alone.
pub open spec fn activated(o: App, n: App, fx: Seq<Effect>) -> bool {
    let side = o.active;
    let p = o.active_pane();
    if p.selected == 0 {
        went_up(o, n, fx, side)
    } else {
        match p.spec_entry_at(p.selected as int) {
            None => n == o && fx.len() == 0,
            Some(e) => {
                let path = join_path(p.location@.path(), e.name@);
                if e.is_dir {
                    navigated_to_view(o, n, fx, side, p.location@.with_path(path))
                } else if !(p.location is Local) {
                    n == o && fx.len() == 0
                } else if has_zip_extension(path) {
                    if size_or_zero(e) > LARGE_ARCHIVE_THRESHOLD {
                        &&& only_prompt_changed(o, n)
                        &&& n.prompt matches Some(
                            Prompt::ConfirmLargeExtract { archive_path, size_bytes, focus },
                        )
                        &&& archive_path@ == path
                        &&& size_bytes == size_or_zero(e)
                        &&& focus == DeleteFocus::Cancel
                        &&& fx.len() == 0
                    } else {
                        &&& n == (App {
                            extract_in_progress: n.extract_in_progress,
                            last_error: None,
                            ..o
                        })
                        &&& n.extract_in_progress matches Some(a)
                        &&& a@ == path
                        &&& fx == seq![Effect::ExtractToTemp(a)]
                    }
                } else {
                    &&& only_prompt_changed(o, n)
                    &&& n.prompt matches Some(
                        Prompt::FileActions { path: at, choices, selected, edit },
                    )
                    &&& at@ == path
                    &&& choices_for(choices@, o.config.file_actions@, e.name@)
                    &&& selected == 0
                    &&& edit is None
                    &&& fx.len() == 0
                }
            },
        }
    }
}

/// A chunk of a listing arrived: it is taken up only by the load it belongs to.
pub open spec fn chunk_taken(
    o: App,
    n: App,
    fx: Seq<Effect>,
    side: Side,
    generation: u64,
    chunk: Seq<Entry>,
) -> bool {
    let p = o.pane_of(side);
    if p.load_generation == generation {
        &&& only_pane_changed(o, n, side)
        &&& n.pane_of(side).appended(p, chunk)
        &&& fx == (if p.pending_focus is Some && n.pane_of(side).pending_focus is None
            && p.focus_jump {
            seq![Effect::ScrollToFocused(side)]
        } else {
            seq![Effect::EnsureVisible(o.active)]
        })
    } else {
        n == o && fx.len() == 0
    }
}

/// A listing is complete: it is sorted now, and the pane no longer loads.
pub open spec fn load_done(o: App, n: App, side: Side, generation: u64) -> bool {
    let p = o.pane_of(side);
    if p.load_generation == generation {
        let q = n.pane_of(side);
        &&& only_pane_changed(o, n, side)
        &&& !q.loading
        &&& q.resorted(Pane { loading: false, ..p }, p.spec_cursor_name())
    } else {
        n == o
    }
}

/// The file under the cursor of a local active pane.
pub open spec fn cursor_file(o: App, with_dirs: bool) -> Option<Seq<char>> {
    let p = o.active_pane();
    match p.spec_entry_at(p.selected as int) {
        Some(e) => if p.location is Local && (with_dirs || !e.is_dir) {
            Some(join_path(p.location@.path(), e.name@))
        } else {
            None
        },
        None => None,
    }
}

impl App {
    pub(crate) fn click_row(&mut self, side: Side, row: usize) -> (fx: Vec<Effect>)
        ensures
            row_clicked(*old(self), *final(self), fx@, side, row),
            old(self).wf() ==> final(self).wf(),
    {
        let changed: bool = self.active != side;
        self.active = side;
        let extend: bool = self.shift_held;
        let toggle: bool = self.command_held;
        let pane = self.pane_mut(side);
        if toggle {
            if row <= pane.visible_indices.len() {
                pane.toggle_mark(row);
            }
        } else {
            pane.move_to_row(row, extend);
        }
        let mut fx: Vec<Effect> = Vec::new();
        if changed {
            fx.push(Effect::SaveState);
        }
        fx.push(Effect::EnsureVisible(side));
        assert(fx@ =~= (if changed {
            seq![Effect::SaveState, Effect::EnsureVisible(side)]
        } else {
            seq![Effect::EnsureVisible(side)]
        }));
        fx
    }

    fn go_up(&mut self, side: Side) -> (fx: Vec<Effect>)
        requires
            old(self).pane_of(side).load_generation < u64::MAX,
        ensures
            went_up(*old(self), *final(self), fx@, side),
            old(self).wf() ==> final(self).wf(),
    {
        match self.pane(side).location.parent() {
            Some(p) => self.navigate(side, p),
            None => Vec::new(),
        }
    }

    pub(crate) fn backspace(&mut self) -> (fx: Vec<Effect>)
        requires
            old(self).has_room(),
        ensures
            backspaced(*old(self), *final(self), fx@),
            old(self).wf() ==> final(self).wf(),
    {
        let side = self.active;
        if self.pane(side).filter.as_str().is_empty() {
            return self.go_up(side);
        }
        let shorter = without_last(self.pane(side).filter.as_str());
        self.pane_mut(side).set_filter(shorter);
        one(Effect::EnsureVisible(side))
    }

    pub(crate) fn activate_selection(&mut self) -> (fx: Vec<Effect>)
        requires
            old(self).has_room(),
        ensures
            activated(*old(self), *final(self), fx@),
            old(self).wf() ==> final(self).wf(),
    {
        let side = self.active;
        let row: usize = self.pane(side).selected;
        if row == 0 {
            return self.go_up(side);
        }
        let (name, is_dir, size): (String, bool, u64) = match self.pane(side).entry_at(row) {
            None => return Vec::new(),
            Some(e) => (
                e.name.clone(),
                e.is_dir,
                match e.size {
                    Some(n) => n,
                    None => 0,
                },
            ),
        };
        if is_dir {
            let target = self.pane(side).location.join(name.as_str());
            return self.navigate(side, target);
        }
        if !self.pane(side).location.is_local() {
            return Vec::new();
        }
        let path = join_paths(self.pane(side).path(), name.as_str());
        if is_zip(path.as_str()) {
            if size > LARGE_ARCHIVE_THRESHOLD {
                self.prompt = Some(
                    Prompt::ConfirmLargeExtract {
                        archive_path: path,
                        size_bytes: size,
                        focus: DeleteFocus::Cancel,
                    },
                );
                return Vec::new();
            }
            self.extract_in_progress = Some(path.clone());
            self.last_error = None;
            return one(Effect::ExtractToTemp(path));
        }
        let choices = build_file_choices(self.config.file_actions.as_slice(), name.as_str());
        self.prompt = Some(Prompt::FileActions { path, choices, selected: 0, edit: None });
        Vec::new()
    }

    pub(crate) fn take_chunk(&mut self, side: Side, generation: u64, chunk: Vec<Entry>) -> (fx: Vec<
        Effect,
    >)
        ensures
            chunk_taken(*old(self), *final(self), fx@, side, generation, chunk@),
            old(self).wf() ==> final(self).wf(),
    {
        if self.pane(side).load_generation != generation {
            return Vec::new();
        }
        let waited: bool = self.pane(side).pending_focus.is_some();
        let jump: bool = self.pane(side).focus_jump;
        self.pane_mut(side).append_chunk(chunk);
        if waited && self.pane(side).pending_focus.is_none() && jump {
            one(Effect::ScrollToFocused(side))
        } else {
            one(Effect::EnsureVisible(self.active))
        }
    }

    pub(crate) fn finish_load(&mut self, side: Side, generation: u64)
        ensures
            load_done(*old(self), *final(self), side, generation),
            old(self).wf() ==> final(self).wf(),
    {
        if self.pane(side).load_generation != generation {
            return;
        }
        let preserve = self.pane(side).cursor_name();
        let pane = self.pane_mut(side);
        pane.loading = false;
        pane.sort_and_show(preserve);
    }

    /// The file under the cursor of a local active pane.
    pub(crate) fn file_under_cursor(&self, with_dirs: bool) -> (r: Option<String>)
        ensures
            match r {
                Some(p) => cursor_file(*self, with_dirs) == Some(p@),
                None => cursor_file(*self, with_dirs) is None,
            },
    {
        let pane = self.pane(self.active);
        match pane.entry_at(pane.selected) {
            Some(e) => if pane.location.is_local() && (with_dirs || !e.is_dir) {
                Some(join_paths(pane.path(), e.name.as_str()))
            } else {
                None
            },
            None => None,
        }
    }
}

} // verus!
