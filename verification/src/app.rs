//! The state of the application and what every event shares.

use std::collections::VecDeque;
use vstd::prelude::*;
use crate::actions::QuickViewState;
use crate::config::{Config, SavedState};
use crate::entry::{Side, SortBy, SortDir};
use crate::ftp::{FtpLogEntry, FtpServerInfo};
use crate::location::Location;
use crate::message::{Effect, Outcome};
use crate::palette::{add_recent, recents_with, Platform};
use crate::pane::Pane;
use crate::path::{file_name, file_name_of};
use crate::prompt::{NewFilesFocus, Prompt};
use crate::text::{clone_strings, concat3, decimal, decimal_text, string_from};

verus! {

/// How many recent places are kept.
pub const RECENT_CAP: usize = 50;

/// An archive above this size is unpacked only after a question: 100 MiB.
pub const LARGE_ARCHIVE_THRESHOLD: u64 = 104857600;

/// The whole state.
pub struct App {
    pub platform: Platform,
    pub config: Config,
    pub left: Pane,
    pub right: Pane,
    pub active: Side,
    pub prompt: Option<Prompt>,
    pub shift_held: bool,
    pub command_held: bool,
    /// How many sources are being copied, and where to.
    pub copy_in_progress: Option<(usize, String)>,
    pub move_in_progress: Option<(usize, String)>,
    pub delete_in_progress: Option<usize>,
    pub compress_in_progress: Option<(usize, String)>,
    pub uncompress_in_progress: Option<(usize, String)>,
    /// The archive that is being unpacked to be browsed.
    pub extract_in_progress: Option<String>,
    /// The label of the file action that is running.
    pub file_action_in_progress: Option<String>,
    /// New files that turned up while another dialog was open.
    pub pending_new_files: VecDeque<(String, Vec<String>)>,
    pub recent_locations: Vec<String>,
    pub last_error: Option<String>,
    pub ftp_server: Option<FtpServerInfo>,
    pub ftp_log: VecDeque<FtpLogEntry>,
    pub dropped_files: Vec<String>,
    pub drop_seq: u64,
    pub quick_view: Option<QuickViewState>,
    pub quick_view_seq: u64,
}

/// The application with one pane replaced.
pub open spec fn with_pane(a: App, side: Side, p: Pane) -> App {
    match side {
        Side::Left => App { left: p, ..a },
        Side::Right => App { right: p, ..a },
    }
}

/// Nothing but one pane has changed.
pub open spec fn only_pane_changed(o: App, n: App, side: Side) -> bool {
    n == with_pane(o, side, n.pane_of(side))
}

/// Nothing but the dialog has changed.
pub open spec fn only_prompt_changed(o: App, n: App) -> bool {
    n == (App { prompt: n.prompt, ..o })
}

/// What is done when a pane starts to load `location`.
pub open spec fn load_effects(p: Pane, side: Side, active: Side) -> Seq<Effect> {
    let load = Effect::Load { side, location: p.location, generation: p.load_generation };
    if p.location is Local {
        seq![
            load,
            Effect::ProbeMarkers { side, generation: p.load_generation },
            Effect::SaveState,
            Effect::EnsureVisible(active),
        ]
    } else {
        seq![load, Effect::SaveState, Effect::EnsureVisible(active)]
    }
}

/// The recent places after a visit: remote ones are not listed.
pub open spec fn recents_after(recents: Seq<String>, location: Location) -> Seq<String> {
    match location {
        Location::Local(p) => recents_with(recents, p, RECENT_CAP as nat),
        Location::Remote { .. } => recents,
    }
}

/// A pane was sent to a location.
pub open spec fn navigated_to(
    o: App,
    n: App,
    fx: Seq<Effect>,
    side: Side,
    location: Location,
) -> bool {
    &&& n == (App { recent_locations: n.recent_locations, ..with_pane(o, side, n.pane_of(side)) })
    &&& n.pane_of(side).navigated(o.pane_of(side), location)
    &&& n.recent_locations@ == recents_after(o.recent_locations@, location)
    &&& fx == load_effects(n.pane_of(side), side, o.active)
}

/// What is done when a pane's directory is listed again.
pub open spec fn reload_effects(p: Pane, side: Side) -> Seq<Effect> {
    let load = Effect::Load { side, location: p.location, generation: p.load_generation };
    if p.location is Local {
        seq![load, Effect::ProbeMarkers { side, generation: p.load_generation }]
    } else {
        seq![load]
    }
}

/// Both panes were sent to where they are.
pub open spec fn both_reloaded(o: App, n: App, fx: Seq<Effect>) -> bool {
    &&& n == (App { left: n.left, right: n.right, ..o })
    &&& n.left.navigated(o.left, o.left.location)
    &&& n.right.navigated(o.right, o.right.location)
    &&& fx == reload_effects(n.left, Side::Left) + reload_effects(n.right, Side::Right)
}

/// The next queued dialog is shown, if no other is open.
pub open spec fn next_shown(o: App, n: App) -> bool {
    if o.prompt is None && o.pending_new_files@.len() > 0 {
        &&& n == (App { prompt: n.prompt, pending_new_files: n.pending_new_files, ..o })
        &&& n.prompt == Some(
            Prompt::NewFiles {
                folder: o.pending_new_files@[0].0,
                files: o.pending_new_files@[0].1,
                focus: NewFilesFocus::No,
            },
        )
        &&& n.pending_new_files@ == o.pending_new_files@.skip(1)
    } else {
        n == o
    }
}

/// Where a pane starts: where it was left, unless that is a local directory
/// that is gone; then at home.
pub open spec fn restored(saved: Option<Location>, is_dir: bool, home: Seq<char>, r: Location) -> bool {
    match saved {
        Some(Location::Local(p)) => if is_dir {
            r == Location::Local(p)
        } else {
            r matches Location::Local(h) && h@ == home
        },
        Some(Location::Remote { backend, path }) => r == (Location::Remote { backend, path }),
        None => r matches Location::Local(h) && h@ == home,
    }
}

fn restore(saved: Option<Location>, is_dir: bool, home: &str) -> (r: Location)
    ensures
        restored(saved, is_dir, home@, r),
{
    match saved {
        Some(Location::Local(p)) => if is_dir {
            Location::Local(p)
        } else {
            Location::Local(string_from(home))
        },
        Some(l) => l,
        None => Location::Local(string_from(home)),
    }
}

/// The first failure of a list of outcomes.
pub open spec fn first_failure(results: Seq<Outcome>) -> Option<Seq<char>>
    decreases results.len(),
{
    if results.len() == 0 {
        None
    } else {
        match results[0].1 {
            Err(e) => Some(e@),
            Ok(_) => first_failure(results.skip(1)),
        }
    }
}

/// How many outcomes are failures.
pub open spec fn failure_count(results: Seq<Outcome>) -> nat
    decreases results.len(),
{
    if results.len() == 0 {
        0
    } else {
        failure_count(results.drop_last()) + if results.last().1 is Err {
            1nat
        } else {
            0nat
        }
    }
}

/// What the status bar says of failures: the first one, and how many there are
/// where there are several.
pub open spec fn failure_text(verb: Seq<char>, results: Seq<Outcome>) -> Option<Seq<char>> {
    match first_failure(results) {
        None => None,
        Some(e) => if failure_count(results) <= 1 {
            Some(verb + " failed: "@ + e)
        } else {
            Some(verb + " failed ("@ + decimal(failure_count(results)) + " errors): "@ + e)
        },
    }
}

/// What the status bar says of failures.
pub fn batch_error_message(verb: &str, results: &Vec<Outcome>) -> (r: Option<String>)
    ensures
        match r {
            Some(t) => failure_text(verb@, results@) == Some(t@),
            None => failure_text(verb@, results@) is None,
        },
{
    let mut count: usize = 0;
    let mut first: Option<String> = None;
    let mut i: usize = 0;
    let ghost all = results@;
    assert(all.skip(0) =~= all);
    assert(all.take(0) =~= seq![]);
    while i < results.len()
        invariant
            i <= all.len(),
            all == results@,
            count <= i,
            count == failure_count(all.take(i as int)),
            match first {
                Some(e) => first_failure(all) == Some(e@),
                None => first_failure(all) == first_failure(all.skip(i as int)),
            },
        decreases results.len() - i,
    {
        proof {
            assert(all.take(i + 1).drop_last() =~= all.take(i as int));
            assert(all.skip(i as int)[0] == all[i as int]);
            assert(all.skip(i as int).skip(1) =~= all.skip(i + 1));
        }
        match &results[i].1 {
            Err(e) => {
                count += 1;
                if first.is_none() {
                    first = Some(e.clone());
                }
            },
            Ok(_) => {},
        }
        i += 1;
    }
    assert(all.take(all.len() as int) =~= all);
    assert(all.skip(all.len() as int) =~= seq![]);
    match first {
        None => None,
        Some(e) => if count <= 1 {
            Some(concat3(verb, " failed: ", e.as_str()))
        } else {
            let n = decimal_text(count as u64);
            let mut t = concat3(verb, " failed (", n.as_str());
            t.push_str(" errors): ");
            t.push_str(e.as_str());
            Some(t)
        },
    }
}

/// A progress line: what is done to how many of what, and where.
pub open spec fn progress_text(
    verb: Seq<char>,
    count: nat,
    one: Seq<char>,
    many: Seq<char>,
    link: Seq<char>,
    place: Seq<char>,
) -> Seq<char> {
    verb + decimal(count) + " "@ + (if count == 1 {
        one
    } else {
        many
    }) + link + place + "…"@
}

fn progress(verb: &str, count: usize, one: &str, many: &str, link: &str, place: &str) -> (r: String)
    ensures
        r@ == progress_text(verb@, count as nat, one@, many@, link@, place@),
{
    let n = decimal_text(count as u64);
    let mut t = concat3(verb, n.as_str(), " ");
    t.push_str(
        if count == 1 {
            one
        } else {
            many
        },
    );
    t.push_str(link);
    t.push_str(place);
    t.push_str("…");
    t
}

/// A pane whose listing is about to be loaded for the first time.
pub open spec fn is_fresh(p: Pane) -> bool {
    &&& p.entries@.len() == 0
    &&& p.visible_indices@.len() == 0
    &&& p.filter@.len() == 0
    &&& p.selected == 0
    &&& p.anchor == 0
    &&& p.marked@ == Set::<usize>::empty()
    &&& p.sort_by == SortBy::Name
    &&& p.sort_dir == SortDir::Asc
    &&& p.loading
    &&& p.load_generation == 0
    &&& p.git_info is None
    &&& !p.has_claude_md
    &&& !p.has_claude_dir
    &&& p.pending_focus is None
    &&& !p.focus_jump
}

impl App {
    /// The state of a pane.
    pub open spec fn pane_of(&self, side: Side) -> Pane {
        match side {
            Side::Left => self.left,
            Side::Right => self.right,
        }
    }

    /// The state of the active pane.
    pub open spec fn active_pane(&self) -> Pane {
        self.pane_of(self.active)
    }

    /// Both panes are well-formed.
    pub open spec fn wf(&self) -> bool {
        self.left.wf() && self.right.wf()
    }

    /// The counters have not reached the end of their range.
    pub open spec fn has_room(&self) -> bool {
        &&& self.left.load_generation < u64::MAX
        &&& self.right.load_generation < u64::MAX
        &&& self.drop_seq < u64::MAX
        &&& self.quick_view_seq < u64::MAX
    }

    /// The places, the active pane and the recent places of a session that
    /// starts from what the last one has left.
    pub open spec fn starts_from(
        &self,
        saved: Option<SavedState>,
        home: Seq<char>,
        left_is_dir: bool,
        right_is_dir: bool,
    ) -> bool {
        &&& restored(
            match saved {
                Some(s) => Some(s.left),
                None => None,
            },
            left_is_dir,
            home,
            self.left.location,
        )
        &&& restored(
            match saved {
                Some(s) => Some(s.right),
                None => None,
            },
            right_is_dir,
            home,
            self.right.location,
        )
        &&& self.active == match saved {
            Some(s) => s.active,
            None => Side::Left,
        }
        &&& self.recent_locations@ == match saved {
            Some(s) => s.recent@,
            None => seq![],
        }
    }

    /// The state at the start, restored from the last session. What is to be
    /// done first is to load both panes.
    pub fn new(
        config: Config,
        platform: Platform,
        home: &str,
        saved: Option<SavedState>,
        left_is_dir: bool,
        right_is_dir: bool,
    ) -> (r: (App, Vec<Effect>))
        ensures
            r.0.config == config,
            r.0.platform == platform,
            r.0.starts_from(saved, home@, left_is_dir, right_is_dir),
            is_fresh(r.0.left),
            is_fresh(r.0.right),
            r.0.prompt is None,
            !r.0.shift_held,
            !r.0.command_held,
            r.0.copy_in_progress is None,
            r.0.move_in_progress is None,
            r.0.delete_in_progress is None,
            r.0.compress_in_progress is None,
            r.0.uncompress_in_progress is None,
            r.0.extract_in_progress is None,
            r.0.file_action_in_progress is None,
            r.0.pending_new_files@.len() == 0,
            r.0.last_error is None,
            r.0.ftp_server is None,
            r.0.ftp_log@.len() == 0,
            r.0.dropped_files@.len() == 0,
            r.0.drop_seq == 0,
            r.0.quick_view is None,
            r.0.quick_view_seq == 0,
            r.0.status_spec() == Some("Loading "@ + r.0.left.location@.path() + "…"@),
            r.0.wf(),
            r.0.has_room(),
            r.1@ == reload_effects(r.0.left, Side::Left) + reload_effects(r.0.right, Side::Right),
    {
        let (l, rt, active, recent_locations) = match saved {
            Some(s) => (Some(s.left), Some(s.right), s.active, s.recent),
            None => (None, None, Side::Left, Vec::new()),
        };
        let left = Pane::empty(restore(l, left_is_dir, home));
        let right = Pane::empty(restore(rt, right_is_dir, home));
        let mut fx: Vec<Effect> = Vec::new();
        push_reload(&mut fx, &left, Side::Left);
        push_reload(&mut fx, &right, Side::Right);
        let app = App {
            platform,
            config,
            left,
            right,
            active,
            prompt: None,
            shift_held: false,
            command_held: false,
            copy_in_progress: None,
            move_in_progress: None,
            delete_in_progress: None,
            compress_in_progress: None,
            uncompress_in_progress: None,
            extract_in_progress: None,
            file_action_in_progress: None,
            pending_new_files: VecDeque::new(),
            recent_locations,
            last_error: None,
            ftp_server: None,
            ftp_log: VecDeque::new(),
            dropped_files: Vec::new(),
            drop_seq: 0,
            quick_view: None,
            quick_view_seq: 0,
        };
        (app, fx)
    }

    /// What the next session starts from.
    pub open spec fn leaves(&self, r: SavedState) -> bool {
        &&& r.left == self.left.location
        &&& r.right == self.right.location
        &&& r.active == self.active
        &&& r.recent@ == self.recent_locations@
    }

    /// What the next session starts from.
    pub fn saved_state(&self) -> (r: SavedState)
        ensures
            self.leaves(r),
    {
        SavedState {
            left: self.left.location.clone(),
            right: self.right.location.clone(),
            active: self.active,
            recent: clone_strings(&self.recent_locations),
        }
    }

    /// The pane on a side.
    pub fn pane(&self, side: Side) -> (r: &Pane)
        ensures
            *r == self.pane_of(side),
    {
        match side {
            Side::Left => &self.left,
            Side::Right => &self.right,
        }
    }

    /// Whether the active pane is inside a repository.
    pub fn in_git_repo(&self) -> (r: bool)
        ensures
            r == self.active_pane().git_info is Some,
    {
        self.pane(self.active).git_info.is_some()
    }

    pub(crate) fn pane_mut(&mut self, side: Side) -> (r: &mut Pane)
        ensures
            *r == old(self).pane_of(side),
            *final(self) == with_pane(*old(self), side, *final(r)),
    {
        match side {
            Side::Left => &mut self.left,
            Side::Right => &mut self.right,
        }
    }

    /// Sends a pane to a location.
    pub(crate) fn navigate(&mut self, side: Side, location: Location) -> (fx: Vec<Effect>)
        requires
            old(self).pane_of(side).load_generation < u64::MAX,
        ensures
            navigated_to(*old(self), *final(self), fx@, side, location),
            old(self).wf() ==> final(self).wf(),
    {
        let copy = location.clone();
        let generation: u64 = self.pane_mut(side).navigate(location);
        let mut fx: Vec<Effect> = Vec::new();
        let local: Option<String> = match &copy {
            Location::Local(p) => Some(p.clone()),
            Location::Remote { .. } => None,
        };
        fx.push(Effect::Load { side, location: copy, generation });
        match local {
            Some(p) => {
                add_recent(&mut self.recent_locations, p, RECENT_CAP);
                fx.push(Effect::ProbeMarkers { side, generation });
            },
            None => {},
        }
        fx.push(Effect::SaveState);
        fx.push(Effect::EnsureVisible(self.active));
        assert(fx@ =~= load_effects(self.pane_of(side), side, self.active));
        fx
    }

    /// Lists both directories again.
    pub(crate) fn reload_both_panes(&mut self) -> (fx: Vec<Effect>)
        requires
            old(self).left.load_generation < u64::MAX,
            old(self).right.load_generation < u64::MAX,
        ensures
            both_reloaded(*old(self), *final(self), fx@),
            final(self).wf(),
    {
        let l = self.left.location.clone();
        let r = self.right.location.clone();
        let _ = self.left.navigate(l);
        let _ = self.right.navigate(r);
        let mut fx: Vec<Effect> = Vec::new();
        push_reload(&mut fx, &self.left, Side::Left);
        push_reload(&mut fx, &self.right, Side::Right);
        fx
    }

    /// Shows the next queued dialog, if no other is open.
    pub(crate) fn show_next_pending(&mut self)
        ensures
            next_shown(*old(self), *final(self)),
    {
        if self.prompt.is_some() || self.pending_new_files.len() == 0 {
            return;
        }
        let ghost before = self.pending_new_files@;
        match self.pending_new_files.pop_front() {
            Some((folder, files)) => {
                assert(self.pending_new_files@ =~= before.skip(1));
                self.prompt = Some(Prompt::NewFiles { folder, files, focus: NewFilesFocus::No });
            },
            None => {},
        }
    }

    /// What the status bar says while something is going on. What the user has
    /// asked for comes before the loading of the panes.
    pub open spec fn status_spec(&self) -> Option<Seq<char>> {
        if let Some((n, dest)) = self.copy_in_progress {
            Some(progress_text("Copying "@, n as nat, "file"@, "files"@, " to "@, dest@))
        } else if let Some((n, dest)) = self.move_in_progress {
            Some(progress_text("Moving "@, n as nat, "file"@, "files"@, " to "@, dest@))
        } else if let Some((n, out)) = self.compress_in_progress {
            Some(progress_text("Compressing "@, n as nat, "file"@, "files"@, " → "@, out@))
        } else if let Some((n, dest)) = self.uncompress_in_progress {
            Some(progress_text("Extracting "@, n as nat, "archive"@, "archives"@, " to "@, dest@))
        } else if let Some(archive) = self.extract_in_progress {
            Some("Extracting "@ + match file_name(archive@) {
                Some(name) => name,
                None => archive@,
            } + " to /tmp…"@)
        } else if let Some(n) = self.delete_in_progress {
            Some("Deleting "@ + decimal(n as nat) + " "@ + (if n == 1 {
                "file"@
            } else {
                "files"@
            }) + "…"@)
        } else if let Some(label) = self.file_action_in_progress {
            Some("Running "@ + label@ + "…"@)
        } else if self.left.loading {
            Some("Loading "@ + self.left.location@.path() + "…"@)
        } else if self.right.loading {
            Some("Loading "@ + self.right.location@.path() + "…"@)
        } else {
            None
        }
    }

    /// What the status bar says while something is going on.
    pub fn status_text(&self) -> (r: Option<String>)
        ensures
            match r {
                Some(t) => self.status_spec() == Some(t@),
                None => self.status_spec() is None,
            },
    {
        if let Some((n, dest)) = &self.copy_in_progress {
            return Some(progress("Copying ", *n, "file", "files", " to ", dest.as_str()));
        }
        if let Some((n, dest)) = &self.move_in_progress {
            return Some(progress("Moving ", *n, "file", "files", " to ", dest.as_str()));
        }
        if let Some((n, out)) = &self.compress_in_progress {
            return Some(progress("Compressing ", *n, "file", "files", " → ", out.as_str()));
        }
        if let Some((n, dest)) = &self.uncompress_in_progress {
            return Some(progress("Extracting ", *n, "archive", "archives", " to ", dest.as_str()));
        }
        if let Some(archive) = &self.extract_in_progress {
            let name = match file_name_of(archive.as_str()) {
                Some(n) => n,
                None => archive.clone(),
            };
            return Some(concat3("Extracting ", name.as_str(), " to /tmp…"));
        }
        if let Some(n) = self.delete_in_progress {
            let count = decimal_text(n as u64);
            let mut t = concat3("Deleting ", count.as_str(), " ");
            t.push_str(
                if n == 1 {
                    "file"
                } else {
                    "files"
                },
            );
            t.push_str("…");
            return Some(t);
        }
        if let Some(label) = &self.file_action_in_progress {
            return Some(concat3("Running ", label.as_str(), "…"));
        }
        if self.left.loading {
            return Some(concat3("Loading ", self.left.path(), "…"));
        }
        if self.right.loading {
            return Some(concat3("Loading ", self.right.path(), "…"));
        }
        None
    }

    /// The status bar: what is going on, else the last failure, else the
    /// running server, else that all is ready. The flag tells a failure.
    pub fn status_line(&self) -> (r: (String, bool))
        ensures
            match self.status_spec() {
                Some(t) => r.0@ == t && !r.1,
                None => match self.last_error {
                    Some(e) => r.0 == e && r.1,
                    None => !r.1 && r.0@ == match self.ftp_server {
                        Some(info) => "FTP server on "@ + (info.display_host@ + ":"@ + decimal(
                            info.port as nat,
                        )) + " → "@ + info.root@,
                        None => "Ready"@,
                    },
                },
            },
    {
        match self.status_text() {
            Some(t) => (t, false),
            None => match &self.last_error {
                Some(e) => (e.clone(), true),
                None => match &self.ftp_server {
                    Some(info) => {
                        let addr = info.display_addr();
                        let mut t = concat3("FTP server on ", addr.as_str(), " → ");
                        t.push_str(info.root.as_str());
                        (t, false)
                    },
                    None => (string_from("Ready"), false),
                },
            },
        }
    }
}

pub(crate) fn push_reload(fx: &mut Vec<Effect>, p: &Pane, side: Side)
    ensures
        final(fx)@ == old(fx)@ + reload_effects(*p, side),
{
    let ghost before = fx@;
    fx.push(
        Effect::Load { side, location: p.location.clone(), generation: p.load_generation },
    );
    if p.location.is_local() {
        fx.push(Effect::ProbeMarkers { side, generation: p.load_generation });
    }
    assert(fx@ =~= before + reload_effects(*p, side));
}

} // verus!
