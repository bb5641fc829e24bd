//! Events that open dialogs, confirm them, and run palette actions.

use vstd::prelude::*;
use crate::actions::{expanded, file_tokens, or_empty, substitute_command, FileChoice};
use crate::app::{only_prompt_changed, App};
use crate::app_panes::navigated_to_view;
use crate::apps::{filtered_apps, Application, AppsState};
use crate::config::{expand_tilde, tilde_expanded};
use crate::docker::{DockerSortBy, DockerState};
use crate::entry::{Entry, SortDir};
use crate::filtering::{items_of, query_matches};
use crate::ftp::{decide_ftp_action, FtpAction, FtpInfoFocus, FtpReplaceFocus};
use crate::git::{filtered_branches, GitBranch, GitBranchesState};
use crate::location::{parse_location, show_location, BackendId, Location, LocationView};
use crate::message::{one, two, Effect, Surroundings};
use crate::palette::{action_enabled, actions_matching, available_palette_actions};
use crate::palette::{default_zip_filename, filtered_actions, filtered_recents, listed_actions};
use crate::palette::{palette_action_enabled, recents_matching, zip_name, PaletteAction};
use crate::pane::location_views;
use crate::path::{absolute, is_absolute, join_path, join_paths, parent_of, parent_path, same_path};
use crate::process::{filtered_processes, Process, ProcessSortBy, ProcessesState};
use crate::prompt::{DeleteFocus, Prompt};
use crate::ssh::{filtered_servers, server_matches, SshServer, SshServersState};
use crate::text::{chars_of, clone_strings, concat2, string_from, texts, trim, trim_text};

verus! {

/// The places of the marked entries of the active pane.
pub open spec fn marked_places(o: App) -> Seq<LocationView> {
    let p = o.active_pane();
    p.spec_marked_entries().map_values(
        |e: Entry| p.location@.with_path(join_path(p.location@.path(), e.name@)),
    )
}

/// The paths of the marked entries of the active pane.
pub open spec fn marked_path_texts(o: App) -> Seq<Seq<char>> {
    let p = o.active_pane();
    p.spec_marked_entries().map_values(|e: Entry| join_path(p.location@.path(), e.name@))
}

/// The dialog that goes to a folder, over the recent places.
pub open spec fn open_dialog(o: App, n: App) -> bool {
    &&& only_prompt_changed(o, n)
    &&& n.prompt matches Some(Prompt::Open { input, recents, selected })
    &&& input@.len() == 0
    &&& recents@ == o.recent_locations@
    &&& selected == 0
}

/// The palette with the actions that can be listed now.
pub open spec fn palette_dialog(o: App, n: App) -> bool {
    &&& only_prompt_changed(o, n)
    &&& n.prompt matches Some(
        Prompt::CommandPalette { input, selected, actions, dropbox_configured },
    )
    &&& input@.len() == 0
    &&& selected == 0
    &&& actions@ == listed_actions(o.platform, o.active_pane().git_info is Some)
    &&& dropbox_configured == o.config.has_dropbox_auth()
}

/// The question before the marked entries are deleted; none where nothing is
/// marked. Its focus is on the button that cancels.
pub open spec fn delete_dialog(o: App, n: App) -> bool {
    if marked_places(o).len() == 0 {
        n == o
    } else {
        &&& only_prompt_changed(o, n)
        &&& n.prompt matches Some(Prompt::Delete { paths, focus })
        &&& location_views(paths@) == marked_places(o)
        &&& focus == DeleteFocus::Cancel
    }
}

/// The dialog that asks where to copy or move: to the other pane's place.
pub open spec fn transfer_dialog(o: App, n: App, moving: bool) -> bool {
    let dest = show_location(o.pane_of(o.active.spec_other()).location@);
    &&& only_prompt_changed(o, n)
    &&& if moving {
        n.prompt matches Some(Prompt::Move { input }) && input@ == dest
    } else {
        n.prompt matches Some(Prompt::Copy { input }) && input@ == dest
    }
}

/// Where a typed destination leads: `~` is the home directory, and a relative
/// path starts at the active pane's place.
pub open spec fn destination(o: App, input: Seq<char>, home: Seq<char>) -> Option<LocationView> {
    let t = trim(input);
    if t.len() == 0 {
        None
    } else {
        let here = o.active_pane().location@;
        match parse_location(tilde_expanded(t, home)) {
            LocationView::Local(p) => if is_absolute(p) {
                Some(LocationView::Local(p))
            } else {
                Some(here.with_path(join_path(here.path(), p)))
            },
            l => Some(l),
        }
    }
}

/// How a destination is meant.
#[derive(Debug, Clone, Copy, PartialEq, Eq, Structural)]
pub enum Target {
    /// A directory that the sources go into.
    Into,
    /// The new path of a single source.
    Exactly,
    /// Nothing that sources can go to.
    Nowhere,
}

/// How a destination is meant: an existing directory takes the sources in; for
/// a single source, a path that does not exist yet in a directory that does is
/// its new path. A remote place is a directory where a pane shows it, and is
/// otherwise trusted to be the new path of a single source.
pub open spec fn target_of(o: App, d: LocationView, count: nat, w: Surroundings) -> Target {
    match d {
        LocationView::Local(p) => if w.spec_is_dir(p) {
            Target::Into
        } else if count == 1 && !w.spec_exists(p) && (parent_path(p) matches Some(q)
            && w.spec_is_dir(q)) {
            Target::Exactly
        } else {
            Target::Nowhere
        },
        LocationView::Remote { .. } => if count == 1 && !d.same_place(o.left.location@)
            && !d.same_place(o.right.location@) {
            Target::Exactly
        } else {
            Target::Into
        },
    }
}

/// Copying or moving the marked entries was started, where there are any and
/// the destination can take them.
pub open spec fn transfer_started(
    o: App,
    n: App,
    fx: Seq<Effect>,
    input: Seq<char>,
    w: Surroundings,
    moving: bool,
) -> bool {
    let srcs = marked_places(o);
    match destination(o, input, w.home@) {
        None => n == o && fx.len() == 0,
        Some(d) => {
            let target = target_of(o, d, srcs.len(), w);
            if srcs.len() == 0 || target == Target::Nowhere {
                n == o && fx.len() == 0
            } else {
                &&& if moving {
                    &&& n == (App { move_in_progress: n.move_in_progress, ..o })
                    &&& n.move_in_progress matches Some((k, t))
                    &&& k == srcs.len()
                    &&& t@ == show_location(d)
                } else {
                    &&& n == (App { copy_in_progress: n.copy_in_progress, ..o })
                    &&& n.copy_in_progress matches Some((k, t))
                    &&& k == srcs.len()
                    &&& t@ == show_location(d)
                }
                &&& fx.len() == 1
                &&& match (moving, target) {
                    (false, Target::Into) => fx[0] matches Effect::Copy { srcs: s, dest }
                        && location_views(s@) == srcs && dest@ == d,
                    (true, Target::Into) => fx[0] matches Effect::Move { srcs: s, dest }
                        && location_views(s@) == srcs && dest@ == d,
                    (false, _) => fx[0] matches Effect::CopyAs { src, dest } && src@ == srcs[0]
                        && dest@ == d,
                    (true, _) => fx[0] matches Effect::Rename { src, dest } && src@ == srcs[0]
                        && dest@ == d,
                }
            }
        },
    }
}

/// The folder that the go-to dialog opens: the typed one where it exists, else
/// the highlighted one where that does.
pub open spec fn open_target(
    input: Seq<char>,
    recents: Seq<String>,
    selected: usize,
    w: Surroundings,
) -> Option<Seq<char>> {
    let typed = tilde_expanded(trim(input), w.home@);
    let shown = recents_matching(recents, input);
    if w.spec_is_dir(typed) {
        Some(typed)
    } else if selected < shown.len() && w.spec_is_dir(shown[selected as int]@) {
        Some(shown[selected as int]@)
    } else {
        None
    }
}

/// A row of the file chooser was run on a file. A command that was edited runs
/// as it stands; otherwise the template is filled in.
pub open spec fn choice_run(
    o: App,
    n: App,
    fx: Seq<Effect>,
    path: String,
    choice: FileChoice,
    edit: Option<String>,
) -> bool {
    match choice {
        FileChoice::OpenDefault => n == o && fx == seq![Effect::OpenDefault(path)],
        FileChoice::Custom { label, command, terminal } => {
            &&& fx.len() == 1
            &&& fx[0] matches Effect::RunCommand { command: c, dir, terminal: t }
            &&& t == terminal
            &&& dir@ == or_empty(parent_path(path@))
            &&& c@ == match edit {
                Some(e) => e@,
                None => expanded(command@, file_tokens(path@)),
            }
            &&& n == (App { file_action_in_progress: n.file_action_in_progress, ..o })
            &&& if terminal {
                n.file_action_in_progress == o.file_action_in_progress
            } else {
                n.file_action_in_progress == Some(label)
            }
        },
    }
}

/// A new folder or file is to be made in the active pane, unless the pane is
/// remote, the name is blank, or there is something of that name already.
pub open spec fn item_requested(
    o: App,
    n: App,
    fx: Seq<Effect>,
    input: Seq<char>,
    w: Surroundings,
    folder: bool,
) -> bool {
    let name = trim(input);
    let here = o.active_pane().location;
    let path = join_path(here@.path(), name);
    if name.len() == 0 {
        n == o && fx.len() == 0
    } else if !(here is Local) {
        &&& n == (App { last_error: n.last_error, ..o })
        &&& n.last_error matches Some(e)
        &&& e@ == "New items can only be made in a local folder"@
        &&& fx.len() == 0
    } else if w.spec_exists(path) {
        &&& n == (App { last_error: n.last_error, ..o })
        &&& n.last_error matches Some(e)
        &&& e@ == path + " already exists"@
        &&& fx.len() == 0
    } else {
        &&& n == o
        &&& fx.len() == 1
        &&& if folder {
            fx[0] matches Effect::MakeDir(p) && p@ == path
        } else {
            fx[0] matches Effect::MakeFile(p) && p@ == path
        }
    }
}

/// Nothing was chosen: the dialog stays open and nothing happens.
pub open spec fn kept(o: App, n: App, fx: Seq<Effect>, p: Prompt) -> bool {
    n == (App { prompt: Some(p), ..o }) && fx.len() == 0
}

/// What confirming a dialog does. `o` is the state with the dialog closed.
pub open spec fn submitted(o: App, p: Prompt, w: Surroundings, n: App, fx: Seq<Effect>) -> bool {
    match p {
        Prompt::Open { input, recents, selected } => match open_target(
            input@,
            recents@,
            selected,
            w,
        ) {
            Some(t) => navigated_to_view(o, n, fx, o.active, LocationView::Local(t)),
            None => n == o && fx.len() == 0,
        },
        Prompt::Copy { input } => transfer_started(o, n, fx, input@, w, false),
        Prompt::Move { input } => transfer_started(o, n, fx, input@, w, true),
        Prompt::NewFolder { input } => item_requested(o, n, fx, input@, w, true),
        Prompt::NewFile { input } => item_requested(o, n, fx, input@, w, false),
        Prompt::Compress { input } => if marked_path_texts(o).len() > 0
            && o.active_pane().location is Local {
            let out = tilde_expanded(trim(input@), w.home@);
            &&& n == (App { compress_in_progress: n.compress_in_progress, ..o })
            &&& n.compress_in_progress matches Some((k, t))
            &&& k == marked_path_texts(o).len()
            &&& t@ == out
            &&& fx.len() == 1
            &&& fx[0] matches Effect::Compress { srcs, output, working_dir }
            &&& texts(srcs@) == marked_path_texts(o)
            &&& output@ == out
            &&& working_dir@ == o.active_pane().location@.path()
        } else {
            n == o && fx.len() == 0
        },
        Prompt::Uncompress { input } => {
            let dest = tilde_expanded(trim(input@), w.home@);
            if marked_path_texts(o).len() > 0 && o.active_pane().location is Local
                && w.spec_is_dir(dest) {
                &&& n == (App { uncompress_in_progress: n.uncompress_in_progress, ..o })
                &&& n.uncompress_in_progress matches Some((k, t))
                &&& k == marked_path_texts(o).len()
                &&& t@ == dest
                &&& fx.len() == 1
                &&& fx[0] matches Effect::Uncompress { archives, dest: d }
                &&& texts(archives@) == marked_path_texts(o)
                &&& d@ == dest
            } else {
                n == o && fx.len() == 0
            }
        },
        Prompt::Delete { paths, .. } => if paths@.len() > 0 {
            &&& n == (App { delete_in_progress: Some(paths@.len() as usize), ..o })
            &&& fx == seq![Effect::Delete(paths)]
        } else {
            n == o && fx.len() == 0
        },
        Prompt::ConfirmLargeExtract { archive_path, .. } => {
            &&& n == (App { extract_in_progress: Some(archive_path), ..o })
            &&& fx == seq![Effect::ExtractToTemp(archive_path)]
        },
        Prompt::NewFiles { .. } => n == o && fx.len() == 0,
        Prompt::CommandPalette { input, selected, actions, dropbox_configured } => {
            let shown = actions_matching(actions@, input@);
            if selected >= shown.len() {
                n == o && fx.len() == 0
            } else if !action_enabled(shown[selected as int], dropbox_configured) {
                kept(o, n, fx, p)
            } else {
                palette_done(o, n, fx, shown[selected as int])
            }
        },
        Prompt::Processes { state: ProcessesState::Loaded(list), input, selected, .. } => {
            let shown = list@.filter(|x: Process| query_matches(x.name@, input@));
            if selected < shown.len() {
                n == (App { prompt: Some(p), ..o }) && fx == seq![
                    Effect::KillProcess(shown[selected as int].pid),
                ]
            } else {
                kept(o, n, fx, p)
            }
        },
        Prompt::Apps { state: AppsState::Loaded(list), input, selected } => {
            let shown = list@.filter(|x: Application| query_matches(x.name@, input@));
            if selected < shown.len() {
                n == o && fx == seq![Effect::LaunchApp(shown[selected as int].path)]
            } else {
                kept(o, n, fx, p)
            }
        },
        Prompt::GitBranches { state: GitBranchesState::Loaded(list), input, selected, repo_path } => {
            let shown = list@.filter(|x: GitBranch| query_matches(x.name@, input@));
            if selected < shown.len() {
                n == (App { prompt: Some(p), ..o }) && fx == seq![
                    Effect::Checkout { repo: repo_path, branch: shown[selected as int].name },
                ]
            } else {
                kept(o, n, fx, p)
            }
        },
        Prompt::SshServers { state: SshServersState::Loaded(list), input, selected } => {
            let shown = list@.filter(|x: SshServer| server_matches(x, input@));
            if selected < shown.len() {
                n == o && fx == seq![Effect::SshConnect(shown[selected as int].alias)]
            } else {
                kept(o, n, fx, p)
            }
        },
        Prompt::FileActions { path, choices, selected, edit } => if selected < choices@.len() {
            choice_run(o, n, fx, path, choices@[selected as int], edit)
        } else {
            n == o && fx.len() == 0
        },
        _ => kept(o, n, fx, p),
    }
}

/// What a palette action does. `o` is the state with the palette closed.
pub open spec fn palette_done(o: App, n: App, fx: Seq<Effect>, action: PaletteAction) -> bool {
    let here = o.active_pane().location;
    let other = o.pane_of(o.active.spec_other()).location;
    let nothing = n == o && fx.len() == 0;
    match action {
        PaletteAction::Copy => transfer_dialog(o, n, false) && fx == seq![Effect::FocusInput],
        PaletteAction::Move => transfer_dialog(o, n, true) && fx == seq![Effect::FocusInput],
        PaletteAction::Delete => delete_dialog(o, n) && fx.len() == 0,
        PaletteAction::Compress => if here is Local && marked_path_texts(o).len() > 0 {
            &&& only_prompt_changed(o, n)
            &&& n.prompt matches Some(Prompt::Compress { input })
            &&& input@ == join_path(other@.path(), zip_name(marked_path_texts(o)))
            &&& fx == seq![Effect::FocusInput]
        } else {
            nothing
        },
        PaletteAction::Uncompress => if here is Local && marked_path_texts(o).len() > 0 {
            &&& only_prompt_changed(o, n)
            &&& n.prompt matches Some(Prompt::Uncompress { input })
            &&& input@ == other@.path()
            &&& fx == seq![Effect::FocusInput]
        } else {
            nothing
        },
        PaletteAction::DockerContainers => {
            &&& only_prompt_changed(o, n)
            &&& n.prompt matches Some(Prompt::Docker { state, input, sort_by, sort_dir })
            &&& state is Loading
            &&& input@.len() == 0
            &&& sort_by == DockerSortBy::Name
            &&& sort_dir == SortDir::Asc
            &&& fx == seq![Effect::ListContainers, Effect::FocusInput]
        },
        PaletteAction::Processes => {
            &&& only_prompt_changed(o, n)
            &&& n.prompt matches Some(
                Prompt::Processes { state, input, sort_by, sort_dir, selected },
            )
            &&& state is Loading
            &&& input@.len() == 0
            &&& sort_by == ProcessSortBy::Cpu
            &&& sort_dir == SortDir::Desc
            &&& selected == 0
            &&& fx == seq![Effect::ListProcesses, Effect::FocusInput]
        },
        PaletteAction::LaunchApplication => {
            &&& only_prompt_changed(o, n)
            &&& n.prompt matches Some(Prompt::Apps { state, input, selected })
            &&& state is Loading
            &&& input@.len() == 0
            &&& selected == 0
            &&& fx == seq![Effect::ScanApps, Effect::FocusInput]
        },
        PaletteAction::GitBranch => match here {
            Location::Local(p) => {
                &&& only_prompt_changed(o, n)
                &&& n.prompt matches Some(
                    Prompt::GitBranches { state, input, selected, repo_path },
                )
                &&& state is Loading
                &&& input@.len() == 0
                &&& selected == 0
                &&& repo_path == p
                &&& fx == seq![Effect::ListBranches(p), Effect::FocusInput]
            },
            _ => nothing,
        },
        PaletteAction::SshConnect => {
            &&& only_prompt_changed(o, n)
            &&& n.prompt matches Some(Prompt::SshServers { state, input, selected })
            &&& state is Loading
            &&& input@.len() == 0
            &&& selected == 0
            &&& fx == seq![Effect::ReadSshConfig, Effect::FocusInput]
        },
        PaletteAction::OpenDropbox => if o.config.has_dropbox_auth() {
            navigated_to_view(
                o,
                n,
                fx,
                o.active,
                LocationView::Remote { backend: "dropbox"@, path: "/"@ },
            )
        } else {
            nothing
        },
        PaletteAction::OpenClaudeCode => match here {
            Location::Local(p) => n == o && fx == seq![Effect::OpenClaudeCode(p)],
            _ => nothing,
        },
        PaletteAction::OpenTerminal => match here {
            Location::Local(p) => n == o && fx == seq![Effect::OpenTerminal(p)],
            _ => nothing,
        },
        PaletteAction::OpenInEditor => match here {
            Location::Local(p) => n == o && fx == seq![Effect::OpenInEditor(p)],
            _ => nothing,
        },
        PaletteAction::RevealInFinder => match here {
            Location::Local(p) => n == o && fx == seq![Effect::RevealInFinder(p)],
            _ => nothing,
        },
        PaletteAction::FtpServer => match here {
            Location::Local(p) => match o.ftp_server {
                None => n == o && fx.len() == 1 && (fx[0] matches Effect::StartFtp(r) && r@ == p@),
                Some(info) => {
                    &&& only_prompt_changed(o, n)
                    &&& fx.len() == 0
                    &&& if same_path(info.root@, p@) {
                        n.prompt == Some(Prompt::FtpInfo { info, focus: FtpInfoFocus::Close })
                    } else {
                        &&& n.prompt matches Some(
                            Prompt::FtpReplace { current, new_root, focus },
                        )
                        &&& current == info
                        &&& new_root@ == p@
                        &&& focus == FtpReplaceFocus::Cancel
                    }
                },
            },
            _ => {
                &&& n == (App { last_error: n.last_error, ..o })
                &&& n.last_error matches Some(e)
                &&& e@ == "The FTP server needs a local folder"@
                &&& fx.len() == 0
            },
        },
        PaletteAction::NewFile => {
            &&& only_prompt_changed(o, n)
            &&& n.prompt matches Some(Prompt::NewFile { input })
            &&& input@ == "file.txt"@
            &&& fx == seq![Effect::FocusInput]
        },
        PaletteAction::KeyboardShortcuts => {
            &&& n == (App { prompt: Some(Prompt::KeyboardShortcuts), ..o })
            &&& fx.len() == 0
        },
        PaletteAction::Exit => n == o && fx == seq![Effect::Exit],
    }
}

impl App {
    pub(crate) fn open_go_to(&mut self) -> (fx: Vec<Effect>)
        ensures
            open_dialog(*old(self), *final(self)),
            fx@ == seq![Effect::FocusInput],
    {
        self.prompt = Some(
            Prompt::Open {
                input: String::new(),
                recents: clone_strings(&self.recent_locations),
                selected: 0,
            },
        );
        one(Effect::FocusInput)
    }

    pub(crate) fn open_palette(&mut self) -> (fx: Vec<Effect>)
        ensures
            palette_dialog(*old(self), *final(self)),
            fx@ == seq![Effect::FocusInput],
    {
        let actions = available_palette_actions(self.platform, self.in_git_repo());
        let dropbox_configured: bool = self.config.dropbox_auth().is_some();
        self.prompt = Some(
            Prompt::CommandPalette {
                input: String::new(),
                selected: 0,
                actions,
                dropbox_configured,
            },
        );
        one(Effect::FocusInput)
    }

    pub(crate) fn open_transfer(&mut self, moving: bool) -> (fx: Vec<Effect>)
        ensures
            transfer_dialog(*old(self), *final(self), moving),
            fx@ == seq![Effect::FocusInput],
    {
        let input = self.pane(self.active.other()).location.to_text();
        self.prompt = if moving {
            Some(Prompt::Move { input })
        } else {
            Some(Prompt::Copy { input })
        };
        one(Effect::FocusInput)
    }

    pub(crate) fn open_delete(&mut self)
        ensures
            delete_dialog(*old(self), *final(self)),
    {
        let paths = self.pane(self.active).marked_locations();
        assert(location_views(paths@) =~= marked_places(*self));
        if paths.len() > 0 {
            self.prompt = Some(Prompt::Delete { paths, focus: DeleteFocus::Cancel });
        }
    }

    pub(crate) fn resolve_destination(&self, input: &str, home: &str) -> (r: Option<Location>)
        ensures
            match r {
                Some(d) => destination(*self, input@, home@) == Some(d@),
                None => destination(*self, input@, home@) is None,
            },
    {
        let t = trim_text(input);
        if t.as_str().is_empty() {
            return None;
        }
        let full = expand_tilde(t.as_str(), home);
        let l = Location::parse(full.as_str());
        match &l {
            Location::Local(p) => {
                let v = chars_of(p.as_str());
                if !absolute(v.as_slice()) {
                    return Some(self.pane(self.active).location.join(p.as_str()));
                }
            },
            Location::Remote { .. } => {},
        }
        Some(l)
    }

    fn find_target(&self, d: &Location, count: usize, w: &Surroundings) -> (r: Target)
        ensures
            r == target_of(*self, d@, count as nat, *w),
    {
        match d {
            Location::Local(p) => {
                if w.is_dir(p.as_str()) {
                    return Target::Into;
                }
                if count == 1 && !w.exists_at(p.as_str()) {
                    match parent_of(p.as_str()) {
                        Some(q) => {
                            if w.is_dir(q.as_str()) {
                                return Target::Exactly;
                            }
                        },
                        None => {},
                    }
                }
                Target::Nowhere
            },
            Location::Remote { .. } => if count == 1 && !d.same_place(&self.left.location)
                && !d.same_place(&self.right.location) {
                Target::Exactly
            } else {
                Target::Into
            },
        }
    }

    fn start_transfer(&mut self, input: &str, w: &Surroundings, moving: bool) -> (fx: Vec<Effect>)
        ensures
            transfer_started(*old(self), *final(self), fx@, input@, *w, moving),
            old(self).wf() ==> final(self).wf(),
    {
        let dest = match self.resolve_destination(input, w.home.as_str()) {
            Some(d) => d,
            None => return Vec::new(),
        };
        let srcs = self.pane(self.active).marked_locations();
        assert(location_views(srcs@) =~= marked_places(*self));
        let n: usize = srcs.len();
        if n == 0 {
            return Vec::new();
        }
        let target = self.find_target(&dest, n, w);
        let text = dest.to_text();
        match target {
            Target::Nowhere => return Vec::new(),
            _ => {},
        }
        if moving {
            self.move_in_progress = Some((n, text));
        } else {
            self.copy_in_progress = Some((n, text));
        }
        match target {
            Target::Into => if moving {
                one(Effect::Move { srcs, dest })
            } else {
                one(Effect::Copy { srcs, dest })
            },
            _ => {
                let src = srcs[0].clone();
                assert(location_views(srcs@)[0] == src@);
                if moving {
                    one(Effect::Rename { src, dest })
                } else {
                    one(Effect::CopyAs { src, dest })
                }
            },
        }
    }

    fn request_item(&mut self, input: &str, w: &Surroundings, folder: bool) -> (fx: Vec<Effect>)
        ensures
            item_requested(*old(self), *final(self), fx@, input@, *w, folder),
            old(self).wf() ==> final(self).wf(),
    {
        let name = trim_text(input);
        if name.as_str().is_empty() {
            return Vec::new();
        }
        if !self.pane(self.active).location.is_local() {
            self.last_error = Some(string_from("New items can only be made in a local folder"));
            return Vec::new();
        }
        let path = join_paths(self.pane(self.active).path(), name.as_str());
        if w.exists_at(path.as_str()) {
            self.last_error = Some(concat2(path.as_str(), " already exists"));
            return Vec::new();
        }
        if folder {
            one(Effect::MakeDir(path))
        } else {
            one(Effect::MakeFile(path))
        }
    }

    pub(crate) fn run_choice(&mut self, path: String, choice: &FileChoice, edit: Option<String>) -> (fx:
        Vec<Effect>)
        ensures
            choice_run(*old(self), *final(self), fx@, path, *choice, edit),
            old(self).wf() ==> final(self).wf(),
    {
        match choice {
            FileChoice::OpenDefault => one(Effect::OpenDefault(path)),
            FileChoice::Custom { label, command, terminal } => {
                let dir = match parent_of(path.as_str()) {
                    Some(d) => d,
                    None => String::new(),
                };
                assert(dir@ =~= or_empty(parent_path(path@)));
                let line = match edit {
                    Some(e) => e,
                    None => substitute_command(command.as_str(), path.as_str()),
                };
                if !*terminal {
                    self.file_action_in_progress = Some(label.clone());
                }
                one(Effect::RunCommand { command: line, dir, terminal: *terminal })
            },
        }
    }

    fn submit_open(&mut self, input: &str, recents: &Vec<String>, selected: usize, w: &Surroundings) -> (fx:
        Vec<Effect>)
        requires
            old(self).has_room(),
        ensures
            match open_target(input@, recents@, selected, *w) {
                Some(t) => navigated_to_view(
                    *old(self),
                    *final(self),
                    fx@,
                    old(self).active,
                    LocationView::Local(t),
                ),
                None => *final(self) == *old(self) && fx@.len() == 0,
            },
            old(self).wf() ==> final(self).wf(),
    {
        let t = trim_text(input);
        let typed = expand_tilde(t.as_str(), w.home.as_str());
        if w.is_dir(typed.as_str()) {
            return self.navigate(self.active, Location::Local(typed));
        }
        let shown = filtered_recents(recents.as_slice(), input);
        assert(items_of(shown@).len() == shown@.len());
        if selected < shown.len() {
            let p = shown[selected].clone();
            assert(items_of(shown@)[selected as int] == *shown@[selected as int]);
            if w.is_dir(p.as_str()) {
                return self.navigate(self.active, Location::Local(p));
            }
        }
        Vec::new()
    }

    fn submit_compress(&mut self, input: &str, w: &Surroundings) -> (fx: Vec<Effect>)
        requires
            old(self).prompt is None,
        ensures
            forall|i: String|
                i@ == input@ ==> #[trigger] submitted(
                    *old(self),
                    Prompt::Compress { input: i },
                    *w,
                    *final(self),
                    fx@,
                ),
            old(self).wf() ==> final(self).wf(),
    {
        let pane = self.pane(self.active);
        let srcs = pane.marked_paths();
        assert(texts(srcs@) =~= marked_path_texts(*self));
        assert(texts(srcs@).len() == srcs@.len());
        if srcs.len() == 0 || !pane.location.is_local() {
            return Vec::new();
        }
        let working_dir = string_from(pane.path());
        let t = trim_text(input);
        let output = expand_tilde(t.as_str(), w.home.as_str());
        self.compress_in_progress = Some((srcs.len(), output.clone()));
        one(Effect::Compress { srcs, output, working_dir })
    }

    fn submit_uncompress(&mut self, input: &str, w: &Surroundings) -> (fx: Vec<Effect>)
        requires
            old(self).prompt is None,
        ensures
            forall|i: String|
                i@ == input@ ==> #[trigger] submitted(
                    *old(self),
                    Prompt::Uncompress { input: i },
                    *w,
                    *final(self),
                    fx@,
                ),
            old(self).wf() ==> final(self).wf(),
    {
        let pane = self.pane(self.active);
        let archives = pane.marked_paths();
        assert(texts(archives@) =~= marked_path_texts(*self));
        assert(texts(archives@).len() == archives@.len());
        let t = trim_text(input);
        let dest = expand_tilde(t.as_str(), w.home.as_str());
        if archives.len() == 0 || !pane.location.is_local() || !w.is_dir(dest.as_str()) {
            return Vec::new();
        }
        self.uncompress_in_progress = Some((archives.len(), dest.clone()));
        one(Effect::Uncompress { archives, dest })
    }

    /// Confirms a dialog that was just closed.
    pub(crate) fn submit(&mut self, p: Prompt, w: &Surroundings) -> (fx: Vec<Effect>)
        requires
            old(self).has_room(),
            old(self).prompt is None,
        ensures
            submitted(*old(self), p, *w, *final(self), fx@),
            old(self).wf() ==> final(self).wf(),
    {
        match p {
            Prompt::Open { input, recents, selected } => self.submit_open(
                input.as_str(),
                &recents,
                selected,
                w,
            ),
            Prompt::Copy { input } => self.start_transfer(input.as_str(), w, false),
            Prompt::Move { input } => self.start_transfer(input.as_str(), w, true),
            Prompt::NewFolder { input } => self.request_item(input.as_str(), w, true),
            Prompt::NewFile { input } => self.request_item(input.as_str(), w, false),
            Prompt::Compress { input } => self.submit_compress(input.as_str(), w),
            Prompt::Uncompress { input } => self.submit_uncompress(input.as_str(), w),
            Prompt::Delete { paths, focus: _ } => {
                if paths.len() == 0 {
                    return Vec::new();
                }
                self.delete_in_progress = Some(paths.len());
                one(Effect::Delete(paths))
            },
            Prompt::ConfirmLargeExtract { archive_path, .. } => {
                self.extract_in_progress = Some(archive_path.clone());
                one(Effect::ExtractToTemp(archive_path))
            },
            Prompt::NewFiles { .. } => Vec::new(),
            Prompt::CommandPalette { input, selected, actions, dropbox_configured } => {
                let shown = filtered_actions(actions.as_slice(), input.as_str());
                if selected >= shown.len() {
                    return Vec::new();
                }
                let action = shown[selected];
                if !palette_action_enabled(action, dropbox_configured) {
                    self.prompt = Some(
                        Prompt::CommandPalette { input, selected, actions, dropbox_configured },
                    );
                    return Vec::new();
                }
                self.execute_palette_action(action)
            },
            Prompt::Processes { .. }
            | Prompt::Apps { .. }
            | Prompt::GitBranches { .. }
            | Prompt::SshServers { .. } => self.submit_list(p),
            Prompt::FileActions { path, choices, selected, edit } => {
                if selected < choices.len() {
                    self.run_choice(path, &choices[selected], edit)
                } else {
                    Vec::new()
                }
            },
            other => {
                self.prompt = Some(other);
                Vec::new()
            },
        }
    }

    /// Confirms a dialog with a list of things.
    fn submit_list(&mut self, p: Prompt) -> (fx: Vec<Effect>)
        requires
            old(self).prompt is None,
            p is Processes || p is Apps || p is GitBranches || p is SshServers,
        ensures
            forall|w: Surroundings|
                #[trigger] submitted(*old(self), p, w, *final(self), fx@),
            old(self).wf() ==> final(self).wf(),
    {
        let mut close: bool = false;
        let mut fx: Vec<Effect> = Vec::new();
        match &p {
            Prompt::Processes { state: ProcessesState::Loaded(list), input, selected, .. } => {
                let shown = filtered_processes(list.as_slice(), input.as_str());
                assert(items_of(shown@).len() == shown@.len());
                if *selected < shown.len() {
                    assert(items_of(shown@)[*selected as int] == *shown@[*selected as int]);
                    fx = one(Effect::KillProcess(shown[*selected].pid));
                }
            },
            Prompt::Apps { state: AppsState::Loaded(list), input, selected } => {
                let shown = filtered_apps(list.as_slice(), input.as_str());
                assert(items_of(shown@).len() == shown@.len());
                if *selected < shown.len() {
                    assert(items_of(shown@)[*selected as int] == *shown@[*selected as int]);
                    fx = one(Effect::LaunchApp(shown[*selected].path.clone()));
                    close = true;
                }
            },
            Prompt::GitBranches {
                state: GitBranchesState::Loaded(list),
                input,
                selected,
                repo_path,
            } => {
                let shown = filtered_branches(list.as_slice(), input.as_str());
                assert(items_of(shown@).len() == shown@.len());
                if *selected < shown.len() {
                    assert(items_of(shown@)[*selected as int] == *shown@[*selected as int]);
                    fx = one(
                        Effect::Checkout {
                            repo: repo_path.clone(),
                            branch: shown[*selected].name.clone(),
                        },
                    );
                }
            },
            Prompt::SshServers { state: SshServersState::Loaded(list), input, selected } => {
                let shown = filtered_servers(list.as_slice(), input.as_str());
                assert(items_of(shown@).len() == shown@.len());
                if *selected < shown.len() {
                    assert(items_of(shown@)[*selected as int] == *shown@[*selected as int]);
                    fx = one(Effect::SshConnect(shown[*selected].alias.clone()));
                    close = true;
                }
            },
            _ => {},
        }
        if !close {
            self.prompt = Some(p);
        }
        fx
    }

    fn local_path(&self) -> (r: Option<String>)
        ensures
            match self.active_pane().location {
                Location::Local(p) => r == Some(p),
                _ => r is None,
            },
    {
        match &self.pane(self.active).location {
            Location::Local(p) => Some(p.clone()),
            Location::Remote { .. } => None,
        }
    }

    /// Closes the open dialog and runs a palette action.
    pub(crate) fn execute_palette_action(&mut self, action: PaletteAction) -> (fx: Vec<Effect>)
        requires
            old(self).has_room(),
        ensures
            palette_done((App { prompt: None, ..*old(self) }), *final(self), fx@, action),
            old(self).wf() ==> final(self).wf(),
    {
        self.prompt = None;
        match action {
            PaletteAction::Copy => self.open_transfer(false),
            PaletteAction::Move => self.open_transfer(true),
            PaletteAction::Delete => {
                self.open_delete();
                Vec::new()
            },
            PaletteAction::Compress | PaletteAction::Uncompress => self.open_archiving(action),
            PaletteAction::DockerContainers
            | PaletteAction::Processes
            | PaletteAction::LaunchApplication
            | PaletteAction::GitBranch
            | PaletteAction::SshConnect => self.open_list(action),
            PaletteAction::OpenDropbox => {
                if self.config.dropbox_auth().is_none() {
                    return Vec::new();
                }
                let root = Location::remote(BackendId::new("dropbox"), "/");
                self.navigate(self.active, root)
            },
            PaletteAction::OpenClaudeCode => match self.local_path() {
                Some(p) => one(Effect::OpenClaudeCode(p)),
                None => Vec::new(),
            },
            PaletteAction::OpenTerminal => match self.local_path() {
                Some(p) => one(Effect::OpenTerminal(p)),
                None => Vec::new(),
            },
            PaletteAction::OpenInEditor => match self.local_path() {
                Some(p) => one(Effect::OpenInEditor(p)),
                None => Vec::new(),
            },
            PaletteAction::RevealInFinder => match self.local_path() {
                Some(p) => one(Effect::RevealInFinder(p)),
                None => Vec::new(),
            },
            PaletteAction::FtpServer => self.request_ftp(),
            PaletteAction::NewFile => {
                self.prompt = Some(Prompt::NewFile { input: string_from("file.txt") });
                one(Effect::FocusInput)
            },
            PaletteAction::KeyboardShortcuts => {
                self.prompt = Some(Prompt::KeyboardShortcuts);
                Vec::new()
            },
            PaletteAction::Exit => one(Effect::Exit),
        }
    }

    fn open_archiving(&mut self, action: PaletteAction) -> (fx: Vec<Effect>)
        requires
            old(self).prompt is None,
            action == PaletteAction::Compress || action == PaletteAction::Uncompress,
        ensures
            palette_done(*old(self), *final(self), fx@, action),
            old(self).wf() ==> final(self).wf(),
    {
        let pane = self.pane(self.active);
        let marked = pane.marked_paths();
        assert(texts(marked@) =~= marked_path_texts(*self));
        assert(texts(marked@).len() == marked@.len());
        if marked.len() == 0 || !pane.location.is_local() {
            return Vec::new();
        }
        let other = self.pane(self.active.other()).path();
        if action == PaletteAction::Compress {
            let name = default_zip_filename(marked.as_slice());
            let input = join_paths(other, name.as_str());
            self.prompt = Some(Prompt::Compress { input });
        } else {
            let input = string_from(other);
            self.prompt = Some(Prompt::Uncompress { input });
        }
        one(Effect::FocusInput)
    }

    fn open_list(&mut self, action: PaletteAction) -> (fx: Vec<Effect>)
        requires
            old(self).prompt is None,
            action == PaletteAction::DockerContainers || action == PaletteAction::Processes
                || action == PaletteAction::LaunchApplication || action == PaletteAction::GitBranch
                || action == PaletteAction::SshConnect,
        ensures
            palette_done(*old(self), *final(self), fx@, action),
            old(self).wf() ==> final(self).wf(),
    {
        let input = String::new();
        match action {
            PaletteAction::DockerContainers => {
                self.prompt = Some(
                    Prompt::Docker {
                        state: DockerState::Loading,
                        input,
                        sort_by: DockerSortBy::Name,
                        sort_dir: SortDir::Asc,
                    },
                );
                two(Effect::ListContainers, Effect::FocusInput)
            },
            PaletteAction::Processes => {
                self.prompt = Some(
                    Prompt::Processes {
                        state: ProcessesState::Loading,
                        input,
                        sort_by: ProcessSortBy::Cpu,
                        sort_dir: SortDir::Desc,
                        selected: 0,
                    },
                );
                two(Effect::ListProcesses, Effect::FocusInput)
            },
            PaletteAction::LaunchApplication => {
                self.prompt = Some(Prompt::Apps { state: AppsState::Loading, input, selected: 0 });
                two(Effect::ScanApps, Effect::FocusInput)
            },
            PaletteAction::GitBranch => match self.local_path() {
                Some(p) => {
                    self.prompt = Some(
                        Prompt::GitBranches {
                            state: GitBranchesState::Loading,
                            input,
                            selected: 0,
                            repo_path: p.clone(),
                        },
                    );
                    two(Effect::ListBranches(p), Effect::FocusInput)
                },
                None => Vec::new(),
            },
            _ => {
                self.prompt = Some(
                    Prompt::SshServers { state: SshServersState::Loading, input, selected: 0 },
                );
                two(Effect::ReadSshConfig, Effect::FocusInput)
            },
        }
    }

    fn request_ftp(&mut self) -> (fx: Vec<Effect>)
        requires
            old(self).prompt is None,
        ensures
            palette_done(*old(self), *final(self), fx@, PaletteAction::FtpServer),
            old(self).wf() ==> final(self).wf(),
    {
        let root = match self.local_path() {
            Some(p) => p,
            None => {
                self.last_error = Some(string_from("The FTP server needs a local folder"));
                return Vec::new();
            },
        };
        let current = match &self.ftp_server {
            Some(info) => Some(info.clone()),
            None => None,
        };
        match current {
            None => match decide_ftp_action(None, root.as_str()) {
                FtpAction::StartFresh(p) => one(Effect::StartFtp(p)),
                _ => Vec::new(),
            },
            Some(info) => {
                match decide_ftp_action(Some(&info), root.as_str()) {
                    FtpAction::ShowInfo => {
                        self.prompt = Some(Prompt::FtpInfo { info, focus: FtpInfoFocus::Close });
                    },
                    FtpAction::AskReplace(new_root) => {
                        self.prompt = Some(
                            Prompt::FtpReplace {
                                current: info,
                                new_root,
                                focus: FtpReplaceFocus::Cancel,
                            },
                        );
                    },
                    FtpAction::StartFresh(_) => {},
                }
                Vec::new()
            },
        }
    }
}

} // verus!
