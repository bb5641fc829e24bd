//! How the state answers each event.

use vstd::prelude::*;
use crate::actions::{expanded, file_tokens, FileChoice, QuickViewOutput, QuickViewState};
use crate::actions::substitute_command;
use crate::app::{batch_error_message, both_reloaded, failure_text, next_shown, only_pane_changed};
use crate::app::{only_prompt_changed, with_pane, App};
use crate::app_dialogs::{choice_run, delete_dialog, open_dialog, palette_dialog, palette_done};
use crate::app_dialogs::{submitted, transfer_dialog};
use crate::app_panes::{activated, backspaced, chunk_taken, cursor_file, load_done};
use crate::app_panes::{navigated_to_view, row_clicked};
use crate::apps::{app_less, sort_apps, Application, AppsState};
use crate::docker::{containers_sorted, sort_containers, DockerContainer, DockerSortBy, DockerState};
use crate::entry::{Side, SortBy, SortDir};
use crate::ftp::{log_with, push_log, FtpInfoFocus, FtpServerInfo};
use crate::git::{GitBranch, GitBranchesState};
use crate::location::{show_location, BackendId, Location, LocationView};
use crate::message::{is_pane_message, one, pane_message, redirect, redirected, two, Effect};
use crate::message::{Message, Outcome, Surroundings};
use crate::palette::{action_enabled, palette_action_enabled};
use crate::pane::{location_views, GitInfo, Pane};
use crate::path::{paths_equal, same_path};
use crate::process::{processes_sorted, sort_processes, Process, ProcessSortBy, ProcessesState};
use crate::prompt::{merge_pending_new_files, merged, moved_in, refocused, typed_into, NewFilesFocus};
use crate::prompt::Prompt;
use crate::sorting::sorted_stably;
use crate::ssh::{SshServer, SshServersState};
use crate::text::{concat2, string_from, texts};

verus! {

/// A file operation has ended: its progress is over, its failures are told,
/// and both panes are listed again. `done` is the state without the progress.
pub open spec fn operation_finished(
    done: App,
    n: App,
    fx: Seq<Effect>,
    verb: Seq<char>,
    results: Seq<Outcome>,
) -> bool {
    &&& both_reloaded(App { last_error: n.last_error, ..done }, n, fx)
    &&& match failure_text(verb, results) {
        Some(t) => n.last_error matches Some(e) && e@ == t,
        None => n.last_error == done.last_error,
    }
}

/// A message about new files: it is shown, or queued behind another dialog.
pub open spec fn new_files_noted(o: App, n: App, folder: String, files: Vec<String>) -> bool {
    if files@.len() == 0 {
        n == o
    } else if o.prompt is None {
        n == (App {
            prompt: Some(Prompt::NewFiles { folder, files, focus: NewFilesFocus::No }),
            ..o
        })
    } else {
        &&& n == (App { pending_new_files: n.pending_new_files, ..o })
        &&& merged(o.pending_new_files@, n.pending_new_files@, folder, files@)
    }
}

/// A pane was picked for new files: it goes to their folder, becomes active,
/// and waits for the newest of them. Then the next dialog is shown.
pub open spec fn side_picked(o: App, n: App, fx: Seq<Effect>, side: Side) -> bool {
    match o.prompt {
        Some(Prompt::NewFiles { folder, files, .. }) => exists|m: App, k: App|
            #![trigger next_shown(k, n), m.pane_of(side)]
            {
                &&& navigated_to_view(
                    App { prompt: None, ..o },
                    m,
                    fx.drop_last(),
                    side,
                    LocationView::Local(folder@),
                )
                &&& fx.len() > 0
                &&& fx.last() == Effect::SaveState
                &&& k == (App {
                    active: side,
                    ..with_pane(
                        m,
                        side,
                        if files@.len() > 0 {
                            Pane {
                                pending_focus: Some(files@.last()),
                                focus_jump: true,
                                ..m.pane_of(side)
                            }
                        } else {
                            m.pane_of(side)
                        },
                    )
                })
                &&& next_shown(k, n)
            },
        _ => n == o && fx.len() == 0,
    }
}

/// A dialog was confirmed. The next queued dialog follows, unless a palette
/// action was run.
pub open spec fn confirmed(o: App, n: App, fx: Seq<Effect>, w: Surroundings) -> bool {
    let closed = App { prompt: None, last_error: None, ..o };
    match o.prompt {
        None => next_shown(closed, n) && fx.len() == 0,
        Some(p) => if p is CommandPalette {
            submitted(closed, p, w, n, fx)
        } else {
            exists|m: App|
                #![trigger next_shown(m, n)]
                submitted(closed, p, w, m, fx) && next_shown(m, n)
        },
    }
}

/// Escape: it closes the dialog, else it clears an active filter.
pub open spec fn cancelled(o: App, n: App, fx: Seq<Effect>) -> bool {
    let side = o.active;
    if o.prompt is Some {
        next_shown(App { prompt: None, ..o }, n) && fx.len() == 0
    } else if o.active_pane().filter@.len() > 0 {
        &&& only_pane_changed(o, n, side)
        &&& n.pane_of(side).refiltered(o.active_pane(), seq![])
        &&& fx == seq![Effect::EnsureVisible(side)]
    } else {
        n == o && fx.len() == 0
    }
}

/// The list of containers arrived; it is dropped where its dialog is gone.
pub open spec fn containers_loaded(
    o: App,
    n: App,
    result: Result<Vec<DockerContainer>, String>,
) -> bool {
    match o.prompt {
        Some(Prompt::Docker { input, sort_by, sort_dir, .. }) => {
            &&& only_prompt_changed(o, n)
            &&& n.prompt matches Some(
                Prompt::Docker { state: s, input: i, sort_by: b, sort_dir: d },
            )
            &&& i == input
            &&& b == sort_by
            &&& d == sort_dir
            &&& match result {
                Ok(list) => s matches DockerState::Loaded(l) && containers_sorted(
                    list@,
                    l@,
                    sort_by,
                    sort_dir,
                ),
                Err(e) => s == DockerState::Error(e),
            }
        },
        _ => n == o,
    }
}

/// A column of the containers was clicked.
pub open spec fn containers_resorted(o: App, n: App, column: DockerSortBy) -> bool {
    match o.prompt {
        Some(Prompt::Docker { state, input, sort_by, sort_dir }) => {
            let dir = if sort_by == column {
                sort_dir.spec_toggled()
            } else {
                SortDir::Asc
            };
            &&& only_prompt_changed(o, n)
            &&& n.prompt matches Some(
                Prompt::Docker { state: s, input: i, sort_by: b, sort_dir: d },
            )
            &&& i == input
            &&& b == column
            &&& d == dir
            &&& match state {
                DockerState::Loaded(list) => s matches DockerState::Loaded(l) && containers_sorted(
                    list@,
                    l@,
                    column,
                    dir,
                ),
                other => s == other,
            }
        },
        _ => n == o,
    }
}

/// The list of processes arrived; the highlight stays within it.
pub open spec fn processes_loaded(o: App, n: App, result: Result<Vec<Process>, String>) -> bool {
    match o.prompt {
        Some(Prompt::Processes { input, sort_by, sort_dir, selected, .. }) => {
            &&& only_prompt_changed(o, n)
            &&& n.prompt matches Some(np)
            &&& exists|q: Prompt| #[trigger]
                typed_into(q, input) == np && {
                    &&& q matches Prompt::Processes {
                        state: s,
                        input: i,
                        sort_by: b,
                        sort_dir: d,
                        selected: x,
                    }
                    &&& i == input
                    &&& b == sort_by
                    &&& d == sort_dir
                    &&& x == selected
                    &&& match result {
                        Ok(list) => s matches ProcessesState::Loaded(l) && processes_sorted(
                            list@,
                            l@,
                            sort_by,
                            sort_dir,
                        ),
                        Err(e) => s == ProcessesState::Error(e),
                    }
                }
        },
        _ => n == o,
    }
}

/// A column of the processes was clicked.
pub open spec fn processes_resorted(o: App, n: App, column: ProcessSortBy) -> bool {
    match o.prompt {
        Some(Prompt::Processes { state, input, sort_by, sort_dir, selected }) => {
            let dir = if sort_by == column {
                sort_dir.spec_toggled()
            } else {
                column.spec_initial_dir()
            };
            &&& only_prompt_changed(o, n)
            &&& n.prompt matches Some(
                Prompt::Processes { state: s, input: i, sort_by: b, sort_dir: d, selected: x },
            )
            &&& i == input
            &&& b == column
            &&& d == dir
            &&& x == selected
            &&& match state {
                ProcessesState::Loaded(list) => s matches ProcessesState::Loaded(l)
                    && processes_sorted(list@, l@, column, dir),
                other => s == other,
            }
        },
        _ => n == o,
    }
}

/// The list of applications arrived.
pub open spec fn apps_loaded(o: App, n: App, result: Result<Vec<Application>, String>) -> bool {
    match o.prompt {
        Some(Prompt::Apps { input, selected, .. }) => {
            &&& only_prompt_changed(o, n)
            &&& n.prompt matches Some(Prompt::Apps { state: s, input: i, selected: x })
            &&& i == input
            &&& x == selected
            &&& match result {
                Ok(list) => s matches AppsState::Loaded(l) && sorted_stably(
                    list@,
                    l@,
                    |a: Application, b: Application| app_less(a, b),
                ),
                Err(e) => s == AppsState::Error(e),
            }
        },
        _ => n == o,
    }
}

/// The list of branches arrived, in its own order.
pub open spec fn branches_loaded(o: App, n: App, result: Result<Vec<GitBranch>, String>) -> bool {
    match o.prompt {
        Some(Prompt::GitBranches { input, selected, repo_path, .. }) => n == (App {
            prompt: Some(
                Prompt::GitBranches {
                    state: match result {
                        Ok(list) => GitBranchesState::Loaded(list),
                        Err(e) => GitBranchesState::Error(e),
                    },
                    input,
                    selected,
                    repo_path,
                },
            ),
            ..o
        }),
        _ => n == o,
    }
}

/// The list of hosts arrived.
pub open spec fn servers_loaded(o: App, n: App, result: Result<Vec<SshServer>, String>) -> bool {
    match o.prompt {
        Some(Prompt::SshServers { input, selected, .. }) => n == (App {
            prompt: Some(
                Prompt::SshServers {
                    state: match result {
                        Ok(list) => SshServersState::Loaded(list),
                        Err(e) => SshServersState::Error(e),
                    },
                    input,
                    selected,
                },
            ),
            ..o
        }),
        _ => n == o,
    }
}

/// A checkout has ended: on success the dialog closes and both panes are listed
/// again; a failure is shown in the dialog.
pub open spec fn checkout_done(o: App, n: App, fx: Seq<Effect>, result: Result<(), String>) -> bool {
    match result {
        Ok(_) => exists|m: App| #[trigger]
            next_shown(App { prompt: None, ..o }, m) && both_reloaded(m, n, fx),
        Err(e) => branches_loaded(o, n, Err(e)) && fx.len() == 0,
    }
}

/// The command of the chosen action is opened for editing, filled in for the
/// file, or closed again.
pub open spec fn choice_edit_toggled(o: App, n: App, fx: Seq<Effect>) -> bool {
    match o.prompt {
        Some(Prompt::FileActions { path, choices, selected, edit }) => if edit is Some {
            &&& n == (App {
                prompt: Some(Prompt::FileActions { path, choices, selected, edit: None }),
                ..o
            })
            &&& fx.len() == 0
        } else if selected < choices@.len() && choices@[selected as int] is Custom {
            &&& only_prompt_changed(o, n)
            &&& n.prompt matches Some(
                Prompt::FileActions { path: p, choices: c, selected: s, edit: Some(e) },
            )
            &&& p == path
            &&& c == choices
            &&& s == selected
            &&& e@ == expanded(choices@[selected as int]->command@, file_tokens(path@))
            &&& fx == seq![Effect::FocusInput]
        } else {
            n == o && fx.len() == 0
        },
        _ => n == o && fx.len() == 0,
    }
}

/// A server has started, or not.
pub open spec fn ftp_started(o: App, n: App, result: Result<FtpServerInfo, String>) -> bool {
    match result {
        Ok(info) => {
            &&& n == (App {
                ftp_server: Some(info),
                ftp_log: n.ftp_log,
                prompt: Some(Prompt::FtpInfo { info, focus: FtpInfoFocus::Close }),
                ..o
            })
            &&& n.ftp_log@.len() == 0
        },
        Err(e) => n == (App { last_error: Some(e), ..o }),
    }
}

/// The server is gone, and its log with it.
pub open spec fn ftp_stopped(o: App, n: App) -> bool {
    &&& n == (App { ftp_server: None, ftp_log: n.ftp_log, prompt: None, ..o })
    &&& n.ftp_log@.len() == 0
}

/// A pane that shows a directory is listed again in place where that directory
/// has changed.
pub open spec fn pane_refreshed(p: Pane, q: Pane, folder: Seq<char>) -> bool {
    if p.location is Local && same_path(p.location@.path(), folder) {
        q.reloaded(p)
    } else {
        q == p
    }
}

/// What is done for a pane that was listed again in place.
pub open spec fn refresh_effects(p: Pane, q: Pane, side: Side) -> Seq<Effect> {
    if q.load_generation != p.load_generation {
        seq![Effect::Load { side, location: q.location, generation: q.load_generation }]
    } else {
        seq![]
    }
}

/// A watched directory has changed.
pub open spec fn dir_refreshed(o: App, n: App, fx: Seq<Effect>, folder: Seq<char>) -> bool {
    &&& n == (App { left: n.left, right: n.right, ..o })
    &&& pane_refreshed(o.left, n.left, folder)
    &&& pane_refreshed(o.right, n.right, folder)
    &&& fx == refresh_effects(o.left, n.left, Side::Left) + refresh_effects(
        o.right,
        n.right,
        Side::Right,
    )
}

/// The files of one drop are copied at once, when no further one has followed.
/// A remote pane takes none.
pub open spec fn drops_flushed(o: App, n: App, fx: Seq<Effect>, seq: u64, side: Side) -> bool {
    let place = o.pane_of(side).location;
    if seq != o.drop_seq || o.dropped_files@.len() == 0 {
        n == o && fx.len() == 0
    } else if place is Local {
        &&& n == (App {
            dropped_files: n.dropped_files,
            copy_in_progress: n.copy_in_progress,
            ..o
        })
        &&& n.dropped_files@.len() == 0
        &&& n.copy_in_progress matches Some((k, t))
        &&& k == o.dropped_files@.len()
        &&& t@ == show_location(place@)
        &&& fx.len() == 1
        &&& fx[0] matches Effect::Copy { srcs, dest }
        &&& location_views(srcs@) == texts(o.dropped_files@).map_values(
            |p: Seq<char>| LocationView::Local(p),
        )
        &&& dest == place
    } else {
        &&& n == (App { dropped_files: n.dropped_files, last_error: n.last_error, ..o })
        &&& n.dropped_files@.len() == 0
        &&& n.last_error matches Some(e)
        &&& e@ == "Files can't be dropped onto a remote pane"@
        &&& fx.len() == 0
    }
}

/// A preview is ready; it is taken up only where it is the one that is waited
/// for.
pub open spec fn quick_view_loaded(
    o: App,
    n: App,
    id: u64,
    side: Side,
    result: Result<String, String>,
) -> bool {
    match o.quick_view {
        Some(q) => if q.request_id == id && q.source_side == side {
            n == (App {
                quick_view: Some(
                    QuickViewState {
                        output: match result {
                            Ok(t) => QuickViewOutput::Ready(t),
                            Err(e) => QuickViewOutput::Error(e),
                        },
                        ..q
                    },
                ),
                ..o
            })
        } else {
            n == o
        },
        None => n == o,
    }
}

/// The state with its prompt closed and the next one shown.
pub open spec fn closed_and_next(o: App, n: App) -> bool {
    next_shown(App { prompt: None, ..o }, n)
}

/// The part of the application that an event concerns.
#[derive(Debug, Clone, Copy, PartialEq, Eq, Structural)]
pub enum Concern {
    Panes,
    Listings,
    Dialogs,
    Operations,
    Lists,
}

/// The part of the application that an event concerns.
pub open spec fn concern_of(m: Message) -> Concern {
    match m {
        Message::ShiftChanged(..)
        | Message::CommandChanged(..)
        | Message::Activate(..)
        | Message::RowClicked(..)
        | Message::GoUpActive
        | Message::MoveSelection(..)
        | Message::PageMove(..)
        | Message::MoveToEdge(..)
        | Message::SwitchSide
        | Message::ActivateSelection => Concern::Panes,
        Message::ToggleSort(..)
        | Message::FilterAppend(..)
        | Message::EntriesChunk(..)
        | Message::EntriesDone(..)
        | Message::GitInfoLoaded(..)
        | Message::MarkersProbed(..)
        | Message::EditFile
        | Message::QuickLook => Concern::Listings,
        Message::OpenPrompt
        | Message::OpenCopyPrompt
        | Message::OpenMovePrompt
        | Message::OpenNewFolderPrompt
        | Message::OpenDeletePrompt
        | Message::SwitchPromptFocus
        | Message::OpenSettingsFile
        | Message::SettingsLoaded(..)
        | Message::PromptChanged(..)
        | Message::PromptSubmit
        | Message::PromptCancel
        | Message::OpenCommandPalette
        | Message::PromptMove(..)
        | Message::OpenRecent(..)
        | Message::PaletteSelect(..)
        | Message::FileChoiceActivate(..)
        | Message::ToggleChoiceEdit => Concern::Dialogs,
        Message::CopyFinished(..)
        | Message::MoveFinished(..)
        | Message::DeleteFinished(..)
        | Message::UncompressFinished(..)
        | Message::CompressFinished(..)
        | Message::ExtractedToTemp(..)
        | Message::FileActionFinished(..)
        | Message::ItemMade(..)
        | Message::NewFilesDetected(..)
        | Message::NewFilesPickSide(..)
        | Message::WatchedDirChanged(..)
        | Message::FileDropped(..)
        | Message::FlushDrops(..)
        | Message::QuickViewDebounceFire(..)
        | Message::QuickViewLoaded(..)
        | Message::ExitApp
        | Message::NoOp => Concern::Operations,
        _ => Concern::Lists,
    }
}

/// How the state answers a message that is meant for it.
pub open spec fn step(o: App, m: Message, w: Surroundings, n: App, fx: Seq<Effect>) -> bool {
    let side = o.active;
    let idle = fx.len() == 0;
    match m {
        Message::ShiftChanged(b) => n == (App { shift_held: b, ..o }) && idle,
        Message::CommandChanged(b) => n == (App { command_held: b, ..o }) && idle,
        Message::Activate(s) => {
            &&& n == (App { active: s, ..o })
            &&& fx == (if o.active != s {
                seq![Effect::SaveState]
            } else {
                seq![]
            })
        },
        Message::RowClicked(s, row) => row_clicked(o, n, fx, s, row),
        Message::GoUpActive => backspaced(o, n, fx),
        Message::MoveSelection(delta, extend) => cursor_sent(
            o,
            n,
            fx,
            o.active_pane().selected + delta,
            extend,
        ),
        Message::PageMove(dir, extend) => cursor_sent(
            o,
            n,
            fx,
            o.active_pane().selected + dir * w.page_rows,
            extend,
        ),
        Message::MoveToEdge(top, extend) => cursor_sent(
            o,
            n,
            fx,
            if top {
                0
            } else {
                o.active_pane().visible_indices@.len() as int
            },
            extend,
        ),
        Message::SwitchSide => side_switched(o, n, fx),
        Message::ActivateSelection => activated(o, n, fx),
        Message::ToggleSort(s, by) => {
            &&& n == (App { active: s, ..with_pane(o, s, n.pane_of(s)) })
            &&& n.pane_of(s).sort_toggled(o.pane_of(s), by)
            &&& fx == seq![Effect::EnsureVisible(s)]
        },
        Message::OpenPrompt => open_dialog(o, n) && fx == seq![Effect::FocusInput],
        Message::OpenCopyPrompt => transfer_dialog(o, n, false) && fx == seq![Effect::FocusInput],
        Message::OpenMovePrompt => transfer_dialog(o, n, true) && fx == seq![Effect::FocusInput],
        Message::OpenNewFolderPrompt => {
            &&& only_prompt_changed(o, n)
            &&& n.prompt matches Some(Prompt::NewFolder { input })
            &&& input@.len() == 0
            &&& fx == seq![Effect::FocusInput]
        },
        Message::OpenDeletePrompt => delete_dialog(o, n) && idle,
        Message::SwitchPromptFocus => match o.prompt {
            Some(p) => n == (App { prompt: Some(refocused(p)), ..o }) && idle,
            None => side_switched(o, n, fx),
        },
        Message::OpenSettingsFile => n == o && fx == seq![Effect::OpenSettings],
        Message::FilterAppend(s) => {
            &&& only_pane_changed(o, n, side)
            &&& n.pane_of(side).refiltered(o.pane_of(side), o.pane_of(side).filter@ + s@)
            &&& fx == seq![Effect::EnsureVisible(side)]
        },
        Message::SettingsLoaded(c) => n == (App { config: c, ..o }) && idle,
        Message::PromptChanged(value) => match o.prompt {
            Some(p) => n == (App { prompt: Some(typed_into(p, value)), ..o }) && idle,
            None => n == o && idle,
        },
        Message::PromptSubmit => confirmed(o, n, fx, w),
        Message::PromptCancel => cancelled(o, n, fx),
        Message::EntriesChunk(s, generation, chunk) => chunk_taken(
            o,
            n,
            fx,
            s,
            generation,
            chunk@,
        ),
        Message::EntriesDone(s, generation) => load_done(o, n, s, generation) && idle,
        Message::GitInfoLoaded(s, generation, info) => {
            &&& idle
            &&& n == (if o.pane_of(s).load_generation == generation {
                with_pane(o, s, Pane { git_info: info, ..o.pane_of(s) })
            } else {
                o
            })
        },
        Message::MarkersProbed(s, generation, md, dir) => {
            &&& idle
            &&& n == (if o.pane_of(s).load_generation == generation {
                with_pane(o, s, Pane { has_claude_md: md, has_claude_dir: dir, ..o.pane_of(s) })
            } else {
                o
            })
        },
        Message::EditFile => n == o && match cursor_file(o, false) {
            Some(p) => fx.len() == 1 && (fx[0] matches Effect::Edit(q) && q@ == p),
            None => idle,
        },
        Message::QuickLook => n == o && match cursor_file(o, true) {
            Some(p) => fx.len() == 1 && (fx[0] matches Effect::QuickLook(q) && q@ == p),
            None => idle,
        },
        Message::CopyFinished(results) => operation_finished(
            App { copy_in_progress: None, ..o },
            n,
            fx,
            "Copy"@,
            results@,
        ),
        Message::MoveFinished(results) => operation_finished(
            App { move_in_progress: None, ..o },
            n,
            fx,
            "Move"@,
            results@,
        ),
        Message::DeleteFinished(results) => operation_finished(
            App { delete_in_progress: None, ..o },
            n,
            fx,
            "Delete"@,
            results@,
        ),
        Message::UncompressFinished(results) => operation_finished(
            App { uncompress_in_progress: None, ..o },
            n,
            fx,
            "Extract"@,
            results@,
        ),
        Message::CompressFinished(result) => {
            &&& both_reloaded(
                App { compress_in_progress: None, last_error: n.last_error, ..o },
                n,
                fx,
            )
            &&& match result {
                Ok(_) => n.last_error == o.last_error,
                Err(e) => n.last_error matches Some(t) && t@ == "Compress failed: "@ + e@,
            }
        },
        Message::ExtractedToTemp(dest, result) => match result {
            Ok(_) => navigated_to_view(
                App { extract_in_progress: None, ..o },
                n,
                fx,
                side,
                LocationView::Local(dest@),
            ),
            Err(e) => {
                &&& n == (App { extract_in_progress: None, last_error: n.last_error, ..o })
                &&& n.last_error matches Some(t)
                &&& t@ == "Extract failed: "@ + e@
                &&& idle
            },
        },
        Message::NewFilesDetected(folder, files) => new_files_noted(o, n, folder, files) && idle,
        Message::NewFilesPickSide(s) => side_picked(o, n, fx, s),
        Message::OpenCommandPalette => palette_dialog(o, n) && fx == seq![Effect::FocusInput],
        Message::PromptMove(delta) => match o.prompt {
            Some(p) => n == (App { prompt: Some(moved_in(p, delta as int)), ..o }) && idle,
            None => n == o && idle,
        },
        Message::OpenRecent(path) => exists|k: App| #[trigger]
            closed_and_next(o, k) && (if w.spec_is_dir(path@) {
                navigated_to_view(k, n, fx, side, LocationView::Local(path@))
            } else {
                n == k && idle
            }),
        Message::PaletteSelect(action) => if action_enabled(action, o.config.has_dropbox_auth()) {
            palette_done(App { prompt: None, ..o }, n, fx, action)
        } else {
            n == o && idle
        },
        Message::DockerListLoaded(result) => containers_loaded(o, n, result) && idle,
        Message::DockerKill(id) => n == o && fx == seq![Effect::KillContainer(id)],
        Message::DockerKillFinished(_, _) => n == o && fx == (match o.prompt {
            Some(Prompt::Docker { .. }) => seq![Effect::ListContainers],
            _ => seq![],
        }),
        Message::DockerShell(id) => n == o && fx == seq![Effect::ContainerShell(id)],
        Message::ProcessesListLoaded(result) => processes_loaded(o, n, result) && idle,
        Message::ProcessKill(pid) => n == o && fx == seq![Effect::KillProcess(pid)],
        Message::ProcessKillFinished(_, _) => n == o && fx == (match o.prompt {
            Some(Prompt::Processes { .. }) => seq![Effect::ListProcesses],
            _ => seq![],
        }),
        Message::DockerToggleSort(column) => containers_resorted(o, n, column) && idle,
        Message::ProcessToggleSort(column) => processes_resorted(o, n, column) && idle,
        Message::AppsListLoaded(result) => apps_loaded(o, n, result) && idle,
        Message::LaunchApp(path) => closed_and_next(o, n) && fx == seq![Effect::LaunchApp(path)],
        Message::GitBranchesLoaded(result) => branches_loaded(o, n, result) && idle,
        Message::GitCheckout(branch) => n == o && fx == (match o.prompt {
            Some(Prompt::GitBranches { repo_path, .. }) => seq![
                Effect::Checkout { repo: repo_path, branch },
            ],
            _ => seq![],
        }),
        Message::GitCheckoutFinished(_, result) => checkout_done(o, n, fx, result),
        Message::SshServersLoaded(result) => servers_loaded(o, n, result) && idle,
        Message::SshConnect(alias) => closed_and_next(o, n) && fx == seq![Effect::SshConnect(alias)],
        Message::SshOpenInPane(alias) => exists|k: App| #[trigger]
            closed_and_next(o, k) && navigated_to_view(
                k,
                n,
                fx,
                side,
                LocationView::Remote { backend: alias@, path: "~"@ },
            ),
        Message::FileChoiceActivate(i) => match o.prompt {
            Some(Prompt::FileActions { path, choices, .. }) => if i < choices@.len() {
                exists|k: App|
                    #![trigger next_shown(k, n)]
                    choice_run(
                        App { prompt: None, last_error: None, ..o },
                        k,
                        fx,
                        path,
                        choices@[i as int],
                        None,
                    ) && next_shown(k, n)
            } else {
                n == o && idle
            },
            _ => n == o && idle,
        },
        Message::ToggleChoiceEdit => choice_edit_toggled(o, n, fx),
        Message::FileActionFinished(result) => {
            &&& both_reloaded(
                App { file_action_in_progress: None, last_error: n.last_error, ..o },
                n,
                fx,
            )
            &&& match result {
                Ok(_) => n.last_error == o.last_error,
                Err(e) => n.last_error == Some(e),
            }
        },
        Message::ItemMade(result) => match result {
            Ok(_) => both_reloaded(o, n, fx),
            Err(e) => n == (App { last_error: Some(e), ..o }) && idle,
        },
        Message::FtpStarted(result) => ftp_started(o, n, result) && idle,
        Message::FtpServerStopRequest => exists|k: App|
            #![trigger next_shown(k, n)]
            ftp_stopped(o, k) && next_shown(k, n) && fx == seq![Effect::StopFtp],
        Message::FtpServerReplaceConfirmed(root) => ftp_stopped(o, n) && fx == seq![
            Effect::StopFtp,
            Effect::StartFtp(root),
        ],
        Message::FtpLogEvent(e) => {
            &&& idle
            &&& n == (App { ftp_log: n.ftp_log, ..o })
            &&& n.ftp_log@ == (if o.ftp_server is Some {
                log_with(o.ftp_log@, e)
            } else {
                o.ftp_log@
            })
        },
        Message::WatchedDirChanged(folder) => dir_refreshed(o, n, fx, folder@),
        Message::FileDropped(path) => {
            &&& n == (App {
                dropped_files: n.dropped_files,
                drop_seq: (o.drop_seq + 1) as u64,
                ..o
            })
            &&& n.dropped_files@ == o.dropped_files@.push(path)
            &&& fx == seq![Effect::AwaitDrops(n.drop_seq)]
        },
        Message::FlushDrops(seq, s) => drops_flushed(o, n, fx, seq, s),
        Message::QuickViewDebounceFire(id) => n == o && fx == (match o.quick_view {
            Some(q) => if q.request_id == id {
                seq![Effect::RunQuickView(id)]
            } else {
                seq![]
            },
            None => seq![],
        }),
        Message::QuickViewLoaded(id, s, result) => quick_view_loaded(o, n, id, s, result) && idle,
        Message::ExitApp => n == o && fx == seq![Effect::Exit],
        Message::NoOp => n == o && idle,
    }
}

/// The cursor of the active pane was sent to a row.
pub open spec fn cursor_sent(o: App, n: App, fx: Seq<Effect>, target: int, extend: bool) -> bool {
    &&& only_pane_changed(o, n, o.active)
    &&& n.pane_of(o.active).moved(o.active_pane(), target, extend)
    &&& fx == seq![Effect::EnsureVisible(o.active)]
}

/// The other pane becomes the active one.
pub open spec fn side_switched(o: App, n: App, fx: Seq<Effect>) -> bool {
    &&& n == (App { active: o.active.spec_other(), ..o })
    &&& fx == seq![Effect::SaveState, Effect::EnsureVisible(n.active)]
}

/// What one event does: with a dialog open, a key means what it means to the
/// dialog, and what is still meant for a pane is dropped.
pub open spec fn updated(o: App, m: Message, w: Surroundings, n: App, fx: Seq<Effect>) -> bool {
    let meant = redirected(o.prompt, m);
    if o.prompt is Some && is_pane_message(meant) {
        n == o && fx.len() == 0
    } else {
        step(o, meant, w, n, fx)
    }
}

impl App {
    fn switch_side(&mut self) -> (fx: Vec<Effect>)
        ensures
            side_switched(*old(self), *final(self), fx@),
            old(self).wf() ==> final(self).wf(),
    {
        self.active = self.active.other();
        two(Effect::SaveState, Effect::EnsureVisible(self.active))
    }

    fn move_rows(&mut self, delta: i32, extend: bool) -> (fx: Vec<Effect>)
        ensures
            cursor_sent(
                *old(self),
                *final(self),
                fx@,
                old(self).active_pane().selected + delta,
                extend,
            ),
            old(self).wf() ==> final(self).wf(),
    {
        let side = self.active;
        self.pane_mut(side).move_by(delta, extend);
        one(Effect::EnsureVisible(side))
    }

    fn move_pages(&mut self, dir: i8, page_rows: i32, extend: bool) -> (fx: Vec<Effect>)
        ensures
            cursor_sent(
                *old(self),
                *final(self),
                fx@,
                old(self).active_pane().selected + dir * page_rows,
                extend,
            ),
            old(self).wf() ==> final(self).wf(),
    {
        let side = self.active;
        self.pane_mut(side).move_pages(dir, page_rows, extend);
        one(Effect::EnsureVisible(side))
    }

    fn move_to_edge(&mut self, top: bool, extend: bool) -> (fx: Vec<Effect>)
        ensures
            cursor_sent(
                *old(self),
                *final(self),
                fx@,
                if top {
                    0
                } else {
                    old(self).active_pane().visible_indices@.len() as int
                },
                extend,
            ),
            old(self).wf() ==> final(self).wf(),
    {
        let side = self.active;
        let last: usize = self.pane(side).visible_indices.len();
        let row: usize = if top {
            0
        } else {
            last
        };
        self.pane_mut(side).move_to_row(row, extend);
        one(Effect::EnsureVisible(side))
    }

    fn sort_pane(&mut self, s: Side, by: SortBy) -> (fx: Vec<Effect>)
        ensures
            *final(self) == (App { active: s, ..with_pane(*old(self), s, final(self).pane_of(s)) }),
            final(self).pane_of(s).sort_toggled(old(self).pane_of(s), by),
            fx@ == seq![Effect::EnsureVisible(s)],
            old(self).wf() ==> final(self).wf(),
    {
        self.active = s;
        self.pane_mut(s).toggle_sort(by);
        one(Effect::EnsureVisible(s))
    }

    fn lengthen_filter(&mut self, s: &str) -> (fx: Vec<Effect>)
        ensures
            only_pane_changed(*old(self), *final(self), old(self).active),
            final(self).pane_of(old(self).active).refiltered(
                old(self).active_pane(),
                old(self).active_pane().filter@ + s@,
            ),
            fx@ == seq![Effect::EnsureVisible(old(self).active)],
            old(self).wf() ==> final(self).wf(),
    {
        let side = self.active;
        let longer = concat2(self.pane(side).filter.as_str(), s);
        self.pane_mut(side).set_filter(longer);
        one(Effect::EnsureVisible(side))
    }

    fn take_git_info(&mut self, s: Side, generation: u64, info: Option<GitInfo>)
        ensures
            *final(self) == (if old(self).pane_of(s).load_generation == generation {
                with_pane(*old(self), s, Pane { git_info: info, ..old(self).pane_of(s) })
            } else {
                *old(self)
            }),
            old(self).wf() ==> final(self).wf(),
    {
        if self.pane(s).load_generation == generation {
            self.pane_mut(s).git_info = info;
        }
    }

    fn take_markers(&mut self, s: Side, generation: u64, md: bool, dir: bool)
        ensures
            *final(self) == (if old(self).pane_of(s).load_generation == generation {
                with_pane(
                    *old(self),
                    s,
                    Pane { has_claude_md: md, has_claude_dir: dir, ..old(self).pane_of(s) },
                )
            } else {
                *old(self)
            }),
            old(self).wf() ==> final(self).wf(),
    {
        if self.pane(s).load_generation == generation {
            let pane = self.pane_mut(s);
            pane.has_claude_md = md;
            pane.has_claude_dir = dir;
        }
    }

    fn change_prompt(&mut self, value: String)
        ensures
            match old(self).prompt {
                Some(p) => *final(self) == (App {
                    prompt: Some(typed_into(p, value)),
                    ..*old(self)
                }),
                None => *final(self) == *old(self),
            },
            old(self).wf() ==> final(self).wf(),
    {
        match self.prompt.take() {
            Some(p) => {
                self.prompt = Some(p.type_into(value));
            },
            None => {},
        }
    }

    fn move_in_prompt(&mut self, delta: i32)
        ensures
            match old(self).prompt {
                Some(p) => *final(self) == (App {
                    prompt: Some(moved_in(p, delta as int)),
                    ..*old(self)
                }),
                None => *final(self) == *old(self),
            },
            old(self).wf() ==> final(self).wf(),
    {
        match self.prompt.take() {
            Some(p) => {
                self.prompt = Some(p.move_highlight(delta));
            },
            None => {},
        }
    }

    fn switch_focus(&mut self) -> (fx: Vec<Effect>)
        ensures
            match old(self).prompt {
                Some(p) => *final(self) == (App { prompt: Some(refocused(p)), ..*old(self) })
                    && fx@.len() == 0,
                None => side_switched(*old(self), *final(self), fx@),
            },
            old(self).wf() ==> final(self).wf(),
    {
        match self.prompt.take() {
            Some(p) => {
                self.prompt = Some(p.refocus());
                Vec::new()
            },
            None => self.switch_side(),
        }
    }

    fn confirm(&mut self, w: &Surroundings) -> (fx: Vec<Effect>)
        requires
            old(self).has_room(),
        ensures
            confirmed(*old(self), *final(self), fx@, *w),
            old(self).wf() ==> final(self).wf(),
    {
        self.last_error = None;
        match self.prompt.take() {
            None => {
                self.show_next_pending();
                Vec::new()
            },
            Some(p) => {
                let palette: bool = match &p {
                    Prompt::CommandPalette { .. } => true,
                    _ => false,
                };
                let fx = self.submit(p, w);
                if !palette {
                    self.show_next_pending();
                }
                fx
            },
        }
    }

    fn cancel(&mut self) -> (fx: Vec<Effect>)
        ensures
            cancelled(*old(self), *final(self), fx@),
            old(self).wf() ==> final(self).wf(),
    {
        if self.prompt.is_some() {
            self.prompt = None;
            self.show_next_pending();
            return Vec::new();
        }
        let side = self.active;
        if self.pane(side).filter.as_str().is_empty() {
            return Vec::new();
        }
        let e = String::new();
        assert(e@ =~= seq![]);
        self.pane_mut(side).set_filter(e);
        one(Effect::EnsureVisible(side))
    }

    fn finish_operation(&mut self, verb: &str, results: &Vec<Outcome>) -> (fx: Vec<Effect>)
        requires
            old(self).has_room(),
        ensures
            operation_finished(*old(self), *final(self), fx@, verb@, results@),
            final(self).wf(),
    {
        match batch_error_message(verb, results) {
            Some(t) => {
                self.last_error = Some(t);
            },
            None => {},
        }
        self.reload_both_panes()
    }

    fn note_new_files(&mut self, folder: String, files: Vec<String>)
        requires
            old(self).has_room(),
        ensures
            new_files_noted(*old(self), *final(self), folder, files),
            old(self).wf() ==> final(self).wf(),
    {
        if files.len() == 0 {
            return;
        }
        if self.prompt.is_none() {
            self.prompt = Some(Prompt::NewFiles { folder, files, focus: NewFilesFocus::No });
        } else {
            merge_pending_new_files(&mut self.pending_new_files, folder, files);
        }
    }

    fn pick_side(&mut self, side: Side) -> (fx: Vec<Effect>)
        requires
            old(self).has_room(),
        ensures
            side_picked(*old(self), *final(self), fx@, side),
            old(self).wf() ==> final(self).wf(),
    {
        match self.prompt.take() {
            Some(Prompt::NewFiles { folder, files, focus: _ }) => {
                let mut fx = self.navigate(side, Location::Local(folder));
                let ghost m = *self;
                let ghost nav = fx@;
                if files.len() > 0 {
                    let latest = files[files.len() - 1].clone();
                    let pane = self.pane_mut(side);
                    pane.pending_focus = Some(latest);
                    pane.focus_jump = true;
                }
                self.active = side;
                fx.push(Effect::SaveState);
                assert(fx@.drop_last() =~= nav);
                let ghost k = *self;
                self.show_next_pending();
                assert(next_shown(k, *self));
                assert(m.pane_of(side).location@ == LocationView::Local(folder@));
                fx
            },
            other => {
                self.prompt = other;
                Vec::new()
            },
        }
    }

    fn take_containers(&mut self, result: Result<Vec<DockerContainer>, String>)
        ensures
            containers_loaded(*old(self), *final(self), result),
            old(self).wf() ==> final(self).wf(),
    {
        match self.prompt.take() {
            Some(Prompt::Docker { state: _, input, sort_by, sort_dir }) => {
                let state = match result {
                    Ok(list) => {
                        let mut list = list;
                        sort_containers(&mut list, sort_by, sort_dir);
                        DockerState::Loaded(list)
                    },
                    Err(e) => DockerState::Error(e),
                };
                self.prompt = Some(Prompt::Docker { state, input, sort_by, sort_dir });
            },
            other => {
                self.prompt = other;
            },
        }
    }

    fn resort_containers(&mut self, column: DockerSortBy)
        ensures
            containers_resorted(*old(self), *final(self), column),
            old(self).wf() ==> final(self).wf(),
    {
        match self.prompt.take() {
            Some(Prompt::Docker { state, input, sort_by, sort_dir }) => {
                let dir = if sort_by == column {
                    sort_dir.toggled()
                } else {
                    column.initial_dir()
                };
                let state = match state {
                    DockerState::Loaded(list) => {
                        let mut list = list;
                        sort_containers(&mut list, column, dir);
                        DockerState::Loaded(list)
                    },
                    other => other,
                };
                self.prompt = Some(
                    Prompt::Docker { state, input, sort_by: column, sort_dir: dir },
                );
            },
            other => {
                self.prompt = other;
            },
        }
    }

    fn take_processes(&mut self, result: Result<Vec<Process>, String>)
        ensures
            processes_loaded(*old(self), *final(self), result),
            old(self).wf() ==> final(self).wf(),
    {
        match self.prompt.take() {
            Some(Prompt::Processes { state: _, input, sort_by, sort_dir, selected }) => {
                let state = match result {
                    Ok(list) => {
                        let mut list = list;
                        sort_processes(&mut list, sort_by, sort_dir);
                        ProcessesState::Loaded(list)
                    },
                    Err(e) => ProcessesState::Error(e),
                };
                let typed = input.clone();
                let q = Prompt::Processes { state, input, sort_by, sort_dir, selected };
                let ghost q0 = q;
                self.prompt = Some(q.type_into(typed));
                assert(typed_into(q0, input) == self.prompt->0);
            },
            other => {
                self.prompt = other;
            },
        }
    }

    fn resort_processes(&mut self, column: ProcessSortBy)
        ensures
            processes_resorted(*old(self), *final(self), column),
            old(self).wf() ==> final(self).wf(),
    {
        match self.prompt.take() {
            Some(Prompt::Processes { state, input, sort_by, sort_dir, selected }) => {
                let dir = if sort_by == column {
                    sort_dir.toggled()
                } else {
                    column.initial_dir()
                };
                let state = match state {
                    ProcessesState::Loaded(list) => {
                        let mut list = list;
                        sort_processes(&mut list, column, dir);
                        ProcessesState::Loaded(list)
                    },
                    other => other,
                };
                self.prompt = Some(
                    Prompt::Processes { state, input, sort_by: column, sort_dir: dir, selected },
                );
            },
            other => {
                self.prompt = other;
            },
        }
    }

    fn take_apps(&mut self, result: Result<Vec<Application>, String>)
        ensures
            apps_loaded(*old(self), *final(self), result),
            old(self).wf() ==> final(self).wf(),
    {
        match self.prompt.take() {
            Some(Prompt::Apps { state: _, input, selected }) => {
                let state = match result {
                    Ok(list) => {
                        let mut list = list;
                        sort_apps(&mut list);
                        AppsState::Loaded(list)
                    },
                    Err(e) => AppsState::Error(e),
                };
                self.prompt = Some(Prompt::Apps { state, input, selected });
            },
            other => {
                self.prompt = other;
            },
        }
    }

    fn take_branches(&mut self, result: Result<Vec<GitBranch>, String>)
        ensures
            branches_loaded(*old(self), *final(self), result),
            old(self).wf() ==> final(self).wf(),
    {
        match self.prompt.take() {
            Some(Prompt::GitBranches { state: _, input, selected, repo_path }) => {
                let state = match result {
                    Ok(list) => GitBranchesState::Loaded(list),
                    Err(e) => GitBranchesState::Error(e),
                };
                self.prompt = Some(Prompt::GitBranches { state, input, selected, repo_path });
            },
            other => {
                self.prompt = other;
            },
        }
    }

    fn take_servers(&mut self, result: Result<Vec<SshServer>, String>)
        ensures
            servers_loaded(*old(self), *final(self), result),
            old(self).wf() ==> final(self).wf(),
    {
        match self.prompt.take() {
            Some(Prompt::SshServers { state: _, input, selected }) => {
                let state = match result {
                    Ok(list) => SshServersState::Loaded(list),
                    Err(e) => SshServersState::Error(e),
                };
                self.prompt = Some(Prompt::SshServers { state, input, selected });
            },
            other => {
                self.prompt = other;
            },
        }
    }

    fn close_and_next(&mut self)
        ensures
            closed_and_next(*old(self), *final(self)),
            old(self).wf() ==> final(self).wf(),
    {
        self.prompt = None;
        self.show_next_pending();
    }

    fn finish_checkout(&mut self, result: Result<(), String>) -> (fx: Vec<Effect>)
        requires
            old(self).has_room(),
        ensures
            checkout_done(*old(self), *final(self), fx@, result),
            old(self).wf() ==> final(self).wf(),
    {
        match result {
            Ok(_) => {
                self.close_and_next();
                self.reload_both_panes()
            },
            Err(e) => {
                self.take_branches(Err(e));
                Vec::new()
            },
        }
    }

    fn toggle_choice_edit(&mut self) -> (fx: Vec<Effect>)
        ensures
            choice_edit_toggled(*old(self), *final(self), fx@),
            old(self).wf() ==> final(self).wf(),
    {
        match self.prompt.take() {
            Some(Prompt::FileActions { path, choices, selected, edit }) => {
                if edit.is_some() {
                    self.prompt = Some(
                        Prompt::FileActions { path, choices, selected, edit: None },
                    );
                    return Vec::new();
                }
                let line: Option<String> = if selected < choices.len() {
                    match &choices[selected] {
                        FileChoice::Custom { command, .. } => Some(
                            substitute_command(command.as_str(), path.as_str()),
                        ),
                        FileChoice::OpenDefault => None,
                    }
                } else {
                    None
                };
                match line {
                    Some(e) => {
                        self.prompt = Some(
                            Prompt::FileActions { path, choices, selected, edit: Some(e) },
                        );
                        one(Effect::FocusInput)
                    },
                    None => {
                        self.prompt = Some(
                            Prompt::FileActions { path, choices, selected, edit },
                        );
                        Vec::new()
                    },
                }
            },
            other => {
                self.prompt = other;
                Vec::new()
            },
        }
    }

    fn pick_choice(&mut self, i: usize) -> (fx: Vec<Effect>)
        ensures
            match old(self).prompt {
                Some(Prompt::FileActions { path, choices, .. }) => if i < choices@.len() {
                    exists|k: App|
                        #![trigger next_shown(k, *final(self))]
                        choice_run(
                            App { prompt: None, last_error: None, ..*old(self) },
                            k,
                            fx@,
                            path,
                            choices@[i as int],
                            None,
                        ) && next_shown(k, *final(self))
                } else {
                    *final(self) == *old(self) && fx@.len() == 0
                },
                _ => *final(self) == *old(self) && fx@.len() == 0,
            },
            old(self).wf() ==> final(self).wf(),
    {
        match self.prompt.take() {
            Some(Prompt::FileActions { path, choices, selected, edit }) => {
                if i < choices.len() {
                    self.last_error = None;
                    let fx = self.run_choice(path, &choices[i], None);
                    let ghost k = *self;
                    self.show_next_pending();
                    assert(next_shown(k, *self));
                    fx
                } else {
                    self.prompt = Some(Prompt::FileActions { path, choices, selected, edit });
                    Vec::new()
                }
            },
            other => {
                self.prompt = other;
                Vec::new()
            },
        }
    }

    fn refresh_pane(&mut self, side: Side, folder: &str) -> (fx: Vec<Effect>)
        requires
            old(self).pane_of(side).load_generation < u64::MAX,
        ensures
            only_pane_changed(*old(self), *final(self), side),
            pane_refreshed(old(self).pane_of(side), final(self).pane_of(side), folder@),
            fx@ == refresh_effects(old(self).pane_of(side), final(self).pane_of(side), side),
            old(self).wf() ==> final(self).wf(),
    {
        let shown: bool = self.pane(side).location.is_local() && paths_equal(
            self.pane(side).path(),
            folder,
        );
        if !shown {
            let fx: Vec<Effect> = Vec::new();
            assert(fx@ =~= seq![]);
            return fx;
        }
        let generation: u64 = self.pane_mut(side).reload();
        let location = self.pane(side).location.clone();
        one(Effect::Load { side, location, generation })
    }

    fn refresh_dir(&mut self, folder: &str) -> (fx: Vec<Effect>)
        requires
            old(self).has_room(),
        ensures
            dir_refreshed(*old(self), *final(self), fx@, folder@),
            old(self).wf() ==> final(self).wf(),
    {
        let mut fx = self.refresh_pane(Side::Left, folder);
        let mut more = self.refresh_pane(Side::Right, folder);
        fx.append(&mut more);
        fx
    }

    fn flush_drops(&mut self, seq: u64, side: Side) -> (fx: Vec<Effect>)
        ensures
            drops_flushed(*old(self), *final(self), fx@, seq, side),
            old(self).wf() ==> final(self).wf(),
    {
        if seq != self.drop_seq || self.dropped_files.len() == 0 {
            return Vec::new();
        }
        if !self.pane(side).location.is_local() {
            self.dropped_files = Vec::new();
            self.last_error = Some(string_from("Files can't be dropped onto a remote pane"));
            return Vec::new();
        }
        let n: usize = self.dropped_files.len();
        let mut srcs: Vec<Location> = Vec::new();
        let mut i: usize = 0;
        let ghost files = self.dropped_files@;
        while i < n
            invariant
                i <= n,
                self.dropped_files@ == files,
                n == files.len(),
                srcs@.len() == i,
                forall|k: int|
                    0 <= k < i ==> (#[trigger] srcs@[k])@ == LocationView::Local(files[k]@),
                *self == *old(self),
            decreases n - i,
        {
            srcs.push(Location::Local(self.dropped_files[i].clone()));
            i += 1;
        }
        assert(location_views(srcs@) =~= texts(files).map_values(
            |p: Seq<char>| LocationView::Local(p),
        ));
        let dest = self.pane(side).location.clone();
        let text = dest.to_text();
        self.dropped_files = Vec::new();
        self.copy_in_progress = Some((n, text));
        one(Effect::Copy { srcs, dest })
    }

    fn take_quick_view(&mut self, id: u64, side: Side, result: Result<String, String>)
        ensures
            quick_view_loaded(*old(self), *final(self), id, side, result),
            old(self).wf() ==> final(self).wf(),
    {
        match self.quick_view.take() {
            Some(q) => {
                if q.request_id == id && q.source_side == side {
                    let output = match result {
                        Ok(t) => QuickViewOutput::Ready(t),
                        Err(e) => QuickViewOutput::Error(e),
                    };
                    self.quick_view = Some(QuickViewState { output, ..q });
                } else {
                    self.quick_view = Some(q);
                }
            },
            None => {},
        }
    }

    fn stop_ftp(&mut self)
        ensures
            ftp_stopped(*old(self), *final(self)),
            old(self).wf() ==> final(self).wf(),
    {
        self.ftp_server = None;
        self.ftp_log.clear();
        self.prompt = None;
    }

    fn take_ftp(&mut self, result: Result<FtpServerInfo, String>)
        ensures
            ftp_started(*old(self), *final(self), result),
            old(self).wf() ==> final(self).wf(),
    {
        match result {
            Ok(info) => {
                self.ftp_log.clear();
                self.ftp_server = Some(info.clone());
                self.prompt = Some(Prompt::FtpInfo { info, focus: FtpInfoFocus::Close });
            },
            Err(e) => {
                self.last_error = Some(e);
            },
        }
    }

    /// Handles an event, and returns what is to be done for it.
    pub fn update(&mut self, m: Message, w: &Surroundings) -> (fx: Vec<Effect>)
        requires
            old(self).has_room(),
        ensures
            updated(*old(self), m, *w, *final(self), fx@),
            old(self).wf() ==> final(self).wf(),
    {
        let m = redirect(&self.prompt, m);
        if self.prompt.is_some() && pane_message(&m) {
            return Vec::new();
        }
        self.handle(m, w)
    }

    fn handle(&mut self, m: Message, w: &Surroundings) -> (fx: Vec<Effect>)
        requires
            old(self).has_room(),
        ensures
            step(*old(self), m, *w, *final(self), fx@),
            old(self).wf() ==> final(self).wf(),
    {
        match find_concern(&m) {
            Concern::Panes => self.handle_panes(m, w),
            Concern::Listings => self.handle_listings(m, w),
            Concern::Dialogs => self.handle_dialogs(m, w),
            Concern::Operations => self.handle_operations(m, w),
            Concern::Lists => self.handle_lists(m, w),
        }
    }

    #[verifier::rlimit(40)]
    #[verifier::spinoff_prover]
    fn handle_panes(&mut self, m: Message, w: &Surroundings) -> (fx: Vec<Effect>)
        requires
            old(self).has_room(),
            concern_of(m) == Concern::Panes,
        ensures
            step(*old(self), m, *w, *final(self), fx@),
            old(self).wf() ==> final(self).wf(),
    {
        let side = self.active;
        match m {
            Message::ShiftChanged(b) => {
                self.shift_held = b;
                Vec::new()
            },
            Message::CommandChanged(b) => {
                self.command_held = b;
                Vec::new()
            },
            Message::Activate(s) => {
                if self.active == s {
                    return none();
                }
                self.active = s;
                one(Effect::SaveState)
            },
            Message::RowClicked(s, row) => self.click_row(s, row),
            Message::GoUpActive => self.backspace(),
            Message::MoveSelection(delta, extend) => self.move_rows(delta, extend),
            Message::PageMove(dir, extend) => self.move_pages(dir, w.page_rows, extend),
            Message::MoveToEdge(top, extend) => self.move_to_edge(top, extend),
            Message::SwitchSide => self.switch_side(),
            Message::ActivateSelection => self.activate_selection(),
            _ => Vec::new(),
        }
    }

    #[verifier::rlimit(40)]
    #[verifier::spinoff_prover]
    fn handle_listings(&mut self, m: Message, w: &Surroundings) -> (fx: Vec<Effect>)
        requires
            old(self).has_room(),
            concern_of(m) == Concern::Listings,
        ensures
            step(*old(self), m, *w, *final(self), fx@),
            old(self).wf() ==> final(self).wf(),
    {
        let side = self.active;
        match m {
            Message::ToggleSort(s, by) => self.sort_pane(s, by),
            Message::FilterAppend(s) => self.lengthen_filter(s.as_str()),
            Message::EntriesChunk(s, generation, chunk) => self.take_chunk(s, generation, chunk),
            Message::EntriesDone(s, generation) => {
                self.finish_load(s, generation);
                Vec::new()
            },
            Message::GitInfoLoaded(s, generation, info) => {
                self.take_git_info(s, generation, info);
                Vec::new()
            },
            Message::MarkersProbed(s, generation, md, dir) => {
                self.take_markers(s, generation, md, dir);
                Vec::new()
            },
            Message::EditFile => match self.file_under_cursor(false) {
                Some(p) => one(Effect::Edit(p)),
                None => Vec::new(),
            },
            Message::QuickLook => match self.file_under_cursor(true) {
                Some(p) => one(Effect::QuickLook(p)),
                None => Vec::new(),
            },
            _ => Vec::new(),
        }
    }

    #[verifier::rlimit(40)]
    #[verifier::spinoff_prover]
    fn handle_dialogs(&mut self, m: Message, w: &Surroundings) -> (fx: Vec<Effect>)
        requires
            old(self).has_room(),
            concern_of(m) == Concern::Dialogs,
        ensures
            step(*old(self), m, *w, *final(self), fx@),
            old(self).wf() ==> final(self).wf(),
    {
        let side = self.active;
        match m {
            Message::OpenPrompt => self.open_go_to(),
            Message::OpenCopyPrompt => self.open_transfer(false),
            Message::OpenMovePrompt => self.open_transfer(true),
            Message::OpenNewFolderPrompt => {
                self.prompt = Some(Prompt::NewFolder { input: String::new() });
                one(Effect::FocusInput)
            },
            Message::OpenDeletePrompt => {
                self.open_delete();
                Vec::new()
            },
            Message::SwitchPromptFocus => self.switch_focus(),
            Message::OpenSettingsFile => one(Effect::OpenSettings),
            Message::SettingsLoaded(c) => {
                self.config = c;
                Vec::new()
            },
            Message::PromptChanged(value) => {
                self.change_prompt(value);
                Vec::new()
            },
            Message::PromptSubmit => self.confirm(w),
            Message::PromptCancel => self.cancel(),
            Message::OpenCommandPalette => self.open_palette(),
            Message::PromptMove(delta) => {
                self.move_in_prompt(delta);
                Vec::new()
            },
            Message::OpenRecent(path) => {
                self.close_and_next();
                if w.is_dir(path.as_str()) {
                    self.navigate(side, Location::Local(path))
                } else {
                    Vec::new()
                }
            },
            Message::PaletteSelect(action) => {
                if !palette_action_enabled(action, self.config.dropbox_auth().is_some()) {
                    return Vec::new();
                }
                self.execute_palette_action(action)
            },
            Message::FileChoiceActivate(i) => self.pick_choice(i),
            Message::ToggleChoiceEdit => self.toggle_choice_edit(),
            _ => Vec::new(),
        }
    }

    #[verifier::rlimit(40)]
    #[verifier::spinoff_prover]
    fn handle_operations(&mut self, m: Message, w: &Surroundings) -> (fx: Vec<Effect>)
        requires
            old(self).has_room(),
            concern_of(m) == Concern::Operations,
        ensures
            step(*old(self), m, *w, *final(self), fx@),
            old(self).wf() ==> final(self).wf(),
    {
        let side = self.active;
        match m {
            Message::CopyFinished(results) => {
                self.copy_in_progress = None;
                self.finish_operation("Copy", &results)
            },
            Message::MoveFinished(results) => {
                self.move_in_progress = None;
                self.finish_operation("Move", &results)
            },
            Message::DeleteFinished(results) => {
                self.delete_in_progress = None;
                self.finish_operation("Delete", &results)
            },
            Message::UncompressFinished(results) => {
                self.uncompress_in_progress = None;
                self.finish_operation("Extract", &results)
            },
            Message::CompressFinished(result) => {
                self.compress_in_progress = None;
                match result {
                    Ok(_) => {},
                    Err(e) => {
                        self.last_error = Some(concat2("Compress failed: ", e.as_str()));
                    },
                }
                self.reload_both_panes()
            },
            Message::ExtractedToTemp(dest, result) => {
                self.extract_in_progress = None;
                match result {
                    Ok(_) => self.navigate(side, Location::Local(dest)),
                    Err(e) => {
                        self.last_error = Some(concat2("Extract failed: ", e.as_str()));
                        Vec::new()
                    },
                }
            },
            Message::NewFilesDetected(folder, files) => {
                self.note_new_files(folder, files);
                Vec::new()
            },
            Message::NewFilesPickSide(s) => self.pick_side(s),
            Message::FileActionFinished(result) => {
                self.file_action_in_progress = None;
                match result {
                    Ok(_) => {},
                    Err(e) => {
                        self.last_error = Some(e);
                    },
                }
                self.reload_both_panes()
            },
            Message::ItemMade(result) => match result {
                Ok(_) => self.reload_both_panes(),
                Err(e) => {
                    self.last_error = Some(e);
                    Vec::new()
                },
            },
            Message::WatchedDirChanged(folder) => self.refresh_dir(folder.as_str()),
            Message::FileDropped(path) => {
                self.dropped_files.push(path);
                self.drop_seq += 1;
                one(Effect::AwaitDrops(self.drop_seq))
            },
            Message::FlushDrops(seq, s) => self.flush_drops(seq, s),
            Message::QuickViewDebounceFire(id) => match &self.quick_view {
                Some(q) => if q.request_id == id {
                    one(Effect::RunQuickView(id))
                } else {
                    none()
                },
                None => none(),
            },
            Message::QuickViewLoaded(id, s, result) => {
                self.take_quick_view(id, s, result);
                Vec::new()
            },
            Message::ExitApp => one(Effect::Exit),
            Message::NoOp => Vec::new(),
            _ => Vec::new(),
        }
    }

    #[verifier::rlimit(40)]
    #[verifier::spinoff_prover]
    fn handle_lists(&mut self, m: Message, w: &Surroundings) -> (fx: Vec<Effect>)
        requires
            old(self).has_room(),
            concern_of(m) == Concern::Lists,
        ensures
            step(*old(self), m, *w, *final(self), fx@),
            old(self).wf() ==> final(self).wf(),
    {
        let side = self.active;
        match m {
            Message::DockerListLoaded(result) => {
                self.take_containers(result);
                Vec::new()
            },
            Message::DockerKill(id) => one(Effect::KillContainer(id)),
            Message::DockerKillFinished(_, _) => match &self.prompt {
                Some(Prompt::Docker { .. }) => one(Effect::ListContainers),
                _ => none(),
            },
            Message::DockerShell(id) => one(Effect::ContainerShell(id)),
            Message::ProcessesListLoaded(result) => {
                self.take_processes(result);
                Vec::new()
            },
            Message::ProcessKill(pid) => one(Effect::KillProcess(pid)),
            Message::ProcessKillFinished(_, _) => match &self.prompt {
                Some(Prompt::Processes { .. }) => one(Effect::ListProcesses),
                _ => none(),
            },
            Message::DockerToggleSort(column) => {
                self.resort_containers(column);
                Vec::new()
            },
            Message::ProcessToggleSort(column) => {
                self.resort_processes(column);
                Vec::new()
            },
            Message::AppsListLoaded(result) => {
                self.take_apps(result);
                Vec::new()
            },
            Message::LaunchApp(path) => {
                self.close_and_next();
                one(Effect::LaunchApp(path))
            },
            Message::GitBranchesLoaded(result) => {
                self.take_branches(result);
                Vec::new()
            },
            Message::GitCheckout(branch) => match &self.prompt {
                Some(Prompt::GitBranches { repo_path, .. }) => one(
                    Effect::Checkout { repo: repo_path.clone(), branch },
                ),
                _ => none(),
            },
            Message::GitCheckoutFinished(_, result) => self.finish_checkout(result),
            Message::SshServersLoaded(result) => {
                self.take_servers(result);
                Vec::new()
            },
            Message::SshConnect(alias) => {
                self.close_and_next();
                one(Effect::SshConnect(alias))
            },
            Message::SshOpenInPane(alias) => {
                self.close_and_next();
                let home = Location::remote(BackendId::new(alias.as_str()), "~");
                self.navigate(side, home)
            },
            Message::FtpStarted(result) => {
                self.take_ftp(result);
                Vec::new()
            },
            Message::FtpServerStopRequest => {
                self.stop_ftp();
                let ghost k = *self;
                self.show_next_pending();
                assert(next_shown(k, *self));
                one(Effect::StopFtp)
            },
            Message::FtpServerReplaceConfirmed(root) => {
                self.stop_ftp();
                two(Effect::StopFtp, Effect::StartFtp(root))
            },
            Message::FtpLogEvent(e) => {
                if self.ftp_server.is_some() {
                    push_log(&mut self.ftp_log, e);
                }
                Vec::new()
            },
            _ => Vec::new(),
        }
    }
}

fn find_concern(m: &Message) -> (r: Concern)
    ensures
        r == concern_of(*m),
{
    match m {
        Message::ShiftChanged(..)
        | Message::CommandChanged(..)
        | Message::Activate(..)
        | Message::RowClicked(..)
        | Message::GoUpActive
        | Message::MoveSelection(..)
        | Message::PageMove(..)
        | Message::MoveToEdge(..)
        | Message::SwitchSide
        | Message::ActivateSelection => Concern::Panes,
        Message::ToggleSort(..)
        | Message::FilterAppend(..)
        | Message::EntriesChunk(..)
        | Message::EntriesDone(..)
        | Message::GitInfoLoaded(..)
        | Message::MarkersProbed(..)
        | Message::EditFile
        | Message::QuickLook => Concern::Listings,
        Message::OpenPrompt
        | Message::OpenCopyPrompt
        | Message::OpenMovePrompt
        | Message::OpenNewFolderPrompt
        | Message::OpenDeletePrompt
        | Message::SwitchPromptFocus
        | Message::OpenSettingsFile
        | Message::SettingsLoaded(..)
        | Message::PromptChanged(..)
        | Message::PromptSubmit
        | Message::PromptCancel
        | Message::OpenCommandPalette
        | Message::PromptMove(..)
        | Message::OpenRecent(..)
        | Message::PaletteSelect(..)
        | Message::FileChoiceActivate(..)
        | Message::ToggleChoiceEdit => Concern::Dialogs,
        Message::CopyFinished(..)
        | Message::MoveFinished(..)
        | Message::DeleteFinished(..)
        | Message::UncompressFinished(..)
        | Message::CompressFinished(..)
        | Message::ExtractedToTemp(..)
        | Message::FileActionFinished(..)
        | Message::ItemMade(..)
        | Message::NewFilesDetected(..)
        | Message::NewFilesPickSide(..)
        | Message::WatchedDirChanged(..)
        | Message::FileDropped(..)
        | Message::FlushDrops(..)
        | Message::QuickViewDebounceFire(..)
        | Message::QuickViewLoaded(..)
        | Message::ExitApp
        | Message::NoOp => Concern::Operations,
        _ => Concern::Lists,
    }
}

fn none() -> (r: Vec<Effect>)
    ensures
        r@ == Seq::<Effect>::empty(),
{
    let r: Vec<Effect> = Vec::new();
    assert(r@ =~= Seq::<Effect>::empty());
    r
}

} // verus!
