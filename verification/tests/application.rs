use rho::app::{App, batch_error_message};
use rho::config::{Config, SavedState};
use rho::docker::DockerState;
use rho::entry::{Entry, Side};
use rho::location::{BackendId, Location};
use rho::message::{Effect, Message, Surroundings};
use rho::palette::{PaletteAction, Platform};
use rho::prompt::{DeleteFocus, Prompt};

fn surroundings(dirs: &[&str], existing: &[&str]) -> Surroundings {
    Surroundings {
        home: "/home/me".to_string(),
        page_rows: 10,
        dirs: dirs.iter().map(|s| s.to_string()).collect(),
        existing: existing.iter().map(|s| s.to_string()).collect(),
    }
}

fn entry(name: &str, is_dir: bool) -> Entry {
    Entry { name: name.to_string(), is_dir, size: Some(1), modified: None }
}

fn saved(left: &str, right: &str) -> SavedState {
    SavedState {
        left: Location::parse(left),
        right: Location::parse(right),
        active: Side::Left,
        recent: vec![],
    }
}

fn started() -> App {
    let w = surroundings(&[], &[]);
    let (mut app, _) =
        App::new(Config::default(), Platform::Linux, "/home/me", Some(saved("/l", "/r")), true, true);
    let listing = vec![entry("sub", true), entry("a.md", false), entry("b.zip", false)];
    app.update(Message::EntriesChunk(Side::Left, 0, listing), &w);
    app.update(Message::EntriesDone(Side::Left, 0), &w);
    app.update(Message::EntriesDone(Side::Right, 0), &w);
    app
}

#[test]
fn starts_where_it_was_left() {
    let (app, fx) =
        App::new(Config::default(), Platform::Linux, "/home/me", Some(saved("/l", "h:/r")), false, false);
    assert_eq!(app.left.path(), "/home/me");
    assert_eq!(app.right.location, Location::remote(BackendId::new("h"), "/r"));
    assert!(fx.iter().any(|e| matches!(e, Effect::Load { side: Side::Left, .. })));
    assert_eq!(app.status_text().as_deref(), Some("Loading /home/me…"));
    let again = app.saved_state();
    let (next, _) =
        App::new(Config::default(), Platform::Linux, "/elsewhere", Some(again), true, true);
    assert_eq!(next.left.location, app.left.location);
    assert_eq!(next.right.location, app.right.location);
}

#[test]
fn overtaken_loads_are_dropped() {
    let mut app = started();
    let w = surroundings(&[], &[]);
    app.update(Message::MoveSelection(1, false), &w);
    app.update(Message::ActivateSelection, &w);
    assert_eq!(app.left.path(), "/l/sub");
    app.update(Message::EntriesChunk(Side::Left, 0, vec![entry("stale", false)]), &w);
    assert!(app.left.entries.is_empty());
    app.update(Message::EntriesChunk(Side::Left, 1, vec![entry("fresh", false)]), &w);
    assert_eq!(app.left.entries.len(), 1);
}

#[test]
fn going_up_opens_the_parent() {
    let mut app = started();
    let w = surroundings(&[], &[]);
    app.update(Message::MoveSelection(1, false), &w);
    app.update(Message::ActivateSelection, &w);
    app.update(Message::GoUpActive, &w);
    assert_eq!(app.left.path(), "/l");
    assert_eq!(app.left.load_generation, 2);
    assert_eq!(app.left.cursor_name(), None);
}

#[test]
fn deleting_asks_first() {
    let mut app = started();
    let w = surroundings(&[], &[]);
    app.update(Message::MoveSelection(2, false), &w);
    let fx = app.update(Message::OpenDeletePrompt, &w);
    assert!(!fx.iter().any(|e| matches!(e, Effect::Delete(_))));
    assert!(matches!(&app.prompt, Some(Prompt::Delete { focus: DeleteFocus::Cancel, .. })));
    // Enter with the focus where it starts leaves the dialog.
    let fx = app.update(Message::ActivateSelection, &w);
    assert!(fx.is_empty() && app.prompt.is_none());
    app.update(Message::OpenDeletePrompt, &w);
    app.update(Message::SwitchPromptFocus, &w);
    let fx = app.update(Message::ActivateSelection, &w);
    assert!(matches!(&fx[..], [Effect::Delete(v)] if v[0].path() == "/l/a.md"));
    assert_eq!(app.status_text().as_deref(), Some("Deleting 1 file…"));
    app.update(Message::DeleteFinished(vec![("/l/a.md".to_string(), Err("no".to_string()))]), &w);
    assert!(app.last_error.is_some());
    assert_eq!(app.status_text().is_some(), app.left.loading || app.right.loading);
}

#[test]
fn dialogs_shield_the_panes() {
    let mut app = started();
    let w = surroundings(&[], &[]);
    app.update(Message::OpenCopyPrompt, &w);
    assert!(matches!(&app.prompt, Some(Prompt::Copy { input }) if input == "/r"));
    let before = app.left.selected;
    app.update(Message::MoveSelection(1, false), &w);
    app.update(Message::FilterAppend("x".to_string()), &w);
    assert_eq!(app.left.selected, before);
    assert!(app.left.filter.is_empty());
    let fx = app.update(Message::ExitApp, &w);
    assert!(matches!(&fx[..], [Effect::Exit]));
}

#[test]
fn copying_into_the_other_pane() {
    let mut app = started();
    app.update(Message::MoveSelection(2, false), &surroundings(&[], &[]));
    app.update(Message::OpenCopyPrompt, &surroundings(&[], &[]));
    let asked = app.paths_to_probe(&Message::PromptSubmit, "/home/me");
    assert!(asked.contains(&"/r".to_string()));
    let fx = app.update(Message::PromptSubmit, &surroundings(&["/r"], &["/r"]));
    assert!(fx.iter().any(|e| matches!(e, Effect::Copy { dest, .. } if dest.path() == "/r")));
    assert_eq!(app.status_text().as_deref(), Some("Copying 1 file to /r…"));
    app.update(Message::CopyFinished(vec![("/l/a.md".to_string(), Ok(()))]), &surroundings(&[], &[]));
    assert!(app.copy_in_progress.is_none() && app.last_error.is_none());
}

#[test]
fn moving_to_a_new_name_renames() {
    let mut app = started();
    let w = surroundings(&[], &[]);
    app.update(Message::MoveSelection(2, false), &w);
    app.update(Message::OpenMovePrompt, &w);
    app.update(Message::PromptChanged("renamed.md".to_string()), &w);
    let fx = app.update(Message::PromptSubmit, &surroundings(&["/l"], &["/l"]));
    assert!(fx.iter().any(|e| matches!(e, Effect::Rename { dest, .. } if dest.path() == "/l/renamed.md")));
}

#[test]
fn typing_filters_and_escape_clears() {
    let mut app = started();
    let w = surroundings(&[], &[]);
    app.update(Message::FilterAppend("zip".to_string()), &w);
    assert_eq!(app.left.visible_indices.len(), 1);
    app.update(Message::GoUpActive, &w);
    assert_eq!(app.left.filter, "zi");
    app.update(Message::PromptCancel, &w);
    assert!(app.left.filter.is_empty());
    assert_eq!(app.left.visible_indices.len(), 3);
}

#[test]
fn files_offer_a_choice() {
    let mut app = started();
    let w = surroundings(&[], &[]);
    app.update(Message::MoveSelection(2, false), &w);
    app.update(Message::ActivateSelection, &w);
    assert!(matches!(&app.prompt, Some(Prompt::FileActions { path, .. }) if path == "/l/a.md"));
    let fx = app.update(Message::ActivateSelection, &w);
    assert!(fx.iter().any(|e| matches!(e, Effect::OpenDefault(p) if p == "/l/a.md")));
}

#[test]
fn archives_are_browsed() {
    let mut app = started();
    let w = surroundings(&[], &[]);
    app.update(Message::MoveSelection(3, false), &w);
    let fx = app.update(Message::ActivateSelection, &w);
    assert!(fx.iter().any(|e| matches!(e, Effect::ExtractToTemp(p) if p == "/l/b.zip")));
    app.update(Message::ExtractedToTemp("/tmp/rho-b-1".to_string(), Ok(())), &w);
    assert_eq!(app.left.path(), "/tmp/rho-b-1");
}

#[test]
fn new_files_wait_for_other_dialogs() {
    let mut app = started();
    let w = surroundings(&[], &[]);
    app.update(Message::OpenPrompt, &w);
    app.update(Message::NewFilesDetected("/d".to_string(), vec!["x".to_string()]), &w);
    assert!(matches!(&app.prompt, Some(Prompt::Open { .. })));
    app.update(Message::PromptCancel, &w);
    assert!(matches!(&app.prompt, Some(Prompt::NewFiles { folder, .. }) if folder == "/d"));
    app.update(Message::NewFilesPickSide(Side::Right), &w);
    assert_eq!(app.right.path(), "/d");
}

#[test]
fn sides_switch() {
    let mut app = started();
    let w = surroundings(&[], &[]);
    app.update(Message::SwitchSide, &w);
    assert_eq!(app.active, Side::Right);
    app.update(Message::SwitchPromptFocus, &w);
    assert_eq!(app.active, Side::Left);
}

#[test]
fn palette_runs_what_is_highlighted() {
    let mut app = started();
    let w = surroundings(&[], &[]);
    app.update(Message::OpenCommandPalette, &w);
    app.update(Message::PromptChanged("docker".to_string()), &w);
    let fx = app.update(Message::PromptSubmit, &w);
    assert!(fx.iter().any(|e| matches!(e, Effect::ListContainers)));
    assert!(matches!(&app.prompt, Some(Prompt::Docker { state: DockerState::Loading, .. })));
    app.update(Message::DockerListLoaded(Err("down".to_string())), &w);
    assert!(matches!(&app.prompt, Some(Prompt::Docker { state: DockerState::Error(e), .. }) if e == "down"));
}

#[test]
fn batches_report_their_failures() {
    let ok = vec![("/a".to_string(), Ok(()))];
    assert_eq!(batch_error_message("Copy", &ok), None);
    let bad = vec![("/a".to_string(), Ok(())), ("/b".to_string(), Err("no".to_string()))];
    assert!(batch_error_message("Copy", &bad).unwrap().contains("no"));
}

#[test]
fn palette_actions_close_the_palette_first() {
    let (mut app, _) = App::new(Config::default(), Platform::Linux, "/h", None, false, false);
    let w = Surroundings {
        home: "/h".to_string(),
        page_rows: 5,
        dirs: Vec::new(),
        existing: Vec::new(),
    };
    app.update(Message::OpenCommandPalette, &w);
    assert!(matches!(app.prompt, Some(Prompt::CommandPalette { .. })));
    let fx = app.update(Message::PaletteSelect(PaletteAction::Delete), &w);
    assert!(app.prompt.is_none());
    assert!(fx.is_empty());
}
