use rho::actions::FileChoice;
use rho::dialog::{ListBody, ListRow, Tone, delete_question, dialog_choices, dialog_hint, dialog_list, dialog_placeholder, dialog_title, dialog_width, extract_question, new_files_header, new_files_listing};
use rho::docker::{DockerContainer, DockerSortBy, DockerState};
use rho::entry::SortDir;
use rho::location::{BackendId, Location};
use rho::palette::{PaletteAction, Platform};
use rho::process::{Process, ProcessSortBy, ProcessesState, Share};
use rho::prompt::{DeleteFocus, NewFilesFocus, Prompt};
use rho::ssh::{SshServer, SshServersState};

fn rows(prompt: &Prompt) -> Vec<ListRow> {
    match dialog_list(prompt) {
        Some(ListBody::Rows(v)) => v,
        other => panic!("no rows: {:?}", other),
    }
}

#[test]
fn questions() {
    let one = vec![Location::local("/a/x.txt")];
    assert_eq!(delete_question(&one), "Do you really want to delete \"x.txt\"?");
    let root = vec![Location::remote(BackendId::new("h"), "/")];
    assert_eq!(delete_question(&root), "Do you really want to delete \"h:/\"?");
    let two = vec![Location::local("/a"), Location::local("/b")];
    assert_eq!(delete_question(&two), "Do you really want to delete 2 files?");
    assert_eq!(
        extract_question("/a/big.zip", 209715200),
        "\"big.zip\" is 200.0 MB. Extract it to /tmp and browse?"
    );
    assert_eq!(new_files_header("/d", 1), "New file detected in /d:");
    assert_eq!(new_files_header("/d", 3), "3 new files detected in /d:");
}

#[test]
fn long_listings_are_cut() {
    let files: Vec<String> = (0..10).map(|i| format!("f{}", i)).collect();
    let text = new_files_listing(&files);
    assert!(text.starts_with("  • f0\n  • f1\n"));
    assert!(text.ends_with("  • f7\n  …and 2 more"));
    assert_eq!(new_files_listing(&vec!["a".to_string()]), "  • a");
}

#[test]
fn buttons_show_the_focus() {
    let p = Prompt::Delete { paths: vec![], focus: DeleteFocus::Confirm };
    assert_eq!(dialog_choices(&p), vec![("Cancel", Tone::Subdued), ("Delete", Tone::Danger)]);
    let p = Prompt::NewFiles { folder: "/d".to_string(), files: vec![], focus: NewFilesFocus::No };
    assert_eq!(dialog_choices(&p)[0], ("No", Tone::Prominent));
    assert!(dialog_choices(&Prompt::KeyboardShortcuts).is_empty());
}

#[test]
fn titles_hints_and_widths() {
    let p = Prompt::FileActions {
        path: "/a/x.md".to_string(),
        choices: vec![],
        selected: 0,
        edit: None,
    };
    assert_eq!(dialog_title(&p), "Open  x.md");
    assert_eq!(dialog_width(&p), 520);
    assert_eq!(dialog_placeholder(&p), None);
    assert_eq!(dialog_hint(&Prompt::KeyboardShortcuts), "Esc dismisses");
    let copy = Prompt::Copy { input: String::new() };
    assert_eq!(dialog_title(&copy), "Copy selected to");
    assert_eq!(dialog_placeholder(&copy), Some("/path/to/destination"));
    assert_eq!(dialog_width(&copy), 440);
    assert!(dialog_list(&copy).is_none());
}

#[test]
fn recents_are_listed() {
    let p = Prompt::Open {
        input: "b".to_string(),
        recents: vec!["/a".to_string(), "/b".to_string(), "/ab".to_string()],
        selected: 1,
    };
    let v = rows(&p);
    assert_eq!(v.len(), 2);
    assert_eq!(v[1].cells, vec!["/ab".to_string()]);
    assert!(v[1].highlighted && !v[0].highlighted);
    let none = Prompt::Open { input: String::new(), recents: vec![], selected: 0 };
    assert!(matches!(dialog_list(&none), Some(ListBody::Notice(t)) if t.starts_with("No recent locations yet")));
}

#[test]
fn palette_greys_out_what_is_not_set_up() {
    let p = Prompt::CommandPalette {
        input: "dropbox".to_string(),
        selected: 0,
        actions: PaletteAction::all(Platform::Linux),
        dropbox_configured: false,
    };
    let v = rows(&p);
    assert_eq!(v.len(), 1);
    assert!(!v[0].enabled);
}

#[test]
fn containers_without_a_name_show_their_id() {
    let c = DockerContainer {
        id: "abc".to_string(),
        name: String::new(),
        image: "nginx".to_string(),
        status: "Up".to_string(),
    };
    let p = |state| Prompt::Docker {
        state,
        input: String::new(),
        sort_by: DockerSortBy::Name,
        sort_dir: SortDir::Asc,
    };
    assert_eq!(rows(&p(DockerState::Loaded(vec![c])))[0].cells[0], "abc");
    assert!(matches!(dialog_list(&p(DockerState::Loaded(vec![]))), Some(ListBody::Notice("No running containers."))));
    assert!(matches!(dialog_list(&p(DockerState::Loading)), Some(ListBody::Notice("Loading…"))));
    assert!(matches!(dialog_list(&p(DockerState::Error("e".to_string()))), Some(ListBody::Fault(e)) if e == "e"));
}

#[test]
fn processes_are_aligned() {
    let share = |t: &str| Share { text: t.to_string(), rank: 0 };
    let p = Prompt::Processes {
        state: ProcessesState::Loaded(vec![Process {
            pid: 7,
            name: "init".to_string(),
            cpu: share("0.5"),
            mem: share("100.0"),
        }]),
        input: String::new(),
        sort_by: ProcessSortBy::Cpu,
        sort_dir: SortDir::Desc,
        selected: 0,
    };
    assert_eq!(rows(&p)[0].cells, vec!["init", "PID 7", "CPU   0.5%", "MEM 100.0%"]);
}

#[test]
fn hosts_show_user_and_address() {
    let server = |user: Option<&str>, host: Option<&str>| SshServer {
        alias: "a".to_string(),
        hostname: host.map(|s| s.to_string()),
        user: user.map(|s| s.to_string()),
        identity_file: None,
    };
    let p = Prompt::SshServers {
        state: SshServersState::Loaded(vec![
            server(Some("u"), Some("h")),
            server(None, Some("h")),
            server(Some("u"), None),
            server(None, None),
        ]),
        input: String::new(),
        selected: 0,
    };
    let cells: Vec<String> = rows(&p).into_iter().map(|r| r.cells[1].clone()).collect();
    assert_eq!(cells, vec!["u@h", "h", "u@?", ""]);
}

#[test]
fn file_choices_show_what_they_run() {
    let p = Prompt::FileActions {
        path: "/a".to_string(),
        choices: vec![
            FileChoice::OpenDefault,
            FileChoice::Custom { label: "L".to_string(), command: "c".to_string(), terminal: true },
        ],
        selected: 1,
        edit: None,
    };
    let v = rows(&p);
    assert_eq!(v[0].cells[1], "opens in the OS default app");
    assert_eq!(v[1].cells, vec!["terminal: L", "c"]);
    assert!(v[1].highlighted);
}

#[test]
fn actions_without_credentials_tell_what_is_missing() {
    for configured in [false, true] {
        let prompt = Prompt::CommandPalette {
            input: String::new(),
            selected: 0,
            actions: vec![PaletteAction::Copy, PaletteAction::OpenDropbox],
            dropbox_configured: configured,
        };
        match dialog_list(&prompt) {
            Some(ListBody::Rows(rows)) => {
                assert_eq!(rows.len(), 2);
                assert_eq!(rows[0].cells, vec!["Copy"]);
                assert_eq!(rows[1].enabled, configured);
                if configured {
                    assert_eq!(rows[1].cells.len(), 1);
                } else {
                    assert_eq!(rows[1].cells[1], "set credentials in ~/.rho.yaml");
                }
            }
            other => panic!("unexpected list: {:?}", other),
        }
    }
}
