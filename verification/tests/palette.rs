use rho::palette::{ArchiveFormat, PaletteAction, Platform, add_recent, available_palette_actions, default_zip_filename, detect_archive_format, filtered_actions, filtered_recents, keyboard_shortcuts, palette_action_enabled};

#[test]
fn filtered_recents_empty_input_returns_all() {
    let recents = vec![
        "/etc".to_string(),
        "/usr/local".to_string(),
        "/home/me".to_string(),
    ];
    let out = filtered_recents(&recents, "");
    assert_eq!(out.len(), 3);
}

#[test]
fn filtered_recents_substring_matches() {
    let recents = vec![
        "/etc".to_string(),
        "/usr/local".to_string(),
        "/home/me".to_string(),
    ];
    let out = filtered_recents(&recents, "local");
    assert_eq!(out.len(), 1);
    assert_eq!(out[0], &"/usr/local".to_string());
}

#[test]
fn filtered_recents_is_case_insensitive() {
    let recents = vec!["/Etc".to_string(), "/Usr/Local".to_string()];
    let out = filtered_recents(&recents, "etc");
    assert_eq!(out.len(), 1);
    assert_eq!(out[0], &"/Etc".to_string());
}

#[test]
fn filtered_recents_no_match_returns_empty() {
    let recents = vec!["/etc".to_string(), "/usr/local".to_string()];
    let out = filtered_recents(&recents, "zzz");
    assert!(out.is_empty());
}

#[test]
fn filtered_actions_empty_input_returns_all() {
    let out = filtered_actions(&PaletteAction::all(Platform::Linux), "");
    assert_eq!(out.len(), PaletteAction::all(Platform::Linux).len());
}

#[test]
fn filtered_actions_substring_matches_label() {
    let out = filtered_actions(&PaletteAction::all(Platform::Linux), "cop");
    assert_eq!(out, vec![PaletteAction::Copy]);
}

#[test]
fn filtered_actions_is_case_insensitive() {
    let out = filtered_actions(&PaletteAction::all(Platform::Linux), "EXIT");
    assert_eq!(out, vec![PaletteAction::Exit]);
}

#[test]
fn filtered_actions_no_match_returns_empty() {
    let out = filtered_actions(&PaletteAction::all(Platform::Linux), "zzzz");
    assert!(out.is_empty());
}

#[test]
fn filtered_actions_respects_supplied_subset() {
    // Caller-supplied slice without Git: branch — filter "branch" finds
    // nothing even though the variant exists in ALL.
    let subset: Vec<PaletteAction> = PaletteAction::all(Platform::Linux)
        .iter()
        .copied()
        .filter(|a| *a != PaletteAction::GitBranch)
        .collect();
    let out = filtered_actions(&subset, "branch");
    assert!(out.is_empty());
}

#[test]
fn add_recent_inserts_at_front() {
    let mut r: Vec<String> = Vec::new();
    add_recent(&mut r, "/a".to_string(), 10);
    add_recent(&mut r, "/b".to_string(), 10);
    assert_eq!(r, vec!["/b".to_string(), "/a".to_string()]);
}

#[test]
fn add_recent_moves_existing_to_front() {
    let mut r = vec![
        "/a".to_string(),
        "/b".to_string(),
        "/c".to_string(),
    ];
    add_recent(&mut r, "/b".to_string(), 10);
    // /b moved from middle to front; no duplicate.
    assert_eq!(
        r,
        vec![
            "/b".to_string(),
            "/a".to_string(),
            "/c".to_string(),
        ]
    );
}

#[test]
fn add_recent_respects_cap() {
    let mut r: Vec<String> = (0..5).map(|i| format!("/p{}", i)).collect();
    add_recent(&mut r, "/new".to_string(), 3);
    assert_eq!(r.len(), 3);
    assert_eq!(r[0], "/new".to_string());
}

#[test]
fn add_recent_repeated_same_path_is_idempotent() {
    let mut r: Vec<String> = Vec::new();
    add_recent(&mut r, "/a".to_string(), 10);
    add_recent(&mut r, "/a".to_string(), 10);
    add_recent(&mut r, "/a".to_string(), 10);
    assert_eq!(r, vec!["/a".to_string()]);
}

#[test]
fn palette_action_docker_label() {
    assert_eq!(PaletteAction::DockerContainers.label(), "Docker containers");
}

#[test]
fn filtered_actions_finds_docker() {
    let out = filtered_actions(&PaletteAction::all(Platform::Linux), "docker");
    assert_eq!(out, vec![PaletteAction::DockerContainers]);
}

#[test]
fn palette_action_processes_label() {
    assert_eq!(PaletteAction::Processes.label(), "Processes");
}

#[test]
fn filtered_actions_finds_processes() {
    let out = filtered_actions(&PaletteAction::all(Platform::Linux), "proc");
    assert_eq!(out, vec![PaletteAction::Processes]);
}

#[test]
fn palette_action_launch_application_label() {
    assert_eq!(
        PaletteAction::LaunchApplication.label(),
        "Launch Application"
    );
}

#[test]
fn palette_all_includes_launch_application_on_macos() {
    assert!(PaletteAction::all(Platform::MacOs).contains(&PaletteAction::LaunchApplication));
}

#[test]
fn palette_all_excludes_launch_application_off_macos() {
    assert!(!PaletteAction::all(Platform::Linux).contains(&PaletteAction::LaunchApplication));
}

#[test]
fn palette_action_reveal_in_finder_label() {
    assert_eq!(
        PaletteAction::RevealInFinder.label(),
        "Open folder in Finder"
    );
}

#[test]
fn palette_all_includes_reveal_in_finder_on_macos() {
    assert!(PaletteAction::all(Platform::MacOs).contains(&PaletteAction::RevealInFinder));
    assert!(available_palette_actions(Platform::MacOs, false).contains(&PaletteAction::RevealInFinder));
}

#[test]
fn palette_all_excludes_reveal_in_finder_off_macos() {
    assert!(!PaletteAction::all(Platform::Linux).contains(&PaletteAction::RevealInFinder));
}

#[test]
fn palette_action_git_branch_label() {
    assert_eq!(PaletteAction::GitBranch.label(), "Git: branch");
}

#[test]
fn available_palette_actions_hides_git_branch_outside_repo() {
    let out = available_palette_actions(Platform::Linux, false);
    assert!(!out.contains(&PaletteAction::GitBranch));
    // Other actions still present.
    assert!(out.contains(&PaletteAction::Copy));
    assert!(out.contains(&PaletteAction::Exit));
}

#[test]
fn available_palette_actions_includes_git_branch_in_repo() {
    let out = available_palette_actions(Platform::Linux, true);
    assert!(out.contains(&PaletteAction::GitBranch));
}

#[test]
fn available_palette_actions_always_lists_dropbox() {
    // Listed regardless of credentials — discoverability. Enablement is a
    // separate concern (palette_action_enabled).
    assert!(available_palette_actions(Platform::Linux, false).contains(&PaletteAction::OpenDropbox));
    assert!(available_palette_actions(Platform::Linux, true).contains(&PaletteAction::OpenDropbox));
}

#[test]
fn available_palette_actions_always_lists_open_terminal() {
    // Always offered (in or out of a git repo) — it's never contextual.
    assert!(available_palette_actions(Platform::Linux, false).contains(&PaletteAction::OpenTerminal));
    assert!(available_palette_actions(Platform::Linux, true).contains(&PaletteAction::OpenTerminal));
    assert_eq!(PaletteAction::OpenTerminal.label(), "Open Terminal in this folder");
}

#[test]
fn available_palette_actions_always_lists_open_in_editor() {
    assert!(available_palette_actions(Platform::Linux, false).contains(&PaletteAction::OpenInEditor));
    assert!(available_palette_actions(Platform::Linux, true).contains(&PaletteAction::OpenInEditor));
    assert_eq!(PaletteAction::OpenInEditor.label(), "Open folder in editor");
}

#[test]
fn available_palette_actions_always_lists_new_file() {
    assert!(available_palette_actions(Platform::Linux, false).contains(&PaletteAction::NewFile));
    assert!(available_palette_actions(Platform::Linux, true).contains(&PaletteAction::NewFile));
    assert_eq!(PaletteAction::NewFile.label(), "New file");
    // Always activatable — not gated on Dropbox credentials.
    assert!(palette_action_enabled(PaletteAction::NewFile, false));
}

#[test]
fn palette_action_enabled_gates_dropbox_on_credentials() {
    assert!(!palette_action_enabled(PaletteAction::OpenDropbox, false));
    assert!(palette_action_enabled(PaletteAction::OpenDropbox, true));
    // Non-Dropbox actions are enabled regardless of the flag.
    assert!(palette_action_enabled(PaletteAction::Copy, false));
    assert!(palette_action_enabled(PaletteAction::GitBranch, false));
}

#[test]
fn palette_action_keyboard_shortcuts_label() {
    assert_eq!(
        PaletteAction::KeyboardShortcuts.label(),
        "Keyboard shortcuts"
    );
}

#[test]
fn keyboard_shortcuts_has_sections_and_bindings() {
    let sections = keyboard_shortcuts();
    assert!(!sections.is_empty(), "expected at least one section");
    // Every section must have a title and at least one binding row, and
    // every binding must have non-empty keys and description.
    for (title, bindings) in &sections {
        assert!(!title.is_empty(), "empty section title");
        assert!(
            !bindings.is_empty(),
            "section {} has no bindings",
            title
        );
        for (keys, desc) in bindings {
            assert!(!keys.is_empty(), "empty keys in section {}", title);
            assert!(!desc.is_empty(), "empty description in section {}", title);
        }
    }
}

#[test]
fn keyboard_shortcuts_covers_load_bearing_keys() {
    // Quick smoke check that the modal mirrors the docs — these are the
    // bindings most likely to surprise users by their absence.
    let joined: String = keyboard_shortcuts()
        .into_iter()
        .flat_map(|(_, b)| b.into_iter().map(|(k, _)| k))
        .collect::<Vec<_>>()
        .join(" | ");
    for needle in ["⌘P", "⌘⇧P", "F4", "F5", "F7", "F8", "F10", "Tab", "Esc"] {
        assert!(joined.contains(needle), "missing binding: {}", needle);
    }
}

#[test]
fn palette_action_ssh_connect_label() {
    assert_eq!(
        PaletteAction::SshConnect.label(),
        "Connect to SSH server"
    );
}

#[test]
fn palette_action_open_claude_code_label() {
    assert_eq!(
        PaletteAction::OpenClaudeCode.label(),
        "Open coding assistant in this folder"
    );
}

#[test]
fn palette_action_move_label() {
    assert_eq!(PaletteAction::Move.label(), "Move");
}

#[test]
fn palette_all_includes_move() {
    assert!(PaletteAction::all(Platform::Linux).contains(&PaletteAction::Move));
}

#[test]
fn palette_action_compress_labels() {
    assert_eq!(PaletteAction::Compress.label(), "Compress");
    assert_eq!(PaletteAction::Uncompress.label(), "Uncompress");
}

#[test]
fn detect_archive_format_zip() {
    assert_eq!(detect_archive_format("file.zip"), Some(ArchiveFormat::Zip));
    assert_eq!(detect_archive_format("FILE.ZIP"), Some(ArchiveFormat::Zip));
}

#[test]
fn detect_archive_format_tar_gz() {
    assert_eq!(
        detect_archive_format("file.tar.gz"),
        Some(ArchiveFormat::TarGz)
    );
    assert_eq!(detect_archive_format("file.tgz"), Some(ArchiveFormat::TarGz));
    // Mixed case still matches.
    assert_eq!(
        detect_archive_format("File.Tar.Gz"),
        Some(ArchiveFormat::TarGz)
    );
}

#[test]
fn detect_archive_format_unknown() {
    assert_eq!(detect_archive_format("file.rar"), None);
    assert_eq!(detect_archive_format("file"), None);
    assert_eq!(detect_archive_format(""), None);
}

#[test]
fn default_zip_filename_strips_simple_extension() {
    let srcs = vec!["/tmp/report.pdf".to_string()];
    assert_eq!(default_zip_filename(&srcs), "report.zip");
}

#[test]
fn default_zip_filename_strips_tar_gz() {
    // The full `.tar.gz` extension is stripped, not just `.gz`.
    let srcs = vec!["/tmp/archive.tar.gz".to_string()];
    assert_eq!(default_zip_filename(&srcs), "archive.zip");
}

#[test]
fn default_zip_filename_directory_name_stays() {
    // Directory without an extension keeps its full name + .zip.
    let srcs = vec!["/tmp/MyFolder".to_string()];
    assert_eq!(default_zip_filename(&srcs), "MyFolder.zip");
}

#[test]
fn default_zip_filename_uses_first_marked() {
    // Only the first src's name informs the default.
    let srcs = vec![
        "/tmp/first.txt".to_string(),
        "/tmp/second.txt".to_string(),
    ];
    assert_eq!(default_zip_filename(&srcs), "first.zip");
}

#[test]
fn default_zip_filename_empty_falls_back() {
    assert_eq!(default_zip_filename(&[]), "archive.zip");
}

#[test]
fn default_zip_filename_dotfile_keeps_name() {
    // `.gitignore` has no separating extension — treat the whole thing
    // as the stem so we don't end up with an empty filename.
    let srcs = vec!["/tmp/.gitignore".to_string()];
    assert_eq!(default_zip_filename(&srcs), ".gitignore.zip");
}

#[test]
fn ftp_server_palette_action_is_listed_and_filterable() {
    // Always listed in ALL.
    assert!(PaletteAction::all(Platform::Linux).contains(&PaletteAction::FtpServer));
    // Always enabled (no Dropbox gating).
    assert!(palette_action_enabled(PaletteAction::FtpServer, false));
    // Surfaces under "ftp" in the palette filter.
    let out = filtered_actions(&PaletteAction::all(Platform::Linux), "ftp");
    assert_eq!(out, vec![PaletteAction::FtpServer]);
}

#[test]
fn platforms_offer_different_actions() {
    assert!(PaletteAction::all(Platform::MacOs).len() > PaletteAction::all(Platform::Linux).len());
    assert!(!available_palette_actions(Platform::Windows, true).contains(&PaletteAction::RevealInFinder));
}

#[test]
fn recent_places_are_listed_once() {
    let mut r = vec!["/a".to_string(), "/b/".to_string(), "/b".to_string()];
    add_recent(&mut r, "/b".to_string(), 10);
    assert_eq!(r[0], "/b");
    assert!(r[1..].iter().all(|p| p != "/b"));
}

#[test]
fn shortcuts_tell_of_every_key() {
    let sections = keyboard_shortcuts();
    let titles: Vec<&str> = sections.iter().map(|s| s.0).collect();
    assert_eq!(
        titles,
        vec![
            "Navigation",
            "Marking & range selection",
            "File actions",
            "Filtering & sorting",
            "Modals & global"
        ]
    );
    let navigation: Vec<&str> = sections[0].1.iter().map(|b| b.0).collect();
    assert!(navigation.contains(&"⌘↑ / ⌘↓"));
    assert!(navigation.contains(&"← / →"));
    let enter = sections[0].1.iter().find(|b| b.0 == "Enter").unwrap();
    assert!(enter.1.contains("chooser"));
    assert_eq!(sections[1].1.len(), 5);
}
