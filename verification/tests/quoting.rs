use rho::quoting::{build_sftp_get_script, build_sftp_put_script, macos_claude_apple_script, macos_open_terminal_script, macos_terminal_apple_script, posix_quote, quote_remote_path, quote_sftp_path, shell_quote};

#[test]
fn shell_quote_escapes_quotes_and_backslashes() {
    // Plain container IDs round-trip unchanged.
    assert_eq!(shell_quote("abc123"), "abc123");
    // Embedded double-quote / backslash are escaped so the surrounding
    // AppleScript string stays well-formed.
    assert_eq!(shell_quote(r#"a"b"#), r#"a\"b"#);
    assert_eq!(shell_quote(r"a\b"), r"a\\b");
}

#[test]
fn macos_terminal_script_iterm_uses_create_window_with_command() {
    let script = macos_terminal_apple_script("iTerm", "ssh alpha");
    // iTerm path: command becomes the session's main process (no shell wrapper).
    assert!(script.contains("tell application \"iTerm\""));
    assert!(script.contains("create window with default profile command \"ssh alpha\""));
    assert!(!script.contains("do script"));
}

#[test]
fn macos_terminal_script_iterm2_alias_works_too() {
    // "iTerm2" should map to the iTerm dialect — same dispatch.
    let script = macos_terminal_apple_script("iTerm2", "ssh alpha");
    assert!(script.contains("create window with default profile command"));
}

#[test]
fn macos_terminal_script_terminal_uses_do_script_with_exec() {
    let script = macos_terminal_apple_script("Terminal", "ssh alpha");
    // Terminal path: do script wraps in shell, exec replaces it ASAP.
    assert_eq!(
        script,
        "tell application \"Terminal\" to do script \"exec ssh alpha\""
    );
}

#[test]
fn macos_terminal_script_unknown_app_falls_back_to_do_script() {
    // Best-effort for unknown app names: same do-script form, just with
    // their tell-application target.
    let script = macos_terminal_apple_script("Kitty", "ssh alpha");
    assert!(script.contains("tell application \"Kitty\""));
    assert!(script.contains("do script \"exec ssh alpha\""));
}

#[test]
fn macos_claude_script_terminal_uses_do_script_with_cd_and_exec() {
    let script = macos_claude_apple_script("Terminal", "/Users/me/project", "helper");
    assert_eq!(
        script,
        "tell application \"Terminal\" to do script \"cd '/Users/me/project' && exec helper\""
    );
}

#[test]
fn macos_claude_script_iterm_wraps_in_sh_dash_c() {
    let script = macos_claude_apple_script("iTerm", "/Users/me/project", "helper");
    // iTerm's `command` doesn't run through a shell, so && + single
    // quotes need a `sh -c "..."` wrapper for correct interpretation.
    assert!(script.contains("create window with default profile command"));
    assert!(script.contains("sh -c \\\"cd '/Users/me/project' && exec helper\\\""));
}

#[test]
fn macos_claude_script_quotes_path_with_spaces() {
    let script = macos_claude_apple_script("Terminal", "/Users/me/My Projects/rho", "helper");
    // The path is single-quoted in the shell command so spaces stay
    // inside a single shell-argument.
    assert!(script.contains("cd '/Users/me/My Projects/rho' && exec helper"));
}

#[test]
fn macos_claude_script_escapes_single_quote_in_path() {
    // Path containing a literal ' uses the close-escape-reopen idiom.
    let script = macos_claude_apple_script("Terminal", "/Users/me/it's/here", "helper");
    // Shell-level: cd 'it'\''s'  — at AppleScript layer the backslash is
    // doubled because shell_quote escapes \ for AppleScript embedding.
    assert!(script.contains("'/Users/me/it'\\\\''s/here'"));
}

#[test]
fn posix_quote_wraps_simple_string() {
    assert_eq!(posix_quote("foo"), "'foo'");
    assert_eq!(posix_quote("/var/log"), "'/var/log'");
}

#[test]
fn posix_quote_escapes_embedded_single_quote() {
    // `it's` → 'it'\''s'  (close, escaped quote, reopen)
    assert_eq!(posix_quote("it's"), r"'it'\''s'");
}

#[test]
fn posix_quote_handles_special_chars_passively() {
    // Single-quoting neutralises $ \ " ` etc. — they pass through
    // untouched.
    assert_eq!(posix_quote(r#"a $b \c "d" `e`"#), r#"'a $b \c "d" `e`'"#);
}

#[test]
fn quote_remote_path_quotes_absolute_path() {
    assert_eq!(
        quote_remote_path("/var/log"),
        "'/var/log'".to_string(),
    );
}

#[test]
fn quote_remote_path_quotes_path_with_spaces() {
    assert_eq!(
        quote_remote_path("/var/My Files/x"),
        "'/var/My Files/x'".to_string(),
    );
}

#[test]
fn quote_remote_path_keeps_leading_tilde_unquoted() {
    // ~/.config → ~/'.config'  so the remote shell expands ~ but
    // the rest is shell-safe even if it contains spaces.
    assert_eq!(
        quote_remote_path("~/.config"),
        "~/'.config'".to_string(),
    );
    assert_eq!(
        quote_remote_path("~ron/My Files"),
        "~ron/'My Files'".to_string(),
    );
}

#[test]
fn quote_remote_path_bare_tilde_passes_through() {
    // `~` with no `/` after — no path to quote, leave it raw so the
    // remote shell expands to $HOME.
    assert_eq!(quote_remote_path("~"), "~".to_string());
    assert_eq!(quote_remote_path("~user"), "~user".to_string());
}

#[test]
fn quote_sftp_path_maps_bare_tilde_to_dot() {
    // sftp has no shell + its cwd defaults to home, so `~` is the
    // home dir itself → ".".
    assert_eq!(quote_sftp_path("~"), ".".to_string());
}

#[test]
fn quote_sftp_path_strips_leading_tilde_slash() {
    // `~/file` must become the home-relative `'file'`, NOT a literal
    // `~/file` (which sftp resolves as `<home>/~/file` and fails).
    assert_eq!(
        quote_sftp_path("~/rho-tilde-test.txt"),
        "'rho-tilde-test.txt'".to_string(),
    );
    assert_eq!(
        quote_sftp_path("~/Documents/My File.txt"),
        "'Documents/My File.txt'".to_string(),
    );
}

#[test]
fn quote_sftp_path_quotes_absolute_path_whole() {
    assert_eq!(
        quote_sftp_path("/var/log/syslog"),
        "'/var/log/syslog'".to_string(),
    );
}

#[test]
fn build_sftp_put_script_emits_recursive_put_with_newline() {
    assert_eq!(
        build_sftp_put_script("'/local/foo'", "~/'.config'"),
        "put -r '/local/foo' ~/'.config'\n",
    );
}

#[test]
fn build_sftp_get_script_emits_recursive_get_with_newline() {
    assert_eq!(
        build_sftp_get_script("'/remote/log'", "'/tmp/stage'"),
        "get -r '/remote/log' '/tmp/stage'\n",
    );
}

#[test]
fn terminal_scripts_in_a_folder() {
    assert_eq!(
        macos_open_terminal_script("Terminal", "/a b"),
        "tell application \"Terminal\" to do script \"cd '/a b'\""
    );
    assert!(macos_open_terminal_script("iTerm", "/a").contains("cd '/a' && exec"));
}
