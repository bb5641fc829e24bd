use rho::actions::{FileAction, FileChoice, QuickViewAction, build_file_choices, file_has_custom_action, glob_match, matching_file_actions, matching_quick_view, preview_len, preview_text, substitute_command, substitute_command_multi};
use rho::quoting::posix_quote;

#[test]
fn glob_match_extension_patterns() {
    assert!(glob_match("*.md", "notes.md"));
    assert!(glob_match("*.md", "a.b.md"));
    assert!(!glob_match("*.md", "notes.mdx"));
    assert!(!glob_match("*.md", "mdfile"));
}

#[test]
fn glob_match_is_case_insensitive() {
    assert!(glob_match("*.MD", "notes.md"));
    assert!(glob_match("*.md", "NOTES.MD"));
}

#[test]
fn glob_match_question_mark_is_single_char() {
    assert!(glob_match("a?c.txt", "abc.txt"));
    assert!(!glob_match("a?c.txt", "ac.txt"));
    assert!(!glob_match("a?c.txt", "abbc.txt"));
}

#[test]
fn glob_match_multiple_stars_and_double_extension() {
    assert!(glob_match("*.tar.gz", "archive.tar.gz"));
    assert!(glob_match("*report*", "q3-report-final.pdf"));
    assert!(glob_match("*", "anything"));
    assert!(glob_match("*", ""));
}

#[test]
fn matching_file_actions_filters_and_preserves_order() {
    let actions = vec![
        FileAction {
            pattern: "*.md".into(),
            label: "PDF".into(),
            command: "pandoc {file}".into(),
            terminal: false,
        },
        FileAction {
            pattern: "*.png".into(),
            label: "Open".into(),
            command: "view {file}".into(),
            terminal: false,
        },
        FileAction {
            pattern: "*".into(),
            label: "Hash".into(),
            command: "shasum {file}".into(),
            terminal: true,
        },
    ];
    let m = matching_file_actions(&actions, "readme.md");
    assert_eq!(m.len(), 2);
    assert_eq!(m[0].label, "PDF");
    assert_eq!(m[1].label, "Hash");
    assert!(file_has_custom_action(&actions, "x.png"));
    // The catch-all `*` means every file has at least one action here.
    assert!(file_has_custom_action(&actions, "anything.xyz"));
}

#[test]
fn matching_quick_view_first_match_wins() {
    let actions = vec![
        QuickViewAction {
            pattern: "*.log".into(),
            label: "Tail".into(),
            command: Some("tail -n 200 {file}".into()),
        },
        QuickViewAction {
            pattern: "*".into(),
            label: "Preview".into(),
            command: None,
        },
    ];
    let m = matching_quick_view(&actions, "app.log").unwrap();
    assert_eq!(m.label, "Tail");
    // Falls through to the catch-all for anything else.
    let m = matching_quick_view(&actions, "notes.txt").unwrap();
    assert_eq!(m.label, "Preview");
    assert_eq!(m.command, None);
}

#[test]
fn matching_quick_view_no_match_returns_none() {
    let actions = vec![QuickViewAction {
        pattern: "*.log".into(),
        label: "Tail".into(),
        command: Some("tail {file}".into()),
    }];
    assert!(matching_quick_view(&actions, "notes.txt").is_none());
    assert!(matching_quick_view(&[], "anything").is_none());
}

#[test]
fn build_file_choices_prepends_default_open() {
    let actions = vec![FileAction {
        pattern: "*.md".into(),
        label: "Convert to PDF".into(),
        command: "pandoc -o {stem}.pdf {file}".into(),
        terminal: false,
    }];
    let choices = build_file_choices(&actions, "notes.md");
    assert_eq!(choices.len(), 2);
    assert_eq!(choices[0], FileChoice::OpenDefault);
    assert_eq!(choices[0].label(), "Open with default application");
    assert_eq!(
        choices[1],
        FileChoice::Custom {
            label: "Convert to PDF".into(),
            command: "pandoc -o {stem}.pdf {file}".into(),
            terminal: false,
        }
    );
    // A file with no matching action still gets the default-open choice.
    assert_eq!(build_file_choices(&actions, "photo.png").len(), 1);
}

#[test]
fn posix_quote_wraps_and_escapes() {
    assert_eq!(posix_quote("foo"), "'foo'");
    assert_eq!(posix_quote("/var/log"), "'/var/log'");
    // `it's` → 'it'\''s' (close, escaped quote, reopen).
    assert_eq!(posix_quote("it's"), r"'it'\''s'");
    // $ \ " ` etc. pass through untouched inside the single quotes.
    assert_eq!(posix_quote(r#"a $b \c "d" `e`"#), r#"'a $b \c "d" `e`'"#);
}

#[test]
fn substitute_command_quotes_each_value() {
    let p = "/Users/ron/docs/report.md";
    // Values are single-quoted; the template text around them is verbatim,
    // so `'report'.pdf` concatenates to report.pdf in the shell.
    assert_eq!(
        substitute_command("pandoc -o {stem}.pdf {file}", p),
        "pandoc -o 'report'.pdf 'report.md'"
    );
    assert_eq!(substitute_command("echo {ext}", p), "echo 'md'");
    assert_eq!(substitute_command("ls {dir}", p), "ls '/Users/ron/docs'");
    assert_eq!(
        substitute_command("cat {path}", p),
        "cat '/Users/ron/docs/report.md'"
    );
    // Pipes / && in the template survive (only values are quoted).
    assert_eq!(
        substitute_command("cat {file} | wc -l", p),
        "cat 'report.md' | wc -l"
    );
}

#[test]
fn substitute_command_dotfile_stem_is_whole_name() {
    // `.gitignore` has no separating extension — stem is the whole name.
    let p = "/tmp/.gitignore";
    assert_eq!(substitute_command("edit {stem}", p), "edit '.gitignore'");
}

#[test]
fn substitute_command_neutralizes_command_injection_in_filename() {
    // A hostile file name can't break out of the quoting to run commands.
    let p = "/tmp/$(rm -rf ~).md";
    assert_eq!(
        substitute_command("pandoc {file}", p),
        "pandoc '$(rm -rf ~).md'"
    );
    // A name containing a single quote is escaped, not terminated early.
    let q = "/tmp/it's a file.md";
    assert_eq!(
        substitute_command("wc -l {file}", q),
        r"wc -l 'it'\''s a file.md'"
    );
}

#[test]
fn substitute_command_single_pass_does_not_re_expand() {
    // A file literally named with `{ext}` in it must not have that token
    // re-expanded by a later pass.
    let p = "/tmp/a{ext}b.md";
    assert_eq!(substitute_command("echo {file}", p), "echo 'a{ext}b.md'");
}

#[test]
fn substitute_command_passes_through_unknown_tokens() {
    let p = "/tmp/x.md";
    assert_eq!(
        substitute_command("tool {file} {unknown}", p),
        "tool 'x.md' {unknown}"
    );
    // An unterminated brace is emitted verbatim.
    assert_eq!(substitute_command("echo {file", p), "echo {file");
}

#[test]
fn substitute_command_multi_joins_files_space_separated() {
    let paths = vec![
        "/p/a.txt".to_string(),
        "/p/b.txt".to_string(),
        "/p/c.txt".to_string(),
    ];
    assert_eq!(
        substitute_command_multi("shasum {file}", &paths, &paths[0]),
        "shasum 'a.txt' 'b.txt' 'c.txt'"
    );
}

#[test]
fn substitute_command_multi_expands_path_too() {
    let paths = vec!["/p/a.txt".to_string(), "/p/b.txt".to_string()];
    assert_eq!(
        substitute_command_multi("cat {path}", &paths, &paths[0]),
        "cat '/p/a.txt' '/p/b.txt'"
    );
}

#[test]
fn substitute_command_multi_single_valued_tokens_use_primary() {
    // {stem}/{ext}/{dir} have no multi-file meaning — they resolve against
    // the cursor (primary) file.
    let paths = vec!["/docs/a.md".to_string(), "/docs/b.md".to_string()];
    assert_eq!(
        substitute_command_multi("pandoc -o {stem}.pdf {file}", &paths, &paths[0]),
        "pandoc -o 'a'.pdf 'a.md' 'b.md'"
    );
    assert_eq!(
        substitute_command_multi("echo {ext} {dir}", &paths, &paths[0]),
        "echo 'md' '/docs'"
    );
}

#[test]
fn substitute_command_multi_quotes_each_file_independently() {
    // Spaces / metacharacters in individual names stay isolated — no
    // injection across the join.
    let paths = vec![
        "/p/my file.txt".to_string(),
        "/p/$(rm -rf).txt".to_string(),
    ];
    assert_eq!(
        substitute_command_multi("wc -l {file}", &paths, &paths[0]),
        "wc -l 'my file.txt' '$(rm -rf).txt'"
    );
}

#[test]
fn substitute_command_multi_with_single_path_matches_single_variant() {
    let p = "/p/only.txt".to_string();
    assert_eq!(
        substitute_command_multi("tail {file}", std::slice::from_ref(&p), &p),
        substitute_command("tail {file}", &p)
    );
}

#[test]
fn long_previews_are_cut() {
    assert_eq!(preview_len(10), 10);
    assert_eq!(preview_len(204_801), 204_800);
    assert_eq!(preview_text("ab", 204_800), "ab");
    assert_eq!(preview_text("ab", 204_801), "ab\n(truncated)");
}
