use rho::actions::FileAction;
use rho::config::{Rgb, RowColors};
use rho::display::{Fill, Ink, RowContext, compute_row_style, cursor_fill, entry_name_color, extract_dest, filter_bar, format_size, header_cell, header_label, process_stripe, shows_loading, tmp_extract_dest, truncate_with_ellipsis, visible_rows};
use rho::entry::{Entry, RowVisual, SortBy, SortDir};
use rho::location::Location;
use rho::palette::{Platform, is_zip};
use rho::pane::Pane;
use rho::path::file_name_of;

#[test]
fn tmp_extract_dest_keeps_safe_chars() {
    let p = tmp_extract_dest("/Users/me/my_archive.zip", 1700000000123);
    let name = file_name_of(&p).unwrap();
    assert!(name.starts_with("rho-my_archive-"), "got: {}", name);
}

#[test]
fn tmp_extract_dest_sanitizes_special_chars() {
    // Spaces / quotes / parens get replaced with `_` so the folder name
    // is safe to pass to shells / file systems without further quoting.
    let p = tmp_extract_dest("/tmp/My Project (v2).zip", 1700000000123);
    let name = file_name_of(&p).unwrap();
    assert!(name.starts_with("rho-My_Project__v2_-"), "got: {}", name);
    // No spaces, quotes, parens in the result.
    for bad in [' ', '\'', '"', '(', ')'] {
        assert!(!name.contains(bad), "char {:?} leaked into {}", bad, name);
    }
}

#[test]
fn tmp_extract_dest_falls_back_for_no_stem() {
    // No extension and weird input — should still produce a usable path.
    let p = tmp_extract_dest("", 1700000000123);
    let name = file_name_of(&p).unwrap();
    assert!(name.starts_with("rho-archive-"), "got: {}", name);
}

#[test]
fn tmp_extract_dest_uses_tmp_on_unix() {
    let p = tmp_extract_dest("/foo/x.zip", 1700000000123);
    assert!(p.starts_with("/tmp"));
}

#[test]
fn is_zip_matches_lowercase() {
    assert!(is_zip("archive.zip"));
}

#[test]
fn is_zip_matches_uppercase() {
    assert!(is_zip("ARCHIVE.ZIP"));
}

#[test]
fn is_zip_rejects_tar_gz() {
    assert!(!is_zip("archive.tar.gz"));
}

#[test]
fn is_zip_rejects_no_extension() {
    assert!(!is_zip("README"));
}

fn test_colors() -> RowColors {
    RowColors {
        cursor: Some(Rgb { r: 0, g: 0, b: 255 }),
        mark: None,
        stripe: None,
        folder: Some(Rgb { r: 26, g: 51, b: 77 }),
        action: Some(Rgb { r: 179, g: 102, b: 179 }),
    }
}

#[test]
fn entry_name_color_files_with_action_use_action_color() {
    let c = test_colors();
    // A plain file with a matching action gets the action color…
    assert_eq!(
        entry_name_color(false, true, RowVisual::Plain, true, c),
        c.action
    );
    // …a file without one gets the theme default (None)…
    assert_eq!(entry_name_color(false, false, RowVisual::Plain, true, c), None);
    // …and a directory always wins with the folder color.
    assert_eq!(
        entry_name_color(true, true, RowVisual::Plain, true, c),
        c.folder
    );
}

#[test]
fn entry_name_color_suppressed_in_active_selection() {
    let c = test_colors();
    // Cursor / marked rows in the active pane drop the override so the
    // selection highlight reads cleanly — for both folders and actions.
    assert_eq!(entry_name_color(false, true, RowVisual::Cursor, true, c), None);
    assert_eq!(entry_name_color(true, false, RowVisual::Marked, true, c), None);
    // In the *inactive* pane the override stays (no selection there).
    assert_eq!(
        entry_name_color(false, true, RowVisual::Cursor, false, c),
        c.action
    );
}

#[test]
fn format_size_zero() {
    assert_eq!(format_size(0), "0 B");
}

#[test]
fn format_size_under_kb() {
    assert_eq!(format_size(1023), "1023 B");
}

#[test]
fn format_size_exact_kb() {
    assert_eq!(format_size(1024), "1 KB");
}

#[test]
fn format_size_kb_range() {
    assert_eq!(format_size(2048), "2 KB");
}

#[test]
fn format_size_exact_mb() {
    assert_eq!(format_size(1024 * 1024), "1.0 MB");
}

#[test]
fn format_size_mb_fractional() {
    // 1.5 MB → "1.5 MB"
    assert_eq!(format_size(1024 * 1024 + 512 * 1024), "1.5 MB");
}

#[test]
fn format_size_exact_gb() {
    assert_eq!(format_size(1024u64.pow(3)), "1.0 GB");
}

#[test]
fn truncate_shorter_than_max_returns_input() {
    assert_eq!(truncate_with_ellipsis("hi", 10), "hi");
}

#[test]
fn truncate_exactly_at_max_returns_input() {
    assert_eq!(truncate_with_ellipsis("hello", 5), "hello");
}

#[test]
fn truncate_over_max_adds_ellipsis() {
    // max_chars=5 → 4 chars + '…' = 5 chars total.
    assert_eq!(truncate_with_ellipsis("hello world", 5), "hell…");
}

#[test]
fn truncate_max_zero_returns_empty() {
    assert_eq!(truncate_with_ellipsis("anything", 0), "");
}

#[test]
fn truncate_unicode_safe() {
    // The 'é' is a single char but multiple bytes; truncation should work
    // on chars, not bytes.
    let s = "café-society";
    let out = truncate_with_ellipsis(s, 5);
    assert_eq!(out.chars().count(), 5);
}

#[test]
fn process_stripe_alternates_with_configured_color() {
    let stripe = Rgb { r: 26, g: 51, b: 77 };
    let colors =
        RowColors { cursor: None, mark: None, stripe: Some(stripe), folder: None, action: None };
    // Even rows inherit the background of the dialog.
    assert_eq!(process_stripe(colors, 0), Fill::Clear);
    assert_eq!(process_stripe(colors, 2), Fill::Clear);
    // Odd rows get the configured color.
    assert_eq!(process_stripe(colors, 1), Fill::Own(stripe));
}

#[test]
fn process_stripe_falls_back_to_theme_blend_without_config() {
    let colors = RowColors { cursor: None, mark: None, stripe: None, folder: None, action: None };
    assert_eq!(process_stripe(colors, 1), Fill::FaintStripe);
    assert_eq!(process_stripe(colors, 0), Fill::Clear);
}

#[test]
fn cursor_fill_uses_configured_cursor_color_with_white_text() {
    let cursor = Rgb { r: 0, g: 102, b: 230 };
    let colors =
        RowColors { cursor: Some(cursor), mark: None, stripe: None, folder: None, action: None };
    assert_eq!(cursor_fill(colors), (Fill::Own(cursor), Ink::White));
}

#[test]
fn cursor_fill_falls_back_to_theme_primary() {
    let colors = RowColors { cursor: None, mark: None, stripe: None, folder: None, action: None };
    assert_eq!(cursor_fill(colors), (Fill::PrimaryStrong, Ink::OnPrimaryStrong));
}

#[test]
fn format_size_rounds_ties_to_even() {
    // 1.25 and 1.75 are exact, so that the digit before decides.
    assert_eq!(format_size(1310720), "1.2 MB");
    assert_eq!(format_size(1835008), "1.8 MB");
    assert_eq!(format_size(1024 * 1024 * 1024 - 1), "1024.0 MB");
    assert_eq!(format_size(u64::MAX), "17179869184.0 GB");
}

#[test]
fn format_size_agrees_with_floating_point() {
    let mut n: u64 = 1048576;
    while n < u64::MAX / 3 {
        for d in [0, 1, 52428, 262144, 786432] {
            let b = n + d;
            let want = if b < 1073741824 {
                format!("{:.1} MB", b as f64 / 1048576.0)
            } else {
                format!("{:.1} GB", b as f64 / 1073741824.0)
            };
            assert_eq!(format_size(b), want);
        }
        n = n * 3 / 2;
    }
}

#[test]
fn extraction_folders_are_dated() {
    assert_eq!(tmp_extract_dest("/x/a b.zip", 42), "/tmp/rho-a_b-42");
}

fn shown_pane() -> Pane {
    let mut p = Pane::empty(Location::local("/p"));
    p.append_chunk(vec![
        Entry { name: "dir".to_string(), is_dir: true, size: None, modified: None },
        Entry { name: ".hidden".to_string(), is_dir: false, size: Some(2048), modified: None },
        Entry { name: "a-long-name.md".to_string(), is_dir: false, size: Some(5), modified: None },
    ]);
    p
}

#[test]
fn rows_of_a_pane() {
    let pane = shown_pane();
    let actions = vec![FileAction {
        pattern: "*.md".to_string(),
        label: "PDF".to_string(),
        command: "pandoc {file}".to_string(),
        terminal: false,
    }];
    let colors = test_colors();
    let ctx = RowContext { active: true, name_max_chars: 8, file_actions: &actions, colors };
    let rows = visible_rows(&pane, 0, 99, &ctx);
    assert_eq!(rows.len(), 4);
    assert_eq!(rows[0].name, "..");
    assert_eq!(rows[0].visual, RowVisual::Cursor);
    assert_eq!(rows[0].name_color, None);
    assert_eq!(rows[1].name, "dir/");
    assert_eq!(rows[1].name_color, colors.folder);
    assert!(rows[2].dim);
    assert_eq!(rows[2].size, "2 KB");
    assert_eq!(rows[3].name, "a-long-…");
    assert_eq!(rows[3].name_color, colors.action);
    let some = visible_rows(&pane, 2, 3, &ctx);
    assert_eq!(some.len(), 1);
    assert_eq!(some[0].index, 2);
    assert!(visible_rows(&pane, 7, 9, &ctx).is_empty());
}

#[test]
fn row_paint_follows_the_pane() {
    let colors = test_colors();
    assert_eq!(
        compute_row_style(RowVisual::Cursor, true, 1, colors, false),
        (Fill::Own(Rgb { r: 0, g: 0, b: 255 }), Ink::White)
    );
    assert_eq!(
        compute_row_style(RowVisual::Marked, true, 1, colors, false),
        (Fill::PrimaryWeak, Ink::OnPrimaryWeak)
    );
    assert_eq!(
        compute_row_style(RowVisual::Cursor, false, 2, colors, true),
        (Fill::Clear, Ink::Base { dims: 2 })
    );
    assert_eq!(
        compute_row_style(RowVisual::Plain, true, 3, colors, false),
        (Fill::FaintStripe, Ink::Base { dims: 0 })
    );
}

#[test]
fn bars_and_headers() {
    let mut pane = shown_pane();
    pane.set_filter("dir".to_string());
    assert_eq!(filter_bar(&pane), "filter: /dir/   (1 of 3)");
    assert_eq!(header_cell(&pane, "Name", SortBy::Name), "Name ↑");
    assert_eq!(header_cell(&pane, "Size", SortBy::Size), "Size");
    assert_eq!(header_label("CPU", true, SortDir::Desc), "CPU ↓");
    assert!(!shows_loading(&pane));
    assert!(shows_loading(&Pane::empty(Location::local("/"))));
}

#[test]
fn archives_are_unpacked_where_the_platform_says() {
    assert_eq!(extract_dest(Platform::Linux, "/var/t", "/x/a.zip", 7), "/tmp/rho-a-7");
    assert_eq!(extract_dest(Platform::MacOs, "/var/t", "/x/a.zip", 7), "/tmp/rho-a-7");
    assert_eq!(extract_dest(Platform::Windows, "/var/t", "/x/a.zip", 7), "/var/t/rho-a-7");
}
