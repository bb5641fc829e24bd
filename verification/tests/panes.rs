use rho::display::git_info_bar;
use rho::entry::{Entry, SortBy, SortDir, sort_entries};
use rho::git_status::gather_git_info;
use rho::location::{BackendId, Location};
use rho::name_filter::{contains_folded, decide_filter};
use rho::pane::{GitInfo, Pane, assistant_folder, assistant_guide};

fn mk_entry(name: &str, is_dir: bool, size: Option<u64>) -> Entry {
    Entry {
        name: name.to_string(),
        is_dir,
        size,
        modified: None,
    }
}

fn pane_with_entries(path: &str, entries: Vec<Entry>) -> Pane {
    let mut pane = Pane::empty(Location::Local(path.to_string()));
    pane.append_chunk(entries);
    // Simulate EntriesDone: sort once, then rebuild visible indices.
    // append_chunk itself no longer sorts (deferred to EntriesDone so
    // the main thread isn't doing O(n² log n) work during streaming).
    let preserve = pane.cursor_name();
    sort_entries(&mut pane.entries, pane.sort_by, pane.sort_dir);
    pane.recompute_visible(preserve.as_deref());
    pane.loading = false;
    pane
}

fn three_entry_pane() -> Pane {
    pane_with_entries(
        "/p",
        vec![
            mk_entry("a", false, Some(1)),
            mk_entry("b", false, Some(2)),
            mk_entry("c", false, Some(3)),
        ],
    )
}

fn alpha_pane() -> Pane {
    pane_with_entries(
        "/p",
        vec![
            mk_entry("alpha", false, Some(1)),
            mk_entry("beta", false, Some(2)),
            mk_entry("gamma", false, Some(3)),
            mk_entry("alphabet", false, Some(4)),
        ],
    )
}

#[test]
fn pane_empty_starts_loading_with_no_entries() {
    let p = Pane::empty(Location::Local("/tmp".to_string()));
    assert_eq!(p.path(), "/tmp");
    assert!(p.location.is_local());
    assert!(p.entries.is_empty());
    assert!(p.visible_indices.is_empty());
    assert!(p.filter.is_empty());
    assert_eq!(p.selected, 0);
    assert_eq!(p.anchor, 0);
    assert_eq!(p.sort_by, SortBy::Name);
    assert_eq!(p.sort_dir, SortDir::Asc);
    assert!(p.loading);
    assert_eq!(p.load_generation, 0);
    assert!(p.git_info.is_none());
    assert!(!p.has_claude_md);
    assert!(!p.has_claude_dir);
    assert!(!p.has_claude_marker());
}

#[test]
fn pane_has_claude_marker_combinations() {
    let mut p = Pane::empty(Location::Local("/tmp".to_string()));
    assert!(!p.has_claude_marker());
    p.has_claude_md = true;
    assert!(p.has_claude_marker());
    p.has_claude_md = false;
    p.has_claude_dir = true;
    assert!(p.has_claude_marker());
    p.has_claude_md = true;
    assert!(p.has_claude_marker());
}

#[test]
fn pane_claude_marker_label_lists_what_is_present() {
    let mut p = Pane::empty(Location::Local("/tmp".to_string()));
    p.has_claude_md = true;
    assert_eq!(p.claude_marker_label("helper"), "helper: HELPER.md");
    p.has_claude_dir = true;
    assert_eq!(p.claude_marker_label("helper"), "helper: HELPER.md, .helper/");
    p.has_claude_md = false;
    assert_eq!(p.claude_marker_label("helper"), "helper: .helper/");
}

#[test]
fn pane_navigate_clears_claude_markers() {
    let mut p = Pane::empty(Location::Local("/old".to_string()));
    p.has_claude_md = true;
    p.has_claude_dir = true;
    p.navigate(Location::Local("/new".to_string()));
    assert!(!p.has_claude_md);
    assert!(!p.has_claude_dir);
}

#[test]
fn navigate_bumps_generation_and_resets_state() {
    let mut p = pane_with_entries(
        "/old",
        vec![mk_entry("a", false, Some(1)), mk_entry("b", false, Some(2))],
    );
    p.selected = 2;
    p.anchor = 1;
    p.filter = "x".to_string();
    p.git_info = Some(GitInfo {
        branch: "main".into(),
        uncommitted: 1,
        ahead: 0,
        behind: 0,
        modified_names: Vec::new(),
    });
    let gen_before = p.load_generation;

    let gen_after = p.navigate(Location::Local("/new".to_string()));

    assert_eq!(gen_after, gen_before + 1);
    assert_eq!(p.load_generation, gen_after);
    assert_eq!(p.path(), "/new");
    assert!(p.entries.is_empty());
    assert!(p.visible_indices.is_empty());
    assert!(p.filter.is_empty());
    assert_eq!(p.selected, 0);
    assert_eq!(p.anchor, 0);
    assert!(p.loading);
    assert!(p.git_info.is_none());
}

#[test]
fn reload_keeps_filter_and_rehomes_cursor_without_jump() {
    let mut p = pane_with_entries(
        "/dir",
        vec![mk_entry("alpha", false, Some(1)), mk_entry("apex", false, Some(2))],
    );
    p.filter = "ap".to_string();
    p.recompute_visible(None);
    p.selected = 1; // first matching entry (row 0 is "..")
    let cursor = p.cursor_name();
    assert!(cursor.is_some());
    let gen_before = p.load_generation;

    let gen_after = p.reload();

    // Fresh generation + cleared listing, like navigate…
    assert_eq!(gen_after, gen_before + 1);
    assert!(p.entries.is_empty());
    assert!(p.visible_indices.is_empty());
    assert!(p.loading);
    assert!(p.git_info.is_none());
    // …but the filter survives and the cursor is queued for re-homing
    // by name, with the scroll-jump suppressed.
    assert_eq!(p.filter, "ap");
    assert_eq!(p.pending_focus, cursor);
    assert!(!p.focus_jump);
}

#[test]
fn navigate_generation_strictly_increases() {
    let mut p = Pane::empty(Location::Local("/".to_string()));
    let g0 = p.load_generation;
    let g1 = p.navigate(Location::Local("/a".to_string()));
    let g2 = p.navigate(Location::Local("/b".to_string()));
    let g3 = p.navigate(Location::Local("/c".to_string()));
    assert!(g1 > g0);
    assert!(g2 > g1);
    assert!(g3 > g2);
}

#[test]
fn move_to_clamps_at_top() {
    let mut p = three_entry_pane();
    p.move_to(-5, false);
    assert_eq!(p.selected, 0);
    assert_eq!(p.anchor, 0);
}

#[test]
fn move_to_clamps_at_bottom() {
    // 3 entries → max row index is 3 (".." is row 0, entries 1..=3).
    let mut p = three_entry_pane();
    p.move_to(99, false);
    assert_eq!(p.selected, 3);
    assert_eq!(p.anchor, 3);
}

#[test]
fn move_to_collapses_anchor_when_not_extending() {
    let mut p = three_entry_pane();
    p.selected = 1;
    p.anchor = 3;
    p.move_to(2, false);
    assert_eq!(p.selected, 2);
    assert_eq!(p.anchor, 2);
}

#[test]
fn move_to_preserves_anchor_when_extending() {
    let mut p = three_entry_pane();
    p.selected = 1;
    p.anchor = 1;
    p.move_to(3, true);
    assert_eq!(p.selected, 3);
    // Anchor stays at the start of the range.
    assert_eq!(p.anchor, 1);
}

#[test]
fn move_by_uses_relative_delta() {
    let mut p = three_entry_pane();
    p.selected = 1;
    p.anchor = 1;
    p.move_by(2, false);
    assert_eq!(p.selected, 3);
}

#[test]
fn move_by_clamps_negative_below_zero() {
    let mut p = three_entry_pane();
    p.selected = 1;
    p.move_by(-100, false);
    assert_eq!(p.selected, 0);
}

#[test]
fn mark_range_returns_low_high_regardless_of_order() {
    let mut p = three_entry_pane();
    p.anchor = 1;
    p.selected = 3;
    assert_eq!(p.mark_range(), (1, 3));

    p.anchor = 3;
    p.selected = 1;
    assert_eq!(p.mark_range(), (1, 3));
}

#[test]
fn mark_range_collapses_to_point_when_equal() {
    let mut p = three_entry_pane();
    p.anchor = 2;
    p.selected = 2;
    assert_eq!(p.mark_range(), (2, 2));
}

#[test]
fn is_marked_includes_both_endpoints() {
    let mut p = three_entry_pane();
    p.move_to(1, false);
    p.move_to(3, true);
    assert!(p.is_marked(1));
    assert!(p.is_marked(2));
    assert!(p.is_marked(3));
    assert!(!p.is_marked(0));
}

#[test]
fn is_marked_excludes_out_of_range_rows() {
    let mut p = three_entry_pane();
    p.move_to(1, false);
    p.move_to(2, true);
    assert!(p.is_marked(1));
    assert!(p.is_marked(2));
    assert!(!p.is_marked(3));
}

#[test]
fn toggle_mark_builds_noncontiguous_selection() {
    let mut p = three_entry_pane();
    // Cmd+click rows 1 and 3 — row 2 stays unselected.
    p.toggle_mark(1);
    p.toggle_mark(3);
    assert!(p.is_marked(1));
    assert!(!p.is_marked(2));
    assert!(p.is_marked(3));
    // Cursor and shift-anchor followed the last toggle.
    assert_eq!(p.selected, 3);
    assert_eq!(p.anchor, 3);
}

#[test]
fn toggle_mark_deselects_on_second_click() {
    let mut p = three_entry_pane();
    p.toggle_mark(2);
    assert!(p.is_marked(2));
    p.toggle_mark(2);
    assert!(!p.is_marked(2));
    // Cursor still sits on the row even though it's no longer selected.
    assert_eq!(p.selected, 2);
}

#[test]
fn toggle_mark_ignores_dotdot_row() {
    let mut p = three_entry_pane();
    p.toggle_mark(0);
    assert!(!p.is_marked(0));
    assert!(p.marked_paths().is_empty());
}

#[test]
fn plain_move_collapses_prior_multiselection() {
    let mut p = three_entry_pane();
    p.toggle_mark(1);
    p.toggle_mark(3);
    // A plain (non-extend) move clears the Cmd-built selection down to
    // the single new cursor row.
    p.move_to(2, false);
    assert!(!p.is_marked(1));
    assert!(p.is_marked(2));
    assert!(!p.is_marked(3));
}

#[test]
fn shift_extend_after_toggle_ranges_from_last_toggle() {
    let mut p = three_entry_pane();
    p.toggle_mark(1); // cursor + anchor now at row 1
    p.move_to(3, true); // shift-extend from row 1
    assert!(p.is_marked(1));
    assert!(p.is_marked(2));
    assert!(p.is_marked(3));
}

#[test]
fn empty_filter_shows_all_entries() {
    let p = alpha_pane();
    assert!(p.filter.is_empty());
    assert_eq!(p.visible_indices.len(), p.entries.len());
}

#[test]
fn substring_filter_matches() {
    let mut p = alpha_pane();
    p.filter = "alpha".to_string();
    p.recompute_visible(None);
    assert_eq!(p.visible_indices.len(), 2);
    let names: Vec<_> = p
        .visible_indices
        .iter()
        .map(|&i| p.entries[i].name.as_str())
        .collect();
    assert!(names.contains(&"alpha"));
    assert!(names.contains(&"alphabet"));
}

#[test]
fn filter_is_case_insensitive() {
    let mut p = alpha_pane();
    p.filter = "ALPHA".to_string();
    p.recompute_visible(None);
    assert_eq!(p.visible_indices.len(), 2);
}

#[test]
fn invalid_regex_falls_back_to_substring() {
    let mut p = alpha_pane();
    // Unbalanced paren — invalid regex syntax.
    p.filter = "(alpha".to_string();
    p.recompute_visible(None);
    // Substring search for "(alpha" finds nothing in our entries.
    assert!(p.visible_indices.is_empty());

    // But "(a" likewise invalid regex, substring matches…well only literal
    // "(a" which is absent. Better: test fallback with a string that
    // *would* match as substring but is invalid regex: "alpha(" → bare
    // "(" makes the regex error, fallback looks for the literal substring
    // "alpha(" which is also absent. So instead use a clear case:
    p.filter = "[".to_string(); // invalid regex; substring "[" not in names.
    p.recompute_visible(None);
    assert!(p.visible_indices.is_empty());
}

#[test]
fn cursor_preserved_by_name_when_still_visible() {
    let mut p = alpha_pane();
    // Cursor on "beta" (visible row 2, since alpha is sorted before beta).
    // The pane_with_entries helper calls append_chunk which sorts. After
    // sort: alpha, alphabet, beta, gamma → "beta" at visible row 3.
    p.selected = 3; // "beta"
    p.anchor = 3;
    assert_eq!(p.cursor_name().as_deref(), Some("beta"));

    // Apply a filter that still matches "beta".
    p.filter = "b".to_string();
    let prior = p.cursor_name();
    p.recompute_visible(prior.as_deref());

    // Cursor should still be on "beta".
    assert_eq!(p.cursor_name().as_deref(), Some("beta"));
}

#[test]
fn cursor_jumps_to_first_match_when_previously_focused_entry_filtered_out() {
    let mut p = alpha_pane();
    p.selected = 3; // "beta" after sorting
    p.anchor = 3;
    let prior = p.cursor_name();
    assert_eq!(prior.as_deref(), Some("beta"));

    // Filter excludes "beta" but matches "alpha"/"alphabet".
    p.filter = "alpha".to_string();
    p.recompute_visible(prior.as_deref());

    // Cursor jumps to the first match rather than the ".." row.
    assert_eq!(p.selected, 1);
    assert_eq!(p.anchor, 1);
    assert_eq!(p.cursor_name().as_deref(), Some("alpha"));
}

#[test]
fn cursor_jumps_to_first_match_when_starting_from_dotdot() {
    let mut p = alpha_pane();
    // Cursor on the synthetic ".." row, as is typical right after
    // navigating into a folder and then beginning to type a filter.
    p.selected = 0;
    p.anchor = 0;
    assert_eq!(p.cursor_name(), None);

    p.filter = "beta".to_string();
    p.recompute_visible(None);

    // Filter is active and matches "beta" — cursor lands on it, not "..".
    assert_eq!(p.selected, 1);
    assert_eq!(p.cursor_name().as_deref(), Some("beta"));
}

#[test]
fn cursor_stays_on_dotdot_when_filter_matches_nothing() {
    let mut p = alpha_pane();
    p.filter = "no-such-entry".to_string();
    p.recompute_visible(None);

    // No matches → nothing to select → cursor remains on the ".." row.
    assert!(p.visible_indices.is_empty());
    assert_eq!(p.selected, 0);
}

#[test]
fn clearing_filter_restores_all_entries() {
    let mut p = alpha_pane();
    p.filter = "alpha".to_string();
    p.recompute_visible(None);
    assert_eq!(p.visible_indices.len(), 2);

    p.filter.clear();
    p.recompute_visible(None);
    assert_eq!(p.visible_indices.len(), 4);
}

#[test]
fn toggle_sort_same_column_flips_direction() {
    let mut p = alpha_pane();
    assert_eq!(p.sort_dir, SortDir::Asc);
    p.toggle_sort(SortBy::Name);
    assert_eq!(p.sort_by, SortBy::Name);
    assert_eq!(p.sort_dir, SortDir::Desc);
    p.toggle_sort(SortBy::Name);
    assert_eq!(p.sort_dir, SortDir::Asc);
}

#[test]
fn toggle_sort_different_column_resets_to_asc() {
    let mut p = alpha_pane();
    p.sort_dir = SortDir::Desc; // pretend we were in descending order
    p.sort_by = SortBy::Name;
    p.toggle_sort(SortBy::Size);
    assert_eq!(p.sort_by, SortBy::Size);
    assert_eq!(p.sort_dir, SortDir::Asc);
}

#[test]
fn toggle_sort_preserves_cursor_by_name() {
    let mut p = alpha_pane();
    // Default sort by Name Asc: alpha, alphabet, beta, gamma → "gamma"
    // is at visible row 4. Cursor there.
    p.selected = 4;
    p.anchor = 4;
    assert_eq!(p.cursor_name().as_deref(), Some("gamma"));

    // Sort by Size Asc: 1=alpha, 2=beta, 3=gamma, 4=alphabet.
    // "gamma" is now at row 3 (visible row index = entry index + 1).
    p.toggle_sort(SortBy::Size);
    assert_eq!(p.cursor_name().as_deref(), Some("gamma"));
}

#[test]
fn append_chunk_accumulates_across_calls() {
    let mut p = Pane::empty(Location::Local("/p".to_string()));
    p.append_chunk(vec![mk_entry("b", false, Some(1))]);
    p.append_chunk(vec![mk_entry("a", false, Some(2))]);
    assert_eq!(p.entries.len(), 2);
    // Entries are stored in arrival order during streaming; sorting is
    // deferred to the EntriesDone handler to avoid O(n² log n) work on
    // the main thread. So here "b" still precedes "a".
    assert_eq!(p.entries[0].name, "b");
    assert_eq!(p.entries[1].name, "a");
}

#[test]
fn append_chunk_rebuilds_visible_indices() {
    let mut p = Pane::empty(Location::Local("/p".to_string()));
    p.append_chunk(vec![
        mk_entry("a", false, Some(1)),
        mk_entry("b", false, Some(2)),
    ]);
    assert_eq!(p.visible_indices.len(), 2);
}

#[test]
fn append_chunk_respects_existing_filter() {
    let mut p = Pane::empty(Location::Local("/p".to_string()));
    p.filter = "alp".to_string();
    p.recompute_visible(None);
    p.append_chunk(vec![
        mk_entry("alpha", false, None),
        mk_entry("zebra", false, None),
    ]);
    // "alp" matches "alpha", not "zebra".
    assert_eq!(p.visible_indices.len(), 1);
    assert_eq!(p.entries[p.visible_indices[0]].name, "alpha");
}

#[test]
fn append_empty_chunk_is_noop() {
    let mut p = Pane::empty(Location::Local("/p".to_string()));
    p.append_chunk(vec![mk_entry("a", false, None)]);
    let before_len = p.entries.len();
    p.append_chunk(Vec::new());
    assert_eq!(p.entries.len(), before_len);
}

#[test]
fn cursor_name_returns_none_for_dotdot_row() {
    let mut p = alpha_pane();
    p.selected = 0; // ".." row
    assert!(p.cursor_name().is_none());
}

#[test]
fn cursor_name_returns_entry_name_for_real_row() {
    let mut p = alpha_pane();
    p.selected = 1; // first entry after sort
    assert_eq!(p.cursor_name().as_deref(), Some("alpha"));
}

#[test]
fn entry_at_zero_is_none() {
    let p = alpha_pane();
    assert!(p.entry_at(0).is_none());
}

#[test]
fn entry_at_returns_visible_entry() {
    let p = alpha_pane();
    let e = p.entry_at(1).unwrap();
    assert_eq!(e.name, "alpha");
}

#[test]
fn entry_at_out_of_range_returns_none() {
    let p = alpha_pane();
    assert!(p.entry_at(99).is_none());
}

#[test]
fn marked_paths_for_single_row_returns_one_path() {
    let mut p = alpha_pane();
    p.move_to(1, false); // "alpha"
    let paths = p.marked_paths();
    assert_eq!(paths, vec!["/p/alpha".to_string()]);
}

#[test]
fn marked_paths_for_range_returns_all_entries_in_range() {
    let mut p = alpha_pane();
    p.move_to(1, false); // alpha
    p.move_to(3, true); // beta (after sort: alpha, alphabet, beta, gamma)
    let paths = p.marked_paths();
    assert_eq!(paths.len(), 3);
    assert!(paths.contains(&"/p/alpha".to_string()));
    assert!(paths.contains(&"/p/alphabet".to_string()));
    assert!(paths.contains(&"/p/beta".to_string()));
}

#[test]
fn marked_paths_skips_dotdot_row() {
    let mut p = alpha_pane();
    // Range includes the ".." row at index 0.
    p.move_to(0, false);
    p.move_to(2, true);
    let paths = p.marked_paths();
    // 2 entries returned (alpha + alphabet), not 3 — the ".." row is dropped.
    assert_eq!(paths.len(), 2);
}

#[test]
fn marked_paths_with_only_dotdot_selected_is_empty() {
    let mut p = alpha_pane();
    p.move_to(0, false);
    assert!(p.marked_paths().is_empty());
}

#[test]
fn marked_locations_on_local_pane_matches_marked_paths() {
    let mut p = alpha_pane();
    p.move_to(1, false);
    p.move_to(3, true);
    let paths = p.marked_paths();
    let locs = p.marked_locations();
    assert_eq!(paths.len(), locs.len());
    for (path, loc) in paths.iter().zip(locs.iter()) {
        assert_eq!(loc, &Location::Local(path.clone()));
    }
}

#[test]
fn marked_locations_on_remote_pane_keeps_backend() {
    let mut p = Pane::empty(Location::Remote {
        backend: BackendId::new("alice.dev"),
        path: "/var/log".to_string(),
    });
    p.append_chunk(vec![
        mk_entry("syslog", false, Some(10)),
        mk_entry("auth.log", false, Some(20)),
    ]);
    sort_entries(&mut p.entries, p.sort_by, p.sort_dir);
    p.recompute_visible(None);
    p.move_to(1, false);
    p.move_to(2, true);
    let locs = p.marked_locations();
    assert_eq!(locs.len(), 2);
    for loc in &locs {
        match loc {
            Location::Remote { backend, .. } => {
                assert_eq!(backend.as_str(), "alice.dev");
            }
            _ => panic!("expected Remote, got {:?}", loc),
        }
    }
    // The joined paths still sit under the pane's remote dir.
    let paths: Vec<&str> = locs.iter().map(|l| l.path()).collect();
    assert!(paths.contains(&"/var/log/syslog"));
    assert!(paths.contains(&"/var/log/auth.log"));
}

#[test]
fn regex_filter_selects_rows() {
    let mut p = alpha_pane();
    p.set_filter("^al.*t$".to_string());
    assert_eq!(p.visible_indices.len(), 1);
    assert_eq!(p.cursor_name().as_deref(), Some("alphabet"));
    p.set_filter(String::new());
    assert_eq!(p.visible_indices.len(), 4);
}

#[test]
fn filters_fall_back_to_substrings() {
    assert!(decide_filter("AL", "xalx", None));
    assert!(!decide_filter("AL", "xalx", Some(false)));
    assert!(decide_filter("zzz", "xalx", Some(true)));
    assert!(decide_filter("", "xalx", None));
    assert!(contains_folded("ABC", "bc"));
    assert!(!contains_folded("ABC", "bd"));
}

#[test]
fn pages_move_by_their_rows() {
    let mut p = alpha_pane();
    p.move_pages(1, 3, false);
    assert_eq!(p.selected, 3);
    p.move_pages(-1, 2, true);
    assert_eq!(p.selected, 1);
    assert_eq!(p.mark_range(), (1, 3));
}

#[test]
fn marker_names_follow_the_program() {
    assert_eq!(assistant_guide("helper"), "HELPER.md");
    assert_eq!(assistant_folder("helper"), ".helper");
}

#[test]
fn git_probes_are_read() {
    let status = " M src/a.rs\n?? \"b c.txt\"\n M ../out.rs\nM  src/b.rs\n";
    let info = gather_git_info(Some("main\n"), Some(status), Some("2\t1\n")).unwrap();
    assert_eq!(info.branch, "main");
    assert_eq!(info.uncommitted, 4);
    assert_eq!(info.modified_names, vec!["src".to_string(), "b c.txt".to_string()]);
    assert_eq!((info.ahead, info.behind), (2, 1));
    assert_eq!(
        git_info_bar(&info),
        "branch: main   ·   4 uncommitted changes   ·   ↑2 ↓1 vs upstream"
    );
}

#[test]
fn git_probes_without_upstream_or_branch() {
    assert!(gather_git_info(None, Some(""), None).is_none());
    let info = gather_git_info(Some("\n"), None, None).unwrap();
    assert_eq!(info.branch, "(detached)");
    assert_eq!((info.uncommitted, info.ahead, info.behind), (0, 0, 0));
    assert_eq!(git_info_bar(&info), "branch: (detached)");
    let one = gather_git_info(Some("x"), Some("?? a"), Some("none")).unwrap();
    assert_eq!(git_info_bar(&one), "branch: x   ·   1 uncommitted change");
}
