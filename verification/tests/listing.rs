use rho::entry::{Entry, SortBy, SortDir, Timestamp, sort_entries};
use rho::listing::{parse_ls_la, parse_rfc3339};

#[test]
fn parse_ls_la_skips_total_and_dot_entries() {
    let stdout = "\
total 12
drwxr-xr-x 3 user group 4096 2026-05-22 14:32:01.000000000 +0000 .
drwxr-xr-x 10 user group 4096 2026-05-22 14:30:15.000000000 +0000 ..
-rw-r--r-- 1 user group 158 2026-05-22 14:32:01.000000000 +0000 README.md
";
    let out = parse_ls_la(stdout);
    assert_eq!(out.len(), 1);
    assert_eq!(out[0].name, "README.md");
    assert_eq!(out[0].is_dir, false);
    assert_eq!(out[0].size, Some(158));
    assert!(out[0].modified.is_some());
}

#[test]
fn parse_ls_la_marks_directories() {
    let stdout = "\
drwxr-xr-x 2 user group 4096 2026-05-22 14:31:00.000000000 +0000 src
-rw-r--r-- 1 user group 42 2026-05-22 14:31:00.000000000 +0000 main.rs
";
    let out = parse_ls_la(stdout);
    assert_eq!(out.len(), 2);
    let src = out.iter().find(|e| e.name == "src").unwrap();
    assert!(src.is_dir);
    // Dirs report no size, matching local listings.
    assert_eq!(src.size, None);
    let main = out.iter().find(|e| e.name == "main.rs").unwrap();
    assert!(!main.is_dir);
    assert_eq!(main.size, Some(42));
}

#[test]
fn parse_ls_la_strips_symlink_target() {
    let stdout = "\
lrwxrwxrwx 1 user group 9 2026-05-22 14:31:30.000000000 +0000 link -> README.md
";
    let out = parse_ls_la(stdout);
    assert_eq!(out.len(), 1);
    assert_eq!(out[0].name, "link");
    // We don't follow remote symlinks → treat as not-dir, no size.
    assert!(!out[0].is_dir);
    assert_eq!(out[0].size, None);
}

#[test]
fn parse_ls_la_preserves_spaces_in_names() {
    let stdout = "\
-rw-r--r-- 1 user group 7 2026-05-22 14:31:00.000000000 +0000 a file with spaces.txt
";
    let out = parse_ls_la(stdout);
    assert_eq!(out.len(), 1);
    assert_eq!(out[0].name, "a file with spaces.txt");
}

#[test]
fn parse_ls_la_handles_full_iso_with_nanos_and_offset() {
    let stdout = "\
-rw-r--r-- 1 user group 1 2026-05-22 14:32:01.123456789 +0200 a
";
    let out = parse_ls_la(stdout);
    assert_eq!(out.len(), 1);
    // We don't assert the exact SystemTime, but the parse must succeed —
    // an unparseable timestamp would leave `modified` as None.
    assert!(out[0].modified.is_some());
}

#[test]
fn parse_ls_la_skips_malformed_lines() {
    let stdout = "\
total 0
this is not an ls line
-rw-r--r-- 1 user group 1 2026-05-22 14:32:01.000000000 +0000 ok.txt
";
    let out = parse_ls_la(stdout);
    // The malformed line is dropped; the real one survives.
    assert_eq!(out.len(), 1);
    assert_eq!(out[0].name, "ok.txt");
}

fn mk_entry(name: &str, is_dir: bool, size: Option<u64>) -> Entry {
    Entry {
        name: name.to_string(),
        is_dir,
        size,
        modified: None,
    }
}

#[test]
fn sort_clusters_directories_first() {
    let mut entries = vec![
        mk_entry("zfile", false, Some(10)),
        mk_entry("adir", true, None),
        mk_entry("mfile", false, Some(20)),
        mk_entry("bdir", true, None),
    ];
    sort_entries(&mut entries, SortBy::Name, SortDir::Asc);
    assert!(entries[0].is_dir);
    assert!(entries[1].is_dir);
    assert!(!entries[2].is_dir);
    assert!(!entries[3].is_dir);
}

#[test]
fn sort_by_name_is_case_insensitive() {
    let mut entries = vec![
        mk_entry("Banana", false, None),
        mk_entry("apple", false, None),
        mk_entry("cherry", false, None),
    ];
    sort_entries(&mut entries, SortBy::Name, SortDir::Asc);
    assert_eq!(entries[0].name, "apple");
    assert_eq!(entries[1].name, "Banana");
    assert_eq!(entries[2].name, "cherry");
}

#[test]
fn sort_by_name_desc_reverses() {
    let mut entries = vec![
        mk_entry("a", false, None),
        mk_entry("b", false, None),
        mk_entry("c", false, None),
    ];
    sort_entries(&mut entries, SortBy::Name, SortDir::Desc);
    assert_eq!(entries[0].name, "c");
    assert_eq!(entries[2].name, "a");
}

#[test]
fn sort_by_size_ascending() {
    let mut entries = vec![
        mk_entry("c", false, Some(300)),
        mk_entry("a", false, Some(100)),
        mk_entry("b", false, Some(200)),
    ];
    sort_entries(&mut entries, SortBy::Size, SortDir::Asc);
    assert_eq!(entries[0].size, Some(100));
    assert_eq!(entries[1].size, Some(200));
    assert_eq!(entries[2].size, Some(300));
}

#[test]
fn sort_by_size_treats_none_as_zero() {
    let mut entries = vec![
        mk_entry("a", false, Some(50)),
        mk_entry("b", false, None),
        mk_entry("c", false, Some(10)),
    ];
    sort_entries(&mut entries, SortBy::Size, SortDir::Asc);
    // None (treated as 0) sorts first.
    assert_eq!(entries[0].size, None);
    assert_eq!(entries[1].size, Some(10));
    assert_eq!(entries[2].size, Some(50));
}

#[test]
fn sort_by_modified_handles_some_and_none() {
    let t1 = Timestamp { secs: 100, nanos: 0 };
    let t2 = Timestamp { secs: 200, nanos: 0 };
    let mut entries = vec![
        Entry { name: "a".into(), is_dir: false, size: None, modified: Some(t2) },
        Entry { name: "b".into(), is_dir: false, size: None, modified: None },
        Entry { name: "c".into(), is_dir: false, size: None, modified: Some(t1) },
    ];
    sort_entries(&mut entries, SortBy::Modified, SortDir::Asc);
    // None < Some(_), so the no-mtime entry sorts first.
    assert_eq!(entries[0].name, "b");
    assert_eq!(entries[1].name, "c");
    assert_eq!(entries[2].name, "a");
}

#[test]
fn sort_keeps_dirs_first_even_when_sorting_by_size() {
    let mut entries = vec![
        mk_entry("file_big", false, Some(1000)),
        mk_entry("dir", true, None),
        mk_entry("file_small", false, Some(10)),
    ];
    sort_entries(&mut entries, SortBy::Size, SortDir::Asc);
    assert!(entries[0].is_dir);
    assert_eq!(entries[1].size, Some(10));
    assert_eq!(entries[2].size, Some(1000));
}

#[test]
fn ls_time_is_exact() {
    let stdout = "-rw-r--r-- 1 u g 1 2026-05-22 14:32:01.123456789 +0200 a\n";
    let out = parse_ls_la(stdout);
    assert_eq!(out[0].modified, Some(Timestamp { secs: 1779453121, nanos: 123456789 }));
}

#[test]
fn ls_time_that_is_no_time_is_dropped() {
    let out = parse_ls_la("-rw-r--r-- 1 u g 1 2026-99-22 14:32:01.0 +0200 a\n");
    assert_eq!(out.len(), 1);
    assert_eq!(out[0].modified, None);
}

#[test]
fn rfc3339_times() {
    assert_eq!(parse_rfc3339("2015-05-12T15:50:38Z"), Some(Timestamp { secs: 1431445838, nanos: 0 }));
    assert_eq!(parse_rfc3339("1969-12-31T23:59:59Z"), None);
    assert_eq!(parse_rfc3339("yesterday"), None);
}

#[test]
fn sorting_is_stable() {
    let mut entries = vec![
        mk_entry("b", false, Some(1)),
        mk_entry("a", false, Some(1)),
        mk_entry("C", false, Some(1)),
    ];
    sort_entries(&mut entries, SortBy::Size, SortDir::Desc);
    let names: Vec<&str> = entries.iter().map(|e| e.name.as_str()).collect();
    assert_eq!(names, vec!["b", "a", "C"]);
}

#[test]
fn lower_case_goes_beyond_ascii() {
    let mut entries = vec![mk_entry("Öl", false, None), mk_entry("ökonom", false, None)];
    sort_entries(&mut entries, SortBy::Name, SortDir::Asc);
    assert_eq!(entries[0].name, "ökonom");
}

#[test]
fn only_regular_files_have_sizes() {
    for (kind, size) in [("-", Some(7)), ("p", None), ("s", None), ("c", None), ("d", None)] {
        let line = format!("{}rw-r--r-- 1 user group 7 2026-05-22 14:31:00.000000000 +0000 x\n", kind);
        let out = parse_ls_la(&line);
        assert_eq!(out.len(), 1);
        assert_eq!(out[0].name, "x");
        assert_eq!(out[0].is_dir, kind == "d");
        assert_eq!(out[0].size, size, "{}", kind);
    }
}
