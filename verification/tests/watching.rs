use rho::location::Location;
use rho::pane::Pane;
use rho::watch::{ChangeKind, ChangedPath, NewFileWatch, PaneWatch, is_ignored_watch_filename, watched_panes};

fn at(path: &str) -> ChangedPath {
    ChangedPath { path: path.to_string(), is_file: true }
}

#[test]
fn noise_is_ignored() {
    for name in [".DS_Store", "a.crdownload", "b.PART", "c.tmp", "d.download"] {
        assert!(is_ignored_watch_filename(name), "{}", name);
    }
    for name in ["a.zip", "part.txt", "tmpfile", ""] {
        assert!(!is_ignored_watch_filename(name), "{}", name);
    }
}

#[test]
fn new_files_are_gathered() {
    let mut w = NewFileWatch::new(vec!["/d".to_string(), "/e".to_string()]);
    assert_eq!(w.wait(0), None);
    w.note(ChangeKind::Created, &vec![at("/d/a"), at("/d/a"), at("/x/b"), at("/d/.c")], 1000);
    assert_eq!(w.wait(1000), Some(500));
    w.note(ChangeKind::Renamed, &vec![at("/e/b"), at("/d/c")], 1200);
    assert_eq!(w.wait(1200), Some(500));
    assert_eq!(w.wait(9999), Some(0));
    w.note(ChangeKind::Removed, &vec![at("/e/z")], 1300);
    let gone = ChangedPath { path: "/d/gone".to_string(), is_file: false };
    w.note(ChangeKind::Created, &vec![gone], 1300);
    let found = w.flush();
    assert_eq!(found[0], ("/d".to_string(), vec!["a".to_string(), "c".to_string()]));
    assert_eq!(found[1], ("/e".to_string(), vec!["b".to_string()]));
    assert_eq!(w.wait(2000), None);
}

#[test]
fn refreshes_wait_for_quiet_but_not_forever() {
    let mut w = PaneWatch::new(vec!["/d".to_string()]);
    w.note(ChangeKind::Other, &vec![at("/d/a")], 0);
    assert_eq!(w.wait(0), None);
    let mut now = 0;
    while now < 1400 {
        w.note(ChangeKind::Removed, &vec![at("/d/a")], now);
        now += 100;
    }
    // The last change was at 1300; the limit of the first one is 1500.
    assert_eq!(w.wait(1300), Some(200));
    assert_eq!(w.flush(), vec!["/d".to_string()]);
    assert_eq!(w.wait(1300), None);
}

#[test]
fn names_without_an_extension_are_watched() {
    for name in ["download", "part", "tmp", "crdownload", "x.", "tmp.txt"] {
        assert!(!is_ignored_watch_filename(name), "{}", name);
    }
    assert!(is_ignored_watch_filename("a.PART"));
}

#[test]
fn shown_folders_are_watched_once() {
    let a = Pane::empty(Location::local("/a"));
    let b = Pane::empty(Location::local("/b"));
    let same = Pane::empty(Location::local("/a/"));
    let far = Pane::empty(Location::parse("h:/a"));
    assert_eq!(watched_panes(&a, &b, true, true), vec!["/a", "/b"]);
    assert_eq!(watched_panes(&a, &same, true, true), vec!["/a"]);
    assert_eq!(watched_panes(&a, &same, false, true), vec!["/a/"]);
    assert_eq!(watched_panes(&a, &b, true, false), vec!["/a"]);
    assert_eq!(watched_panes(&far, &b, true, true), vec!["/b"]);
    assert!(watched_panes(&far, &far, true, true).is_empty());
}
