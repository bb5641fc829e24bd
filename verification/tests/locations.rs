use rho::location::{BackendId, BackendKind, Location};
use rho::path::{extension_of_name, file_name_of, parent_of, paths_equal, stem_of_name};

#[test]
fn location_parses_plain_absolute_path_as_local() {
    let loc: Location = "/Users/ron/code".parse().unwrap();
    assert_eq!(loc, Location::Local("/Users/ron/code".to_string()));
}

#[test]
fn location_parses_relative_path_as_local() {
    let loc: Location = "src/main.rs".parse().unwrap();
    assert_eq!(loc, Location::Local("src/main.rs".to_string()));
}

#[test]
fn location_parses_tilde_path_as_local() {
    let loc: Location = "~/Downloads".parse().unwrap();
    assert_eq!(loc, Location::Local("~/Downloads".to_string()));
}

#[test]
fn location_parses_windows_drive_path_as_local() {
    // Without this branch, "C:" would look like a backend ID.
    let loc: Location = r"C:\Users\ron".parse().unwrap();
    assert_eq!(loc, Location::Local(r"C:\Users\ron".to_string()));
    let loc: Location = "D:/projects".parse().unwrap();
    assert_eq!(loc, Location::Local("D:/projects".to_string()));
}

#[test]
fn location_parses_local_filename_with_colon_as_local() {
    // The rest of the string doesn't start with `/` or `~`, so the
    // colon is part of a local filename, not a backend separator.
    let loc: Location = "file:notes.txt".parse().unwrap();
    assert_eq!(loc, Location::Local("file:notes.txt".to_string()));
}

#[test]
fn location_parses_ssh_alias_form_as_remote() {
    let loc: Location = "alice.dev:/var/log".parse().unwrap();
    assert_eq!(
        loc,
        Location::Remote {
            backend: BackendId::new("alice.dev"),
            path: "/var/log".to_string(),
        }
    );
}

#[test]
fn location_parses_remote_with_tilde_path() {
    let loc: Location = "host:~/dotfiles".parse().unwrap();
    assert_eq!(
        loc,
        Location::Remote {
            backend: BackendId::new("host"),
            path: "~/dotfiles".to_string(),
        }
    );
}

#[test]
fn location_parses_backend_id_with_punctuation() {
    let loc: Location = "my-host_1.example:/x".parse().unwrap();
    assert_eq!(
        loc,
        Location::Remote {
            backend: BackendId::new("my-host_1.example"),
            path: "/x".to_string(),
        }
    );
}

#[test]
fn location_display_round_trips_local() {
    let original = Location::Local("/etc/hosts".to_string());
    let s = original.to_text();
    let parsed: Location = s.parse().unwrap();
    assert_eq!(parsed, original);
}

#[test]
fn location_display_round_trips_remote() {
    let original = Location::Remote {
        backend: BackendId::new("work"),
        path: "/Apps/notes".to_string(),
    };
    let s = original.to_text();
    assert_eq!(s, "work:/Apps/notes");
    let parsed: Location = s.parse().unwrap();
    assert_eq!(parsed, original);
}

#[test]
fn location_is_local() {
    assert!(Location::Local("/tmp".to_string()).is_local());
    assert!(!Location::Remote {
        backend: BackendId::new("x"),
        path: "/tmp".to_string(),
    }
    .is_local());
}

#[test]
fn location_path_returns_inner_path_for_both_variants() {
    assert_eq!(
        Location::Local("/tmp".to_string()).path(),
        "/tmp",
    );
    assert_eq!(
        Location::Remote {
            backend: BackendId::new("x"),
            path: "/var/log".to_string(),
        }
        .path(),
        "/var/log",
    );
}

#[test]
fn location_parent_preserves_backend() {
    let remote = Location::Remote {
        backend: BackendId::new("alice.dev"),
        path: "/var/log".to_string(),
    };
    assert_eq!(
        remote.parent(),
        Some(Location::Remote {
            backend: BackendId::new("alice.dev"),
            path: "/var".to_string(),
        })
    );
    assert_eq!(
        Location::Local("/etc/ssh".to_string()).parent(),
        Some(Location::Local("/etc".to_string())),
    );
}

#[test]
fn location_parent_at_root_returns_none() {
    assert_eq!(Location::Local("/".to_string()).parent(), None);
    assert_eq!(
        Location::Remote {
            backend: BackendId::new("host"),
            path: "/".to_string(),
        }
        .parent(),
        None,
    );
}

#[test]
fn location_join_preserves_backend() {
    let remote = Location::Remote {
        backend: BackendId::new("host"),
        path: "/var".to_string(),
    };
    assert_eq!(
        remote.join("log"),
        Location::Remote {
            backend: BackendId::new("host"),
            path: "/var/log".to_string(),
        }
    );
    assert_eq!(
        Location::Local("/etc".to_string()).join("ssh"),
        Location::Local("/etc/ssh".to_string()),
    );
}

#[test]
fn backend_id_kind_detects_dropbox() {
    assert_eq!(BackendId::new("dropbox").kind(), BackendKind::Dropbox);
    assert!(BackendId::new("dropbox").is_dropbox());
    assert_eq!(BackendId::new("alice.dev").kind(), BackendKind::Ssh);
    assert!(!BackendId::new("alice.dev").is_dropbox());
}

#[test]
fn location_text_and_back_again() {
    for s in ["/a/b", "host:/x", "host:~", "C:/x", "file:notes", ""] {
        assert_eq!(Location::parse(s).to_text(), s);
    }
}

#[test]
fn locations_compare_by_components() {
    assert_eq!(Location::local("/a//b/./c/"), Location::local("/a/b/c"));
    assert_ne!(Location::local("/a/b"), Location::local("a/b"));
    assert_ne!(Location::local("/a"), Location::remote(BackendId::new("h"), "/a"));
    assert_ne!(Location::remote(BackendId::new("h"), "/a"), Location::remote(BackendId::new("g"), "/a"));
}

#[test]
fn parent_undoes_join() {
    let l = Location::remote(BackendId::new("h"), "/a");
    assert_eq!(l.join("b").parent(), Some(l));
}

#[test]
fn joining_an_absolute_path_replaces() {
    assert_eq!(Location::local("/a").join("/b").path(), "/b");
}

#[test]
fn paths_are_taken_apart() {
    assert_eq!(parent_of("/a/b/"), Some("/a".to_string()));
    assert_eq!(parent_of("/"), None);
    assert_eq!(parent_of("a"), Some("".to_string()));
    assert_eq!(parent_of(""), None);
    assert_eq!(file_name_of("/a/b.txt/"), Some("b.txt".to_string()));
    assert_eq!(file_name_of("/a/.."), None);
    assert_eq!(file_name_of("/"), None);
    assert_eq!(stem_of_name("a.tar.gz"), "a.tar");
    assert_eq!(stem_of_name(".bashrc"), ".bashrc");
    assert_eq!(extension_of_name("a.tar.gz"), Some("gz".to_string()));
    assert_eq!(extension_of_name(".bashrc"), None);
    assert_eq!(extension_of_name("a."), Some("".to_string()));
    assert!(paths_equal("/a/b", "/a//b/"));
    assert!(!paths_equal("/a/b", "/a/../a/b"));
}

#[test]
fn texts_are_read_as_places() {
    for text in ["/etc/hosts", "h:/srv", "h:~/x", "c:/x", "notes"] {
        let read: Location = text.parse().unwrap();
        assert_eq!(read, Location::parse(text));
        assert_eq!(read.to_text(), text);
    }
    assert!(!"h:/srv".parse::<Location>().unwrap().is_local());
    assert!("c:/x".parse::<Location>().unwrap().is_local());
}
