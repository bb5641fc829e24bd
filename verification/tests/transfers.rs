use rho::location::{BackendId, Location};
use rho::palette::Platform;
use rho::transfer::{Batch, Followup, PathStyle, Step, TreeWalk, after_step, crosses_devices, delete_one, fetch_to_local, plan_exact, push_from_local, relay, run_copy, run_delete, run_move};

fn local(p: &str) -> Location {
    Location::local(p)
}

fn remote(host: &str, p: &str) -> Location {
    Location::remote(BackendId::new(host), p)
}

fn copy_step(src: Location, dst: Location) -> Result<String, String> {
    let jobs = run_copy(vec![src], &dst);
    assert_eq!(jobs.len(), 1);
    assert!(!jobs[0].then_delete);
    match &jobs[0].plan {
        Ok(s) => Ok(format!("{:?}", s)),
        Err(e) => Err(e.clone()),
    }
}

#[test]
fn copies_by_transport() {
    assert_eq!(
        copy_step(local("/a/x"), local("/b")).unwrap(),
        "CopyLocal { src: \"/a/x\", dst: \"/b/x\" }"
    );
    assert_eq!(
        copy_step(local("/a/x"), remote("h", "~/d")).unwrap(),
        "Sftp { backend: \"h\", script: \"put -r '/a/x' 'd'\\n\" }"
    );
    assert_eq!(
        copy_step(remote("h", "~"), local("/b")).unwrap(),
        "Sftp { backend: \"h\", script: \"get -r . '/b'\\n\" }"
    );
    assert_eq!(
        copy_step(remote("h", "/x"), remote("h", "~/d e")).unwrap(),
        "Ssh { backend: \"h\", command: \"cp -r -- '/x' ~/'d e'\" }"
    );
    assert_eq!(
        copy_step(remote("h", "/x"), remote("g", "/y")).unwrap(),
        "Relay { from: \"h\", to: \"g\" }"
    );
    assert_eq!(
        copy_step(local("/a/x"), remote("dropbox", "/")).unwrap(),
        "DropboxUpload { local: \"/a/x\", api: \"/x\" }"
    );
    assert_eq!(
        copy_step(remote("dropbox", "/P/x"), local("/b")).unwrap(),
        "DropboxDownload { api: \"/P/x\", local: \"/b/x\" }"
    );
    assert_eq!(
        copy_step(remote("dropbox", "/P/x"), remote("dropbox", "/Q")).unwrap(),
        "DropboxCall { endpoint: \"files/copy_v2\", body: \"{\\\"from_path\\\":\\\"/P/x\\\",\\\"to_path\\\":\\\"/Q/x\\\"}\" }"
    );
    assert_eq!(copy_step(remote("dropbox", "/P/x"), remote("h", "/y")).unwrap(), "Stage");
}

#[test]
fn copies_that_cannot_be() {
    assert_eq!(copy_step(local("/"), local("/b")).unwrap_err(), "source has no file name");
    let jobs = run_copy(vec![local("/a"), remote("h", "/x")], &local("/b"));
    assert!(matches!(&jobs[1].plan, Err(e) if e == "expected local source"));
    let jobs = run_copy(vec![remote("h", "/x"), local("/a")], &local("/b"));
    assert!(matches!(&jobs[1].plan, Err(e) if e == "expected remote source"));
    let jobs = run_copy(vec![remote("dropbox", "/x"), local("/a")], &local("/b"));
    assert!(matches!(&jobs[1].plan, Err(e) if e == "expected dropbox source"));
    assert!(run_copy(vec![], &local("/b")).is_empty());
}

#[test]
fn moves_within_and_across() {
    let within = run_move(vec![local("/a/x")], &local("/b"));
    assert!(!within[0].then_delete);
    assert!(matches!(&within[0].plan, Ok(Step::MoveLocal { dst, .. }) if dst == "/b/x"));
    let host = run_move(vec![remote("h", "/x")], &remote("h", "/d"));
    assert!(matches!(&host[0].plan, Ok(Step::Ssh { command, .. }) if command == "mv -- '/x' '/d'"));
    let account = run_move(vec![remote("dropbox", "/x")], &remote("dropbox", "/d"));
    assert!(matches!(&account[0].plan, Ok(Step::DropboxCall { endpoint, .. }) if endpoint == "files/move_v2"));
    let across = run_move(vec![local("/a/x")], &remote("h", "/d"));
    assert!(across[0].then_delete);
    assert!(matches!(&across[0].plan, Ok(Step::Sftp { .. })));
    assert!(run_move(vec![], &local("/b")).is_empty());
}

#[test]
fn deletions_by_transport() {
    let jobs = run_delete(vec![local("/a"), remote("h", "~/x y"), remote("dropbox", "/z")]);
    assert!(matches!(&jobs[0].plan, Ok(Step::DeleteLocal(p)) if p == "/a"));
    assert!(matches!(&jobs[1].plan, Ok(Step::Ssh { command, .. }) if command == "rm -rf -- ~/'x y'"));
    assert!(matches!(&jobs[2].plan, Ok(Step::DropboxCall { body, .. }) if body == "{\"path\":\"/z\"}"));
    assert!(matches!(delete_one(&local("/a")), Step::DeleteLocal(_)));
}

#[test]
fn new_names_stay_on_their_backend() {
    assert!(matches!(plan_exact(&local("/a"), &local("/b"), true), Ok(Step::MoveLocal { .. })));
    assert!(matches!(plan_exact(&local("/a"), &local("/b"), false), Ok(Step::CopyLocal { .. })));
    assert!(matches!(plan_exact(&remote("h", "/a"), &remote("h", "/b"), true), Ok(Step::Ssh { .. })));
    assert!(plan_exact(&remote("h", "/a"), &remote("g", "/b"), true).is_err());
    assert!(plan_exact(&local("/a"), &remote("g", "/b"), false).is_err());
}

#[test]
fn relays_and_stages() {
    let (get, put) = relay(&BackendId::new("h"), &BackendId::new("g"), "/x/f", "/d", "/tmp/s");
    assert!(matches!(&get, Step::Sftp { backend, script } if backend == "h" && script == "get -r '/x/f' '/tmp/s'\n"));
    assert!(matches!(&put, Ok(Step::Sftp { backend, script }) if backend == "g" && script == "put -r '/tmp/s/f' '/d'\n"));
    let (_, put) = relay(&BackendId::new("h"), &BackendId::new("g"), "/", "/d", "/tmp/s");
    assert!(matches!(&put, Err(e) if e == "source has no file name"));
    let (fetch, staged) = fetch_to_local(&remote("dropbox", "/P/x"), "/tmp/s");
    assert!(matches!(&fetch, Ok(Step::DropboxDownload { local, .. }) if local == "/tmp/s/x"));
    assert_eq!(staged, "/tmp/s/x");
    assert!(matches!(&push_from_local(&staged, &remote("h", "/d")), Ok(Step::Sftp { .. })));
    assert!(matches!(&push_from_local("/", &local("/d")), Err(e) if e == "staged file has no name"));
}

#[test]
fn renames_across_devices_become_copies() {
    assert!(crosses_devices(Platform::Linux, Some(18)));
    assert!(crosses_devices(Platform::MacOs, Some(18)));
    assert!(crosses_devices(Platform::Windows, Some(17)));
    assert!(!crosses_devices(Platform::Linux, Some(17)));
    assert!(!crosses_devices(Platform::Windows, Some(18)));
    assert!(!crosses_devices(Platform::Linux, Some(13)));
    assert!(!crosses_devices(Platform::Linux, None));
}

#[test]
fn trees_are_walked_in_order() {
    let mut walk = TreeWalk::new(PathStyle::Native, PathStyle::Api, "/a", "/d");
    let (src, dst) = walk.step().unwrap();
    assert_eq!((src.as_str(), dst.as_str()), ("/a", "/d"));
    walk.enter(&src, &dst, &vec!["x".to_string(), "y".to_string()]);
    assert_eq!(walk.step(), Some(("/a/x".to_string(), "/d/x".to_string())));
    walk.enter("/a/x", "/d/x", &vec!["z".to_string()]);
    assert_eq!(walk.step(), Some(("/a/x/z".to_string(), "/d/x/z".to_string())));
    assert_eq!(walk.step(), Some(("/a/y".to_string(), "/d/y".to_string())));
    assert_eq!(walk.step(), None);
}

#[test]
fn sources_are_deleted_only_after_their_copy() {
    let srcs = vec![local("/a"), local("/b"), local("/")];
    let mut batch = Batch::new(run_move(srcs, &remote("h", "/d")));
    assert!(matches!(batch.next(), Some(Ok(Step::Sftp { .. }))));
    batch.report(Err("no room".to_string()));
    assert!(matches!(batch.next(), Some(Ok(Step::Sftp { .. }))));
    batch.report(Ok(()));
    assert!(matches!(batch.next(), Some(Ok(Step::DeleteLocal(p))) if p == "/b"));
    assert_eq!(batch.current().unwrap().source, local("/b"));
    batch.report(Err("denied".to_string()));
    let due = batch.next().unwrap();
    batch.report(due.map(|_| ()));
    while let Some(Ok(_)) = batch.next() {
        batch.report(Ok(()));
    }
    assert!(batch.next().is_none());
    let results = batch.into_results();
    assert_eq!(results.len(), 3);
    assert_eq!(results[0], ("/a".to_string(), Err("no room".to_string())));
    assert_eq!(results[1], ("/b".to_string(), Err("denied".to_string())));
    assert_eq!(results[2].0, "/");
}

#[test]
fn moves_within_a_backend_delete_nothing() {
    let mut batch = Batch::new(run_move(vec![local("/a")], &local("/d")));
    assert!(matches!(batch.next(), Some(Ok(Step::MoveLocal { .. }))));
    batch.report(Ok(()));
    assert!(batch.next().is_none());
    assert_eq!(batch.into_results(), vec![("/a".to_string(), Ok(()))]);
    let jobs = run_move(vec![local("/a")], &remote("h", "/d"));
    assert!(matches!(after_step(&jobs[0], Ok(())), Followup::Delete(Step::DeleteLocal(p)) if p == "/a"));
    assert!(matches!(after_step(&jobs[0], Err("e".to_string())), Followup::Done(Err(e)) if e == "e"));
}
