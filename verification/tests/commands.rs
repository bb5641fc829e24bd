use rho::command::{CommandLine, DOCKER_PS_FORMAT, FileRead, PreviewEnd, RunOutcome, docker_kill_command, docker_ps_command, dropbox_download_file, dropbox_exchange_refresh, dropbox_rpc, dropbox_upload_file, extract_command, git_branch_command, git_branches_command, git_checkout_command, git_counts_command, git_status_command, kill_command, preview_result, ps_command, read_ssh_config, remote_ls_command, run_docker_kill, run_docker_ps, run_extract, run_git, run_git_branches, run_git_checkout, run_kill, run_ps, run_remote_ls, run_sftp_batch, run_ssh_command, run_zip, scan_applications, sftp_command, ssh_command, zip_command};
use rho::config::DropboxAuth;
use rho::launch::{EditWith, docker_shell, folder_editor_command, launch_app, launch_result, open_claude_code, open_in_editor, open_terminal, quick_look, resolve_macos_terminal_app, run_file_action_in_terminal, shell_command, ssh_connect};
use rho::location::BackendId;
use rho::palette::Platform;

fn argv(c: &CommandLine) -> Vec<&str> {
    let mut v = vec![c.program.as_str()];
    v.extend(c.args.iter().map(|a| a.as_str()));
    v
}

fn finished(success: bool, stdout: &str, stderr: &str) -> RunOutcome {
    RunOutcome::Finished {
        success,
        status: "exit status: 1".to_string(),
        stdout: stdout.to_string(),
        stderr: stderr.to_string(),
    }
}

#[test]
fn docker_commands() {
    assert_eq!(argv(&docker_ps_command()), vec!["docker", "ps", "--format", DOCKER_PS_FORMAT]);
    assert_eq!(argv(&docker_kill_command("abc")), vec!["docker", "kill", "abc"]);
    let list = run_docker_ps(finished(true, "1|web|nginx|Up\n", "")).unwrap();
    assert_eq!(list[0].name, "web");
    assert_eq!(
        run_docker_ps(RunOutcome::NotFound("e".to_string())).unwrap_err(),
        "Docker doesn't appear to be installed (no `docker` binary in PATH)."
    );
    assert_eq!(
        run_docker_ps(RunOutcome::Failed("denied".to_string())).unwrap_err(),
        "failed to run `docker ps`: denied"
    );
    assert_eq!(run_docker_ps(finished(false, "", " no daemon\n")).unwrap_err(), "no daemon");
    assert_eq!(
        run_docker_kill(finished(false, "", " ")).unwrap_err(),
        "`docker kill` exited with status exit status: 1"
    );
    assert_eq!(
        run_docker_kill(RunOutcome::NotFound("no such file".to_string())).unwrap_err(),
        "failed to run `docker kill`: no such file"
    );
    assert!(run_docker_kill(finished(true, "", "")).is_ok());
}

#[test]
fn process_commands_depend_on_the_platform() {
    assert_eq!(argv(&ps_command(Platform::Linux).unwrap())[1], "-axo");
    assert!(ps_command(Platform::Windows).unwrap_err().starts_with("Process listing isn't"));
    assert_eq!(argv(&kill_command(Platform::MacOs, 42).unwrap()), vec!["kill", "42"]);
    assert!(kill_command(Platform::Windows, 42).is_err());
    assert_eq!(run_ps(finished(true, " 1 0.0 0.1 init\n", "")).unwrap()[0].name, "init");
    assert!(run_kill(finished(false, "", "no such process")).is_err());
}

#[test]
fn git_commands() {
    assert_eq!(argv(&git_checkout_command("/r", "dev")), vec!["git", "-C", "/r", "checkout", "dev"]);
    assert_eq!(argv(&git_branches_command("/r"))[3], "for-each-ref");
    assert_eq!(argv(&git_branch_command("/r"))[4], "--show-current");
    assert_eq!(argv(&git_status_command("/r"))[4], "--porcelain");
    assert_eq!(argv(&git_counts_command("/r"))[6], "HEAD...@{u}");
    assert_eq!(run_git_branches(finished(true, "main|2026-01-01\n", "")).unwrap().len(), 1);
    assert_eq!(
        run_git_branches(RunOutcome::NotFound("e".to_string())).unwrap_err(),
        "`git` isn't installed (not found in PATH)."
    );
    assert!(run_git_checkout(finished(false, "", "dirty")).is_err());
    assert_eq!(run_git(finished(true, "out", "")).as_deref(), Some("out"));
    assert_eq!(run_git(finished(false, "out", "")), None);
    assert_eq!(run_git(RunOutcome::Failed("e".to_string())), None);
}

#[test]
fn archive_commands() {
    let srcs = vec!["/p/a".to_string(), "/p/b/".to_string()];
    let zip = zip_command(&srcs, "/o/x.zip", "/p").unwrap();
    assert_eq!(argv(&zip), vec!["zip", "-r", "/o/x.zip", "a", "b"]);
    assert_eq!(zip.dir.as_deref(), Some("/p"));
    let bad = vec!["/p/a".to_string(), "/".to_string()];
    assert_eq!(zip_command(&bad, "x", "/").unwrap_err(), "source has no file name: /");
    assert_eq!(argv(&extract_command("/p/a.ZIP", "/d").unwrap()), vec!["unzip", "/p/a.ZIP", "-d", "/d"]);
    assert_eq!(
        argv(&extract_command("/p/a.tgz", "/d").unwrap()),
        vec!["tar", "-xzf", "/p/a.tgz", "-C", "/d"]
    );
    assert_eq!(
        extract_command("/p/a.rar", "/d").unwrap_err(),
        "unsupported archive format: a.rar (only .zip / .tar.gz / .tgz)"
    );
    assert_eq!(
        run_extract("unzip", RunOutcome::NotFound("e".to_string())).unwrap_err(),
        "`unzip` isn't installed (not found in PATH)."
    );
    assert!(run_zip(finished(true, "", "")).is_ok());
}

#[test]
fn remote_commands() {
    let host = BackendId::new("host");
    assert_eq!(
        argv(&remote_ls_command(&host, "~/a b")),
        vec!["ssh", "-o", "BatchMode=yes", "host", "--", "ls -la --time-style=full-iso -- ~/'a b'"]
    );
    assert_eq!(argv(&sftp_command("host")), vec!["sftp", "-b", "-", "-o", "BatchMode=yes", "host"]);
    assert_eq!(argv(&ssh_command("host", "rm -rf -- 'x'"))[5], "rm -rf -- 'x'");
    assert_eq!(
        run_sftp_batch(RunOutcome::NotFound("e".to_string())).unwrap_err(),
        "failed to spawn sftp: e"
    );
    assert_eq!(
        run_ssh_command(finished(false, "", "")).unwrap_err(),
        "ssh exited with status exit status: 1"
    );
    let listing = "-rw-r--r-- 1 u g 7 2026-05-22 14:31:00.0 +0000 a\n";
    assert_eq!(run_remote_ls(&finished(true, listing, "")).len(), 1);
    assert!(run_remote_ls(&finished(false, listing, "")).is_empty());
}

#[test]
fn dropbox_requests() {
    let rpc = dropbox_rpc("tok", "files/list_folder", "{}");
    let args = argv(&rpc);
    assert_eq!(&args[..6], ["curl", "-s", "-S", "-X", "POST", "https://api.dropboxapi.com/2/files/list_folder"]);
    assert!(args.contains(&"Authorization: Bearer tok"));
    assert_eq!(&args[args.len() - 2..], ["-w", "\n%{http_code}"]);
    let up = dropbox_upload_file("tok", "/l/a b", "/a b");
    assert!(argv(&up).contains(&"@/l/a b"));
    let down = dropbox_download_file("tok", "/x", "/l/x");
    assert!(argv(&down).contains(&"Dropbox-API-Arg: {\"path\":\"/x\"}"));
    let auth = DropboxAuth {
        app_key: "k".to_string(),
        app_secret: Some("s".to_string()),
        refresh_token: "r".to_string(),
    };
    let refresh = dropbox_exchange_refresh(&auth);
    assert!(argv(&refresh).contains(&"client_secret=s"));
    let public = dropbox_exchange_refresh(&DropboxAuth { app_secret: None, ..auth });
    assert!(!argv(&public).iter().any(|a| a.starts_with("client_secret")));
}

#[test]
fn ssh_hosts_are_read_and_sorted() {
    let text = "Host b\nHost A\n".to_string();
    let hosts = read_ssh_config("/h/.ssh/config", FileRead::Contents(text)).unwrap();
    assert_eq!(hosts[0].alias, "A");
    assert_eq!(
        read_ssh_config("/h/.ssh/config", FileRead::NotFound).unwrap_err(),
        "No /h/.ssh/config found."
    );
    assert_eq!(
        read_ssh_config("c", FileRead::Failed("denied".to_string())).unwrap_err(),
        "Failed to read c: denied"
    );
    assert_eq!(
        read_ssh_config("c", FileRead::Contents("Host *\n".to_string())).unwrap_err(),
        "c has no Host entries (or only wildcard defaults)."
    );
}

#[test]
fn bundles_are_found() {
    let paths = vec!["/Applications/A.app".to_string(), "/Applications/x.txt".to_string()];
    let apps = scan_applications(Platform::MacOs, &paths).unwrap();
    assert_eq!(apps.len(), 1);
    assert_eq!(apps[0].name, "A");
    assert_eq!(
        scan_applications(Platform::MacOs, &vec![]).unwrap_err(),
        "No .app bundles found in /Applications."
    );
    assert_eq!(
        scan_applications(Platform::Linux, &paths).unwrap_err(),
        "Launching applications is macOS-only."
    );
}

#[test]
fn terminals_open_on_programs() {
    let mac = docker_shell(Platform::MacOs, "ab\"c", None, false).unwrap();
    assert_eq!(
        argv(&mac.command),
        vec![
            "osascript",
            "-e",
            "tell application \"Terminal\" to do script \"exec docker exec -it ab\\\"c /bin/sh\"",
        ]
    );
    assert!(mac.waited);
    let linux = ssh_connect(Platform::Linux, "work", Some("iTerm"), true).unwrap();
    assert_eq!(argv(&linux.command), vec!["x-terminal-emulator", "-e", "ssh", "work"]);
    let windows = ssh_connect(Platform::Windows, "work", None, false).unwrap();
    assert_eq!(argv(&windows.command), vec!["cmd", "/C", "start", "cmd", "/K", "ssh work"]);
    assert_eq!(
        ssh_connect(Platform::Other, "work", None, false).unwrap_err(),
        "opening a terminal isn't supported on this platform"
    );
}

#[test]
fn terminals_open_in_folders() {
    let linux = open_claude_code(Platform::Linux, "/p", "helper", None, false).unwrap();
    assert_eq!(argv(&linux.command), vec!["x-terminal-emulator", "-e", "helper"]);
    assert_eq!(linux.command.dir.as_deref(), Some("/p"));
    let mac = open_claude_code(Platform::MacOs, "/p", "helper", None, false).unwrap();
    assert!(mac.command.args[1].contains("cd '/p' && exec helper"));
    assert!(open_terminal(Platform::Other, "/p", None, false).is_err());
    assert_eq!(argv(&open_terminal(Platform::Linux, "/p", None, false).unwrap().command).len(), 1);
    let action =
        run_file_action_in_terminal(Platform::Windows, "dir", "/p", None, false).unwrap();
    assert_eq!(action.command.args.last().map(|s| s.as_str()), Some("dir"));
    assert_eq!(argv(&shell_command(Platform::Linux, "ls | wc", "/p")), vec!["sh", "-c", "ls | wc"]);
    assert_eq!(argv(&shell_command(Platform::Windows, "dir", "/p")), vec!["cmd", "/C", "dir"]);
}

#[test]
fn terminal_app_setting() {
    assert_eq!(resolve_macos_terminal_app(Some(" Kitty "), true), "Kitty");
    assert_eq!(resolve_macos_terminal_app(Some("  "), true), "iTerm");
    assert_eq!(resolve_macos_terminal_app(None, false), "Terminal");
}

#[test]
fn launches_that_fail() {
    assert!(launch_result("Terminal", finished(true, "", "")).is_ok());
    assert_eq!(
        launch_result("Terminal", finished(false, "", "")).unwrap_err(),
        "Terminal did not open (exit status: 1)"
    );
    assert_eq!(
        launch_result("Terminal", finished(false, "", "Not authorized\n")).unwrap_err(),
        "Terminal: Not authorized"
    );
    assert_eq!(
        launch_result("cmd", RunOutcome::NotFound("e".to_string())).unwrap_err(),
        "failed to launch cmd: e"
    );
}

#[test]
fn editors_and_openers() {
    let run = |v, e| match open_in_editor(Platform::Linux, "/f", v, e) {
        EditWith::Run(c) => argv(&c).join(" "),
        EditWith::SystemDefault => "default".to_string(),
    };
    assert_eq!(run(Some("code -w"), Some("vi")), "code -w /f");
    assert_eq!(run(None, Some("vi")), "vi /f");
    assert_eq!(run(Some(""), Some("vi")), "default");
    assert_eq!(run(None, None), "default");
    assert!(matches!(open_in_editor(Platform::MacOs, "/f", None, None), EditWith::Run(_)));
    assert!(quick_look(Platform::Linux, "/f").is_none());
    assert_eq!(argv(&quick_look(Platform::MacOs, "/f").unwrap()), vec!["qlmanage", "-p", "/f"]);
    assert_eq!(argv(&launch_app(Platform::MacOs, "/A.app").unwrap()), vec!["open", "/A.app"]);
    assert!(launch_app(Platform::Linux, "/A.app").is_err());
    assert_eq!(argv(&folder_editor_command("subl", "/p")), vec!["subl", "/p"]);
}

#[test]
fn previews_tell_how_their_command_ended() {
    let end = |success: bool, stderr: &str| PreviewEnd::Finished {
        success,
        status: "exit status: 3".to_string(),
        stdout: "out".to_string(),
        stderr: stderr.to_string(),
    };
    assert_eq!(preview_result(end(true, "noise")), Ok("out".to_string()));
    assert_eq!(preview_result(end(false, " bad ")), Err("bad".to_string()));
    assert_eq!(preview_result(end(false, " ")), Err("exited with exit status: 3".to_string()));
    assert_eq!(preview_result(PreviewEnd::TimedOut), Err("timed out after 5 s".to_string()));
    assert_eq!(preview_result(PreviewEnd::Failed("x".to_string())), Err("x".to_string()));
}
