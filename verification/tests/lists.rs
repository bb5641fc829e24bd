use rho::apps::{Application, filtered_apps, sort_apps};
use rho::docker::{DockerContainer, DockerSortBy, filtered_containers, parse_docker_ps, sort_containers};
use rho::entry::SortDir;
use rho::git::{GitBranch, filtered_branches, parse_git_branches};
use rho::process::ProcessSortBy;
use rho::ssh::{SshServer, filtered_servers, parse_ssh_config, sort_servers};

fn mk_container(name: &str, image: &str, status: &str) -> DockerContainer {
    DockerContainer {
        id: format!("{}-id", name),
        name: name.to_string(),
        image: image.to_string(),
        status: status.to_string(),
    }
}

fn mk_app(name: &str) -> Application {
    Application {
        path: format!("/Applications/{}.app", name),
        name: name.to_string(),
    }
}

fn mk_branch(name: &str) -> GitBranch {
    GitBranch {
        name: name.to_string(),
        last_commit: "2026-05-21".to_string(),
    }
}

fn mk_server(alias: &str, host: Option<&str>) -> SshServer {
    SshServer {
        alias: alias.to_string(),
        hostname: host.map(|s| s.to_string()),
        user: None,
        identity_file: None,
    }
}

#[test]
fn parse_docker_ps_basic() {
    let stdout = "abc123|web|nginx:latest|Up 2 hours\n\
                      def456|db|postgres:15|Up 5 minutes (healthy)\n";
    let out = parse_docker_ps(stdout);
    assert_eq!(out.len(), 2);
    assert_eq!(out[0].id, "abc123");
    assert_eq!(out[0].name, "web");
    assert_eq!(out[0].image, "nginx:latest");
    assert_eq!(out[0].status, "Up 2 hours");
    assert_eq!(out[1].name, "db");
    assert_eq!(out[1].status, "Up 5 minutes (healthy)");
}

#[test]
fn parse_docker_ps_empty_returns_empty() {
    assert!(parse_docker_ps("").is_empty());
    // Trailing newline shouldn't produce a phantom row.
    assert!(parse_docker_ps("\n").is_empty());
}

#[test]
fn parse_docker_ps_skips_malformed_lines() {
    // Line 2 has fewer than 4 fields → skipped.
    let stdout = "abc|web|nginx|Up 1m\nshort|line\ndef|db|postgres|Up 2m\n";
    let out = parse_docker_ps(stdout);
    assert_eq!(out.len(), 2);
    assert_eq!(out[0].id, "abc");
    assert_eq!(out[1].id, "def");
}

#[test]
fn parse_docker_ps_preserves_pipes_after_third() {
    // Status strings can legitimately contain "|", and splitn(4) keeps
    // anything past the third pipe inside the status field.
    let stdout = "abc|web|nginx|Up 2 hours | restarting\n";
    let out = parse_docker_ps(stdout);
    assert_eq!(out.len(), 1);
    assert_eq!(out[0].status, "Up 2 hours | restarting");
}

#[test]
fn filtered_containers_matches_name_and_image() {
    let containers = vec![
        DockerContainer {
            id: "1".into(),
            name: "web".into(),
            image: "nginx".into(),
            status: "Up".into(),
        },
        DockerContainer {
            id: "2".into(),
            name: "db".into(),
            image: "postgres".into(),
            status: "Up".into(),
        },
    ];
    // Filter by name.
    let out = filtered_containers(&containers, "web");
    assert_eq!(out.len(), 1);
    assert_eq!(out[0].name, "web");
    // Filter by image.
    let out = filtered_containers(&containers, "postgres");
    assert_eq!(out.len(), 1);
    assert_eq!(out[0].name, "db");
    // Empty filter returns everything.
    let out = filtered_containers(&containers, "");
    assert_eq!(out.len(), 2);
    // No match.
    let out = filtered_containers(&containers, "zzz");
    assert!(out.is_empty());
}

#[test]
fn filtered_containers_is_case_insensitive() {
    let containers = vec![DockerContainer {
        id: "1".into(),
        name: "Web".into(),
        image: "Nginx".into(),
        status: "Up".into(),
    }];
    assert_eq!(filtered_containers(&containers, "WEB").len(), 1);
    assert_eq!(filtered_containers(&containers, "ngINX").len(), 1);
}

#[test]
fn docker_sort_by_initial_dir_is_asc() {
    // All text columns default to ascending so a "click Name" lands on A→Z.
    assert_eq!(DockerSortBy::Name.initial_dir(), SortDir::Asc);
    assert_eq!(DockerSortBy::Image.initial_dir(), SortDir::Asc);
    assert_eq!(DockerSortBy::Status.initial_dir(), SortDir::Asc);
}

#[test]
fn process_sort_by_initial_dir_picks_desc_for_numeric_columns() {
    assert_eq!(ProcessSortBy::Name.initial_dir(), SortDir::Asc);
    assert_eq!(ProcessSortBy::Pid.initial_dir(), SortDir::Desc);
    assert_eq!(ProcessSortBy::Cpu.initial_dir(), SortDir::Desc);
    assert_eq!(ProcessSortBy::Mem.initial_dir(), SortDir::Desc);
}

#[test]
fn sort_containers_by_name_case_insensitive() {
    let mut v = vec![
        mk_container("Bravo", "nginx", "Up"),
        mk_container("alpha", "redis", "Up"),
        mk_container("Charlie", "postgres", "Restarting"),
    ];
    sort_containers(&mut v, DockerSortBy::Name, SortDir::Asc);
    assert_eq!(v[0].name, "alpha");
    assert_eq!(v[1].name, "Bravo");
    assert_eq!(v[2].name, "Charlie");
}

#[test]
fn sort_containers_by_image_desc() {
    let mut v = vec![
        mk_container("a", "alpine", "Up"),
        mk_container("b", "ubuntu", "Up"),
        mk_container("c", "nginx", "Up"),
    ];
    sort_containers(&mut v, DockerSortBy::Image, SortDir::Desc);
    assert_eq!(v[0].image, "ubuntu");
    assert_eq!(v[1].image, "nginx");
    assert_eq!(v[2].image, "alpine");
}

#[test]
fn sort_containers_by_status() {
    let mut v = vec![
        mk_container("a", "alpine", "Up 5 min"),
        mk_container("b", "ubuntu", "Restarting"),
        mk_container("c", "nginx", "Exited"),
    ];
    sort_containers(&mut v, DockerSortBy::Status, SortDir::Asc);
    assert_eq!(v[0].status, "Exited");
    assert_eq!(v[1].status, "Restarting");
    assert_eq!(v[2].status, "Up 5 min");
}

#[test]
fn sort_apps_case_insensitive_by_name() {
    let mut v = vec![mk_app("Slack"), mk_app("calculator"), mk_app("Xcode")];
    sort_apps(&mut v);
    assert_eq!(v[0].name, "calculator");
    assert_eq!(v[1].name, "Slack");
    assert_eq!(v[2].name, "Xcode");
}

#[test]
fn filtered_apps_substring_matches() {
    let apps = vec![
        mk_app("Slack"),
        mk_app("Google Chrome"),
        mk_app("Terminal"),
    ];
    let out = filtered_apps(&apps, "chrome");
    assert_eq!(out.len(), 1);
    assert_eq!(out[0].name, "Google Chrome");
}

#[test]
fn filtered_apps_empty_returns_all() {
    let apps = vec![mk_app("Slack"), mk_app("Terminal")];
    let out = filtered_apps(&apps, "");
    assert_eq!(out.len(), 2);
}

#[test]
fn filtered_apps_is_case_insensitive() {
    let apps = vec![mk_app("Visual Studio Code")];
    assert_eq!(filtered_apps(&apps, "VISUAL").len(), 1);
    assert_eq!(filtered_apps(&apps, "code").len(), 1);
}

#[test]
fn filtered_apps_no_match_returns_empty() {
    let apps = vec![mk_app("Slack")];
    assert!(filtered_apps(&apps, "zzz").is_empty());
}

#[test]
fn parse_git_branches_basic() {
    // The `--sort=-committerdate` flag does the ordering before we see
    // the output, so the parser preserves arrival order.
    let stdout = "main|2026-05-21\nfeature/foo|2026-05-15\nold-branch|2024-01-02\n";
    let out = parse_git_branches(stdout);
    assert_eq!(out.len(), 3);
    assert_eq!(out[0].name, "main");
    assert_eq!(out[0].last_commit, "2026-05-21");
    assert_eq!(out[1].name, "feature/foo");
    assert_eq!(out[2].name, "old-branch");
    assert_eq!(out[2].last_commit, "2024-01-02");
}

#[test]
fn parse_git_branches_handles_slashes_in_name() {
    let stdout = "users/alice/feat-x|2026-05-20\n";
    let out = parse_git_branches(stdout);
    assert_eq!(out.len(), 1);
    assert_eq!(out[0].name, "users/alice/feat-x");
}

#[test]
fn parse_git_branches_skips_malformed_and_empty() {
    let stdout = "\nno-pipe-here\nmain|2026-05-21\n|2026-05-20\n";
    let out = parse_git_branches(stdout);
    assert_eq!(out.len(), 1);
    assert_eq!(out[0].name, "main");
}

#[test]
fn filtered_branches_substring_matches() {
    let branches = vec![mk_branch("main"), mk_branch("feature/foo"), mk_branch("bugfix")];
    let out = filtered_branches(&branches, "fea");
    assert_eq!(out.len(), 1);
    assert_eq!(out[0].name, "feature/foo");
}

#[test]
fn filtered_branches_empty_returns_all() {
    let branches = vec![mk_branch("main"), mk_branch("dev")];
    assert_eq!(filtered_branches(&branches, "").len(), 2);
}

#[test]
fn filtered_branches_is_case_insensitive() {
    let branches = vec![mk_branch("MAIN"), mk_branch("dev")];
    assert_eq!(filtered_branches(&branches, "main").len(), 1);
}

#[test]
fn parse_ssh_config_basic() {
    let cfg = "
Host alpha
    HostName alpha.example.com
    User alice
    IdentityFile ~/.ssh/id_rsa

Host beta
    HostName beta.example.com
    User bob
";
    let out = parse_ssh_config(cfg);
    assert_eq!(out.len(), 2);
    assert_eq!(out[0].alias, "alpha");
    assert_eq!(out[0].hostname.as_deref(), Some("alpha.example.com"));
    assert_eq!(out[0].user.as_deref(), Some("alice"));
    assert_eq!(out[0].identity_file.as_deref(), Some("~/.ssh/id_rsa"));
    assert_eq!(out[1].alias, "beta");
    assert_eq!(out[1].hostname.as_deref(), Some("beta.example.com"));
    assert_eq!(out[1].identity_file, None);
}

#[test]
fn parse_ssh_config_skips_pure_wildcard_blocks() {
    let cfg = "
Host *
    ServerAliveInterval 30
    IdentityFile ~/.ssh/id_ed25519

Host real
    HostName real.example.com
";
    let out = parse_ssh_config(cfg);
    assert_eq!(out.len(), 1);
    assert_eq!(out[0].alias, "real");
    // The defaults block's IdentityFile must NOT leak into `real`.
    assert!(out[0].identity_file.is_none());
}

#[test]
fn parse_ssh_config_picks_first_non_wildcard_pattern() {
    // "Host foo *.bar" → first non-wildcard is "foo".
    let cfg = "Host foo *.bar\n    HostName foo.example.com\n";
    let out = parse_ssh_config(cfg);
    assert_eq!(out.len(), 1);
    assert_eq!(out[0].alias, "foo");
}

#[test]
fn parse_ssh_config_handles_comments_and_case() {
    let cfg = "
# my work boxes
Host work
    hostname work.example.com
    USER carol
";
    let out = parse_ssh_config(cfg);
    assert_eq!(out.len(), 1);
    assert_eq!(out[0].hostname.as_deref(), Some("work.example.com"));
    assert_eq!(out[0].user.as_deref(), Some("carol"));
}

#[test]
fn parse_ssh_config_empty_returns_empty() {
    assert!(parse_ssh_config("").is_empty());
    assert!(parse_ssh_config("\n# only comments\n").is_empty());
}

#[test]
fn sort_servers_case_insensitive_by_alias() {
    let mut v = vec![
        mk_server("Zeta", None),
        mk_server("alpha", None),
        mk_server("Beta", None),
    ];
    sort_servers(&mut v);
    assert_eq!(v[0].alias, "alpha");
    assert_eq!(v[1].alias, "Beta");
    assert_eq!(v[2].alias, "Zeta");
}

#[test]
fn filtered_servers_matches_alias_or_hostname() {
    let v = vec![
        mk_server("work", Some("work.example.com")),
        mk_server("home", Some("home.lan")),
    ];
    // Alias match.
    let out = filtered_servers(&v, "work");
    assert_eq!(out.len(), 1);
    assert_eq!(out[0].alias, "work");
    // Hostname match.
    let out = filtered_servers(&v, "lan");
    assert_eq!(out.len(), 1);
    assert_eq!(out[0].alias, "home");
    // Empty filter returns all.
    assert_eq!(filtered_servers(&v, "").len(), 2);
    // No match.
    assert!(filtered_servers(&v, "zzz").is_empty());
}

#[test]
fn filtered_servers_is_case_insensitive() {
    let v = vec![mk_server("Work", Some("EXAMPLE.com"))];
    assert_eq!(filtered_servers(&v, "WORK").len(), 1);
    assert_eq!(filtered_servers(&v, "example").len(), 1);
}
