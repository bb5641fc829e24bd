//! The programs that are run, and what their endings mean.

use vstd::prelude::*;
use crate::apps::Application;
use crate::config::DropboxAuth;
use crate::docker::{container_views, containers_of, parse_docker_ps, DockerContainer};
use crate::dropbox::{path_body, path_json, upload_arg, upload_json};
use crate::entry::Entry;
use crate::filtering::mapped_some;
use crate::git::{branch_views, branches_of, parse_git_branches, GitBranch};
use crate::listing::{entry_views, listed_entries, ls_entry, parse_ls_la, EntryView};
use crate::location::BackendId;
use crate::palette::{detect_archive_format, format_of_lower, ArchiveFormat, Platform};
use crate::path::{extension_of, extension_of_name, file_name, file_name_of, stem_of, stem_of_name};
use crate::process::{parse_ps_rows, ps_rows_of, ps_views, PsRow};
use crate::quoting::{quote_remote_path, remote_quoted};
use crate::ssh::{closed_hosts, config_fold, parse_ssh_config, server_less, server_views};
use crate::ssh::{sort_servers, ServerView, SshServer};
use crate::sorting::sorted_stably;
use crate::text::{chars_of, concat2, concat3, decimal, decimal_text, lines, lowercase, same_text};
use crate::text::{string_from, texts, trim, trim_text};

verus! {

/// A program to run, without a shell.
#[derive(Debug)]
pub struct CommandLine {
    pub program: String,
    pub args: Vec<String>,
    /// The directory that it runs in, unless it is that of the application.
    pub dir: Option<String>,
}

/// A command as plain values.
#[verifier::ext_equal]
pub struct CommandView {
    pub program: Seq<char>,
    pub args: Seq<Seq<char>>,
    pub dir: Option<Seq<char>>,
}

impl View for CommandLine {
    type V = CommandView;

    open spec fn view(&self) -> CommandView {
        CommandView {
            program: self.program@,
            args: texts(self.args@),
            dir: match self.dir {
                Some(d) => Some(d@),
                None => None,
            },
        }
    }
}

/// The command of a program and its arguments.
pub open spec fn run(program: Seq<char>, args: Seq<Seq<char>>) -> CommandView {
    CommandView { program, args, dir: None }
}

impl CommandLine {
    pub fn new(program: &str) -> (r: CommandLine)
        ensures
            r@ == run(program@, seq![]),
    {
        let args: Vec<String> = Vec::new();
        assert(texts(args@) =~= seq![]);
        CommandLine { program: string_from(program), args, dir: None }
    }

    /// The command with one more argument.
    pub fn arg(self, a: &str) -> (r: CommandLine)
        ensures
            r@ == (CommandView { args: self@.args.push(a@), ..self@ }),
    {
        let mut c = self;
        c.args.push(string_from(a));
        assert(texts(c.args@) =~= self@.args.push(a@));
        c
    }

    /// The command, run in a directory.
    pub fn in_dir(self, d: &str) -> (r: CommandLine)
        ensures
            r@ == (CommandView { dir: Some(d@), ..self@ }),
    {
        CommandLine { program: self.program, args: self.args, dir: Some(string_from(d)) }
    }
}

/// How a program ended.
#[derive(Debug)]
pub enum RunOutcome {
    /// There is no such program; the system's message.
    NotFound(String),
    /// It could not be started; the system's message.
    Failed(String),
    Finished { success: bool, status: String, stdout: String, stderr: String },
}

/// The message of a program that failed: what it said, or its status.
pub open spec fn failure_text(name: Seq<char>, status: Seq<char>, stderr: Seq<char>) -> Seq<char> {
    if trim(stderr).len() == 0 {
        name + " exited with status "@ + status
    } else {
        trim(stderr)
    }
}

fn failure_message(name: &str, status: &str, stderr: &str) -> (r: String)
    ensures
        r@ == failure_text(name@, status@, stderr@),
{
    let said = trim_text(stderr);
    let v = chars_of(said.as_str());
    if v.len() == 0 {
        concat3(name, " exited with status ", status)
    } else {
        said
    }
}

/// A name in backticks.
pub open spec fn ticked(label: Seq<char>) -> Seq<char> {
    "`"@ + label + "`"@
}

fn ticked_text(label: &str) -> (r: String)
    ensures
        r@ == ticked(label@),
{
    concat3("`", label, "`")
}

/// What a program has printed, or why there is nothing. `missing` is the
/// message for a program that is not installed, where it has one of its own.
pub open spec fn printed(
    label: Seq<char>,
    missing: Option<Seq<char>>,
    outcome: RunOutcome,
) -> Result<Seq<char>, Seq<char>> {
    match outcome {
        RunOutcome::NotFound(e) => match missing {
            Some(m) => Err(m),
            None => Err("failed to run "@ + ticked(label) + ": "@ + e@),
        },
        RunOutcome::Failed(e) => Err("failed to run "@ + ticked(label) + ": "@ + e@),
        RunOutcome::Finished { success, status, stdout, stderr } => if success {
            Ok(stdout@)
        } else {
            Err(failure_text(ticked(label), status@, stderr@))
        },
    }
}

/// A result of texts as plain values.
pub open spec fn text_result(r: Result<String, String>) -> Result<Seq<char>, Seq<char>> {
    match r {
        Ok(s) => Ok(s@),
        Err(e) => Err(e@),
    }
}

/// A result without a value as plain values.
pub open spec fn unit_result(r: Result<(), String>) -> Result<(), Seq<char>> {
    match r {
        Ok(_) => Ok(()),
        Err(e) => Err(e@),
    }
}

/// A result whose value no longer matters.
pub open spec fn done(r: Result<Seq<char>, Seq<char>>) -> Result<(), Seq<char>> {
    match r {
        Ok(_) => Ok(()),
        Err(e) => Err(e),
    }
}

/// What a program has printed, or why there is nothing.
pub fn command_result(label: &str, missing: Option<&str>, outcome: RunOutcome) -> (r: Result<
    String,
    String,
>)
    ensures
        text_result(r) == printed(
            label@,
            match missing {
                Some(m) => Some(m@),
                None => None,
            },
            outcome,
        ),
{
    let name = ticked_text(label);
    match outcome {
        RunOutcome::NotFound(e) => match missing {
            Some(m) => Err(string_from(m)),
            None => {
                let mut t = concat3("failed to run ", name.as_str(), ": ");
                t.push_str(e.as_str());
                Err(t)
            },
        },
        RunOutcome::Failed(e) => {
            let mut t = concat3("failed to run ", name.as_str(), ": ");
            t.push_str(e.as_str());
            Err(t)
        },
        RunOutcome::Finished { success, status, stdout, stderr } => if success {
            Ok(stdout)
        } else {
            Err(failure_message(name.as_str(), status.as_str(), stderr.as_str()))
        },
    }
}

fn unit(r: Result<String, String>) -> (q: Result<(), String>)
    ensures
        unit_result(q) == done(text_result(r)),
{
    match r {
        Ok(_) => Ok(()),
        Err(e) => Err(e),
    }
}

// ---- Docker ----------------------------------------------------------------

/// The columns that `docker ps` prints.
pub const DOCKER_PS_FORMAT: &'static str = "{{.ID}}|{{.Names}}|{{.Image}}|{{.Status}}";

/// The message where Docker is not installed.
pub const NO_DOCKER: &'static str = "Docker doesn't appear to be installed (no `docker` binary in PATH).";

/// The command that lists the running containers.
pub fn docker_ps_command() -> (r: CommandLine)
    ensures
        r@ == run("docker"@, seq!["ps"@, "--format"@, DOCKER_PS_FORMAT@]),
{
    CommandLine::new("docker").arg("ps").arg("--format").arg(DOCKER_PS_FORMAT)
}

/// The running containers, or why they are unknown.
pub fn run_docker_ps(outcome: RunOutcome) -> (r: Result<Vec<DockerContainer>, String>)
    ensures
        match printed("docker ps"@, Some(NO_DOCKER@), outcome) {
            Ok(out) => r matches Ok(v) && container_views(v@) == containers_of(out),
            Err(e) => r matches Err(m) && m@ == e,
        },
{
    match command_result("docker ps", Some(NO_DOCKER), outcome) {
        Ok(out) => Ok(parse_docker_ps(out.as_str())),
        Err(e) => Err(e),
    }
}

/// The command that kills a container.
pub open spec fn killing(id: Seq<char>) -> CommandView {
    run("docker"@, seq!["kill"@, id])
}

/// The command that kills a container.
pub fn docker_kill_command(id: &str) -> (r: CommandLine)
    ensures
        r@ == killing(id@),
{
    CommandLine::new("docker").arg("kill").arg(id)
}

/// Whether a container was killed.
pub fn run_docker_kill(outcome: RunOutcome) -> (r: Result<(), String>)
    ensures
        unit_result(r) == done(printed("docker kill"@, None, outcome)),
{
    unit(command_result("docker kill", None, outcome))
}

// ---- Processes -------------------------------------------------------------

/// The command that lists the processes, where there is one.
pub fn ps_command(platform: Platform) -> (r: Result<CommandLine, String>)
    ensures
        if platform == Platform::Windows {
            r matches Err(e) && e@
                == "Process listing isn't supported on this platform yet (needs tasklist/WMIC plumbing)."@
        } else {
            r matches Ok(c) && c@ == run("ps"@, seq!["-axo"@, "pid=,pcpu=,pmem=,comm="@])
        },
{
    if platform == Platform::Windows {
        Err(
            string_from(
                "Process listing isn't supported on this platform yet (needs tasklist/WMIC plumbing).",
            ),
        )
    } else {
        Ok(CommandLine::new("ps").arg("-axo").arg("pid=,pcpu=,pmem=,comm="))
    }
}

/// The columns of the running processes, or why they are unknown.
pub fn run_ps(outcome: RunOutcome) -> (r: Result<Vec<PsRow>, String>)
    ensures
        match printed("ps"@, None, outcome) {
            Ok(out) => r matches Ok(v) && ps_views(v@) == ps_rows_of(out),
            Err(e) => r matches Err(m) && m@ == e,
        },
{
    match command_result("ps", None, outcome) {
        Ok(out) => Ok(parse_ps_rows(out.as_str())),
        Err(e) => Err(e),
    }
}

/// The command that asks a process to end, where there is one.
pub open spec fn ending(platform: Platform, pid: nat) -> Result<CommandView, Seq<char>> {
    if platform == Platform::Windows {
        Err("Killing processes isn't supported on this platform yet."@)
    } else {
        Ok(run("kill"@, seq![decimal(pid)]))
    }
}

/// A command, or why there is none, as plain values.
pub open spec fn command_view(r: Result<CommandLine, String>) -> Result<CommandView, Seq<char>> {
    match r {
        Ok(c) => Ok(c@),
        Err(e) => Err(e@),
    }
}

/// The command that asks a process to end, where there is one.
pub fn kill_command(platform: Platform, pid: u32) -> (r: Result<CommandLine, String>)
    ensures
        command_view(r) == ending(platform, pid as nat),
{
    if platform == Platform::Windows {
        Err(string_from("Killing processes isn't supported on this platform yet."))
    } else {
        let p = decimal_text(pid as u64);
        Ok(CommandLine::new("kill").arg(p.as_str()))
    }
}

/// Whether a process was asked to end.
pub fn run_kill(outcome: RunOutcome) -> (r: Result<(), String>)
    ensures
        unit_result(r) == done(printed("kill"@, None, outcome)),
{
    unit(command_result("kill", None, outcome))
}

// ---- Git -------------------------------------------------------------------

/// The command that lists the branches of a repository, the one with the
/// latest commit first.
pub fn git_branches_command(repo: &str) -> (r: CommandLine)
    ensures
        r@ == run(
            "git"@,
            seq![
                "-C"@,
                repo@,
                "for-each-ref"@,
                "--sort=-committerdate"@,
                "refs/heads/"@,
                "--format=%(refname:short)|%(committerdate:short)"@,
            ],
        ),
{
    CommandLine::new("git").arg("-C").arg(repo).arg("for-each-ref").arg(
        "--sort=-committerdate",
    ).arg("refs/heads/").arg("--format=%(refname:short)|%(committerdate:short)")
}

/// The branches of a repository, or why they are unknown.
pub fn run_git_branches(outcome: RunOutcome) -> (r: Result<Vec<GitBranch>, String>)
    ensures
        match printed(
            "git for-each-ref"@,
            Some("`git` isn't installed (not found in PATH)."@),
            outcome,
        ) {
            Ok(out) => r matches Ok(v) && branch_views(v@) == branches_of(out),
            Err(e) => r matches Err(m) && m@ == e,
        },
{
    match command_result(
        "git for-each-ref",
        Some("`git` isn't installed (not found in PATH)."),
        outcome,
    ) {
        Ok(out) => Ok(parse_git_branches(out.as_str())),
        Err(e) => Err(e),
    }
}

/// The command that checks out a branch.
pub open spec fn checking_out(repo: Seq<char>, branch: Seq<char>) -> CommandView {
    run("git"@, seq!["-C"@, repo, "checkout"@, branch])
}

/// The command that checks out a branch of a repository.
pub fn git_checkout_command(repo: &str, branch: &str) -> (r: CommandLine)
    ensures
        r@ == checking_out(repo@, branch@),
{
    CommandLine::new("git").arg("-C").arg(repo).arg("checkout").arg(branch)
}

/// Whether a branch was checked out.
pub fn run_git_checkout(outcome: RunOutcome) -> (r: Result<(), String>)
    ensures
        unit_result(r) == done(printed("git checkout"@, None, outcome)),
{
    unit(command_result("git checkout", None, outcome))
}

/// The command that prints the current branch; it fails outside repositories.
pub fn git_branch_command(dir: &str) -> (r: CommandLine)
    ensures
        r@ == run("git"@, seq!["-C"@, dir@, "branch"@, "--show-current"@]),
{
    CommandLine::new("git").arg("-C").arg(dir).arg("branch").arg("--show-current")
}

/// The command that prints what is uncommitted.
pub fn git_status_command(dir: &str) -> (r: CommandLine)
    ensures
        r@ == run("git"@, seq!["-C"@, dir@, "status"@, "--porcelain"@, "--no-renames"@]),
{
    CommandLine::new("git").arg("-C").arg(dir).arg("status").arg("--porcelain").arg("--no-renames")
}

/// The command that counts the commits ahead of and behind the upstream.
pub fn git_counts_command(dir: &str) -> (r: CommandLine)
    ensures
        r@ == run(
            "git"@,
            seq!["-C"@, dir@, "rev-list"@, "--count"@, "--left-right"@, "HEAD...@{u}"@],
        ),
{
    CommandLine::new("git").arg("-C").arg(dir).arg("rev-list").arg("--count").arg(
        "--left-right",
    ).arg("HEAD...@{u}")
}

/// What a git probe has printed; nothing if it failed.
pub fn run_git(outcome: RunOutcome) -> (r: Option<String>)
    ensures
        match outcome {
            RunOutcome::Finished { success, stdout, .. } => if success {
                r == Some(stdout)
            } else {
                r is None
            },
            _ => r is None,
        },
{
    match outcome {
        RunOutcome::Finished { success, status: _, stdout, stderr: _ } => if success {
            Some(stdout)
        } else {
            None
        },
        _ => None,
    }
}

// ---- Archives --------------------------------------------------------------

/// The index of the first path without a file name, or the length.
pub open spec fn first_unnamed(srcs: Seq<String>) -> int
    decreases srcs.len(),
{
    if srcs.len() == 0 || file_name(srcs[0]@) is None {
        0
    } else {
        1 + first_unnamed(srcs.skip(1))
    }
}

/// The file names of paths.
pub open spec fn names_of(srcs: Seq<String>) -> Seq<Seq<char>> {
    Seq::new(srcs.len(), |i: int| file_name(srcs[i]@)->Some_0)
}

/// The command that packs files into an archive. The names are those inside
/// the directory that it runs in.
pub open spec fn packing(srcs: Seq<String>, output: Seq<char>, working_dir: Seq<char>) -> Result<
    CommandView,
    Seq<char>,
> {
    let i = first_unnamed(srcs);
    if i < srcs.len() {
        Err("source has no file name: "@ + srcs[i]@)
    } else {
        Ok(
            CommandView {
                program: "zip"@,
                args: seq!["-r"@, output] + names_of(srcs),
                dir: Some(working_dir),
            },
        )
    }
}

/// The command that packs files into an archive.
pub fn zip_command(srcs: &Vec<String>, output: &str, working_dir: &str) -> (r: Result<
    CommandLine,
    String,
>)
    ensures
        command_view(r) == packing(srcs@, output@, working_dir@),
{
    let ghost base = seq!["-r"@, output@];
    let mut c = CommandLine::new("zip").in_dir(working_dir).arg("-r").arg(output);
    let mut i: usize = 0;
    assert(srcs@.skip(0) =~= srcs@);
    assert(c@.args =~= base + names_of(srcs@.take(0)));
    while i < srcs.len()
        invariant
            i <= srcs@.len(),
            first_unnamed(srcs@) == i + first_unnamed(srcs@.skip(i as int)),
            c@.program == "zip"@,
            c@.dir == Some(working_dir@),
            c@.args == base + names_of(srcs@.take(i as int)),
            forall|k: int| 0 <= k < i ==> file_name((#[trigger] srcs@[k])@) is Some,
        decreases srcs.len() - i,
    {
        let name = file_name_of(srcs[i].as_str());
        proof {
            assert(srcs@.skip(i as int)[0] == srcs@[i as int]);
        }
        match name {
            None => {
                return Err(concat2("source has no file name: ", srcs[i].as_str()));
            },
            Some(n) => {
                c = c.arg(n.as_str());
                proof {
                    assert(srcs@.skip(i as int).skip(1) =~= srcs@.skip(i + 1));
                    assert(c@.args =~= base + names_of(srcs@.take(i + 1)));
                }
            },
        }
        i += 1;
    }
    assert(srcs@.take(i as int) =~= srcs@);
    assert(srcs@.skip(i as int) =~= seq![]);
    Ok(c)
}

/// Whether files were packed.
pub fn run_zip(outcome: RunOutcome) -> (r: Result<(), String>)
    ensures
        unit_result(r) == done(
            printed("zip"@, Some("`zip` isn't installed (not found in PATH)."@), outcome),
        ),
{
    unit(command_result("zip", Some("`zip` isn't installed (not found in PATH)."), outcome))
}

/// The name that the format of an archive is told by.
pub open spec fn archive_name(archive: Seq<char>) -> Seq<char> {
    match file_name(archive) {
        Some(n) => n,
        None => seq![],
    }
}

/// The command that unpacks an archive into a directory.
pub open spec fn unpacking(archive: Seq<char>, dest: Seq<char>) -> Result<CommandView, Seq<char>> {
    match format_of_lower(lowercase(archive_name(archive))) {
        None => Err(
            "unsupported archive format: "@ + archive_name(archive)
                + " (only .zip / .tar.gz / .tgz)"@,
        ),
        Some(ArchiveFormat::Zip) => Ok(run("unzip"@, seq![archive, "-d"@, dest])),
        Some(ArchiveFormat::TarGz) => Ok(run("tar"@, seq!["-xzf"@, archive, "-C"@, dest])),
    }
}

/// The command that unpacks an archive into a directory.
pub fn extract_command(archive: &str, dest: &str) -> (r: Result<CommandLine, String>)
    ensures
        command_view(r) == unpacking(archive@, dest@),
{
    let name = match file_name_of(archive) {
        Some(n) => n,
        None => String::new(),
    };
    assert(name@ =~= archive_name(archive@));
    match detect_archive_format(name.as_str()) {
        None => Err(
            concat3(
                "unsupported archive format: ",
                name.as_str(),
                " (only .zip / .tar.gz / .tgz)",
            ),
        ),
        Some(ArchiveFormat::Zip) => {
            let c = CommandLine::new("unzip").arg(archive).arg("-d").arg(dest);
            assert(c@ =~= run("unzip"@, seq![archive@, "-d"@, dest@]));
            Ok(c)
        },
        Some(ArchiveFormat::TarGz) => {
            let c = CommandLine::new("tar").arg("-xzf").arg(archive).arg("-C").arg(dest);
            assert(c@ =~= run("tar"@, seq!["-xzf"@, archive@, "-C"@, dest@]));
            Ok(c)
        },
    }
}

/// Whether an archive was unpacked by this program.
pub fn run_extract(program: &str, outcome: RunOutcome) -> (r: Result<(), String>)
    ensures
        unit_result(r) == done(
            printed(
                program@,
                Some(ticked(program@) + " isn't installed (not found in PATH)."@),
                outcome,
            ),
        ),
{
    let name = ticked_text(program);
    let missing = concat2(name.as_str(), " isn't installed (not found in PATH).");
    unit(command_result(program, Some(missing.as_str()), outcome))
}

// ---- Remote hosts ----------------------------------------------------------

/// Whether a remote program has done its work, or why not.
pub open spec fn remote_result(program: Seq<char>, outcome: RunOutcome) -> Result<(), Seq<char>> {
    match outcome {
        RunOutcome::NotFound(e) => Err("failed to spawn "@ + program + ": "@ + e@),
        RunOutcome::Failed(e) => Err("failed to spawn "@ + program + ": "@ + e@),
        RunOutcome::Finished { success, status, stderr, .. } => if success {
            Ok(())
        } else {
            Err(failure_text(program, status@, stderr@))
        },
    }
}

fn remote_done(program: &str, outcome: RunOutcome) -> (r: Result<(), String>)
    ensures
        unit_result(r) == remote_result(program@, outcome),
{
    match outcome {
        RunOutcome::NotFound(e) => {
            let mut t = concat3("failed to spawn ", program, ": ");
            t.push_str(e.as_str());
            Err(t)
        },
        RunOutcome::Failed(e) => {
            let mut t = concat3("failed to spawn ", program, ": ");
            t.push_str(e.as_str());
            Err(t)
        },
        RunOutcome::Finished { success, status, stdout: _, stderr } => if success {
            Ok(())
        } else {
            Err(failure_message(program, status.as_str(), stderr.as_str()))
        },
    }
}

/// The command that runs a batch, read from its input, on a host.
pub fn sftp_command(backend: &str) -> (r: CommandLine)
    ensures
        r@ == run("sftp"@, seq!["-b"@, "-"@, "-o"@, "BatchMode=yes"@, backend@]),
{
    CommandLine::new("sftp").arg("-b").arg("-").arg("-o").arg("BatchMode=yes").arg(backend)
}

/// Whether a batch was run.
pub fn run_sftp_batch(outcome: RunOutcome) -> (r: Result<(), String>)
    ensures
        unit_result(r) == remote_result("sftp"@, outcome),
{
    remote_done("sftp", outcome)
}

/// A command for a host's shell.
pub open spec fn on_host(backend: Seq<char>, command: Seq<char>) -> CommandView {
    run("ssh"@, seq!["-o"@, "BatchMode=yes"@, backend, "--"@, command])
}

/// The command that runs a command on a host.
pub fn ssh_command(backend: &str, remote_cmd: &str) -> (r: CommandLine)
    ensures
        r@ == on_host(backend@, remote_cmd@),
{
    CommandLine::new("ssh").arg("-o").arg("BatchMode=yes").arg(backend).arg("--").arg(remote_cmd)
}

/// Whether a command was run on a host.
pub fn run_ssh_command(outcome: RunOutcome) -> (r: Result<(), String>)
    ensures
        unit_result(r) == remote_result("ssh"@, outcome),
{
    remote_done("ssh", outcome)
}

/// The command that lists a directory of a host.
pub open spec fn listing_on(backend: Seq<char>, path: Seq<char>) -> CommandView {
    on_host(backend, "ls -la --time-style=full-iso -- "@ + remote_quoted(path))
}

/// The command that lists a directory of a host.
pub fn remote_ls_command(backend: &BackendId, path: &str) -> (r: CommandLine)
    ensures
        r@ == listing_on(backend@, path@),
{
    let q = quote_remote_path(path);
    let cmd = concat2("ls -la --time-style=full-iso -- ", q.as_str());
    ssh_command(backend.as_str(), cmd.as_str())
}

/// The entries of a directory of a host; none if it could not be listed.
pub open spec fn remote_entries(outcome: RunOutcome) -> Seq<EntryView> {
    match outcome {
        RunOutcome::Finished { success, stdout, .. } => if success {
            listed_entries(stdout@)
        } else {
            seq![]
        },
        _ => seq![],
    }
}

/// The entries of a directory of a host; none if it could not be listed.
pub fn run_remote_ls(outcome: &RunOutcome) -> (r: Vec<Entry>)
    ensures
        entry_views(r@) == remote_entries(*outcome),
{
    proof {
        assert(entry_views(Seq::empty()) =~= seq![]);
    }
    match outcome {
        RunOutcome::Finished { success, status: _, stdout, stderr: _ } => if *success {
            parse_ls_la(stdout.as_str())
        } else {
            Vec::new()
        },
        _ => Vec::new(),
    }
}

// ---- Dropbox ---------------------------------------------------------------

/// The arguments of a request, between those that every request has.
pub open spec fn curl(args: Seq<Seq<char>>) -> CommandView {
    run("curl"@, (seq!["-s"@, "-S"@] + args).push("-w"@).push("\n%{http_code}"@))
}

fn start_curl(url: &str) -> (r: CommandLine)
    ensures
        r@ == run("curl"@, seq!["-s"@, "-S"@, "-X"@, "POST"@, url@]),
{
    CommandLine::new("curl").arg("-s").arg("-S").arg("-X").arg("POST").arg(url)
}

fn end_curl(c: CommandLine, Ghost(args): Ghost<Seq<Seq<char>>>) -> (r: CommandLine)
    requires
        c@ == run("curl"@, seq!["-s"@, "-S"@] + args),
    ensures
        r@ == curl(args),
{
    c.arg("-w").arg("\n%{http_code}")
}

/// The header that carries the access token.
pub open spec fn bearer(token: Seq<char>) -> Seq<char> {
    "Authorization: Bearer "@ + token
}

/// The request that calls an endpoint of the API.
pub fn dropbox_rpc(token: &str, endpoint: &str, body: &str) -> (r: CommandLine)
    ensures
        r@ == curl(
            seq![
                "-X"@,
                "POST"@,
                "https://api.dropboxapi.com/2/"@ + endpoint@,
                "-H"@,
                bearer(token@),
                "-H"@,
                "Content-Type: application/json"@,
                "-d"@,
                body@,
            ],
        ),
{
    let url = concat2("https://api.dropboxapi.com/2/", endpoint);
    let auth = concat2("Authorization: Bearer ", token);
    let c = start_curl(url.as_str()).arg("-H").arg(auth.as_str()).arg("-H").arg(
        "Content-Type: application/json",
    ).arg("-d").arg(body);
    let ghost args = seq![
        "-X"@,
        "POST"@,
        url@,
        "-H"@,
        auth@,
        "-H"@,
        "Content-Type: application/json"@,
        "-d"@,
        body@,
    ];
    assert(c@.args =~= seq!["-s"@, "-S"@] + args);
    end_curl(c, Ghost(args))
}

/// The request that sends a local file to an API path.
pub fn dropbox_upload_file(token: &str, local: &str, api: &str) -> (r: CommandLine)
    ensures
        r@ == curl(
            seq![
                "-X"@,
                "POST"@,
                "https://content.dropboxapi.com/2/files/upload"@,
                "-H"@,
                bearer(token@),
                "-H"@,
                "Dropbox-API-Arg: "@ + upload_json(api@),
                "-H"@,
                "Content-Type: application/octet-stream"@,
                "--data-binary"@,
                "@"@ + local@,
            ],
        ),
{
    let auth = concat2("Authorization: Bearer ", token);
    let json = upload_arg(api);
    let arg = concat2("Dropbox-API-Arg: ", json.as_str());
    let data = concat2("@", local);
    let c = start_curl("https://content.dropboxapi.com/2/files/upload").arg("-H").arg(
        auth.as_str(),
    ).arg("-H").arg(arg.as_str()).arg("-H").arg("Content-Type: application/octet-stream").arg(
        "--data-binary",
    ).arg(data.as_str());
    let ghost args = seq![
        "-X"@,
        "POST"@,
        "https://content.dropboxapi.com/2/files/upload"@,
        "-H"@,
        auth@,
        "-H"@,
        arg@,
        "-H"@,
        "Content-Type: application/octet-stream"@,
        "--data-binary"@,
        data@,
    ];
    assert(c@.args =~= seq!["-s"@, "-S"@] + args);
    end_curl(c, Ghost(args))
}

/// The request that fetches an API path into a local file.
pub fn dropbox_download_file(token: &str, api: &str, local: &str) -> (r: CommandLine)
    ensures
        r@ == curl(
            seq![
                "-X"@,
                "POST"@,
                "https://content.dropboxapi.com/2/files/download"@,
                "-H"@,
                bearer(token@),
                "-H"@,
                "Dropbox-API-Arg: "@ + path_json(api@),
                "-o"@,
                local@,
            ],
        ),
{
    let auth = concat2("Authorization: Bearer ", token);
    let json = path_body(api);
    let arg = concat2("Dropbox-API-Arg: ", json.as_str());
    let c = start_curl("https://content.dropboxapi.com/2/files/download").arg("-H").arg(
        auth.as_str(),
    ).arg("-H").arg(arg.as_str()).arg("-o").arg(local);
    let ghost args = seq![
        "-X"@,
        "POST"@,
        "https://content.dropboxapi.com/2/files/download"@,
        "-H"@,
        auth@,
        "-H"@,
        arg@,
        "-o"@,
        local@,
    ];
    assert(c@.args =~= seq!["-s"@, "-S"@] + args);
    end_curl(c, Ghost(args))
}

/// The form that asks for an access token.
pub open spec fn refresh_form(auth: DropboxAuth) -> Seq<Seq<char>> {
    let form = seq![
        "-X"@,
        "POST"@,
        "https://api.dropbox.com/oauth2/token"@,
        "-d"@,
        "grant_type=refresh_token"@,
        "-d"@,
        "refresh_token="@ + auth.refresh_token@,
        "-d"@,
        "client_id="@ + auth.app_key@,
    ];
    match auth.app_secret {
        Some(s) => form.push("-d"@).push("client_secret="@ + s@),
        None => form,
    }
}

/// The request that asks for an access token.
pub fn dropbox_exchange_refresh(auth: &DropboxAuth) -> (r: CommandLine)
    ensures
        r@ == curl(refresh_form(*auth)),
{
    let refresh = concat2("refresh_token=", auth.refresh_token.as_str());
    let client_id = concat2("client_id=", auth.app_key.as_str());
    let c = start_curl("https://api.dropbox.com/oauth2/token").arg("-d").arg(
        "grant_type=refresh_token",
    ).arg("-d").arg(refresh.as_str()).arg("-d").arg(client_id.as_str());
    let c = match &auth.app_secret {
        Some(s) => {
            let secret = concat2("client_secret=", s.as_str());
            c.arg("-d").arg(secret.as_str())
        },
        None => c,
    };
    assert(c@.args =~= seq!["-s"@, "-S"@] + refresh_form(*auth));
    end_curl(c, Ghost(refresh_form(*auth)))
}

// ---- Configured hosts and applications -------------------------------------

/// How many seconds the command of a preview may take.
pub const PREVIEW_SECONDS: u64 = 5;

/// How the command of a preview ended. Its texts are cut already.
#[derive(Debug)]
#[allow(inconsistent_fields)]
pub enum PreviewEnd {
    /// It could not be run; the system's message.
    Failed(String),
    TimedOut,
    Finished { success: bool, status: String, stdout: String, stderr: String },
}

/// What a preview shows: what its command printed, or why there is nothing.
pub open spec fn previewed(end: PreviewEnd) -> Result<Seq<char>, Seq<char>> {
    match end {
        PreviewEnd::Failed(e) => Err(e@),
        PreviewEnd::TimedOut => Err("timed out after "@ + decimal(PREVIEW_SECONDS as nat) + " s"@),
        PreviewEnd::Finished { success, status, stdout, stderr } => if success {
            Ok(stdout@)
        } else if trim(stderr@).len() == 0 {
            Err("exited with "@ + status@)
        } else {
            Err(trim(stderr@))
        },
    }
}

/// What a preview shows: what its command printed, or why there is nothing.
pub fn preview_result(end: PreviewEnd) -> (r: Result<String, String>)
    ensures
        text_result(r) == previewed(end),
{
    match end {
        PreviewEnd::Failed(e) => Err(e),
        PreviewEnd::TimedOut => {
            let n = decimal_text(PREVIEW_SECONDS);
            Err(concat3("timed out after ", n.as_str(), " s"))
        },
        PreviewEnd::Finished { success, status, stdout, stderr } => if success {
            Ok(stdout)
        } else {
            let t = trim_text(stderr.as_str());
            if t.as_str().is_empty() {
                Err(concat2("exited with ", status.as_str()))
            } else {
                Err(t)
            }
        },
    }
}

/// What came of reading a file.
#[derive(Debug)]
pub enum FileRead {
    NotFound,
    /// The system's message.
    Failed(String),
    Contents(String),
}

/// The hosts of an ssh configuration, sorted, or why there are none to show.
pub open spec fn config_read(
    path: Seq<char>,
    read: FileRead,
    r: Result<Vec<SshServer>, String>,
) -> bool {
    match read {
        FileRead::NotFound => r matches Err(e) && e@ == "No "@ + path + " found."@,
        FileRead::Failed(m) => r matches Err(e) && e@ == "Failed to read "@ + path + ": "@ + m@,
        FileRead::Contents(text) => if closed_hosts(config_fold(lines(text@))).len() == 0 {
            r matches Err(e) && e@ == path + " has no Host entries (or only wildcard defaults)."@
        } else {
            r matches Ok(v) && exists|parsed: Seq<SshServer>|
                #[trigger] server_views(parsed) == closed_hosts(config_fold(lines(text@)))
                    && sorted_stably(parsed, v@, |a: SshServer, b: SshServer| server_less(a, b))
        },
    }
}

/// The hosts of an ssh configuration, sorted, or why there are none to show.
pub fn read_ssh_config(path: &str, read: FileRead) -> (r: Result<Vec<SshServer>, String>)
    ensures
        config_read(path@, read, r),
{
    match read {
        FileRead::NotFound => Err(concat3("No ", path, " found.")),
        FileRead::Failed(m) => {
            let mut t = concat3("Failed to read ", path, ": ");
            t.push_str(m.as_str());
            Err(t)
        },
        FileRead::Contents(text) => {
            let mut servers = parse_ssh_config(text.as_str());
            let ghost parsed = servers@;
            assert(server_views(servers@).len() == servers@.len());
            if servers.len() == 0 {
                return Err(
                    concat2(path, " has no Host entries (or only wildcard defaults)."),
                );
            }
            sort_servers(&mut servers);
            assert(server_views(parsed) == closed_hosts(config_fold(lines(text@))));
            Ok(servers)
        },
    }
}

/// The application of a path, if it names a bundle.
pub open spec fn bundle(path: Seq<char>) -> Option<(Seq<char>, Seq<char>)> {
    match file_name(path) {
        Some(name) => if extension_of(name) == Some("app"@) {
            Some((path, stem_of(name)))
        } else {
            None
        },
        None => None,
    }
}

/// Applications as plain values.
pub open spec fn app_views(v: Seq<Application>) -> Seq<(Seq<char>, Seq<char>)> {
    Seq::new(v.len(), |i: int| (v[i].path@, v[i].name@))
}

/// The bundles among the paths of the application folders, in their order.
pub open spec fn bundles(paths: Seq<String>) -> Seq<(Seq<char>, Seq<char>)>
    decreases paths.len(),
{
    if paths.len() == 0 {
        seq![]
    } else {
        let before = bundles(paths.drop_last());
        match bundle(paths.last()@) {
            Some(b) => before.push(b),
            None => before,
        }
    }
}

/// The applications among the paths of the application folders, or why there
/// are none to show.
pub open spec fn applications_found(
    platform: Platform,
    paths: Seq<String>,
    r: Result<Vec<Application>, String>,
) -> bool {
    if platform != Platform::MacOs {
        r matches Err(e) && e@ == "Launching applications is macOS-only."@
    } else if bundles(paths).len() == 0 {
        r matches Err(e) && e@ == "No .app bundles found in /Applications."@
    } else {
        r matches Ok(v) && app_views(v@) == bundles(paths)
    }
}

/// The applications among the paths of the application folders, or why there
/// are none to show.
pub fn scan_applications(platform: Platform, paths: &Vec<String>) -> (r: Result<
    Vec<Application>,
    String,
>)
    ensures
        applications_found(platform, paths@, r),
{
    if platform != Platform::MacOs {
        return Err(string_from("Launching applications is macOS-only."));
    }
    let mut out: Vec<Application> = Vec::new();
    let mut i: usize = 0;
    assert(app_views(out@) =~= bundles(paths@.take(0)));
    while i < paths.len()
        invariant
            i <= paths@.len(),
            app_views(out@) == bundles(paths@.take(i as int)),
        decreases paths.len() - i,
    {
        let p = &paths[i];
        let ghost before = app_views(out@);
        proof {
            assert(paths@.take(i + 1).drop_last() =~= paths@.take(i as int));
            assert(paths@.take(i + 1).last() == paths@[i as int]);
        }
        i += 1;
        match file_name_of(p.as_str()) {
            Some(name) => match extension_of_name(name.as_str()) {
                Some(ext) => {
                    if same_text(ext.as_str(), "app") {
                        let stem = stem_of_name(name.as_str());
                        let ghost item = (p@, stem@);
                        out.push(Application { path: p.clone(), name: stem });
                        assert(app_views(out@) =~= before.push(item));
                    }
                },
                None => {},
            },
            None => {},
        }
    }
    assert(paths@.take(i as int) =~= paths@);
    assert(app_views(out@).len() == out@.len());
    if out.len() == 0 {
        return Err(string_from("No .app bundles found in /Applications."));
    }
    Ok(out)
}

/// A program that ended well has printed what it printed; one that did not is an
/// error, with what it complained of where it did.
pub proof fn endings_are_told(
    label: Seq<char>,
    missing: Option<Seq<char>>,
    outcome: RunOutcome,
    end: PreviewEnd,
)
    ensures
        printed(label, missing, outcome) is Ok <==> outcome matches RunOutcome::Finished {
            success: true,
            ..
        },
        remote_result(label, outcome) is Ok <==> outcome matches RunOutcome::Finished {
            success: true,
            ..
        },
        outcome matches RunOutcome::Finished { success, stdout, stderr, .. } ==> {
            &&& success ==> printed(label, missing, outcome) == Ok::<Seq<char>, Seq<char>>(stdout@)
            &&& !success && trim(stderr@).len() > 0 ==> printed(label, missing, outcome) == Err::<
                Seq<char>,
                Seq<char>,
            >(trim(stderr@))
            &&& !success && trim(stderr@).len() > 0 ==> remote_result(label, outcome) == Err::<
                (),
                Seq<char>,
            >(trim(stderr@))
        },
        outcome is NotFound && missing is Some ==> printed(label, missing, outcome) == Err::<
            Seq<char>,
            Seq<char>,
        >(missing->0),
        previewed(end) is Ok <==> end matches PreviewEnd::Finished { success: true, .. },
        end matches PreviewEnd::Finished { success: true, stdout, .. } ==> previewed(end) == Ok::<
            Seq<char>,
            Seq<char>,
        >(stdout@),
        end matches PreviewEnd::Finished { success: false, stderr, .. } ==> (trim(stderr@).len() > 0
            ==> previewed(end) == Err::<Seq<char>, Seq<char>>(trim(stderr@))),
{
}

/// Packing names every source, in order, inside the directory that it is done in,
/// and writes the archive that was asked for; it is refused where a source has no
/// name.
pub proof fn every_source_is_packed(srcs: Seq<String>, output: Seq<char>, dir: Seq<char>)
    ensures
        packing(srcs, output, dir) is Ok <==> forall|i: int|
            0 <= i < srcs.len() ==> file_name((#[trigger] srcs[i])@) is Some,
        packing(srcs, output, dir) matches Ok(c) ==> {
            &&& c.program == "zip"@
            &&& c.dir == Some(dir)
            &&& c.args.len() == srcs.len() + 2
            &&& c.args[0] == "-r"@
            &&& c.args[1] == output
            &&& forall|i: int|
                0 <= i < srcs.len() ==> file_name((#[trigger] srcs[i])@) == Some(c.args[i + 2])
        },
{
    lemma_first_unnamed(srcs);
    if let Ok(c) = packing(srcs, output, dir) {
        assert forall|i: int| 0 <= i < srcs.len() implies file_name((#[trigger] srcs[i])@) == Some(
            c.args[i + 2],
        ) by {
            assert(c.args[i + 2] == names_of(srcs)[i]);
        }
    }
}

proof fn lemma_first_unnamed(srcs: Seq<String>)
    ensures
        0 <= first_unnamed(srcs) <= srcs.len(),
        first_unnamed(srcs) < srcs.len() ==> file_name(srcs[first_unnamed(srcs)]@) is None,
        forall|i: int| 0 <= i < first_unnamed(srcs) ==> file_name((#[trigger] srcs[i])@) is Some,
    decreases srcs.len(),
{
    if srcs.len() > 0 && file_name(srcs[0]@) is Some {
        lemma_first_unnamed(srcs.skip(1));
        assert forall|i: int| 0 <= i < first_unnamed(srcs) implies file_name(
            (#[trigger] srcs[i])@,
        ) is Some by {
            if i > 0 {
                assert(srcs.skip(1)[i - 1] == srcs[i]);
            }
        }
    }
}

/// An archive is unpacked into the directory that is asked for, by the program of
/// its format; other files are not.
pub proof fn archives_are_unpacked_there(archive: Seq<char>, dest: Seq<char>, name: Seq<char>)
    requires
        file_name(archive) == Some(name),
    ensures
        format_of_lower(lowercase(name)) == Some(ArchiveFormat::Zip) ==> unpacking(archive, dest)
            == Ok::<CommandView, Seq<char>>(
            CommandView { program: "unzip"@, args: seq![archive, "-d"@, dest], dir: None },
        ),
        format_of_lower(lowercase(name)) == Some(ArchiveFormat::TarGz) ==> unpacking(archive, dest)
            == Ok::<CommandView, Seq<char>>(
            CommandView {
                program: "tar"@,
                args: seq!["-xzf"@, archive, "-C"@, dest],
                dir: None,
            },
        ),
        format_of_lower(lowercase(name)) is None <==> unpacking(archive, dest) is Err,
{
}

/// The process that is asked to end is the one that was meant: its number is read
/// back from the command.
pub proof fn the_meant_process_ends(platform: Platform, pid: u32)
    ensures
        platform != Platform::Windows ==> {
            &&& ending(platform, pid as nat) matches Ok(c)
            &&& c.program == "kill"@
            &&& c.args.len() == 1
            &&& crate::text::parse_number(c.args[0], u32::MAX as nat) == Some(pid as nat)
        },
        platform == Platform::Windows ==> ending(platform, pid as nat) is Err,
{
    crate::text::numbers_are_read_back(pid as nat, u32::MAX as nat);
}

/// A directory of a host that was listed has an entry for each line that describes
/// one, in the order of the lines.
pub proof fn every_listed_line_is_an_entry(
    outcome: RunOutcome,
    before: Seq<Seq<char>>,
    line: Seq<char>,
    after: Seq<Seq<char>>,
)
    requires
        outcome matches RunOutcome::Finished { success: true, stdout, .. } && lines(stdout@)
            == before + seq![line] + after,
    ensures
        ({
            let f = |l: Seq<char>| ls_entry(l);
            remote_entries(outcome) == mapped_some(before, f) + (match ls_entry(line) {
                Some(e) => seq![e],
                None => seq![],
            }) + mapped_some(after, f)
        }),
{
    let f = |l: Seq<char>| ls_entry(l);
    crate::filtering::every_readable_item_is_read(before, line, after, f);
}

/// The hosts of a configuration are shown in the order of their aliases, every one
/// of them and nothing else.
pub proof fn every_configured_host_is_shown(
    path: Seq<char>,
    text: String,
    r: Result<Vec<SshServer>, String>,
    s: ServerView,
)
    requires
        config_read(path, FileRead::Contents(text), r),
    ensures
        ({
            let hosts = closed_hosts(config_fold(lines(text@)));
            &&& r is Ok <==> hosts.len() > 0
            &&& r matches Ok(v) ==> {
                &&& v@.len() == hosts.len()
                &&& hosts.contains(s) <==> server_views(v@).contains(s)
                &&& forall|i: int, j: int|
                    0 <= i < j < v@.len() ==> !crate::text::text_less(
                        lowercase((#[trigger] v@[j]).alias@),
                        lowercase((#[trigger] v@[i]).alias@),
                    )
            }
        }),
{
    let hosts = closed_hosts(config_fold(lines(text@)));
    if let Ok(v) = r {
        let less = |a: SshServer, b: SshServer| server_less(a, b);
        let parsed = choose|parsed: Seq<SshServer>|
            #[trigger] server_views(parsed) == hosts && sorted_stably(parsed, v@, less);
        crate::ssh::hosts_are_in_order(parsed, v@);
        let order = choose|order: Seq<int>|
            crate::sorting::stable_rearrangement(parsed, v@, order, less);
        assert(order.len() == parsed.len());
        assert(server_views(parsed).len() == parsed.len());
        if server_views(v@).contains(s) {
            let k = choose|k: int| 0 <= k < server_views(v@).len() && server_views(v@)[k] == s;
            assert(v@[k] == parsed[order[k]]);
            assert(server_views(parsed)[order[k]] == s);
        }
        if hosts.contains(s) {
            let k = choose|k: int| 0 <= k < hosts.len() && hosts[k] == s;
            assert(parsed[k]@ == s);
            parsed.to_multiset_ensures();
            v@.to_multiset_ensures();
            assert(parsed.contains(parsed[k]));
            assert(v@.to_multiset().contains(parsed[k]));
            assert(v@.contains(parsed[k]));
            let j = choose|j: int| 0 <= j < v@.len() && v@[j] == parsed[k];
            assert(server_views(v@)[j] == s);
        }
    }
}

/// Every bundle among the paths is an application, under its name without the
/// ending, and nothing else is.
pub proof fn every_bundle_is_an_application(paths: Seq<String>, p: String, stem: Seq<char>)
    ensures
        bundles(paths.push(p)) == (match bundle(p@) {
            Some(b) => bundles(paths).push(b),
            None => bundles(paths),
        }),
        bundles(seq![]) == Seq::<(Seq<char>, Seq<char>)>::empty(),
        stem.len() > 0 && file_name(p@) == Some(stem + seq!['.', 'a', 'p', 'p']) ==> bundle(p@)
            == Some((p@, stem)),
        forall|name: Seq<char>|
            !#[trigger] name.contains('.') && file_name(p@) == Some(name) ==> bundle(p@) is None,
{
    assert(paths.push(p).drop_last() =~= paths);
    let ext = seq!['a', 'p', 'p'];
    reveal_strlit("app");
    assert("app"@ =~= ext);
    if stem.len() > 0 && file_name(p@) == Some(stem + seq!['.', 'a', 'p', 'p']) {
        assert(stem + seq!['.', 'a', 'p', 'p'] =~= stem + seq!['.'] + ext);
        crate::path::names_are_stem_and_extension(stem, ext);
    }
    assert forall|name: Seq<char>|
        !#[trigger] name.contains('.') && file_name(p@) == Some(name) implies bundle(p@) is None by {
        crate::path::names_are_stem_and_extension(seq!['x'], name);
    }
}

/// The commands name what they are about: the container that is killed, the
/// repository and the branch that is checked out there, the host and the path that
/// is listed on it.
pub proof fn commands_name_their_objects(a: Seq<char>, b: Seq<char>)
    ensures
        killing(a) == (CommandView { program: "docker"@, args: seq!["kill"@, a], dir: None }),
        checking_out(a, b) == (CommandView {
            program: "git"@,
            args: seq!["-C"@, a, "checkout"@, b],
            dir: None,
        }),
        listing_on(a, b) == (CommandView {
            program: "ssh"@,
            args: seq![
                "-o"@,
                "BatchMode=yes"@,
                a,
                "--"@,
                "ls -la --time-style=full-iso -- "@ + remote_quoted(b),
            ],
            dir: None,
        }),
{
}

} // verus!
