//! Terminals, editors and other programs that are opened and left alone.

use vstd::prelude::*;
use crate::command::{run, CommandLine, CommandView, RunOutcome};
use crate::palette::Platform;
use crate::quoting::{double_escaped, enter_and_run, macos_claude_apple_script};
use crate::quoting::macos_open_terminal_script;
use crate::quoting::{macos_shell_line_script, macos_terminal_apple_script, open_terminal_script};
use crate::quoting::{shell_line_script, shell_quote, terminal_script};
use crate::text::{chars_of, concat3, split_words, string_from};
use crate::text::{string_of, texts, trim, trim_text, words};

verus! {

/// A program that opens a window.
#[derive(Debug)]
pub struct Launch {
    pub command: CommandLine,
    /// What is named where it cannot be opened.
    pub app: String,
    /// Whether its ending is waited for, since it tells if a window opened.
    pub waited: bool,
}

/// A launch as plain values.
#[verifier::ext_equal]
pub struct LaunchView {
    pub command: CommandView,
    pub app: Seq<char>,
    pub waited: bool,
}

impl View for Launch {
    type V = LaunchView;

    open spec fn view(&self) -> LaunchView {
        LaunchView { command: self.command@, app: self.app@, waited: self.waited }
    }
}

/// The message where no terminal can be opened.
pub const NO_TERMINAL: &'static str = "opening a terminal isn't supported on this platform";

/// An optional text as a plain value.
pub open spec fn opt_text(s: Option<&str>) -> Option<Seq<char>> {
    match s {
        Some(t) => Some(t@),
        None => None,
    }
}

/// The terminal application: the one that is set, or else iTerm where it is
/// installed.
pub open spec fn terminal_app(setting: Option<Seq<char>>, iterm_installed: bool) -> Seq<char> {
    match setting {
        Some(s) if trim(s).len() > 0 => trim(s),
        _ => if iterm_installed {
            "iTerm"@
        } else {
            "Terminal"@
        },
    }
}

/// The terminal application.
pub fn resolve_macos_terminal_app(setting: Option<&str>, iterm_installed: bool) -> (r: String)
    ensures
        r@ == terminal_app(opt_text(setting), iterm_installed),
{
    if let Some(s) = setting {
        let t = trim_text(s);
        let v = chars_of(t.as_str());
        if v.len() > 0 {
            return t;
        }
    }
    if iterm_installed {
        string_from("iTerm")
    } else {
        string_from("Terminal")
    }
}

/// The words after the first one, each escaped and after a space.
pub open spec fn escaped_args(args: Seq<Seq<char>>) -> Seq<char>
    decreases args.len(),
{
    if args.len() == 0 {
        seq![]
    } else {
        escaped_args(args.drop_last()) + " "@ + double_escaped(args.last())
    }
}

/// The words after the first one, each after a space.
pub open spec fn spaced_args(args: Seq<Seq<char>>) -> Seq<char>
    decreases args.len(),
{
    if args.len() == 0 {
        seq![]
    } else {
        spaced_args(args.drop_last()) + " "@ + args.last()
    }
}

fn escaped_line(prog: &str, args: &Vec<String>) -> (r: String)
    ensures
        r@ == double_escaped(prog@) + escaped_args(texts(args@)),
{
    let ghost all = texts(args@);
    let ghost head = double_escaped(prog@);
    let mut cmd = shell_quote(prog);
    let mut i: usize = 0;
    assert(all.take(0) =~= seq![]);
    assert(cmd@ =~= head + escaped_args(all.take(0)));
    while i < args.len()
        invariant
            i <= args@.len(),
            all == texts(args@),
            cmd@ == head + escaped_args(all.take(i as int)),
        decreases args.len() - i,
    {
        let q = shell_quote(args[i].as_str());
        cmd.push_str(" ");
        cmd.push_str(q.as_str());
        proof {
            assert(all.take(i + 1).drop_last() =~= all.take(i as int));
            assert(all.take(i + 1).last() == args@[i as int]@);
            assert(cmd@ =~= head + escaped_args(all.take(i + 1)));
        }
        i += 1;
    }
    assert(all.take(i as int) =~= all);
    cmd
}

fn spaced_line(prog: &str, args: &Vec<String>) -> (r: String)
    ensures
        r@ == prog@ + spaced_args(texts(args@)),
{
    let ghost all = texts(args@);
    let mut cmd = string_from(prog);
    let mut i: usize = 0;
    assert(all.take(0) =~= seq![]);
    assert(cmd@ =~= prog@ + spaced_args(all.take(0)));
    while i < args.len()
        invariant
            i <= args@.len(),
            all == texts(args@),
            cmd@ == prog@ + spaced_args(all.take(i as int)),
        decreases args.len() - i,
    {
        cmd.push_str(" ");
        cmd.push_str(args[i].as_str());
        proof {
            assert(all.take(i + 1).drop_last() =~= all.take(i as int));
            assert(all.take(i + 1).last() == args@[i as int]@);
            assert(cmd@ =~= prog@ + spaced_args(all.take(i + 1)));
        }
        i += 1;
    }
    assert(all.take(i as int) =~= all);
    cmd
}

/// How AppleScript is run.
pub open spec fn osascript(app: Seq<char>, script: Seq<char>, waited: bool) -> LaunchView {
    LaunchView { command: run("osascript"@, seq!["-e"@, script]), app, waited }
}

fn osascript_launch(app: String, script: &str, waited: bool) -> (r: Launch)
    ensures
        r@ == osascript(app@, script@, waited),
{
    Launch { command: CommandLine::new("osascript").arg("-e").arg(script), app, waited }
}

/// How a terminal opens on a program.
pub open spec fn terminal_launch(
    platform: Platform,
    prog: Seq<char>,
    args: Seq<Seq<char>>,
    app: Seq<char>,
) -> Option<LaunchView> {
    match platform {
        Platform::MacOs => Some(
            osascript(app, terminal_script(app, double_escaped(prog) + escaped_args(args)), true),
        ),
        Platform::Linux => Some(
            LaunchView {
                command: run("x-terminal-emulator"@, seq!["-e"@, prog] + args),
                app: "x-terminal-emulator"@,
                waited: false,
            },
        ),
        Platform::Windows => Some(
            LaunchView {
                command: run(
                    "cmd"@,
                    seq!["/C"@, "start"@, "cmd"@, "/K"@, prog + spaced_args(args)],
                ),
                app: "cmd"@,
                waited: false,
            },
        ),
        Platform::Other => None,
    }
}

/// A launch, or the message that there is none.
pub open spec fn launched(r: Result<Launch, String>, l: Option<LaunchView>) -> bool {
    match l {
        Some(v) => r matches Ok(x) && x@ =~= v,
        None => r matches Err(e) && e@ == NO_TERMINAL@,
    }
}

/// How a terminal opens on a program. The setting counts on macOS only.
pub fn spawn_terminal_with_command(
    platform: Platform,
    prog: &str,
    args: &Vec<String>,
    setting: Option<&str>,
    iterm_installed: bool,
) -> (r: Result<Launch, String>)
    ensures
        launched(
            r,
            terminal_launch(
                platform,
                prog@,
                texts(args@),
                terminal_app(opt_text(setting), iterm_installed),
            ),
        ),
{
    match platform {
        Platform::MacOs => {
            let app = resolve_macos_terminal_app(setting, iterm_installed);
            let line = escaped_line(prog, args);
            let script = macos_terminal_apple_script(app.as_str(), line.as_str());
            Ok(osascript_launch(app, script.as_str(), true))
        },
        Platform::Linux => {
            let ghost all = texts(args@);
            let mut c = CommandLine::new("x-terminal-emulator").arg("-e").arg(prog);
            let mut i: usize = 0;
            assert(c@.args =~= seq!["-e"@, prog@] + all.take(0));
            while i < args.len()
                invariant
                    i <= args@.len(),
                    all == texts(args@),
                    c@ == run("x-terminal-emulator"@, seq!["-e"@, prog@] + all.take(i as int)),
                decreases args.len() - i,
            {
                c = c.arg(args[i].as_str());
                assert(c@.args =~= seq!["-e"@, prog@] + all.take(i + 1));
                i += 1;
            }
            assert(all.take(i as int) =~= all);
            Ok(Launch { command: c, app: string_from("x-terminal-emulator"), waited: false })
        },
        Platform::Windows => {
            let line = spaced_line(prog, args);
            let c = CommandLine::new("cmd").arg("/C").arg("start").arg("cmd").arg("/K").arg(
                line.as_str(),
            );
            Ok(Launch { command: c, app: string_from("cmd"), waited: false })
        },
        Platform::Other => Err(string_from(NO_TERMINAL)),
    }
}

/// How a shell in a container opens. `/bin/sh` is in every image.
pub fn docker_shell(
    platform: Platform,
    id: &str,
    setting: Option<&str>,
    iterm_installed: bool,
) -> (r: Result<Launch, String>)
    ensures
        launched(
            r,
            terminal_launch(
                platform,
                "docker"@,
                seq!["exec"@, "-it"@, id@, "/bin/sh"@],
                terminal_app(opt_text(setting), iterm_installed),
            ),
        ),
{
    let args: Vec<String> = vec![
        string_from("exec"),
        string_from("-it"),
        string_from(id),
        string_from("/bin/sh"),
    ];
    assert(texts(args@) =~= seq!["exec"@, "-it"@, id@, "/bin/sh"@]);
    spawn_terminal_with_command(platform, "docker", &args, setting, iterm_installed)
}

/// How a session on a host opens.
pub fn ssh_connect(
    platform: Platform,
    alias: &str,
    setting: Option<&str>,
    iterm_installed: bool,
) -> (r: Result<Launch, String>)
    ensures
        launched(
            r,
            terminal_launch(
                platform,
                "ssh"@,
                seq![alias@],
                terminal_app(opt_text(setting), iterm_installed),
            ),
        ),
{
    let args: Vec<String> = vec![string_from(alias)];
    assert(texts(args@) =~= seq![alias@]);
    spawn_terminal_with_command(platform, "ssh", &args, setting, iterm_installed)
}

/// How a terminal opens in a directory: on macOS by a script, elsewhere with
/// these arguments.
pub open spec fn launch_in(
    platform: Platform,
    dir: Seq<char>,
    app: Seq<char>,
    script: Seq<char>,
    linux_args: Seq<Seq<char>>,
    windows_args: Seq<Seq<char>>,
) -> Option<LaunchView> {
    match platform {
        Platform::MacOs => Some(osascript(app, script, false)),
        Platform::Linux => Some(
            LaunchView {
                command: CommandView {
                    program: "x-terminal-emulator"@,
                    args: linux_args,
                    dir: Some(dir),
                },
                app: "x-terminal-emulator"@,
                waited: false,
            },
        ),
        Platform::Windows => Some(
            LaunchView {
                command: CommandView {
                    program: "cmd"@,
                    args: seq!["/C"@, "start"@, "cmd"@, "/K"@] + windows_args,
                    dir: Some(dir),
                },
                app: "cmd"@,
                waited: false,
            },
        ),
        Platform::Other => None,
    }
}

fn emulator_in(dir: &str) -> (r: CommandLine)
    ensures
        r@ == (CommandView { program: "x-terminal-emulator"@, args: seq![], dir: Some(dir@) }),
{
    CommandLine::new("x-terminal-emulator").in_dir(dir)
}

fn emulator(command: CommandLine) -> (r: Launch)
    ensures
        r@ == (LaunchView { command: command@, app: "x-terminal-emulator"@, waited: false }),
{
    Launch { command, app: string_from("x-terminal-emulator"), waited: false }
}

fn console_in(dir: &str) -> (r: CommandLine)
    ensures
        r@ == (CommandView {
            program: "cmd"@,
            args: seq!["/C"@, "start"@, "cmd"@, "/K"@],
            dir: Some(dir@),
        }),
{
    CommandLine::new("cmd").in_dir(dir).arg("/C").arg("start").arg("cmd").arg("/K")
}

fn console(command: CommandLine) -> (r: Launch)
    ensures
        r@ == (LaunchView { command: command@, app: "cmd"@, waited: false }),
{
    Launch { command, app: string_from("cmd"), waited: false }
}

/// How a terminal opens in a directory with the coding assistant running.
pub fn open_claude_code(
    platform: Platform,
    path: &str,
    program: &str,
    setting: Option<&str>,
    iterm_installed: bool,
) -> (r: Result<Launch, String>)
    ensures
        ({
            let app = terminal_app(opt_text(setting), iterm_installed);
            launched(
                r,
                launch_in(
                    platform,
                    path@,
                    app,
                    shell_line_script(app, enter_and_run(path@, "exec "@ + program@)),
                    seq!["-e"@, program@],
                    seq![program@],
                ),
            )
        }),
{
    match platform {
        Platform::MacOs => {
            let app = resolve_macos_terminal_app(setting, iterm_installed);
            let script = macos_claude_apple_script(app.as_str(), path, program);
            Ok(osascript_launch(app, script.as_str(), false))
        },
        Platform::Linux => Ok(emulator(emulator_in(path).arg("-e").arg(program))),
        Platform::Windows => Ok(console(console_in(path).arg(program))),
        Platform::Other => Err(string_from(NO_TERMINAL)),
    }
}

/// How a terminal opens in a directory.
pub fn open_terminal(
    platform: Platform,
    path: &str,
    setting: Option<&str>,
    iterm_installed: bool,
) -> (r: Result<Launch, String>)
    ensures
        ({
            let app = terminal_app(opt_text(setting), iterm_installed);
            launched(
                r,
                launch_in(
                    platform,
                    path@,
                    app,
                    open_terminal_script(app, path@),
                    seq![],
                    seq![],
                ),
            )
        }),
{
    match platform {
        Platform::MacOs => {
            let app = resolve_macos_terminal_app(setting, iterm_installed);
            let script = macos_open_terminal_script(app.as_str(), path);
            Ok(osascript_launch(app, script.as_str(), false))
        },
        Platform::Linux => Ok(emulator(emulator_in(path))),
        Platform::Windows => Ok(console(console_in(path))),
        Platform::Other => Err(string_from(NO_TERMINAL)),
    }
}

/// How a terminal opens in a directory on a shell line.
pub fn run_file_action_in_terminal(
    platform: Platform,
    line: &str,
    dir: &str,
    setting: Option<&str>,
    iterm_installed: bool,
) -> (r: Result<Launch, String>)
    ensures
        ({
            let app = terminal_app(opt_text(setting), iterm_installed);
            launched(
                r,
                launch_in(
                    platform,
                    dir@,
                    app,
                    shell_line_script(app, enter_and_run(dir@, line@)),
                    seq!["-e"@, "sh"@, "-c"@, line@],
                    seq![line@],
                ),
            )
        }),
{
    match platform {
        Platform::MacOs => {
            let app = resolve_macos_terminal_app(setting, iterm_installed);
            let script = macos_shell_line_script(app.as_str(), dir, line);
            Ok(osascript_launch(app, script.as_str(), false))
        },
        Platform::Linux => Ok(
            emulator(emulator_in(dir).arg("-e").arg("sh").arg("-c").arg(line)),
        ),
        Platform::Windows => Ok(console(console_in(dir).arg(line))),
        Platform::Other => Err(string_from(NO_TERMINAL)),
    }
}

/// The command that runs a shell line in a directory.
pub open spec fn by_shell(platform: Platform, line: Seq<char>, dir: Seq<char>) -> CommandView {
    CommandView {
        program: if platform == Platform::Windows {
            "cmd"@
        } else {
            "sh"@
        },
        args: if platform == Platform::Windows {
            seq!["/C"@, line]
        } else {
            seq!["-c"@, line]
        },
        dir: Some(dir),
    }
}

/// The command that runs a shell line in a directory.
pub fn shell_command(platform: Platform, line: &str, dir: &str) -> (r: CommandLine)
    ensures
        r@ == by_shell(platform, line@, dir@),
{
    if platform == Platform::Windows {
        CommandLine::new("cmd").in_dir(dir).arg("/C").arg(line)
    } else {
        CommandLine::new("sh").in_dir(dir).arg("-c").arg(line)
    }
}

/// Whether a window was opened, or why not.
pub open spec fn opened(app: Seq<char>, outcome: RunOutcome) -> Result<(), Seq<char>> {
    match outcome {
        RunOutcome::NotFound(e) => Err("failed to launch "@ + app + ": "@ + e@),
        RunOutcome::Failed(e) => Err("failed to launch "@ + app + ": "@ + e@),
        RunOutcome::Finished { success, status, stderr, .. } => if success {
            Ok(())
        } else if trim(stderr@).len() == 0 {
            Err(app + " did not open ("@ + status@ + ")"@)
        } else {
            Err(app + ": "@ + trim(stderr@))
        },
    }
}

/// The message for a program that cannot be started.
pub fn launch_failure(app: &str, error: &str) -> (r: String)
    ensures
        r@ == "failed to launch "@ + app@ + ": "@ + error@,
{
    let mut t = concat3("failed to launch ", app, ": ");
    t.push_str(error);
    t
}

/// Whether a window was opened, or why not.
pub fn launch_result(app: &str, outcome: RunOutcome) -> (r: Result<(), String>)
    ensures
        match opened(app@, outcome) {
            Ok(_) => r is Ok,
            Err(e) => r matches Err(m) && m@ == e,
        },
{
    match outcome {
        RunOutcome::NotFound(e) => Err(launch_failure(app, e.as_str())),
        RunOutcome::Failed(e) => Err(launch_failure(app, e.as_str())),
        RunOutcome::Finished { success, status, stdout: _, stderr } => {
            if success {
                return Ok(());
            }
            let said = trim_text(stderr.as_str());
            let v = chars_of(said.as_str());
            if v.len() == 0 {
                let mut t = concat3(app, " did not open (", status.as_str());
                t.push_str(")");
                Err(t)
            } else {
                Err(concat3(app, ": ", said.as_str()))
            }
        },
    }
}

/// The command that opens an application or a folder by its path.
pub fn launch_app(platform: Platform, path: &str) -> (r: Result<CommandLine, String>)
    ensures
        if platform == Platform::MacOs {
            r matches Ok(c) && c@ == run("open"@, seq![path@])
        } else {
            r matches Err(e) && e@ == "Launching applications isn't supported on this platform."@
        },
{
    if platform == Platform::MacOs {
        Ok(CommandLine::new("open").arg(path))
    } else {
        Err(string_from("Launching applications isn't supported on this platform."))
    }
}

/// How a file is edited.
#[derive(Debug)]
pub enum EditWith {
    Run(CommandLine),
    /// By what the system opens it with.
    SystemDefault,
}

/// The editor that the environment names: an empty `VISUAL` hides `EDITOR`.
pub open spec fn named_editor(visual: Option<Seq<char>>, editor: Option<Seq<char>>) -> Seq<char> {
    match visual {
        Some(v) => v,
        None => match editor {
            Some(e) => e,
            None => seq![],
        },
    }
}

/// How a file is edited: with the editor of the environment, whose words are
/// the program and its first arguments, or else with the system's own.
pub fn open_in_editor(
    platform: Platform,
    path: &str,
    visual: Option<&str>,
    editor: Option<&str>,
) -> (r: EditWith)
    ensures
        ({
            let parts = words(named_editor(opt_text(visual), opt_text(editor)));
            if parts.len() > 0 {
                r matches EditWith::Run(c) && c@ == run(parts[0], parts.skip(1).push(path@))
            } else if platform == Platform::MacOs {
                r matches EditWith::Run(c) && c@ == run("open"@, seq!["-t"@, path@])
            } else {
                r is SystemDefault
            }
        }),
{
    let line = match visual {
        Some(v) => v,
        None => match editor {
            Some(e) => e,
            None => "",
        },
    };
    proof {
        reveal_strlit("");
        assert(line@ =~= named_editor(opt_text(visual), opt_text(editor)));
    }
    let v = chars_of(line);
    let parts = split_words(v.as_slice());
    let ghost all = words(line@);
    if parts.len() > 0 {
        let prog = string_of(parts[0]);
        let mut c = CommandLine::new(prog.as_str());
        let mut i: usize = 1;
        assert(c@.args =~= all.subrange(1, 1));
        while i < parts.len()
            invariant
                1 <= i <= parts@.len(),
                parts@.len() == all.len(),
                forall|k: int| 0 <= k < parts@.len() ==> (#[trigger] parts@[k])@ == all[k],
                c@ == run(all[0], all.subrange(1, i as int)),
            decreases parts.len() - i,
        {
            let a = string_of(parts[i]);
            c = c.arg(a.as_str());
            assert(c@.args =~= all.subrange(1, i + 1));
            i += 1;
        }
        assert(all.subrange(1, i as int) =~= all.skip(1));
        return EditWith::Run(c.arg(path));
    }
    if platform == Platform::MacOs {
        EditWith::Run(CommandLine::new("open").arg("-t").arg(path))
    } else {
        EditWith::SystemDefault
    }
}

/// The command that previews a file, where there is one.
pub fn quick_look(platform: Platform, path: &str) -> (r: Option<CommandLine>)
    ensures
        if platform == Platform::MacOs {
            r matches Some(c) && c@ == run("qlmanage"@, seq!["-p"@, path@])
        } else {
            r is None
        },
{
    if platform == Platform::MacOs {
        Some(CommandLine::new("qlmanage").arg("-p").arg(path))
    } else {
        None
    }
}

/// The command that opens a folder in an editor.
pub fn folder_editor_command(editor: &str, folder: &str) -> (r: CommandLine)
    ensures
        r@ == run(editor@, seq![folder@]),
{
    CommandLine::new(editor).arg(folder)
}

/// A terminal is opened on the program with its arguments, all of them and in
/// their order.
pub proof fn arguments_reach_the_program(
    prog: Seq<char>,
    args: Seq<Seq<char>>,
    last: Seq<char>,
    app: Seq<char>,
)
    ensures
        terminal_launch(Platform::Linux, prog, args, app) matches Some(l) && l.command.args
            == seq!["-e"@, prog] + args,
        escaped_args(args.push(last)) == escaped_args(args) + " "@ + double_escaped(last),
        spaced_args(args.push(last)) == spaced_args(args) + " "@ + last,
        escaped_args(seq![]) == Seq::<char>::empty(),
        spaced_args(seq![]) == Seq::<char>::empty(),
        terminal_launch(Platform::MacOs, prog, args, app) is Some,
        terminal_launch(Platform::Windows, prog, args, app) is Some,
        terminal_launch(Platform::Other, prog, args, app) is None,
{
    assert(args.push(last).drop_last() =~= args);
    assert(args.push(last).last() == last);
}

/// The terminal that is set is used, and without one iTerm where it is installed;
/// the editor of the environment is `VISUAL` before `EDITOR`.
pub proof fn settings_come_first(
    name: Seq<char>,
    installed: bool,
    visual: Option<Seq<char>>,
    editor: Option<Seq<char>>,
)
    requires
        name.len() > 0,
        !crate::text::is_white(name[0]),
        !crate::text::is_white(name.last()),
    ensures
        terminal_app(Some(name), installed) == name,
        terminal_app(None, true) == "iTerm"@,
        terminal_app(None, false) == "Terminal"@,
        visual matches Some(v) ==> named_editor(visual, editor) == v,
        visual is None ==> (editor matches Some(e) ==> named_editor(visual, editor) == e),
{
    assert(name =~= Seq::<char>::empty() + name + Seq::<char>::empty());
    crate::text::trimming_takes_white_ends_only(seq![], name, seq![]);
}

/// A window that was opened is no error; anything else is one.
pub proof fn only_failed_launches_are_errors(app: Seq<char>, outcome: RunOutcome)
    ensures
        opened(app, outcome) is Ok <==> outcome matches RunOutcome::Finished { success: true, .. },
{
}

/// A shell is handed the whole line as it stands, and runs it in the directory.
pub proof fn shells_run_the_line_there(platform: Platform, line: Seq<char>, dir: Seq<char>)
    ensures
        by_shell(platform, line, dir).args.len() == 2,
        by_shell(platform, line, dir).args[1] == line,
        by_shell(platform, line, dir).dir == Some(dir),
        platform != Platform::Windows ==> by_shell(platform, line, dir).program == "sh"@
            && by_shell(platform, line, dir).args[0] == "-c"@,
{
}

} // verus!
