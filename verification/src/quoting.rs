//! Text made safe for shells, sftp batches and AppleScript.

use vstd::prelude::*;
use vstd::slice::slice_subrange;
use crate::text::{ascii_lower, ascii_lower_chars, chars_of, concat2, concat3, find_first};
use crate::text::{first_index, same_chars, string_from};
use crate::text::string_of;

verus! {

/// A character inside single quotes: a quote ends them, stands escaped, and
/// opens them again.
pub open spec fn single_escape(c: char) -> Seq<char> {
    if c == '\'' {
        seq!['\'', '\\', '\'', '\'']
    } else {
        seq![c]
    }
}

/// A character inside double quotes, with `\` and `"` escaped.
pub open spec fn double_escape(c: char) -> Seq<char> {
    if c == '\\' {
        seq!['\\', '\\']
    } else if c == '"' {
        seq!['\\', '"']
    } else {
        seq![c]
    }
}

/// Every character escaped for single quotes.
pub open spec fn single_escaped(s: Seq<char>) -> Seq<char>
    decreases s.len(),
{
    if s.len() == 0 {
        seq![]
    } else {
        single_escaped(s.drop_last()) + single_escape(s.last())
    }
}

/// Every character escaped for double quotes.
pub open spec fn double_escaped(s: Seq<char>) -> Seq<char>
    decreases s.len(),
{
    if s.len() == 0 {
        seq![]
    } else {
        double_escaped(s.drop_last()) + double_escape(s.last())
    }
}

/// A text as one single-quoted word of a POSIX shell.
pub open spec fn quoted(s: Seq<char>) -> Seq<char> {
    seq!['\''] + single_escaped(s) + seq!['\'']
}

/// How a POSIX shell reads a word made of single-quoted stretches and escaped
/// characters: the text that it stands for, or nothing where the input holds
/// anything else or a quote is left open.
pub open spec fn shell_word(s: Seq<char>, in_quotes: bool) -> Option<Seq<char>>
    decreases s.len(),
{
    if s.len() == 0 {
        if in_quotes {
            None
        } else {
            Some(seq![])
        }
    } else if in_quotes {
        if s[0] == '\'' {
            shell_word(s.skip(1), false)
        } else {
            match shell_word(s.skip(1), true) {
                Some(r) => Some(seq![s[0]] + r),
                None => None,
            }
        }
    } else if s[0] == '\'' {
        shell_word(s.skip(1), true)
    } else if s[0] == '\\' && s.len() >= 2 {
        match shell_word(s.skip(2), false) {
            Some(r) => Some(seq![s[1]] + r),
            None => None,
        }
    } else {
        None
    }
}

/// The escaped text with its first character taken off.
proof fn lemma_single_escaped_front(s: Seq<char>)
    requires
        s.len() > 0,
    ensures
        single_escaped(s) == single_escape(s[0]) + single_escaped(s.skip(1)),
    decreases s.len(),
{
    if s.len() == 1 {
        assert(s.drop_last() =~= seq![]);
        assert(s.skip(1) =~= seq![]);
        assert(single_escaped(s) =~= single_escape(s[0]) + single_escaped(s.skip(1)));
    } else {
        lemma_single_escaped_front(s.drop_last());
        assert(s.drop_last().skip(1) =~= s.skip(1).drop_last());
        assert(single_escaped(s) =~= single_escape(s[0]) + single_escaped(s.skip(1)));
    }
}

proof fn lemma_shell_reads_escaped(s: Seq<char>)
    ensures
        shell_word(single_escaped(s) + seq!['\''], true) == Some(s),
    decreases s.len(),
{
    let close = seq!['\''];
    if s.len() == 0 {
        let t = single_escaped(s) + close;
        assert(t.skip(1) =~= seq![]);
        reveal_with_fuel(shell_word, 2);
        assert(s =~= seq![]);
    } else {
        lemma_single_escaped_front(s);
        let rest = s.skip(1);
        let tail = single_escaped(rest) + close;
        lemma_shell_reads_escaped(rest);
        let t = single_escaped(s) + close;
        assert(t =~= single_escape(s[0]) + tail);
        assert(seq![s[0]] + rest =~= s);
        if s[0] == '\'' {
            reveal_with_fuel(shell_word, 4);
            assert(t.skip(1).skip(2) =~= t.skip(3));
            assert(t.skip(3).skip(1) =~= tail);
            assert(t.skip(1)[0] == '\\' && t.skip(1)[1] == '\'');
            assert(t.skip(3)[0] == '\'');
        } else {
            assert(t.skip(1) =~= tail);
        }
    }
}

/// A shell reads a quoted text as one word, and that word is the text: nothing
/// in it can end the word or mean anything else.
pub proof fn quoted_is_one_word(s: Seq<char>)
    ensures
        shell_word(quoted(s), false) == Some(s),
{
    lemma_shell_reads_escaped(s);
    let t = quoted(s);
    assert(t.skip(1) =~= single_escaped(s) + seq!['\'']);
}

/// Different texts have different quoted forms.
pub proof fn quoting_is_injective(a: Seq<char>, b: Seq<char>)
    requires
        quoted(a) == quoted(b),
    ensures
        a == b,
{
    quoted_is_one_word(a);
    quoted_is_one_word(b);
}

fn push_single_escaped(out: &mut String, s: &[char])
    ensures
        final(out)@ == old(out)@ + single_escaped(s@),
{
    let mut i: usize = 0;
    let ghost start = out@;
    assert(s@.take(0) =~= seq![]);
    assert(out@ =~= start + single_escaped(s@.take(0)));
    while i < s.len()
        invariant
            i <= s@.len(),
            out@ == start + single_escaped(s@.take(i as int)),
        decreases s.len() - i,
    {
        let c = s[i];
        assert(s@.take(i + 1).drop_last() =~= s@.take(i as int));
        let ghost before = out@;
        if c == '\'' {
            out.push('\'');
            out.push('\\');
            out.push('\'');
            out.push('\'');
        } else {
            out.push(c);
        }
        assert(out@ =~= before + single_escape(c));
        i += 1;
        assert(out@ =~= start + single_escaped(s@.take(i as int)));
    }
    assert(s@.take(s@.len() as int) =~= s@);
}

/// A text as one single-quoted word of a POSIX shell.
pub fn posix_quote(s: &str) -> (r: String)
    ensures
        r@ == quoted(s@),
{
    let v = chars_of(s);
    let mut out = String::new();
    out.push('\'');
    push_single_escaped(&mut out, v.as_slice());
    out.push('\'');
    assert(out@ =~= quoted(s@));
    out
}

/// A text with `\` and `"` escaped, for use inside double quotes.
pub fn shell_quote(s: &str) -> (r: String)
    ensures
        r@ == double_escaped(s@),
{
    let v = chars_of(s);
    let mut out = String::new();
    let mut i: usize = 0;
    assert(v@.take(0) =~= seq![]);
    while i < v.len()
        invariant
            i <= v@.len(),
            out@ == double_escaped(v@.take(i as int)),
        decreases v.len() - i,
    {
        let c = v[i];
        assert(v@.take(i + 1).drop_last() =~= v@.take(i as int));
        let ghost before = out@;
        if c == '\\' {
            out.push('\\');
            out.push('\\');
        } else if c == '"' {
            out.push('\\');
            out.push('"');
        } else {
            out.push(c);
        }
        assert(out@ =~= before + double_escape(c));
        i += 1;
    }
    assert(v@.take(v@.len() as int) =~= v@);
    out
}

/// A remote path for a shell command: a leading `~` part stays bare, so that
/// the remote shell expands it, and the rest is quoted.
pub open spec fn remote_quoted(p: Seq<char>) -> Seq<char> {
    if p.len() > 0 && p[0] == '~' {
        let i = first_index(p, '/');
        if i < p.len() {
            p.take(i + 1) + quoted(p.skip(i + 1))
        } else {
            p
        }
    } else {
        quoted(p)
    }
}

/// A remote path for an sftp batch, where nothing expands `~`: it is written
/// relative to the home directory, which such a session starts in.
pub open spec fn sftp_quoted(p: Seq<char>) -> Seq<char> {
    if p == seq!['~'] {
        seq!['.']
    } else if p.len() >= 2 && p[0] == '~' && p[1] == '/' {
        quoted(p.skip(2))
    } else {
        quoted(p)
    }
}

/// A remote path for a shell command.
pub fn quote_remote_path(path: &str) -> (r: String)
    ensures
        r@ == remote_quoted(path@),
{
    let v = chars_of(path);
    if v.len() > 0 && v[0] == '~' {
        let i: usize = find_first(v.as_slice(), '/');
        if i < v.len() {
            let head = slice_subrange(v.as_slice(), 0, i + 1);
            let rest = slice_subrange(v.as_slice(), i + 1, v.len());
            assert(head@ =~= path@.take(i + 1));
            assert(rest@ =~= path@.skip(i + 1));
            let rest_text = string_of(rest);
            let mut out = string_of(head);
            let q = posix_quote(rest_text.as_str());
            out.push_str(q.as_str());
            out
        } else {
            string_from(path)
        }
    } else {
        posix_quote(path)
    }
}

/// A remote path for an sftp batch.
pub fn quote_sftp_path(path: &str) -> (r: String)
    ensures
        r@ == sftp_quoted(path@),
{
    let v = chars_of(path);
    if v.len() == 1 && v[0] == '~' {
        assert(path@ =~= seq!['~']);
        let mut dot = String::new();
        dot.push('.');
        assert(dot@ =~= seq!['.']);
        return dot;
    }
    if v.len() >= 2 && v[0] == '~' && v[1] == '/' {
        let rest = slice_subrange(v.as_slice(), 2, v.len());
        assert(rest@ =~= path@.skip(2));
        let text = string_of(rest);
        return posix_quote(text.as_str());
    }
    posix_quote(path)
}

/// The sftp batch that sends a file or directory.
pub fn build_sftp_put_script(local_quoted: &str, remote_quoted: &str) -> (r: String)
    ensures
        r@ == "put -r "@ + local_quoted@ + " "@ + remote_quoted@ + "\n"@,
{
    let mut r = concat3("put -r ", local_quoted, " ");
    r.push_str(remote_quoted);
    r.push_str("\n");
    r
}

/// The sftp batch that fetches a file or directory.
pub fn build_sftp_get_script(remote_quoted: &str, local_quoted: &str) -> (r: String)
    ensures
        r@ == "get -r "@ + remote_quoted@ + " "@ + local_quoted@ + "\n"@,
{
    let mut r = concat3("get -r ", remote_quoted, " ");
    r.push_str(local_quoted);
    r.push_str("\n");
    r
}

/// Whether a terminal application is one of the iTerm family, whose windows
/// run a command as their main process.
pub open spec fn is_iterm(app: Seq<char>) -> bool {
    ascii_lower(app) == "iterm"@ || ascii_lower(app) == "iterm2"@
}

fn iterm(app: &str) -> (r: bool)
    ensures
        r == is_iterm(app@),
{
    let v = chars_of(app);
    let lower = ascii_lower_chars(v.as_slice());
    let a = chars_of("iterm");
    let b = chars_of("iterm2");
    same_chars(lower.as_slice(), a.as_slice()) || same_chars(lower.as_slice(), b.as_slice())
}

/// The AppleScript that opens an iTerm window on a command.
pub open spec fn iterm_script(app: Seq<char>, command: Seq<char>) -> Seq<char> {
    "tell application \""@ + app
        + "\"\n    activate\n    create window with default profile command \""@ + command
        + "\"\nend tell"@
}

/// The AppleScript that types a line into a new terminal window.
pub open spec fn do_script(app: Seq<char>, line: Seq<char>) -> Seq<char> {
    "tell application \""@ + app + "\" to do script \""@ + line + "\""@
}

fn iterm_script_text(app: &str, command: &str) -> (r: String)
    ensures
        r@ == iterm_script(app@, command@),
{
    let mut r = concat3(
        "tell application \"",
        app,
        "\"\n    activate\n    create window with default profile command \"",
    );
    r.push_str(command);
    r.push_str("\"\nend tell");
    r
}

fn do_script_text(app: &str, line: &str) -> (r: String)
    ensures
        r@ == do_script(app@, line@),
{
    let mut r = concat3("tell application \"", app, "\" to do script \"");
    r.push_str(line);
    r.push_str("\"");
    r
}

/// The AppleScript that opens a terminal on a command, which is escaped
/// already. Other terminals than iTerm start a shell, which the command then
/// replaces.
pub open spec fn terminal_script(app: Seq<char>, cmd: Seq<char>) -> Seq<char> {
    if is_iterm(app) {
        iterm_script(app, cmd)
    } else {
        do_script(app, "exec "@ + cmd)
    }
}

/// The AppleScript that opens a terminal on a command, which is escaped
/// already.
pub fn macos_terminal_apple_script(app: &str, cmd: &str) -> (r: String)
    ensures
        r@ == terminal_script(app@, cmd@),
{
    if iterm(app) {
        iterm_script_text(app, cmd)
    } else {
        let line = concat2("exec ", cmd);
        do_script_text(app, line.as_str())
    }
}

/// The shell line that enters a directory and runs a command there.
pub open spec fn enter_and_run(path: Seq<char>, command: Seq<char>) -> Seq<char> {
    "cd "@ + quoted(path) + " && "@ + command
}

/// The AppleScript that runs a shell line in a new window. iTerm takes no
/// shell line, so that it is wrapped in `sh -c` there.
pub open spec fn shell_line_script(app: Seq<char>, line: Seq<char>) -> Seq<char> {
    if is_iterm(app) {
        iterm_script(app, "sh -c \\\""@ + double_escaped(line) + "\\\""@)
    } else {
        do_script(app, double_escaped(line))
    }
}

fn shell_line_script_text(app: &str, line: &str) -> (r: String)
    ensures
        r@ == shell_line_script(app@, line@),
{
    let escaped = shell_quote(line);
    if iterm(app) {
        let command = concat3("sh -c \\\"", escaped.as_str(), "\\\"");
        iterm_script_text(app, command.as_str())
    } else {
        do_script_text(app, escaped.as_str())
    }
}

fn enter_and_run_text(path: &str, command: &str) -> (r: String)
    ensures
        r@ == enter_and_run(path@, command@),
{
    let q = posix_quote(path);
    let mut line = concat3("cd ", q.as_str(), " && ");
    line.push_str(command);
    line
}

/// The AppleScript that opens a terminal in a directory and runs the coding
/// assistant there.
pub fn macos_claude_apple_script(app: &str, path: &str, program: &str) -> (r: String)
    ensures
        r@ == shell_line_script(app@, enter_and_run(path@, "exec "@ + program@)),
{
    let line = concat2("exec ", program);
    macos_shell_line_script(app, path, line.as_str())
}

/// The AppleScript that opens a terminal in a directory and runs a shell line
/// there.
pub fn macos_shell_line_script(app: &str, path: &str, line: &str) -> (r: String)
    ensures
        r@ == shell_line_script(app@, enter_and_run(path@, line@)),
{
    let whole = enter_and_run_text(path, line);
    shell_line_script_text(app, whole.as_str())
}

/// The AppleScript that opens a terminal in a directory. In iTerm the window
/// needs a process of its own, which is the login shell.
pub open spec fn open_terminal_script(app: Seq<char>, path: Seq<char>) -> Seq<char> {
    if is_iterm(app) {
        shell_line_script(app, enter_and_run(path, "exec ${SHELL:-/bin/sh} -l"@))
    } else {
        shell_line_script(app, "cd "@ + quoted(path))
    }
}

/// The AppleScript that opens a terminal in a directory.
pub fn macos_open_terminal_script(app: &str, path: &str) -> (r: String)
    ensures
        r@ == open_terminal_script(app@, path@),
{
    if iterm(app) {
        let line = enter_and_run_text(path, "exec ${SHELL:-/bin/sh} -l");
        shell_line_script_text(app, line.as_str())
    } else {
        let q = posix_quote(path);
        let line = concat2("cd ", q.as_str());
        shell_line_script_text(app, line.as_str())
    }
}

/// A remote shell reads the path that it is given as one word: as it is, or
/// under a home directory that it expands.
pub proof fn remote_paths_are_read_back(p: Seq<char>)
    ensures
        p.len() == 0 || p[0] != '~' ==> shell_word(remote_quoted(p), false) == Some(p),
        remote_quoted(seq!['~']) == seq!['~'],
        remote_quoted(seq!['~', '/'] + p).len() >= 2,
        remote_quoted(seq!['~', '/'] + p).take(2) == seq!['~', '/'],
        shell_word(remote_quoted(seq!['~', '/'] + p).skip(2), false) == Some(p),
{
    quoted_is_one_word(p);
    let h = seq!['~', '/'] + p;
    crate::text::lemma_first_index_unique(h, '/', 1);
    assert(h.take(2) =~= seq!['~', '/']);
    assert(h.skip(2) =~= p);
    let r = remote_quoted(h);
    assert(r.take(2) =~= seq!['~', '/']);
    assert(r.skip(2) =~= quoted(p));
    let home = seq!['~'];
    crate::text::lemma_first_index(home, '/');
    let i = first_index(home, '/');
    if i < home.len() {
        assert(home[i] == '/');
    }
}

/// An sftp session, which starts in the home directory, reads the path that it
/// is given as one word; a leading `~/` is left out.
pub proof fn sftp_paths_are_read_back(p: Seq<char>)
    ensures
        p.len() == 0 || p[0] != '~' ==> shell_word(sftp_quoted(p), false) == Some(p),
        sftp_quoted(seq!['~']) == seq!['.'],
        shell_word(sftp_quoted(seq!['~', '/'] + p), false) == Some(p),
{
    quoted_is_one_word(p);
    assert((seq!['~', '/'] + p).skip(2) =~= p);
}

} // verus!
