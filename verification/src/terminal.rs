//! The terminal: its output lines and their styles, the command history, the
//! suggestions, and what a typed command asks the shell around it to do.
use vstd::prelude::*;
use vstd::string::StringExecFns;
use crate::text::{
    occurs_at, contains_seq, starts_with_seq, is_whitespace, word_end, words, split_whitespace,
    strs_view, str_contains, str_starts_with, to_chars, substring, lemma_word_end, str_eq,
};
use crate::paths::{path_join, join_path};
use crate::code_editor::opt_str;

verus! {

/// How a terminal line is shown.
pub enum LineStyle {
    Default,
    Command,
    Success,
    Error,
    Warning,
    /// A link to this address.
    Link(String),
    /// Highlighted as source code of the language with this file extension.
    Highlight(String),
}

/// A line of terminal output.
pub struct TerminalLine {
    pub text: String,
    pub style: LineStyle,
}

/// What the shell around the terminal is to do after a command.
pub enum CommandAction {
    /// Nothing was typed.
    Nothing,
    /// Resolve this directory; report back with `finish_change_directory`.
    ChangeDirectory(String),
    /// The output was cleared.
    Cleared,
    /// Restart the shell; report back with `shell_restarted`.
    Exit,
    /// Send this line to the shell.
    Send(String),
    /// `cd` came without a directory.
    Usage,
}

/// The length of the `http://` or `https://` that starts a link at `i`, or 0
/// when no link starts there (a link needs a non-white-space character after
/// its `//`).
pub open spec fn url_prefix_len(s: Seq<char>, i: int) -> int {
    if occurs_at(s, "https://"@, i) && i + 8 < s.len() && !is_whitespace(s[i + 8]) {
        8
    } else if occurs_at(s, "http://"@, i) && i + 7 < s.len() && !is_whitespace(s[i + 7]) {
        7
    } else {
        0
    }
}

/// The first index at or after `i` where a link starts, or `s.len()`.
pub open spec fn first_url_from(s: Seq<char>, i: int) -> int
    decreases s.len() - i,
{
    if i >= s.len() {
        s.len() as int
    } else if i >= 0 && url_prefix_len(s, i) > 0 {
        i
    } else {
        first_url_from(s, i + 1)
    }
}

/// The leftmost match of `https?://\S+` in `s`: the first link, up to the
/// next white space.
pub open spec fn url_in(s: Seq<char>) -> Option<Seq<char>> {
    let i = first_url_from(s, 0);
    if i >= s.len() {
        None
    } else {
        Some(s.subrange(i, word_end(s, i + url_prefix_len(s, i))))
    }
}

/// The pattern of an address in a terminal line.
pub open spec fn url_pattern() -> Seq<char> {
    "https?://\\S+"@
}

/// The leftmost match of `pattern`, which is `https?://\S+`, in `line` (regex
/// crate: `Regex::new` and `Regex::find`), as the text it matched. The pattern
/// always compiles. It is matched leftmost-first with a greedy `s?` and
/// `\S+`, `\S` being every character without the Unicode `White_Space`
/// property, which the contract spells out as `url_in`.
#[verifier::external_body]
fn find_url(pattern: &str, line: &str) -> (r: Option<String>)
    requires
        pattern@ == url_pattern(),
    ensures
        opt_str(r) == url_in(line@),
{
    regex::Regex::new(pattern).unwrap().find(line).map(|m| m.as_str().to_string())
}

/// The language a line seems to speak of, by a file extension it holds.
pub open spec fn guessed_syntax(line: Seq<char>) -> Option<Seq<char>> {
    if contains_seq(line, ".rs"@) {
        Some("rs"@)
    } else if contains_seq(line, ".py"@) {
        Some("py"@)
    } else {
        None
    }
}

/// The style of a line that is neither an error, a warning nor a command:
/// a link, else highlighted code, else plain.
pub open spec fn link_or_code_style(line: Seq<char>, style: LineStyle) -> bool {
    match url_in(line) {
        Some(u) => style matches LineStyle::Link(v) && v@ == u,
        None => match guessed_syntax(line) {
            Some(x) => style matches LineStyle::Highlight(v) && v@ == x,
            None => style is Default,
        },
    }
}

/// A line of shell output that echoes a command.
pub open spec fn is_prompt_line(line: Seq<char>) -> bool {
    !contains_seq(line, "ERROR:"@) && !contains_seq(line, "warning"@) && starts_with_seq(line, "$ "@)
}

/// The style a line of shell output gets: errors, warnings, echoed commands
/// (plain, their command being shown apart), then links and code.
pub open spec fn styled_as(line: Seq<char>, style: LineStyle) -> bool {
    if contains_seq(line, "ERROR:"@) {
        style is Error
    } else if contains_seq(line, "warning"@) {
        style is Warning
    } else if starts_with_seq(line, "$ "@) {
        style is Default
    } else {
        link_or_code_style(line, style)
    }
}

/// The commands that a batch of shell output echoes, prompts removed.
pub open spec fn echoed_commands(ls: Seq<String>) -> Seq<Seq<char>>
    decreases ls.len(),
{
    if ls.len() == 0 {
        Seq::empty()
    } else {
        echoed_commands(ls.drop_last()) + if is_prompt_line(ls.last()@) {
            seq![strip_prompts(ls.last()@)]
        } else {
            Seq::empty()
        }
    }
}

/// `s` without every leading `"$ "`.
pub open spec fn strip_prompts(s: Seq<char>) -> Seq<char>
    decreases s.len(),
{
    if s.len() >= 2 && s[0] == '$' && s[1] == ' ' {
        strip_prompts(s.subrange(2, s.len() as int))
    } else {
        s
    }
}

/// Removing the prompts twice removes no more than once.
pub proof fn lemma_strip_prompts_idempotent(s: Seq<char>)
    ensures
        strip_prompts(strip_prompts(s)) == strip_prompts(s),
        !(strip_prompts(s).len() >= 2 && strip_prompts(s)[0] == '$' && strip_prompts(s)[1] == ' '),
    decreases s.len(),
{
    if s.len() >= 2 && s[0] == '$' && s[1] == ' ' {
        lemma_strip_prompts_idempotent(s.subrange(2, s.len() as int));
    }
}

/// The commands offered as completions.
pub open spec fn known_commands() -> Seq<Seq<char>> {
    seq!["cd"@, "ls"@, "pwd"@, "git"@, "clear"@, "exit"@]
}

/// The known commands that begin with `input`, in order.
pub open spec fn completions_upto(input: Seq<char>, n: int) -> Seq<Seq<char>>
    decreases n,
{
    if n <= 0 {
        Seq::empty()
    } else {
        completions_upto(input, n - 1) + if starts_with_seq(known_commands()[n - 1], input) {
            seq![known_commands()[n - 1]]
        } else {
            Seq::empty()
        }
    }
}

proof fn lemma_completions_upto(input: Seq<char>, n: int)
    requires
        0 <= n <= 6,
    ensures
        forall|k: int|
            0 <= k < completions_upto(input, n).len() ==> input.len() <= (#[trigger] completions_upto(input, n)[k]).len()
                && completions_upto(input, n)[k].subrange(0, input.len() as int) == input,
        forall|k: int|
            0 <= k < completions_upto(input, n).len() ==> exists|j: int| 0 <= j < n && known_commands()[j] == #[trigger] completions_upto(input, n)[k],
        forall|j: int|
            0 <= j < n && input.len() <= (#[trigger] known_commands()[j]).len() && known_commands()[j].subrange(0, input.len() as int) == input
                ==> completions_upto(input, n).contains(known_commands()[j]),
    decreases n,
{
    if n > 0 {
        lemma_completions_upto(input, n - 1);
        let prev = completions_upto(input, n - 1);
        let c = known_commands()[n - 1];
        let tail = if starts_with_seq(c, input) { seq![c] } else { Seq::<Seq<char>>::empty() };
        let cur = completions_upto(input, n);
        assert(cur == prev + tail);
        assert forall|k: int| 0 <= k < cur.len() implies input.len() <= (#[trigger] cur[k]).len()
            && cur[k].subrange(0, input.len() as int) == input by {
            if k >= prev.len() {
                assert(cur[k] == tail[k - prev.len()]);
            } else {
                assert(cur[k] == prev[k]);
            }
        }
        assert forall|k: int| 0 <= k < cur.len() implies exists|j: int| 0 <= j < n && known_commands()[j] == #[trigger] cur[k] by {
            if k >= prev.len() {
                assert(cur[k] == known_commands()[n - 1]);
            } else {
                assert(cur[k] == prev[k]);
                let j = choose|j: int| 0 <= j < n - 1 && known_commands()[j] == prev[k];
                assert(known_commands()[j] == cur[k]);
            }
        }
        assert forall|j: int|
            0 <= j < n && input.len() <= (#[trigger] known_commands()[j]).len() && known_commands()[j].subrange(0, input.len() as int) == input
            implies cur.contains(known_commands()[j]) by {
            if j == n - 1 {
                assert(cur[cur.len() - 1] == known_commands()[j]);
            } else {
                let k = choose|k: int| 0 <= k < prev.len() && prev[k] == known_commands()[j];
                assert(cur[k] == prev[k]);
            }
        }
    }
}

/// What completing a typed command offers: every suggestion is a known
/// command that begins with the typed text, and every known command that
/// begins with it is suggested.
pub proof fn lemma_completions_begin_with_input(input: Seq<char>)
    ensures
        forall|k: int|
            0 <= k < completions_upto(input, 6).len() ==> input.len() <= (#[trigger] completions_upto(input, 6)[k]).len()
                && completions_upto(input, 6)[k].subrange(0, input.len() as int) == input
                && known_commands().contains(completions_upto(input, 6)[k]),
        forall|c: Seq<char>|
            #[trigger] known_commands().contains(c) && input.len() <= c.len() && c.subrange(0, input.len() as int) == input
                ==> completions_upto(input, 6).contains(c),
{
    lemma_completions_upto(input, 6);
    assert forall|k: int| 0 <= k < completions_upto(input, 6).len() implies known_commands().contains(
        #[trigger] completions_upto(input, 6)[k],
    ) by {
        let j = choose|j: int| 0 <= j < 6 && known_commands()[j] == completions_upto(input, 6)[k];
    }
    assert forall|c: Seq<char>|
        #[trigger] known_commands().contains(c) && input.len() <= c.len() && c.subrange(0, input.len() as int) == input
        implies completions_upto(input, 6).contains(c) by {
        let j = choose|j: int| 0 <= j < known_commands().len() && known_commands()[j] == c;
    }
}

/// The directory that `cd arg` names: `arg` itself when it starts with `/`
/// or holds a `:`, else `arg` under the current directory.
pub open spec fn cd_target(current: Seq<char>, arg: Seq<char>) -> Seq<char> {
    if starts_with_seq(arg, "/"@) || contains_seq(arg, ":"@) {
        arg
    } else {
        path_join(current, arg)
    }
}

/// The line's text and style.
pub open spec fn line_is(l: TerminalLine, text: Seq<char>, style: LineStyle) -> bool {
    l.text@ == text && l.style == style
}

/// The text of a string and nothing else.
pub open spec fn texts(v: Seq<TerminalLine>) -> Seq<Seq<char>> {
    Seq::new(v.len(), |i: int| v[i].text@)
}

/// The terminal's state.
pub struct Terminal {
    pub current_directory: String,
    pub input: String,
    pub output: Vec<TerminalLine>,
    pub command_history: Vec<String>,
    pub history_index: Option<usize>,
    pub auto_complete_suggestions: Vec<String>,
}

fn line(text: &str, style: LineStyle) -> (l: TerminalLine)
    ensures
        l.text@ == text@,
        l.style == style,
{
    TerminalLine { text: String::from_str(text), style }
}

impl Terminal {
    /// A terminal in `initial_path` with no output and no history.
    pub fn new(initial_path: String) -> (t: Self)
        ensures
            t.current_directory == initial_path,
            t.input@ == Seq::<char>::empty(),
            t.output@.len() == 0,
            t.command_history@.len() == 0,
            t.history_index.is_none(),
            t.auto_complete_suggestions@.len() == 0,
    {
        Terminal {
            current_directory: initial_path,
            input: String::new(),
            output: Vec::new(),
            command_history: Vec::new(),
            history_index: None,
            auto_complete_suggestions: Vec::new(),
        }
    }

    /// Empties the output, leaving a note that it was cleared.
    pub fn clear(&mut self)
        ensures
            final(self).output@.len() == 1,
            line_is(final(self).output@[0], "Terminal cleared"@, LineStyle::Success),
            final(self).input == old(self).input,
            final(self).command_history == old(self).command_history,
            final(self).history_index == old(self).history_index,
            final(self).current_directory == old(self).current_directory,
    {
        self.output = Vec::new();
        self.output.push(line("Terminal cleared", LineStyle::Success));
    }

    /// Appends a plain line.
    pub fn add_output(&mut self, message: String)
        ensures
            final(self).output@ == old(self).output@.push(
                TerminalLine { text: message, style: LineStyle::Default },
            ),
            final(self).input == old(self).input,
            final(self).command_history == old(self).command_history,
    {
        self.output.push(TerminalLine { text: message, style: LineStyle::Default });
    }

    /// Notes that a running process was interrupted.
    pub fn subprocess_interrupted(&mut self)
        ensures
            final(self).output@.len() == old(self).output@.len() + 1,
            final(self).output@.drop_last() == old(self).output@,
            line_is(final(self).output@.last(), "Process interrupted"@, LineStyle::Warning),
    {
        self.output.push(line("Process interrupted", LineStyle::Warning));
        assert(self.output@.drop_last() =~= old(self).output@);
    }

    /// Notes that the shell was restarted.
    pub fn shell_restarted(&mut self)
        ensures
            final(self).output@.len() == old(self).output@.len() + 1,
            final(self).output@.drop_last() == old(self).output@,
            line_is(final(self).output@.last(), "Shell restarted"@, LineStyle::Success),
    {
        self.output.push(line("Shell restarted", LineStyle::Success));
        assert(self.output@.drop_last() =~= old(self).output@);
    }

    /// Notes that a new shell was spawned.
    pub fn shell_spawned(&mut self)
        ensures
            final(self).output@.len() == old(self).output@.len() + 1,
            final(self).output@.drop_last() == old(self).output@,
            line_is(final(self).output@.last(), "New shell spawned."@, LineStyle::Success),
    {
        self.output.push(line("New shell spawned.", LineStyle::Success));
        assert(self.output@.drop_last() =~= old(self).output@);
    }

    /// Notes that a command could not be sent to the shell.
    pub fn send_failed(&mut self)
        ensures
            final(self).output@.len() == old(self).output@.len() + 1,
            final(self).output@.drop_last() == old(self).output@,
            line_is(final(self).output@.last(), "Failed to send command to shell"@, LineStyle::Error),
    {
        self.output.push(line("Failed to send command to shell", LineStyle::Error));
        assert(self.output@.drop_last() =~= old(self).output@);
    }

    /// Runs the typed command: it joins the history; `cd`, `clear` and `exit`
    /// are handled here or handed back, anything else is echoed after `$ `
    /// and handed back to be sent. The input and the suggestions are cleared.
    pub fn execute_command(&mut self) -> (action: CommandAction)
        requires
            old(self).input@.len() == 0 || words(old(self).input@).len() > 0,
        ensures
            old(self).input@.len() == 0 ==> action is Nothing && *final(self) == *old(self),
            old(self).input@.len() > 0 ==> {
                let ws = words(old(self).input@);
                let first = ws[0];
                &&& final(self).command_history@ == old(self).command_history@.push(old(self).input)
                &&& final(self).history_index.is_none()
                &&& final(self).input@ == Seq::<char>::empty()
                &&& final(self).auto_complete_suggestions@.len() == 0
                &&& final(self).current_directory == old(self).current_directory
                &&& if first == "cd"@ {
                    if ws.len() > 1 {
                        &&& action matches CommandAction::ChangeDirectory(p) && p@ == cd_target(
                            old(self).current_directory@,
                            ws[1],
                        )
                        &&& final(self).output == old(self).output
                    } else {
                        &&& action is Usage
                        &&& final(self).output@ == old(self).output@.push(final(self).output@.last())
                        &&& line_is(final(self).output@.last(), "Usage: cd <directory>"@, LineStyle::Warning)
                    }
                } else if first == "clear"@ {
                    &&& action is Cleared
                    &&& final(self).output@.len() == 1
                    &&& line_is(final(self).output@[0], "Terminal cleared"@, LineStyle::Success)
                } else if first == "exit"@ {
                    &&& action is Exit
                    &&& final(self).output == old(self).output
                } else {
                    &&& action matches CommandAction::Send(c) && c@ == old(self).input@
                    &&& final(self).output@ == old(self).output@.push(final(self).output@.last())
                    &&& line_is(final(self).output@.last(), "$ "@ + old(self).input@, LineStyle::Command)
                }
            },
    {
        if self.input.as_str().is_empty() {
            return CommandAction::Nothing;
        }
        let input = self.input.clone();
        self.command_history.push(input.clone());
        self.history_index = None;
        let parts = split_whitespace(input.as_str());
        assert(strs_view(parts@)[0] == parts@[0]@);
        let action = if str_eq(parts[0].as_str(), "cd") {
            if parts.len() > 1 {
                assert(strs_view(parts@)[1] == parts@[1]@);
                let arg = parts[1].as_str();
                let target = if str_starts_with(arg, "/") || str_contains(arg, ":") {
                    String::from_str(arg)
                } else {
                    join_path(self.current_directory.as_str(), arg)
                };
                CommandAction::ChangeDirectory(target)
            } else {
                let ghost before = self.output@;
                self.output.push(line("Usage: cd <directory>", LineStyle::Warning));
                assert(self.output@.drop_last() =~= before);
                CommandAction::Usage
            }
        } else if str_eq(parts[0].as_str(), "clear") {
            self.clear();
            CommandAction::Cleared
        } else if str_eq(parts[0].as_str(), "exit") {
            CommandAction::Exit
        } else {
            let mut echo = String::from_str("$ ");
            echo.append(input.as_str());
            let ghost before = self.output@;
            self.output.push(TerminalLine { text: echo, style: LineStyle::Command });
            assert(self.output@.drop_last() =~= before);
            CommandAction::Send(input)
        };
        self.input = String::new();
        self.auto_complete_suggestions = Vec::new();
        action
    }

    /// Reports how resolving a `cd` target went: on success the terminal moves
    /// there, says so, and returns the line that moves the shell; on failure
    /// it shows the error.
    pub fn finish_change_directory(&mut self, resolved: Result<String, String>) -> (shell_line: Option<String>)
        ensures
            match resolved {
                Ok(dir) => {
                    &&& final(self).current_directory@ == dir@
                    &&& shell_line matches Some(l) && l@ == "cd \""@ + dir@ + "\""@
                    &&& final(self).output@.len() == old(self).output@.len() + 1
                    &&& final(self).output@.drop_last() == old(self).output@
                    &&& line_is(final(self).output@.last(), "Changed directory to: "@ + dir@, LineStyle::Success)
                },
                Err(e) => {
                    &&& final(self).current_directory == old(self).current_directory
                    &&& shell_line.is_none()
                    &&& final(self).output@.len() == old(self).output@.len() + 1
                    &&& final(self).output@.drop_last() == old(self).output@
                    &&& line_is(final(self).output@.last(), "Error changing directory: "@ + e@, LineStyle::Error)
                },
            },
            final(self).input == old(self).input,
            final(self).command_history == old(self).command_history,
    {
        match resolved {
            Ok(dir) => {
                let mut msg = String::from_str("Changed directory to: ");
                msg.append(dir.as_str());
                let mut cmd = String::from_str("cd \"");
                cmd.append(dir.as_str());
                cmd.append("\"");
                self.output.push(TerminalLine { text: msg, style: LineStyle::Success });
                assert(self.output@.drop_last() =~= old(self).output@);
                self.current_directory = dir;
                Some(cmd)
            },
            Err(e) => {
                let mut msg = String::from_str("Error changing directory: ");
                msg.append(e.as_str());
                self.output.push(TerminalLine { text: msg, style: LineStyle::Error });
                assert(self.output@.drop_last() =~= old(self).output@);
                None
            },
        }
    }

    /// Steps through the history: up goes to older commands, down to newer
    /// ones, stopping at either end; the input shows the command reached.
    pub fn navigate_history(&mut self, previous: bool)
        ensures
            old(self).command_history@.len() == 0 ==> *final(self) == *old(self),
            old(self).command_history@.len() > 0 ==> {
                let n = old(self).command_history@.len();
                let idx: usize = match old(self).history_index {
                    None => if previous {
                        (n - 1) as usize
                    } else {
                        0usize
                    },
                    Some(i) => if previous && i > 0 {
                        (i - 1) as usize
                    } else if !previous && i < n - 1 {
                        (i + 1) as usize
                    } else {
                        i
                    },
                };
                &&& final(self).history_index == Some(idx)
                &&& (idx < n ==> final(self).input == old(self).command_history@[idx as int])
                &&& final(self).command_history == old(self).command_history
                &&& final(self).output == old(self).output
            },
            old(self).history_index.is_none() || old(self).history_index.unwrap()
                < old(self).command_history@.len() ==> (final(self).history_index.is_none()
                || final(self).history_index.unwrap() < final(self).command_history@.len()),
    {
        let n = self.command_history.len();
        if n == 0 {
            return;
        }
        match self.history_index {
            None => {
                self.history_index = Some(if previous { n - 1 } else { 0 });
            },
            Some(index) => {
                if previous && index > 0 {
                    self.history_index = Some(index - 1);
                } else if !previous && index < n - 1 {
                    self.history_index = Some(index + 1);
                }
            },
        }
        match self.history_index {
            Some(index) => {
                if index < n {
                    self.input = self.command_history[index].clone();
                }
            },
            None => {},
        }
    }

    /// The known commands that begin with the input become the suggestions.
    pub fn auto_complete(&mut self)
        ensures
            strs_view(final(self).auto_complete_suggestions@) == completions_upto(
                old(self).input@,
                6,
            ),
            final(self).input == old(self).input,
            final(self).output == old(self).output,
            final(self).command_history == old(self).command_history,
    {
        let mut out: Vec<String> = Vec::new();
        let cands = ["cd", "ls", "pwd", "git", "clear", "exit"];
        let ghost kc = known_commands();
        assert(kc.len() == 6);
        let mut i: usize = 0;
        while i < 6
            invariant
                i <= 6,
                cands@.len() == 6,
                forall|k: int| 0 <= k < 6 ==> (#[trigger] cands@[k])@ == known_commands()[k],
                strs_view(out@) == completions_upto(self.input@, i as int),
            decreases 6 - i,
        {
            let c = cands[i];
            if str_starts_with(c, self.input.as_str()) {
                let ghost before = out@;
                out.push(String::from_str(c));
                assert(strs_view(out@) =~= strs_view(before).push(known_commands()[i as int]));
            }
            i = i + 1;
        }
        self.auto_complete_suggestions = out;
    }

    /// Adds a batch of shell output: first, for each line that echoes a
    /// command, that command (prompts removed) as a command line; then every
    /// line of the batch with its style.
    pub fn update(&mut self, lines: Vec<String>)
        ensures
            ({
                let e = echoed_commands(lines@);
                let base = old(self).output@.len();
                &&& final(self).output@.len() == base + e.len() + lines@.len()
                &&& final(self).output@.subrange(0, base as int) == old(self).output@
                &&& forall|k: int|
                    0 <= k < e.len() ==> line_is(
                        #[trigger] final(self).output@[base + k],
                        e[k],
                        LineStyle::Command,
                    )
                &&& forall|k: int|
                    0 <= k < lines@.len() ==> {
                        let l = #[trigger] final(self).output@[base + e.len() + k];
                        &&& l.text@ == lines@[k]@
                        &&& styled_as(lines@[k]@, l.style)
                    }
            }),
            final(self).input == old(self).input,
            final(self).command_history == old(self).command_history,
            final(self).current_directory == old(self).current_directory,
    {
        let mut styled: Vec<TerminalLine> = Vec::new();
        let ghost base = self.output@.len();
        let mut i: usize = 0;
        while i < lines.len()
            invariant
                i <= lines@.len(),
                self.output@.len() == base + echoed_commands(lines@.take(i as int)).len(),
                self.output@.subrange(0, base as int) == old(self).output@,
                forall|k: int|
                    0 <= k < echoed_commands(lines@.take(i as int)).len() ==> line_is(
                        #[trigger] self.output@[base + k],
                        echoed_commands(lines@.take(i as int))[k],
                        LineStyle::Command,
                    ),
                styled@.len() == i,
                forall|k: int|
                    0 <= k < i ==> {
                        let l = #[trigger] styled@[k];
                        &&& l.text@ == lines@[k]@
                        &&& styled_as(lines@[k]@, l.style)
                    },
                self.input == old(self).input,
                self.command_history == old(self).command_history,
                self.current_directory == old(self).current_directory,
            decreases lines@.len() - i,
        {
            let text = lines[i].as_str();
            assert(lines@.take(i + 1).drop_last() =~= lines@.take(i as int));
            let style = Self::classify_line(text);
            let ghost before = self.output@;
            let ghost eb = echoed_commands(lines@.take(i as int));
            if !str_contains(text, "ERROR:") && !str_contains(text, "warning") && str_starts_with(text, "$ ") {
                let stripped = strip_prompts_str(text);
                self.output.push(TerminalLine { text: stripped, style: LineStyle::Command });
                assert(self.output@.subrange(0, base as int) =~= before.subrange(0, base as int));
            }
            styled.push(TerminalLine { text: lines[i].clone(), style });
            i = i + 1;
            assert(echoed_commands(lines@.take(i as int)).subrange(0, eb.len() as int) =~= eb);
        }
        assert(lines@.take(lines@.len() as int) =~= lines@);
        let ghost mid = self.output@;
        self.output.append(&mut styled);
        assert(self.output@.subrange(0, base as int) =~= mid.subrange(0, base as int));
    }

    /// The style a line of shell output gets by itself: errors, warnings, then
    /// links and code.
    pub fn classify_line(line: &str) -> (style: LineStyle)
        ensures
            styled_as(line@, style),
    {
        if str_contains(line, "ERROR:") {
            LineStyle::Error
        } else if str_contains(line, "warning") {
            LineStyle::Warning
        } else if str_starts_with(line, "$ ") {
            LineStyle::Default
        } else {
            match find_url("https?://\\S+", line) {
                Some(u) => LineStyle::Link(u),
                None => if str_contains(line, ".rs") {
                    LineStyle::Highlight(String::from_str("rs"))
                } else if str_contains(line, ".py") {
                    LineStyle::Highlight(String::from_str("py"))
                } else {
                    LineStyle::Default
                },
            }
        }
    }
}

/// `s` without its leading `"$ "`s.
pub fn strip_prompts_str(s: &str) -> (r: String)
    ensures
        r@ == strip_prompts(s@),
{
    let v = to_chars(s);
    let n = v.len();
    let mut i: usize = 0;
    assert(s@.subrange(0, n as int) =~= s@);
    while i < n && n - i > 1 && v[i] == '$' && v[i + 1] == ' '
        invariant
            v@ == s@,
            n == s@.len(),
            i <= n,
            strip_prompts(s@.subrange(i as int, n as int)) == strip_prompts(s@),
        decreases n - i,
    {
        let ghost t = s@.subrange(i as int, n as int);
        assert(t.subrange(2, t.len() as int) =~= s@.subrange(i + 2, n as int));
        i = i + 2;
    }
    substring(&v, i, n)
}

} // verus!
