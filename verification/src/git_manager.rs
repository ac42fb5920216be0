//! The Git history of a project: the commands that read and reset it, how
//! their output is interpreted, and the guard that lets one reset run at a time.
use vstd::prelude::*;
use crate::text::{lines, occurs_at, to_chars, string_from_chars, slice_chars, find_from, line_spans, span_is_line};

verus! {

/// A point in time as chrono parses it: seconds since the Unix epoch, the
/// nanoseconds within that second, and the offset from UTC (in seconds) that
/// the text gave.
#[derive(Debug, Clone, Copy, PartialEq, Eq, Structural)]
pub struct CommitDate {
    pub timestamp: i64,
    pub nanos: u32,
    pub offset_seconds: i32,
}

/// What `DateTime::parse_from_rfc3339` gives for a text, when it parses.
pub uninterp spec fn rfc3339_date(s: Seq<char>) -> Option<CommitDate>;

/// What `DateTime::parse_from_str` gives for a text and a format: the date,
/// or the text of its parse error.
pub uninterp spec fn formatted_date(s: Seq<char>, fmt: Seq<char>) -> Result<CommitDate, Seq<char>>;

/// The text that `String::from_utf8_lossy` makes of bytes.
pub uninterp spec fn utf8_lossy(b: Seq<u8>) -> Seq<char>;

/// The text of the error that `String::from_utf8` reports for invalid bytes.
pub uninterp spec fn utf8_error_text(b: Seq<u8>) -> Seq<char>;

/// `DateTime::parse_from_rfc3339`, its result taken apart.
#[verifier::external_body]
fn parse_rfc3339(s: &str) -> (r: Option<CommitDate>)
    ensures
        r == rfc3339_date(s@),
{
    chrono::DateTime::parse_from_rfc3339(s).ok().map(
        |d| CommitDate { timestamp: d.timestamp(), nanos: d.timestamp_subsec_nanos(), offset_seconds: d.offset().local_minus_utc() },
    )
}

/// `DateTime::parse_from_str`, its result taken apart.
#[verifier::external_body]
fn parse_with_format(s: &str, fmt: &str) -> (r: Result<CommitDate, String>)
    ensures
        match r {
            Ok(d) => formatted_date(s@, fmt@) == Ok::<CommitDate, Seq<char>>(d),
            Err(e) => formatted_date(s@, fmt@) == Err::<CommitDate, Seq<char>>(e@),
        },
{
    match chrono::DateTime::parse_from_str(s, fmt) {
        Ok(d) => Ok(CommitDate { timestamp: d.timestamp(), nanos: d.timestamp_subsec_nanos(), offset_seconds: d.offset().local_minus_utc() }),
        Err(e) => Err(e.to_string()),
    }
}

/// `String::from_utf8_lossy`: the bytes as text, each invalid sequence replaced
/// by U+FFFD.
#[verifier::external_body]
pub(crate) fn lossy_text(b: &[u8]) -> (r: String)
    ensures
        r@ == utf8_lossy(b@),
{
    String::from_utf8_lossy(b).into_owned()
}

/// `String::from_utf8`: the bytes as text when they are valid UTF-8, else the
/// error's text.
#[verifier::external_body]
pub(crate) fn utf8_text(b: Vec<u8>) -> (r: Result<String, String>)
    ensures
        match r {
            Ok(s) => vstd::utf8::valid_utf8(b@) && s@ == vstd::utf8::decode_utf8(b@),
            Err(e) => !vstd::utf8::valid_utf8(b@) && e@ == utf8_error_text(b@),
        },
{
    match String::from_utf8(b) {
        Ok(s) => Ok(s),
        Err(e) => Err(e.to_string()),
    }
}

/// The first index at or after `i` at which `sep` occurs in `s`, or -1.
pub open spec fn first_occurrence_from(s: Seq<char>, sep: Seq<char>, i: int) -> int
    decreases s.len() + 1 - i,
{
    if i < 0 || i + sep.len() > s.len() {
        -1
    } else if occurs_at(s, sep, i) {
        i
    } else {
        first_occurrence_from(s, sep, i + 1)
    }
}

/// The pieces of `s[i..]` between the occurrences of `sep` (`str::split`).
pub open spec fn split_from(s: Seq<char>, sep: Seq<char>, i: int) -> Seq<Seq<char>>
    recommends
        sep.len() > 0,
    decreases s.len() + 1 - i,
{
    let j = first_occurrence_from(s, sep, i);
    if sep.len() == 0 || i < 0 || i > s.len() || j < 0 {
        seq![s.subrange(i, s.len() as int)]
    } else {
        proof {
            lemma_first_occurrence(s, sep, i);
        }
        seq![s.subrange(i, j)] + split_from(s, sep, j + sep.len())
    }
}

/// The pieces of `s` between the occurrences of `sep`.
pub open spec fn split_seq(s: Seq<char>, sep: Seq<char>) -> Seq<Seq<char>> {
    split_from(s, sep, 0)
}

pub proof fn lemma_first_occurrence(s: Seq<char>, sep: Seq<char>, i: int)
    requires
        0 <= i,
    ensures
        first_occurrence_from(s, sep, i) == -1 || (i <= first_occurrence_from(s, sep, i) && occurs_at(
            s,
            sep,
            first_occurrence_from(s, sep, i),
        )),
        forall|k: int| i <= k && (first_occurrence_from(s, sep, i) == -1 || k < first_occurrence_from(s, sep, i)) ==> !occurs_at(s, sep, k),
    decreases s.len() + 1 - i,
{
    if i + sep.len() <= s.len() && !occurs_at(s, sep, i) {
        lemma_first_occurrence(s, sep, i + 1);
    }
}

/// The pieces of `s` between the occurrences of a non-empty `sep`.
pub fn split_str(s: &str, sep: &str) -> (r: Vec<String>)
    requires
        sep@.len() > 0,
    ensures
        r@.map_values(|p: String| p@) == split_seq(s@, sep@),
{
    let c = to_chars(s);
    let p = to_chars(sep);
    let n = c.len();
    let m = p.len();
    let mut r: Vec<String> = Vec::new();
    let ghost mut acc: Seq<Seq<char>> = Seq::empty();
    let mut i: usize = 0;
    loop
        invariant
            c@ == s@,
            p@ == sep@,
            n == s@.len(),
            m == sep@.len(),
            m > 0,
            i <= n,
            r@.map_values(|q: String| q@) == acc,
            acc + split_from(s@, sep@, i as int) == split_seq(s@, sep@),
        decreases n + 1 - i,
    {
        proof {
            lemma_first_occurrence(s@, sep@, i as int);
        }
        match find_from(&c, &p, i) {
            Some(j) => {
                assert(j as int == first_occurrence_from(s@, sep@, i as int)) by {
                    let f = first_occurrence_from(s@, sep@, i as int);
                    if f == -1 {
                        assert(!occurs_at(s@, sep@, j as int));
                    } else {
                        if f < j {
                            assert(!occurs_at(s@, sep@, f));
                        }
                        if j < f {
                            assert(!occurs_at(s@, sep@, j as int));
                        }
                    }
                }
                let piece = string_from_chars(&slice_chars(&c, i, j));
                let ghost old_acc = acc;
                r.push(piece);
                proof {
                    acc = acc.push(s@.subrange(i as int, j as int));
                    assert(old_acc + split_from(s@, sep@, i as int) =~= acc + split_from(s@, sep@, j + m));
                    assert(r@.map_values(|q: String| q@) =~= acc);
                }
                i = j + m;
            },
            None => {
                assert(first_occurrence_from(s@, sep@, i as int) == -1) by {
                    let f = first_occurrence_from(s@, sep@, i as int);
                    if f != -1 {
                        assert(occurs_at(s@, sep@, f));
                    }
                }
                let piece = string_from_chars(&slice_chars(&c, i, n));
                r.push(piece);
                proof {
                    acc = acc.push(s@.subrange(i as int, n as int));
                    assert(r@.map_values(|q: String| q@) =~= acc);
                    assert(acc =~= split_seq(s@, sep@));
                }
                return r;
            },
        }
    }
}

/// A commit of the history.
#[derive(Debug, Clone)]
pub struct GitCommit {
    pub hash: String,
    pub author: String,
    pub date: CommitDate,
    pub message: String,
}

/// The separator of the fields of a log line.
pub open spec fn field_separator() -> Seq<char> {
    "|||"@
}

/// The format in which the fallback date parse reads a log date.
pub open spec fn iso_date_format() -> Seq<char> {
    "%Y-%m-%d %H:%M:%S %z"@
}

/// What a log line gives: the commit (hash, author, date, message), or the
/// error's text.
pub open spec fn parsed_commit(line: Seq<char>) -> Result<(Seq<char>, Seq<char>, CommitDate, Seq<char>), Seq<char>> {
    let parts = split_seq(line, field_separator());
    if parts.len() != 4 {
        Err("Invalid commit line format: '"@ + line + "'"@)
    } else {
        let date = match rfc3339_date(parts[2]) {
            Some(d) => Ok::<CommitDate, Seq<char>>(d),
            None => formatted_date(parts[2], iso_date_format()),
        };
        match date {
            Ok(d) => Ok((parts[0], parts[1], d, parts[3])),
            Err(e) => Err("Failed to parse date '"@ + parts[2] + "': "@ + e),
        }
    }
}

/// Whether `c` is the commit `p` describes.
pub open spec fn commit_is(c: GitCommit, p: (Seq<char>, Seq<char>, CommitDate, Seq<char>)) -> bool {
    c.hash@ == p.0 && c.author@ == p.1 && c.date == p.2 && c.message@ == p.3
}

/// The string `a + b`.
pub fn concat(a: &str, b: &str) -> (r: String)
    ensures
        r@ == a@ + b@,
{
    let mut r = String::from_str(a);
    r.append(b);
    r
}

/// Parses a line of `git log --pretty=format:%H|||%an|||%ai|||%s`.
pub fn parse_commit_line(line: &str) -> (r: Result<GitCommit, String>)
    ensures
        match (r, parsed_commit(line@)) {
            (Ok(c), Ok(p)) => commit_is(c, p),
            (Err(e), Err(pe)) => e@ == pe,
            _ => false,
        },
{
    proof {
        reveal_strlit("|||");
    }
    let parts = split_str(line, "|||");
    assert(parts@.map_values(|p: String| p@).len() == parts@.len());
    if parts.len() != 4 {
        let mut e = String::from_str("Invalid commit line format: '");
        e.append(line);
        e.append("'");
        return Err(e);
    }
    let ghost views = parts@.map_values(|p: String| p@);
    assert(parts@[2]@ == views[2]);
    let date = match parse_rfc3339(parts[2].as_str()) {
        Some(d) => Ok(d),
        None => parse_with_format(parts[2].as_str(), "%Y-%m-%d %H:%M:%S %z"),
    };
    match date {
        Ok(d) => {
            assert(parts@[0]@ == views[0] && parts@[1]@ == views[1] && parts@[3]@ == views[3]);
            Ok(GitCommit { hash: parts[0].clone(), author: parts[1].clone(), date: d, message: parts[3].clone() })
        },
        Err(msg) => {
            let mut e = String::from_str("Failed to parse date '");
            e.append(parts[2].as_str());
            e.append("': ");
            e.append(msg.as_str());
            Err(e)
        },
    }
}

/// The commits that the non-empty lines of `ls` (from index `i` on) describe,
/// or the error of the first line that does not parse.
pub open spec fn parsed_commits_from(ls: Seq<Seq<char>>, i: int) -> Result<Seq<(Seq<char>, Seq<char>, CommitDate, Seq<char>)>, Seq<char>>
    decreases ls.len() - i,
{
    if i < 0 || i >= ls.len() {
        Ok(Seq::empty())
    } else if ls[i].len() == 0 {
        parsed_commits_from(ls, i + 1)
    } else {
        match parsed_commit(ls[i]) {
            Err(e) => Err(e),
            Ok(c) => match parsed_commits_from(ls, i + 1) {
                Ok(rest) => Ok(seq![c] + rest),
                Err(e) => Err(e),
            },
        }
    }
}

/// The outcome of running a git command: whether it succeeded, and its output.
pub struct GitOutput {
    pub success: bool,
    pub stdout: Vec<u8>,
    pub stderr: Vec<u8>,
}

/// What the history's log output gives.
pub open spec fn history_of(success: bool, stdout: Seq<u8>, stderr: Seq<u8>) -> Result<Seq<(Seq<char>, Seq<char>, CommitDate, Seq<char>)>, Seq<char>> {
    if !success {
        Err("Failed to get git history: "@ + utf8_lossy(stderr))
    } else if !vstd::utf8::valid_utf8(stdout) {
        Err("Invalid UTF-8 in git output: "@ + utf8_error_text(stdout))
    } else {
        parsed_commits_from(lines(vstd::utf8::decode_utf8(stdout)), 0)
    }
}

/// A repository and the guard of its reset.
pub struct GitManager {
    pub repo_path: String,
    pub is_checking_out: bool,
}

impl GitManager {
    /// A manager of the repository at `repo_path` with no reset running.
    pub fn new(repo_path: String) -> (g: Self)
        ensures
            g.repo_path@ == repo_path@,
            !g.is_checking_out,
    {
        GitManager { repo_path, is_checking_out: false }
    }

    /// The arguments of the command that lists the history.
    pub fn log_args() -> (r: Vec<String>)
        ensures
            r@.map_values(|s: String| s@) == seq!["log"@, "--pretty=format:%H|||%an|||%ai|||%s"@, "--date=iso"@, "--all"@],
    {
        let mut r: Vec<String> = Vec::new();
        r.push(String::from_str("log"));
        r.push(String::from_str("--pretty=format:%H|||%an|||%ai|||%s"));
        r.push(String::from_str("--date=iso"));
        r.push(String::from_str("--all"));
        assert(r@.map_values(|s: String| s@) =~= seq!["log"@, "--pretty=format:%H|||%an|||%ai|||%s"@, "--date=iso"@, "--all"@]);
        r
    }

    /// The repository's commits: refused when `is_repo` says the folder is not
    /// a repository (and the log is then not run, so `log_outcome` is none);
    /// else what the log command's outcome gives, a launch failure being
    /// reported as such.
    pub fn get_commits(is_repo: bool, log_outcome: Option<Result<GitOutput, String>>) -> (r: Result<Vec<GitCommit>, String>)
        requires
            is_repo ==> log_outcome.is_some(),
        ensures
            !is_repo ==> (r matches Err(e) && e@ == "Not a git repository"@),
            is_repo ==> match log_outcome.unwrap() {
                Err(e) => r matches Err(m) && m@ == Self::launch_error(e@),
                Ok(output) => match (r, history_of(output.success, output.stdout@, output.stderr@)) {
                    (Ok(cs), Ok(ps)) => cs@.len() == ps.len() && forall|k: int| 0 <= k < cs@.len() ==> commit_is(#[trigger] cs@[k], ps[k]),
                    (Err(e), Err(pe)) => e@ == pe,
                    _ => false,
                },
            },
    {
        if !is_repo {
            return Err(String::from_str("Not a git repository"));
        }
        match log_outcome {
            Some(Ok(output)) => Self::parse_history(output),
            Some(Err(e)) => Err(Self::launch_failed(e.as_str())),
            None => Err(String::from_str("Not a git repository")),
        }
    }

    /// The commits that the log command's outcome gives; `Err` carries the
    /// text of the first failure.
    pub fn parse_history(output: GitOutput) -> (r: Result<Vec<GitCommit>, String>)
        ensures
            match (r, history_of(output.success, output.stdout@, output.stderr@)) {
                (Ok(cs), Ok(ps)) => cs@.len() == ps.len() && forall|k: int| 0 <= k < cs@.len() ==> commit_is(#[trigger] cs@[k], ps[k]),
                (Err(e), Err(pe)) => e@ == pe,
                _ => false,
            },
    {
        if !output.success {
            let s = lossy_text(output.stderr.as_slice());
            return Err(concat("Failed to get git history: ", s.as_str()));
        }
        let text = match utf8_text(output.stdout) {
            Ok(t) => t,
            Err(e) => {
                return Err(concat("Invalid UTF-8 in git output: ", e.as_str()));
            },
        };
        let chars = to_chars(text.as_str());
        let spans = line_spans(&chars);
        let ghost ls = lines(text@);
        assert(history_of(output.success, output.stdout@, output.stderr@) == parsed_commits_from(ls, 0));
        let mut commits: Vec<GitCommit> = Vec::new();
        let ghost mut acc: Seq<(Seq<char>, Seq<char>, CommitDate, Seq<char>)> = Seq::empty();
        let mut k: usize = 0;
        while k < spans.len()
            invariant
                chars@ == text@,
                ls == lines(text@),
                history_of(output.success, output.stdout@, output.stderr@) == parsed_commits_from(ls, 0),
                spans@.len() == ls.len(),
                forall|j: int| 0 <= j < spans@.len() ==> span_is_line(chars@, #[trigger] spans@[j], ls[j]),
                k <= spans@.len(),
                commits@.len() == acc.len(),
                forall|j: int| 0 <= j < commits@.len() ==> commit_is(#[trigger] commits@[j], acc[j]),
                match parsed_commits_from(ls, k as int) {
                    Ok(rest) => parsed_commits_from(ls, 0) == Ok::<Seq<(Seq<char>, Seq<char>, CommitDate, Seq<char>)>, Seq<char>>(acc + rest),
                    Err(e) => parsed_commits_from(ls, 0) == Err::<Seq<(Seq<char>, Seq<char>, CommitDate, Seq<char>)>, Seq<char>>(e),
                },
            decreases spans@.len() - k,
        {
            let (start, end) = spans[k];
            assert(span_is_line(chars@, spans@[k as int], ls[k as int]));
            if start < end {
                let line = string_from_chars(&slice_chars(&chars, start, end));
                match parse_commit_line(line.as_str()) {
                    Ok(c) => {
                        let ghost before = commits@;
                        commits.push(c);
                        proof {
                            let p = match parsed_commit(ls[k as int]) { Ok(p) => p, Err(_) => arbitrary() };
                            let old_acc = acc;
                            acc = acc.push(p);
                            match parsed_commits_from(ls, k + 1) {
                                Ok(rest) => {
                                    assert(old_acc + (seq![p] + rest) =~= acc + rest);
                                },
                                Err(e) => {},
                            }
                            assert forall|j: int| 0 <= j < commits@.len() implies commit_is(#[trigger] commits@[j], acc[j]) by {
                                if j < before.len() {
                                    assert(commits@[j] == before[j]);
                                }
                            }
                        }
                    },
                    Err(e) => {
                        proof {
                            assert(line@ == ls[k as int]);
                            assert(ls[k as int].len() != 0);
                            assert(parsed_commits_from(ls, k as int) == Err::<Seq<(Seq<char>, Seq<char>, CommitDate, Seq<char>)>, Seq<char>>(e@));
                        }
                        return Err(e);
                    },
                }
            }
            k = k + 1;
        }
        assert(parsed_commits_from(ls, k as int) == Ok::<Seq<(Seq<char>, Seq<char>, CommitDate, Seq<char>)>, Seq<char>>(Seq::empty()));
        assert(acc + Seq::empty() =~= acc);
        Ok(commits)
    }

    /// The arguments of the command that resets the work tree to `commit_hash`.
    pub fn reset_args(commit_hash: &str) -> (r: Vec<String>)
        ensures
            r@.map_values(|s: String| s@) == seq!["reset"@, "--hard"@, commit_hash@],
    {
        let mut r: Vec<String> = Vec::new();
        r.push(String::from_str("reset"));
        r.push(String::from_str("--hard"));
        r.push(String::from_str(commit_hash));
        assert(r@.map_values(|s: String| s@) =~= seq!["reset"@, "--hard"@, commit_hash@]);
        r
    }

    /// Starts a reset to `commit_hash`: refused while another is running,
    /// else the guard is taken and the command to run is returned.
    pub fn reset_to_commit(&mut self, commit_hash: &str) -> (r: Result<Vec<String>, String>)
        ensures
            final(self).repo_path == old(self).repo_path,
            old(self).is_checking_out ==> final(self).is_checking_out && r.is_err() && r->Err_0@
                == "Another operation is in progress"@,
            !old(self).is_checking_out ==> final(self).is_checking_out && r.is_ok()
                && r->Ok_0@.map_values(|s: String| s@) == seq!["reset"@, "--hard"@, commit_hash@],
    {
        if self.is_checking_out {
            return Err(String::from_str("Another operation is in progress"));
        }
        self.is_checking_out = true;
        Ok(Self::reset_args(commit_hash))
    }

    /// The report of a git command that could not be started, given the
    /// launch error `e`.
    pub open spec fn launch_error(e: Seq<char>) -> Seq<char> {
        "Failed to execute git command: "@ + e
    }

    /// The report of a git command that could not be started.
    pub fn launch_failed(e: &str) -> (r: String)
        ensures
            r@ == Self::launch_error(e@),
    {
        concat("Failed to execute git command: ", e)
    }

    /// What checking the repository with `git status` (`status_outcome`)
    /// comes to: `Ok` when the command ran and succeeded, else the reason.
    pub fn initialize_outcome(status_outcome: Result<GitOutput, String>) -> (r: Result<(), String>)
        ensures
            match status_outcome {
                Err(e) => r.is_err() && r->Err_0@ == "Failed to execute git command: "@ + Self::launch_error(e@),
                Ok(o) => if o.success {
                    r.is_ok()
                } else {
                    r.is_err() && r->Err_0@ == "Git status failed: "@ + utf8_lossy(o.stderr@)
                },
            },
    {
        match status_outcome {
            Err(e) => {
                let mut m = String::from_str("Failed to execute git command: ");
                let l = Self::launch_failed(e.as_str());
                m.append(l.as_str());
                Err(m)
            },
            Ok(o) => {
                if o.success {
                    Ok(())
                } else {
                    let mut m = String::from_str("Git status failed: ");
                    let s = lossy_text(o.stderr.as_slice());
                    m.append(s.as_str());
                    Err(m)
                }
            },
        }
    }

    /// The outcome of a git command whose failure is reported as
    /// `error_message`: `Err` with the launch report when it could not be
    /// started, or with the message and the command's error output when it
    /// failed.
    pub fn run_git_command_with_check(outcome: Result<GitOutput, String>, error_message: &str) -> (r: Result<(), String>)
        ensures
            match outcome {
                Err(e) => r.is_err() && r->Err_0@ == Self::launch_error(e@),
                Ok(o) => if o.success {
                    r.is_ok()
                } else {
                    r.is_err() && r->Err_0@ == error_message@ + ": "@ + utf8_lossy(o.stderr@)
                },
            },
    {
        match outcome {
            Err(e) => Err(Self::launch_failed(e.as_str())),
            Ok(o) => {
                if o.success {
                    Ok(())
                } else {
                    let mut e = String::from_str(error_message);
                    e.append(": ");
                    let s = lossy_text(o.stderr.as_slice());
                    e.append(s.as_str());
                    Err(e)
                }
            },
        }
    }

    /// Ends the reset to `commit_hash` with the outcome of its command: the
    /// guard is released and the outcome is checked.
    pub fn perform_reset(&mut self, commit_hash: &str, outcome: Result<GitOutput, String>) -> (r: Result<(), String>)
        ensures
            final(self).repo_path == old(self).repo_path,
            !final(self).is_checking_out,
            match outcome {
                Err(e) => r.is_err() && r->Err_0@ == Self::launch_error(e@),
                Ok(o) => if o.success {
                    r.is_ok()
                } else {
                    r.is_err() && r->Err_0@ == "Failed to reset to commit "@ + commit_hash@ + ": "@ + utf8_lossy(o.stderr@)
                },
            },
    {
        let msg = concat("Failed to reset to commit ", commit_hash);
        let r = Self::run_git_command_with_check(outcome, msg.as_str());
        self.is_checking_out = false;
        r
    }
}

} // verus!
