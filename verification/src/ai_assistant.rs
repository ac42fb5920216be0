//! The AI assistant: the code block of a reply, the chat history, the messages
//! sent to the model, and what a request attempt leads to next.
use vstd::prelude::*;
use vstd::string::StringExecFns;
use std::collections::VecDeque;
use crate::text::{
    lines, lines_of, join, join_strs, strs_view, starts_with_seq, contains_seq, trim, trim_str,
    str_starts_with, str_contains, is_whitespace, char_is_whitespace, to_chars,
};
use crate::code_editor::CodeEditor;

verus! {

/// A line that opens or closes a fenced block.
pub open spec fn is_fence(line: Seq<char>) -> bool {
    starts_with_seq(line, "```"@)
}

/// Index of the first fence line at or after `i`, or `ls.len()`.
pub open spec fn first_fence_from(ls: Seq<Seq<char>>, i: int) -> int
    decreases ls.len() - i,
{
    if i >= ls.len() {
        ls.len() as int
    } else if i >= 0 && is_fence(ls[i]) {
        i
    } else {
        first_fence_from(ls, i + 1)
    }
}

pub proof fn lemma_first_fence_bounds(ls: Seq<Seq<char>>, i: int)
    requires
        0 <= i <= ls.len(),
    ensures
        i <= first_fence_from(ls, i) <= ls.len(),
        first_fence_from(ls, i) < ls.len() ==> is_fence(ls[first_fence_from(ls, i)]),
        forall|k: int| i <= k < first_fence_from(ls, i) ==> !is_fence(#[trigger] ls[k]),
    decreases ls.len() - i,
{
    if i < ls.len() && !is_fence(ls[i]) {
        lemma_first_fence_bounds(ls, i + 1);
    }
}

/// The lines between the first fence line and the next one (to the end when
/// none closes it); empty when there is no fence.
pub open spec fn fenced_block(ls: Seq<Seq<char>>) -> Seq<Seq<char>> {
    let f = first_fence_from(ls, 0);
    if f >= ls.len() {
        Seq::empty()
    } else {
        ls.subrange(f + 1, first_fence_from(ls, f + 1))
    }
}

/// A line that looks like code.
pub open spec fn is_code_line(line: Seq<char>) -> bool {
    contains_seq(line, "class "@) || contains_seq(line, "fun "@) || contains_seq(line, "import "@)
        || contains_seq(line, "{"@) || contains_seq(line, "}"@) || starts_with_seq(
        trim(line),
        "."@,
    )
}

/// The lines of `ls` that look like code, in order.
pub open spec fn code_lines(ls: Seq<Seq<char>>) -> Seq<Seq<char>>
    decreases ls.len(),
{
    if ls.len() == 0 {
        Seq::empty()
    } else {
        code_lines(ls.drop_last()) + if is_code_line(ls.last()) {
            seq![ls.last()]
        } else {
            Seq::empty()
        }
    }
}

/// Whether a line reads as code to the assistant: it holds `class `, `fun `,
/// `import `, `{` or `}`, or, trimmed, starts with `.`.
pub open spec fn looks_like_code(line: Seq<char>) -> bool {
    contains_seq(line, "class "@) || contains_seq(line, "fun "@) || contains_seq(line, "import "@)
        || contains_seq(line, "{"@) || contains_seq(line, "}"@) || (trim(line).len() > 0 && trim(line)[0] == '.')
}

proof fn lemma_reads_as_code(line: Seq<char>)
    ensures
        is_code_line(line) == looks_like_code(line),
{
    reveal_strlit(".");
    let t = trim(line);
    let dot = "."@;
    assert(dot.len() == 1 && dot[0] == '.');
    if t.len() > 0 && t[0] == '.' {
        assert(t.subrange(0, 1) =~= dot);
    }
    if starts_with_seq(t, dot) {
        assert(t.subrange(0, 1)[0] == dot[0]);
    }
}

/// The code kept of a reply without a fenced block is exactly its lines that
/// read as code (`looks_like_code`), in their order: each line kept is one
/// of the reply's that reads as code, and each of the reply's lines that reads
/// as code is kept.
pub proof fn lemma_code_lines_are_the_code(ls: Seq<Seq<char>>)
    ensures
        forall|l: Seq<char>| #[trigger] code_lines(ls).contains(l) <==> ls.contains(l) && looks_like_code(l),
        code_lines(ls).len() <= ls.len(),
    decreases ls.len(),
{
    reveal_strlit(".");
    if ls.len() > 0 {
        let dl = ls.drop_last();
        lemma_code_lines_are_the_code(dl);
        assert(forall|l: Seq<char>| code_lines(dl).contains(l) <==> dl.contains(l) && looks_like_code(l));
        let x = ls.last();
        let tail = if is_code_line(x) { seq![x] } else { Seq::<Seq<char>>::empty() };
        let cur = code_lines(ls);
        assert(cur == code_lines(dl) + tail);
        lemma_reads_as_code(x);
        assert forall|l: Seq<char>| #[trigger] cur.contains(l) <==> ls.contains(l) && looks_like_code(l) by {
            lemma_reads_as_code(l);
            if cur.contains(l) {
                let k = choose|k: int| 0 <= k < cur.len() && cur[k] == l;
                if k < code_lines(dl).len() {
                    assert(code_lines(dl)[k] == l);
                    assert(code_lines(dl).contains(l));
                    let j = choose|j: int| 0 <= j < dl.len() && dl[j] == l;
                    assert(ls[j] == l);
                } else {
                    assert(tail[k - code_lines(dl).len()] == l);
                    assert(ls[ls.len() - 1] == l);
                }
            }
            if ls.contains(l) && looks_like_code(l) {
                let j = choose|j: int| 0 <= j < ls.len() && ls[j] == l;
                if j < ls.len() - 1 {
                    assert(dl[j] == l);
                    assert(dl.contains(l));
                    let k = choose|k: int| 0 <= k < code_lines(dl).len() && code_lines(dl)[k] == l;
                    assert(cur[k] == l);
                } else {
                    assert(cur[cur.len() - 1] == l);
                }
            }
        }
    }
}

/// The code of a reply: the first fenced block when it has a line, else the
/// lines that look like code; joined with `\n`.
pub open spec fn code_block(text: Seq<char>) -> Seq<char> {
    let ls = lines(text);
    let block = fenced_block(ls);
    if block.len() > 0 {
        join(block, "\n"@)
    } else {
        join(code_lines(ls), "\n"@)
    }
}

fn is_code_line_str(line: &str) -> (b: bool)
    ensures
        b == is_code_line(line@),
{
    if str_contains(line, "class ") || str_contains(line, "fun ") || str_contains(line, "import ")
        || str_contains(line, "{") || str_contains(line, "}") {
        return true;
    }
    let t = trim_str(line);
    str_starts_with(t.as_str(), ".")
}

/// The code that a reply holds (see `code_block`).
pub fn extract_code_block(text: &str) -> (r: String)
    ensures
        r@ == code_block(text@),
{
    let ls = lines_of(text);
    let n = ls.len();
    let ghost lv = lines(text@);
    let mut f: usize = 0;
    while f < n && !str_starts_with(ls[f].as_str(), "```")
        invariant
            n == ls@.len(),
            strs_view(ls@) == lv,
            f <= n,
            forall|k: int| 0 <= k < f ==> !is_fence(#[trigger] lv[k]),
        decreases n - f,
    {
        assert(strs_view(ls@)[f as int] == ls@[f as int]@);
        f = f + 1;
    }
    proof {
        lemma_first_fence_bounds(lv, 0);
        let r = first_fence_from(lv, 0);
        if f < n {
            assert(strs_view(ls@)[f as int] == ls@[f as int]@);
        }
        if r < f {
            assert(!is_fence(lv[r]));
        }
        if f < r {
            assert(!is_fence(lv[f as int]));
        }
    }
    let mut block: Vec<String> = Vec::new();
    if f < n {
        let mut e = f + 1;
        while e < n && !str_starts_with(ls[e].as_str(), "```")
            invariant
                n == ls@.len(),
                strs_view(ls@) == lv,
                f < n,
                f + 1 <= e <= n,
                forall|k: int| f + 1 <= k < e ==> !is_fence(#[trigger] lv[k]),
                strs_view(block@) == lv.subrange(f + 1, e as int),
            decreases n - e,
        {
            assert(strs_view(ls@)[e as int] == ls@[e as int]@);
            let line = ls[e].clone();
            let ghost old_block = block@;
            block.push(line);
            assert(strs_view(block@) =~= strs_view(old_block).push(lv[e as int]));
            e = e + 1;
            assert(strs_view(block@) =~= lv.subrange(f + 1, e as int));
        }
        proof {
            lemma_first_fence_bounds(lv, f + 1);
            let r = first_fence_from(lv, f + 1);
            if e < n {
                assert(strs_view(ls@)[e as int] == ls@[e as int]@);
            }
            if r < e {
                assert(!is_fence(lv[r]));
            }
            if e < r {
                assert(!is_fence(lv[e as int]));
            }
        }
    }
    assert(strs_view(block@) == fenced_block(lv));
    if block.len() > 0 {
        return join_strs(&block, "\n");
    }
    let mut code: Vec<String> = Vec::new();
    let mut i: usize = 0;
    while i < n
        invariant
            n == ls@.len(),
            strs_view(ls@) == lv,
            i <= n,
            strs_view(code@) == code_lines(lv.take(i as int)),
        decreases n - i,
    {
        assert(strs_view(ls@)[i as int] == ls@[i as int]@);
        assert(lv.take(i + 1).drop_last() =~= lv.take(i as int));
        if is_code_line_str(ls[i].as_str()) {
            let line = ls[i].clone();
            code.push(line);
        }
        i = i + 1;
        assert(strs_view(code@) =~= code_lines(lv.take(i as int)));
    }
    assert(lv.take(n as int) =~= lv);
    join_strs(&code, "\n")
}

/// One entry of the chat history.
pub struct Message {
    pub content: String,
    pub is_user: bool,
    pub timestamp: String,
}

/// A file whose text is given to the model while it is active.
pub struct ContextFile {
    pub path: String,
    pub content: String,
    pub is_active: bool,
}

/// One message of a chat request: its role and its text.
pub struct ChatMessage {
    pub role: String,
    pub content: String,
}

/// Attempts made for one request before giving up.
pub const MAX_RETRIES: u32 = 3;
/// The pause between two attempts, in milliseconds.
pub const RETRY_DELAY_MS: u64 = 1000;
/// Messages kept in the chat history.
pub const MAX_CHAT_HISTORY: usize = 100;
/// Debug messages kept.
pub const MAX_DEBUG_MESSAGES: usize = 10;

/// The last `n` elements of `s` (all of them when there are fewer).
pub open spec fn keep_last<A>(s: Seq<A>, n: nat) -> Seq<A> {
    if s.len() > n {
        s.subrange(s.len() - n, s.len() as int)
    } else {
        s
    }
}

/// Appends `x` and then drops from the front until at most `cap` remain.
pub fn push_bounded<A>(q: &mut VecDeque<A>, x: A, cap: usize)
    ensures
        final(q)@ == keep_last(old(q)@.push(x), cap as nat),
{
    q.push_back(x);
    let ghost full = q@;
    let ghost mut k: int = 0;
    while q.len() > cap
        invariant
            full == old(q)@.push(x),
            0 <= k <= full.len(),
            q@ == full.subrange(k, full.len() as int),
            full.len() > cap ==> k <= full.len() - cap,
            full.len() <= cap ==> k == 0,
        decreases q@.len(),
    {
        q.pop_front();
        proof {
            k = k + 1;
        }
    }
    assert(q@ =~= keep_last(full, cap as nat));
}

/// Whether a text is made of white space only (the empty text included).
pub open spec fn all_whitespace(s: Seq<char>) -> bool {
    forall|i: int| 0 <= i < s.len() ==> is_whitespace(s[i])
}

/// Adding to a bounded history: at most `n` entries remain, the one added
/// is the newest, and the others are the newest of those before, in order.
pub proof fn lemma_bounded_history(s: Seq<Message>, x: Message, n: nat)
    requires
        n > 0,
    ensures
        keep_last(s.push(x), n).len() <= n,
        keep_last(s.push(x), n).last() == x,
        keep_last(s.push(x), n).drop_last() == keep_last(s, (n - 1) as nat),
{
    let t = s.push(x);
    if t.len() > n {
        assert(keep_last(t, n).drop_last() =~= keep_last(s, (n - 1) as nat));
    } else {
        assert(t.drop_last() =~= s);
    }
}

/// A text is blank exactly when trimming it leaves nothing, which is how a
/// question is refused.
pub proof fn lemma_blank_iff_trim_empty(s: Seq<char>)
    ensures
        all_whitespace(s) <==> trim(s).len() == 0,
{
    crate::text::lemma_skip_ws(s, 0, s.len() as int);
    let a = crate::text::skip_ws_from(s, 0);
    let b = crate::text::skip_ws_back(s, s.len() as int);
    if a < s.len() {
        assert(!is_whitespace(s[a]));
        assert(!all_whitespace(s));
        assert(b > a) by {
            if b <= a {
                assert(is_whitespace(s[a]));
            }
        }
        assert(trim(s).len() == b - a);
    } else {
        assert forall|i: int| 0 <= i < s.len() implies is_whitespace(s[i]) by {}
    }
}

/// The model that a new assistant uses.
pub open spec fn default_model() -> Seq<char> {
    "Qwen/Qwen2.5-Coder-32B-Instruct"@
}

/// The part of the system prompt that gives one context file.
pub open spec fn context_part(path: Seq<char>, content: Seq<char>) -> Seq<char> {
    "File: "@ + path + "\n```\n"@ + content + "\n```"@
}

/// The parts of the active context files, in order.
pub open spec fn active_parts(files: Seq<ContextFile>) -> Seq<Seq<char>>
    decreases files.len(),
{
    if files.len() == 0 {
        Seq::empty()
    } else {
        active_parts(files.drop_last()) + if files.last().is_active {
            seq![context_part(files.last().path@, files.last().content@)]
        } else {
            Seq::empty()
        }
    }
}

/// The context parts: the active files, then the current file when it has text.
pub open spec fn context_parts(files: Seq<ContextFile>, current: Seq<char>) -> Seq<Seq<char>> {
    active_parts(files) + if current.len() > 0 {
        seq!["Current File:\n```\n"@ + current + "\n```"@]
    } else {
        Seq::empty()
    }
}

/// The system message sent before the conversation.
pub open spec fn system_prompt(files: Seq<ContextFile>, current: Seq<char>) -> Seq<char> {
    "You are an AI programming assistant in an IDE. You have access to the following files:\n\n"@
        + join(context_parts(files, current), "\n\n"@)
}

/// The role of a history entry.
pub open spec fn role_of(is_user: bool) -> Seq<char> {
    if is_user {
        "user"@
    } else {
        "assistant"@
    }
}

/// The number of history entries that a request carries.
pub open spec fn carried(history_len: nat, window: usize) -> nat {
    if history_len < window {
        history_len
    } else {
        window as nat
    }
}

/// `msgs` is the request for `question`: the system prompt, at most `window`
/// history entries from the oldest on, then the question as the user's.
pub open spec fn is_chat_request(
    history: Seq<Message>,
    window: usize,
    files: Seq<ContextFile>,
    current: Seq<char>,
    question: Seq<char>,
    msgs: Seq<ChatMessage>,
) -> bool {
    &&& msgs.len() == carried(history.len(), window) + 2
    &&& msgs[0].role@ == "system"@
    &&& msgs[0].content@ == system_prompt(files, current)
    &&& forall|k: int|
        0 <= k < carried(history.len(), window) ==> {
            &&& (#[trigger] msgs[k + 1]).role@ == role_of(history[k].is_user)
            &&& msgs[k + 1].content@ == history[k].content@
        }
    &&& msgs.last().role@ == "user"@
    &&& msgs.last().content@ == question
}

/// The text of the last reply, or the empty text.
pub open spec fn last_reply_text(o: Option<String>) -> Seq<char> {
    match o {
        Some(s) => s@,
        None => Seq::empty(),
    }
}

/// The context files without those of path `p`.
pub open spec fn without_file(files: Seq<ContextFile>, p: Seq<char>) -> Seq<ContextFile>
    decreases files.len(),
{
    if files.len() == 0 {
        Seq::empty()
    } else {
        without_file(files.drop_last(), p) + if files.last().path@ == p {
            Seq::empty()
        } else {
            seq![files.last()]
        }
    }
}

/// The strings without those equal to `p`.
pub open spec fn without_str(v: Seq<String>, p: Seq<char>) -> Seq<String>
    decreases v.len(),
{
    if v.len() == 0 {
        Seq::empty()
    } else {
        without_str(v.drop_last(), p) + if v.last()@ == p {
            Seq::empty()
        } else {
            seq![v.last()]
        }
    }
}

fn remove_str(v: &Vec<String>, p: &str) -> (r: Vec<String>)
    ensures
        r@ == without_str(v@, p@),
{
    let mut r: Vec<String> = Vec::new();
    let mut i: usize = 0;
    while i < v.len()
        invariant
            i <= v@.len(),
            r@ == without_str(v@.take(i as int), p@),
        decreases v@.len() - i,
    {
        assert(v@.take(i + 1).drop_last() =~= v@.take(i as int));
        if !crate::text::str_eq(v[i].as_str(), p) {
            r.push(v[i].clone());
        }
        i = i + 1;
        assert(r@ =~= without_str(v@.take(i as int), p@));
    }
    assert(v@.take(v@.len() as int) =~= v@);
    r
}

fn remove_file(v: &mut Vec<ContextFile>, p: &str)
    ensures
        final(v)@ == without_file(old(v)@, p@),
{
    let ghost orig = v@;
    let ghost mut j: int = 0;
    let mut i: usize = 0;
    while i < v.len()
        invariant
            0 <= j <= orig.len(),
            i <= v@.len(),
            v@.len() - i == orig.len() - j,
            v@.subrange(0, i as int) == without_file(orig.take(j), p@),
            v@.subrange(i as int, v@.len() as int) == orig.subrange(j, orig.len() as int),
        decreases v@.len() - i,
    {
        assert(orig.take(j + 1).drop_last() =~= orig.take(j));
        assert(v@[i as int] == orig[j]) by {
            assert(v@.subrange(i as int, v@.len() as int)[0] == orig.subrange(j, orig.len() as int)[0]);
        }
        let ghost before = v@;
        assert(before.subrange(i + 1, before.len() as int) =~= orig.subrange(j + 1, orig.len() as int)) by {
            assert(before.subrange(i as int, before.len() as int).subrange(1, before.len() - i)
                =~= before.subrange(i + 1, before.len() as int));
            assert(orig.subrange(j, orig.len() as int).subrange(1, orig.len() - j)
                =~= orig.subrange(j + 1, orig.len() as int));
        }
        if crate::text::str_eq(v[i].path.as_str(), p) {
            v.remove(i);
            assert(v@.subrange(0, i as int) =~= before.subrange(0, i as int));
            assert(v@.subrange(i as int, v@.len() as int) =~= before.subrange(i + 1, before.len() as int));
        } else {
            i = i + 1;
            assert(v@.subrange(0, i as int) =~= before.subrange(0, i - 1).push(orig[j]));
        }
        proof {
            j = j + 1;
        }
        assert(v@.subrange(0, i as int) =~= without_file(orig.take(j), p@));
        assert(v@.subrange(i as int, v@.len() as int) =~= orig.subrange(j, orig.len() as int));
    }
    assert(orig.subrange(j, orig.len() as int).len() == 0);
    assert(orig.take(j) =~= orig);
    assert(v@ =~= v@.subrange(0, i as int));
}

/// Whether `s` is white space only.
pub fn is_blank(s: &str) -> (b: bool)
    ensures
        b == all_whitespace(s@),
{
    let v = to_chars(s);
    let mut i: usize = 0;
    while i < v.len()
        invariant
            v@ == s@,
            i <= v@.len(),
            forall|k: int| 0 <= k < i ==> is_whitespace(v@[k]),
        decreases v@.len() - i,
    {
        if !char_is_whitespace(v[i]) {
            assert(!is_whitespace(s@[i as int]));
            return false;
        }
        i = i + 1;
    }
    true
}

/// What one attempt of a request came to.
pub enum AttemptOutcome {
    /// A success status, with the body as read.
    Success(String),
    /// A success status whose body could not be read, with the error.
    ReadFailed(String),
    /// Status 429.
    TooManyRequests,
    /// Status 500.
    InternalServerError,
    /// Any other failing status, as it is displayed.
    ErrorStatus(String),
    /// The request timed out.
    TimedOut,
    /// The connection could not be made.
    ConnectFailed,
    /// Any other network error, as it is displayed.
    NetworkError(String),
}

/// What follows an attempt.
pub enum RequestStep {
    /// The request is over, with its body or its error.
    Finished(Result<String, String>),
    /// Wait this many milliseconds and try again.
    RetryAfter(u64),
}

/// An attempt whose outcome is worth another try.
pub open spec fn is_retryable(o: AttemptOutcome) -> bool {
    match o {
        AttemptOutcome::TooManyRequests | AttemptOutcome::InternalServerError
        | AttemptOutcome::TimedOut | AttemptOutcome::ConnectFailed => true,
        _ => false,
    }
}

/// What a request reply becomes in the chat.
pub enum ReplySource {
    /// The reply parsed; the first choice's text, if any.
    FirstChoice(Option<String>),
    /// The body did not parse: the error and the raw body.
    ParseFailed(String, String),
    /// The request failed with this error.
    RequestFailed(String),
}

/// The chat text of a reply.
pub open spec fn reply_text(src: ReplySource) -> Seq<char> {
    match src {
        ReplySource::FirstChoice(Some(c)) => trim(c@),
        ReplySource::FirstChoice(None) => "No response generated"@,
        ReplySource::ParseFailed(e, raw) => "Error parsing response: "@ + e@ + ". Raw response: "@
            + raw@,
        ReplySource::RequestFailed(e) => "Request failed: "@ + e@,
    }
}

/// A reply that also goes to the debug messages.
pub open spec fn is_error_reply(r: Seq<char>) -> bool {
    starts_with_seq(r, "Error"@) || starts_with_seq(r, "Network error"@) || starts_with_seq(
        r,
        "API error"@,
    )
}

/// Decides what follows attempt number `attempt` (counted from zero).
pub fn next_request_step(attempt: u32, outcome: AttemptOutcome) -> (step: RequestStep)
    requires
        attempt < MAX_RETRIES,
    ensures
        match outcome {
            AttemptOutcome::Success(body) => step == RequestStep::Finished(Ok(body)),
            AttemptOutcome::ReadFailed(e) => step matches RequestStep::Finished(Err(m)) && m@
                == "Failed to read response: "@ + e@,
            AttemptOutcome::ErrorStatus(s) => step matches RequestStep::Finished(Err(m)) && m@
                == "API returned error status: "@ + s@,
            AttemptOutcome::NetworkError(e) => step matches RequestStep::Finished(Err(m)) && m@
                == "Network error: "@ + e@,
            _ => if attempt + 1 < MAX_RETRIES {
                step == RequestStep::RetryAfter(RETRY_DELAY_MS)
            } else {
                step matches RequestStep::Finished(Err(m)) && m@ == "Max retries exceeded"@
            },
        },
        step is RetryAfter ==> is_retryable(outcome) && attempt + 1 < MAX_RETRIES,
{
    match outcome {
        AttemptOutcome::Success(body) => RequestStep::Finished(Ok(body)),
        AttemptOutcome::ReadFailed(e) => {
            let mut m = String::from_str("Failed to read response: ");
            m.append(e.as_str());
            RequestStep::Finished(Err(m))
        },
        AttemptOutcome::ErrorStatus(s) => {
            let mut m = String::from_str("API returned error status: ");
            m.append(s.as_str());
            RequestStep::Finished(Err(m))
        },
        AttemptOutcome::NetworkError(e) => {
            let mut m = String::from_str("Network error: ");
            m.append(e.as_str());
            RequestStep::Finished(Err(m))
        },
        _ => {
            if attempt + 1 < MAX_RETRIES {
                RequestStep::RetryAfter(RETRY_DELAY_MS)
            } else {
                RequestStep::Finished(Err(String::from_str("Max retries exceeded")))
            }
        },
    }
}

/// The chat text of a reply (see `reply_text`).
pub fn compose_reply(src: ReplySource) -> (r: String)
    ensures
        r@ == reply_text(src),
{
    match src {
        ReplySource::FirstChoice(Some(c)) => trim_str(c.as_str()),
        ReplySource::FirstChoice(None) => String::from_str("No response generated"),
        ReplySource::ParseFailed(e, raw) => {
            let mut m = String::from_str("Error parsing response: ");
            m.append(e.as_str());
            m.append(". Raw response: ");
            m.append(raw.as_str());
            m
        },
        ReplySource::RequestFailed(e) => {
            let mut m = String::from_str("Request failed: ");
            m.append(e.as_str());
            m
        },
    }
}

/// The local time of day as `HH:MM` (chrono's `Local::now()` formatted with
/// `%H:%M`). Both fields are zero-padded to two digits, as chrono's format
/// documentation states; which time it is is not stated.
#[verifier::external_body]
fn local_time_hm() -> (s: String)
    ensures
        s@.len() == 5,
        s@[2] == ':',
        '0' <= s@[0] <= '9' && '0' <= s@[1] <= '9' && '0' <= s@[3] <= '9' && '0' <= s@[4] <= '9',
{
    chrono::Local::now().format("%H:%M").to_string()
}

/// Whether a key is usable: at least 32 bytes and not all white space.
pub open spec fn api_key_valid(k: Seq<char>) -> bool {
    vstd::utf8::encode_utf8(k).len() >= 32 && !all_whitespace(k)
}

/// The chat history after taking the replies `rs` in order, each stamped `ts`.
pub open spec fn history_after(h: Seq<Message>, rs: Seq<String>, ts: String) -> Seq<Message>
    decreases rs.len(),
{
    if rs.len() == 0 {
        h
    } else {
        keep_last(
            history_after(h, rs.drop_last(), ts).push(Message { content: rs.last(), is_user: false, timestamp: ts }),
            MAX_CHAT_HISTORY as nat,
        )
    }
}

/// The debug messages after taking the replies `rs` in order: each error
/// reply is kept, the last `MAX_DEBUG_MESSAGES` staying.
pub open spec fn debug_after(d: Seq<String>, rs: Seq<String>) -> Seq<String>
    decreases rs.len(),
{
    if rs.len() == 0 {
        d
    } else if is_error_reply(rs.last()@) {
        keep_last(debug_after(d, rs.drop_last()).push(rs.last()), MAX_DEBUG_MESSAGES as nat)
    } else {
        debug_after(d, rs.drop_last())
    }
}

/// What handling the reply `response`, stamped `ts`, makes of `o` (see
/// `AIAssistant::receive_response_at`).
pub open spec fn received(o: AIAssistant, response: String, ts: String, n: AIAssistant) -> bool {
    &&& n.debug_messages@ == if is_error_reply(response@) {
        keep_last(o.debug_messages@.push(response), MAX_DEBUG_MESSAGES as nat)
    } else {
        o.debug_messages@
    }
    &&& n.last_ai_response == Some(response)
    &&& n.chat_history@ == keep_last(
        o.chat_history@.push(Message { content: response, is_user: false, timestamp: ts }),
        MAX_CHAT_HISTORY as nat,
    )
    &&& n == (AIAssistant {
        debug_messages: n.debug_messages,
        last_ai_response: n.last_ai_response,
        chat_history: n.chat_history,
        scroll_to_bottom: true,
        is_loading: false,
        ..o
    })
}

/// What taking the waiting replies `pending`, each stamped `ts`, makes of `o`,
/// with `kept` the replies left waiting (see `AIAssistant::receive_pending_at`).
pub open spec fn received_pending(o: AIAssistant, pending: Seq<String>, ts: String, n: AIAssistant, kept: Seq<String>) -> bool {
    &&& !api_key_valid(o.api_key@) ==> n == o && kept == pending
    &&& api_key_valid(o.api_key@) ==> {
        &&& kept.len() == 0
        &&& n.chat_history@ == history_after(o.chat_history@, pending, ts)
        &&& n.debug_messages@ == debug_after(o.debug_messages@, pending)
        &&& n.last_ai_response == if pending.len() > 0 {
            Some(pending.last())
        } else {
            o.last_ai_response
        }
        &&& n.is_loading == (o.is_loading && pending.len() == 0)
        &&& n.scroll_to_bottom == (o.scroll_to_bottom || pending.len() > 0)
        &&& n == (AIAssistant {
            debug_messages: n.debug_messages,
            last_ai_response: n.last_ai_response,
            chat_history: n.chat_history,
            scroll_to_bottom: n.scroll_to_bottom,
            is_loading: n.is_loading,
            ..o
        })
    }
}

/// What sending the typed question, stamped `ts`, with the current file's
/// text `file_content`, makes of `o`, and the request `r` it gives (see
/// `AIAssistant::submit_question_at`).
pub open spec fn submitted(o: AIAssistant, file_content: Seq<char>, ts: String, n: AIAssistant, r: Option<Vec<ChatMessage>>) -> bool {
    &&& all_whitespace(o.input_text@) || o.is_loading ==> r.is_none() && n == o
    &&& !(all_whitespace(o.input_text@) || o.is_loading) ==> {
        &&& r.is_some()
        &&& n.input_text@ == Seq::<char>::empty()
        &&& n.is_loading
        &&& n.chat_history@ == keep_last(
            o.chat_history@.push(Message { content: o.input_text, is_user: true, timestamp: ts }),
            MAX_CHAT_HISTORY as nat,
        )
        &&& is_chat_request(n.chat_history@, n.context_window, n.context_files@, file_content, o.input_text@, r.unwrap()@)
        &&& n == (AIAssistant {
            input_text: n.input_text,
            is_loading: true,
            chat_history: n.chat_history,
            scroll_to_bottom: true,
            ..o
        })
    }
}

/// The assistant's state.
pub struct AIAssistant {
    pub api_key: String,
    pub input_text: String,
    pub chat_history: VecDeque<Message>,
    pub context_files: Vec<ContextFile>,
    pub is_loading: bool,
    pub scroll_to_bottom: bool,
    pub context_window: usize,
    pub debug_messages: VecDeque<String>,
    pub last_ai_response: Option<String>,
    pub model: String,
    pub show_file_selector: bool,
    pub available_files: Vec<String>,
    pub selected_files: Vec<String>,
}

impl AIAssistant {
    /// A fresh assistant with the given key, an empty chat and the default model.
    pub fn new(api_key: String) -> (a: Self)
        ensures
            a.api_key@ == api_key@,
            a.input_text@ == Seq::<char>::empty(),
            a.chat_history@.len() == 0,
            a.context_files@.len() == 0,
            !a.is_loading,
            !a.scroll_to_bottom,
            a.context_window == 5,
            a.debug_messages@.len() == 0,
            a.last_ai_response.is_none(),
            a.model@ == default_model(),
            !a.show_file_selector,
            a.available_files@.len() == 0,
            a.selected_files@.len() == 0,
    {
        AIAssistant {
            api_key,
            input_text: String::new(),
            chat_history: VecDeque::with_capacity(MAX_CHAT_HISTORY),
            context_files: Vec::new(),
            is_loading: false,
            scroll_to_bottom: false,
            context_window: 5,
            debug_messages: VecDeque::with_capacity(MAX_DEBUG_MESSAGES),
            last_ai_response: None,
            model: String::from_str("Qwen/Qwen2.5-Coder-32B-Instruct"),
            show_file_selector: false,
            available_files: Vec::new(),
            selected_files: Vec::new(),
        }
    }

    /// Uses `new_model` from now on.
    pub fn update_model(&mut self, new_model: String)
        ensures
            *final(self) == (AIAssistant { model: new_model, ..*old(self) }),
    {
        self.model = new_model;
    }

    /// Replaces the files offered as context.
    pub fn update_available_files(&mut self, file_paths: Vec<String>)
        ensures
            *final(self) == (AIAssistant { available_files: file_paths, ..*old(self) }),
    {
        self.available_files = file_paths;
    }

    /// Replaces the API key.
    pub fn update_api_key(&mut self, new_key: String)
        ensures
            *final(self) == (AIAssistant { api_key: new_key, ..*old(self) }),
    {
        self.api_key = new_key;
    }

    /// A key is usable when it has at least 32 bytes and is not all white space.
    pub fn is_api_key_valid(&self) -> (b: bool)
        ensures
            b == (vstd::utf8::encode_utf8(self.api_key@).len() >= 32 && !all_whitespace(
                self.api_key@,
            )),
    {
        if self.api_key.as_str().as_bytes().len() < 32 {
            return false;
        }
        let v = to_chars(self.api_key.as_str());
        let mut i: usize = 0;
        while i < v.len()
            invariant
                v@ == self.api_key@,
                vstd::utf8::encode_utf8(self.api_key@).len() >= 32,
                i <= v@.len(),
                forall|k: int| 0 <= k < i ==> is_whitespace(v@[k]),
            decreases v@.len() - i,
        {
            if !char_is_whitespace(v[i]) {
                assert(!is_whitespace(self.api_key@[i as int]));
                return true;
            }
            i = i + 1;
        }
        false
    }

    /// Keeps a debug message; only the last `MAX_DEBUG_MESSAGES` stay.
    pub fn add_debug_message(&mut self, msg: String)
        ensures
            final(self).debug_messages@ == keep_last(
                old(self).debug_messages@.push(msg),
                MAX_DEBUG_MESSAGES as nat,
            ),
            *final(self) == (AIAssistant { debug_messages: final(self).debug_messages, ..*old(self) }),
    {
        push_bounded(&mut self.debug_messages, msg, MAX_DEBUG_MESSAGES);
    }

    /// Appends a message stamped `timestamp` to the history, of which only the
    /// last `MAX_CHAT_HISTORY` stay, and asks the view to scroll down.
    pub fn add_message_at(&mut self, content: String, is_user: bool, timestamp: String)
        ensures
            final(self).chat_history@ == keep_last(
                old(self).chat_history@.push(Message { content, is_user, timestamp }),
                MAX_CHAT_HISTORY as nat,
            ),
            *final(self) == (AIAssistant {
                chat_history: final(self).chat_history,
                scroll_to_bottom: true,
                ..*old(self)
            }),
    {
        push_bounded(&mut self.chat_history, Message { content, is_user, timestamp }, MAX_CHAT_HISTORY);
        self.scroll_to_bottom = true;
    }

    /// `add_message_at` stamped with the local time of day (`HH:MM`).
    pub fn add_message(&mut self, content: String, is_user: bool)
        ensures
            exists|ts: String|
                #![trigger ts@.len()]
                ts@.len() == 5 && ts@[2] == ':' && final(self).chat_history@ == keep_last(
                    old(self).chat_history@.push(Message { content, is_user, timestamp: ts }),
                    MAX_CHAT_HISTORY as nat,
                ),
            *final(self) == (AIAssistant {
                chat_history: final(self).chat_history,
                scroll_to_bottom: true,
                ..*old(self)
            }),
    {
        let ts = local_time_hm();
        let ghost t = ts;
        self.add_message_at(content, is_user, ts);
        assert(t@.len() == 5);
    }

    /// The messages of a request: the system prompt with the active context
    /// files and the current file, at most `context_window` history entries
    /// from the oldest on, and the question.
    pub fn format_chat_messages(&self, file_content: &str, current_question: &str) -> (r: Vec<
        ChatMessage,
    >)
        ensures
            is_chat_request(
                self.chat_history@,
                self.context_window,
                self.context_files@,
                file_content@,
                current_question@,
                r@,
            ),
    {
        let mut parts: Vec<String> = Vec::new();
        let mut i: usize = 0;
        while i < self.context_files.len()
            invariant
                i <= self.context_files@.len(),
                strs_view(parts@) == active_parts(self.context_files@.take(i as int)),
            decreases self.context_files@.len() - i,
        {
            assert(self.context_files@.take(i + 1).drop_last() =~= self.context_files@.take(
                i as int,
            ));
            let f = &self.context_files[i];
            if f.is_active {
                let mut part = String::from_str("File: ");
                part.append(f.path.as_str());
                part.append("\n```\n");
                part.append(f.content.as_str());
                part.append("\n```");
                parts.push(part);
            }
            i = i + 1;
            assert(strs_view(parts@) =~= active_parts(self.context_files@.take(i as int)));
        }
        assert(self.context_files@.take(self.context_files@.len() as int) =~= self.context_files@);
        if !file_content.is_empty() {
            let mut part = String::from_str("Current File:\n```\n");
            part.append(file_content);
            part.append("\n```");
            parts.push(part);
        }
        assert(strs_view(parts@) =~= context_parts(self.context_files@, file_content@));
        let mut system = String::from_str(
            "You are an AI programming assistant in an IDE. You have access to the following files:\n\n",
        );
        let joined = join_strs(&parts, "\n\n");
        system.append(joined.as_str());
        let mut messages: Vec<ChatMessage> = Vec::new();
        messages.push(ChatMessage { role: String::from_str("system"), content: system });
        let m = if self.chat_history.len() < self.context_window {
            self.chat_history.len()
        } else {
            self.context_window
        };
        let mut j: usize = 0;
        while j < m
            invariant
                m == carried(self.chat_history@.len(), self.context_window),
                m <= self.chat_history@.len(),
                j <= m,
                messages@.len() == j + 1,
                messages@[0].role@ == "system"@,
                messages@[0].content@ == system_prompt(self.context_files@, file_content@),
                forall|k: int|
                    0 <= k < j ==> {
                        &&& (#[trigger] messages@[k + 1]).role@ == role_of(
                            self.chat_history@[k].is_user,
                        )
                        &&& messages@[k + 1].content@ == self.chat_history@[k].content@
                    },
            decreases m - j,
        {
            let msg = &self.chat_history[j];
            let role = if msg.is_user {
                String::from_str("user")
            } else {
                String::from_str("assistant")
            };
            messages.push(ChatMessage { role, content: msg.content.clone() });
            j = j + 1;
        }
        messages.push(
            ChatMessage {
                role: String::from_str("user"),
                content: String::from_str(current_question),
            },
        );
        messages
    }

    /// Whether the last reply holds code that can be applied.
    pub fn has_code_block(&self) -> (b: bool)
        ensures
            b == (trim(code_block(last_reply_text(self.last_ai_response))).len() > 0),
    {
        let last = match &self.last_ai_response {
            Some(s) => s.clone(),
            None => String::new(),
        };
        let block = extract_code_block(last.as_str());
        let code = trim_str(block.as_str());
        !code.as_str().is_empty()
    }

    /// Puts the code of the last reply, trimmed, into the active buffer and
    /// marks it modified, then forgets the reply. Does nothing when the reply
    /// holds no code or no buffer is active. Returns whether it applied.
    pub fn apply_code(&mut self, editor: &mut CodeEditor) -> (applied: bool)
        ensures
            ({
                let code = trim(code_block(last_reply_text(old(self).last_ai_response)));
                let active = old(editor).active_buffer_index;
                if code.len() > 0 && active is Some && active.unwrap() < old(editor).buffers@.len() {
                    let i = active.unwrap() as int;
                    &&& applied
                    &&& final(self).last_ai_response.is_none()
                    &&& final(editor).buffers@.len() == old(editor).buffers@.len()
                    &&& forall|k: int|
                        0 <= k < old(editor).buffers@.len() && k != i
                            ==> #[trigger] final(editor).buffers@[k] == old(editor).buffers@[k]
                    &&& final(editor).buffers@[i].content@ == code
                    &&& final(editor).buffers@[i].is_modified
                    &&& final(editor).buffers@[i].file_path == old(editor).buffers@[i].file_path
                    &&& final(editor).buffers@[i].syntax == old(editor).buffers@[i].syntax
                    &&& final(editor).buffers@[i].cursor_position == old(editor).buffers@[i].cursor_position
                } else {
                    &&& !applied
                    &&& final(self).last_ai_response == old(self).last_ai_response
                    &&& final(editor).buffers@ == old(editor).buffers@
                }
            }),
            final(editor).active_buffer_index == old(editor).active_buffer_index,
            *final(self) == (AIAssistant { last_ai_response: final(self).last_ai_response, ..*old(self) }),
    {
        let last = match &self.last_ai_response {
            Some(s) => s.clone(),
            None => String::new(),
        };
        let block = extract_code_block(last.as_str());
        let code = trim_str(block.as_str());
        if code.as_str().is_empty() {
            return false;
        }
        match editor.get_active_buffer_mut() {
            Some(b) => {
                b.content = code;
                b.is_modified = true;
                self.last_ai_response = None;
                true
            },
            None => false,
        }
    }

    /// Handles a reply: error replies also go to the debug messages; the reply
    /// becomes the last one and joins the history, stamped `timestamp`, and
    /// loading ends.
    pub fn receive_response_at(&mut self, response: String, timestamp: String)
        ensures
            received(*old(self), response, timestamp, *final(self)),
    {
        let r = response.as_str();
        if str_starts_with(r, "Error") || str_starts_with(r, "Network error") || str_starts_with(
            r,
            "API error",
        ) {
            self.add_debug_message(response.clone());
        }
        self.last_ai_response = Some(response.clone());
        self.add_message_at(response, false, timestamp);
        self.is_loading = false;
    }

    /// `receive_response_at` stamped with the local time of day.
    pub fn receive_response(&mut self, response: String)
        ensures
            exists|ts: String| #![trigger ts@.len()] ts@.len() == 5 && received(*old(self), response, ts, *final(self)),
    {
        let ts = local_time_hm();
        let ghost t = ts;
        self.receive_response_at(response, ts);
        assert(t@.len() == 5);
    }

    /// Takes the replies that came in, in order, each stamped `timestamp` (see
    /// `receive_response_at`), and returns those left waiting: while the key
    /// is not usable nothing is taken and all stay waiting.
    pub fn receive_pending_at(&mut self, pending: Vec<String>, timestamp: String) -> (kept: Vec<String>)
        ensures
            received_pending(*old(self), pending@, timestamp, *final(self), kept@),
    {
        if !self.is_api_key_valid() {
            return pending;
        }
        let ghost old_self = *self;
        let mut i: usize = 0;
        while i < pending.len()
            invariant
                i <= pending@.len(),
                self.chat_history@ == history_after(old_self.chat_history@, pending@.subrange(0, i as int), timestamp),
                self.debug_messages@ == debug_after(old_self.debug_messages@, pending@.subrange(0, i as int)),
                self.last_ai_response == if i > 0 {
                    Some(pending@[i - 1])
                } else {
                    old_self.last_ai_response
                },
                self.is_loading == (old_self.is_loading && i == 0),
                self.scroll_to_bottom == (old_self.scroll_to_bottom || i > 0),
                *self == (AIAssistant {
                    debug_messages: self.debug_messages,
                    last_ai_response: self.last_ai_response,
                    chat_history: self.chat_history,
                    scroll_to_bottom: self.scroll_to_bottom,
                    is_loading: self.is_loading,
                    ..old_self
                }),
            decreases pending@.len() - i,
        {
            let r = pending[i].clone();
            let ts = timestamp.clone();
            self.receive_response_at(r, ts);
            proof {
                let next = pending@.subrange(0, i + 1);
                assert(next.drop_last() =~= pending@.subrange(0, i as int));
                assert(next.last() == pending@[i as int]);
            }
            i = i + 1;
        }
        assert(pending@.subrange(0, pending@.len() as int) =~= pending@);
        Vec::new()
    }

    /// `receive_pending_at` stamped with the local time of day.
    pub fn receive_pending(&mut self, pending: Vec<String>) -> (kept: Vec<String>)
        ensures
            exists|ts: String| #![trigger ts@.len()] ts@.len() == 5 && received_pending(*old(self), pending@, ts, *final(self), kept@),
    {
        let ts = local_time_hm();
        let ghost t = ts;
        let kept = self.receive_pending_at(pending, ts);
        assert(t@.len() == 5);
        kept
    }

    /// Sends the typed question, unless it is blank or a request is under way:
    /// the input is cleared, the question joins the history stamped `timestamp`,
    /// loading starts, and the request's messages are returned.
    pub fn submit_question_at(&mut self, file_content: &str, timestamp: String) -> (r: Option<Vec<ChatMessage>>)
        ensures
            submitted(*old(self), file_content@, timestamp, *final(self), r),
    {
        if is_blank(self.input_text.as_str()) || self.is_loading {
            return None;
        }
        let question = self.input_text.clone();
        self.input_text = String::new();
        self.add_message_at(question.clone(), true, timestamp);
        self.is_loading = true;
        Some(self.format_chat_messages(file_content, question.as_str()))
    }

    /// `submit_question_at` stamped with the local time of day.
    pub fn submit_question(&mut self, file_content: &str) -> (r: Option<Vec<ChatMessage>>)
        ensures
            exists|ts: String| #![trigger ts@.len()] ts@.len() == 5 && submitted(*old(self), file_content@, ts, *final(self), r),
    {
        let ts = local_time_hm();
        let ghost t = ts;
        let r = self.submit_question_at(file_content, ts);
        assert(t@.len() == 5);
        r
    }

    /// Adds `path` to the selected files and, when no context file has it, a
    /// new active context file with no text.
    pub fn select_context_file(&mut self, path: String)
        ensures
            (exists|k: int| 0 <= k < old(self).selected_files@.len() && (#[trigger] old(self).selected_files@[k])@ == path@)
                ==> final(self).selected_files@ == old(self).selected_files@,
            !(exists|k: int| 0 <= k < old(self).selected_files@.len() && (#[trigger] old(self).selected_files@[k])@ == path@)
                ==> final(self).selected_files@ == old(self).selected_files@.push(path),
            (exists|k: int| 0 <= k < old(self).context_files@.len() && (#[trigger] old(self).context_files@[k]).path@ == path@)
                ==> final(self).context_files@ == old(self).context_files@,
            !(exists|k: int| 0 <= k < old(self).context_files@.len() && (#[trigger] old(self).context_files@[k]).path@ == path@)
                ==> final(self).context_files@.len() == old(self).context_files@.len() + 1
                && final(self).context_files@.drop_last() == old(self).context_files@
                && final(self).context_files@.last().path@ == path@
                && final(self).context_files@.last().content@ == Seq::<char>::empty()
                && final(self).context_files@.last().is_active,
            *final(self) == (AIAssistant {
                selected_files: final(self).selected_files,
                context_files: final(self).context_files,
                ..*old(self)
            }),
    {
        let mut i: usize = 0;
        let mut found = false;
        while i < self.selected_files.len() && !found
            invariant
                i <= self.selected_files@.len(),
                found ==> i < self.selected_files@.len() && self.selected_files@[i as int]@ == path@,
                !found ==> forall|k: int| 0 <= k < i ==> (#[trigger] self.selected_files@[k])@ != path@,
            decreases self.selected_files@.len() - i + if found { 0int } else { 1int },
        {
            if self.selected_files[i].eq(&path) {
                found = true;
            } else {
                i = i + 1;
            }
        }
        let mut j: usize = 0;
        let mut has_file = false;
        while j < self.context_files.len() && !has_file
            invariant
                j <= self.context_files@.len(),
                has_file ==> j < self.context_files@.len() && self.context_files@[j as int].path@ == path@,
                !has_file ==> forall|k: int| 0 <= k < j ==> (#[trigger] self.context_files@[k]).path@ != path@,
            decreases self.context_files@.len() - j + if has_file { 0int } else { 1int },
        {
            if self.context_files[j].path.eq(&path) {
                has_file = true;
            } else {
                j = j + 1;
            }
        }
        if !has_file {
            let p = path.clone();
            self.context_files.push(ContextFile { path: p, content: String::new(), is_active: true });
        }
        if !found {
            self.selected_files.push(path);
        }
    }

    /// Drops `path` from the selected files and from the context files.
    pub fn deselect_context_file(&mut self, path: &str)
        ensures
            final(self).selected_files@ == without_str(old(self).selected_files@, path@),
            final(self).context_files@ == without_file(old(self).context_files@, path@),
            *final(self) == (AIAssistant {
                selected_files: final(self).selected_files,
                context_files: final(self).context_files,
                ..*old(self)
            }),
    {
        self.selected_files = remove_str(&self.selected_files, path);
        remove_file(&mut self.context_files, path);
    }

    /// Removes context file `index`, and its path from the selected files.
    pub fn remove_context_file(&mut self, index: usize)
        ensures
            index < old(self).context_files@.len() ==> {
                &&& final(self).context_files@ == old(self).context_files@.remove(index as int)
                &&& final(self).selected_files@ == without_str(
                    old(self).selected_files@,
                    old(self).context_files@[index as int].path@,
                )
            },
            index >= old(self).context_files@.len() ==> final(self).context_files@
                == old(self).context_files@ && final(self).selected_files@
                == old(self).selected_files@,
            *final(self) == (AIAssistant {
                selected_files: final(self).selected_files,
                context_files: final(self).context_files,
                ..*old(self)
            }),
    {
        if index < self.context_files.len() {
            let p = self.context_files[index].path.clone();
            self.selected_files = remove_str(&self.selected_files, p.as_str());
            self.context_files.remove(index);
        }
    }
}

} // verus!
