//! Language-server support: message framing, the documents a server holds
//! and how edits change them, and the completions offered.
use vstd::prelude::*;
use vstd::string::StringExecFns;
use vstd::utf8::{encode_utf8, is_char_boundary};
use crate::keyed::KeyedList;
use crate::text::{
    decimal, decimal_string, lines, lines_of, strs_view, trim, trim_str, starts_with_seq,
    str_starts_with, to_chars, substring, string_from_chars,
};
use crate::git_manager::{split_seq, split_str};
use vstd::string::StringSliceAdditionalSpecFns;

verus! {

/// A message framed for the language-server protocol.
pub open spec fn framed(msg: Seq<char>) -> Seq<char> {
    "Content-Length: "@ + decimal(encode_utf8(msg).len()) + "\r\n\r\n"@ + msg
}

/// Frames a message with its length in bytes.
pub fn frame_message(msg: &str) -> (r: String)
    ensures
        r@ == framed(msg@),
{
    let n = msg.as_bytes().len();
    let mut r = String::from_str("Content-Length: ");
    r.append(decimal_string(n as u64).as_str());
    r.append("\r\n\r\n");
    r.append(msg);
    r
}

/// The kind of a completion.
#[derive(Debug, Clone, Copy, PartialEq, Eq, Structural)]
pub enum CompletionKind {
    Keyword,
    Method,
    Variable,
    Function,
}

/// A completion: what it inserts, its kind if any, and its description.
pub struct Completion {
    pub label: String,
    pub kind: Option<CompletionKind>,
    pub detail: String,
}

/// A completion as plain values.
pub open spec fn completion_view(c: Completion) -> (Seq<char>, Option<CompletionKind>, Seq<char>) {
    (c.label@, c.kind, c.detail@)
}

/// The views of a sequence of completions.
pub open spec fn completions_view(v: Seq<Completion>) -> Seq<(Seq<char>, Option<CompletionKind>, Seq<char>)> {
    Seq::new(v.len(), |i: int| completion_view(v[i]))
}

/// The Kotlin keywords offered.
pub open spec fn kotlin_keywords() -> Seq<Seq<char>> {
    seq!["class"@, "fun"@, "val"@, "var"@, "if"@, "when"@, "for"@, "while"@]
}

/// The keyword completions.
pub open spec fn keyword_items() -> Seq<(Seq<char>, Option<CompletionKind>, Seq<char>)> {
    Seq::new(8, |i: int| (kotlin_keywords()[i], Some(CompletionKind::Keyword), "Kotlin keyword"@))
}

/// The completions offered after a `.`.
pub open spec fn method_items() -> Seq<(Seq<char>, Option<CompletionKind>, Seq<char>)> {
    seq![
        ("toString()"@, Some(CompletionKind::Method), "Convert to string"@),
        ("hashCode()"@, Some(CompletionKind::Method), "Get hash code"@),
    ]
}

/// The variable a line declares: after `var ` in the trimmed line, up to
/// the first `:`, trimmed.
pub open spec fn declared_var(line: Seq<char>) -> Option<Seq<char>> {
    let t = trim(line);
    if starts_with_seq(t, "var "@) {
        Some(trim(split_seq(t.subrange(4, t.len() as int), ":"@)[0]))
    } else {
        None
    }
}

/// The function a line declares: after `fun ` in the trimmed line, up to
/// the first `(`, trimmed.
pub open spec fn declared_fun(line: Seq<char>) -> Option<Seq<char>> {
    let t = trim(line);
    if starts_with_seq(t, "fun "@) {
        Some(trim(split_seq(t.subrange(4, t.len() as int), "("@)[0]))
    } else {
        None
    }
}

/// The completions of the declarations in the first `n` lines.
pub open spec fn declaration_items(ls: Seq<Seq<char>>, n: int) -> Seq<(Seq<char>, Option<CompletionKind>, Seq<char>)>
    decreases n,
{
    if n <= 0 {
        Seq::empty()
    } else {
        declaration_items(ls, n - 1) + match declared_var(ls[n - 1]) {
            Some(v) => seq![(v, Some(CompletionKind::Variable), "Local variable"@)],
            None => Seq::empty(),
        } + match declared_fun(ls[n - 1]) {
            Some(f) => seq![(f, Some(CompletionKind::Function), "Function"@)],
            None => Seq::empty(),
        }
    }
}

/// Whether the text before byte `character` of `line` ends with `.`.
pub open spec fn prefix_ends_with_dot(line: Seq<char>, character: int) -> bool {
    character > 0 && encode_utf8(line)[character - 1] == 46u8
}

/// The completions for a Kotlin document at a position: nothing for an
/// unknown document; else the keywords, and when the position's line exists,
/// the methods after a `.` and the declared variables and functions.
pub open spec fn kotlin_completion_items(content: Option<Seq<char>>, line: int, character: int) -> Seq<(Seq<char>, Option<CompletionKind>, Seq<char>)> {
    match content {
        None => Seq::empty(),
        Some(c) => {
            let ls = lines(c);
            if 0 <= line < ls.len() {
                keyword_items() + (if prefix_ends_with_dot(ls[line], character) {
                    method_items()
                } else {
                    Seq::empty()
                }) + declaration_items(ls, ls.len() as int)
            } else {
                keyword_items()
            }
        },
    }
}

proof fn lemma_declaration_items_hold(ls: Seq<Seq<char>>, n: int, l: int)
    requires
        0 <= l < n <= ls.len(),
    ensures
        declared_var(ls[l]) matches Some(v) ==> declaration_items(ls, n).contains((v, Some(CompletionKind::Variable), "Local variable"@)),
        declared_fun(ls[l]) matches Some(f) ==> declaration_items(ls, n).contains((f, Some(CompletionKind::Function), "Function"@)),
    decreases n,
{
    let prev = declaration_items(ls, n - 1);
    let vs = match declared_var(ls[n - 1]) {
        Some(v) => seq![(v, Some(CompletionKind::Variable), "Local variable"@)],
        None => Seq::empty(),
    };
    let fs = match declared_fun(ls[n - 1]) {
        Some(f) => seq![(f, Some(CompletionKind::Function), "Function"@)],
        None => Seq::empty(),
    };
    let cur = declaration_items(ls, n);
    assert(cur == prev + vs + fs);
    if l < n - 1 {
        lemma_declaration_items_hold(ls, n - 1, l);
        if let Some(v) = declared_var(ls[l]) {
            let k = choose|k: int| 0 <= k < prev.len() && prev[k] == (v, Some(CompletionKind::Variable), "Local variable"@);
            assert(cur[k] == prev[k]);
        }
        if let Some(f) = declared_fun(ls[l]) {
            let k = choose|k: int| 0 <= k < prev.len() && prev[k] == (f, Some(CompletionKind::Function), "Function"@);
            assert(cur[k] == prev[k]);
        }
    } else {
        if let Some(v) = declared_var(ls[l]) {
            assert(cur[prev.len() as int] == vs[0]);
        }
        if let Some(f) = declared_fun(ls[l]) {
            assert(cur[(prev.len() + vs.len()) as int] == fs[0]);
        }
    }
}

/// Every declaration of the document is offered, whichever of its lines
/// the request names: for each line `l` of the document that declares a
/// variable or a function, its name is among the completions at any position
/// on an existing line.
pub proof fn lemma_every_declaration_is_offered(content: Seq<char>, line: int, character: int, l: int)
    requires
        0 <= line < lines(content).len(),
        0 <= l < lines(content).len(),
    ensures
        declared_var(lines(content)[l]) matches Some(v) ==> kotlin_completion_items(Some(content), line, character).contains(
            (v, Some(CompletionKind::Variable), "Local variable"@),
        ),
        declared_fun(lines(content)[l]) matches Some(f) ==> kotlin_completion_items(Some(content), line, character).contains(
            (f, Some(CompletionKind::Function), "Function"@),
        ),
{
    let ls = lines(content);
    lemma_declaration_items_hold(ls, ls.len() as int, l);
    let head = keyword_items() + (if prefix_ends_with_dot(ls[line], character) {
        method_items()
    } else {
        Seq::empty()
    });
    let d = declaration_items(ls, ls.len() as int);
    let all = kotlin_completion_items(Some(content), line, character);
    assert(all == head + d);
    if let Some(v) = declared_var(ls[l]) {
        let k = choose|k: int| 0 <= k < d.len() && d[k] == (v, Some(CompletionKind::Variable), "Local variable"@);
        assert(all[head.len() + k] == d[k]);
    }
    if let Some(f) = declared_fun(ls[l]) {
        let k = choose|k: int| 0 <= k < d.len() && d[k] == (f, Some(CompletionKind::Function), "Function"@);
        assert(all[head.len() + k] == d[k]);
    }
}

/// A position that the completion request may name: when its line exists,
/// the character offset is a byte offset within it at a character boundary.
pub open spec fn position_in_line(content: Option<Seq<char>>, line: int, character: int) -> bool {
    match content {
        Some(c) => 0 <= line < lines(c).len() ==> character <= encode_utf8(lines(c)[line]).len()
            && is_char_boundary(encode_utf8(lines(c)[line]), character),
        None => true,
    }
}

fn push_item(v: &mut Vec<Completion>, label: String, kind: Option<CompletionKind>, detail: &str)
    ensures
        completions_view(final(v)@) == completions_view(old(v)@).push((label@, kind, detail@)),
{
    let ghost lv = label@;
    v.push(Completion { label, kind, detail: String::from_str(detail) });
    assert(completions_view(v@) =~= completions_view(old(v)@).push((lv, kind, detail@)));
}

fn declared_name(line: &str, key: &str, stop: &str) -> (r: Option<String>)
    requires
        key@.len() == 4,
        stop@.len() > 0,
    ensures
        match r {
            Some(n) => {
                let t = trim(line@);
                starts_with_seq(t, key@) && n@ == trim(split_seq(t.subrange(4, t.len() as int), stop@)[0])
            },
            None => !starts_with_seq(trim(line@), key@),
        },
{
    let t = trim_str(line);
    if !str_starts_with(t.as_str(), key) {
        return None;
    }
    let v = to_chars(t.as_str());
    let rest = substring(&v, 4, v.len());
    let pieces = split_str(rest.as_str(), stop);
    assert(split_seq(rest@, stop@).len() > 0);
    assert(pieces@.map_values(|p: String| p@).len() > 0);
    assert(pieces@.map_values(|p: String| p@)[0] == pieces@[0]@);
    Some(trim_str(pieces[0].as_str()))
}

/// The completions for a Kotlin document at a position (see
/// `kotlin_completion_items`).
pub fn kotlin_completions(content: Option<&str>, line: u32, character: u32) -> (r: Vec<Completion>)
    requires
        position_in_line(
            match content {
                Some(c) => Some(c@),
                None => None,
            },
            line as int,
            character as int,
        ),
    ensures
        completions_view(r@) == kotlin_completion_items(
            match content {
                Some(c) => Some(c@),
                None => None,
            },
            line as int,
            character as int,
        ),
{
    let mut r: Vec<Completion> = Vec::new();
    let c = match content {
        Some(c) => c,
        None => {
            assert(completions_view(r@) =~= Seq::<(Seq<char>, Option<CompletionKind>, Seq<char>)>::empty());
            return r;
        },
    };
    let keywords = ["class", "fun", "val", "var", "if", "when", "for", "while"];
    let mut k: usize = 0;
    while k < 8
        invariant
            k <= 8,
            keywords@.len() == 8,
            forall|q: int| 0 <= q < 8 ==> (#[trigger] keywords@[q])@ == kotlin_keywords()[q],
            completions_view(r@) == keyword_items().take(k as int),
        decreases 8 - k,
    {
        push_item(&mut r, String::from_str(keywords[k]), Some(CompletionKind::Keyword), "Kotlin keyword");
        k = k + 1;
        assert(completions_view(r@) =~= keyword_items().take(k as int));
    }
    assert(keyword_items().take(8) =~= keyword_items());
    let ls = lines_of(c);
    let ghost lv = lines(c@);
    if (line as usize) < ls.len() {
        let l = ls[line as usize].as_str();
        assert(strs_view(ls@)[line as int] == ls@[line as int]@);
        let bytes = l.as_bytes();
        let ch = character as usize;
        if ch > 0 && bytes[ch - 1] == 46u8 {
            push_item(&mut r, String::from_str("toString()"), Some(CompletionKind::Method), "Convert to string");
            push_item(&mut r, String::from_str("hashCode()"), Some(CompletionKind::Method), "Get hash code");
        }
        let ghost head = completions_view(r@);
        assert(head == keyword_items() + (if prefix_ends_with_dot(lv[line as int], character as int) {
            method_items()
        } else {
            Seq::empty()
        }));
        let mut i: usize = 0;
        while i < ls.len()
            invariant
                strs_view(ls@) == lv,
                i <= ls@.len(),
                completions_view(r@) == head + declaration_items(lv, i as int),
            decreases ls@.len() - i,
        {
            assert(strs_view(ls@)[i as int] == ls@[i as int]@);
            let ghost before = completions_view(r@);
            proof {
                reveal_strlit("var ");
                reveal_strlit(":");
                reveal_strlit("fun ");
                reveal_strlit("(");
            }
            match declared_name(ls[i].as_str(), "var ", ":") {
                Some(n) => push_item(&mut r, n, Some(CompletionKind::Variable), "Local variable"),
                None => {},
            }
            let ghost mid = completions_view(r@);
            match declared_name(ls[i].as_str(), "fun ", "(") {
                Some(n) => push_item(&mut r, n, Some(CompletionKind::Function), "Function"),
                None => {},
            }
            i = i + 1;
            assert(completions_view(r@) =~= head + declaration_items(lv, i as int));
        }
    }
    r
}

/// The completions of the TypeScript server.
pub open spec fn typescript_items() -> Seq<(Seq<char>, Option<CompletionKind>, Seq<char>)> {
    seq![
        ("import"@, None, "Import statement"@),
        ("useState"@, None, "React useState hook"@),
        ("useEffect"@, None, "React useEffect hook"@),
        ("StyleSheet"@, None, "React Native StyleSheet"@),
        ("View"@, None, "React Native View component"@),
        ("Text"@, None, "React Native Text component"@),
    ]
}

/// The completions that the TypeScript server offers.
pub fn typescript_completions() -> (r: Vec<Completion>)
    ensures
        completions_view(r@) == typescript_items(),
{
    let mut r: Vec<Completion> = Vec::new();
    push_item(&mut r, String::from_str("import"), None, "Import statement");
    push_item(&mut r, String::from_str("useState"), None, "React useState hook");
    push_item(&mut r, String::from_str("useEffect"), None, "React useEffect hook");
    push_item(&mut r, String::from_str("StyleSheet"), None, "React Native StyleSheet");
    push_item(&mut r, String::from_str("View"), None, "React Native View component");
    push_item(&mut r, String::from_str("Text"), None, "React Native Text component");
    assert(completions_view(r@) =~= typescript_items());
    r
}

/// An edit of a document: the character range it replaces (by character
/// offsets within the document), or the whole document when there is none,
/// and the new text.
pub struct ContentChange {
    pub range: Option<(u32, u32)>,
    pub text: String,
}

/// A character offset held to the document's length.
pub open spec fn clamp(c: u32, n: nat) -> int {
    if c as int > n {
        n as int
    } else {
        c as int
    }
}

/// A range edit whose clamped start does not pass its clamped end.
pub open spec fn change_applies(content: Seq<char>, ch: ContentChange) -> bool {
    match ch.range {
        Some((s, e)) => clamp(s, content.len()) <= clamp(e, content.len()),
        None => true,
    }
}

/// The document after one edit.
pub open spec fn apply_change(content: Seq<char>, ch: ContentChange) -> Seq<char> {
    match ch.range {
        Some((s, e)) => content.subrange(0, clamp(s, content.len())) + ch.text@ + content.subrange(
            clamp(e, content.len()),
            content.len() as int,
        ),
        None => ch.text@,
    }
}

/// The document after the first `n` edits.
pub open spec fn apply_upto(content: Seq<char>, chs: Seq<ContentChange>, n: int) -> Seq<char>
    decreases n,
{
    if n <= 0 {
        content
    } else {
        apply_change(apply_upto(content, chs, n - 1), chs[n - 1])
    }
}

/// Each of the first `n` edits applies to the document it meets.
pub open spec fn edits_apply(content: Seq<char>, chs: Seq<ContentChange>, n: int) -> bool
    decreases n,
{
    n <= 0 || (edits_apply(content, chs, n - 1) && change_applies(apply_upto(content, chs, n - 1), chs[n - 1]))
}

/// An edit without a range replaces the whole document.
pub proof fn lemma_whole_document_change(content: Seq<char>, ch: ContentChange)
    requires
        ch.range.is_none(),
    ensures
        change_applies(content, ch),
        apply_change(content, ch) == ch.text@,
{
}

/// An edit that puts back the text its range already holds changes nothing.
pub proof fn lemma_identity_change(content: Seq<char>, ch: ContentChange)
    requires
        ch.range matches Some((s, e)) && s <= e && e as int <= content.len() && ch.text@
            == content.subrange(s as int, e as int),
    ensures
        change_applies(content, ch),
        apply_change(content, ch) == content,
{
    let (s, e) = ch.range.unwrap();
    assert(content.subrange(0, s as int) + content.subrange(s as int, e as int) + content.subrange(
        e as int,
        content.len() as int,
    ) =~= content);
}

/// The documents a language server holds, by address.
pub struct DocumentStore {
    pub docs: KeyedList<String>,
}

impl DocumentStore {
    pub open spec fn wf(&self) -> bool {
        self.docs.wf()
    }

    /// The text of a document, if held.
    pub open spec fn text(&self, uri: Seq<char>) -> Option<Seq<char>> {
        match self.docs.lookup(uri) {
            Some(t) => Some(t@),
            None => None,
        }
    }

    /// An empty store.
    pub fn new() -> (s: Self)
        ensures
            s.wf(),
            forall|u: Seq<char>| s.text(u).is_none(),
    {
        DocumentStore { docs: KeyedList::new() }
    }

    /// Holds `text` as the document at `uri`.
    pub fn did_open(&mut self, uri: String, text: String)
        requires
            old(self).wf(),
        ensures
            final(self).wf(),
            final(self).text(uri@) == Some(text@),
            forall|u: Seq<char>| u != uri@ ==> final(self).text(u) == old(self).text(u),
    {
        let ghost (uv, tv) = (uri@, text@);
        self.docs.insert(uri, text);
        assert forall|u: Seq<char>| u != uv implies self.text(u) == old(self).text(u) by {
            assert(self.docs.lookup(u) == old(self).docs.lookup(u));
        }
    }

    /// Forgets the document at `uri`.
    pub fn did_close(&mut self, uri: &str)
        requires
            old(self).wf(),
        ensures
            final(self).wf(),
            final(self).text(uri@).is_none(),
            forall|u: Seq<char>| u != uri@ ==> final(self).text(u) == old(self).text(u),
    {
        self.docs.remove(uri);
        assert forall|u: Seq<char>| u != uri@ implies self.text(u) == old(self).text(u) by {
            assert(self.docs.lookup(u) == old(self).docs.lookup(u));
        }
    }

    /// The text of the document at `uri`, if held.
    pub fn get(&self, uri: &str) -> (r: Option<&String>)
        requires
            self.wf(),
        ensures
            match r {
                Some(t) => self.text(uri@) == Some(t@),
                None => self.text(uri@).is_none(),
            },
    {
        self.docs.get(uri)
    }

    /// Applies edits, in order, to the document at `uri` when it is held.
    pub fn did_change(&mut self, uri: String, changes: Vec<ContentChange>)
        requires
            old(self).wf(),
            old(self).text(uri@) matches Some(t) ==> edits_apply(t, changes@, changes@.len() as int),
        ensures
            final(self).wf(),
            final(self).text(uri@) == match old(self).text(uri@) {
                Some(t) => Some(apply_upto(t, changes@, changes@.len() as int)),
                None => None,
            },
            forall|u: Seq<char>| u != uri@ ==> final(self).text(u) == old(self).text(u),
    {
        let current = match self.docs.get(uri.as_str()) {
            Some(t) => t.clone(),
            None => {
                return;
            },
        };
        let ghost t0 = current@;
        let mut doc = to_chars(current.as_str());
        let mut i: usize = 0;
        while i < changes.len()
            invariant
                i <= changes@.len(),
                edits_apply(t0, changes@, changes@.len() as int),
                doc@ == apply_upto(t0, changes@, i as int),
            decreases changes@.len() - i,
        {
            proof {
                lemma_edits_apply_prefix(t0, changes@, changes@.len() as int, i + 1);
            }
            let ch = &changes[i];
            match ch.range {
                Some((s, e)) => {
                    let n = doc.len();
                    let a: usize = if (s as usize) > n { n } else { s as usize };
                    let b: usize = if (e as usize) > n { n } else { e as usize };
                    let mut next: Vec<char> = Vec::new();
                    let mut k: usize = 0;
                    while k < a
                        invariant
                            k <= a <= n == doc@.len(),
                            next@ == doc@.subrange(0, k as int),
                        decreases a - k,
                    {
                        next.push(doc[k]);
                        k = k + 1;
                        assert(next@ =~= doc@.subrange(0, k as int));
                    }
                    let tv = to_chars(ch.text.as_str());
                    let mut q: usize = 0;
                    while q < tv.len()
                        invariant
                            q <= tv@.len(),
                            a <= n == doc@.len(),
                            next@ == doc@.subrange(0, a as int) + tv@.subrange(0, q as int),
                        decreases tv@.len() - q,
                    {
                        next.push(tv[q]);
                        q = q + 1;
                        assert(next@ =~= doc@.subrange(0, a as int) + tv@.subrange(0, q as int));
                    }
                    let mut m = b;
                    while m < n
                        invariant
                            a <= b <= m <= n == doc@.len(),
                            next@ == doc@.subrange(0, a as int) + tv@ + doc@.subrange(b as int, m as int),
                        decreases n - m,
                    {
                        next.push(doc[m]);
                        m = m + 1;
                        assert(next@ =~= doc@.subrange(0, a as int) + tv@ + doc@.subrange(b as int, m as int));
                    }
                    assert(tv@.subrange(0, tv@.len() as int) =~= tv@);
                    doc = next;
                },
                None => {
                    doc = to_chars(ch.text.as_str());
                },
            }
            i = i + 1;
        }
        let result = string_from_chars(&doc);
        let ghost rv = result@;
        self.docs.insert(uri, result);
        assert forall|u: Seq<char>| u != uri@ implies self.text(u) == old(self).text(u) by {
            assert(self.docs.lookup(u) == old(self).docs.lookup(u));
        }
    }
}

proof fn lemma_edits_apply_prefix(content: Seq<char>, chs: Seq<ContentChange>, n: int, m: int)
    requires
        0 <= m <= n,
        edits_apply(content, chs, n),
    ensures
        edits_apply(content, chs, m),
        m > 0 ==> change_applies(apply_upto(content, chs, m - 1), chs[m - 1]),
    decreases n - m,
{
    if m < n {
        lemma_edits_apply_prefix(content, chs, n, m + 1);
    }
}

} // verus!
