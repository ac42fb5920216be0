//! Searching: lines of a text that contain a query, the directories that a
//! project walk leaves out, and the files whose text it skips.
use vstd::prelude::*;
use crate::text::{lines, contains_seq, starts_with_seq, line_spans, span_is_line, to_chars, contains_chars, substring, str_eq};
use crate::code_editor::{CodeEditor, Buffer, CursorPosition, HIGHLIGHT_MILLIS, find_str, opt_str, clone_opt_string};
use crate::text::{find_byte_from, lemma_find_byte_from_bounds, occurs_at};
use crate::walker::{DirWalker, Pending, pending_view, pushed_items};
use crate::file_system::DirectoryEntry;
use crate::paths::{extension_of, file_extension};
use vstd::string::StringSliceAdditionalSpecFns;
use vstd::string::StringExecFns;

verus! {

/// A line found by a search: its number (from one), its text and its file.
#[derive(Clone, Debug)]
pub struct SearchResult {
    pub line_number: usize,
    pub line_content: String,
    pub file_path: Option<String>,
}

/// The lines among the first `n` of `ls` that contain `q`, each with its
/// number counted from one.
pub open spec fn matches_upto(ls: Seq<Seq<char>>, q: Seq<char>, n: int) -> Seq<(int, Seq<char>)>
    decreases n,
{
    if n <= 0 {
        Seq::empty()
    } else {
        matches_upto(ls, q, n - 1) + if contains_seq(ls[n - 1], q) {
            seq![(n, ls[n - 1])]
        } else {
            Seq::empty()
        }
    }
}

/// The lines of `text` that contain `q`, with their numbers from one.
pub open spec fn matching_lines(text: Seq<char>, q: Seq<char>) -> Seq<(int, Seq<char>)> {
    matches_upto(lines(text), q, lines(text).len() as int)
}

/// `r` reports the line `m` of the file `path`.
pub open spec fn reports(r: SearchResult, m: (int, Seq<char>), path: Option<Seq<char>>) -> bool {
    r.line_number == m.0 && r.line_content@ == m.1 && opt_str(r.file_path) == path
}

/// `rs` reports exactly the lines `ms` of the file `path`, in order.
pub open spec fn reports_all(rs: Seq<SearchResult>, ms: Seq<(int, Seq<char>)>, path: Option<Seq<char>>) -> bool {
    rs.len() == ms.len() && forall|k: int| 0 <= k < rs.len() ==> reports(#[trigger] rs[k], ms[k], path)
}

proof fn lemma_matches_prefix(ls: Seq<Seq<char>>, q: Seq<char>, a: int, b: int)
    requires
        0 <= a <= b,
    ensures
        matches_upto(ls, q, a).len() <= matches_upto(ls, q, b).len(),
        matches_upto(ls, q, b).subrange(0, matches_upto(ls, q, a).len() as int) == matches_upto(ls, q, a),
    decreases b - a,
{
    if a < b {
        lemma_matches_prefix(ls, q, a, b - 1);
        let x = matches_upto(ls, q, a);
        let y = matches_upto(ls, q, b - 1);
        let z = matches_upto(ls, q, b);
        assert(z.subrange(0, y.len() as int) =~= y);
        assert(z.subrange(0, x.len() as int) =~= y.subrange(0, x.len() as int));
    } else {
        assert(matches_upto(ls, q, a).subrange(0, matches_upto(ls, q, a).len() as int) =~= matches_upto(ls, q, a));
    }
}

/// The lines of `content` that contain `query`, at most `limit` of them when a
/// limit is given, reported as lines of the file `file_path`.
pub fn search_lines(content: &str, query: &str, file_path: &Option<String>, limit: Option<usize>) -> (r: Vec<SearchResult>)
    ensures
        match limit {
            Some(l) => {
                let all = matching_lines(content@, query@);
                reports_all(r@, if all.len() <= l { all } else { all.subrange(0, l as int) }, opt_str(*file_path))
            },
            None => reports_all(r@, matching_lines(content@, query@), opt_str(*file_path)),
        },
{
    let chars = to_chars(content);
    let q = to_chars(query);
    let spans = line_spans(&chars);
    let ghost ls = lines(content@);
    let mut r: Vec<SearchResult> = Vec::new();
    let mut k: usize = 0;
    while k < spans.len()
        invariant
            chars@ == content@,
            q@ == query@,
            ls == lines(content@),
            spans@.len() == ls.len(),
            forall|j: int| 0 <= j < spans@.len() ==> span_is_line(chars@, #[trigger] spans@[j], ls[j]),
            k <= spans@.len(),
            reports_all(r@, matches_upto(ls, query@, k as int), opt_str(*file_path)),
            match limit {
                Some(l) => r@.len() <= l,
                None => true,
            },
        ensures
            k == spans@.len() || (match limit {
                Some(l) => r@.len() >= l,
                None => false,
            }),
        decreases spans@.len() - k,
    {
        if let Some(l) = limit {
            if r.len() >= l {
                break;
            }
        }
        let (start, end) = spans[k];
        let line = crate::text::slice_chars(&chars, start, end);
        assert(span_is_line(chars@, spans@[k as int], ls[k as int]));
        let ghost before = r@;
        if contains_chars(&line, &q) {
            let content_str = crate::text::string_from_chars(&line);
            r.push(SearchResult { line_number: k + 1, line_content: content_str, file_path: clone_opt_string(file_path) });
        }
        proof {
            let m = matches_upto(ls, query@, k + 1);
            assert(m == matches_upto(ls, query@, k as int) + if contains_seq(ls[k as int], query@) {
                seq![(k + 1, ls[k as int])]
            } else {
                Seq::empty()
            });
            assert forall|j: int| 0 <= j < r@.len() implies reports(#[trigger] r@[j], m[j], opt_str(*file_path)) by {
                if j < before.len() {
                    assert(r@[j] == before[j]);
                }
            }
        }
        k = k + 1;
    }
    proof {
        let all = matching_lines(content@, query@);
        match limit {
            Some(l) => {
                lemma_matches_prefix(ls, query@, k as int, ls.len() as int);
                if all.len() <= l {
                    if k < ls.len() {
                        // the loop stopped at the limit, so all the matches are already there
                        assert(r@.len() >= l);
                    }
                    assert(k == ls.len() || r@.len() == l);
                    if k < ls.len() {
                        assert(all.subrange(0, r@.len() as int) == matches_upto(ls, query@, k as int));
                    }
                } else {
                    if k == ls.len() {
                        assert(all == matches_upto(ls, query@, k as int));
                    }
                    assert(all.subrange(0, r@.len() as int) == matches_upto(ls, query@, k as int));
                    assert(r@.len() == l) by {
                        if r@.len() < l {
                            assert(k == ls.len());
                        }
                    }
                }
            },
            None => {},
        }
    }
    r
}

/// Sets `results` to the lines of the active buffer that contain `query`,
/// each reported with the buffer's file; with no active buffer, `results` is
/// left as it was.
pub fn perform_current_file_search(editor: &CodeEditor, query: &str, results: &mut Vec<SearchResult>)
    ensures
        match editor.active_buffer_index {
            Some(i) => if i < editor.buffers@.len() {
                reports_all(final(results)@, matching_lines(editor.buffers@[i as int].content@, query@), opt_str(editor.buffers@[i as int].file_path))
            } else {
                final(results)@ == old(results)@
            },
            None => final(results)@ == old(results)@,
        },
{
    if let Some(buffer) = editor.get_active_buffer() {
        *results = search_lines(buffer.content.as_str(), query, &buffer.file_path, None);
    }
}

/// Where the line `k` lines after the one starting at `start` starts: each
/// step goes past the next `\n`, and stays put when there is none.
pub open spec fn skip_lines(b: Seq<u8>, start: int, k: nat) -> int
    decreases k,
{
    if k == 0 {
        start
    } else {
        let p = find_byte_from(b, 10u8, start);
        skip_lines(b, if p < b.len() { p + 1 } else { start }, (k - 1) as nat)
    }
}

/// The first byte offset at which `pat` occurs in `s`, if any.
pub open spec fn first_match(s: Seq<u8>, pat: Seq<u8>) -> Option<int> {
    if contains_seq(s, pat) {
        Some(choose|p: int| occurs_at(s, pat, p) && forall|k: int| 0 <= k < p ==> !occurs_at(s, pat, k))
    } else {
        None
    }
}

proof fn lemma_first_match(s: Seq<u8>, pat: Seq<u8>, p: int)
    requires
        occurs_at(s, pat, p),
        forall|k: int| 0 <= k < p ==> !occurs_at(s, pat, k),
    ensures
        first_match(s, pat) == Some(p),
{
    assert(contains_seq(s, pat));
    let c = choose|q: int| occurs_at(s, pat, q) && forall|k: int| 0 <= k < q ==> !occurs_at(s, pat, k);
    assert(occurs_at(s, pat, p) && forall|k: int| 0 <= k < p ==> !occurs_at(s, pat, k));
    if c < p {
        assert(!occurs_at(s, pat, c));
    }
    if p < c {
        assert(!occurs_at(s, pat, p));
    }
}

fn skip_lines_exec(b: &[u8], k: usize) -> (r: usize)
    ensures
        r as int == skip_lines(b@, 0, k as nat),
        r <= b@.len(),
{
    let mut start: usize = 0;
    let mut i: usize = 0;
    while i < k
        invariant
            i <= k,
            start <= b@.len(),
            skip_lines(b@, start as int, (k - i) as nat) == skip_lines(b@, 0, k as nat),
        decreases k - i,
    {
        proof {
            lemma_find_byte_from_bounds(b@, 10u8, start as int);
        }
        let mut p = start;
        while p < b.len() && b[p] != 10u8
            invariant
                start <= p <= b@.len(),
                forall|q: int| start <= q < p ==> b@[q] != 10u8,
            decreases b@.len() - p,
        {
            p = p + 1;
        }
        assert(p == find_byte_from(b@, 10u8, start as int)) by {
            let f = find_byte_from(b@, 10u8, start as int);
            if f < p {
                assert(b@[f] == 10u8);
            }
            if p < f {
                assert(b@[p as int] == 10u8);
            }
        }
        if p < b.len() {
            start = p + 1;
        }
        i = i + 1;
    }
    start
}


/// A jump selects a match: a buffer is active and the query occurs in the
/// result's line.
pub open spec fn jump_applies(editor: CodeEditor, result: SearchResult, query: Seq<char>) -> bool {
    editor.active_buffer_index is Some && editor.active_buffer_index.unwrap() < editor.buffers@.len()
        && first_match(vstd::utf8::encode_utf8(result.line_content@), vstd::utf8::encode_utf8(query)) is Some
}

/// Where the result's line starts in the active buffer's bytes.
pub open spec fn jump_line_start(editor: CodeEditor, result: SearchResult) -> int {
    skip_lines(
        vstd::utf8::encode_utf8(editor.buffers@[editor.active_buffer_index.unwrap() as int].content@),
        0,
        (if result.line_number > 0 { result.line_number - 1 } else { 0 }) as nat,
    )
}

/// Where the query starts in the result's line.
pub open spec fn jump_column(result: SearchResult, query: Seq<char>) -> int {
    first_match(vstd::utf8::encode_utf8(result.line_content@), vstd::utf8::encode_utf8(query)).unwrap()
}

/// Jumps to a search result (after its file was opened): the highlight and
/// the selected line are set as `CodeEditor::search` sets them, and when the
/// query occurs in the result's line, the match is selected in the active
/// buffer and the cursor goes there; the buffer is marked unmodified.
pub fn open_search_result(editor: &mut CodeEditor, result: &SearchResult, query: &str, now: u64)
    requires
        now <= u64::MAX - HIGHLIGHT_MILLIS,
        vstd::utf8::encode_utf8(result.line_content@).len() <= isize::MAX,
        forall|k: int|
            0 <= k < old(editor).buffers@.len() ==> vstd::utf8::encode_utf8(
                #[trigger] old(editor).buffers@[k].content@,
            ).len() <= isize::MAX,
    ensures
        opt_str(final(editor).search_highlight_text) == Some(query@),
        final(editor).search_highlight_expires_at == Some((now + HIGHLIGHT_MILLIS) as u64),
        final(editor).search_selected_line == Some(result.line_number),
        final(editor).active_buffer_index == old(editor).active_buffer_index,
        final(editor).buffers@.len() == old(editor).buffers@.len(),
        jump_applies(*old(editor), *result, query@) ==> final(editor).selected_match_position == Some(
            ((jump_line_start(*old(editor), *result) + jump_column(*result, query@)) as usize, (jump_line_start(*old(editor), *result)
                + jump_column(*result, query@) + query.spec_bytes().len()) as usize),
        ),
        jump_applies(*old(editor), *result, query@) ==> final(editor).buffers@ == old(editor).buffers@.update(
            old(editor).active_buffer_index.unwrap() as int,
            Buffer {
                cursor_position: CursorPosition {
                    line: if result.line_number > 0 { (result.line_number - 1) as usize } else { 0 },
                    column: jump_column(*result, query@) as usize,
                },
                is_modified: false,
                ..old(editor).buffers@[old(editor).active_buffer_index.unwrap() as int]
            },
        ),
        !jump_applies(*old(editor), *result, query@) ==> final(editor).selected_match_position.is_none()
            && final(editor).buffers@ == old(editor).buffers@,
{
    editor.search_highlight_text = None;
    editor.search_selected_line = None;
    editor.selected_match_position = None;
    let ln = result.line_number;
    let found = match editor.get_active_buffer() {
        Some(b) => {
            let bytes = b.content.as_str().as_bytes();
            assert(bytes@.len() <= isize::MAX);
            let line_start = skip_lines_exec(bytes, if ln > 0 { ln - 1 } else { 0 });
            match find_str(result.line_content.as_str(), query) {
                Some(col) => {
                    proof {
                        lemma_first_match(vstd::utf8::encode_utf8(result.line_content@), query.spec_bytes(), col as int);
                    }
                    let qlen = query.as_bytes().len();
                    let llen = result.line_content.as_str().as_bytes().len();
                    assert(col + qlen <= llen);
                    Some((line_start, col, line_start + col + qlen))
                },
                None => None,
            }
        },
        None => None,
    };
    match found {
        Some((line_start, col, end)) => {
            match editor.get_active_buffer_mut() {
                Some(b) => {
                    b.set_cursor_position(ln, col);
                    b.is_modified = false;
                },
                None => {},
            }
            editor.selected_match_position = Some((line_start + col, end));
        },
        None => {},
    }
    editor.search_selected_line = Some(ln);
    editor.search_highlight_text = Some(String::from_str(query));
    editor.search_highlight_expires_at = Some(now + HIGHLIGHT_MILLIS);
}

/// At most this many matching lines are reported from one file.
pub const MAX_RESULTS_PER_FILE: usize = 10;

/// A project search stops adding files once it has this many results.
pub const MAX_RESULTS: usize = 100;

/// The lines of the file `path` that contain `query`, the first ten at most.
pub fn file_search_results(content: &str, query: &str, path: &str) -> (r: Vec<SearchResult>)
    ensures
        ({
            let all = matching_lines(content@, query@);
            reports_all(r@, if all.len() <= MAX_RESULTS_PER_FILE { all } else { all.subrange(0, MAX_RESULTS_PER_FILE as int) }, Some(path@))
        }),
{
    let p = Some(String::from_str(path));
    search_lines(content, query, &p, Some(MAX_RESULTS_PER_FILE))
}

/// The names of the directories that searches and file lists leave out.
pub open spec fn excluded_dir_names() -> Seq<Seq<char>> {
    seq![
        "build"@, "target"@, "out"@, "bin"@, "node_modules"@, ".gradle"@, "gradle"@, "captures"@,
        ".git"@, ".svn"@, ".idea"@, ".vscode"@, "app/build"@, "androidTest"@, "test"@, "debug"@,
        "release"@, "shared/build"@, "commonMain"@, "androidMain"@, "iosMain"@, "__MACOSX"@,
        ".DS_Store"@, "*.xcodeproj"@, "*.iml"@,
    ]
}

/// The list of excluded directory names.
pub fn excluded_dirs() -> (v: Vec<String>)
    ensures
        v@.len() == excluded_dir_names().len(),
        forall|k: int| 0 <= k < v@.len() ==> (#[trigger] v@[k])@ == excluded_dir_names()[k],
{
    let names: [&str; 25] = [
        "build", "target", "out", "bin", "node_modules", ".gradle", "gradle", "captures",
        ".git", ".svn", ".idea", ".vscode", "app/build", "androidTest", "test", "debug",
        "release", "shared/build", "commonMain", "androidMain", "iosMain", "__MACOSX",
        ".DS_Store", "*.xcodeproj", "*.iml",
    ];
    let mut v: Vec<String> = Vec::new();
    let mut i: usize = 0;
    while i < 25
        invariant
            i <= 25,
            names@ == seq![
                "build", "target", "out", "bin", "node_modules", ".gradle", "gradle", "captures",
                ".git", ".svn", ".idea", ".vscode", "app/build", "androidTest", "test", "debug",
                "release", "shared/build", "commonMain", "androidMain", "iosMain", "__MACOSX",
                ".DS_Store", "*.xcodeproj", "*.iml",
            ],
            v@.len() == i,
            forall|k: int| 0 <= k < i ==> (#[trigger] v@[k])@ == names@[k]@,
        decreases 25 - i,
    {
        v.push(String::from_str(names[i]));
        i = i + 1;
    }
    v
}

/// A directory named `name` is left out: it equals, starts with or contains
/// one of the excluded names.
pub open spec fn is_excluded(name: Seq<char>, excluded: Seq<Seq<char>>) -> bool {
    exists|k: int|
        0 <= k < excluded.len() && (name == #[trigger] excluded[k] || starts_with_seq(name, excluded[k])
            || contains_seq(name, excluded[k]))
}

/// Whether a directory named `name` is left out.
pub fn is_excluded_dir(name: &str, excluded: &Vec<String>) -> (b: bool)
    ensures
        b == is_excluded(name@, excluded@.map_values(|s: String| s@)),
{
    let n = to_chars(name);
    let ghost ex = excluded@.map_values(|s: String| s@);
    let mut k: usize = 0;
    while k < excluded.len()
        invariant
            n@ == name@,
            ex == excluded@.map_values(|s: String| s@),
            k <= excluded@.len(),
            forall|j: int| 0 <= j < k ==> !(name@ == #[trigger] ex[j] || starts_with_seq(name@, ex[j]) || contains_seq(name@, ex[j])),
        decreases excluded@.len() - k,
    {
        let e = to_chars(excluded[k].as_str());
        assert(ex[k as int] == e@);
        if str_eq(name, excluded[k].as_str()) || crate::text::starts_with_chars(&n, &e) || contains_chars(&n, &e) {
            return true;
        }
        k = k + 1;
    }
    false
}

/// The extensions of files whose text a project search skips.
pub open spec fn skippable_extensions() -> Seq<Seq<char>> {
    seq![
        "png"@, "jpg"@, "jpeg"@, "gif"@, "svg"@, "pdf"@, "zip"@, "tar"@, "gz"@, "class"@, "jar"@,
        "so"@, "dll"@, "dylib"@, "o"@, "a"@,
    ]
}

/// Whether a project search skips a file with extension `ext` (the empty
/// string for a file without one).
pub fn is_skippable_extension(ext: &str) -> (b: bool)
    ensures
        b == skippable_extensions().contains(ext@),
{
    let names: [&str; 16] = [
        "png", "jpg", "jpeg", "gif", "svg", "pdf", "zip", "tar", "gz", "class", "jar", "so", "dll",
        "dylib", "o", "a",
    ];
    let mut i: usize = 0;
    while i < 16
        invariant
            i <= 16,
            names@.map_values(|s: &str| s@) == skippable_extensions(),
            forall|k: int| 0 <= k < i ==> names@[k]@ != ext@,
        decreases 16 - i,
    {
        if str_eq(names[i], ext) {
            assert(skippable_extensions()[i as int] == ext@);
            return true;
        }
        i = i + 1;
    }
    assert forall|k: int| 0 <= k < 16 implies skippable_extensions()[k] != ext@ by {
        assert(skippable_extensions()[k] == names@[k]@);
    }
    false
}


/// What a walk asks of its owner next.
pub enum WalkAction {
    /// List this directory and hand the entries back.
    ListDirectory(String),
    /// Read this file and hand its text back.
    ReadFile(String),
    /// The walk is over.
    Done,
}

/// An action as (kind, path): 0 to list, 1 to read, 2 when done.
pub open spec fn action_view(a: WalkAction) -> (int, Seq<char>) {
    match a {
        WalkAction::ListDirectory(p) => (0, p@),
        WalkAction::ReadFile(p) => (1, p@),
        WalkAction::Done => (2, Seq::empty()),
    }
}

/// The extension of a file name, or the empty string when it has none.
pub open spec fn extension_or_empty(name: Seq<char>) -> Seq<char> {
    match extension_of(name) {
        Some(e) => e,
        None => Seq::empty(),
    }
}

/// The next step of a project search over the stack `st`: skippable files are
/// passed over; a directory is listed, another file is read.
pub open spec fn search_advance(st: Seq<(bool, Seq<char>, Seq<char>)>) -> (Seq<(bool, Seq<char>, Seq<char>)>, (int, Seq<char>))
    decreases st.len(),
{
    if st.len() == 0 {
        (st, (2, Seq::empty()))
    } else {
        let top = st.last();
        let rest = st.drop_last();
        if top.0 {
            (rest, (0, top.1))
        } else if skippable_extensions().contains(extension_or_empty(top.2)) {
            search_advance(rest)
        } else {
            (rest, (1, top.1))
        }
    }
}

/// A file that the walk meets next is passed over exactly when it has an
/// extension and that extension is one of `skippable_extensions`; any other
/// file, one without an extension among them, is the one read next. A
/// directory met next is listed.
pub proof fn lemma_search_reads_unless_skippable(st: Seq<(bool, Seq<char>, Seq<char>)>)
    requires
        st.len() > 0,
    ensures
        st.last().0 ==> search_advance(st) == (st.drop_last(), (0int, st.last().1)),
        !st.last().0 ==> (if extension_of(st.last().2) matches Some(e) && skippable_extensions().contains(e) {
            search_advance(st) == search_advance(st.drop_last())
        } else {
            search_advance(st) == (st.drop_last(), (1int, st.last().1))
        }),
{
    let name = st.last().2;
    assert(!skippable_extensions().contains(Seq::<char>::empty())) by {
        if skippable_extensions().contains(Seq::<char>::empty()) {
            let k = choose|k: int| 0 <= k < skippable_extensions().len() && skippable_extensions()[k] == Seq::<char>::empty();
            reveal_strlit("png");
            reveal_strlit("jpg");
            reveal_strlit("jpeg");
            reveal_strlit("gif");
            reveal_strlit("svg");
            reveal_strlit("pdf");
            reveal_strlit("zip");
            reveal_strlit("tar");
            reveal_strlit("gz");
            reveal_strlit("class");
            reveal_strlit("jar");
            reveal_strlit("so");
            reveal_strlit("dll");
            reveal_strlit("dylib");
            reveal_strlit("o");
            reveal_strlit("a");
            assert(skippable_extensions()[k].len() > 0);
        }
    }
}

/// A project-wide search for the lines that contain a query, walking the
/// project and reading its files one at a time.
pub struct ProjectSearch {
    pub walker: DirWalker,
    pub results: Vec<SearchResult>,
    pub query: String,
    pub excluded: Vec<String>,
    /// The file whose text was asked for last, until it arrives.
    pub reading: Option<String>,
}

impl ProjectSearch {
    /// Results only grow past the limit by the lines of the last file read, and
    /// a file is only read below the limit.
    pub open spec fn wf(&self) -> bool {
        &&& self.results@.len() < MAX_RESULTS + MAX_RESULTS_PER_FILE
        &&& self.reading.is_some() ==> self.results@.len() < MAX_RESULTS
        &&& self.excluded@.map_values(|s: String| s@) == excluded_dir_names()
    }

    /// A search of the project at `project_path` for the trimmed `query`; when
    /// no project is open, no file system is set, or the trimmed query has
    /// fewer than two bytes, the search has nothing to walk.
    pub fn new(project_path: &Option<String>, has_file_system: bool, query: &str) -> (s: Self)
        ensures
            s.wf(),
            s.results@.len() == 0,
            s.query@ == crate::text::trim(query@),
            s.reading.is_none(),
            match project_path {
                Some(p) => if has_file_system && vstd::utf8::encode_utf8(crate::text::trim(query@)).len() >= 2 {
                    s.walker.view() == seq![(true, p@, Seq::<char>::empty())]
                } else {
                    s.walker.view().len() == 0
                },
                None => s.walker.view().len() == 0,
            },
    {
        let q = crate::text::trim_str(query);
        let excluded = excluded_dirs();
        proof {
            assert(excluded@.map_values(|s: String| s@) =~= excluded_dir_names());
        }
        let mut walker = DirWalker { stack: Vec::new() };
        assert(walker.view() =~= Seq::empty());
        if let Some(p) = project_path {
            if has_file_system && q.as_str().as_bytes().len() >= 2 {
                walker = DirWalker::new(p.as_str());
            }
        }
        ProjectSearch { walker, results: Vec::new(), query: q, excluded, reading: None }
    }

    /// The next thing to do: nothing more once the results reach the limit;
    /// otherwise the next step of the walk (see `search_advance`). A file to
    /// read is remembered until its text arrives.
    pub fn next_action(&mut self) -> (a: WalkAction)
        requires
            old(self).wf(),
        ensures
            final(self).wf(),
            final(self).results@ == old(self).results@,
            final(self).query == old(self).query,
            final(self).excluded@ == old(self).excluded@,
            old(self).results@.len() >= MAX_RESULTS ==> action_view(a).0 == 2 && final(self).walker.view()
                == old(self).walker.view() && final(self).reading == old(self).reading,
            old(self).results@.len() < MAX_RESULTS ==> {
                &&& (final(self).walker.view(), action_view(a)) == search_advance(old(self).walker.view())
                &&& action_view(a).0 == 1 ==> opt_str(final(self).reading) == Some(action_view(a).1)
                &&& action_view(a).0 != 1 ==> final(self).reading == old(self).reading
            },
    {
        if self.results.len() >= MAX_RESULTS {
            return WalkAction::Done;
        }
        loop
            invariant
                self.wf(),
                self.results@ == old(self).results@,
                self.results@.len() < MAX_RESULTS,
                self.query == old(self).query,
                self.excluded@ == old(self).excluded@,
                self.reading == old(self).reading,
                search_advance(self.walker.view()) == search_advance(old(self).walker.view()),
            decreases self.walker.view().len(),
        {
            let ghost before = self.walker.view();
            match self.walker.pop() {
                None => {
                    return WalkAction::Done;
                },
                Some(Pending::Dir(path)) => {
                    return WalkAction::ListDirectory(path);
                },
                Some(Pending::File(path, name)) => {
                    let ext = match file_extension(name.as_str()) {
                        Some(e) => e,
                        None => String::new(),
                    };
                    if !is_skippable_extension(ext.as_str()) {
                        let a = WalkAction::ReadFile(path.clone());
                        self.reading = Some(path);
                        return a;
                    }
                },
            }
        }
    }

    /// The entries of directory `dir`, or `None` when it could not be listed.
    pub fn on_listing(&mut self, dir: &str, entries: Option<Vec<DirectoryEntry>>)
        requires
            old(self).wf(),
        ensures
            final(self).wf(),
            final(self).results@ == old(self).results@,
            final(self).query == old(self).query,
            final(self).reading == old(self).reading,
            final(self).excluded@ == old(self).excluded@,
            match entries {
                Some(es) => final(self).walker.view() == old(self).walker.view() + pushed_items(dir@, es@, excluded_dir_names()),
                None => final(self).walker.view() == old(self).walker.view(),
            },
    {
        if let Some(es) = entries {
            self.walker.push_listing(dir, &es, &self.excluded);
        }
    }

    /// The text of the file being read, or `None` when it could not be read:
    /// its first matching lines are added to the results.
    pub fn on_file(&mut self, content: Option<String>)
        requires
            old(self).wf(),
        ensures
            final(self).wf(),
            final(self).reading.is_none(),
            final(self).walker.view() == old(self).walker.view(),
            final(self).query == old(self).query,
            final(self).excluded@ == old(self).excluded@,
            match (old(self).reading, content) {
                (Some(p), Some(c)) => {
                    let all = matching_lines(c@, old(self).query@);
                    let added = if all.len() <= MAX_RESULTS_PER_FILE { all } else { all.subrange(0, MAX_RESULTS_PER_FILE as int) };
                    &&& final(self).results@.len() == old(self).results@.len() + added.len()
                    &&& final(self).results@.subrange(0, old(self).results@.len() as int) == old(self).results@
                    &&& reports_all(final(self).results@.subrange(old(self).results@.len() as int, final(self).results@.len() as int), added, Some(p@))
                },
                _ => final(self).results@ == old(self).results@,
            },
    {
        let reading = self.reading.take();
        if let Some(p) = reading {
            if let Some(c) = content {
                let found = file_search_results(c.as_str(), self.query.as_str(), p.as_str());
                let ghost all = matching_lines(c@, self.query@);
                let ghost added = if all.len() <= MAX_RESULTS_PER_FILE { all } else { all.subrange(0, MAX_RESULTS_PER_FILE as int) };
                let ghost before = self.results@;
                let mut k: usize = 0;
                while k < found.len()
                    invariant
                        k <= found@.len(),
                        reports_all(found@, added, Some(p@)),
                        added.len() <= MAX_RESULTS_PER_FILE,
                        before.len() < MAX_RESULTS,
                        self.results@.len() == before.len() + k,
                        self.results@.subrange(0, before.len() as int) == before,
                        forall|j: int| 0 <= j < k ==> reports(#[trigger] self.results@[before.len() + j], added[j], Some(p@)),
                        self.reading.is_none(),
                        self.walker.view() == old(self).walker.view(),
                        self.query == old(self).query,
                        self.excluded@ == old(self).excluded@,
                        self.excluded@.map_values(|s: String| s@) == excluded_dir_names(),
                    decreases found@.len() - k,
                {
                    let r = SearchResult {
                        line_number: found[k].line_number,
                        line_content: found[k].line_content.clone(),
                        file_path: clone_opt_string(&found[k].file_path),
                    };
                    assert(reports(found@[k as int], added[k as int], Some(p@)));
                    let ghost prev = self.results@;
                    self.results.push(r);
                    proof {
                        assert(self.results@.subrange(0, before.len() as int) =~= prev.subrange(0, before.len() as int));
                        assert forall|j: int| 0 <= j < k + 1 implies reports(#[trigger] self.results@[before.len() + j], added[j], Some(p@)) by {
                            if j < k {
                                assert(self.results@[before.len() + j] == prev[before.len() + j]);
                            }
                        }
                    }
                    k = k + 1;
                }
                proof {
                    let tail = self.results@.subrange(before.len() as int, self.results@.len() as int);
                    assert forall|j: int| 0 <= j < tail.len() implies reports(#[trigger] tail[j], added[j], Some(p@)) by {
                        assert(tail[j] == self.results@[before.len() + j]);
                    }
                }
            }
        }
    }
}

} // verus!
