//! The editor's open buffers, the active one, search highlighting and the
//! positions that the editor computes in a buffer's text.
use vstd::prelude::*;
use vstd::utf8::{is_char_boundary, valid_utf8};
use vstd::string::StringSliceAdditionalSpecFns;
use crate::text::{
    occurs_at, contains_seq, occurrences_from, count_newlines, byte_lines, byte_lines_from,
    find_byte_from, strip_cr_bytes, lemma_find_byte_from_bounds, pieces_with_endings_from,
};

verus! {

/// A cursor position, line and column, both counted from zero.
#[derive(Debug, Clone, Copy, PartialEq, Eq, Structural)]
pub struct CursorPosition {
    pub line: usize,
    pub column: usize,
}

/// An open text buffer.
#[derive(Debug, Clone)]
pub struct Buffer {
    pub content: String,
    pub file_path: Option<String>,
    pub syntax: String,
    pub is_modified: bool,
    pub cursor_position: CursorPosition,
}

/// The view of an optional string.
pub open spec fn opt_str(o: Option<String>) -> Option<Seq<char>> {
    match o {
        Some(s) => Some(s@),
        None => None,
    }
}

/// Clones an optional string.
pub fn clone_opt_string(o: &Option<String>) -> (r: Option<String>)
    ensures
        opt_str(r) == opt_str(*o),
{
    match o {
        Some(s) => Some(s.clone()),
        None => None,
    }
}

impl Buffer {
    /// The name of the syntax that a buffer has when nothing else is known.
    pub open spec fn plain_text() -> Seq<char> {
        "Plain Text"@
    }

    /// An empty, unnamed, unmodified buffer in plain text with the cursor at the start.
    pub fn new() -> (b: Self)
        ensures
            b.content@ == Seq::<char>::empty(),
            b.file_path.is_none(),
            b.syntax@ == Self::plain_text(),
            !b.is_modified,
            b.cursor_position == (CursorPosition { line: 0, column: 0 }),
    {
        Buffer {
            content: String::new(),
            file_path: None,
            syntax: String::from_str("Plain Text"),
            is_modified: false,
            cursor_position: CursorPosition { line: 0, column: 0 },
        }
    }

    /// An unmodified buffer that holds a file's content, with the cursor at the start.
    pub fn from_file(content: String, file_path: String, syntax: String) -> (b: Self)
        ensures
            b.content@ == content@,
            opt_str(b.file_path) == Some(file_path@),
            b.syntax@ == syntax@,
            !b.is_modified,
            b.cursor_position == (CursorPosition { line: 0, column: 0 }),
    {
        Buffer {
            content,
            file_path: Some(file_path),
            syntax,
            is_modified: false,
            cursor_position: CursorPosition { line: 0, column: 0 },
        }
    }

    /// Places the cursor at a line counted from one (line 0 counts as line 1)
    /// and the given column; nothing else changes.
    pub fn set_cursor_position(&mut self, line: usize, column: usize)
        ensures
            final(self).cursor_position.line == if line == 0 {
                0
            } else {
                line - 1
            },
            final(self).cursor_position.column == column,
            final(self).content@ == old(self).content@,
            opt_str(final(self).file_path) == opt_str(old(self).file_path),
            final(self).syntax@ == old(self).syntax@,
            final(self).is_modified == old(self).is_modified,
            *final(self) == (Buffer { cursor_position: final(self).cursor_position, ..*old(self) }),
    {
        self.cursor_position = CursorPosition { line: line.saturating_sub(1), column };
    }
}


/// The bytes `b[0..n]` as a vector.
fn prefix_bytes(b: &[u8], n: usize) -> (r: Vec<u8>)
    requires
        n <= b@.len(),
    ensures
        r@ == b@.subrange(0, n as int),
{
    let mut r: Vec<u8> = Vec::new();
    let mut i: usize = 0;
    while i < n
        invariant
            i <= n <= b@.len(),
            r@ == b@.subrange(0, i as int),
        decreases n - i,
    {
        r.push(b[i]);
        i = i + 1;
        assert(r@ =~= b@.subrange(0, i as int));
    }
    r
}

/// Whether `p` occurs in `b` at index `i`.
fn bytes_occur_at(b: &[u8], p: &[u8], i: usize) -> (r: bool)
    requires
        i + p@.len() <= b@.len(),
    ensures
        r == occurs_at(b@, p@, i as int),
{
    let m = p.len();
    let n = b.len();
    let mut t: usize = 0;
    while t < m
        invariant
            m == p@.len(),
            n == b@.len(),
            i + m <= b@.len(),
            t <= m,
            forall|q: int| 0 <= q < t ==> b@[i + q] == p@[q],
        decreases m - t,
    {
        if b[i + t] != p[t] {
            assert(b@.subrange(i as int, i + m)[t as int] != p@[t as int]);
            return false;
        }
        t = t + 1;
    }
    assert(b@.subrange(i as int, i + m) =~= p@);
    true
}

/// The byte ranges of all occurrences of `pattern` in `text`, overlapping ones
/// included, in increasing order.
pub fn find_all_occurrences(text: &str, pattern: &str) -> (r: Vec<(usize, usize)>)
    requires
        pattern.spec_bytes().len() > 0,
        pattern.spec_bytes()[0] < 128 || !contains_seq(text.spec_bytes(), pattern.spec_bytes()),
    ensures
        r@.len() == occurrences_from(text.spec_bytes(), pattern.spec_bytes(), 0).len(),
        forall|k: int|
            0 <= k < r@.len() ==> (#[trigger] r@[k]).0 == occurrences_from(
                text.spec_bytes(),
                pattern.spec_bytes(),
                0,
            )[k] && r@[k].1 == r@[k].0 + pattern.spec_bytes().len(),
{
    let b = text.as_bytes();
    let p = pattern.as_bytes();
    let n = b.len();
    let m = p.len();
    let mut r: Vec<(usize, usize)> = Vec::new();
    let ghost mut acc: Seq<int> = Seq::empty();
    if m > n {
        return r;
    }
    let mut i: usize = 0;
    while i <= n - m
        invariant
            n == b@.len(),
            m == p@.len(),
            0 < m <= n,
            i <= n - m + 1,
            acc + occurrences_from(b@, p@, i as int) == occurrences_from(b@, p@, 0),
            r@.len() == acc.len(),
            forall|k: int| 0 <= k < r@.len() ==> (#[trigger] r@[k]).0 == acc[k] && r@[k].1 == r@[k].0 + m,
        decreases n - i,
    {
        if bytes_occur_at(b, p, i) {
            r.push((i, i + m));
            proof {
                let old_acc = acc;
                acc = acc.push(i as int);
                assert(old_acc + occurrences_from(b@, p@, i as int) =~= acc + occurrences_from(
                    b@,
                    p@,
                    i + 1,
                ));
            }
        }
        i = i + 1;
    }
    assert(occurrences_from(b@, p@, i as int) =~= Seq::<int>::empty());
    assert(acc =~= occurrences_from(b@, p@, 0));
    r
}

/// Length of the last line of a byte text (zero when it has no lines).
pub open spec fn last_line_len(b: Seq<u8>) -> int {
    if byte_lines(b).len() == 0 {
        0
    } else {
        byte_lines(b).last().len() as int
    }
}

proof fn lemma_count_newlines_bound(b: Seq<u8>)
    ensures
        count_newlines(b) <= b.len(),
    decreases b.len(),
{
    if b.len() > 0 {
        lemma_count_newlines_bound(b.drop_last());
    }
}

/// Number of `\n` bytes in `b`.
fn newline_count(b: &Vec<u8>) -> (c: usize)
    ensures
        c == count_newlines(b@),
{
    let mut c: usize = 0;
    let mut i: usize = 0;
    while i < b.len()
        invariant
            i <= b@.len(),
            c == count_newlines(b@.subrange(0, i as int)),
            c <= i,
        decreases b@.len() - i,
    {
        assert(b@.subrange(0, i + 1).drop_last() =~= b@.subrange(0, i as int));
        if b[i] == 10u8 {
            c = c + 1;
        }
        i = i + 1;
    }
    assert(b@.subrange(0, b@.len() as int) =~= b@);
    c
}

/// Length of the last line of `b`, as `str::lines().last()` gives it.
fn last_line_length(b: &Vec<u8>) -> (len: usize)
    ensures
        len == last_line_len(b@),
{
    let n = b.len();
    let mut pos: usize = 0;
    let mut last: usize = 0;
    let ghost mut acc: Seq<Seq<u8>> = Seq::empty();
    while pos < n
        invariant
            n == b@.len(),
            pos <= n,
            acc + byte_lines_from(b@, pos as int) == byte_lines(b@),
            acc.len() > 0 ==> last == acc.last().len(),
            acc.len() == 0 ==> last == 0,
        decreases n - pos,
    {
        proof {
            lemma_find_byte_from_bounds(b@, 10u8, pos as int);
        }
        let mut j = pos;
        while j < n && b[j] != 10u8
            invariant
                n == b@.len(),
                pos <= j <= n,
                forall|k: int| pos <= k < j ==> b@[k] != 10u8,
            decreases n - j,
        {
            j = j + 1;
        }
        assert(j == find_byte_from(b@, 10u8, pos as int)) by {
            let f = find_byte_from(b@, 10u8, pos as int);
            if f < j {
                assert(b@[f] == 10u8);
            }
            if j < f {
                assert(b@[j as int] == 10u8);
            }
        }
        if j >= n {
            let ghost line = b@.subrange(pos as int, n as int);
            last = n - pos;
            proof {
                assert(byte_lines_from(b@, n as int) =~= Seq::empty());
                acc = acc.push(line);
                assert(acc + byte_lines_from(b@, n as int) =~= byte_lines(b@));
            }
            pos = n;
        } else {
            let ghost line = strip_cr_bytes(b@.subrange(pos as int, j as int));
            if j > pos && b[j - 1] == 13u8 {
                last = j - 1 - pos;
            } else {
                last = j - pos;
            }
            proof {
                let old_acc = acc;
                acc = acc.push(line);
                assert(old_acc + byte_lines_from(b@, pos as int) =~= acc + byte_lines_from(
                    b@,
                    j + 1,
                ));
            }
            pos = j + 1;
        }
    }
    assert(byte_lines_from(b@, pos as int) =~= Seq::empty());
    assert(acc =~= byte_lines(b@));
    last
}

/// The line (counted from one) and column (one past the length of the last
/// line so far) of the byte offset `position` in `text`.
pub fn calculate_line_column(text: &str, position: usize) -> (lc: (usize, usize))
    requires
        position <= text.spec_bytes().len(),
        position < usize::MAX,
        is_char_boundary(text.spec_bytes(), position as int),
    ensures
        lc.0 == count_newlines(text.spec_bytes().subrange(0, position as int)) + 1,
        lc.1 == last_line_len(text.spec_bytes().subrange(0, position as int)) + 1,
{
    let b = text.as_bytes();
    let pre = prefix_bytes(b, position);
    let line = newline_count(&pre);
    let col = last_line_length(&pre);
    proof {
        lemma_count_newlines_bound(pre@);
        assert(last_line_len(pre@) <= pre@.len()) by {
            if byte_lines(pre@).len() > 0 {
                lemma_byte_lines_within(pre@, 0);
                assert(byte_lines(pre@).contains(byte_lines(pre@).last()));
            }
        }
    }
    (line + 1, col + 1)
}

proof fn lemma_byte_lines_within(b: Seq<u8>, i: int)
    requires
        0 <= i,
    ensures
        forall|k: int| 0 <= k < byte_lines_from(b, i).len() ==> (#[trigger] byte_lines_from(b, i)[k]).len() <= b.len(),
    decreases b.len() - i,
{
    if i < b.len() {
        lemma_find_byte_from_bounds(b, 10u8, i);
        let j = find_byte_from(b, 10u8, i);
        if j < b.len() {
            lemma_byte_lines_within(b, j + 1);
            let rest = byte_lines_from(b, j + 1);
            let first = strip_cr_bytes(b.subrange(i, j));
            assert(byte_lines_from(b, i) == seq![first] + rest);
            assert forall|k: int| 0 <= k < byte_lines_from(b, i).len() implies (#[trigger] byte_lines_from(b, i)[k]).len() <= b.len() by {
                if k > 0 {
                    assert(byte_lines_from(b, i)[k] == rest[k - 1]);
                }
            }
        }
    }
}


/// The byte offset of the first occurrence of `pat` in `text`, which is a
/// character boundary of `text` (`str::find`).
pub fn find_str(text: &str, pat: &str) -> (r: Option<usize>)
    ensures
        match r {
            Some(p) => occurs_at(text.spec_bytes(), pat.spec_bytes(), p as int) && is_char_boundary(
                text.spec_bytes(),
                p as int,
            ) && forall|k: int| 0 <= k < p ==> !occurs_at(text.spec_bytes(), pat.spec_bytes(), k),
            None => !contains_seq(text.spec_bytes(), pat.spec_bytes()),
        },
{
    let b = text.as_bytes();
    let p = pat.as_bytes();
    let n = b.len();
    let m = p.len();
    proof {
        vstd::utf8::encode_utf8_valid_utf8(text@);
        vstd::utf8::encode_utf8_valid_utf8(pat@);
    }
    if m == 0 {
        proof {
            vstd::utf8::encode_utf8_valid_utf8(text@);
            vstd::utf8::is_char_boundary_start_end_of_seq(b@);
            assert(b@.subrange(0, 0) =~= p@);
        }
        return Some(0);
    }
    if m > n {
        assert forall|k: int| !occurs_at(b@, p@, k) by {}
        return None;
    }
    let mut i: usize = 0;
    while i <= n - m
        invariant
            n == b@.len(),
            m == p@.len(),
            0 < m <= n,
            i <= n - m + 1,
            forall|k: int| 0 <= k < i ==> !occurs_at(b@, p@, k),
            b@ == text.spec_bytes(),
            p@ == pat.spec_bytes(),
        decreases n - i,
    {
        if bytes_occur_at(b, p, i) {
            proof {
                vstd::utf8::encode_utf8_valid_utf8(text@);
                vstd::utf8::encode_utf8_valid_utf8(pat@);
                assert(valid_utf8(b@));
                assert(valid_utf8(p@));
                vstd::utf8::is_char_boundary_start_end_of_seq(p@);
                assert(is_char_boundary(p@, 0));
                vstd::utf8::is_char_boundary_iff_not_is_continuation_byte(p@, 0);
                assert(b@.subrange(i as int, i + m)[0] == p@[0]);
                assert(b@[i as int] == p@[0]);
                vstd::utf8::is_char_boundary_iff_not_is_continuation_byte(b@, i as int);
                assert(is_char_boundary(b@, i as int));
            }
            return Some(i);
        }
        i = i + 1;
    }
    assert forall|k: int| !occurs_at(b@, p@, k) by {
        if 0 <= k < i {
        }
    }
    None
}

/// Whether `k` is the active index.
pub open spec fn is_active(active: Option<usize>, k: int) -> bool {
    match active {
        Some(i) => i == k,
        None => false,
    }
}

/// The first byte offset at which `term` occurs in `bytes`.
pub open spec fn first_occurrence(bytes: Seq<u8>, term: Seq<u8>) -> int {
    choose|p: int| occurs_at(bytes, term, p) && forall|k: int| 0 <= k < p ==> !occurs_at(bytes, term, k)
}

/// Where a search for `term` puts the cursor in `content`: at the first
/// occurrence, on its line (from zero) and one past the length of the text
/// before it on that line; `None` when the term does not occur.
pub open spec fn cursor_after_search(content: Seq<char>, term: Seq<char>) -> Option<CursorPosition> {
    let bytes = vstd::utf8::encode_utf8(content);
    let t = vstd::utf8::encode_utf8(term);
    if contains_seq(bytes, t) {
        let p = first_occurrence(bytes, t);
        Some(CursorPosition {
            line: count_newlines(bytes.subrange(0, p)) as usize,
            column: (last_line_len(bytes.subrange(0, p)) + 1) as usize,
        })
    } else {
        None
    }
}

impl Buffer {
    /// `after` is `before` with the cursor moved by a search for `term`.
    pub open spec fn searched(before: Buffer, after: Buffer, term: Seq<char>) -> bool {
        &&& after.content@ == before.content@
        &&& after.syntax@ == before.syntax@
        &&& opt_str(after.file_path) == opt_str(before.file_path)
        &&& after.is_modified == before.is_modified
        &&& after.cursor_position == match cursor_after_search(before.content@, term) {
            Some(c) => c,
            None => before.cursor_position,
        }
    }

    /// Moves the cursor to the first occurrence of `term`, if there is one.
    pub fn move_cursor_to(&mut self, term: &str)
        ensures
            Buffer::searched(*old(self), *final(self), term@),
    {
        let position = find_str(self.content.as_str(), term);
        let byte_len = self.content.as_str().as_bytes().len();
        if let Some(position) = position {
            let ghost bytes = vstd::utf8::encode_utf8(self.content@);
            let ghost t = vstd::utf8::encode_utf8(term@);
            proof {
                assert(position < usize::MAX) by {
                    assert(byte_len == bytes.len());
                    if t.len() == 0 {
                        assert(occurs_at(bytes, t, 0)) by {
                            assert(bytes.subrange(0, 0) =~= t);
                        }
                    }
                }
                let q = first_occurrence(bytes, t);
                assert(occurs_at(bytes, t, position as int));
                assert(q == position) by {
                    if q < position {
                        assert(!occurs_at(bytes, t, q));
                    }
                    if position < q {
                        assert(!occurs_at(bytes, t, position as int));
                    }
                }
            }
            let (line, column) = calculate_line_column(self.content.as_str(), position);
            self.set_cursor_position(line, column);
        }
    }
}

/// The editor: its buffers, which one is active, and the search highlight.
pub struct CodeEditor {
    pub code: String,
    pub buffers: Vec<Buffer>,
    pub active_buffer_index: Option<usize>,
    pub current_file: Option<String>,
    pub search_highlight_text: Option<String>,
    /// When the search highlight expires, in milliseconds on the caller's clock.
    pub search_highlight_expires_at: Option<u64>,
    pub search_selected_line: Option<usize>,
    pub selected_match_position: Option<(usize, usize)>,
}

/// How long a search highlight stays, in milliseconds.
pub const HIGHLIGHT_MILLIS: u64 = 500;

impl CodeEditor {
    /// The active index is absent or names an open buffer.
    pub open spec fn wf(&self) -> bool {
        match self.active_buffer_index {
            Some(i) => i < self.buffers@.len(),
            None => true,
        }
    }

    /// An editor with no buffers and no highlight.
    pub fn new() -> (e: Self)
        ensures
            e.wf(),
            e.code@ == Seq::<char>::empty(),
            e.buffers@.len() == 0,
            e.active_buffer_index.is_none(),
            e.current_file.is_none(),
            e.search_highlight_text.is_none(),
            e.search_highlight_expires_at.is_none(),
            e.search_selected_line.is_none(),
            e.selected_match_position.is_none(),
    {
        CodeEditor {
            code: String::new(),
            buffers: Vec::new(),
            active_buffer_index: None,
            current_file: None,
            search_highlight_text: None,
            search_highlight_expires_at: None,
            search_selected_line: None,
            selected_match_position: None,
        }
    }

    /// Adds an empty buffer, makes it active and returns its index.
    pub fn create_new_buffer(&mut self) -> (index: usize)
        ensures
            final(self).buffers@.len() == old(self).buffers@.len() + 1,
            index == old(self).buffers@.len(),
            forall|k: int| 0 <= k < index ==> final(self).buffers@[k] == old(self).buffers@[k],
            final(self).buffers@[index as int].content@ == Seq::<char>::empty(),
            final(self).buffers@[index as int].file_path.is_none(),
            final(self).buffers@[index as int].syntax@ == Buffer::plain_text(),
            !final(self).buffers@[index as int].is_modified,
            final(self).active_buffer_index == Some(index),
            final(self).wf(),
    {
        let buffer = Buffer::new();
        self.buffers.push(buffer);
        let index = self.buffers.len() - 1;
        self.active_buffer_index = Some(index);
        index
    }

    /// The index of the first buffer whose file is `file_path`.
    pub fn position_of_file(&self, file_path: &String) -> (r: Option<usize>)
        ensures
            match r {
                Some(i) => i < self.buffers@.len() && opt_str(self.buffers@[i as int].file_path)
                    == Some(file_path@) && forall|k: int|
                    0 <= k < i ==> opt_str(#[trigger] self.buffers@[k].file_path) != Some(
                        file_path@,
                    ),
                None => forall|k: int|
                    0 <= k < self.buffers@.len() ==> opt_str(#[trigger] self.buffers@[k].file_path)
                        != Some(file_path@),
            },
    {
        let mut i: usize = 0;
        while i < self.buffers.len()
            invariant
                i <= self.buffers@.len(),
                forall|k: int|
                    0 <= k < i ==> opt_str(#[trigger] self.buffers@[k].file_path) != Some(
                        file_path@,
                    ),
            decreases self.buffers@.len() - i,
        {
            match &self.buffers[i].file_path {
                Some(p) => {
                    if p.eq(file_path) {
                        return Some(i);
                    }
                },
                None => {},
            }
            i = i + 1;
        }
        None
    }

    /// Activates the buffer of `file_path` if one is open; otherwise opens a
    /// buffer with `content` in the given syntax and activates it. Returns the
    /// active index.
    pub fn open_file(&mut self, content: String, file_path: String, syntax: String) -> (index:
        usize)
        ensures
            final(self).active_buffer_index == Some(index),
            final(self).wf(),
            index < final(self).buffers@.len(),
            opt_str(final(self).buffers@[index as int].file_path) == Some(file_path@),
            (exists|k: int|
                0 <= k < old(self).buffers@.len() && opt_str(#[trigger] old(self).buffers@[k].file_path)
                    == Some(file_path@)) ==> {
                &&& final(self).buffers@ == old(self).buffers@
                &&& forall|k: int|
                    0 <= k < index ==> opt_str(#[trigger] old(self).buffers@[k].file_path) != Some(
                        file_path@,
                    )
            },
            !(exists|k: int|
                0 <= k < old(self).buffers@.len() && opt_str(#[trigger] old(self).buffers@[k].file_path)
                    == Some(file_path@)) ==> {
                &&& final(self).buffers@.len() == old(self).buffers@.len() + 1
                &&& index == old(self).buffers@.len()
                &&& forall|k: int| 0 <= k < index ==> final(self).buffers@[k] == old(self).buffers@[k]
                &&& final(self).buffers@[index as int].content@ == content@
                &&& final(self).buffers@[index as int].syntax@ == syntax@
                &&& !final(self).buffers@[index as int].is_modified
                &&& final(self).buffers@[index as int].cursor_position == (CursorPosition {
                    line: 0,
                    column: 0,
                })
            },
    {
        if let Some(index) = self.position_of_file(&file_path) {
            self.active_buffer_index = Some(index);
            return index;
        }
        let buffer = Buffer::from_file(content, file_path, syntax);
        self.buffers.push(buffer);
        let index = self.buffers.len() - 1;
        self.active_buffer_index = Some(index);
        index
    }

    /// The active index after buffer `index` was closed from a list that then
    /// holds `remaining` buffers.
    pub open spec fn index_after_close(active: Option<usize>, index: usize, remaining: nat) -> Option<
        usize,
    > {
        match active {
            Some(a) => if a == index {
                if remaining == 0 {
                    None
                } else if a == 0 {
                    Some(0usize)
                } else {
                    Some((a - 1) as usize)
                }
            } else if a > index {
                Some((a - 1) as usize)
            } else {
                Some(a)
            },
            None => None,
        }
    }

    /// Closes buffer `index` when it exists and shifts the active index to follow it.
    pub fn close_buffer(&mut self, index: usize)
        ensures
            index < old(self).buffers@.len() ==> {
                &&& final(self).buffers@ == old(self).buffers@.remove(index as int)
                &&& final(self).active_buffer_index == Self::index_after_close(
                    old(self).active_buffer_index,
                    index,
                    final(self).buffers@.len(),
                )
            },
            index >= old(self).buffers@.len() ==> *final(self) == *old(self),
            match old(self).active_buffer_index {
                Some(a) => a != index && a < old(self).buffers@.len() ==> (final(self).active_buffer_index
                    matches Some(b) && final(self).buffers@[b as int] == old(self).buffers@[a as int]),
                None => final(self).active_buffer_index.is_none(),
            },
            *final(self) == (CodeEditor {
                buffers: final(self).buffers,
                active_buffer_index: final(self).active_buffer_index,
                ..*old(self)
            }),
            old(self).wf() ==> final(self).wf(),
    {
        if index < self.buffers.len() {
            self.buffers.remove(index);
            if let Some(active_index) = self.active_buffer_index {
                if active_index == index {
                    self.active_buffer_index = if self.buffers.len() == 0 {
                        None
                    } else {
                        Some(active_index.saturating_sub(1))
                    };
                } else if active_index > index {
                    self.active_buffer_index = Some(active_index - 1);
                }
            }
        }
    }

    /// The active buffer, when the active index names one.
    pub fn get_active_buffer(&self) -> (r: Option<&Buffer>)
        ensures
            match self.active_buffer_index {
                Some(i) => if i < self.buffers@.len() {
                    r == Some(&self.buffers@[i as int])
                } else {
                    r.is_none()
                },
                None => r.is_none(),
            },
    {
        match self.active_buffer_index {
            Some(i) => {
                if i < self.buffers.len() {
                    Some(&self.buffers[i])
                } else {
                    None
                }
            },
            None => None,
        }
    }

    /// The active buffer, for changing it in place, when the active index names one.
    pub fn get_active_buffer_mut(&mut self) -> (r: Option<&mut Buffer>)
        ensures
            match old(self).active_buffer_index {
                Some(i) => if i < old(self).buffers@.len() {
                    &&& r.is_some()
                    &&& *r.unwrap() == old(self).buffers@[i as int]
                    &&& final(self).buffers@ == old(self).buffers@.update(i as int, *final(r.unwrap()))
                } else {
                    r.is_none() && final(self).buffers@ == old(self).buffers@
                },
                None => r.is_none() && final(self).buffers@ == old(self).buffers@,
            },
            *final(self) == (CodeEditor { buffers: final(self).buffers, ..*old(self) }),
    {
        match self.active_buffer_index {
            Some(i) => {
                if i < self.buffers.len() {
                    Some(&mut self.buffers[i])
                } else {
                    None
                }
            },
            None => None,
        }
    }

    /// A copy of the active buffer's content, or the empty string.
    pub fn get_active_content(&self) -> (s: String)
        ensures
            match self.active_buffer_index {
                Some(i) => if i < self.buffers@.len() {
                    s@ == self.buffers@[i as int].content@
                } else {
                    s@ == Seq::<char>::empty()
                },
                None => s@ == Seq::<char>::empty(),
            },
    {
        match self.get_active_buffer() {
            Some(b) => b.content.clone(),
            None => String::new(),
        }
    }

    /// Highlights `search_term` until `now + HIGHLIGHT_MILLIS`, selects the given
    /// line, and moves the active buffer's cursor to the first occurrence of the
    /// term (see `cursor_after_search`).
    pub fn search(&mut self, search_term: &str, selected_line_number: Option<usize>, now: u64)
        requires
            now <= u64::MAX - HIGHLIGHT_MILLIS,
        ensures
            opt_str(final(self).search_highlight_text) == Some(search_term@),
            final(self).search_highlight_expires_at == Some((now + HIGHLIGHT_MILLIS) as u64),
            final(self).search_selected_line == selected_line_number,
            final(self).active_buffer_index == old(self).active_buffer_index,
            final(self).buffers@.len() == old(self).buffers@.len(),
            forall|k: int|
                0 <= k < final(self).buffers@.len() && !is_active(old(self).active_buffer_index, k)
                    ==> final(self).buffers@[k] == old(self).buffers@[k],
            forall|k: int|
                0 <= k < final(self).buffers@.len() && is_active(old(self).active_buffer_index, k)
                    ==> Buffer::searched(old(self).buffers@[k], #[trigger] final(self).buffers@[k], search_term@),
    {
        self.search_highlight_text = Some(search_term.to_string());
        self.search_highlight_expires_at = Some(now + HIGHLIGHT_MILLIS);
        self.search_selected_line = selected_line_number;
        if let Some(i) = self.active_buffer_index {
            if i < self.buffers.len() {
                let mut buffer = self.buffers.remove(i);
                buffer.move_cursor_to(search_term);
                self.buffers.insert(i, buffer);
            }
        }
    }

    /// Drops the search highlight once `now` has reached its expiry.
    pub fn clear_expired_highlights(&mut self, now: u64)
        ensures
            match old(self).search_highlight_expires_at {
                Some(e) => if now >= e {
                    final(self).search_highlight_text.is_none()
                        && final(self).search_highlight_expires_at.is_none()
                } else {
                    opt_str(final(self).search_highlight_text) == opt_str(old(self).search_highlight_text)
                        && final(self).search_highlight_expires_at == old(self).search_highlight_expires_at
                },
                None => opt_str(final(self).search_highlight_text) == opt_str(old(self).search_highlight_text)
                    && final(self).search_highlight_expires_at.is_none(),
            },
            final(self).buffers@ == old(self).buffers@,
            final(self).active_buffer_index == old(self).active_buffer_index,
            final(self).search_selected_line == old(self).search_selected_line,
    {
        if let Some(expires_at) = self.search_highlight_expires_at {
            if now >= expires_at {
                self.search_highlight_text = None;
                self.search_highlight_expires_at = None;
            }
        }
    }
}


/// A piece of a line to draw: bytes `start..end`, with the search highlight or
/// with the syntax colours.
#[derive(Debug, Clone, Copy, PartialEq, Eq, Structural)]
pub struct Segment {
    pub start: usize,
    pub end: usize,
    pub highlighted: bool,
}

/// The pieces of a line of `len` bytes, from `last_end` on, given the start
/// offsets `occ` of the matches (each `m` bytes long) still to draw: before
/// each match the text not yet drawn, then the match, then what is left.
pub open spec fn segments_from(occ: Seq<int>, m: int, last_end: int, len: int) -> Seq<Segment>
    decreases occ.len(),
{
    if occ.len() == 0 {
        if last_end < len {
            seq![Segment { start: last_end as usize, end: len as usize, highlighted: false }]
        } else {
            Seq::empty()
        }
    } else {
        let s0 = occ[0];
        let before = if s0 > last_end {
            seq![Segment { start: last_end as usize, end: s0 as usize, highlighted: false }]
        } else {
            Seq::empty()
        };
        before + seq![Segment { start: s0 as usize, end: (s0 + m) as usize, highlighted: true }]
            + segments_from(occ.drop_first(), m, s0 + m, len)
    }
}

/// The pieces in which a line is drawn when `search` is highlighted in it.
pub fn plan_line_segments(line: &str, search: &str) -> (r: Vec<Segment>)
    requires
        search.spec_bytes().len() > 0,
        search.spec_bytes()[0] < 128 || !contains_seq(line.spec_bytes(), search.spec_bytes()),
    ensures
        r@ == segments_from(
            occurrences_from(line.spec_bytes(), search.spec_bytes(), 0),
            search.spec_bytes().len() as int,
            0,
            line.spec_bytes().len() as int,
        ),
{
    let occ = find_all_occurrences(line, search);
    let len = line.as_bytes().len();
    let m = search.as_bytes().len();
    let ghost all = occurrences_from(line.spec_bytes(), search.spec_bytes(), 0);
    let mut r: Vec<Segment> = Vec::new();
    let mut last_end: usize = 0;
    let mut k: usize = 0;
    proof {
        lemma_occurrences_bounded(line.spec_bytes(), search.spec_bytes(), 0);
        assert(all.subrange(0, all.len() as int) =~= all);
        assert(r@ + segments_from(all, m as int, 0, len as int) =~= segments_from(all, m as int, 0, len as int));
    }
    while k < occ.len()
        invariant
            occ@.len() == all.len(),
            forall|q: int| 0 <= q < occ@.len() ==> (#[trigger] occ@[q]).0 == all[q] && occ@[q].1 == occ@[q].0 + m,
            forall|q: int| 0 <= q < all.len() ==> 0 <= #[trigger] all[q] && all[q] + m <= len,
            m == search.spec_bytes().len(),
            len == line.spec_bytes().len(),
            k <= occ@.len(),
            r@ + segments_from(all.subrange(k as int, all.len() as int), m as int, last_end as int, len as int)
                == segments_from(all, m as int, 0, len as int),
        decreases occ@.len() - k,
    {
        let (start, end) = occ[k];
        let ghost rest = all.subrange(k as int, all.len() as int);
        assert(rest[0] == start);
        assert(rest.drop_first() =~= all.subrange(k + 1, all.len() as int));
        if start > last_end {
            r.push(Segment { start: last_end, end: start, highlighted: false });
        }
        r.push(Segment { start, end, highlighted: true });
        last_end = end;
        k = k + 1;
        assert(r@ + segments_from(all.subrange(k as int, all.len() as int), m as int, last_end as int, len as int)
            =~= segments_from(all, m as int, 0, len as int));
    }
    if last_end < len {
        r.push(Segment { start: last_end, end: len, highlighted: false });
    }
    assert(all.subrange(k as int, all.len() as int) =~= Seq::<int>::empty());
    assert(r@ =~= segments_from(all, m as int, 0, len as int));
    r
}

/// Whether `segs` cover the bytes `a..b` exactly: each piece is non-empty and
/// starts where the one before it ends, the first at `a`, the last ending at `b`.
pub open spec fn tiles(segs: Seq<Segment>, a: int, b: int) -> bool
    decreases segs.len(),
{
    if segs.len() == 0 {
        a == b
    } else {
        segs[0].start == a && segs[0].start < segs[0].end && tiles(segs.drop_first(), segs[0].end as int, b)
    }
}

/// Whether no two of the matches starting at `occ` (each `m` long) overlap,
/// later ones coming after earlier ones.
pub open spec fn matches_apart(occ: Seq<int>, m: int) -> bool {
    forall|i: int, j: int| 0 <= i < j < occ.len() ==> #[trigger] occ[i] + m <= #[trigger] occ[j]
}

proof fn lemma_tiles_concat(s1: Seq<Segment>, s2: Seq<Segment>, a: int, b: int, c: int)
    requires
        tiles(s1, a, b),
        tiles(s2, b, c),
    ensures
        tiles(s1 + s2, a, c),
    decreases s1.len(),
{
    if s1.len() == 0 {
        assert(s1 + s2 =~= s2);
    } else {
        assert((s1 + s2).drop_first() =~= s1.drop_first() + s2);
        lemma_tiles_concat(s1.drop_first(), s2, s1[0].end as int, b, c);
    }
}

proof fn lemma_segments_from_tile(occ: Seq<int>, m: int, last_end: int, len: int)
    requires
        m > 0,
        0 <= last_end <= len <= usize::MAX,
        matches_apart(occ, m),
        forall|q: int| 0 <= q < occ.len() ==> last_end <= #[trigger] occ[q] && occ[q] + m <= len,
    ensures
        tiles(segments_from(occ, m, last_end, len), last_end, len),
    decreases occ.len(),
{
    if occ.len() == 0 {
        if last_end < len {
            let one = seq![Segment { start: last_end as usize, end: len as usize, highlighted: false }];
            assert(one.drop_first() =~= Seq::<Segment>::empty());
            assert(tiles(one.drop_first(), len, len));
        }
    } else {
        let s0 = occ[0];
        let rest = occ.drop_first();
        assert forall|q: int| 0 <= q < rest.len() implies s0 + m <= #[trigger] rest[q] && rest[q] + m <= len by {
            assert(rest[q] == occ[q + 1]);
            assert(occ[0] + m <= occ[q + 1]);
        }
        assert(matches_apart(rest, m)) by {
            assert forall|i: int, j: int| 0 <= i < j < rest.len() implies #[trigger] rest[i] + m <= #[trigger] rest[j] by {
                assert(rest[i] == occ[i + 1] && rest[j] == occ[j + 1]);
            }
        }
        lemma_segments_from_tile(rest, m, s0 + m, len);
        let before = if s0 > last_end {
            seq![Segment { start: last_end as usize, end: s0 as usize, highlighted: false }]
        } else {
            Seq::empty()
        };
        let hl = seq![Segment { start: s0 as usize, end: (s0 + m) as usize, highlighted: true }];
        assert(tiles(before, last_end, s0)) by {
            if s0 > last_end {
                assert(before.drop_first() =~= Seq::<Segment>::empty());
                assert((last_end as usize) as int == last_end && (s0 as usize) as int == s0);
                assert(tiles(before.drop_first(), s0, s0));
            }
        }
        assert(tiles(hl, s0, s0 + m)) by {
            assert(hl.drop_first() =~= Seq::<Segment>::empty());
            assert((s0 as usize) as int == s0 && ((s0 + m) as usize) as int == s0 + m);
            assert(tiles(hl.drop_first(), s0 + m, s0 + m));
        }
        lemma_tiles_concat(before, hl, last_end, s0, s0 + m);
        lemma_tiles_concat(before + hl, segments_from(rest, m, s0 + m, len), last_end, s0 + m, len);
    }
}

proof fn lemma_occurrences_exact<A>(s: Seq<A>, pat: Seq<A>, i: int)
    requires
        0 <= i,
    ensures
        forall|q: int| 0 <= q < occurrences_from(s, pat, i).len() ==> i <= #[trigger] occurrences_from(s, pat, i)[q]
            && occurs_at(s, pat, occurrences_from(s, pat, i)[q]),
        forall|a: int, b: int| 0 <= a < b < occurrences_from(s, pat, i).len() ==> #[trigger] occurrences_from(s, pat, i)[a] < #[trigger] occurrences_from(s, pat, i)[b],
        forall|p: int| i <= p && #[trigger] occurs_at(s, pat, p) ==> occurrences_from(s, pat, i).contains(p),
    decreases s.len() + 1 - i,
{
    let o = occurrences_from(s, pat, i);
    if i + pat.len() <= s.len() {
        lemma_occurrences_exact(s, pat, i + 1);
        let rest = occurrences_from(s, pat, i + 1);
        if occurs_at(s, pat, i) {
            assert(o == seq![i] + rest);
            assert forall|q: int| 0 <= q < o.len() implies i <= #[trigger] o[q] && occurs_at(s, pat, o[q]) by {
                if q > 0 {
                    assert(o[q] == rest[q - 1]);
                }
            }
            assert forall|a: int, b: int| 0 <= a < b < o.len() implies #[trigger] o[a] < #[trigger] o[b] by {
                assert(o[b] == rest[b - 1]);
                if a > 0 {
                    assert(o[a] == rest[a - 1]);
                }
            }
            assert forall|p: int| i <= p && #[trigger] occurs_at(s, pat, p) implies o.contains(p) by {
                if p == i {
                    assert(o[0] == i);
                } else {
                    let k = choose|k: int| 0 <= k < rest.len() && rest[k] == p;
                    assert(o[k + 1] == p);
                }
            }
        } else {
            assert forall|p: int| i <= p && #[trigger] occurs_at(s, pat, p) implies o.contains(p) by {
                assert(p != i);
            }
        }
    } else {
        assert forall|p: int| i <= p && #[trigger] occurs_at(s, pat, p) implies o.contains(p) by {
            assert(!occurs_at(s, pat, p));
        }
    }
}

/// Whether each piece of `segs` is highlighted exactly when it is the byte
/// range of an occurrence of `search` in `line`.
pub open spec fn marks_exactly_matches(segs: Seq<Segment>, line: Seq<u8>, search: Seq<u8>) -> bool {
    forall|k: int|
        0 <= k < segs.len() ==> ((#[trigger] segs[k]).highlighted <==> (occurs_at(line, search, segs[k].start as int)
            && segs[k].end == segs[k].start + search.len()))
}

proof fn lemma_marks_concat(a: Seq<Segment>, b: Seq<Segment>, line: Seq<u8>, search: Seq<u8>)
    requires
        marks_exactly_matches(a, line, search),
        marks_exactly_matches(b, line, search),
    ensures
        marks_exactly_matches(a + b, line, search),
{
    assert forall|k: int| 0 <= k < (a + b).len() implies ((#[trigger] (a + b)[k]).highlighted <==> (occurs_at(line, search, (a + b)[k].start as int)
        && (a + b)[k].end == (a + b)[k].start + search.len())) by {
        if k < a.len() {
            assert((a + b)[k] == a[k]);
        } else {
            assert((a + b)[k] == b[k - a.len()]);
        }
    }
}

proof fn lemma_segments_mark(line: Seq<u8>, search: Seq<u8>, occ: Seq<int>, lo: int, last_end: int)
    requires
        search.len() > 0,
        line.len() <= usize::MAX,
        0 <= lo <= last_end <= line.len(),
        forall|q: int| 0 <= q < occ.len() ==> lo <= #[trigger] occ[q] && occurs_at(line, search, occ[q]),
        forall|a: int, b: int| 0 <= a < b < occ.len() ==> #[trigger] occ[a] < #[trigger] occ[b],
        forall|p: int| lo <= p && #[trigger] occurs_at(line, search, p) ==> occ.contains(p),
    ensures
        marks_exactly_matches(segments_from(occ, search.len() as int, last_end, line.len() as int), line, search),
    decreases occ.len(),
{
    let m = search.len() as int;
    let len = line.len() as int;
    if occ.len() == 0 {
        if last_end < len {
            let one = seq![Segment { start: last_end as usize, end: len as usize, highlighted: false }];
            assert((last_end as usize) as int == last_end);
            assert(!occurs_at(line, search, last_end)) by {
                if occurs_at(line, search, last_end) {
                    assert(occ.contains(last_end));
                }
            }
            assert(marks_exactly_matches(one, line, search)) by {
                assert forall|k: int| 0 <= k < one.len() implies ((#[trigger] one[k]).highlighted <==> (occurs_at(line, search, one[k].start as int)
                    && one[k].end == one[k].start + search.len())) by {
                    assert(one[k] == one[0]);
                }
            }
        }
    } else {
        let s0 = occ[0];
        let rest = occ.drop_first();
        assert(occurs_at(line, search, s0));
        assert(s0 + m <= len);
        assert forall|q: int| 0 <= q < rest.len() implies s0 + 1 <= #[trigger] rest[q] && occurs_at(line, search, rest[q]) by {
            assert(rest[q] == occ[q + 1]);
            assert(occ[0] < occ[q + 1]);
        }
        assert forall|a: int, b: int| 0 <= a < b < rest.len() implies #[trigger] rest[a] < #[trigger] rest[b] by {
            assert(rest[a] == occ[a + 1] && rest[b] == occ[b + 1]);
        }
        assert forall|p: int| s0 + 1 <= p && #[trigger] occurs_at(line, search, p) implies rest.contains(p) by {
            assert(occ.contains(p));
            let k = choose|k: int| 0 <= k < occ.len() && occ[k] == p;
            assert(k != 0);
            assert(rest[k - 1] == p);
        }
        lemma_segments_mark(line, search, rest, s0 + 1, s0 + m);
        let before = if s0 > last_end {
            seq![Segment { start: last_end as usize, end: s0 as usize, highlighted: false }]
        } else {
            Seq::empty()
        };
        let hl = seq![Segment { start: s0 as usize, end: (s0 + m) as usize, highlighted: true }];
        assert(marks_exactly_matches(before, line, search)) by {
            if s0 > last_end {
                assert((last_end as usize) as int == last_end && (s0 as usize) as int == s0);
                assert(!(occurs_at(line, search, last_end) && s0 == last_end + m)) by {
                    if occurs_at(line, search, last_end) {
                        assert(occ.contains(last_end));
                        let k = choose|k: int| 0 <= k < occ.len() && occ[k] == last_end;
                        if k > 0 {
                            assert(occ[0] < occ[k]);
                        }
                    }
                }
                assert forall|k: int| 0 <= k < before.len() implies ((#[trigger] before[k]).highlighted <==> (occurs_at(line, search, before[k].start as int)
                    && before[k].end == before[k].start + search.len())) by {
                    assert(before[k] == before[0]);
                }
            }
        }
        assert(marks_exactly_matches(hl, line, search)) by {
            assert((s0 as usize) as int == s0 && ((s0 + m) as usize) as int == s0 + m);
            assert forall|k: int| 0 <= k < hl.len() implies ((#[trigger] hl[k]).highlighted <==> (occurs_at(line, search, hl[k].start as int)
                && hl[k].end == hl[k].start + search.len())) by {
                assert(hl[k] == hl[0]);
            }
        }
        lemma_marks_concat(before, hl, line, search);
        lemma_marks_concat(before + hl, segments_from(rest, m, s0 + m, len), line, search);
    }
}

/// The pieces a line is drawn in for a search: a piece is highlighted
/// exactly when it is the byte range of an occurrence of the search term, so
/// the text between and after the matches, and a line without a match, is
/// drawn plain.
pub proof fn lemma_segments_highlight_exactly_the_matches(line: Seq<u8>, search: Seq<u8>)
    requires
        search.len() > 0,
        line.len() <= usize::MAX,
    ensures
        marks_exactly_matches(
            segments_from(occurrences_from(line, search, 0), search.len() as int, 0, line.len() as int),
            line,
            search,
        ),
{
    lemma_occurrences_exact(line, search, 0);
    lemma_segments_mark(line, search, occurrences_from(line, search, 0), 0, 0);
}

/// When no two matches of the search in a line overlap, the pieces a line
/// is drawn in cover it exactly, in order, none empty.
pub proof fn lemma_line_segments_tile(line: Seq<u8>, search: Seq<u8>)
    requires
        search.len() > 0,
        line.len() <= usize::MAX,
        matches_apart(occurrences_from(line, search, 0), search.len() as int),
    ensures
        tiles(
            segments_from(occurrences_from(line, search, 0), search.len() as int, 0, line.len() as int),
            0,
            line.len() as int,
        ),
{
    lemma_occurrences_bounded(line, search, 0);
    lemma_segments_from_tile(occurrences_from(line, search, 0), search.len() as int, 0, line.len() as int);
}

proof fn lemma_occurrences_bounded<A>(s: Seq<A>, pat: Seq<A>, i: int)
    requires
        0 <= i,
    ensures
        forall|q: int|
            0 <= q < occurrences_from(s, pat, i).len() ==> i <= #[trigger] occurrences_from(s, pat, i)[q]
                && occurrences_from(s, pat, i)[q] + pat.len() <= s.len(),
    decreases s.len() + 1 - i,
{
    if i + pat.len() <= s.len() {
        lemma_occurrences_bounded(s, pat, i + 1);
        let rest = occurrences_from(s, pat, i + 1);
        if occurs_at(s, pat, i) {
            assert forall|q: int|
                0 <= q < occurrences_from(s, pat, i).len() implies i <= #[trigger] occurrences_from(s, pat, i)[q]
                && occurrences_from(s, pat, i)[q] + pat.len() <= s.len() by {
                if q > 0 {
                    assert(occurrences_from(s, pat, i)[q] == rest[q - 1]);
                }
            }
        }
    }
}

/// Whether the drawn text of a buffer may come from the cache of drawn texts:
/// only when nothing is highlighted and no line is selected.
pub fn highlight_uses_cache(search_highlight: &Option<String>, selected_line: Option<usize>) -> (b:
    bool)
    ensures
        b == (search_highlight.is_none() && selected_line.is_none()),
{
    search_highlight.is_none() && selected_line.is_none()
}

/// Whether line `line_index` (from zero) is the selected line (counted from one).
pub fn is_selected_line(line_index: usize, selected_line: Option<usize>) -> (b: bool)
    ensures
        b == match selected_line {
            Some(sel) => line_index + 1 == sel,
            None => false,
        },
{
    match selected_line {
        Some(sel) => sel > 0 && sel - 1 == line_index,
        None => false,
    }
}

/// Whether the byte ranges `rs` cover `a..b` exactly: each is non-empty and
/// starts where the one before it ends, the first at `a`, the last ending at `b`.
pub open spec fn ranges_tile(rs: Seq<(int, int)>, a: int, b: int) -> bool
    decreases rs.len(),
{
    if rs.len() == 0 {
        a == b
    } else {
        rs[0].0 == a && rs[0].0 < rs[0].1 && ranges_tile(rs.drop_first(), rs[0].1, b)
    }
}

proof fn lemma_pieces_tile(b: Seq<u8>, i: int)
    requires
        0 <= i <= b.len(),
    ensures
        ranges_tile(pieces_with_endings_from(b, i), i, b.len() as int),
        forall|k: int|
            0 <= k < pieces_with_endings_from(b, i).len() - 1 ==> b[#[trigger] pieces_with_endings_from(b, i)[k].1 - 1] == 10u8,
    decreases b.len() - i,
{
    if i < b.len() {
        lemma_find_byte_from_bounds(b, 10u8, i);
        let j = find_byte_from(b, 10u8, i);
        let ps = pieces_with_endings_from(b, i);
        if j >= b.len() {
            assert(ps.drop_first() =~= Seq::<(int, int)>::empty());
            assert(ranges_tile(ps.drop_first(), b.len() as int, b.len() as int));
        } else {
            lemma_pieces_tile(b, j + 1);
            let rest = pieces_with_endings_from(b, j + 1);
            assert(ps == seq![(i, j + 1)] + rest);
            assert(ps.drop_first() =~= rest);
            assert forall|k: int| 0 <= k < ps.len() - 1 implies b[#[trigger] ps[k].1 - 1] == 10u8 by {
                if k > 0 {
                    assert(ps[k] == rest[k - 1]);
                }
            }
        }
    }
}

/// The lines of a text, each with its line ending, cover it exactly and in
/// order, none empty, and every line but the last ends with its `\n`; with
/// `lemma_line_segments_tile`, a drawn buffer shows its text as it is.
pub proof fn lemma_lines_cover_code(code: Seq<u8>)
    ensures
        ranges_tile(pieces_with_endings_from(code, 0), 0, code.len() as int),
        forall|k: int|
            0 <= k < pieces_with_endings_from(code, 0).len() - 1 ==> code[#[trigger] pieces_with_endings_from(code, 0)[k].1 - 1] == 10u8,
{
    lemma_pieces_tile(code, 0);
}

/// The byte ranges of the lines of `code`, each with its line ending.
pub fn lines_with_endings(code: &str) -> (r: Vec<(usize, usize)>)
    ensures
        r@.len() == pieces_with_endings_from(code.spec_bytes(), 0).len(),
        forall|k: int|
            0 <= k < r@.len() ==> (#[trigger] r@[k]).0 == pieces_with_endings_from(code.spec_bytes(), 0)[k].0
                && r@[k].1 == pieces_with_endings_from(code.spec_bytes(), 0)[k].1,
{
    let b = code.as_bytes();
    let n = b.len();
    let mut r: Vec<(usize, usize)> = Vec::new();
    let ghost mut acc: Seq<(int, int)> = Seq::empty();
    let mut pos: usize = 0;
    while pos < n
        invariant
            n == b@.len(),
            b@ == code.spec_bytes(),
            pos <= n,
            acc + pieces_with_endings_from(b@, pos as int) == pieces_with_endings_from(b@, 0),
            r@.len() == acc.len(),
            forall|k: int| 0 <= k < r@.len() ==> (#[trigger] r@[k]).0 == acc[k].0 && r@[k].1 == acc[k].1,
        decreases n - pos,
    {
        proof {
            lemma_find_byte_from_bounds(b@, 10u8, pos as int);
        }
        let mut j = pos;
        while j < n && b[j] != 10u8
            invariant
                n == b@.len(),
                pos <= j <= n,
                forall|k: int| pos <= k < j ==> b@[k] != 10u8,
            decreases n - j,
        {
            j = j + 1;
        }
        assert(j == find_byte_from(b@, 10u8, pos as int)) by {
            let f = find_byte_from(b@, 10u8, pos as int);
            if f < j {
                assert(b@[f] == 10u8);
            }
            if j < f {
                assert(b@[j as int] == 10u8);
            }
        }
        let ghost old_acc = acc;
        if j >= n {
            r.push((pos, n));
            proof {
                acc = acc.push((pos as int, n as int));
                assert(pieces_with_endings_from(b@, n as int) =~= Seq::empty());
                assert(old_acc + pieces_with_endings_from(b@, pos as int) =~= acc + pieces_with_endings_from(b@, n as int));
            }
            pos = n;
        } else {
            r.push((pos, j + 1));
            proof {
                acc = acc.push((pos as int, j + 1));
                assert(old_acc + pieces_with_endings_from(b@, pos as int) =~= acc + pieces_with_endings_from(b@, j + 1));
            }
            pos = j + 1;
        }
    }
    assert(pieces_with_endings_from(b@, pos as int) =~= Seq::empty());
    assert(acc =~= pieces_with_endings_from(b@, 0));
    r
}

} // verus!
