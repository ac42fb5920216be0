//! Text model shared by the editor and the search: a text is its sequence of
//! characters, and its lines are those that `str::lines` yields.
use vstd::prelude::*;
use vstd::string::StringSliceAdditionalSpecFns;
use vstd::string::StringExecFns;

verus! {

/// `pat` occurs in `s` starting at index `i`.
pub open spec fn occurs_at<A>(s: Seq<A>, pat: Seq<A>, i: int) -> bool {
    0 <= i && i + pat.len() <= s.len() && s.subrange(i, i + pat.len()) == pat
}

/// `pat` is a substring of `s` (the empty pattern is a substring of every text).
pub open spec fn contains_seq<A>(s: Seq<A>, pat: Seq<A>) -> bool {
    exists|i: int| occurs_at(s, pat, i)
}

/// `s` begins with `pat`.
pub open spec fn starts_with_seq<A>(s: Seq<A>, pat: Seq<A>) -> bool {
    pat.len() <= s.len() && s.subrange(0, pat.len() as int) == pat
}

/// `s` ends with `pat`.
pub open spec fn ends_with_seq<A>(s: Seq<A>, pat: Seq<A>) -> bool {
    pat.len() <= s.len() && s.subrange(s.len() - pat.len(), s.len() as int) == pat
}

/// Index of the first `c` in `s` at or after `i`, or `s.len()` when there is none.
pub open spec fn find_char_from(s: Seq<char>, c: char, i: int) -> int
    decreases s.len() - i,
{
    if i >= s.len() {
        s.len() as int
    } else if i >= 0 && s[i] == c {
        i
    } else {
        find_char_from(s, c, i + 1)
    }
}

/// A line that ended in `\n` loses one trailing `\r`.
pub open spec fn strip_cr(line: Seq<char>) -> Seq<char> {
    if line.len() > 0 && line.last() == '\r' {
        line.drop_last()
    } else {
        line
    }
}

/// The lines of `s` from index `i` on, as `str::lines` yields them: split at
/// each `\n`, a `\r` before that `\n` removed, no empty line after a final `\n`.
pub open spec fn lines_from(s: Seq<char>, i: int) -> Seq<Seq<char>>
    decreases s.len() - i,
{
    if i < 0 || i >= s.len() {
        Seq::empty()
    } else {
        let j = find_char_from(s, '\n', i);
        if j >= s.len() {
            seq![s.subrange(i, s.len() as int)]
        } else {
            proof {
                lemma_find_char_from_bounds(s, '\n', i);
            }
            seq![strip_cr(s.subrange(i, j))] + lines_from(s, j + 1)
        }
    }
}

/// The lines of a text.
pub open spec fn lines(s: Seq<char>) -> Seq<Seq<char>> {
    lines_from(s, 0)
}

pub proof fn lemma_find_char_from_bounds(s: Seq<char>, c: char, i: int)
    requires
        0 <= i,
    ensures
        i <= find_char_from(s, c, i) <= s.len() || (i > s.len() && find_char_from(s, c, i)
            == s.len()),
        find_char_from(s, c, i) < s.len() ==> s[find_char_from(s, c, i)] == c,
        forall|k: int| i <= k < find_char_from(s, c, i) ==> s[k] != c,
    decreases s.len() - i,
{
    if i < s.len() && s[i] != c {
        lemma_find_char_from_bounds(s, c, i + 1);
    }
}

/// The characters of a string slice, in order.
pub fn to_chars(s: &str) -> (v: Vec<char>)
    ensures
        v@ == s@,
{
    let mut v: Vec<char> = Vec::new();
    for c in it: s.chars()
        invariant
            v@ == it.seq().take(it.index()),
    {
        v.push(c);
    }
    v
}


/// One line's span: the line is `s[start..end]`.
pub open spec fn span_is_line(s: Seq<char>, span: (usize, usize), line: Seq<char>) -> bool {
    span.0 <= span.1 <= s.len() && s.subrange(span.0 as int, span.1 as int) == line
}

proof fn lemma_lines_from_step(s: Seq<char>, i: int)
    requires
        0 <= i < s.len(),
    ensures
        ({
            let j = find_char_from(s, '\n', i);
            &&& i <= j <= s.len()
            &&& j < s.len() ==> s[j] == '\n'
            &&& forall|k: int| i <= k < j ==> s[k] != '\n'
            &&& j >= s.len() ==> lines_from(s, i) == seq![s.subrange(i, s.len() as int)]
            &&& j < s.len() ==> lines_from(s, i) == seq![strip_cr(s.subrange(i, j))]
                + lines_from(s, j + 1)
        }),
{
    lemma_find_char_from_bounds(s, '\n', i);
}

/// The spans of the lines of `s`, in order.
pub fn line_spans(s: &Vec<char>) -> (spans: Vec<(usize, usize)>)
    ensures
        spans@.len() == lines(s@).len(),
        forall|k: int| 0 <= k < spans@.len() ==> span_is_line(s@, #[trigger] spans@[k], lines(s@)[k]),
{
    let mut spans: Vec<(usize, usize)> = Vec::new();
    let ghost mut acc: Seq<Seq<char>> = Seq::empty();
    let mut pos: usize = 0;
    let n = s.len();
    while pos < n
        invariant
            n == s@.len(),
            pos <= n,
            acc + lines_from(s@, pos as int) == lines(s@),
            spans@.len() == acc.len(),
            forall|k: int| 0 <= k < spans@.len() ==> span_is_line(s@, #[trigger] spans@[k], acc[k]),
        decreases n - pos,
    {
        proof {
            lemma_lines_from_step(s@, pos as int);
        }
        let mut j = pos;
        while j < n && s[j] != '\n'
            invariant
                n == s@.len(),
                pos <= j <= n,
                forall|k: int| pos <= k < j ==> s@[k] != '\n',
            decreases n - j,
        {
            j = j + 1;
        }
        assert(j == find_char_from(s@, '\n', pos as int)) by {
            let f = find_char_from(s@, '\n', pos as int);
            if f < j {
                assert(s@[f] == '\n');
            }
            if j < f {
                assert(s@[j as int] == '\n');
            }
        }
        if j >= n {
            let ghost line = s@.subrange(pos as int, n as int);
            spans.push((pos, n));
            proof {
                assert(lines_from(s@, n as int) =~= Seq::empty());
                acc = acc.push(line);
                assert(acc + lines_from(s@, n as int) =~= lines(s@));
            }
            pos = n;
        } else {
            let mut end = j;
            if j > pos && s[j - 1] == '\r' {
                end = j - 1;
            }
            let ghost line = strip_cr(s@.subrange(pos as int, j as int));
            assert(s@.subrange(pos as int, end as int) =~= line);
            spans.push((pos, end));
            proof {
                let old_acc = acc;
                acc = acc.push(line);
                assert(old_acc + lines_from(s@, pos as int) =~= acc + lines_from(s@, j + 1));
            }
            pos = j + 1;
        }
    }
    assert(lines_from(s@, pos as int) =~= Seq::empty());
    assert(acc =~= lines(s@));
    spans
}

/// The first index at or after `from` at which `pat` occurs in `s`.
pub fn find_from(s: &Vec<char>, pat: &Vec<char>, from: usize) -> (r: Option<usize>)
    requires
        from <= s@.len(),
    ensures
        match r {
            Some(i) => from <= i && occurs_at(s@, pat@, i as int) && forall|k: int|
                from <= k < i ==> !occurs_at(s@, pat@, k),
            None => forall|k: int| from <= k ==> !occurs_at(s@, pat@, k),
        },
{
    let n = s.len();
    let m = pat.len();
    if m > n {
        return None;
    }
    let mut i = from;
    while i <= n - m
        invariant
            n == s@.len(),
            m == pat@.len(),
            m <= n,
            from <= i <= n + 1,
            forall|k: int| from <= k < i ==> !occurs_at(s@, pat@, k),
        decreases n - i,
    {
        let mut t: usize = 0;
        while t < m && s[i + t] == pat[t]
            invariant
                n == s@.len(),
                m == pat@.len(),
                i + m <= n,
                t <= m,
                forall|q: int| 0 <= q < t ==> s@[i + q] == pat@[q],
            decreases m - t,
        {
            t = t + 1;
        }
        if t == m {
            assert(s@.subrange(i as int, i + m) =~= pat@);
            return Some(i);
        }
        assert(s@.subrange(i as int, i + m)[t as int] != pat@[t as int]);
        i = i + 1;
    }
    None
}

/// Whether `pat` occurs in `s`.
pub fn contains_chars(s: &Vec<char>, pat: &Vec<char>) -> (b: bool)
    ensures
        b == contains_seq(s@, pat@),
{
    match find_from(s, pat, 0) {
        Some(i) => true,
        None => {
            assert forall|k: int| !occurs_at(s@, pat@, k) by {
                if k < 0 {
                }
            }
            false
        },
    }
}

/// Whether `s` begins with `pat`.
pub fn starts_with_chars(s: &Vec<char>, pat: &Vec<char>) -> (b: bool)
    ensures
        b == starts_with_seq(s@, pat@),
{
    if pat.len() > s.len() {
        return false;
    }
    let mut t: usize = 0;
    while t < pat.len()
        invariant
            pat@.len() <= s@.len(),
            t <= pat@.len(),
            forall|q: int| 0 <= q < t ==> s@[q] == pat@[q],
        decreases pat@.len() - t,
    {
        if s[t] != pat[t] {
            assert(s@.subrange(0, pat@.len() as int)[t as int] != pat@[t as int]);
            return false;
        }
        t = t + 1;
    }
    assert(s@.subrange(0, pat@.len() as int) =~= pat@);
    true
}

/// The characters `s[start..end]` as a vector.
pub fn slice_chars(s: &Vec<char>, start: usize, end: usize) -> (r: Vec<char>)
    requires
        start <= end <= s@.len(),
    ensures
        r@ == s@.subrange(start as int, end as int),
{
    let mut r: Vec<char> = Vec::new();
    let mut i = start;
    while i < end
        invariant
            start <= i <= end <= s@.len(),
            r@ == s@.subrange(start as int, i as int),
        decreases end - i,
    {
        r.push(s[i]);
        i = i + 1;
        assert(r@ =~= s@.subrange(start as int, i as int));
    }
    r
}

/// Appends one character to a string (`String::push`).
#[verifier::external_body]
pub(crate) fn push_char(s: &mut String, c: char)
    ensures
        final(s)@ == old(s)@.push(c),
{
    s.push(c);
}

/// The string made of the given characters.
pub fn string_from_chars(v: &Vec<char>) -> (s: String)
    ensures
        s@ == v@,
{
    let mut s = String::new();
    let mut i: usize = 0;
    while i < v.len()
        invariant
            i <= v@.len(),
            s@ == v@.subrange(0, i as int),
        decreases v@.len() - i,
    {
        push_char(&mut s, v[i]);
        i = i + 1;
        assert(s@ =~= v@.subrange(0, i as int));
    }
    assert(v@.subrange(0, v@.len() as int) =~= v@);
    s
}

/// The string `s[start..end]`, counted in characters.
pub fn substring(s: &Vec<char>, start: usize, end: usize) -> (r: String)
    requires
        start <= end <= s@.len(),
    ensures
        r@ == s@.subrange(start as int, end as int),
{
    let v = slice_chars(s, start, end);
    string_from_chars(&v)
}


/// All positions, in increasing order, from `i` on, at which `pat` occurs in `s`
/// (overlapping occurrences included).
pub open spec fn occurrences_from<A>(s: Seq<A>, pat: Seq<A>, i: int) -> Seq<int>
    decreases s.len() + 1 - i,
{
    if i < 0 || i + pat.len() > s.len() {
        Seq::empty()
    } else if occurs_at(s, pat, i) {
        seq![i] + occurrences_from(s, pat, i + 1)
    } else {
        occurrences_from(s, pat, i + 1)
    }
}

/// Number of `\n` bytes in `b`.
pub open spec fn count_newlines(b: Seq<u8>) -> nat
    decreases b.len(),
{
    if b.len() == 0 {
        0
    } else {
        count_newlines(b.drop_last()) + if b.last() == 10u8 {
            1nat
        } else {
            0nat
        }
    }
}

/// Index of the first byte `c` in `b` at or after `i`, or `b.len()`.
pub open spec fn find_byte_from(b: Seq<u8>, c: u8, i: int) -> int
    decreases b.len() - i,
{
    if i >= b.len() {
        b.len() as int
    } else if i >= 0 && b[i] == c {
        i
    } else {
        find_byte_from(b, c, i + 1)
    }
}

/// A line of bytes that ended in `\n` loses one trailing `\r`.
pub open spec fn strip_cr_bytes(line: Seq<u8>) -> Seq<u8> {
    if line.len() > 0 && line.last() == 13u8 {
        line.drop_last()
    } else {
        line
    }
}

pub proof fn lemma_find_byte_from_bounds(b: Seq<u8>, c: u8, i: int)
    requires
        0 <= i,
    ensures
        i <= find_byte_from(b, c, i) <= b.len() || (i > b.len() && find_byte_from(b, c, i)
            == b.len()),
        find_byte_from(b, c, i) < b.len() ==> b[find_byte_from(b, c, i)] == c,
        forall|k: int| i <= k < find_byte_from(b, c, i) ==> b[k] != c,
    decreases b.len() - i,
{
    if i < b.len() && b[i] != c {
        lemma_find_byte_from_bounds(b, c, i + 1);
    }
}

/// The lines of a UTF-8 byte text from index `i` on, as `str::lines` yields them.
pub open spec fn byte_lines_from(b: Seq<u8>, i: int) -> Seq<Seq<u8>>
    decreases b.len() - i,
{
    if i < 0 || i >= b.len() {
        Seq::empty()
    } else {
        let j = find_byte_from(b, 10u8, i);
        if j >= b.len() {
            seq![b.subrange(i, b.len() as int)]
        } else {
            proof {
                lemma_find_byte_from_bounds(b, 10u8, i);
            }
            seq![strip_cr_bytes(b.subrange(i, j))] + byte_lines_from(b, j + 1)
        }
    }
}

/// The lines of a UTF-8 byte text.
pub open spec fn byte_lines(b: Seq<u8>) -> Seq<Seq<u8>> {
    byte_lines_from(b, 0)
}

/// The pieces that `LinesWithEndings` yields from index `i` on: each piece runs
/// up to and including a `\n`, the last one up to the end of the text.
pub open spec fn pieces_with_endings_from(b: Seq<u8>, i: int) -> Seq<(int, int)>
    decreases b.len() - i,
{
    if i < 0 || i >= b.len() {
        Seq::empty()
    } else {
        let j = find_byte_from(b, 10u8, i);
        if j >= b.len() {
            seq![(i, b.len() as int)]
        } else {
            proof {
                lemma_find_byte_from_bounds(b, 10u8, i);
            }
            seq![(i, j + 1)] + pieces_with_endings_from(b, j + 1)
        }
    }
}


/// Whether two string slices hold the same characters.
pub fn str_eq(a: &str, b: &str) -> (r: bool)
    ensures
        r == (a@ == b@),
{
    let x = a.as_bytes();
    let y = b.as_bytes();
    proof {
        vstd::utf8::encode_utf8_decode_utf8(a@);
        vstd::utf8::encode_utf8_decode_utf8(b@);
    }
    if x.len() != y.len() {
        return false;
    }
    let mut i: usize = 0;
    while i < x.len()
        invariant
            x@.len() == y@.len(),
            x@ == a.spec_bytes(),
            y@ == b.spec_bytes(),
            i <= x@.len(),
            forall|q: int| 0 <= q < i ==> x@[q] == y@[q],
        decreases x@.len() - i,
    {
        if x[i] != y[i] {
            return false;
        }
        i = i + 1;
    }
    assert(x@ =~= y@);
    true
}


/// The decimal digit character for `d < 10`.
pub open spec fn digit_char(d: nat) -> char {
    ((48 + d) as u8) as char
}

/// The decimal representation of `n`, as `Display` writes it.
pub open spec fn decimal(n: nat) -> Seq<char>
    decreases n,
{
    if n < 10 {
        seq![digit_char(n)]
    } else {
        decimal(n / 10).push(digit_char(n % 10))
    }
}

/// The decimal representation of `n`.
pub fn decimal_string(n: u64) -> (s: String)
    ensures
        s@ == decimal(n as nat),
    decreases n,
{
    if n < 10 {
        let mut s = String::new();
        push_char(&mut s, ((48 + n) as u8) as char);
        assert(s@ =~= seq![digit_char(n as nat)]);
        s
    } else {
        let mut s = decimal_string(n / 10);
        push_char(&mut s, ((48 + n % 10) as u8) as char);
        s
    }
}


/// `c` has the Unicode `White_Space` property (`char::is_whitespace`).
pub open spec fn is_whitespace(c: char) -> bool {
    let u = c as u32;
    (0x9 <= u <= 0xD) || u == 0x20 || u == 0x85 || u == 0xA0 || u == 0x1680 || (0x2000 <= u
        <= 0x200A) || u == 0x2028 || u == 0x2029 || u == 0x202F || u == 0x205F || u == 0x3000
}

/// Whether `c` is white space.
pub fn char_is_whitespace(c: char) -> (b: bool)
    ensures
        b == is_whitespace(c),
{
    let u = c as u32;
    (0x9 <= u && u <= 0xD) || u == 0x20 || u == 0x85 || u == 0xA0 || u == 0x1680 || (0x2000 <= u
        && u <= 0x200A) || u == 0x2028 || u == 0x2029 || u == 0x202F || u == 0x205F || u == 0x3000
}

/// Index of the first non-white-space character at or after `i`, or `s.len()`.
pub open spec fn skip_ws_from(s: Seq<char>, i: int) -> int
    decreases s.len() - i,
{
    if i >= s.len() {
        s.len() as int
    } else if i >= 0 && is_whitespace(s[i]) {
        skip_ws_from(s, i + 1)
    } else {
        i
    }
}

/// One past the last non-white-space character before `j`, or 0.
pub open spec fn skip_ws_back(s: Seq<char>, j: int) -> int
    decreases j,
{
    if j <= 0 {
        0
    } else if j <= s.len() && is_whitespace(s[j - 1]) {
        skip_ws_back(s, j - 1)
    } else {
        j
    }
}

/// `s` without leading and trailing white space (`str::trim`).
pub open spec fn trim(s: Seq<char>) -> Seq<char> {
    let a = skip_ws_from(s, 0);
    if a >= s.len() {
        Seq::empty()
    } else {
        s.subrange(a, skip_ws_back(s, s.len() as int))
    }
}

pub proof fn lemma_skip_ws(s: Seq<char>, i: int, j: int)
    requires
        0 <= i <= s.len(),
        0 <= j <= s.len(),
    ensures
        i <= skip_ws_from(s, i) <= s.len(),
        forall|k: int| i <= k < skip_ws_from(s, i) ==> is_whitespace(s[k]),
        skip_ws_from(s, i) < s.len() ==> !is_whitespace(s[skip_ws_from(s, i)]),
        0 <= skip_ws_back(s, j) <= j,
        forall|k: int| skip_ws_back(s, j) <= k < j ==> is_whitespace(s[k]),
        skip_ws_back(s, j) > 0 ==> !is_whitespace(s[skip_ws_back(s, j) - 1]),
    decreases s.len() - i + j,
{
    if i < s.len() && is_whitespace(s[i]) {
        lemma_skip_ws(s, i + 1, j);
    }
    if j > 0 && is_whitespace(s[j - 1]) {
        lemma_skip_ws(s, i, j - 1);
    }
}

/// `s` without leading and trailing white space.
pub fn trim_str(s: &str) -> (r: String)
    ensures
        r@ == trim(s@),
{
    let v = to_chars(s);
    let n = v.len();
    proof {
        lemma_skip_ws(s@, 0, n as int);
    }
    let mut a: usize = 0;
    while a < n && char_is_whitespace(v[a])
        invariant
            v@ == s@,
            n == s@.len(),
            a <= n,
            forall|k: int| 0 <= k < a ==> is_whitespace(s@[k]),
        decreases n - a,
    {
        a = a + 1;
    }
    assert(a == skip_ws_from(s@, 0)) by {
        let f = skip_ws_from(s@, 0);
        if f < a {
            assert(!is_whitespace(s@[f]));
        }
        if a < f {
            assert(is_whitespace(s@[a as int]));
        }
    }
    if a >= n {
        return String::new();
    }
    let mut b: usize = n;
    while b > 0 && char_is_whitespace(v[b - 1])
        invariant
            v@ == s@,
            n == s@.len(),
            b <= n,
            forall|k: int| b <= k < n ==> is_whitespace(s@[k]),
        decreases b,
    {
        b = b - 1;
    }
    assert(b == skip_ws_back(s@, n as int)) by {
        let f = skip_ws_back(s@, n as int);
        if f < b {
            assert(is_whitespace(s@[b - 1]));
        }
        if b < f {
            assert(!is_whitespace(s@[f - 1]));
        }
    }
    assert(a < b) by {
        if b <= a {
            assert(!is_whitespace(s@[a as int]));
        }
    }
    substring(&v, a, b)
}


/// What `str::to_lowercase` makes of a text (its Unicode lowercase mapping).
pub uninterp spec fn lowercase(s: Seq<char>) -> Seq<char>;

/// `str::to_lowercase`.
#[verifier::external_body]
pub(crate) fn to_lowercase(s: &str) -> (r: String)
    ensures
        r@ == lowercase(s@),
{
    s.to_lowercase()
}


/// The views of a sequence of strings.
pub open spec fn strs_view(v: Seq<String>) -> Seq<Seq<char>> {
    Seq::new(v.len(), |i: int| v[i]@)
}

/// The parts joined with `sep` between each two (`[&str]::join`).
pub open spec fn join(parts: Seq<Seq<char>>, sep: Seq<char>) -> Seq<char>
    decreases parts.len(),
{
    if parts.len() == 0 {
        Seq::empty()
    } else if parts.len() == 1 {
        parts[0]
    } else {
        join(parts.drop_last(), sep) + sep + parts.last()
    }
}

/// The lines of `s` (see `lines`), each as a string.
pub fn lines_of(s: &str) -> (r: Vec<String>)
    ensures
        strs_view(r@) == lines(s@),
{
    let chars = to_chars(s);
    let spans = line_spans(&chars);
    let mut r: Vec<String> = Vec::new();
    let mut k: usize = 0;
    while k < spans.len()
        invariant
            chars@ == s@,
            spans@.len() == lines(s@).len(),
            forall|q: int| 0 <= q < spans@.len() ==> span_is_line(s@, #[trigger] spans@[q], lines(s@)[q]),
            k <= spans@.len(),
            r@.len() == k,
            forall|q: int| 0 <= q < k ==> (#[trigger] r@[q])@ == lines(s@)[q],
        decreases spans@.len() - k,
    {
        let (a, b) = spans[k];
        assert(span_is_line(s@, spans@[k as int], lines(s@)[k as int]));
        let line = substring(&chars, a, b);
        r.push(line);
        k = k + 1;
    }
    assert(strs_view(r@) =~= lines(s@));
    r
}

/// The strings joined with `sep` between each two.
pub fn join_strs(parts: &Vec<String>, sep: &str) -> (r: String)
    ensures
        r@ == join(strs_view(parts@), sep@),
{
    let mut r = String::new();
    let mut i: usize = 0;
    while i < parts.len()
        invariant
            i <= parts@.len(),
            r@ == join(strs_view(parts@).take(i as int), sep@),
        decreases parts@.len() - i,
    {
        let ghost before = strs_view(parts@).take(i as int);
        let ghost after = strs_view(parts@).take(i + 1);
        assert(after.drop_last() =~= before);
        if i > 0 {
            r.append(sep);
        }
        r.append(parts[i].as_str());
        i = i + 1;
        proof {
            if i == 1 {
                assert(r@ =~= after[0]);
            } else {
                assert(r@ =~= join(before, sep@) + sep@ + after.last());
            }
        }
    }
    assert(strs_view(parts@).take(parts@.len() as int) =~= strs_view(parts@));
    r
}

/// Whether `s` begins with `p`.
pub fn str_starts_with(s: &str, p: &str) -> (b: bool)
    ensures
        b == starts_with_seq(s@, p@),
{
    let x = to_chars(s);
    let y = to_chars(p);
    starts_with_chars(&x, &y)
}

/// Whether `p` occurs in `s`.
pub fn str_contains(s: &str, p: &str) -> (b: bool)
    ensures
        b == contains_seq(s@, p@),
{
    let x = to_chars(s);
    let y = to_chars(p);
    contains_chars(&x, &y)
}


/// One past the end of the run of non-white-space characters from `i`.
pub open spec fn word_end(s: Seq<char>, i: int) -> int
    decreases s.len() - i,
{
    if i < 0 || i >= s.len() || is_whitespace(s[i]) {
        i
    } else {
        word_end(s, i + 1)
    }
}

pub proof fn lemma_word_end(s: Seq<char>, i: int)
    requires
        0 <= i <= s.len(),
    ensures
        i <= word_end(s, i) <= s.len(),
        forall|k: int| i <= k < word_end(s, i) ==> !is_whitespace(#[trigger] s[k]),
        word_end(s, i) < s.len() ==> is_whitespace(s[word_end(s, i)]),
    decreases s.len() - i,
{
    if i < s.len() && !is_whitespace(s[i]) {
        lemma_word_end(s, i + 1);
    }
}

/// The words of `s` from `i` on, as `str::split_whitespace` yields them.
pub open spec fn words_from(s: Seq<char>, i: int) -> Seq<Seq<char>>
    decreases s.len() - i,
{
    if i < 0 || i > s.len() {
        Seq::empty()
    } else {
        let a = skip_ws_from(s, i);
        if a >= s.len() {
            Seq::empty()
        } else {
            proof {
                lemma_skip_ws(s, i, 0);
                lemma_word_end(s, a);
            }
            seq![s.subrange(a, word_end(s, a))] + words_from(s, word_end(s, a))
        }
    }
}

/// The words of `s`: its maximal runs of non-white-space characters.
pub open spec fn words(s: Seq<char>) -> Seq<Seq<char>> {
    words_from(s, 0)
}

/// The words of `s` (`str::split_whitespace`).
pub fn split_whitespace(s: &str) -> (r: Vec<String>)
    ensures
        strs_view(r@) == words(s@),
{
    let v = to_chars(s);
    let n = v.len();
    let mut r: Vec<String> = Vec::new();
    let ghost mut acc: Seq<Seq<char>> = Seq::empty();
    let mut i: usize = 0;
    while i < n
        invariant
            v@ == s@,
            n == s@.len(),
            i <= n,
            strs_view(r@) == acc,
            acc + words_from(s@, i as int) == words(s@),
        decreases n - i,
    {
        proof {
            lemma_skip_ws(s@, i as int, 0);
        }
        let mut a = i;
        while a < n && char_is_whitespace(v[a])
            invariant
                v@ == s@,
                n == s@.len(),
                i <= a <= n,
                forall|k: int| i <= k < a ==> is_whitespace(s@[k]),
            decreases n - a,
        {
            a = a + 1;
        }
        assert(a == skip_ws_from(s@, i as int)) by {
            let f = skip_ws_from(s@, i as int);
            if f < a {
                assert(is_whitespace(s@[f]));
            }
            if a < f {
                assert(is_whitespace(s@[a as int]));
            }
        }
        if a >= n {
            assert(words_from(s@, i as int) =~= Seq::<Seq<char>>::empty());
            i = n;
        } else {
            proof {
                lemma_word_end(s@, a as int);
            }
            let mut b = a;
            while b < n && !char_is_whitespace(v[b])
                invariant
                    v@ == s@,
                    n == s@.len(),
                    a <= b <= n,
                    forall|k: int| a <= k < b ==> !is_whitespace(s@[k]),
                decreases n - b,
            {
                b = b + 1;
            }
            assert(b == word_end(s@, a as int)) by {
                let f = word_end(s@, a as int);
                if f < b {
                    assert(!is_whitespace(s@[f]));
                }
                if b < f {
                    assert(!is_whitespace(s@[b as int]));
                }
            }
            let w = substring(&v, a, b);
            let ghost old_r = r@;
            r.push(w);
            proof {
                assert(strs_view(r@) =~= strs_view(old_r).push(s@.subrange(a as int, b as int)));
                let old_acc = acc;
                acc = acc.push(s@.subrange(a as int, b as int));
                assert(old_acc + words_from(s@, i as int) =~= acc + words_from(s@, b as int));
            }
            i = b;
        }
    }
    assert(words_from(s@, n as int) =~= Seq::<Seq<char>>::empty());
    assert(acc =~= words(s@));
    r
}

} // verus!
