//! Paths, held as strings. Joining and splitting them goes through
//! `std::path`; the extension of a file name is computed here.
use vstd::prelude::*;

verus! {

/// The path that `Path::join` makes of `base` and `part`.
pub uninterp spec fn path_join(base: Seq<char>, part: Seq<char>) -> Seq<char>;

/// The final component that `Path::file_name` gives of a path, if any.
pub uninterp spec fn path_file_name(path: Seq<char>) -> Option<Seq<char>>;

/// The path that `Path::parent` gives, if any.
pub uninterp spec fn path_parent(path: Seq<char>) -> Option<Seq<char>>;

/// The path that `Path::with_file_name` makes of `path` and `name`.
pub uninterp spec fn path_with_file_name(path: Seq<char>, name: Seq<char>) -> Seq<char>;

/// What `std::path` compares of a path: its components, rebuilt into a path
/// by `Path::components` and `PathBuf`'s `FromIterator`.
pub uninterp spec fn path_key(path: Seq<char>) -> Seq<char>;

/// `Path::components` collected into a `PathBuf`: the path as it compares,
/// without repeated or trailing separators or `.` components after the first.
#[verifier::external_body]
pub(crate) fn key_of(path: &str) -> (r: String)
    ensures
        r@ == path_key(path@),
{
    std::path::Path::new(path).components().collect::<std::path::PathBuf>().to_string_lossy().into_owned()
}

/// `Path::join`: `part` appended to `base` as a further component (a `part`
/// that is itself absolute replaces `base`).
#[verifier::external_body]
pub(crate) fn join_path(base: &str, part: &str) -> (r: String)
    ensures
        r@ == path_join(base@, part@),
{
    std::path::Path::new(base).join(part).to_string_lossy().into_owned()
}

/// `Path::file_name`: the last component of the path, unless it is `..`.
#[verifier::external_body]
pub(crate) fn file_name_of(path: &str) -> (r: Option<String>)
    ensures
        match r {
            Some(n) => path_file_name(path@) == Some(n@),
            None => path_file_name(path@).is_none(),
        },
{
    std::path::Path::new(path).file_name().map(|n| n.to_string_lossy().into_owned())
}

/// `Path::parent`: the path without its last component, if it has one.
#[verifier::external_body]
pub(crate) fn parent_of(path: &str) -> (r: Option<String>)
    ensures
        match r {
            Some(p) => path_parent(path@) == Some(p@),
            None => path_parent(path@).is_none(),
        },
{
    std::path::Path::new(path).parent().map(|p| p.to_string_lossy().into_owned())
}

/// `Path::with_file_name`: the path with its last component replaced by `name`.
#[verifier::external_body]
pub(crate) fn with_file_name(path: &str, name: &str) -> (r: String)
    ensures
        r@ == path_with_file_name(path@, name@),
{
    std::path::Path::new(path).with_file_name(name).to_string_lossy().into_owned()
}

/// Index of the last `.` in `name`, if any.
pub open spec fn last_dot(name: Seq<char>) -> int
    decreases name.len(),
{
    if name.len() == 0 {
        -1
    } else if name.last() == '.' {
        name.len() - 1
    } else {
        last_dot(name.drop_last())
    }
}

/// The extension of a file name, as `Path::extension` gives it for a path whose
/// last component is `name`: the text after the last `.`, unless there is no
/// `.`, the only `.` leads the name, or the name is `..`.
pub open spec fn extension_of(name: Seq<char>) -> Option<Seq<char>> {
    let d = last_dot(name);
    if name == ".."@ || d <= 0 {
        None
    } else {
        Some(name.subrange(d + 1, name.len() as int))
    }
}

proof fn lemma_last_dot(name: Seq<char>)
    ensures
        -1 <= last_dot(name) < name.len(),
        last_dot(name) >= 0 ==> name[last_dot(name)] == '.',
        forall|k: int| last_dot(name) < k < name.len() ==> name[k] != '.',
    decreases name.len(),
{
    if name.len() > 0 && name.last() != '.' {
        lemma_last_dot(name.drop_last());
        assert forall|k: int| last_dot(name) < k < name.len() implies name[k] != '.' by {
            if k < name.len() - 1 {
                assert(name.drop_last()[k] == name[k]);
            }
        }
    }
}

/// The extension of a file name (see `extension_of`).
pub fn file_extension(name: &str) -> (r: Option<String>)
    ensures
        match r {
            Some(e) => extension_of(name@) == Some(e@),
            None => extension_of(name@).is_none(),
        },
{
    let chars = crate::text::to_chars(name);
    let n = chars.len();
    proof {
        lemma_last_dot(name@);
        reveal_strlit("..");
    }
    let mut i = n;
    while i > 0 && chars[i - 1] != '.'
        invariant
            i <= n == name@.len(),
            chars@ == name@,
            forall|k: int| i <= k < n ==> name@[k] != '.',
        decreases i,
    {
        i = i - 1;
    }
    assert(i as int - 1 == last_dot(name@)) by {
        let d = last_dot(name@);
        if d > i as int - 1 {
            assert(name@[d] == '.');
        }
        if d < i as int - 1 {
            assert(name@[i - 1] == '.');
        }
    }
    if i <= 1 {
        return None;
    }
    if n == 2 && chars[0] == '.' && chars[1] == '.' {
        assert(name@ =~= ".."@);
        return None;
    }
    assert(name@ != ".."@) by {
        if name@ == ".."@ {
            assert(name@.len() == 2);
        }
    }
    Some(crate::text::substring(&chars, i, n))
}

} // verus!
