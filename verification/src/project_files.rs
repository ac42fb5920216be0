//! The file browser's project-wide file lists: the files whose name contains
//! a query, and the source and text files of the project.
use vstd::prelude::*;
use crate::file_system::DirectoryEntry;
use crate::paths::{extension_of, file_extension};
use crate::search::{WalkAction, action_view, excluded_dirs, excluded_dir_names, extension_or_empty};
use crate::text::{lowercase, to_lowercase, contains_seq, to_chars, contains_chars, str_eq};
use crate::walker::{DirWalker, Pending, pushed_items};

verus! {

/// The next step of a file-name search over the stack `st` with results `found`:
/// files are matched on the spot, a directory is listed.
pub open spec fn name_advance(st: Seq<(bool, Seq<char>, Seq<char>)>, found: Seq<Seq<char>>, q: Seq<char>) -> (Seq<(bool, Seq<char>, Seq<char>)>, Seq<Seq<char>>, (int, Seq<char>))
    decreases st.len(),
{
    if st.len() == 0 {
        (st, found, (2, Seq::empty()))
    } else {
        let top = st.last();
        let rest = st.drop_last();
        if top.0 {
            (rest, found, (0, top.1))
        } else {
            name_advance(rest, if contains_seq(lowercase(top.2), q) { found.push(top.1) } else { found }, q)
        }
    }
}

/// The files of a project whose lower-cased name contains the lower-cased query.
pub struct FileNameSearch {
    pub walker: DirWalker,
    pub query_lower: String,
    pub excluded: Vec<String>,
    pub results: Vec<String>,
}

impl FileNameSearch {
    pub open spec fn wf(&self) -> bool {
        self.excluded@.map_values(|s: String| s@) == excluded_dir_names()
    }

    /// The results as paths.
    pub open spec fn found(&self) -> Seq<Seq<char>> {
        self.results@.map_values(|s: String| s@)
    }

    /// A search of the project at `project_path` for `query`; with no project
    /// or no file system there is nothing to walk.
    pub fn new(project_path: &Option<String>, has_file_system: bool, query: &str) -> (s: Self)
        ensures
            s.wf(),
            s.found().len() == 0,
            s.query_lower@ == lowercase(query@),
            match project_path {
                Some(p) => if has_file_system {
                    s.walker.view() == seq![(true, p@, Seq::<char>::empty())]
                } else {
                    s.walker.view().len() == 0
                },
                None => s.walker.view().len() == 0,
            },
    {
        let excluded = excluded_dirs();
        proof {
            assert(excluded@.map_values(|s: String| s@) =~= excluded_dir_names());
        }
        let mut walker = DirWalker { stack: Vec::new() };
        assert(walker.view() =~= Seq::empty());
        if let Some(p) = project_path {
            if has_file_system {
                walker = DirWalker::new(p.as_str());
            }
        }
        let s = FileNameSearch { walker, query_lower: to_lowercase(query), excluded, results: Vec::new() };
        assert(s.found() =~= Seq::empty());
        s
    }

    /// The next directory to list, matching the files met on the way
    /// (see `name_advance`).
    pub fn next_action(&mut self) -> (a: WalkAction)
        requires
            old(self).wf(),
        ensures
            final(self).wf(),
            final(self).query_lower == old(self).query_lower,
            (final(self).walker.view(), final(self).found(), action_view(a)) == name_advance(old(self).walker.view(), old(self).found(), old(self).query_lower@),
    {
        let q = to_chars(self.query_lower.as_str());
        loop
            invariant
                self.wf(),
                q@ == self.query_lower@,
                self.query_lower == old(self).query_lower,
                name_advance(self.walker.view(), self.found(), self.query_lower@) == name_advance(old(self).walker.view(), old(self).found(), old(self).query_lower@),
            decreases self.walker.view().len(),
        {
            match self.walker.pop() {
                None => {
                    return WalkAction::Done;
                },
                Some(Pending::Dir(path)) => {
                    return WalkAction::ListDirectory(path);
                },
                Some(Pending::File(path, name)) => {
                    let lower = to_lowercase(name.as_str());
                    let lc = to_chars(lower.as_str());
                    if contains_chars(&lc, &q) {
                        let ghost before = self.found();
                        self.results.push(path);
                        assert(self.found() =~= before.push(path@));
                    }
                },
            }
        }
    }

    /// The entries of directory `dir`, or `None` when it could not be listed.
    pub fn on_listing(&mut self, dir: &str, entries: Option<Vec<DirectoryEntry>>)
        requires
            old(self).wf(),
        ensures
            final(self).wf(),
            final(self).results@ == old(self).results@,
            final(self).query_lower == old(self).query_lower,
            match entries {
                Some(es) => final(self).walker.view() == old(self).walker.view() + pushed_items(dir@, es@, excluded_dir_names()),
                None => final(self).walker.view() == old(self).walker.view(),
            },
    {
        if let Some(es) = entries {
            self.walker.push_listing(dir, &es, &self.excluded);
        }
    }
}

/// The extensions of the files that count as source or text.
pub open spec fn text_extensions() -> Seq<Seq<char>> {
    seq![
        "rs"@, "ts"@, "js"@, "py"@, "java"@, "kt"@, "cpp"@, "h"@, "hpp"@, "c"@, "cs"@, "go"@, "rb"@,
        "php"@, "html"@, "css"@, "json"@, "yaml"@, "yml"@, "toml"@, "md"@, "txt"@, "xml"@, "gradle"@,
        "properties"@, "sh"@, "bat"@, "cmd"@, "ps1"@, "sql"@, "swift"@, "m"@, "mm"@,
    ]
}

/// Whether a file with extension `ext` (empty when it has none) counts as
/// source or text.
pub fn is_text_extension(ext: &str) -> (b: bool)
    ensures
        b == text_extensions().contains(ext@),
{
    let names: [&str; 33] = [
        "rs", "ts", "js", "py", "java", "kt", "cpp", "h", "hpp", "c", "cs", "go", "rb", "php",
        "html", "css", "json", "yaml", "yml", "toml", "md", "txt", "xml", "gradle", "properties",
        "sh", "bat", "cmd", "ps1", "sql", "swift", "m", "mm",
    ];
    let mut i: usize = 0;
    while i < 33
        invariant
            i <= 33,
            names@.map_values(|s: &str| s@) == text_extensions(),
            forall|k: int| 0 <= k < i ==> names@[k]@ != ext@,
        decreases 33 - i,
    {
        if str_eq(names[i], ext) {
            assert(text_extensions()[i as int] == ext@);
            return true;
        }
        i = i + 1;
    }
    assert forall|k: int| 0 <= k < 33 implies text_extensions()[k] != ext@ by {
        assert(text_extensions()[k] == names@[k]@);
    }
    false
}

/// The next step of collecting source files over the stack `st`.
pub open spec fn collect_advance(st: Seq<(bool, Seq<char>, Seq<char>)>, found: Seq<Seq<char>>) -> (Seq<(bool, Seq<char>, Seq<char>)>, Seq<Seq<char>>, (int, Seq<char>))
    decreases st.len(),
{
    if st.len() == 0 {
        (st, found, (2, Seq::empty()))
    } else {
        let top = st.last();
        let rest = st.drop_last();
        if top.0 {
            (rest, found, (0, top.1))
        } else {
            collect_advance(rest, if text_extensions().contains(extension_or_empty(top.2)) { found.push(top.1) } else { found })
        }
    }
}

/// The paths of all source and text files of a project.
pub struct SourceFileCollector {
    pub walker: DirWalker,
    pub excluded: Vec<String>,
    pub paths: Vec<String>,
}

impl SourceFileCollector {
    pub open spec fn wf(&self) -> bool {
        self.excluded@.map_values(|s: String| s@) == excluded_dir_names()
    }

    /// The paths found so far.
    pub open spec fn found(&self) -> Seq<Seq<char>> {
        self.paths@.map_values(|s: String| s@)
    }

    /// A walk of the project at `project_path`; with no project or no file
    /// system there is nothing to walk.
    pub fn new(project_path: &Option<String>, has_file_system: bool) -> (s: Self)
        ensures
            s.wf(),
            s.found().len() == 0,
            match project_path {
                Some(p) => if has_file_system {
                    s.walker.view() == seq![(true, p@, Seq::<char>::empty())]
                } else {
                    s.walker.view().len() == 0
                },
                None => s.walker.view().len() == 0,
            },
    {
        let excluded = excluded_dirs();
        proof {
            assert(excluded@.map_values(|s: String| s@) =~= excluded_dir_names());
        }
        let mut walker = DirWalker { stack: Vec::new() };
        assert(walker.view() =~= Seq::empty());
        if let Some(p) = project_path {
            if has_file_system {
                walker = DirWalker::new(p.as_str());
            }
        }
        let s = SourceFileCollector { walker, excluded, paths: Vec::new() };
        assert(s.found() =~= Seq::empty());
        s
    }

    /// The next directory to list, collecting the files met on the way
    /// (see `collect_advance`).
    pub fn next_action(&mut self) -> (a: WalkAction)
        requires
            old(self).wf(),
        ensures
            final(self).wf(),
            (final(self).walker.view(), final(self).found(), action_view(a)) == collect_advance(old(self).walker.view(), old(self).found()),
    {
        loop
            invariant
                self.wf(),
                collect_advance(self.walker.view(), self.found()) == collect_advance(old(self).walker.view(), old(self).found()),
            decreases self.walker.view().len(),
        {
            match self.walker.pop() {
                None => {
                    return WalkAction::Done;
                },
                Some(Pending::Dir(path)) => {
                    return WalkAction::ListDirectory(path);
                },
                Some(Pending::File(path, name)) => {
                    let ext = match file_extension(name.as_str()) {
                        Some(e) => e,
                        None => String::new(),
                    };
                    if is_text_extension(ext.as_str()) {
                        let ghost before = self.found();
                        self.paths.push(path);
                        assert(self.found() =~= before.push(path@));
                    }
                },
            }
        }
    }

    /// The entries of directory `dir`, or `None` when it could not be listed.
    pub fn on_listing(&mut self, dir: &str, entries: Option<Vec<DirectoryEntry>>)
        requires
            old(self).wf(),
        ensures
            final(self).wf(),
            final(self).paths@ == old(self).paths@,
            match entries {
                Some(es) => final(self).walker.view() == old(self).walker.view() + pushed_items(dir@, es@, excluded_dir_names()),
                None => final(self).walker.view() == old(self).walker.view(),
            },
    {
        if let Some(es) = entries {
            self.walker.push_listing(dir, &es, &self.excluded);
        }
    }
}

} // verus!
