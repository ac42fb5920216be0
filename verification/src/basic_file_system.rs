//! The plain project file system: a project directory and the order of a
//! listing's names (folders first, then by name).
use vstd::prelude::*;
use vstd::string::StringExecFns;
use crate::file_system::{sort_entries, entry_le};

verus! {

/// A name in a listing and whether it is a folder.
pub struct DirectoryEntry {
    pub name: String,
    pub is_dir: bool,
}

/// The entry with no size and no time, in the order of the cached file system.
pub open spec fn as_full(e: DirectoryEntry) -> crate::file_system::DirectoryEntry {
    crate::file_system::DirectoryEntry { name: e.name, is_dir: e.is_dir, size: 0, modified: 0 }
}

/// The entries are in listing order: folders first, then by name.
pub open spec fn sorted(s: Seq<DirectoryEntry>) -> bool {
    forall|i: int, j: int| 0 <= i < j < s.len() ==> entry_le(as_full(#[trigger] s[i]), as_full(#[trigger] s[j]))
}

/// A project's file system.
pub struct FileSystem {
    pub project_directory: String,
}

impl FileSystem {
    /// The file system of the project in `project_directory`.
    pub fn new(project_directory: &str) -> (fs: Self)
        ensures
            fs.project_directory@ == project_directory@,
    {
        FileSystem { project_directory: String::from_str(project_directory) }
    }

    /// The project directory.
    pub fn get_project_directory(&self) -> (d: &str)
        ensures
            d@ == self.project_directory@,
    {
        self.project_directory.as_str()
    }

    /// A directory's entries, as read, put in listing order.
    pub fn list_directory(&self, read: Vec<DirectoryEntry>) -> (r: Vec<DirectoryEntry>)
        ensures
            sorted(r@),
            r@.map_values(|e: DirectoryEntry| as_full(e)).to_multiset() == read@.map_values(
                |e: DirectoryEntry| as_full(e),
            ).to_multiset(),
    {
        let mut full: Vec<crate::file_system::DirectoryEntry> = Vec::new();
        let mut i: usize = 0;
        let mut src = read;
        let ghost orig = src@;
        while i < src.len()
            invariant
                src@ == orig,
                i <= src@.len(),
                full@ == orig.take(i as int).map_values(|e: DirectoryEntry| as_full(e)),
            decreases src@.len() - i,
        {
            let e = &src[i];
            full.push(crate::file_system::DirectoryEntry { name: e.name.clone(), is_dir: e.is_dir, size: 0, modified: 0 });
            i = i + 1;
            assert(full@ =~= orig.take(i as int).map_values(|e: DirectoryEntry| as_full(e)));
        }
        assert(orig.take(orig.len() as int) =~= orig);
        let ghost fv = full@;
        let sorted_full = sort_entries(full);
        assert forall|q: int| 0 <= q < sorted_full@.len() implies (#[trigger] sorted_full@[q]).size == 0
            && sorted_full@[q].modified == 0 by {
            let x = sorted_full@[q];
            vstd::seq_lib::to_multiset_contains(sorted_full@, x);
            vstd::seq_lib::to_multiset_contains(fv, x);
            assert(sorted_full@.contains(x));
            let j = choose|j: int| 0 <= j < fv.len() && fv[j] == x;
            assert(fv[j] == as_full(orig[j]));
        }
        let mut r: Vec<DirectoryEntry> = Vec::new();
        let mut k: usize = 0;
        while k < sorted_full.len()
            invariant
                k <= sorted_full@.len(),
                r@.len() == k,
                forall|q: int| 0 <= q < k ==> as_full(#[trigger] r@[q]) == sorted_full@[q],
                forall|q: int| 0 <= q < sorted_full@.len() ==> (#[trigger] sorted_full@[q]).size == 0
                    && sorted_full@[q].modified == 0,
            decreases sorted_full@.len() - k,
        {
            let e = &sorted_full[k];
            r.push(DirectoryEntry { name: e.name.clone(), is_dir: e.is_dir });
            k = k + 1;
        }
        assert(r@.map_values(|e: DirectoryEntry| as_full(e)) =~= sorted_full@);
        r
    }
}

} // verus!
