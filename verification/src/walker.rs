//! A depth-first walk of a project directory that leaves out excluded
//! directories. The walk does no I/O: its owner lists each directory it is
//! asked for and hands the entries back, and the walk visits them in listing
//! order, each directory's contents before the next entry.
use vstd::prelude::*;
use crate::file_system::DirectoryEntry;
use crate::paths::{join_path, path_join};
use crate::search::{is_excluded, is_excluded_dir};

verus! {

/// Something still to visit: a directory to list, or a file with its name.
pub enum Pending {
    Dir(String),
    File(String, String),
}

/// A pending item as (is a directory, path, file name).
pub open spec fn pending_view(p: Pending) -> (bool, Seq<char>, Seq<char>) {
    match p {
        Pending::Dir(path) => (true, path@, Seq::empty()),
        Pending::File(path, name) => (false, path@, name@),
    }
}

/// What the entry `e` of directory `dir` adds to the walk: nothing for an
/// excluded directory, else the directory to list or the file.
pub open spec fn item_of(dir: Seq<char>, e: DirectoryEntry, excluded: Seq<Seq<char>>) -> Seq<(bool, Seq<char>, Seq<char>)> {
    if e.is_dir {
        if is_excluded(e.name@, excluded) {
            Seq::empty()
        } else {
            seq![(true, path_join(dir, e.name@), Seq::<char>::empty())]
        }
    } else {
        seq![(false, path_join(dir, e.name@), e.name@)]
    }
}

/// The items of `entries` in the order they are pushed: last entry first, so
/// that the first entry ends on top of the stack.
pub open spec fn pushed_items(dir: Seq<char>, entries: Seq<DirectoryEntry>, excluded: Seq<Seq<char>>) -> Seq<(bool, Seq<char>, Seq<char>)>
    decreases entries.len(),
{
    if entries.len() == 0 {
        Seq::empty()
    } else {
        pushed_items(dir, entries.drop_first(), excluded) + item_of(dir, entries[0], excluded)
    }
}

/// The walk's stack; its last element is visited next.
pub struct DirWalker {
    pub stack: Vec<Pending>,
}

impl DirWalker {
    /// The stack as (is a directory, path, file name) triples.
    pub open spec fn view(&self) -> Seq<(bool, Seq<char>, Seq<char>)> {
        self.stack@.map_values(|p: Pending| pending_view(p))
    }

    /// A walk that starts by listing `root`.
    pub fn new(root: &str) -> (w: Self)
        ensures
            w.view() == seq![(true, root@, Seq::<char>::empty())],
    {
        let mut stack: Vec<Pending> = Vec::new();
        stack.push(Pending::Dir(String::from_str(root)));
        let w = DirWalker { stack };
        assert(w.view() =~= seq![(true, root@, Seq::<char>::empty())]);
        w
    }

    /// Takes the next item to visit.
    pub fn pop(&mut self) -> (r: Option<Pending>)
        ensures
            old(self).view().len() == 0 ==> r.is_none() && final(self).view() == old(self).view(),
            old(self).view().len() > 0 ==> r.is_some() && pending_view(r.unwrap()) == old(self).view().last()
                && final(self).view() == old(self).view().drop_last(),
    {
        let r = self.stack.pop();
        proof {
            if old(self).view().len() > 0 {
                assert(self.view() =~= old(self).view().drop_last());
            }
        }
        r
    }

    /// Adds the entries of the listed directory `dir`, leaving out the
    /// excluded directories, so that they are visited in listing order.
    pub fn push_listing(&mut self, dir: &str, entries: &Vec<DirectoryEntry>, excluded: &Vec<String>)
        ensures
            final(self).view() == old(self).view() + pushed_items(dir@, entries@, excluded@.map_values(|s: String| s@)),
    {
        let ghost ex = excluded@.map_values(|s: String| s@);
        let mut i = entries.len();
        assert(entries@.subrange(i as int, entries@.len() as int) =~= Seq::<DirectoryEntry>::empty());
        assert(self.view() =~= old(self).view() + pushed_items(dir@, entries@.subrange(i as int, entries@.len() as int), ex));
        while i > 0
            invariant
                i <= entries@.len(),
                ex == excluded@.map_values(|s: String| s@),
                self.view() == old(self).view() + pushed_items(dir@, entries@.subrange(i as int, entries@.len() as int), ex),
            decreases i,
        {
            let ghost before = self.view();
            let e = &entries[i - 1];
            let path = join_path(dir, e.name.as_str());
            if e.is_dir {
                if !is_excluded_dir(e.name.as_str(), excluded) {
                    self.stack.push(Pending::Dir(path));
                }
            } else {
                self.stack.push(Pending::File(path, e.name.clone()));
            }
            proof {
                let sub = entries@.subrange(i - 1, entries@.len() as int);
                assert(sub.drop_first() =~= entries@.subrange(i as int, entries@.len() as int));
                assert(sub[0] == entries@[i - 1]);
                assert(self.view() =~= before + item_of(dir@, entries@[i - 1], ex));
            }
            i = i - 1;
        }
        assert(entries@.subrange(0, entries@.len() as int) =~= entries@);
    }
}

} // verus!
