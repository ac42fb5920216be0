//! A set of paths, such as the folders that a file tree shows expanded.
use vstd::prelude::*;
use crate::text::str_eq;
use crate::paths::{path_key, key_of};

verus! {

/// The set of the texts of `s`.
pub open spec fn set_of(s: Seq<String>) -> Set<Seq<char>>
    decreases s.len(),
{
    if s.len() == 0 {
        Set::empty()
    } else {
        set_of(s.drop_last()).insert(s.last()@)
    }
}

pub proof fn lemma_set_of(s: Seq<String>, q: Seq<char>)
    ensures
        set_of(s).contains(q) <==> exists|k: int| 0 <= k < s.len() && (#[trigger] s[k])@ == q,
    decreases s.len(),
{
    if s.len() > 0 {
        lemma_set_of(s.drop_last(), q);
        if set_of(s.drop_last()).contains(q) {
            let k = choose|k: int| 0 <= k < s.drop_last().len() && (#[trigger] s.drop_last()[k])@ == q;
            assert(s[k] == s.drop_last()[k]);
        }
        if exists|k: int| 0 <= k < s.len() && (#[trigger] s[k])@ == q {
            let k = choose|k: int| 0 <= k < s.len() && (#[trigger] s[k])@ == q;
            if k < s.len() - 1 {
                assert(s.drop_last()[k] == s[k]);
            }
        }
    }
}

/// The set with `p` flipped in or out, as a click on a folder does.
pub open spec fn toggle(s: Set<Seq<char>>, p: Seq<char>) -> Set<Seq<char>> {
    if s.contains(p) {
        s.remove(p)
    } else {
        s.insert(p)
    }
}

/// Flipping a folder twice leaves the set as it was.
pub proof fn lemma_toggle_twice(s: Set<Seq<char>>, p: Seq<char>)
    ensures
        toggle(toggle(s, p), p) == s,
{
    if s.contains(p) {
        assert(s.remove(p).insert(p) =~= s);
    } else {
        assert(s.insert(p).remove(p) =~= s);
    }
}

/// Paths as `std::path` compares them (see `path_key`), each held once as
/// far as callers go through these methods.
pub struct PathSet {
    pub items: Vec<String>,
}

impl View for PathSet {
    type V = Set<Seq<char>>;

    open spec fn view(&self) -> Set<Seq<char>> {
        set_of(self.items@)
    }
}

impl PathSet {
    /// The empty set.
    pub fn new() -> (s: Self)
        ensures
            s@ == Set::<Seq<char>>::empty(),
    {
        PathSet { items: Vec::new() }
    }

    fn contains_key(&self, p: &str) -> (b: bool)
        ensures
            b == self@.contains(p@),
    {
        proof {
            lemma_set_of(self.items@, p@);
        }
        let mut i: usize = 0;
        while i < self.items.len()
            invariant
                i <= self.items@.len(),
                forall|k: int| 0 <= k < i ==> (#[trigger] self.items@[k])@ != p@,
            decreases self.items@.len() - i,
        {
            if str_eq(self.items[i].as_str(), p) {
                proof {
                    lemma_set_of(self.items@, p@);
                }
                return true;
            }
            i = i + 1;
        }
        proof {
            lemma_set_of(self.items@, p@);
        }
        false
    }

    fn insert_key(&mut self, p: &str)
        ensures
            final(self)@ == old(self)@.insert(p@),
    {
        if !self.contains_key(p) {
            self.items.push(String::from_str(p));
            assert(self.items@.drop_last() =~= old(self).items@);
        } else {
            assert(old(self)@.insert(p@) =~= old(self)@);
        }
    }

    fn remove_key(&mut self, p: &str)
        ensures
            final(self)@ == old(self)@.remove(p@),
    {
        let mut out: Vec<String> = Vec::new();
        let mut i: usize = 0;
        while i < self.items.len()
            invariant
                i <= self.items@.len(),
                self.items@ == old(self).items@,
                set_of(out@) == set_of(self.items@.take(i as int)).remove(p@),
            decreases self.items@.len() - i,
        {
            let ghost before = set_of(self.items@.take(i as int));
            assert(self.items@.take(i + 1).drop_last() =~= self.items@.take(i as int));
            if !str_eq(self.items[i].as_str(), p) {
                let x = self.items[i].clone();
                let ghost old_out = out@;
                out.push(x);
                assert(out@.drop_last() =~= old_out);
                assert(set_of(out@) == set_of(old_out).insert(self.items@[i as int]@));
                assert(set_of(out@) =~= before.insert(self.items@[i as int]@).remove(p@));
            } else {
                assert(before.insert(p@).remove(p@) =~= before.remove(p@));
            }
            i = i + 1;
        }
        assert(self.items@.take(self.items@.len() as int) =~= self.items@);
        self.items = out;
    }

    /// Whether `p` is in the set, paths comparing as `std::path` compares them.
    pub fn contains(&self, p: &str) -> (b: bool)
        ensures
            b == self@.contains(path_key(p@)),
    {
        self.contains_key(key_of(p).as_str())
    }

    /// Adds `p`.
    pub fn insert(&mut self, p: &str)
        ensures
            final(self)@ == old(self)@.insert(path_key(p@)),
    {
        self.insert_key(key_of(p).as_str());
    }

    /// Removes `p`.
    pub fn remove(&mut self, p: &str)
        ensures
            final(self)@ == old(self)@.remove(path_key(p@)),
    {
        self.remove_key(key_of(p).as_str());
    }

    /// Empties the set.
    pub fn clear(&mut self)
        ensures
            final(self)@ == Set::<Seq<char>>::empty(),
    {
        self.items = Vec::new();
    }
}

} // verus!
