//! A small map from string keys to values, kept as a list of distinct keys.
use vstd::prelude::*;

verus! {

/// Entries with pairwise distinct keys.
pub struct KeyedList<V> {
    pub entries: Vec<(String, V)>,
}

/// Index of the first entry whose key is `k`, or -1.
pub open spec fn index_of<V>(s: Seq<(String, V)>, k: Seq<char>) -> int
    decreases s.len(),
{
    if s.len() == 0 {
        -1
    } else if s.last().0@ == k {
        let i = index_of(s.drop_last(), k);
        if i >= 0 {
            i
        } else {
            s.len() - 1
        }
    } else {
        index_of(s.drop_last(), k)
    }
}

impl<V> KeyedList<V> {
    /// No key occurs twice.
    pub open spec fn wf(&self) -> bool {
        forall|i: int, j: int|
            0 <= i < j < self.entries@.len() ==> #[trigger] self.entries@[i].0@ != #[trigger] self.entries@[j].0@
    }

    /// The value stored under `k`.
    pub open spec fn lookup(&self, k: Seq<char>) -> Option<V> {
        let i = index_of(self.entries@, k);
        if i >= 0 {
            Some(self.entries@[i].1)
        } else {
            None
        }
    }

    /// An empty list.
    pub fn new() -> (r: Self)
        ensures
            r.wf(),
            forall|k: Seq<char>| r.lookup(k).is_none(),
    {
        KeyedList { entries: Vec::new() }
    }

    /// The position of the entry of `k`, if any.
    pub fn position(&self, k: &str) -> (r: Option<usize>)
        requires
            self.wf(),
        ensures
            match r {
                Some(i) => i < self.entries@.len() && self.entries@[i as int].0@ == k@ && index_of(
                    self.entries@,
                    k@,
                ) == i,
                None => index_of(self.entries@, k@) == -1,
            },
    {
        let mut i: usize = 0;
        while i < self.entries.len()
            invariant
                i <= self.entries@.len(),
                forall|q: int| 0 <= q < i ==> (#[trigger] self.entries@[q]).0@ != k@,
            decreases self.entries@.len() - i,
        {
            if crate::text::str_eq(self.entries[i].0.as_str(), k) {
                proof {
                    lemma_index_of_first(self.entries@, k@, i as int);
                }
                return Some(i);
            }
            i = i + 1;
        }
        proof {
            lemma_index_of_absent(self.entries@, k@);
        }
        None
    }

    /// The value stored under `k`.
    pub fn get(&self, k: &str) -> (r: Option<&V>)
        requires
            self.wf(),
        ensures
            match r {
                Some(v) => self.lookup(k@) == Some(*v),
                None => self.lookup(k@).is_none(),
            },
    {
        match self.position(k) {
            Some(i) => Some(&self.entries[i].1),
            None => None,
        }
    }

    /// Stores `v` under `k`, replacing what was there.
    pub fn insert(&mut self, k: String, v: V)
        requires
            old(self).wf(),
        ensures
            final(self).wf(),
            final(self).lookup(k@) == Some(v),
            forall|q: Seq<char>| q != k@ ==> final(self).lookup(q) == old(self).lookup(q),
    {
        match self.position(k.as_str()) {
            Some(i) => {
                let ghost old_entries = self.entries@;
                let ghost kv = k@;
                self.entries.set(i, (k, v));
                proof {
                    assert forall|q: Seq<char>| q != kv implies self.lookup(q) == old(self).lookup(q) by {
                        lemma_index_of_same_keys(old_entries, self.entries@, q);
                        lemma_index_of_bounds(old_entries, q);
                    }
                    lemma_index_of_same_keys(old_entries, self.entries@, kv);
                }
            },
            None => {
                let ghost old_entries = self.entries@;
                let ghost kv = k@;
                self.entries.push((k, v));
                proof {
                    assert(self.entries@.drop_last() =~= old_entries);
                    assert forall|q: Seq<char>| q != kv implies self.lookup(q) == old(self).lookup(q) by {
                        lemma_index_of_bounds(old_entries, q);
                        assert(index_of(self.entries@, q) == index_of(old_entries, q));
                    }
                    assert forall|i: int, j: int|
                        0 <= i < j < self.entries@.len() implies #[trigger] self.entries@[i].0@ != #[trigger] self.entries@[j].0@ by {
                        if j == self.entries@.len() - 1 {
                            lemma_index_of_absent_all(old_entries, kv, i);
                        }
                    }
                }
            },
        }
    }

    /// Removes the entry of `k` and returns its value.
    pub fn remove(&mut self, k: &str) -> (r: Option<V>)
        requires
            old(self).wf(),
        ensures
            final(self).wf(),
            r == old(self).lookup(k@),
            final(self).lookup(k@).is_none(),
            forall|q: Seq<char>| q != k@ ==> final(self).lookup(q) == old(self).lookup(q),
    {
        match self.position(k) {
            Some(i) => {
                let ghost old_entries = self.entries@;
                let (_, v) = self.entries.remove(i);
                proof {
                    assert(self.entries@ =~= old_entries.remove(i as int));
                    assert forall|q: Seq<char>| #![auto] q != k@ implies ((index_of(self.entries@, q) >= 0) == (
                        index_of(old_entries, q) >= 0)) && (index_of(self.entries@, q) >= 0 ==> self.entries@[index_of(self.entries@, q)].1 == old_entries[index_of(old_entries, q)].1) by {
                        lemma_index_of_remove(old_entries, i as int, q);
                    }
                    lemma_index_of_remove(old_entries, i as int, k@);
                }
                Some(v)
            },
            None => None,
        }
    }
}

proof fn lemma_index_of_bounds<V>(s: Seq<(String, V)>, k: Seq<char>)
    ensures
        -1 <= index_of(s, k) < s.len(),
        index_of(s, k) >= 0 ==> s[index_of(s, k)].0@ == k,
        index_of(s, k) >= 0 ==> forall|q: int| 0 <= q < index_of(s, k) ==> s[q].0@ != k,
        index_of(s, k) == -1 ==> forall|q: int| 0 <= q < s.len() ==> s[q].0@ != k,
    decreases s.len(),
{
    if s.len() > 0 {
        let d = s.drop_last();
        lemma_index_of_bounds(d, k);
        assert forall|q: int| 0 <= q < d.len() implies d[q] == s[q] by {}
    }
}

proof fn lemma_index_of_first<V>(s: Seq<(String, V)>, k: Seq<char>, i: int)
    requires
        0 <= i < s.len(),
        s[i].0@ == k,
        forall|q: int| 0 <= q < i ==> (#[trigger] s[q]).0@ != k,
    ensures
        index_of(s, k) == i,
{
    lemma_index_of_bounds(s, k);
}

proof fn lemma_index_of_absent<V>(s: Seq<(String, V)>, k: Seq<char>)
    requires
        forall|q: int| 0 <= q < s.len() ==> (#[trigger] s[q]).0@ != k,
    ensures
        index_of(s, k) == -1,
{
    lemma_index_of_bounds(s, k);
}

proof fn lemma_index_of_absent_all<V>(s: Seq<(String, V)>, k: Seq<char>, i: int)
    requires
        index_of(s, k) == -1,
        0 <= i < s.len(),
    ensures
        s[i].0@ != k,
{
    lemma_index_of_bounds(s, k);
}

proof fn lemma_index_of_same_keys<V>(a: Seq<(String, V)>, b: Seq<(String, V)>, k: Seq<char>)
    requires
        a.len() == b.len(),
        forall|q: int| 0 <= q < a.len() ==> (#[trigger] a[q]).0@ == b[q].0@,
    ensures
        index_of(a, k) == index_of(b, k),
    decreases a.len(),
{
    if a.len() > 0 {
        lemma_index_of_same_keys(a.drop_last(), b.drop_last(), k);
    }
}

proof fn lemma_index_of_remove<V>(s: Seq<(String, V)>, i: int, k: Seq<char>)
    requires
        0 <= i < s.len(),
        forall|p: int, q: int| 0 <= p < q < s.len() ==> #[trigger] s[p].0@ != #[trigger] s[q].0@,
    ensures
        k == s[i].0@ ==> index_of(s.remove(i), k) == -1,
        k != s[i].0@ ==> (index_of(s.remove(i), k) >= 0) == (index_of(s, k) >= 0),
        k != s[i].0@ && index_of(s, k) >= 0 ==> s.remove(i)[index_of(s.remove(i), k)].1 == s[index_of(s, k)].1,
{
    let r = s.remove(i);
    lemma_index_of_bounds(s, k);
    lemma_index_of_bounds(r, k);
    if k == s[i].0@ {
        assert forall|q: int| 0 <= q < r.len() implies (#[trigger] r[q]).0@ != k by {
            if q < i {
                assert(r[q] == s[q]);
            } else {
                assert(r[q] == s[q + 1]);
            }
        }
        lemma_index_of_absent(r, k);
    } else {
        let a = index_of(s, k);
        let b = index_of(r, k);
        if a >= 0 {
            let expect = if a < i { a } else { a - 1 };
            assert(r[expect] == s[a]);
            assert forall|q: int| 0 <= q < expect implies (#[trigger] r[q]).0@ != k by {
                if q < i {
                    assert(r[q] == s[q]);
                } else {
                    assert(r[q] == s[q + 1]);
                }
            }
            lemma_index_of_first(r, k, expect);
        } else {
            assert forall|q: int| 0 <= q < r.len() implies (#[trigger] r[q]).0@ != k by {
                if q < i {
                    assert(r[q] == s[q]);
                } else {
                    assert(r[q] == s[q + 1]);
                }
            }
            lemma_index_of_absent(r, k);
        }
    }
}

} // verus!
